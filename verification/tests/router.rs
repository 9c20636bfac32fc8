use file_server::request::Request;
use file_server::router::{file_path, router};

fn path(route: &str) -> String {
    file_path(&Request { method: "GET".to_string(), route: route.to_string() })
}

#[test]
fn root_route_is_the_index_document() {
    assert_eq!(path("/"), "portfolio/index.html");
}

#[test]
fn other_routes_follow_the_content_root() {
    assert_eq!(path("/about.html"), "portfolio/about.html");
    assert_eq!(path("/css/site.css"), "portfolio/css/site.css");
}

#[test]
fn route_is_appended_as_it_is() {
    assert_eq!(path("about.html"), "portfolioabout.html");
    assert_eq!(path(""), "portfolio");
    assert_eq!(path("//"), "portfolio//");
    assert_eq!(path("/index.html"), "portfolio/index.html");
    assert_eq!(path("/caf\u{e9}"), "portfolio/caf\u{e9}");
}

#[test]
fn method_plays_no_part_in_the_path() {
    let request = Request { method: "DELETE".to_string(), route: "/".to_string() };
    assert_eq!(file_path(&request), "portfolio/index.html");
}

#[test]
fn file_that_was_read_is_served() {
    let response = router(Some(b"<html></html>".to_vec()));
    assert_eq!(response.status, 200);
    assert_eq!(response.content, b"<html></html>".to_vec());
}

#[test]
fn empty_file_is_served_empty() {
    let response = router(Some(Vec::new()));
    assert_eq!(response.status, 200);
    assert_eq!(response.content, Vec::<u8>::new());
}

#[test]
fn failed_read_is_not_found() {
    let response = router(None);
    assert_eq!(response.status, 404);
    assert_eq!(response.content, b"<h1>404 Not Found</h1>".to_vec());
}

#[test]
fn path_of_a_validated_route_passes_validation() {
    for route in ["/", "/a.b", "/.hidden", "./x", "", "/a./.b"] {
        let request = Request { method: "GET".to_string(), route: route.to_string() };
        assert!(file_server::validator::validate_path(&request));
        let looked_up = Request { method: "GET".to_string(), route: file_path(&request) };
        assert!(file_server::validator::validate_path(&looked_up), "on {:?}", route);
    }
}
