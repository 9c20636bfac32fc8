use crate::request::Request;
use crate::response::{Response, ResponseView};
use crate::validator::has_traversal;
use crate::words::chars_of;
use vstd::prelude::*;
use vstd::string::*;
use vstd::utf8::encode_utf8;

verus! {

/// The directory that holds every file the server hands out.
pub open spec fn content_root() -> Seq<char> {
    "portfolio"@
}

/// The path of the document that answers the root route.
pub open spec fn index_document() -> Seq<char> {
    "portfolio/index.html"@
}

/// The path of the file that answers `route`: the index document for the root
/// route, and for every other route the content root with the route written
/// straight behind it. Nothing is normalised.
pub open spec fn file_path_of(route: Seq<char>) -> Seq<char> {
    if route == "/"@ {
        index_document()
    } else {
        content_root() + route
    }
}

/// The response that tells a client that nothing answers its route.
pub open spec fn not_found() -> ResponseView {
    ResponseView { status: 404, content: encode_utf8("<h1>404 Not Found</h1>"@) }
}

/// The response to a request whose file was looked up: the bytes of the file
/// with status 200 where the file could be read, and the not-found response
/// where it could not, whatever the reason.
pub open spec fn routed(found: Option<Seq<u8>>) -> ResponseView {
    match found {
        Some(bytes) => ResponseView { status: 200, content: bytes },
        None => not_found(),
    }
}

/// The files under the content root as the server meets them: each path that
/// can be read, with the bytes stored there. A path that cannot be read, for
/// whatever reason, is not in the map.
pub type Files = Map<Seq<char>, Seq<u8>>;

/// What reading the file at `path` gives.
pub open spec fn lookup(files: Files, path: Seq<char>) -> Option<Seq<u8>> {
    if files.contains_key(path) {
        Some(files[path])
    } else {
        None
    }
}

/// The response to `route` from the `files` under the content root.
pub open spec fn resolve(files: Files, route: Seq<char>) -> ResponseView {
    routed(lookup(files, file_path_of(route)))
}

/// A route other than the root route whose file can be read is answered with
/// status 200 and exactly the bytes stored at the content root followed by the
/// route.
pub proof fn lemma_resolve_serves_file(files: Files, route: Seq<char>)
    requires
        route != "/"@,
        files.contains_key(content_root() + route),
    ensures
        resolve(files, route) == (ResponseView {
            status: 200,
            content: files[content_root() + route],
        }),
{
}

/// The root route is answered from the index document: with its bytes and
/// status 200 where it can be read.
pub proof fn lemma_resolve_serves_index(files: Files)
    requires
        files.contains_key(index_document()),
    ensures
        resolve(files, "/"@) == (ResponseView { status: 200, content: files[index_document()] }),
{
}

/// A route whose file cannot be read is answered with status 404 and the
/// fixed not-found body, whatever made the read fail.
pub proof fn lemma_resolve_not_found(files: Files, route: Seq<char>)
    requires
        !files.contains_key(file_path_of(route)),
    ensures
        resolve(files, route) == not_found(),
        resolve(files, route).status == 404,
        resolve(files, route).content == encode_utf8("<h1>404 Not Found</h1>"@),
{
}

/// The path of a route without the parent-directory token holds no such
/// token either: what is written before the route brings none in.
pub proof fn lemma_path_holds_no_traversal(route: Seq<char>)
    requires
        !has_traversal(route),
    ensures
        !has_traversal(file_path_of(route)),
{
    reveal_strlit("portfolio");
    reveal_strlit("portfolio/index.html");
    let path = file_path_of(route);
    assert forall|i: int| 0 <= i && i + 1 < path.len() implies !(#[trigger] path[i] == '.' && path[i
        + 1] == '.') by {
        if route != "/"@ && i >= 9 {
            assert(path[i] == route[i - 9]);
            assert(path[i + 1] == route[i - 9 + 1]);
        }
    }
}

/// The path under the content root at which the route of `request` is looked up.
pub fn file_path(request: &Request) -> (path: String)
    ensures
        path@ == file_path_of(request@.route),
{
    let route = chars_of(request.route.as_str());
    proof {
        reveal_strlit("/");
    }
    if route.len() == 1 && route[0] == '/' {
        assert(request@.route =~= "/"@);
        String::from_str("portfolio/index.html")
    } else {
        let mut path = String::from_str("portfolio");
        path.append(request.route.as_str());
        path
    }
}

/// Turns the outcome of reading the file of a request into the response.
/// `found` holds the bytes of the file, or nothing where the read failed.
pub fn router(found: Option<Vec<u8>>) -> (response: Response)
    ensures
        response@ == routed(
            match found {
                Some(bytes) => Some(bytes@),
                None => None,
            },
        ),
{
    match found {
        Some(content) => Response { status: 200, content },
        None => Response { status: 404, content: "<h1>404 Not Found</h1>".as_bytes_vec() },
    }
}

} // verus!
