use file_server::connection::{Action, Connection, Event};

/// Steps `connection` in place and returns what it asks for.
fn feed(connection: &mut Connection, event: Event) -> Action {
    let (fresh, _) = Connection::open();
    let (stepped, action) = std::mem::replace(connection, fresh).step(event);
    *connection = stepped;
    action
}

fn line(text: &str) -> Event {
    Event::Line(text.to_string())
}

fn read_file(path: &str) -> Action {
    Action::ReadFile(path.to_string())
}

fn write(bytes: &[u8]) -> Action {
    Action::Write(bytes.to_vec())
}

const REFUSAL: &[u8] = b"HTTP/1.1 500 ERROR\r\nContent-Length: 25\r\n\r\n<h1>400 Bad Request </h1>";

const NOT_FOUND: &[u8] = b"HTTP/1.1 404 NOT FOUND\r\nContent-Length: 22\r\n\r\n<h1>404 Not Found</h1>";

#[test]
fn new_connection_asks_for_a_line() {
    let (connection, action) = Connection::open();
    assert_eq!(action, Action::ReadLine);
    assert!(!connection.is_closed());
}

#[test]
fn root_request_serves_the_index_document() {
    let (mut connection, _) = Connection::open();
    assert_eq!(feed(&mut connection, line("GET / HTTP/1.1")), Action::ReadLine);
    assert_eq!(feed(&mut connection, line("")), read_file("portfolio/index.html"));
    assert!(!connection.is_closed());
    let index = b"<html>portfolio</html>".to_vec();
    assert_eq!(
        feed(&mut connection, Event::FileContent(index)),
        write(b"HTTP/1.1 200 OK\r\nContent-Length: 22\r\n\r\n<html>portfolio</html>")
    );
    assert!(connection.is_closed());
}

#[test]
fn missing_file_is_answered_with_404() {
    let (mut connection, _) = Connection::open();
    assert_eq!(feed(&mut connection, line("GET /missing.html HTTP/1.1")), Action::ReadLine);
    assert_eq!(feed(&mut connection, line("")), read_file("portfolio/missing.html"));
    assert_eq!(feed(&mut connection, Event::FileUnavailable), write(NOT_FOUND));
    assert!(connection.is_closed());
}

#[test]
fn traversal_is_refused_before_any_file_is_read() {
    let (mut connection, _) = Connection::open();
    assert_eq!(feed(&mut connection, line("GET /../secret.txt HTTP/1.1")), Action::ReadLine);
    assert_eq!(feed(&mut connection, line("")), write(REFUSAL));
    assert!(connection.is_closed());
    assert_eq!(feed(&mut connection, Event::FileContent(b"secret".to_vec())), Action::Close);
}

#[test]
fn peer_that_sends_nothing_gets_the_index_document() {
    let (mut connection, _) = Connection::open();
    assert_eq!(feed(&mut connection, Event::EndOfStream), read_file("portfolio/index.html"));
    assert_eq!(
        feed(&mut connection, Event::FileContent(b"x".to_vec())),
        write(b"HTTP/1.1 200 OK\r\nContent-Length: 1\r\n\r\nx")
    );
    assert!(connection.is_closed());
}

#[test]
fn failed_first_read_falls_back_to_the_default_request() {
    let (mut connection, _) = Connection::open();
    assert_eq!(feed(&mut connection, Event::ReadFailed), read_file("portfolio/index.html"));
    assert_eq!(feed(&mut connection, Event::FileUnavailable), write(NOT_FOUND));
}

#[test]
fn failed_later_read_ends_the_head() {
    let (mut connection, _) = Connection::open();
    assert_eq!(feed(&mut connection, line("GET /a.txt HTTP/1.1")), Action::ReadLine);
    assert_eq!(feed(&mut connection, line("Host: example.org")), Action::ReadLine);
    assert_eq!(feed(&mut connection, Event::ReadFailed), read_file("portfolio/a.txt"));
}

#[test]
fn header_lines_are_read_and_ignored() {
    let (mut connection, _) = Connection::open();
    assert_eq!(feed(&mut connection, line("GET /a.txt HTTP/1.1")), Action::ReadLine);
    assert_eq!(feed(&mut connection, line("Host: example.org")), Action::ReadLine);
    assert_eq!(feed(&mut connection, line("X-Path: /../other")), Action::ReadLine);
    assert_eq!(feed(&mut connection, line("GET /b.txt HTTP/1.1")), Action::ReadLine);
    assert_eq!(feed(&mut connection, line("")), read_file("portfolio/a.txt"));
}

#[test]
fn blank_first_line_gives_the_default_request() {
    let (mut connection, _) = Connection::open();
    assert_eq!(feed(&mut connection, line("")), read_file("portfolio/index.html"));
}

#[test]
fn line_of_spaces_is_kept_and_unusable() {
    let (mut connection, _) = Connection::open();
    assert_eq!(feed(&mut connection, line("   ")), Action::ReadLine);
    assert_eq!(feed(&mut connection, line("GET /late HTTP/1.1")), Action::ReadLine);
    assert_eq!(feed(&mut connection, Event::EndOfStream), read_file("portfolio/index.html"));
}

#[test]
fn garbage_line_gives_the_default_request() {
    let (mut connection, _) = Connection::open();
    assert_eq!(feed(&mut connection, line("garbage")), Action::ReadLine);
    assert_eq!(feed(&mut connection, line("")), read_file("portfolio/index.html"));
}

#[test]
fn closed_connection_stays_closed() {
    let (mut connection, _) = Connection::open();
    feed(&mut connection, line("GET /x HTTP/1.1"));
    feed(&mut connection, line(""));
    feed(&mut connection, Event::FileUnavailable);
    assert!(connection.is_closed());
    assert_eq!(feed(&mut connection, line("GET / HTTP/1.1")), Action::Close);
    assert_eq!(feed(&mut connection, Event::EndOfStream), Action::Close);
    assert_eq!(feed(&mut connection, Event::FileContent(b"x".to_vec())), Action::Close);
    assert_eq!(feed(&mut connection, Event::FileUnavailable), Action::Close);
    assert!(connection.is_closed());
}

#[test]
fn stray_event_while_the_file_is_awaited_counts_as_a_failed_read() {
    let (mut connection, _) = Connection::open();
    feed(&mut connection, line("GET /x HTTP/1.1"));
    assert_eq!(feed(&mut connection, line("")), read_file("portfolio/x"));
    assert_eq!(feed(&mut connection, line("GET /y HTTP/1.1")), write(NOT_FOUND));
    assert!(connection.is_closed());
}

#[test]
fn stray_event_while_the_head_is_read_ends_the_head() {
    let (mut connection, _) = Connection::open();
    feed(&mut connection, line("GET /x HTTP/1.1"));
    assert_eq!(feed(&mut connection, Event::FileContent(b"early".to_vec())), read_file("portfolio/x"));
    assert_eq!(feed(&mut connection, Event::FileContent(b"now".to_vec())), write(b"HTTP/1.1 200 OK\r\nContent-Length: 3\r\n\r\nnow"));
}

#[test]
fn same_request_twice_gives_the_same_bytes() {
    let mut answers = Vec::new();
    for _ in 0..2 {
        let (mut connection, _) = Connection::open();
        let mut actions = vec![
            feed(&mut connection, line("GET /page.html HTTP/1.1")),
            feed(&mut connection, line("Accept: */*")),
            feed(&mut connection, line("")),
        ];
        actions.push(feed(&mut connection, Event::FileContent(b"<p>page</p>".to_vec())));
        answers.push(actions);
    }
    assert_eq!(answers[0], answers[1]);
    assert_eq!(answers[0][3], write(b"HTTP/1.1 200 OK\r\nContent-Length: 11\r\n\r\n<p>page</p>"));
}

#[test]
fn response_does_not_depend_on_how_the_head_ended() {
    let mut answers = Vec::new();
    for end in [line(""), Event::EndOfStream, Event::ReadFailed] {
        let (mut connection, _) = Connection::open();
        feed(&mut connection, line("GET /page.html HTTP/1.1"));
        let lookup = feed(&mut connection, end);
        let answer = feed(&mut connection, Event::FileContent(b"<p>page</p>".to_vec()));
        answers.push((lookup, answer));
    }
    assert_eq!(answers[0], answers[1]);
    assert_eq!(answers[1], answers[2]);
}

#[test]
fn every_run_that_closes_wrote_once() {
    let heads: [&[&str]; 4] = [
        &[],
        &["GET / HTTP/1.1"],
        &["GET /../x HTTP/1.1", "Host: h"],
        &["nonsense"],
    ];
    for head in heads {
        for file in [Event::FileUnavailable, Event::FileContent(b"abc".to_vec())] {
            let (mut connection, first) = Connection::open();
            let mut actions = vec![first];
            for text in head {
                actions.push(feed(&mut connection, line(text)));
            }
            actions.push(feed(&mut connection, Event::EndOfStream));
            while !connection.is_closed() {
                actions.push(feed(&mut connection, file.clone()));
            }
            actions.push(feed(&mut connection, Event::EndOfStream));
            let writes = actions.iter().filter(|action| matches!(action, Action::Write(_))).count();
            assert_eq!(writes, 1, "on {:?}", head);
            let reads = actions.iter().filter(|action| matches!(action, Action::ReadFile(_))).count();
            assert!(reads <= 1);
        }
    }
}

#[test]
fn content_length_matches_the_file() {
    for length in [0usize, 1, 10, 255, 256, 65536] {
        let (mut connection, _) = Connection::open();
        feed(&mut connection, line("GET /blob HTTP/1.1"));
        feed(&mut connection, line(""));
        let body = vec![7u8; length];
        let mut expected = format!("HTTP/1.1 200 OK\r\nContent-Length: {}\r\n\r\n", length).into_bytes();
        expected.extend_from_slice(&body);
        assert_eq!(feed(&mut connection, Event::FileContent(body)), Action::Write(expected));
    }
}

fn order_of(action: &Action) -> u8 {
    match action {
        Action::ReadLine => 0,
        Action::ReadFile(_) => 1,
        Action::Write(_) => 2,
        Action::Close => 3,
    }
}

#[test]
fn steps_never_go_back() {
    let events = [
        line("GET /a HTTP/1.1"),
        Event::FileContent(b"early".to_vec()),
        line("late line"),
        Event::EndOfStream,
        Event::FileUnavailable,
        line(""),
        Event::ReadFailed,
    ];
    for first in 0..events.len() {
        for second in 0..events.len() {
            for third in 0..events.len() {
                let (mut connection, _) = Connection::open();
                let mut last = 0;
                let picked = [first, second, third, first, second].map(|index| events[index].clone());
                let ending = [Event::EndOfStream, Event::FileUnavailable];
                for event in picked.into_iter().chain(ending) {
                    let action = feed(&mut connection, event);
                    assert!(last <= order_of(&action));
                    last = order_of(&action);
                }
                assert!(connection.is_closed());
            }
        }
    }
}

#[test]
fn interleaved_connections_do_not_interfere() {
    let routes = ["/a.html", "/b.html", "/../c.html", "/d.html"];
    let mut connections: Vec<Connection> = routes.iter().map(|_| Connection::open().0).collect();
    for (connection, route) in connections.iter_mut().zip(routes) {
        let request_line = format!("GET {} HTTP/1.1", route);
        assert_eq!(feed(connection, line(&request_line)), Action::ReadLine);
    }
    let mut asked = Vec::new();
    for connection in connections.iter_mut().rev() {
        asked.push(feed(connection, line("")));
    }
    asked.reverse();
    assert_eq!(asked[0], read_file("portfolio/a.html"));
    assert_eq!(asked[1], read_file("portfolio/b.html"));
    assert_eq!(asked[2], write(REFUSAL));
    assert_eq!(asked[3], read_file("portfolio/d.html"));
    assert_eq!(
        feed(&mut connections[3], Event::FileContent(b"dd".to_vec())),
        write(b"HTTP/1.1 200 OK\r\nContent-Length: 2\r\n\r\ndd")
    );
    assert_eq!(feed(&mut connections[1], Event::FileUnavailable), write(NOT_FOUND));
    assert_eq!(
        feed(&mut connections[0], Event::FileContent(b"a".to_vec())),
        write(b"HTTP/1.1 200 OK\r\nContent-Length: 1\r\n\r\na")
    );
    assert!(connections.iter().all(|connection| connection.is_closed()));
}
