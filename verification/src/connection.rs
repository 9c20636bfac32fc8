use crate::request::{parse_request, request_of_head, RequestView};
use crate::response::{bad_request, respond, wire_of, Response, ResponseView};
use crate::router::{file_path, file_path_of, routed, router};
use crate::validator::{has_traversal, validate_path};
use vstd::prelude::*;

verus! {

/// What the outside world reports to a connection.
#[derive(Debug, Clone, PartialEq, Eq)]
pub enum Event {
    /// A line was read from the stream; it comes without its line ending.
    Line(String),
    /// The stream ended before another line began.
    EndOfStream,
    /// A line could not be read, or was not valid text.
    ReadFailed,
    /// The file that was asked for was read; these are its bytes.
    FileContent(Vec<u8>),
    /// The file that was asked for could not be read.
    FileUnavailable,
}

/// The mathematical value of an [`Event`].
pub enum EventView {
    Line(Seq<char>),
    EndOfStream,
    ReadFailed,
    FileContent(Seq<u8>),
    FileUnavailable,
}

impl View for Event {
    type V = EventView;

    open spec fn view(&self) -> EventView {
        match self {
            Event::Line(line) => EventView::Line(line@),
            Event::EndOfStream => EventView::EndOfStream,
            Event::ReadFailed => EventView::ReadFailed,
            Event::FileContent(bytes) => EventView::FileContent(bytes@),
            Event::FileUnavailable => EventView::FileUnavailable,
        }
    }
}

/// What a connection asks the outside world to do next.
#[derive(Debug, Clone, PartialEq, Eq)]
pub enum Action {
    /// Read the next line from the stream and report it.
    ReadLine,
    /// Read the file at this path and report its bytes.
    ReadFile(String),
    /// Write these bytes to the stream, once, and close the connection.
    Write(Vec<u8>),
    /// Close the connection; nothing is left to do.
    Close,
}

/// The mathematical value of an [`Action`].
pub enum ActionView {
    ReadLine,
    ReadFile(Seq<char>),
    Write(Seq<u8>),
    Close,
}

impl View for Action {
    type V = ActionView;

    open spec fn view(&self) -> ActionView {
        match self {
            Action::ReadLine => ActionView::ReadLine,
            Action::ReadFile(path) => ActionView::ReadFile(path@),
            Action::Write(bytes) => ActionView::Write(bytes@),
            Action::Close => ActionView::Close,
        }
    }
}

/// How far a connection has come.
#[derive(Debug, Clone, Copy, PartialEq, Eq)]
pub enum Stage {
    /// The header block is being read, line by line.
    ReadingHead,
    /// The route was accepted and its file has been asked for.
    Routing,
    /// The response has been handed out to be written.
    Closed,
}

/// The mathematical value of a [`Connection`].
pub struct ConnectionView {
    pub stage: Stage,
    /// The lines of the header block that were read so far.
    pub head: Seq<Seq<char>>,
}

/// One connection, from its first line to its response.
pub struct Connection {
    stage: Stage,
    head: Vec<String>,
}

impl View for Connection {
    type V = ConnectionView;

    closed spec fn view(&self) -> ConnectionView {
        ConnectionView { stage: self.stage, head: self.head.deep_view() }
    }
}

impl ConnectionView {
    /// The request that the lines read so far ask for.
    pub open spec fn request(self) -> RequestView {
        request_of_head(self.head)
    }

    /// What holds of every connection: a file is awaited only for a route
    /// that passed validation.
    pub open spec fn wf(self) -> bool {
        self.stage == Stage::Routing ==> !has_traversal(self.request().route)
    }
}

/// A connection on which nothing was read yet.
pub open spec fn initial() -> ConnectionView {
    ConnectionView { stage: Stage::ReadingHead, head: Seq::empty() }
}

/// What follows a header block that is complete. A route with the
/// parent-directory token is refused at once, and no file is asked for;
/// every other route has its file asked for.
pub open spec fn after_head(head: Seq<Seq<char>>) -> (ConnectionView, ActionView) {
    let route = request_of_head(head).route;
    if has_traversal(route) {
        (ConnectionView { stage: Stage::Closed, head }, ActionView::Write(wire_of(bad_request())))
    } else {
        (ConnectionView { stage: Stage::Routing, head }, ActionView::ReadFile(file_path_of(route)))
    }
}

/// The step of a connection: the state that follows `c` on `event`, and the
/// action that the connection asks for.
///
/// While the head is read, a line that is not empty is kept and another is
/// asked for; anything else ends the head. While the file is awaited, its bytes
/// make the response; anything else counts as a failed read. A closed
/// connection stays closed.
pub open spec fn next(c: ConnectionView, event: EventView) -> (ConnectionView, ActionView) {
    match c.stage {
        Stage::ReadingHead => match event {
            EventView::Line(line) if line.len() > 0 => (
                ConnectionView { stage: Stage::ReadingHead, head: c.head.push(line) },
                ActionView::ReadLine,
            ),
            _ => after_head(c.head),
        },
        Stage::Routing => {
            let found = match event {
                EventView::FileContent(bytes) => Some(bytes),
                _ => None,
            };
            (ConnectionView { stage: Stage::Closed, head: c.head }, ActionView::Write(wire_of(routed(found))))
        },
        Stage::Closed => (c, ActionView::Close),
    }
}

/// A file is asked for only when a header block is complete, only for the
/// route of its request, and only where that route holds no parent-directory
/// token.
pub proof fn lemma_lookup_follows_validation(c: ConnectionView, event: EventView)
    ensures
        next(c, event).1 matches ActionView::ReadFile(path) ==> {
            &&& c.stage == Stage::ReadingHead
            &&& next(c, event).0 == (ConnectionView { stage: Stage::Routing, head: c.head })
            &&& !has_traversal(c.request().route)
            &&& path == file_path_of(c.request().route)
        },
{
}

/// A request whose route holds the parent-directory token never has a file
/// asked for: when its header block ends it is refused, and the refusal is
/// the response.
pub proof fn lemma_traversal_is_refused(c: ConnectionView, event: EventView)
    requires
        c.stage == Stage::ReadingHead,
        has_traversal(c.request().route),
        !(event matches EventView::Line(line) && line.len() > 0),
    ensures
        next(c, event) == (
            ConnectionView { stage: Stage::Closed, head: c.head },
            ActionView::Write(wire_of(bad_request())),
        ),
{
}

/// No step leads a connection to await a file for a route that was not
/// validated.
pub proof fn lemma_next_keeps_wf(c: ConnectionView, event: EventView)
    requires
        c.wf(),
    ensures
        next(c, event).0.wf(),
{
}

/// Every response that a connection hands out is framed: it is the wire form
/// of a response, so its head gives the length of its body. Its status is one
/// of three: 200 for a file, 404 for none, 400 for a refusal.
pub proof fn lemma_writes_are_framed(c: ConnectionView, event: EventView)
    ensures
        next(c, event).1 matches ActionView::Write(bytes) ==> exists|response: ResponseView|
            {
                &&& bytes == #[trigger] wire_of(response)
                &&& response.status == 200 || response.status == 404 || response.status == 400
            },
{
    if next(c, event).1 is Write {
        if c.stage == Stage::ReadingHead {
            assert(next(c, event).1 == ActionView::Write(wire_of(bad_request())));
        } else {
            let found = match event {
                EventView::FileContent(bytes) => Some(bytes),
                _ => None,
            };
            assert(next(c, event).1 == ActionView::Write(wire_of(routed(found))));
        }
    }
}

impl Connection {
    #[verifier::type_invariant]
    spec fn validated(&self) -> bool {
        self@.wf()
    }

    /// A connection that was just accepted, and the first thing it asks for.
    pub fn open() -> (opened: (Connection, Action))
        ensures
            opened.0@ == initial(),
            opened.0@.wf(),
            opened.1@ == ActionView::ReadLine,
    {
        let connection = Connection { stage: Stage::ReadingHead, head: Vec::new() };
        assert(connection@.head =~= Seq::empty());
        (connection, Action::ReadLine)
    }

    /// Whether the connection has handed out its response.
    pub fn is_closed(&self) -> (closed: bool)
        ensures
            closed == (self@.stage == Stage::Closed),
    {
        match self.stage {
            Stage::Closed => true,
            _ => false,
        }
    }

    /// Ends the header block: parses the request, checks its route, and asks
    /// for its file or refuses it.
    fn finish_head(head: Vec<String>) -> (stepped: (Connection, Action))
        ensures
            (stepped.0@, stepped.1@) == after_head(head.deep_view()),
    {
        let accepted = match parse_request(&head) {
            Some(request) => {
                if validate_path(&request) {
                    Some(file_path(&request))
                } else {
                    None
                }
            },
            None => None,
        };
        match accepted {
            Some(path) => (Connection { stage: Stage::Routing, head }, Action::ReadFile(path)),
            None => {
                let refusal = respond(Response::default_not_found());
                (Connection { stage: Stage::Closed, head }, Action::Write(refusal))
            },
        }
    }

    /// Takes one event and gives the connection as it then stands, with what
    /// it asks for next. A connection that awaits its file, and so goes on to
    /// make a response from it, is always one whose route passed validation.
    pub fn step(self, event: Event) -> (stepped: (Connection, Action))
        ensures
            (stepped.0@, stepped.1@) == next(self@, event@),
            self@.wf(),
            stepped.0@.wf(),
    {
        proof {
            use_type_invariant(&self);
            lemma_next_keeps_wf(self@, event@);
        }
        let Connection { stage, head } = self;
        match stage {
            Stage::ReadingHead => match event {
                Event::Line(line) => {
                    if !line.as_str().is_empty() {
                        let ghost before = head.deep_view();
                        let mut head = head;
                        head.push(line);
                        assert(head.deep_view() == before.push(line@));
                        (Connection { stage: Stage::ReadingHead, head }, Action::ReadLine)
                    } else {
                        Connection::finish_head(head)
                    }
                },
                _ => Connection::finish_head(head),
            },
            Stage::Routing => {
                let found = match event {
                    Event::FileContent(bytes) => Some(bytes),
                    _ => None,
                };
                let answer = respond(router(found));
                (Connection { stage: Stage::Closed, head }, Action::Write(answer))
            },
            Stage::Closed => (Connection { stage: Stage::Closed, head }, Action::Close),
        }
    }
}

} // verus!
