use crate::connection::{
    after_head, initial, lemma_lookup_follows_validation, next, ActionView, ConnectionView,
    EventView, Stage,
};
use crate::request::request_of_head;
use crate::response::{bad_request, wire_of, ResponseView};
use crate::router::{file_path_of, lemma_path_holds_no_traversal, lookup, resolve, routed, Files};
use crate::validator::has_traversal;
use vstd::prelude::*;

verus! {

/// The state that `c` reaches on `events`, taken in order, and the actions
/// that it asks for on the way, one for each event.
pub open spec fn run(c: ConnectionView, events: Seq<EventView>) -> (ConnectionView, Seq<ActionView>)
    decreases events.len(),
{
    if events.len() == 0 {
        (c, Seq::empty())
    } else {
        let (before, actions) = run(c, events.drop_last());
        let (after, action) = next(before, events.last());
        (after, actions.push(action))
    }
}

/// How many of `actions` hand out a response.
pub open spec fn writes(actions: Seq<ActionView>) -> nat
    decreases actions.len(),
{
    if actions.len() == 0 {
        0
    } else {
        writes(actions.drop_last()) + if actions.last() is Write {
            1nat
        } else {
            0nat
        }
    }
}

/// How many of `actions` ask for a file.
pub open spec fn lookups(actions: Seq<ActionView>) -> nat
    decreases actions.len(),
{
    if actions.len() == 0 {
        0
    } else {
        lookups(actions.drop_last()) + if actions.last() is ReadFile {
            1nat
        } else {
            0nat
        }
    }
}

/// On every connection, whatever it is sent: a response is handed out exactly
/// when the connection closes, and never a second one; a file is asked for at
/// most once, and not before the header block is complete.
pub proof fn lemma_one_response(events: Seq<EventView>)
    ensures
        ({
            let (c, actions) = run(initial(), events);
            &&& c.wf()
            &&& writes(actions) == if c.stage == Stage::Closed {
                1nat
            } else {
                0nat
            }
            &&& lookups(actions) <= 1
            &&& c.stage == Stage::ReadingHead ==> lookups(actions) == 0
            &&& c.stage == Stage::Routing ==> lookups(actions) == 1
        }),
    decreases events.len(),
{
    if events.len() > 0 {
        lemma_one_response(events.drop_last());
        let (before, actions) = run(initial(), events.drop_last());
        let action = next(before, events.last()).1;
        assert(actions.push(action).drop_last() =~= actions);
    }
}

/// The place of an action in the course of a connection: lines are read
/// first, then the file, then the response is written, then nothing.
pub open spec fn order_of(action: ActionView) -> nat {
    match action {
        ActionView::ReadLine => 0,
        ActionView::ReadFile(_) => 1,
        ActionView::Write(_) => 2,
        ActionView::Close => 3,
    }
}

/// On every connection, whatever it is sent, the steps come in their order
/// and none is gone back to: no line is read once the file was asked for, no
/// file is asked for once the response was handed out, and after the response
/// nothing is asked for at all.
pub proof fn lemma_steps_in_order(events: Seq<EventView>)
    ensures
        ({
            let (c, actions) = run(initial(), events);
            &&& actions.len() == events.len()
            &&& forall|i: int, j: int|
                0 <= i <= j < actions.len() ==> order_of(#[trigger] actions[i]) <= order_of(
                    #[trigger] actions[j],
                )
            &&& forall|i: int|
                0 <= i < actions.len() ==> order_of(#[trigger] actions[i]) <= match c.stage {
                    Stage::ReadingHead => 0nat,
                    Stage::Routing => 1nat,
                    Stage::Closed => 3nat,
                }
        }),
    decreases events.len(),
{
    if events.len() > 0 {
        lemma_steps_in_order(events.drop_last());
    }
}

/// On every connection, whatever it is sent, a file is asked for only by the
/// path of a route that holds no parent-directory token, and that path holds
/// none either.
pub proof fn lemma_lookups_are_validated(events: Seq<EventView>, i: int)
    requires
        0 <= i < events.len(),
    ensures
        run(initial(), events).1[i] matches ActionView::ReadFile(path) ==> {
            &&& !has_traversal(path)
            &&& exists|route: Seq<char>| !has_traversal(route) && path == #[trigger] file_path_of(route)
        },
    decreases events.len(),
{
    let (before, actions) = run(initial(), events.drop_last());
    if i < events.len() - 1 {
        lemma_lookups_are_validated(events.drop_last(), i);
        lemma_steps_in_order(events.drop_last());
    } else {
        lemma_steps_in_order(events.drop_last());
        lemma_lookup_follows_validation(before, events.last());
        if next(before, events.last()).1 is ReadFile {
            let route = before.request().route;
            lemma_path_holds_no_traversal(route);
            assert(next(before, events.last()).1 == ActionView::ReadFile(file_path_of(route)));
        }
    }
}

/// The events that report the lines of a header block, one for each line.
pub open spec fn line_events(lines: Seq<Seq<char>>) -> Seq<EventView> {
    Seq::new(lines.len(), |i: int| EventView::Line(lines[i]))
}

/// Whether `event` ends a header block: every event does but a line that is
/// not empty.
pub open spec fn ends_head(event: EventView) -> bool {
    !(event matches EventView::Line(line) && line.len() > 0)
}

/// What reading the file at `path` from `files` reports to the connection.
pub open spec fn file_event(files: Files, path: Seq<char>) -> EventView {
    match lookup(files, path) {
        Some(bytes) => EventView::FileContent(bytes),
        None => EventView::FileUnavailable,
    }
}

/// The response owed to a client that sent the header block `head`, from the
/// `files` under the content root.
pub open spec fn response_to(files: Files, head: Seq<Seq<char>>) -> ResponseView {
    let route = request_of_head(head).route;
    if has_traversal(route) {
        bad_request()
    } else {
        resolve(files, route)
    }
}

/// What a connection is told in the course of one exchange, by a world that
/// does as it is asked: the lines of the header block `head`, the event `end`
/// that ends the block, and, where a file is asked for, what reading it from
/// `files` gives.
pub open spec fn exchange_events(files: Files, head: Seq<Seq<char>>, end: EventView) -> Seq<
    EventView,
> {
    let route = request_of_head(head).route;
    let reads = line_events(head).push(end);
    if has_traversal(route) {
        reads
    } else {
        reads.push(file_event(files, file_path_of(route)))
    }
}

/// What a connection asks for in the course of that exchange: a line after
/// each line of the head, then the file unless the route is refused, then the
/// writing of the response.
pub open spec fn exchange_actions(files: Files, head: Seq<Seq<char>>) -> Seq<ActionView> {
    let route = request_of_head(head).route;
    let reads = Seq::new(head.len(), |i: int| ActionView::ReadLine);
    let answer = ActionView::Write(wire_of(response_to(files, head)));
    if has_traversal(route) {
        reads.push(answer)
    } else {
        reads.push(ActionView::ReadFile(file_path_of(route))).push(answer)
    }
}

/// While lines that are not empty come in, a connection keeps them in order
/// and asks for the next.
pub proof fn lemma_head_is_collected(c: ConnectionView, lines: Seq<Seq<char>>)
    requires
        c.stage == Stage::ReadingHead,
        forall|i: int| 0 <= i < lines.len() ==> (#[trigger] lines[i]).len() > 0,
    ensures
        run(c, line_events(lines)) == (
            ConnectionView { stage: Stage::ReadingHead, head: c.head + lines },
            Seq::new(lines.len(), |i: int| ActionView::ReadLine),
        ),
    decreases lines.len(),
{
    if lines.len() == 0 {
        assert(line_events(lines) =~= Seq::<EventView>::empty());
        assert(c.head + lines =~= c.head);
        assert(Seq::new(lines.len(), |i: int| ActionView::ReadLine) =~= Seq::<ActionView>::empty());
    } else {
        let front = lines.drop_last();
        lemma_head_is_collected(c, front);
        assert(line_events(lines).drop_last() =~= line_events(front));
        assert(line_events(lines).last() == EventView::Line(lines.last()));
        assert((c.head + front).push(lines.last()) =~= c.head + lines);
        assert(Seq::new(front.len(), |i: int| ActionView::ReadLine).push(ActionView::ReadLine)
            =~= Seq::new(lines.len(), |i: int| ActionView::ReadLine));
    }
}

/// The whole exchange. A connection that is told the lines of a header block,
/// then the end of the block, then what reading the file gives, asks for a
/// line after each line, asks for the file of the route unless the route is
/// refused, hands out exactly the response that is owed, and is closed.
pub proof fn lemma_exchange(files: Files, head: Seq<Seq<char>>, end: EventView)
    requires
        forall|i: int| 0 <= i < head.len() ==> (#[trigger] head[i]).len() > 0,
        ends_head(end),
    ensures
        run(initial(), exchange_events(files, head, end)) == (
            ConnectionView { stage: Stage::Closed, head },
            exchange_actions(files, head),
        ),
{
    let route = request_of_head(head).route;
    let reading = ConnectionView { stage: Stage::ReadingHead, head };
    let lines = line_events(head);
    let asked = Seq::new(head.len(), |i: int| ActionView::ReadLine);
    lemma_head_is_collected(initial(), head);
    assert(initial().head + head =~= head);
    assert(run(initial(), lines) == (reading, asked));

    let reads = lines.push(end);
    assert(reads.drop_last() =~= lines);
    assert(next(reading, end) == after_head(head));
    assert(run(initial(), reads) == (after_head(head).0, asked.push(after_head(head).1)));

    if !has_traversal(route) {
        let path = file_path_of(route);
        let events = reads.push(file_event(files, path));
        assert(events.drop_last() =~= reads);
        let routing = ConnectionView { stage: Stage::Routing, head };
        assert(after_head(head).0 == routing);
        assert(next(routing, file_event(files, path)).1 == ActionView::Write(
            wire_of(routed(lookup(files, path))),
        ));
    }
}

/// The same request against the same files is answered with the same bytes,
/// each time and however the header block came to its end.
pub proof fn lemma_same_request_same_response(
    files: Files,
    head: Seq<Seq<char>>,
    end: EventView,
    other_end: EventView,
)
    requires
        forall|i: int| 0 <= i < head.len() ==> (#[trigger] head[i]).len() > 0,
        ends_head(end),
        ends_head(other_end),
    ensures
        run(initial(), exchange_events(files, head, end)).1 == run(
            initial(),
            exchange_events(files, head, other_end),
        ).1,
        run(initial(), exchange_events(files, head, end)).1.last() == ActionView::Write(
            wire_of(response_to(files, head)),
        ),
{
    lemma_exchange(files, head, end);
    lemma_exchange(files, head, other_end);
}

} // verus!
