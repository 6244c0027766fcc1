use vstd::prelude::*;
use crate::connect::SessionError;
use crate::json::{json_get_str, parse_json, parsed_json, JsonValue};
use crate::log::{bounded_append, bounded_push, lemma_append_concat, lemma_log_keeps_latest, latest, BoundedLog};

verus! {

/// The most lines a server's history keeps for consoles that connect later.
pub const HISTORY_MAX_LENGTH: usize = 500;

/// How many log lines may wait for slow browser consoles.
pub const LOG_CHANNEL_CAPACITY: usize = 100;

/// How many commands may wait for the worker.
pub const COMMAND_CHANNEL_CAPACITY: usize = 100;

/// The empty history of a newly started server.
pub fn new_history() -> (r: BoundedLog)
    ensures
        r@ == Seq::<Seq<char>>::empty(),
        r.cap() == HISTORY_MAX_LENGTH,
{
    BoundedLog::new(HISTORY_MAX_LENGTH)
}

/// What the worker receives from the game server's WebSocket.
#[derive(Debug)]
pub enum ServerFrame {
    /// A text frame: a console line.
    Text(String),
    /// A binary, ping, pong or close frame.
    Control,
    /// The stream reported an error.
    Failed,
    /// The stream ended.
    Ended,
}

/// What happens during a connected session.
#[derive(Debug)]
pub enum SessionEvent {
    /// A frame from the game server.
    Frame(ServerFrame),
    /// A command from a browser: the raw text, and what it parses to as
    /// JSON (`None` when it is not JSON).
    Command(String, Option<JsonValue>),
    /// No browser can send commands any more.
    CommandsClosed,
}

/// What the worker does in answer to a session event.
#[derive(Debug)]
pub enum SessionAction {
    /// Send this line to every connected browser.
    Broadcast(String),
    /// Send `echo` to every connected browser and `payload` to the game
    /// server.
    Forward { echo: String, payload: String },
    /// Report a command that is not JSON.
    RejectCommand(String),
    /// Nothing to do.
    Nothing,
    /// End the session with this error.
    End(SessionError),
}

/// The line that stands for a command in the history.
pub open spec fn command_echo(data: Seq<char>) -> Seq<char> {
    "> "@ + data
}

/// The history after an event, and the action, as the session decides them:
/// a text frame is recorded and broadcast; a command whose JSON has a string
/// member `data` is recorded as `> data`, broadcast and sent on unchanged; a
/// command that is not JSON is reported; other JSON commands and other
/// frames are dropped; an error, the end of the stream or the end of the
/// commands end the session.
pub open spec fn session_step_spec(
    history: Seq<Seq<char>>,
    cap: nat,
    event: SessionEvent,
    action: SessionAction,
    after: Seq<Seq<char>>,
) -> bool {
    match event {
        SessionEvent::Frame(ServerFrame::Text(t)) => action matches SessionAction::Broadcast(line)
            && line@ == t@ && after == bounded_push(history, t@, cap),
        SessionEvent::Frame(ServerFrame::Control) => action is Nothing && after == history,
        SessionEvent::Frame(ServerFrame::Failed) => action matches SessionAction::End(e)
            && e is TransportFailed && after == history,
        SessionEvent::Frame(ServerFrame::Ended) => action matches SessionAction::End(e)
            && e is StreamEnded && after == history,
        SessionEvent::CommandsClosed => action matches SessionAction::End(e)
            && e is CommandChannelClosed && after == history,
        SessionEvent::Command(payload, parsed) => match parsed {
            None => action matches SessionAction::RejectCommand(p) && p@ == payload@ && after
                == history,
            Some(v) => match json_get_str(v, "data"@) {
                Some(data) => action matches SessionAction::Forward { echo, payload: sent }
                    && echo@ == command_echo(data) && sent@ == payload@ && after
                    == bounded_push(history, command_echo(data), cap),
                None => action is Nothing && after == history,
            },
        },
    }
}

/// Decides what a connected worker does with one event.
pub fn session_step(history: &mut BoundedLog, event: SessionEvent) -> (r: SessionAction)
    ensures
        session_step_spec(old(history)@, old(history).cap(), event, r, final(history)@),
        final(history).cap() == old(history).cap(),
{
    match event {
        SessionEvent::Frame(frame) => match frame {
            ServerFrame::Text(t) => {
                let line = t.clone();
                history.push(t);
                SessionAction::Broadcast(line)
            },
            ServerFrame::Control => SessionAction::Nothing,
            ServerFrame::Failed => SessionAction::End(SessionError::TransportFailed),
            ServerFrame::Ended => SessionAction::End(SessionError::StreamEnded),
        },
        SessionEvent::CommandsClosed => SessionAction::End(SessionError::CommandChannelClosed),
        SessionEvent::Command(payload, parsed) => match parsed {
            None => SessionAction::RejectCommand(payload),
            Some(v) => match v.get_str("data") {
                Some(data) => {
                    let echo = String::from_str("> ").concat(data.as_str());
                    history.push(echo.clone());
                    SessionAction::Forward { echo, payload }
                },
                None => SessionAction::Nothing,
            },
        },
    }
}

/// A command from a browser, with its text read as JSON by serde_json.
pub fn command_event(payload: String) -> (e: SessionEvent)
    ensures
        e matches SessionEvent::Command(p, parsed) && p@ == payload@ && parsed == parsed_json(
            payload@,
        ),
{
    let parsed = parse_json(payload.as_str());
    SessionEvent::Command(payload, parsed)
}

/// The lines that an event adds to the history: the text of a text frame,
/// `> data` for a command whose JSON has a string member `data`, nothing
/// otherwise.
pub open spec fn recorded_lines(event: SessionEvent) -> Seq<Seq<char>> {
    match event {
        SessionEvent::Frame(ServerFrame::Text(t)) => seq![t@],
        SessionEvent::Command(_, Some(v)) => match json_get_str(v, "data"@) {
            Some(data) => seq![command_echo(data)],
            None => Seq::empty(),
        },
        _ => Seq::empty(),
    }
}

/// The lines that a run of events adds to the history, in order.
pub open spec fn run_recorded(events: Seq<SessionEvent>) -> Seq<Seq<char>>
    decreases events.len(),
{
    if events.len() == 0 {
        Seq::empty()
    } else {
        recorded_lines(events[0]) + run_recorded(events.drop_first())
    }
}

/// The history after a run of events, each handled as `session_step` does.
pub open spec fn run_history(history: Seq<Seq<char>>, cap: nat, events: Seq<SessionEvent>) -> Seq<
    Seq<char>,
>
    decreases events.len(),
{
    if events.len() == 0 {
        history
    } else {
        run_history(
            bounded_append(history, recorded_lines(events[0]), cap),
            cap,
            events.drop_first(),
        )
    }
}

/// Law: one step of a session changes the history exactly by the lines the
/// event records.
pub proof fn lemma_step_records(
    history: Seq<Seq<char>>,
    cap: nat,
    event: SessionEvent,
    action: SessionAction,
    after: Seq<Seq<char>>,
)
    requires
        session_step_spec(history, cap, event, action, after),
    ensures
        after == bounded_append(history, recorded_lines(event), cap),
{
    let r = recorded_lines(event);
    let e = Seq::<Seq<char>>::empty();
    if r.len() == 1 {
        assert(r.drop_first() =~= e);
        assert(bounded_append(history, r, cap) == bounded_append(
            bounded_push(history, r[0], cap),
            r.drop_first(),
            cap,
        ));
        assert(bounded_append(bounded_push(history, r[0], cap), e, cap) == bounded_push(
            history,
            r[0],
            cap,
        ));
    } else {
        assert(r =~= e);
        assert(bounded_append(history, e, cap) == history);
    }
}

/// Law: over any run of a session, a history that starts within `cap`
/// lines holds exactly the last `cap` lines of everything recorded, oldest
/// first, and never more than `cap` lines.
pub proof fn lemma_session_history(history: Seq<Seq<char>>, cap: nat, events: Seq<SessionEvent>)
    requires
        cap > 0,
        history.len() <= cap,
    ensures
        run_history(history, cap, events) == bounded_append(history, run_recorded(events), cap),
        run_history(history, cap, events) == latest(history + run_recorded(events), cap),
        run_history(history, cap, events).len() <= cap,
    decreases events.len(),
{
    if events.len() > 0 {
        let h2 = bounded_append(history, recorded_lines(events[0]), cap);
        lemma_log_keeps_latest(history, recorded_lines(events[0]), cap);
        lemma_session_history(h2, cap, events.drop_first());
        lemma_append_concat(history, recorded_lines(events[0]), run_recorded(events.drop_first()), cap);
    }
    lemma_log_keeps_latest(history, run_recorded(events), cap);
}

/// Law: every command whose JSON has a string member `data`, whatever that
/// text is, is forwarded to the game server unchanged, shown to the browsers
/// as `> ` followed by the text, and recorded at the end of the history
/// (dropping the oldest line only when the history is full).
pub proof fn lemma_data_commands_forwarded(
    history: Seq<Seq<char>>,
    cap: nat,
    payload: String,
    v: JsonValue,
    data: Seq<char>,
    action: SessionAction,
    after: Seq<Seq<char>>,
)
    requires
        session_step_spec(history, cap, SessionEvent::Command(payload, Some(v)), action, after),
        json_get_str(v, "data"@) == Some(data),
    ensures
        action matches SessionAction::Forward { echo, payload: sent } && echo@ == "> "@ + data
            && sent@ == payload@,
        cap > 0 && history.len() < cap ==> after == history.push("> "@ + data),
        cap > 0 && history.len() == cap ==> after.len() == cap && after.last() == "> "@ + data
            && after.take(cap - 1) == history.skip(1),
{
    if cap > 0 && history.len() == cap {
        assert(after.take(cap - 1) =~= history.skip(1));
    }
}

/// Law: a session never ends well. It ends, always with an error and with
/// the history untouched, exactly on a stream error, the end of the stream,
/// or the end of the commands.
pub proof fn lemma_session_ends_in_error(
    history: Seq<Seq<char>>,
    cap: nat,
    event: SessionEvent,
    action: SessionAction,
    after: Seq<Seq<char>>,
)
    requires
        session_step_spec(history, cap, event, action, after),
    ensures
        action is End <==> (event matches SessionEvent::Frame(ServerFrame::Failed) || event matches SessionEvent::Frame(ServerFrame::Ended)
            || event is CommandsClosed),
        action is End ==> after == history,
{
}

} // verus!
