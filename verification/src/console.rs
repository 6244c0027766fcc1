use vstd::prelude::*;
use crate::json::{json_get, json_get_str, json_object, json_object_text, pairs_view, parse_json, parsed_json, same_text, JsonValue};
use crate::log::{bounded_append, bounded_push, latest, lemma_append_concat, lemma_log_keeps_latest, BoundedLog};
use crate::text::{lemma_single_line, lines, strings_view, trim, trimmed};

verus! {

/// The most lines the browser console shows.
pub const MAX_CONSOLE_LINES: usize = 40;

/// The string elements of a JSON array, in order; other elements are
/// skipped.
pub open spec fn string_items(items: Seq<JsonValue>) -> Seq<Seq<char>>
    decreases items.len(),
{
    if items.len() == 0 {
        Seq::empty()
    } else {
        let rest = string_items(items.drop_first());
        match items[0] {
            JsonValue::Str(s) => seq![s@] + rest,
            _ => rest,
        }
    }
}

/// The texts that the console shows for a message from its worker, in
/// order. A message that is not JSON is shown as it is. A JSON message is
/// read by its string member `type`: `logHistory` shows each string of the
/// array `lines`, `stdout` and `stderr` show the string `data`,
/// `authFailure` shows `[AUTH FAILURE]: ` and the string `reason`; anything
/// else shows nothing.
pub open spec fn message_texts_spec(txt: Seq<char>, parsed: Option<JsonValue>) -> Seq<Seq<char>> {
    match parsed {
        None => seq![txt],
        Some(v) => {
            let ty = json_get_str(v, "type"@);
            if ty == Some("logHistory"@) {
                match json_get(v, "lines"@) {
                    Some(JsonValue::Array(items)) => string_items(items@),
                    _ => Seq::empty(),
                }
            } else if ty == Some("stdout"@) || ty == Some("stderr"@) {
                match json_get_str(v, "data"@) {
                    Some(d) => seq![d],
                    None => Seq::empty(),
                }
            } else if ty == Some("authFailure"@) {
                match json_get_str(v, "reason"@) {
                    Some(r) => seq!["[AUTH FAILURE]: "@ + r],
                    None => Seq::empty(),
                }
            } else {
                Seq::empty()
            }
        },
    }
}

fn string_items_of(items: &Vec<JsonValue>) -> (r: Vec<String>)
    ensures
        strings_view(r@) == string_items(items@),
{
    let n = items.len();
    let mut out: Vec<String> = Vec::new();
    proof {
        assert(items@.skip(0) =~= items@);
        assert(strings_view(out@) =~= Seq::<Seq<char>>::empty());
    }
    for k in 0..n
        invariant
            n == items@.len(),
            string_items(items@) == strings_view(out@) + string_items(items@.skip(k as int)),
    {
        let ghost rest = items@.skip(k as int);
        proof {
            assert(rest.drop_first() =~= items@.skip(k + 1));
            assert(rest[0] == items@[k as int]);
        }
        match &items[k] {
            JsonValue::Str(s) => {
                let ghost before = out@;
                out.push(s.clone());
                proof {
                    assert(strings_view(out@) =~= strings_view(before).push(s@));
                    assert(strings_view(before) + (seq![s@] + string_items(rest.drop_first()))
                        =~= strings_view(out@) + string_items(rest.drop_first()));
                }
            },
            _ => {},
        }
    }
    proof {
        assert(items@.skip(n as int) =~= Seq::<JsonValue>::empty());
        assert(strings_view(out@) + Seq::<Seq<char>>::empty() =~= strings_view(out@));
    }
    out
}

fn type_is(ty: &Option<String>, name: &str) -> (b: bool)
    ensures
        b == (crate::connect::opt_string_view(*ty) == Some(name@)),
{
    match ty {
        Some(t) => same_text(t.as_str(), name),
        None => false,
    }
}

/// The texts that the console shows for a message from its worker (see
/// `message_texts_spec`); `parsed` is the message read as JSON, `None` when
/// it is not JSON.
pub fn message_texts(txt: &str, parsed: Option<JsonValue>) -> (r: Vec<String>)
    ensures
        strings_view(r@) == message_texts_spec(txt@, parsed),
{
    match parsed {
        None => {
            let mut out: Vec<String> = Vec::new();
            out.push(String::from_str(txt));
            assert(strings_view(out@) =~= seq![txt@]);
            out
        },
        Some(v) => {
            let ty = v.get_str("type");
            if type_is(&ty, "logHistory") {
                match v.get("lines") {
                    Some(JsonValue::Array(items)) => string_items_of(items),
                    _ => {
                        let out: Vec<String> = Vec::new();
                        assert(strings_view(out@) =~= Seq::<Seq<char>>::empty());
                        out
                    },
                }
            } else if type_is(&ty, "stdout") || type_is(&ty, "stderr") {
                let mut out: Vec<String> = Vec::new();
                match v.get_str("data") {
                    Some(d) => {
                        out.push(d);
                    },
                    None => {},
                }
                assert(strings_view(out@) =~= message_texts_spec(txt@, Some(v)));
                out
            } else if type_is(&ty, "authFailure") {
                let mut out: Vec<String> = Vec::new();
                match v.get_str("reason") {
                    Some(reason) => {
                        out.push(String::from_str("[AUTH FAILURE]: ").concat(reason.as_str()));
                    },
                    None => {},
                }
                assert(strings_view(out@) =~= message_texts_spec(txt@, Some(v)));
                out
            } else {
                let out: Vec<String> = Vec::new();
                assert(strings_view(out@) =~= Seq::<Seq<char>>::empty());
                out
            }
        },
    }
}

/// The texts that the console shows for a message from its worker, the
/// message read as JSON by serde_json.
pub fn message_texts_of(txt: &str) -> (r: Vec<String>)
    ensures
        strings_view(r@) == message_texts_spec(txt@, parsed_json(txt@)),
{
    let parsed = parse_json(txt);
    message_texts(txt, parsed)
}

/// The lines of each text, one text after the other.
pub open spec fn all_lines(texts: Seq<Seq<char>>) -> Seq<Seq<char>>
    decreases texts.len(),
{
    if texts.len() == 0 {
        Seq::empty()
    } else {
        lines(texts[0]) + all_lines(texts.drop_first())
    }
}

proof fn lemma_all_lines_concat(a: Seq<Seq<char>>, b: Seq<Seq<char>>)
    ensures
        all_lines(a + b) == all_lines(a) + all_lines(b),
    decreases a.len(),
{
    if a.len() == 0 {
        assert(a + b =~= b);
        assert(all_lines(a) + all_lines(b) =~= all_lines(b));
    } else {
        assert((a + b).drop_first() =~= a.drop_first() + b);
        assert((a + b)[0] == a[0]);
        lemma_all_lines_concat(a.drop_first(), b);
        assert(lines(a[0]) + (all_lines(a.drop_first()) + all_lines(b)) =~= (lines(a[0])
            + all_lines(a.drop_first())) + all_lines(b));
    }
}

/// What the console shows: its lines, oldest first, whether it is
/// connected, the text in its command input, and the id of its server.
pub struct ConsoleView {
    pub lines: Seq<Seq<char>>,
    pub connected: bool,
    pub input: Seq<char>,
    pub id: Seq<char>,
}

/// The state of a browser console attached to one server.
pub struct ConsoleState {
    log: BoundedLog,
    connected: bool,
    input: String,
    id: String,
}

impl View for ConsoleState {
    type V = ConsoleView;

    closed spec fn view(&self) -> ConsoleView {
        ConsoleView { lines: self.log@, connected: self.connected, input: self.input@, id: self.id@ }
    }
}

/// A console's lines after some texts are shown.
pub open spec fn shown(before: Seq<Seq<char>>, texts: Seq<Seq<char>>) -> Seq<Seq<char>> {
    bounded_append(before, all_lines(texts), MAX_CONSOLE_LINES as nat)
}

/// The first line of a console.
pub open spec fn greeting(id: Seq<char>) -> Seq<char> {
    "connecting to worker ["@ + id + "]..."@
}

/// Law: showing texts one run after another is showing them all at once.
pub proof fn lemma_shown_in_turn(before: Seq<Seq<char>>, a: Seq<Seq<char>>, b: Seq<Seq<char>>)
    ensures
        shown(shown(before, a), b) == shown(before, a + b),
{
    lemma_all_lines_concat(a, b);
    lemma_append_concat(before, all_lines(a), all_lines(b), MAX_CONSOLE_LINES as nat);
}

/// Law: over any run of texts, a console (which starts with its greeting)
/// shows exactly the last 40 lines of everything it was given, in order,
/// and never more than 40.
pub proof fn lemma_console_keeps_latest(before: Seq<Seq<char>>, texts: Seq<Seq<char>>)
    requires
        before.len() <= MAX_CONSOLE_LINES,
    ensures
        shown(before, texts) == latest(before + all_lines(texts), MAX_CONSOLE_LINES as nat),
        shown(before, texts).len() <= MAX_CONSOLE_LINES,
{
    lemma_log_keeps_latest(before, all_lines(texts), MAX_CONSOLE_LINES as nat);
}

/// What the console's read loop receives from the worker's socket: a text
/// message, or anything that ends the loop (another kind of frame, a read
/// error, or the end of the stream).
#[derive(Debug)]
pub enum ConsoleFrame {
    Text(String),
    Closed,
}

/// The console after one frame: a text is shown as `message_texts_spec`
/// says of it read as JSON; anything else disconnects the console and
/// shows `[System] connection lost.`.
pub open spec fn frame_step(v: ConsoleView, frame: ConsoleFrame) -> ConsoleView {
    match frame {
        ConsoleFrame::Text(t) => ConsoleView {
            lines: shown(v.lines, message_texts_spec(t@, parsed_json(t@))),
            connected: v.connected,
            input: v.input,
            id: v.id,
        },
        ConsoleFrame::Closed => ConsoleView {
            lines: shown(v.lines, seq!["[System] connection lost."@]),
            connected: false,
            input: v.input,
            id: v.id,
        },
    }
}

/// The console after its read loop has taken these frames: the loop stops
/// at the first frame that is not a text.
pub open spec fn read_loop(v: ConsoleView, frames: Seq<ConsoleFrame>) -> ConsoleView
    decreases frames.len(),
{
    if frames.len() == 0 {
        v
    } else {
        match frames[0] {
            ConsoleFrame::Text(_) => read_loop(frame_step(v, frames[0]), frames.drop_first()),
            ConsoleFrame::Closed => frame_step(v, frames[0]),
        }
    }
}

/// Law: a connected console stays connected while its worker sends text
/// messages, and is disconnected once anything else arrives; its lines
/// never exceed 40.
pub proof fn lemma_connected_until_closed(v: ConsoleView, frames: Seq<ConsoleFrame>)
    requires
        v.lines.len() <= MAX_CONSOLE_LINES,
    ensures
        (forall|i: int| 0 <= i < frames.len() ==> #[trigger] frames[i] is Text) ==> read_loop(
            v,
            frames,
        ).connected == v.connected,
        (exists|i: int| 0 <= i < frames.len() && #[trigger] frames[i] is Closed) ==> !read_loop(
            v,
            frames,
        ).connected,
        read_loop(v, frames).lines.len() <= MAX_CONSOLE_LINES,
    decreases frames.len(),
{
    if frames.len() > 0 {
        let f = frames[0];
        let rest = frames.drop_first();
        let texts = match f {
            ConsoleFrame::Text(t) => message_texts_spec(t@, parsed_json(t@)),
            ConsoleFrame::Closed => seq!["[System] connection lost."@],
        };
        lemma_console_keeps_latest(v.lines, texts);
        if f is Text {
            lemma_connected_until_closed(frame_step(v, f), rest);
            if forall|i: int| 0 <= i < frames.len() ==> #[trigger] frames[i] is Text {
                assert forall|i: int| 0 <= i < rest.len() implies #[trigger] rest[i] is Text by {
                    assert(frames[i + 1] is Text);
                }
            }
            if exists|i: int| 0 <= i < frames.len() && #[trigger] frames[i] is Closed {
                let i = choose|i: int| 0 <= i < frames.len() && #[trigger] frames[i] is Closed;
                assert(i > 0);
                assert(rest[i - 1] is Closed);
            }
        } else {
            assert(frames[0] is Closed);
        }
    }
}

proof fn lemma_all_strings(items: Seq<JsonValue>)
    requires
        forall|i: int| 0 <= i < items.len() ==> #[trigger] items[i] is Str,
    ensures
        string_items(items).len() == items.len(),
        forall|i: int| 0 <= i < items.len() ==> #[trigger] string_items(items)[i] == items[i]->Str_0@,
    decreases items.len(),
{
    if items.len() > 0 {
        let rest = items.drop_first();
        assert forall|i: int| 0 <= i < rest.len() implies #[trigger] rest[i] is Str by {
            assert(items[i + 1] is Str);
        }
        lemma_all_strings(rest);
        assert(items[0] is Str);
        assert forall|i: int| 0 <= i < items.len() implies #[trigger] string_items(items)[i]
            == items[i]->Str_0@ by {
            if i > 0 {
                assert(rest[i - 1] == items[i]);
            }
        }
    }
}

/// Law: a `logHistory` message whose `lines` are all strings shows every
/// one of them, in order: as many texts as strings, the i-th text being the
/// i-th string.
pub proof fn lemma_log_history_shows_every_line(txt: Seq<char>, v: JsonValue, items: Vec<JsonValue>)
    requires
        json_get_str(v, "type"@) == Some("logHistory"@),
        json_get(v, "lines"@) == Some(JsonValue::Array(items)),
        forall|i: int| 0 <= i < items@.len() ==> #[trigger] items@[i] is Str,
    ensures
        message_texts_spec(txt, Some(v)).len() == items@.len(),
        forall|i: int|
            0 <= i < items@.len() ==> #[trigger] message_texts_spec(txt, Some(v))[i]
                == items@[i]->Str_0@,
{
    lemma_all_strings(items@);
}

proof fn lemma_all_lines_single(texts: Seq<Seq<char>>)
    requires
        forall|i: int|
            0 <= i < texts.len() ==> (#[trigger] texts[i]).len() > 0 && forall|j: int|
                0 <= j < texts[i].len() ==> texts[i][j] != '\n',
    ensures
        all_lines(texts) == texts,
    decreases texts.len(),
{
    if texts.len() > 0 {
        let rest = texts.drop_first();
        assert forall|i: int|
            0 <= i < rest.len() implies (#[trigger] rest[i]).len() > 0 && forall|j: int|
                0 <= j < rest[i].len() ==> rest[i][j] != '\n' by {
            assert(rest[i] == texts[i + 1]);
        }
        lemma_all_lines_single(rest);
        assert(texts[0].len() > 0);
        lemma_single_line(texts[0]);
        assert(seq![texts[0]] + rest =~= texts);
    }
}

/// Law: after a `logHistory` message whose `lines` are all non-empty
/// strings without line feeds, a console shows the last 40 of its earlier
/// lines followed by all of those strings, in order.
pub proof fn lemma_log_history_console(
    before: Seq<Seq<char>>,
    txt: Seq<char>,
    v: JsonValue,
    items: Vec<JsonValue>,
)
    requires
        before.len() <= MAX_CONSOLE_LINES,
        json_get_str(v, "type"@) == Some("logHistory"@),
        json_get(v, "lines"@) == Some(JsonValue::Array(items)),
        forall|i: int|
            0 <= i < items@.len() ==> (#[trigger] items@[i]) is Str && items@[i]->Str_0@.len() > 0
                && forall|j: int| 0 <= j < items@[i]->Str_0@.len() ==> items@[i]->Str_0@[j] != '\n',
    ensures
        shown(before, message_texts_spec(txt, Some(v))) == latest(
            before + Seq::new(items@.len(), |i: int| items@[i]->Str_0@),
            MAX_CONSOLE_LINES as nat,
        ),
{
    lemma_log_history_shows_every_line(txt, v, items);
    let texts = message_texts_spec(txt, Some(v));
    let strs = Seq::new(items@.len(), |i: int| items@[i]->Str_0@);
    assert(texts =~= strs);
    assert forall|i: int|
        0 <= i < strs.len() implies (#[trigger] strs[i]).len() > 0 && forall|j: int|
            0 <= j < strs[i].len() ==> strs[i][j] != '\n' by {
        assert(items@[i] is Str);
    }
    lemma_all_lines_single(strs);
    lemma_console_keeps_latest(before, texts);
}

impl ConsoleState {
    #[verifier::type_invariant]
    spec fn bounded(self) -> bool {
        self.log.cap() == MAX_CONSOLE_LINES
    }

    /// A console for a server, not yet connected.
    pub fn new(id: &str) -> (r: Self)
        ensures
            r@.lines == seq![greeting(id@)],
            !r@.connected,
            r@.input == Seq::<char>::empty(),
            r@.id == id@,
    {
        let mut log = BoundedLog::new(MAX_CONSOLE_LINES);
        log.push(String::from_str("connecting to worker [").concat(id).concat("]..."));
        assert(log@ =~= seq![greeting(id@)]);
        ConsoleState { log, connected: false, input: String::new(), id: String::from_str(id) }
    }

    fn show(&mut self, text: &str)
        ensures
            final(self)@.input == old(self)@.input,
            final(self)@.id == old(self)@.id,
            final(self)@.lines == shown(old(self)@.lines, seq![text@]),
            final(self)@.connected == old(self)@.connected,
    {
        proof {
            use_type_invariant(&*self);
            assert(seq![text@].drop_first() =~= Seq::<Seq<char>>::empty());
            assert(all_lines(Seq::<Seq<char>>::empty()) == Seq::<Seq<char>>::empty());
            assert(lines(text@) + Seq::<Seq<char>>::empty() =~= lines(text@));
            assert(all_lines(seq![text@]) == lines(text@));
        }
        let mut log = BoundedLog::new(MAX_CONSOLE_LINES);
        std::mem::swap(&mut log, &mut self.log);
        log.push_text(text);
        self.log = log;
    }

    /// The worker's WebSocket opened.
    pub fn on_connected(&mut self)
        ensures
            final(self)@.input == old(self)@.input,
            final(self)@.id == old(self)@.id,
            final(self)@.connected,
            final(self)@.lines == shown(old(self)@.lines, seq!["[System] connected to server."@]),
    {
        proof {
            use_type_invariant(&*self);
        }
        self.connected = true;
        self.show("[System] connected to server.");
    }

    /// The worker's WebSocket could not be opened.
    pub fn on_connect_failed(&mut self)
        ensures
            final(self)@.input == old(self)@.input,
            final(self)@.id == old(self)@.id,
            final(self)@.connected == old(self)@.connected,
            final(self)@.lines == shown(
                old(self)@.lines,
                seq!["[ERR]: failed to establish connection."@],
            ),
    {
        self.show("[ERR]: failed to establish connection.");
    }

    /// The worker's WebSocket closed.
    pub fn on_disconnected(&mut self)
        ensures
            final(self)@.input == old(self)@.input,
            final(self)@.id == old(self)@.id,
            !final(self)@.connected,
            final(self)@.lines == shown(old(self)@.lines, seq!["[System] connection lost."@]),
    {
        proof {
            use_type_invariant(&*self);
        }
        self.connected = false;
        self.show("[System] connection lost.");
    }

    /// A text message from the worker; `parsed` is the message read as
    /// JSON, `None` when it is not JSON.
    pub fn on_message(&mut self, txt: &str, parsed: Option<JsonValue>)
        ensures
            final(self)@.input == old(self)@.input,
            final(self)@.id == old(self)@.id,
            final(self)@.connected == old(self)@.connected,
            final(self)@.lines == shown(old(self)@.lines, message_texts_spec(txt@, parsed)),
    {
        let texts = message_texts(txt, parsed);
        let ghost all = strings_view(texts@);
        let ghost start = self@.lines;
        let n = texts.len();
        proof {
            assert(all.skip(0) =~= all);
        }
        for k in 0..n
            invariant
                n == texts@.len(),
                all == strings_view(texts@),
                self@.connected == old(self)@.connected,
                self@.input == old(self)@.input,
                self@.id == old(self)@.id,
                shown(start, all) == shown(self@.lines, all.skip(k as int)),
        {
            let ghost cur = self@.lines;
            let ghost rest = all.skip(k as int);
            proof {
                assert(rest.drop_first() =~= all.skip(k + 1));
                assert(rest[0] == texts@[k as int]@);
                assert(all_lines(rest) == lines(rest[0]) + all_lines(rest.drop_first()));
                lemma_append_concat(
                    cur,
                    lines(rest[0]),
                    all_lines(rest.drop_first()),
                    MAX_CONSOLE_LINES as nat,
                );
            }
            self.show(texts[k].as_str());
            proof {
                assert(seq![rest[0]].drop_first() =~= Seq::<Seq<char>>::empty());
                assert(all_lines(Seq::<Seq<char>>::empty()) == Seq::<Seq<char>>::empty());
                assert(lines(rest[0]) + Seq::<Seq<char>>::empty() =~= lines(rest[0]));
                assert(all_lines(seq![rest[0]]) == lines(rest[0]));
            }
        }
        proof {
            assert(all.skip(n as int) =~= Seq::<Seq<char>>::empty());
        }
    }

    /// A text message from the worker, read as JSON by serde_json.
    pub fn on_text(&mut self, txt: &str)
        ensures
            final(self)@.input == old(self)@.input,
            final(self)@.id == old(self)@.id,
            final(self)@.connected == old(self)@.connected,
            final(self)@.lines == shown(
                old(self)@.lines,
                message_texts_spec(txt@, parsed_json(txt@)),
            ),
    {
        let parsed = parse_json(txt);
        self.on_message(txt, parsed);
    }

    /// One frame of the read loop; says whether the loop goes on.
    pub fn on_frame(&mut self, frame: ConsoleFrame) -> (keep_reading: bool)
        ensures
            final(self)@ == frame_step(old(self)@, frame),
            keep_reading == (frame is Text),
    {
        match frame {
            ConsoleFrame::Text(t) => {
                self.on_text(t.as_str());
                true
            },
            ConsoleFrame::Closed => {
                self.on_disconnected();
                false
            },
        }
    }

    /// The console's heading.
    pub fn heading(&self) -> (r: String)
        ensures
            r@ == "console // "@ + self@.id,
    {
        String::from_str("console // ").concat(self.id.as_str())
    }

    /// The text in the command input.
    pub fn input_text(&self) -> (r: String)
        ensures
            r@ == self@.input,
    {
        self.input.clone()
    }

    /// The user typed in the command input: it now holds `text`.
    pub fn set_input(&mut self, text: String)
        ensures
            final(self)@ == (ConsoleView { input: text@, ..old(self)@ }),
    {
        proof {
            use_type_invariant(&*self);
        }
        self.input = text;
    }

    /// The user pressed Enter: the command to send, which is the input
    /// without leading and trailing white space; after a send the input is
    /// empty. Blank input sends nothing and stays as it is.
    pub fn submit(&mut self) -> (r: Option<String>)
        ensures
            r is Some <==> trim(old(self)@.input).len() > 0,
            r matches Some(c) ==> c@ == trim(old(self)@.input) && final(self)@ == (ConsoleView {
                input: Seq::<char>::empty(),
                ..old(self)@
            }),
            r is None ==> final(self)@ == old(self)@,
    {
        proof {
            use_type_invariant(&*self);
        }
        let cmd = submit_command(self.input.as_str());
        if cmd.is_some() {
            self.input = String::new();
        }
        cmd
    }

    /// Whether the command input is disabled: while not connected.
    pub fn input_disabled(&self) -> (r: bool)
        ensures
            r == !self@.connected,
    {
        !self.connected
    }

    /// The lines shown, oldest first.
    pub fn lines(&self) -> (r: Vec<String>)
        ensures
            strings_view(r@) == self@.lines,
            r@.len() <= MAX_CONSOLE_LINES,
    {
        proof {
            use_type_invariant(self);
        }
        self.log.snapshot()
    }

    /// Whether the console is connected to its worker.
    pub fn is_connected(&self) -> (r: bool)
        ensures
            r == self@.connected,
    {
        self.connected
    }

    /// The connection indicator's label.
    pub fn status_label(&self) -> (r: &'static str)
        ensures
            r@ == (if self@.connected {
                "ONLINE"@
            } else {
                "OFFLINE"@
            }),
    {
        if self.connected {
            "ONLINE"
        } else {
            "OFFLINE"
        }
    }

    /// The command input's placeholder.
    pub fn input_placeholder(&self) -> (r: &'static str)
        ensures
            r@ == (if self@.connected {
                "send commands"@
            } else {
                "Connecting..."@
            }),
    {
        if self.connected {
            "send commands"
        } else {
            "Connecting..."
        }
    }
}

/// The command that the input box sends: its text without leading and
/// trailing white space, and nothing when that is empty.
pub fn submit_command(input: &str) -> (r: Option<String>)
    ensures
        r is Some <==> trim(input@).len() > 0,
        r matches Some(c) ==> c@ == trim(input@),
{
    let cmd = trimmed(input);
    if cmd.unicode_len() == 0 {
        None
    } else {
        Some(cmd)
    }
}

/// The JSON message that carries a console command to the worker: an
/// object with the string members `type` (`stdin`) and `data` (the
/// command), as serde_json writes it.
pub open spec fn stdin_payload_text(cmd: Seq<char>) -> Seq<char> {
    json_object_text(seq![("type"@, "stdin"@), ("data"@, cmd)])
}

/// The JSON message that carries a console command to the worker. Read
/// back as JSON it is an object whose `data` is the command, character for
/// character, and whose `type` is `stdin`.
pub fn stdin_payload(cmd: &str) -> (r: String)
    ensures
        r@ == stdin_payload_text(cmd@),
        parsed_json(r@) is Some,
        json_get_str(parsed_json(r@)->0, "data"@) == Some(cmd@),
        json_get_str(parsed_json(r@)->0, "type"@) == Some("stdin"@),
{
    let mut members: Vec<(String, String)> = Vec::new();
    members.push((String::from_str("type"), String::from_str("stdin")));
    members.push((String::from_str("data"), String::from_str(cmd)));
    assert(pairs_view(members@) =~= seq![("type"@, "stdin"@), ("data"@, cmd@)]);
    proof {
        reveal_strlit("type");
        reveal_strlit("data");
        assert("type"@[0] != "data"@[0]);
        assert(members@[0].0@ != members@[1].0@);
    }
    let r = json_object(&members);
    proof {
        let m = members@;
        assert(forall|j: int| 0 <= j < m.len() && j != 0 ==> (#[trigger] m[j]).0@ != m[0].0@);
        assert(forall|j: int| 0 <= j < m.len() && j != 1 ==> (#[trigger] m[j]).0@ != m[1].0@);
        assert(m[0].0@ == "type"@ && m[0].1@ == "stdin"@);
        assert(m[1].0@ == "data"@ && m[1].1@ == cmd@);
    }
    r
}

/// The address of a server's console WebSocket, seen from a page served
/// over `protocol` by `host`.
pub open spec fn ws_url_text(protocol: Seq<char>, host: Seq<char>, id: Seq<char>) -> Seq<char> {
    (if protocol == "https:"@ {
        "wss:"@
    } else {
        "ws:"@
    }) + "//"@ + host + "/ws/"@ + id
}

/// The address of a server's console WebSocket.
pub fn ws_url(protocol: &str, host: &str, id: &str) -> (r: String)
    ensures
        r@ == ws_url_text(protocol@, host@, id@),
{
    let scheme = if same_text(protocol, "https:") {
        "wss:"
    } else {
        "ws:"
    };
    String::from_str(scheme).concat("//").concat(host).concat("/ws/").concat(id)
}

} // verus!
