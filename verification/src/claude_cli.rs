//! One non-interactive (`-p`) CLI turn: the argument vector it is spawned with, and the
//! reading of each NDJSON line it streams back. Spawning the process and
//! pumping its pipes is the caller's I/O.
use vstd::prelude::*;
use vstd::string::*;

use crate::text::{
    chars_of, copy_range, join, join_with, lemma_chars_deep_view, string_of, trim, trimmed, Blank,
};

verus! {

broadcast use lemma_chars_deep_view;

/// Tool policy shared with the answer lanes. The fast lane never fetches or
/// reads anything; the deep lane reads local files and never writes or
/// reaches the network.
pub const NO_TOOLS: [&'static str; 11] = [
    "Bash",
    "Edit",
    "Write",
    "NotebookEdit",
    "WebFetch",
    "WebSearch",
    "Task",
    "Read",
    "Grep",
    "Glob",
    "TodoWrite",
];

pub const READ_ONLY_TOOLS: [&'static str; 3] = ["Read", "Grep", "Glob"];

pub const WRITE_TOOLS: [&'static str; 7] = [
    "Bash",
    "Edit",
    "Write",
    "NotebookEdit",
    "WebFetch",
    "WebSearch",
    "Task",
];

/// One turn's settings. Paths (`cwd`, `add_dirs`) are held as the strings
/// they are passed to the process as.
#[derive(Debug, Clone)]
pub struct ClaudeTurn {
    pub prompt: String,
    pub cwd: String,
    pub model: Option<String>,
    pub effort: Option<String>,
    pub resume: Option<String>,
    pub fork: bool,
    /// Mints a known session id, for the trunk seed.
    pub session_id: Option<String>,
    pub append_system_prompt: Option<String>,
    pub allowed_tools: Vec<String>,
    pub disallowed_tools: Vec<String>,
    pub partial: bool,
    /// Drops project memory-file discovery, skills, plugins, hooks, MCP servers and the
    /// account's output style, while leaving auth, model choice and the
    /// built-in tools alone.
    pub safe_mode: bool,
    /// Extra directories the turn may read.
    pub add_dirs: Vec<String>,
}

impl Default for ClaudeTurn {
    fn default() -> (t: Self)
        ensures
            t.prompt@.len() == 0,
            t.cwd@.len() == 0,
            t.model is None,
            t.effort is None,
            t.resume is None,
            !t.fork,
            t.session_id is None,
            t.append_system_prompt is None,
            t.allowed_tools@.len() == 0,
            t.disallowed_tools@.len() == 0,
            !t.partial,
            !t.safe_mode,
            t.add_dirs@.len() == 0,
    {
        ClaudeTurn {
            prompt: String::new(),
            cwd: String::new(),
            model: None,
            effort: None,
            resume: None,
            fork: false,
            session_id: None,
            append_system_prompt: None,
            allowed_tools: Vec::new(),
            disallowed_tools: Vec::new(),
            partial: false,
            safe_mode: false,
            add_dirs: Vec::new(),
        }
    }
}

/// The mathematical value of a turn.
pub struct TurnView {
    pub prompt: Seq<char>,
    pub cwd: Seq<char>,
    pub model: Option<Seq<char>>,
    pub effort: Option<Seq<char>>,
    pub resume: Option<Seq<char>>,
    pub fork: bool,
    pub session_id: Option<Seq<char>>,
    pub append_system_prompt: Option<Seq<char>>,
    pub allowed_tools: Seq<Seq<char>>,
    pub disallowed_tools: Seq<Seq<char>>,
    pub partial: bool,
    pub safe_mode: bool,
    pub add_dirs: Seq<Seq<char>>,
}

pub open spec fn opt_str(o: Option<String>) -> Option<Seq<char>> {
    match o {
        Some(s) => Some(s@),
        None => None,
    }
}

impl View for ClaudeTurn {
    type V = TurnView;

    open spec fn view(&self) -> TurnView {
        TurnView {
            prompt: self.prompt@,
            cwd: self.cwd@,
            model: opt_str(self.model),
            effort: opt_str(self.effort),
            resume: opt_str(self.resume),
            fork: self.fork,
            session_id: opt_str(self.session_id),
            append_system_prompt: opt_str(self.append_system_prompt),
            allowed_tools: self.allowed_tools.deep_view(),
            disallowed_tools: self.disallowed_tools.deep_view(),
            partial: self.partial,
            safe_mode: self.safe_mode,
            add_dirs: self.add_dirs.deep_view(),
        }
    }
}

/// The words of a tool list, as strings.
pub open spec fn tool_names(list: Seq<&'static str>) -> Seq<Seq<char>> {
    list.map_values(|s: &'static str| s@)
}

/// A tool list as owned strings.
pub fn tool_list(list: &[&'static str]) -> (r: Vec<String>)
    ensures
        r.deep_view() == tool_names(list@),
{
    let mut r: Vec<String> = Vec::new();
    let n = list.len();
    for i in 0..n
        invariant
            n == list@.len(),
            r.deep_view() == tool_names(list@.take(i as int)),
    {
        let ghost before = r.deep_view();
        r.push(String::from_str(list[i]));
        assert(r.deep_view() =~= before.push(list@[i as int]@));
        assert(tool_names(list@.take(i + 1)) =~= tool_names(list@.take(i as int)).push(
            list@[i as int]@,
        ));
    }
    assert(list@.take(n as int) =~= list@);
    r
}

/// A flag followed by its value, when the value is there.
pub open spec fn opt_flag(flag: Seq<char>, v: Option<String>) -> Seq<Seq<char>> {
    match v {
        Some(s) => seq![flag, s@],
        None => Seq::empty(),
    }
}

/// A flag alone, when it is set.
pub open spec fn bool_flag(flag: Seq<char>, on: bool) -> Seq<Seq<char>> {
    if on {
        seq![flag]
    } else {
        Seq::empty()
    }
}

/// A flag followed by the list joined with spaces, when the list is non-empty.
pub open spec fn list_flag(flag: Seq<char>, vs: Seq<Seq<char>>) -> Seq<Seq<char>> {
    if vs.len() > 0 {
        seq![flag, join(vs, " "@)]
    } else {
        Seq::empty()
    }
}

/// The argument vector for a turn, in the order the CLI runner always used.
pub open spec fn argv_spec(t: ClaudeTurn) -> Seq<Seq<char>> {
    seq!["-p"@, t.prompt@, "--output-format"@, "stream-json"@, "--verbose"@]
        + bool_flag("--safe-mode"@, t.safe_mode)
        + (if t.add_dirs@.len() > 0 {
        seq!["--add-dir"@] + t.add_dirs.deep_view()
    } else {
        Seq::empty()
    })
        + opt_flag("--resume"@, t.resume)
        + bool_flag("--fork-session"@, t.fork)
        + opt_flag("--session-id"@, t.session_id)
        + opt_flag("--model"@, t.model)
        + opt_flag("--effort"@, t.effort)
        + bool_flag("--include-partial-messages"@, t.partial)
        + opt_flag("--append-system-prompt"@, t.append_system_prompt)
        + list_flag("--allowedTools"@, t.allowed_tools.deep_view())
        + list_flag("--disallowedTools"@, t.disallowed_tools.deep_view())
}

fn push_arg(a: &mut Vec<String>, s: String)
    ensures
        final(a).deep_view() == old(a).deep_view().push(s@),
{
    let ghost before = a.deep_view();
    let ghost sv = s@;
    a.push(s);
    assert(a.deep_view() =~= before.push(sv));
}

fn push_opt(a: &mut Vec<String>, flag: &str, v: &Option<String>)
    ensures
        final(a).deep_view() == old(a).deep_view() + opt_flag(flag@, *v),
{
    let ghost before = a.deep_view();
    match v {
        Some(s) => {
            push_arg(a, String::from_str(flag));
            push_arg(a, s.clone());
            assert(a.deep_view() =~= before + opt_flag(flag@, *v));
        },
        None => {
            assert(a.deep_view() =~= before + opt_flag(flag@, *v));
        },
    }
}

fn push_bool(a: &mut Vec<String>, flag: &str, on: bool)
    ensures
        final(a).deep_view() == old(a).deep_view() + bool_flag(flag@, on),
{
    let ghost before = a.deep_view();
    if on {
        push_arg(a, String::from_str(flag));
    }
    assert(a.deep_view() =~= before + bool_flag(flag@, on));
}

fn push_list(a: &mut Vec<String>, flag: &str, vs: &Vec<String>)
    ensures
        final(a).deep_view() == old(a).deep_view() + list_flag(flag@, vs.deep_view()),
{
    let ghost before = a.deep_view();
    if vs.len() > 0 {
        push_arg(a, String::from_str(flag));
        push_arg(a, join_with(vs, " "));
    }
    assert(a.deep_view() =~= before + list_flag(flag@, vs.deep_view()));
}

impl ClaudeTurn {
    /// The arguments the CLI is spawned with for this turn.
    pub fn argv(&self) -> (a: Vec<String>)
        ensures
            a.deep_view() == argv_spec(*self),
    {
        let mut a: Vec<String> = Vec::new();
        push_arg(&mut a, String::from_str("-p"));
        push_arg(&mut a, self.prompt.clone());
        push_arg(&mut a, String::from_str("--output-format"));
        push_arg(&mut a, String::from_str("stream-json"));
        push_arg(&mut a, String::from_str("--verbose"));
        assert(a.deep_view() =~= seq![
            "-p"@,
            self.prompt@,
            "--output-format"@,
            "stream-json"@,
            "--verbose"@,
        ]);
        let ghost head = a.deep_view();
        push_bool(&mut a, "--safe-mode", self.safe_mode);
        let ghost with_safe = a.deep_view();
        if self.add_dirs.len() > 0 {
            push_arg(&mut a, String::from_str("--add-dir"));
            let n = self.add_dirs.len();
            let ghost base = a.deep_view();
            for i in 0..n
                invariant
                    n == self.add_dirs@.len(),
                    a.deep_view() == base + self.add_dirs.deep_view().take(i as int),
            {
                push_arg(&mut a, self.add_dirs[i].clone());
                assert(self.add_dirs.deep_view().take(i + 1) =~= self.add_dirs.deep_view().take(
                    i as int,
                ).push(self.add_dirs@[i as int]@));
                assert(base + self.add_dirs.deep_view().take(i as int).push(self.add_dirs@[i as int]@)
                    =~= (base + self.add_dirs.deep_view().take(i as int)).push(self.add_dirs@[i as int]@));
            }
            assert(self.add_dirs.deep_view().take(n as int) =~= self.add_dirs.deep_view());
            assert(a.deep_view() =~= with_safe + (seq!["--add-dir"@] + self.add_dirs.deep_view()));
        } else {
            assert(a.deep_view() =~= with_safe + Seq::<Seq<char>>::empty());
        }
        push_opt(&mut a, "--resume", &self.resume);
        push_bool(&mut a, "--fork-session", self.fork);
        push_opt(&mut a, "--session-id", &self.session_id);
        push_opt(&mut a, "--model", &self.model);
        push_opt(&mut a, "--effort", &self.effort);
        push_bool(&mut a, "--include-partial-messages", self.partial);
        push_opt(&mut a, "--append-system-prompt", &self.append_system_prompt);
        push_list(&mut a, "--allowedTools", &self.allowed_tools);
        push_list(&mut a, "--disallowedTools", &self.disallowed_tools);
        a
    }
}

/// One event read off the stream.
#[derive(Debug, Clone, PartialEq)]
pub enum ClaudeEvent {
    SessionId(String),
    TextDelta(String),
    Final(String),
    Failed(String),
}

/// The mathematical value of an event.
pub enum EventView {
    SessionId(Seq<char>),
    TextDelta(Seq<char>),
    Final(Seq<char>),
    Failed(Seq<char>),
}

impl View for ClaudeEvent {
    type V = EventView;

    open spec fn view(&self) -> EventView {
        match self {
            ClaudeEvent::SessionId(s) => EventView::SessionId(s@),
            ClaudeEvent::TextDelta(s) => EventView::TextDelta(s@),
            ClaudeEvent::Final(s) => EventView::Final(s@),
            ClaudeEvent::Failed(s) => EventView::Failed(s@),
        }
    }
}

/// How a turn ended: the session it ran in, its text, and its error if any.
#[derive(Debug, Clone)]
pub struct ClaudeOutcome {
    pub session_id: Option<String>,
    pub text: String,
    pub error: Option<String>,
}

/// What a JSON pointer finds in a JSON document: a string, a boolean, or
/// nothing usable (the document does not parse, nothing sits there, or
/// something else does).
pub enum LeafView {
    Text(Seq<char>),
    Flag(bool),
    Absent,
}

/// What a JSON lookup found.
pub enum JsonLeaf {
    Text(String),
    Flag(bool),
    Absent,
}

impl View for JsonLeaf {
    type V = LeafView;

    open spec fn view(&self) -> LeafView {
        match self {
            JsonLeaf::Text(s) => LeafView::Text(s@),
            JsonLeaf::Flag(b) => LeafView::Flag(*b),
            JsonLeaf::Absent => LeafView::Absent,
        }
    }
}

/// What parsing a document with `serde_json` and looking a pointer up in it
/// finds: a function of the document and the pointer alone.
pub uninterp spec fn json_lookup(doc: Seq<char>, pointer: Seq<char>) -> LeafView;

/// The string a lookup found, if it found one.
pub open spec fn leaf_text(l: LeafView) -> Option<Seq<char>> {
    match l {
        LeafView::Text(s) => Some(s),
        _ => None,
    }
}

/// The boolean a lookup found, if it found one.
pub open spec fn leaf_flag(l: LeafView) -> Option<bool> {
    match l {
        LeafView::Flag(b) => Some(b),
        _ => None,
    }
}

/// Parses `doc` with `serde_json::from_str` into a `serde_json::Value`, looks
/// `pointer` up in it with `Value::pointer`, and tells a string leaf and a
/// boolean leaf apart. Nothing is claimed of the parse or the lookup beyond
/// the name `json_lookup` for what they find.
#[verifier::external_body]
fn json_leaf(doc: &str, pointer: &str) -> (r: JsonLeaf)
    ensures
        r@ == json_lookup(doc@, pointer@),
{
    let v: serde_json::Value = match serde_json::from_str(doc) {
        Ok(v) => v,
        Err(_) => return JsonLeaf::Absent,
    };
    match v.pointer(pointer) {
        Some(serde_json::Value::String(s)) => JsonLeaf::Text(s.clone()),
        Some(serde_json::Value::Bool(b)) => JsonLeaf::Flag(*b),
        _ => JsonLeaf::Absent,
    }
}

fn text_at(doc: &str, pointer: &str) -> (r: Option<String>)
    ensures
        leaf_text(json_lookup(doc@, pointer@)) == (match r {
            Some(s) => Some(s@),
            None => None::<Seq<char>>,
        }),
{
    match json_leaf(doc, pointer) {
        JsonLeaf::Text(s) => Some(s),
        _ => None,
    }
}

fn flag_at(doc: &str, pointer: &str) -> (r: Option<bool>)
    ensures
        leaf_flag(json_lookup(doc@, pointer@)) == r,
{
    match json_leaf(doc, pointer) {
        JsonLeaf::Flag(b) => Some(b),
        _ => None,
    }
}

/// The fields of one stream line that decide what it means.
pub struct JsonFields {
    /// `/type`
    pub ty: Option<String>,
    /// `/subtype`
    pub subtype: Option<String>,
    /// `/session_id`
    pub session_id: Option<String>,
    /// `/result`
    pub result: Option<String>,
    /// `/is_error`
    pub is_error: Option<bool>,
    /// `/event/type`
    pub event_type: Option<String>,
    /// `/event/delta/type`
    pub delta_type: Option<String>,
    /// `/event/delta/text`
    pub delta_text: Option<String>,
}

pub struct FieldsView {
    pub ty: Option<Seq<char>>,
    pub subtype: Option<Seq<char>>,
    pub session_id: Option<Seq<char>>,
    pub result: Option<Seq<char>>,
    pub is_error: Option<bool>,
    pub event_type: Option<Seq<char>>,
    pub delta_type: Option<Seq<char>>,
    pub delta_text: Option<Seq<char>>,
}

impl View for JsonFields {
    type V = FieldsView;

    open spec fn view(&self) -> FieldsView {
        FieldsView {
            ty: opt_str(self.ty),
            subtype: opt_str(self.subtype),
            session_id: opt_str(self.session_id),
            result: opt_str(self.result),
            is_error: self.is_error,
            event_type: opt_str(self.event_type),
            delta_type: opt_str(self.delta_type),
            delta_text: opt_str(self.delta_text),
        }
    }
}

/// The fields a JSON document holds where a stream line keeps them.
pub open spec fn fields_of(doc: Seq<char>) -> FieldsView {
    FieldsView {
        ty: leaf_text(json_lookup(doc, "/type"@)),
        subtype: leaf_text(json_lookup(doc, "/subtype"@)),
        session_id: leaf_text(json_lookup(doc, "/session_id"@)),
        result: leaf_text(json_lookup(doc, "/result"@)),
        is_error: leaf_flag(json_lookup(doc, "/is_error"@)),
        event_type: leaf_text(json_lookup(doc, "/event/type"@)),
        delta_type: leaf_text(json_lookup(doc, "/event/delta/type"@)),
        delta_text: leaf_text(json_lookup(doc, "/event/delta/text"@)),
    }
}

/// What a stream line's fields mean: the session id of the `system`/`init`
/// line, a text delta of a `content_block_delta`, the final text of a
/// `result` line, or, on a result line reporting an error, that error over
/// the result text (`<program> reported an error` when there is none).
/// Anything else means nothing.
pub open spec fn event_spec(f: FieldsView, program: Seq<char>) -> Option<EventView> {
    match f.ty {
        None => None,
        Some(ty) => if ty == "system"@ {
            if f.subtype == Some("init"@) {
                match f.session_id {
                    Some(s) => Some(EventView::SessionId(s)),
                    None => None,
                }
            } else {
                None
            }
        } else if ty == "result"@ {
            if f.is_error == Some(true) {
                Some(
                    EventView::Failed(
                        match f.result {
                            Some(s) => s,
                            None => program + " reported an error"@,
                        },
                    ),
                )
            } else {
                match f.result {
                    Some(s) => Some(EventView::Final(s)),
                    None => None,
                }
            }
        } else if ty == "stream_event"@ {
            if f.event_type == Some("content_block_delta"@) && f.delta_type == Some("text_delta"@) {
                match f.delta_text {
                    Some(s) => Some(EventView::TextDelta(s)),
                    None => None,
                }
            } else {
                None
            }
        } else {
            None
        },
    }
}

/// What `parse_line` reads off one NDJSON line of a turn's `--output-format
/// stream-json` output; `program` is the name the turn's binary goes by.
pub open spec fn parse_line_spec(line: Seq<char>, program: Seq<char>) -> Option<EventView> {
    let t = trim(line);
    if t.len() == 0 {
        None
    } else {
        event_spec(fields_of(t), program)
    }
}

pub open spec fn event_opt(r: Option<ClaudeEvent>) -> Option<EventView> {
    match r {
        Some(e) => Some(e@),
        None => None,
    }
}

fn is_text(v: &Option<String>, lit: &str) -> (r: bool)
    ensures
        r == (opt_str(*v) == Some(lit@)),
{
    match v {
        Some(s) => {
            let l = String::from_str(lit);
            *s == l
        },
        None => false,
    }
}

/// Decides what a stream line's fields mean.
pub fn event_from_fields(f: JsonFields, program: &str) -> (r: Option<ClaudeEvent>)
    ensures
        event_opt(r) == event_spec(f@, program@),
{
    if f.ty.is_none() {
        return None;
    }
    if is_text(&f.ty, "system") {
        if !is_text(&f.subtype, "init") {
            return None;
        }
        return match f.session_id {
            Some(s) => Some(ClaudeEvent::SessionId(s)),
            None => None,
        };
    }
    if is_text(&f.ty, "result") {
        let is_error = match f.is_error {
            Some(b) => b,
            None => false,
        };
        if is_error {
            return Some(
                ClaudeEvent::Failed(
                    match f.result {
                        Some(s) => s,
                        None => String::from_str(program).concat(" reported an error"),
                    },
                ),
            );
        }
        return match f.result {
            Some(s) => Some(ClaudeEvent::Final(s)),
            None => None,
        };
    }
    if is_text(&f.ty, "stream_event") {
        if !is_text(&f.event_type, "content_block_delta") {
            return None;
        }
        if !is_text(&f.delta_type, "text_delta") {
            return None;
        }
        return match f.delta_text {
            Some(s) => Some(ClaudeEvent::TextDelta(s)),
            None => None,
        };
    }
    None
}

/// Looks up every field that decides what a stream line means.
fn lookup_fields(doc: &str) -> (f: JsonFields)
    ensures
        f@ == fields_of(doc@),
{
    JsonFields {
        ty: text_at(doc, "/type"),
        subtype: text_at(doc, "/subtype"),
        session_id: text_at(doc, "/session_id"),
        result: text_at(doc, "/result"),
        is_error: flag_at(doc, "/is_error"),
        event_type: text_at(doc, "/event/type"),
        delta_type: text_at(doc, "/event/delta/type"),
        delta_text: text_at(doc, "/event/delta/text"),
    }
}

/// Parses one NDJSON line of a turn's `--output-format stream-json` output;
/// `program` is the name the turn's binary goes by.
pub fn parse_line(line: &str, program: &str) -> (r: Option<ClaudeEvent>)
    ensures
        event_opt(r) == parse_line_spec(line@, program@),
{
    let chars = chars_of(line);
    let tc = trimmed(Blank::Unicode, &chars);
    if tc.len() == 0 {
        return None;
    }
    let ts = string_of(&tc);
    event_from_fields(lookup_fields(ts.as_str()), program)
}

/// The last `n` characters of `s`, or all of `s` when it is no longer.
pub open spec fn last_n(s: Seq<char>, n: nat) -> Seq<char> {
    if s.len() <= n {
        s
    } else {
        s.skip(s.len() - n)
    }
}

/// Keeps only the last `max_len` characters of a rolling text buffer.
pub fn tail_chars(s: &mut String, max_len: usize)
    ensures
        final(s)@ == last_n(old(s)@, max_len as nat),
{
    let chars = chars_of(s.as_str());
    if chars.len() > max_len {
        let start = chars.len() - max_len;
        let kept = copy_range(&chars, start, chars.len());
        assert(kept@ =~= chars@.skip(start as int));
        *s = string_of(&kept);
    }
}

/// The last `n` characters of `s`.
pub fn last_chars(s: &str, n: usize) -> (r: String)
    ensures
        r@ == last_n(s@, n as nat),
{
    let chars = chars_of(s);
    let len = chars.len();
    if len <= n {
        String::from_str(s)
    } else {
        let kept = copy_range(&chars, len - n, len);
        assert(kept@ =~= chars@.skip(len - n));
        string_of(&kept)
    }
}


/// The character of a decimal digit.
pub open spec fn digit_char(d: int) -> char {
    ((48 + d) as u8) as char
}

/// The decimal digits of a natural number, most significant first, with no
/// leading zeros.
pub open spec fn digits(n: nat) -> Seq<char>
    decreases n,
{
    if n < 10 {
        seq![digit_char(n as int)]
    } else {
        digits(n / 10).push(digit_char((n % 10) as int))
    }
}

/// What `i32::to_string` returns: the decimal form, with a minus sign before
/// a negative number.
pub open spec fn decimal_text(n: i32) -> Seq<char> {
    if n < 0 {
        seq!['-'] + digits((-(n as int)) as nat)
    } else {
        digits(n as nat)
    }
}

fn push_digits(out: &mut String, m: u64)
    ensures
        final(out)@ == old(out)@ + digits(m as nat),
    decreases m,
{
    if m >= 10 {
        push_digits(out, m / 10);
    }
    let d = (m % 10) as u8;
    crate::text::string_push(out, (48 + d) as char);
    assert(old(out)@ + digits(m as nat) =~= if m >= 10 {
        old(out)@ + digits((m / 10) as nat) + seq![digit_char((m % 10) as int)]
    } else {
        old(out)@ + seq![digit_char((m % 10) as int)]
    });
}

/// `i32::to_string`, written out.
fn i32_to_string(n: i32) -> (r: String)
    ensures
        r@ == decimal_text(n),
{
    let mut out = String::new();
    let m: u64 = if n < 0 {
        crate::text::string_push(&mut out, '-');
        (0i64 - (n as i64)) as u64
    } else {
        n as u64
    };
    push_digits(&mut out, m);
    out
}

/// What a turn has read off its output so far.
pub struct TurnFold {
    /// The name the turn's binary goes by, for its messages.
    pub program: String,
    pub session_id: Option<String>,
    pub final_text: String,
    pub streamed: String,
    pub error: Option<String>,
}

pub struct FoldView {
    pub program: Seq<char>,
    pub session_id: Option<Seq<char>>,
    pub final_text: Seq<char>,
    pub streamed: Seq<char>,
    pub error: Option<Seq<char>>,
}

impl View for TurnFold {
    type V = FoldView;

    open spec fn view(&self) -> FoldView {
        FoldView {
            program: self.program@,
            session_id: opt_str(self.session_id),
            final_text: self.final_text@,
            streamed: self.streamed@,
            error: opt_str(self.error),
        }
    }
}

/// One output line read: a session id, a text delta (streamed on), the
/// final text, or an error; anything else changes nothing.
pub open spec fn read_spec(f: FoldView, line: Seq<char>) -> (FoldView, Option<Seq<char>>) {
    match parse_line_spec(line, f.program) {
        None => (f, None),
        Some(EventView::SessionId(s)) => (FoldView { session_id: Some(s), ..f }, None),
        Some(EventView::TextDelta(t)) => (FoldView { streamed: f.streamed + t, ..f }, Some(t)),
        Some(EventView::Final(t)) => (FoldView { final_text: t, ..f }, None),
        Some(EventView::Failed(e)) => (FoldView { error: Some(e), ..f }, None),
    }
}

/// How the process ended, when its status could be read: whether it
/// succeeded, and its exit code if it had one.
pub struct ExitStatus {
    pub success: bool,
    pub code: Option<i32>,
}

/// The turn's outcome: the final text, or everything streamed when there
/// was none; a failed exit reports the program, its exit code and the end of
/// standard error, over any error the stream reported.
pub open spec fn outcome_spec(f: FoldView, exit: Option<(bool, Option<i32>)>, stderr_tail: Seq<char>) -> (
    Option<Seq<char>>,
    Seq<char>,
    Option<Seq<char>>,
) {
    (
        f.session_id,
        if f.final_text.len() == 0 {
            f.streamed
        } else {
            f.final_text
        },
        match exit {
            Some((false, code)) => Some(
                f.program + " exited "@ + decimal_text(
                    match code {
                        Some(c) => c,
                        None => -1i32,
                    },
                ) + ": "@ + last_n(stderr_tail, 400),
            ),
            _ => f.error,
        },
    )
}

impl TurnFold {
    /// Nothing read yet from a turn of `program`.
    pub fn new(program: &str) -> (f: TurnFold)
        ensures
            f@ == (FoldView {
                program: program@,
                session_id: None,
                final_text: Seq::empty(),
                streamed: Seq::empty(),
                error: None,
            }),
    {
        TurnFold {
            program: String::from_str(program),
            session_id: None,
            final_text: String::new(),
            streamed: String::new(),
            error: None,
        }
    }

    /// Reads one output line; the result is the text to stream on, if any.
    pub fn read_line(&mut self, line: &str) -> (delta: Option<String>)
        ensures
            (final(self)@, opt_str(delta)) == read_spec(old(self)@, line@),
    {
        match parse_line(line, self.program.as_str()) {
            Some(ClaudeEvent::SessionId(s)) => {
                self.session_id = Some(s);
                None
            },
            Some(ClaudeEvent::TextDelta(t)) => {
                self.streamed.append(t.as_str());
                Some(t)
            },
            Some(ClaudeEvent::Final(t)) => {
                self.final_text = t;
                None
            },
            Some(ClaudeEvent::Failed(e)) => {
                self.error = Some(e);
                None
            },
            None => None,
        }
    }

    /// The process is done; `exit` is its status when it could be read.
    pub fn finish(self, exit: Option<ExitStatus>, stderr_tail: &str) -> (o: ClaudeOutcome)
        ensures
            (opt_str(o.session_id), o.text@, opt_str(o.error)) == outcome_spec(
                self@,
                match exit {
                    Some(x) => Some((x.success, x.code)),
                    None => None,
                },
                stderr_tail@,
            ),
    {
        let error = match exit {
            Some(x) => if !x.success {
                let code = match x.code {
                    Some(c) => c,
                    None => -1,
                };
                Some(
                    self.program.clone().concat(" exited ").concat(i32_to_string(code).as_str()).concat(
                        ": ",
                    ).concat(last_chars(stderr_tail, 400).as_str()),
                )
            } else {
                self.error
            },
            None => self.error,
        };
        let text = if self.final_text.as_str().is_empty() {
            self.streamed
        } else {
            self.final_text
        };
        ClaudeOutcome { session_id: self.session_id, text, error }
    }
}

/// Every turn runs non-interactively on its prompt and streams JSON.
pub proof fn law_every_turn_streams_json(t: ClaudeTurn)
    ensures
        argv_spec(t).len() >= 5,
        argv_spec(t).take(5) == seq!["-p"@, t.prompt@, "--output-format"@, "stream-json"@, "--verbose"@],
{
    let head = seq!["-p"@, t.prompt@, "--output-format"@, "stream-json"@, "--verbose"@];
    assert(argv_spec(t).take(5) =~= head);
}

/// A blank line is no event.
pub proof fn law_blank_lines_are_no_event(line: Seq<char>, program: Seq<char>)
    requires
        trim(line).len() == 0,
    ensures
        parse_line_spec(line, program) is None,
{
}


/// On a result line reporting an error, the error wins over the result
/// text, and a missing text is reported in the program's name.
pub proof fn law_an_error_result_is_a_failure(f: FieldsView, program: Seq<char>)
    requires
        f.ty == Some("result"@),
        f.is_error == Some(true),
    ensures
        event_spec(f, program) == Some(
            EventView::Failed(
                match f.result {
                    Some(s) => s,
                    None => program + " reported an error"@,
                },
            ),
        ),
{
    reveal_strlit("result");
    reveal_strlit("system");
    assert("result"@[0] != "system"@[0]);
}

/// Every deep-read directory is handed to the CLI: when there are any, the
/// argument vector holds `--add-dir` right after the fixed head (and the
/// safe-mode flag, when set), followed by every directory in order.
pub proof fn law_every_directory_follows_add_dir(t: ClaudeTurn)
    requires
        t.add_dirs@.len() > 0,
    ensures
        ({
            let k: int = if t.safe_mode {
                6
            } else {
                5
            };
            let n: int = t.add_dirs@.len() as int;
            &&& argv_spec(t).len() >= k + 1 + n
            &&& argv_spec(t)[k] == "--add-dir"@
            &&& argv_spec(t).subrange(k + 1, k + 1 + n) == t.add_dirs.deep_view()
            &&& forall|i: int| 0 <= i < n ==> argv_spec(t).contains(#[trigger] t.add_dirs@[i]@)
        }),
{
    let k: int = if t.safe_mode {
        6
    } else {
        5
    };
    let n: int = t.add_dirs@.len() as int;
    let head = seq!["-p"@, t.prompt@, "--output-format"@, "stream-json"@, "--verbose"@]
        + bool_flag("--safe-mode"@, t.safe_mode);
    let dirs = seq!["--add-dir"@] + t.add_dirs.deep_view();
    let a = argv_spec(t);
    assert(head.len() == k);
    assert(a.subrange(0, k + 1 + n) =~= head + dirs) by {
        assert(a =~= (head + dirs) + a.subrange(k + 1 + n, a.len() as int));
    }
    assert(a.subrange(k + 1, k + 1 + n) =~= t.add_dirs.deep_view());
    assert forall|i: int| 0 <= i < n implies a.contains(#[trigger] t.add_dirs@[i]@) by {
        assert(a[k + 1 + i] == t.add_dirs.deep_view()[i]);
    }
}

} // verus!
