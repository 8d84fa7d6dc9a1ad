//! Ordered, labeled transcript log built from transcript updates, plus the
//! utterance assembler: consecutive same-speaker segments merge into one
//! utterance until a quiet gap or a speaker flip closes it.
//!
//! Audio times are whole milliseconds.
use vstd::prelude::*;
use vstd::string::*;

use crate::text::{join, join_with};

verus! {

/// Segments this close together (by start time vs. the open utterance's end)
/// keep merging into the same utterance.
pub const UTTERANCE_GAP_MS: u64 = 1200;

/// Which channel a segment came from.
#[derive(Debug, Clone, Copy, PartialEq, Eq, Structural)]
pub enum Speaker {
    You,
    Them,
    Unknown,
}

pub open spec fn speaker_of(source: Seq<char>) -> Speaker {
    if source == "mic"@ {
        Speaker::You
    } else if source == "system"@ {
        Speaker::Them
    } else {
        Speaker::Unknown
    }
}

pub open spec fn label_of(s: Speaker) -> Seq<char> {
    match s {
        Speaker::You => "You"@,
        Speaker::Them => "Them"@,
        Speaker::Unknown => "Unknown"@,
    }
}

impl Speaker {
    /// `mic` is You, `system` is Them, anything else is Unknown.
    pub fn from_source(source: &str) -> (s: Speaker)
        ensures
            s == speaker_of(source@),
    {
        let src = String::from_str(source);
        if src == String::from_str("mic") {
            Speaker::You
        } else if src == String::from_str("system") {
            Speaker::Them
        } else {
            Speaker::Unknown
        }
    }

    /// The label a transcript line carries.
    pub fn label(self) -> (l: &'static str)
        ensures
            l@ == label_of(self),
    {
        match self {
            Speaker::You => "You",
            Speaker::Them => "Them",
            Speaker::Unknown => "Unknown",
        }
    }
}

/// One transcript segment as transcription reports it.
#[derive(Debug, Clone)]
pub struct TranscriptUpdate {
    pub text: String,
    /// `mic`, `system`, or anything else.
    pub source: String,
    pub is_partial: bool,
    pub audio_start_ms: u64,
    pub audio_end_ms: u64,
}

/// What the assembler reports after each update.
#[derive(Debug, Clone, PartialEq)]
pub enum AssemblerOut {
    /// Partial preview, or a still-open utterance that just grew.
    Running { speaker: Speaker, text: String },
    /// Closed: a quiet gap of at least 1.2 s or a speaker flip.
    Utterance { speaker: Speaker, text: String },
}

pub enum OutView {
    Running { speaker: Speaker, text: Seq<char> },
    Utterance { speaker: Speaker, text: Seq<char> },
}

impl View for AssemblerOut {
    type V = OutView;

    open spec fn view(&self) -> OutView {
        match self {
            AssemblerOut::Running { speaker, text } => OutView::Running {
                speaker: *speaker,
                text: text@,
            },
            AssemblerOut::Utterance { speaker, text } => OutView::Utterance {
                speaker: *speaker,
                text: text@,
            },
        }
    }
}

struct OpenUtterance {
    speaker: Speaker,
    /// Text merged from finalized segments only; a partial never lands here.
    committed_text: String,
    /// Latest partial preview for the segment still in flight, replaced
    /// wholesale (never appended) when its final arrives.
    pending_partial: Option<String>,
    end_ms: u64,
}

/// A finalized utterance in the log.
pub struct FinalLine {
    pub speaker: Speaker,
    pub text: String,
    pub end_ms: u64,
}

pub struct OpenView {
    pub speaker: Speaker,
    pub committed: Seq<char>,
    pub pending: Option<Seq<char>>,
    pub end_ms: int,
}

pub struct FinalView {
    pub speaker: Speaker,
    pub text: Seq<char>,
    pub end_ms: int,
}

#[verifier::ext_equal]
pub struct LogView {
    pub finals: Seq<FinalView>,
    pub open: Option<OpenView>,
}

pub struct UpdateView {
    pub text: Seq<char>,
    pub source: Seq<char>,
    pub is_partial: bool,
    pub start_ms: int,
    pub end_ms: int,
}

impl View for TranscriptUpdate {
    type V = UpdateView;

    open spec fn view(&self) -> UpdateView {
        UpdateView {
            text: self.text@,
            source: self.source@,
            is_partial: self.is_partial,
            start_ms: self.audio_start_ms as int,
            end_ms: self.audio_end_ms as int,
        }
    }
}

impl View for FinalLine {
    type V = FinalView;

    open spec fn view(&self) -> FinalView {
        FinalView { speaker: self.speaker, text: self.text@, end_ms: self.end_ms as int }
    }
}

impl View for OpenUtterance {
    type V = OpenView;

    closed spec fn view(&self) -> OpenView {
        OpenView {
            speaker: self.speaker,
            committed: self.committed_text@,
            pending: match self.pending_partial {
                Some(p) => Some(p@),
                None => None,
            },
            end_ms: self.end_ms as int,
        }
    }
}

/// The transcript: finalized utterances in order, and the utterance still open.
pub struct TranscriptLog {
    finals: Vec<FinalLine>,
    open: Option<OpenUtterance>,
}

impl View for TranscriptLog {
    type V = LogView;

    closed spec fn view(&self) -> LogView {
        LogView {
            finals: self.finals@.map_values(|f: FinalLine| f@),
            open: match self.open {
                Some(o) => Some(o@),
                None => None,
            },
        }
    }
}

/// What the open utterance shows: its committed text with the pending
/// partial after it.
pub open spec fn preview_of(o: OpenView) -> Seq<char> {
    match o.pending {
        Some(p) => if o.committed.len() > 0 {
            o.committed + " "@ + p
        } else {
            p
        },
        None => o.committed,
    }
}

/// Closing the open utterance: its committed text, if any, becomes a final.
pub open spec fn close_spec(l: LogView) -> (LogView, Seq<OutView>) {
    match l.open {
        None => (l, Seq::empty()),
        Some(o) => if o.committed.len() == 0 {
            (LogView { finals: l.finals, open: None }, Seq::empty())
        } else {
            (
                LogView {
                    finals: l.finals.push(FinalView { speaker: o.speaker, text: o.committed, end_ms: o.end_ms }),
                    open: None,
                },
                seq![OutView::Utterance { speaker: o.speaker, text: o.committed }],
            )
        },
    }
}

/// The update continues the open utterance: same speaker, and it starts less
/// than 1.2 s after the utterance's end.
pub open spec fn continues(l: LogView, u: UpdateView) -> bool {
    match l.open {
        Some(o) => o.speaker == speaker_of(u.source) && u.start_ms - o.end_ms < UTTERANCE_GAP_MS,
        None => false,
    }
}

/// The open utterance with an update merged in.
pub open spec fn merge(o: OpenView, u: UpdateView) -> OpenView {
    if u.is_partial {
        OpenView { pending: Some(u.text), end_ms: u.end_ms, ..o }
    } else {
        OpenView {
            committed: if o.committed.len() > 0 {
                o.committed + " "@ + u.text
            } else {
                u.text
            },
            pending: None,
            end_ms: u.end_ms,
            ..o
        }
    }
}

/// What `ingest` does: the log after the update, and what it reports.
pub open spec fn ingest_spec(l: LogView, u: UpdateView) -> (LogView, Seq<OutView>) {
    let sp = speaker_of(u.source);
    let (base, closed) = if continues(l, u) {
        (l, Seq::empty())
    } else {
        let (c, outs) = close_spec(l);
        (
            LogView {
                finals: c.finals,
                open: Some(OpenView { speaker: sp, committed: Seq::empty(), pending: None, end_ms: u.end_ms }),
            },
            outs,
        )
    };
    let o = merge(base.open->0, u);
    (
        LogView { finals: base.finals, open: Some(o) },
        closed.push(OutView::Running { speaker: sp, text: preview_of(o) }),
    )
}

/// A final's transcript line: `You: text`, `Them: text`.
pub open spec fn line_of(f: FinalView) -> Seq<char> {
    label_of(f.speaker) + ": "@ + f.text
}

pub open spec fn lines_of(fs: Seq<FinalView>) -> Seq<Seq<char>> {
    fs.map_values(|f: FinalView| line_of(f))
}

/// The latest audio time the log has seen (0 for an empty log).
pub open spec fn latest_end(fs: Seq<FinalView>, open: Option<OpenView>) -> int
    decreases fs.len(),
{
    if fs.len() == 0 {
        match open {
            Some(o) => if o.end_ms > 0 {
                o.end_ms
            } else {
                0
            },
            None => 0,
        }
    } else {
        let rest = latest_end(fs.drop_last(), open);
        if fs.last().end_ms > rest {
            fs.last().end_ms
        } else {
            rest
        }
    }
}

/// Finals no older than `ms` before `now`, from `speaker` when one is given.
pub open spec fn in_window(f: FinalView, now: int, ms: int, speaker: Option<Speaker>) -> bool {
    now - f.end_ms <= ms && match speaker {
        Some(want) => want == f.speaker,
        None => true,
    }
}

pub open spec fn window_finals(fs: Seq<FinalView>, now: int, ms: int, speaker: Option<Speaker>) -> Seq<
    FinalView,
>
    decreases fs.len(),
{
    if fs.len() == 0 {
        Seq::empty()
    } else {
        let rest = window_finals(fs.drop_last(), now, ms, speaker);
        if in_window(fs.last(), now, ms, speaker) {
            rest.push(fs.last())
        } else {
            rest
        }
    }
}

/// What `window` returns.
pub open spec fn window_spec(l: LogView, ms: int, speaker: Option<Speaker>) -> Seq<char> {
    join(
        lines_of(window_finals(l.finals, latest_end(l.finals, l.open), ms, speaker)),
        "\n"@,
    )
}

/// The open You utterance's preview, or nothing.
pub open spec fn open_you_preview_spec(l: LogView) -> Seq<char> {
    match l.open {
        Some(o) => if o.speaker == Speaker::You {
            preview_of(o)
        } else {
            Seq::empty()
        },
        None => Seq::empty(),
    }
}

impl FinalLine {
    fn line(&self) -> (r: String)
        ensures
            r@ == line_of(self@),
    {
        String::from_str(self.speaker.label()).concat(": ").concat(self.text.as_str())
    }
}

impl OpenUtterance {
    fn preview(&self) -> (r: String)
        ensures
            r@ == preview_of(self@),
    {
        match &self.pending_partial {
            Some(partial) => if self.committed_text.as_str().is_empty() {
                partial.clone()
            } else {
                self.committed_text.clone().concat(" ").concat(partial.as_str())
            },
            None => self.committed_text.clone(),
        }
    }
}

impl TranscriptLog {
    /// An empty log.
    pub fn new() -> (l: TranscriptLog)
        ensures
            l@.finals.len() == 0,
            l@.open is None,
    {
        TranscriptLog { finals: Vec::new(), open: None }
    }

    proof fn lemma_view_push(v: Seq<FinalLine>, f: FinalLine)
        ensures
            v.push(f).map_values(|x: FinalLine| x@) == v.map_values(|x: FinalLine| x@).push(f@),
    {
        assert(v.push(f).map_values(|x: FinalLine| x@) =~= v.map_values(|x: FinalLine| x@).push(
            f@,
        ));
    }

    fn close_open(&mut self) -> (r: Option<AssemblerOut>)
        ensures
            final(self)@ == close_spec(old(self)@).0,
            close_spec(old(self)@).1 == (match r {
                Some(o) => seq![o@],
                None => Seq::empty(),
            }),
    {
        let open = self.open.take();
        match open {
            None => None,
            Some(o) => {
                if o.committed_text.as_str().is_empty() {
                    return None;
                }
                let text = o.committed_text.clone();
                proof {
                    Self::lemma_view_push(
                        self.finals@,
                        FinalLine { speaker: o.speaker, text: o.committed_text, end_ms: o.end_ms },
                    );
                }
                self.finals.push(
                    FinalLine { speaker: o.speaker, text: o.committed_text, end_ms: o.end_ms },
                );
                Some(AssemblerOut::Utterance { speaker: o.speaker, text })
            },
        }
    }

    /// Takes in one update; reports the utterance it closed, if any, and then
    /// the running text of the utterance it landed in.
    pub fn ingest(&mut self, u: &TranscriptUpdate) -> (out: Vec<AssemblerOut>)
        ensures
            final(self)@ == ingest_spec(old(self)@, u@).0,
            out@.map_values(|o: AssemblerOut| o@) == ingest_spec(old(self)@, u@).1,
    {
        let speaker = Speaker::from_source(u.source.as_str());
        let mut out: Vec<AssemblerOut> = Vec::new();
        let continues_open = match &self.open {
            Some(open) => open.speaker == speaker && (u.audio_start_ms <= open.end_ms
                || u.audio_start_ms - open.end_ms < UTTERANCE_GAP_MS),
            None => false,
        };
        let ghost closed: Seq<OutView> = Seq::empty();
        if !continues_open {
            let c = self.close_open();
            if let Some(closed_out) = c {
                out.push(closed_out);
            }
            proof {
                closed = close_spec(old(self)@).1;
            }
            self.open = Some(
                OpenUtterance {
                    speaker,
                    committed_text: String::new(),
                    pending_partial: None,
                    end_ms: u.audio_end_ms,
                },
            );
        }
        assert(out@.map_values(|o: AssemblerOut| o@) =~= closed);
        let mut open = self.open.take().unwrap();
        if u.is_partial {
            open.pending_partial = Some(u.text.clone());
        } else {
            if !open.committed_text.as_str().is_empty() {
                open.committed_text.append(" ");
            }
            open.committed_text.append(u.text.as_str());
            open.pending_partial = None;
        }
        open.end_ms = u.audio_end_ms;
        let text = open.preview();
        self.open = Some(open);
        let ghost before = out@;
        out.push(AssemblerOut::Running { speaker, text });
        assert(out@.map_values(|o: AssemblerOut| o@) =~= before.map_values(|o: AssemblerOut| o@).push(
            out@.last()@,
        ));
        out
    }

    fn lines(&self, from: usize) -> (r: Vec<String>)
        requires
            from <= self@.finals.len(),
        ensures
            r.deep_view() == lines_of(self@.finals.skip(from as int)),
    {
        let mut r: Vec<String> = Vec::new();
        let n = self.finals.len();
        let ghost fs = self@.finals;
        assert(fs.len() == n);
        let mut i = from;
        while i < n
            invariant
                from <= i <= n,
                n == self.finals@.len(),
                fs == self@.finals,
                r.deep_view() == lines_of(fs.subrange(from as int, i as int)),
            decreases n - i,
        {
            assert(fs[i as int] == self.finals@[i as int]@);
            let line = self.finals[i].line();
            let ghost before = r.deep_view();
            r.push(line);
            assert(r.deep_view() =~= before.push(line_of(fs[i as int])));
            assert(fs.subrange(from as int, i + 1) =~= fs.subrange(from as int, i as int).push(
                fs[i as int],
            ));
            assert(lines_of(fs.subrange(from as int, i + 1)) =~= lines_of(
                fs.subrange(from as int, i as int),
            ).push(line_of(fs[i as int])));
            i += 1;
        }
        assert(fs.subrange(from as int, n as int) =~= fs.skip(from as int));
        r
    }

    /// New finals since `cursor`, labeled `You:`/`Them:` one per line, and the
    /// cursor to pass next time.
    pub fn delta_since(&self, cursor: usize) -> (r: (String, usize))
        ensures
            r.1 == self@.finals.len(),
            r.0@ == join(
                lines_of(
                    self@.finals.skip(
                        if cursor <= self@.finals.len() {
                            cursor as int
                        } else {
                            self@.finals.len() as int
                        },
                    ),
                ),
                "\n"@,
            ),
    {
        let n = self.finals.len();
        assert(n == self@.finals.len());
        let start = if cursor <= n {
            cursor
        } else {
            n
        };
        let lines = self.lines(start);
        (join_with(&lines, "\n"), n)
    }

    /// Every final, labeled, one per line.
    pub fn all(&self) -> (r: String)
        ensures
            r@ == join(lines_of(self@.finals), "\n"@),
    {
        let lines = self.lines(0);
        assert(self@.finals.skip(0) =~= self@.finals);
        join_with(&lines, "\n")
    }

    /// Labeled finals from the last `window_ms` of audio, optionally filtered
    /// to one speaker. "Now" is the latest audio time the log has seen.
    pub fn window(&self, window_ms: u64, speaker: Option<Speaker>) -> (r: String)
        ensures
            r@ == window_spec(self@, window_ms as int, speaker),
    {
        let n = self.finals.len();
        let ghost fs = self@.finals;
        let ghost op = self@.open;
        let mut now: u64 = match &self.open {
            Some(o) => o.end_ms,
            None => 0,
        };
        for i in 0..n
            invariant
                n == self.finals@.len(),
                fs == self@.finals,
                op == self@.open,
                now == latest_end(fs.take(i as int), op),
        {
            assert(fs.take(i + 1).drop_last() =~= fs.take(i as int));
            assert(fs.take(i + 1).last() == self.finals@[i as int]@);
            if self.finals[i].end_ms > now {
                now = self.finals[i].end_ms;
            }
        }
        assert(fs.take(n as int) =~= fs);
        let mut lines: Vec<String> = Vec::new();
        for i in 0..n
            invariant
                n == self.finals@.len(),
                fs == self@.finals,
                now == latest_end(fs, op),
                now >= 0,
                lines.deep_view() == lines_of(
                    window_finals(fs.take(i as int), now as int, window_ms as int, speaker),
                ),
        {
            assert(fs.take(i + 1).drop_last() =~= fs.take(i as int));
            assert(fs.take(i + 1).last() == self.finals@[i as int]@);
            let f = &self.finals[i];
            let recent = f.end_ms >= now || now - f.end_ms <= window_ms;
            let wanted = match speaker {
                Some(want) => want == f.speaker,
                None => true,
            };
            if recent && wanted {
                let ghost before = lines.deep_view();
                let line = f.line();
                lines.push(line);
                assert(lines.deep_view() =~= before.push(line_of(f@)));
                assert(lines_of(
                    window_finals(fs.take(i + 1), now as int, window_ms as int, speaker),
                ) =~= lines_of(
                    window_finals(fs.take(i as int), now as int, window_ms as int, speaker),
                ).push(line_of(f@)));
            }
        }
        assert(fs.take(n as int) =~= fs);
        join_with(&lines, "\n")
    }

    /// The open utterance's running text when it is on the You channel,
    /// otherwise nothing.
    pub fn open_you_preview(&self) -> (r: String)
        ensures
            r@ == open_you_preview_spec(self@),
    {
        match &self.open {
            Some(o) => if o.speaker == Speaker::You {
                o.preview()
            } else {
                String::new()
            },
            None => String::new(),
        }
    }
}


// ---------------------------------------------------------------------
// Laws
// ---------------------------------------------------------------------

/// What came first stays first: an update never rewrites or drops a
/// final, and closes at most one utterance. It always reports the running
/// text of the utterance it landed in, after the utterance it closed.
pub proof fn law_finals_only_grow(l: LogView, u: UpdateView)
    ensures
        ({
            let (l1, outs) = ingest_spec(l, u);
            &&& l.finals.len() <= l1.finals.len() <= l.finals.len() + 1
            &&& l1.finals.subrange(0, l.finals.len() as int) == l.finals
            &&& 1 <= outs.len() <= 2
            &&& outs.last() is Running
            &&& l1.open is Some
        }),
{
    let (l1, _) = ingest_spec(l, u);
    assert(l1.finals.subrange(0, l.finals.len() as int) =~= l.finals);
}

/// A partial is a preview: it replaces the previous preview and never
/// becomes committed text; only a final extends what is committed.
pub proof fn law_partials_are_replaced_not_appended(o: OpenView, u: UpdateView)
    ensures
        u.is_partial ==> merge(o, u).committed == o.committed && merge(o, u).pending == Some(u.text),
        !u.is_partial ==> merge(o, u).pending is None,
{
}

/// An update always lands in the open utterance, which then belongs to the
/// update's speaker and ends where the update ends.
pub proof fn law_the_open_utterance_ends_with_the_last_update(l: LogView, u: UpdateView)
    ensures
        ingest_spec(l, u).0.open matches Some(o) && o.end_ms == u.end_ms && o.speaker == speaker_of(
            u.source,
        ),
{
}

/// Continuous speech is one utterance: an update by the same speaker that
/// starts less than 1.2 s after the previous update ended closes nothing,
/// leaves the finals as they are and reports only the running text; one that
/// starts 1.2 s or more later, or comes from the other speaker, closes the
/// utterance before it.
pub proof fn law_speech_without_a_gap_stays_one_utterance(l: LogView, u1: UpdateView, u2: UpdateView)
    ensures
        ({
            let l1 = ingest_spec(l, u1).0;
            let (l2, outs) = ingest_spec(l1, u2);
            &&& (speaker_of(u2.source) == speaker_of(u1.source) && u2.start_ms - u1.end_ms
                < UTTERANCE_GAP_MS) ==> (outs.len() == 1 && l2.finals == l1.finals)
            &&& (speaker_of(u2.source) != speaker_of(u1.source) || u2.start_ms - u1.end_ms
                >= UTTERANCE_GAP_MS) ==> !continues(l1, u2)
        }),
{
    law_the_open_utterance_ends_with_the_last_update(l, u1);
}

} // verus!
