//! The wire format every answer lane writes, and the only thing the panel
//! renders:
//!
//! ```text
//! LEAD: one sentence
//! - bullet
//! - bullet
//! SOURCE: where it came from
//! ```
//!
//! or the single token SKIP, meaning "nothing worth showing". Parsing is
//! incremental: the same function runs on every partial text, so a
//! half-written card still shows its lead and the bullets finished so far.
use vstd::prelude::*;

use crate::text::{
    ascii_upper, char_to_ascii_uppercase, chars_eq, chars_of, copy_range, push_chars, split,
    split_on, starts_with, string_of, trim, trim_h, trimmed, upper_seq, uppercased, Blank,
    alnum_runs, trim_start_k, char_is_numeric, lemma_chars_deep_view, ends_with, is_num, lower, str_to_lowercase, words,
};

verus! {

broadcast use lemma_chars_deep_view;

/// At most this many bullets survive parsing; the rest are dropped.
pub const MAX_BULLETS: usize = 3;

/// A parsed card. An empty `source` means the card names no source.
#[derive(Debug, Clone)]
pub struct ParsedCard {
    pub lead: String,
    pub bullets: Vec<String>,
    pub source: String,
    pub is_skip: bool,
    pub is_empty: bool,
}

/// The mathematical value of a card.
pub struct CardView {
    pub lead: Seq<char>,
    pub bullets: Seq<Seq<char>>,
    pub source: Seq<char>,
    pub is_skip: bool,
    pub is_empty: bool,
}

impl View for ParsedCard {
    type V = CardView;

    open spec fn view(&self) -> CardView {
        CardView {
            lead: self.lead@,
            bullets: self.bullets.deep_view(),
            source: self.source@,
            is_skip: self.is_skip,
            is_empty: self.is_empty,
        }
    }
}

impl ParsedCard {
    /// The card with nothing in it: no lead, no bullets, no source, not a skip.
    pub fn empty() -> (c: ParsedCard)
        ensures
            c@ == blank_card(),
    {
        let c = ParsedCard {
            lead: String::new(),
            bullets: Vec::new(),
            source: String::new(),
            is_skip: false,
            is_empty: false,
        };
        assert(c.bullets.deep_view() =~= Seq::<Seq<char>>::empty());
        c
    }
}

impl Default for ParsedCard {
    fn default() -> (c: ParsedCard)
        ensures
            c@ == blank_card(),
    {
        ParsedCard::empty()
    }
}

/// The all-empty card value (`ParsedCard::default()` in spirit).
pub open spec fn blank_card() -> CardView {
    CardView {
        lead: Seq::empty(),
        bullets: Seq::empty(),
        source: Seq::empty(),
        is_skip: false,
        is_empty: false,
    }
}

pub open spec fn skip_word() -> Seq<char> {
    seq!['S', 'K', 'I', 'P']
}

pub open spec fn lead_tag() -> Seq<char> {
    seq!['L', 'E', 'A', 'D', ':']
}

pub open spec fn source_tag() -> Seq<char> {
    seq!['S', 'O', 'U', 'R', 'C', 'E', ':']
}

/// The trimmed whole text reads as the SKIP sentinel: `SKIP`, `SKIP.`, or
/// `SKIP` followed by a newline and anything.
pub open spec fn is_skip_text(t: Seq<char>) -> bool {
    ||| t == skip_word()
    ||| t == skip_word().push('.')
    ||| (t.len() >= 5 && t.subrange(0, 5) == skip_word().push('\n'))
}

/// `line` starts with `prefix`, ASCII letters compared without case.
pub open spec fn has_prefix_ci(line: Seq<char>, prefix: Seq<char>) -> bool {
    &&& prefix.len() <= line.len()
    &&& forall|i: int| 0 <= i < prefix.len() ==> ascii_upper(#[trigger] line[i]) == ascii_upper(prefix[i])
}

/// The body after a case-insensitive prefix, spaces and tabs trimmed.
pub open spec fn prefix_body(line: Seq<char>, prefix: Seq<char>) -> Seq<char> {
    trim_h(line.skip(prefix.len() as int))
}

/// A bullet line: `- ` followed by anything, or a lone `-`.
pub open spec fn is_bullet_line(line: Seq<char>) -> bool {
    ||| line == seq!['-']
    ||| (line.len() >= 2 && line[0] == '-' && line[1] == ' ')
}

pub open spec fn card_is_blank(c: CardView) -> bool {
    c.lead.len() == 0 && c.bullets.len() == 0 && c.source.len() == 0
}

/// What one raw line does to the card built from the lines before it.
pub open spec fn step(c: CardView, raw: Seq<char>) -> CardView {
    let line = trim_h(raw);
    if line.len() == 0 {
        c
    } else if has_prefix_ci(line, lead_tag()) {
        CardView { lead: prefix_body(line, lead_tag()), ..c }
    } else if has_prefix_ci(line, source_tag()) {
        CardView { source: prefix_body(line, source_tag()), ..c }
    } else if is_bullet_line(line) {
        if c.bullets.len() < MAX_BULLETS {
            CardView { bullets: c.bullets.push(trim_h(line.drop_first())), ..c }
        } else {
            c
        }
    } else if card_is_blank(c) {
        CardView { lead: line, ..c }
    } else if c.bullets.len() > 0 {
        CardView {
            bullets: c.bullets.update(
                c.bullets.len() - 1,
                c.bullets.last().push(' ') + line,
            ),
            ..c
        }
    } else {
        c
    }
}

/// The card built from `lines`, first to last.
pub open spec fn fold_lines(lines: Seq<Seq<char>>) -> CardView
    decreases lines.len(),
{
    if lines.len() == 0 {
        blank_card()
    } else {
        step(fold_lines(lines.drop_last()), lines.last())
    }
}

/// What `parse` returns for `text`.
pub open spec fn parse_spec(text: Seq<char>) -> CardView {
    if is_skip_text(trim(text)) {
        CardView { is_skip: true, ..blank_card() }
    } else {
        let c = fold_lines(split(text, '\n'));
        CardView { is_skip: false, is_empty: card_is_blank(c), ..c }
    }
}

/// What `can_decide` returns for `text`: a non-blank text that either has
/// four or more characters after trimming or, uppercased character by
/// character, is no prefix of `SKIP`.
pub open spec fn can_decide_spec(text: Seq<char>) -> bool {
    let t = trim(text);
    if t.len() == 0 {
        false
    } else if t.len() >= 4 {
        true
    } else {
        let u = upper_seq(t);
        !(u.len() <= 4 && skip_word().subrange(0, u.len() as int) == u)
    }
}

fn skip_chars() -> (v: Vec<char>)
    ensures
        v@ == skip_word(),
{
    let mut v = Vec::new();
    v.push('S');
    v.push('K');
    v.push('I');
    v.push('P');
    assert(v@ =~= skip_word());
    v
}

fn lead_chars() -> (v: Vec<char>)
    ensures
        v@ == lead_tag(),
{
    let mut v = Vec::new();
    v.push('L');
    v.push('E');
    v.push('A');
    v.push('D');
    v.push(':');
    assert(v@ =~= lead_tag());
    v
}

fn source_chars() -> (v: Vec<char>)
    ensures
        v@ == source_tag(),
{
    let mut v = Vec::new();
    v.push('S');
    v.push('O');
    v.push('U');
    v.push('R');
    v.push('C');
    v.push('E');
    v.push(':');
    assert(v@ =~= source_tag());
    v
}

/// Whether a partial stream has said enough to rule SKIP in or out. Without
/// this the panel flashes a one-character card on the first token of every
/// skipped trigger, because "S" parses as a perfectly good lead. SKIP is
/// supposed to render nothing at all, so nothing is presented until the text
/// can no longer become SKIP.
pub fn can_decide(text: &str) -> (r: bool)
    ensures
        r == can_decide_spec(text@),
{
    let chars = chars_of(text);
    let t = trimmed(Blank::Unicode, &chars);
    if t.len() == 0 {
        return false;
    }
    if t.len() >= 4 {
        return true;
    }
    let uc = uppercased(&t);
    let skip = skip_chars();
    !starts_with(&skip, &uc)
}

fn is_skip_chars(t: &Vec<char>) -> (r: bool)
    ensures
        r == is_skip_text(t@),
{
    let skip = skip_chars();
    if chars_eq(t, &skip) {
        return true;
    }
    let mut dot = skip_chars();
    dot.push('.');
    if chars_eq(t, &dot) {
        return true;
    }
    let mut nl = skip_chars();
    nl.push('\n');
    let r = starts_with(t, &nl);
    r
}

/// The body after `prefix` when `line` starts with it, ASCII case ignored.
fn strip_prefix_ci(line: &Vec<char>, prefix: &Vec<char>) -> (r: Option<Vec<char>>)
    ensures
        r is Some <==> has_prefix_ci(line@, prefix@),
        r matches Some(body) ==> body@ == prefix_body(line@, prefix@),
{
    let n = prefix.len();
    if n > line.len() {
        return None;
    }
    for i in 0..n
        invariant
            n == prefix@.len(),
            n <= line@.len(),
            forall|j: int| 0 <= j < i ==> ascii_upper(#[trigger] line@[j]) == ascii_upper(prefix@[j]),
    {
        if char_to_ascii_uppercase(line[i]) != char_to_ascii_uppercase(prefix[i]) {
            return None;
        }
    }
    let rest = copy_range(line, n, line.len());
    assert(rest@ =~= line@.skip(n as int));
    Some(trimmed(Blank::Horizontal, &rest))
}

/// The card being built line by line.
struct Acc {
    lead: Vec<char>,
    bullets: Vec<Vec<char>>,
    source: Vec<char>,
}

impl Acc {
    spec fn value(&self) -> CardView {
        CardView {
            lead: self.lead@,
            bullets: self.bullets.deep_view(),
            source: self.source@,
            is_skip: false,
            is_empty: false,
        }
    }
}

fn is_bullet(line: &Vec<char>) -> (r: bool)
    ensures
        r == is_bullet_line(line@),
{
    if line.len() == 1 && line[0] == '-' {
        assert(line@ =~= seq!['-']);
        return true;
    }
    if line.len() >= 2 && line[0] == '-' && line[1] == ' ' {
        return true;
    }
    assert(line@ != seq!['-']) by {
        if line@ == seq!['-'] {
            assert(line@.len() == 1);
        }
    }
    false
}

fn step_line(acc: &mut Acc, raw: &Vec<char>)
    ensures
        final(acc).value() == step(old(acc).value(), raw@),
{
    let line = trimmed(Blank::Horizontal, raw);
    if line.len() == 0 {
        return;
    }
    let lead = lead_chars();
    let source = source_chars();
    match strip_prefix_ci(&line, &lead) {
        Some(body) => {
            acc.lead = body;
            return;
        },
        None => {},
    }
    match strip_prefix_ci(&line, &source) {
        Some(body) => {
            acc.source = body;
            return;
        },
        None => {},
    }
    if is_bullet(&line) {
        let rest = copy_range(&line, 1, line.len());
        assert(rest@ =~= line@.drop_first());
        let body = trimmed(Blank::Horizontal, &rest);
        if acc.bullets.len() < MAX_BULLETS {
            let ghost before = acc.bullets.deep_view();
            assert(body.deep_view() =~= body@);
            acc.bullets.push(body);
            assert(acc.bullets.deep_view() =~= before.push(body@));
        }
        return;
    }
    if acc.lead.len() == 0 && acc.bullets.len() == 0 && acc.source.len() == 0 {
        acc.lead = line;
        return;
    }
    if acc.bullets.len() > 0 {
        let ghost before = acc.bullets.deep_view();
        let mut last = acc.bullets.pop().unwrap();
        assert(last@ == before.last());
        last.push(' ');
        push_chars(&mut last, &line);
        assert(last.deep_view() =~= last@);
        acc.bullets.push(last);
        assert(acc.bullets.deep_view() =~= before.update(
            before.len() - 1,
            before.last().push(' ') + line@,
        ));
    }
}

fn strings_of(v: &Vec<Vec<char>>) -> (r: Vec<String>)
    ensures
        r.deep_view() == v.deep_view(),
{
    let mut r: Vec<String> = Vec::new();
    let n = v.len();
    for i in 0..n
        invariant
            n == v@.len(),
            r.deep_view() == v.deep_view().take(i as int),
    {
        let s = string_of(&v[i]);
        let ghost before = r.deep_view();
        r.push(s);
        assert(r.deep_view() =~= before.push(v@[i as int]@));
        assert(v@[i as int].deep_view() =~= v@[i as int]@);
        assert(v.deep_view().take(i + 1) =~= v.deep_view().take(i as int).push(v@[i as int]@));
    }
    assert(v.deep_view().take(n as int) =~= v.deep_view());
    r
}

/// Parses a (possibly partial) card.
pub fn parse(text: &str) -> (card: ParsedCard)
    ensures
        card@ == parse_spec(text@),
{
    let chars = chars_of(text);
    let t = trimmed(Blank::Unicode, &chars);
    if is_skip_chars(&t) {
        let mut c = ParsedCard::empty();
        c.is_skip = true;
        return c;
    }
    let lines = split_on(&chars, '\n');
    let mut acc = Acc { lead: Vec::new(), bullets: Vec::new(), source: Vec::new() };
    assert(acc.value() == blank_card()) by {
        assert(acc.bullets.deep_view() =~= Seq::<Seq<char>>::empty());
    }
    let n = lines.len();
    for i in 0..n
        invariant
            n == lines@.len(),
            lines.deep_view() == split(chars@, '\n'),
            acc.value() == fold_lines(lines.deep_view().take(i as int)),
    {
        let ghost pre = lines.deep_view().take(i as int);
        assert(lines.deep_view().take(i + 1).drop_last() =~= pre);
        assert(lines.deep_view().take(i + 1).last() == lines@[i as int]@);
        step_line(&mut acc, &lines[i]);
    }
    assert(lines.deep_view().take(n as int) =~= lines.deep_view());
    let is_empty = acc.lead.len() == 0 && acc.bullets.len() == 0 && acc.source.len() == 0;
    ParsedCard {
        lead: string_of(&acc.lead),
        bullets: strings_of(&acc.bullets),
        source: string_of(&acc.source),
        is_skip: false,
        is_empty,
    }
}


// ---------------------------------------------------------------------
// Agreement between two texts
// ---------------------------------------------------------------------

/// Words too common to say what a sentence is about.
pub const STOPWORDS: [&'static str; 50] = [
    "that", "this", "with", "from", "your", "yours", "they", "them", "then", "than", "have",
    "does", "will", "would", "could", "should", "which", "what", "when", "where", "into", "onto",
    "over", "under", "about", "actually", "really", "just", "only", "also", "both", "some",
    "more", "most", "much", "very", "here", "there", "these", "those", "still", "been", "being",
    "were", "weren", "wasn", "isn", "aren", "didn", "doesn",
];

pub open spec fn is_stopword(w: Seq<char>) -> bool {
    exists|i: int| 0 <= i < 50 && #[trigger] STOPWORDS@[i]@ == w
}

/// A word that counts toward what a sentence is about: four or more
/// characters and no stopword.
pub open spec fn is_content(w: Seq<char>) -> bool {
    w.len() >= 4 && !is_stopword(w)
}

/// Crude plural and third-person stripping: a trailing `s` goes from words of
/// five or more characters, unless the word ends in a double `s`.
pub open spec fn stem(w: Seq<char>) -> Seq<char> {
    if w.len() >= 5 && w.last() == 's' && w[w.len() - 2] != 's' {
        w.drop_last()
    } else {
        w
    }
}

/// The stems of the content words among `ws`, in order.
pub open spec fn content_stems(ws: Seq<Seq<char>>) -> Seq<Seq<char>>
    decreases ws.len(),
{
    if ws.len() == 0 {
        Seq::empty()
    } else if is_content(ws.last()) {
        content_stems(ws.drop_last()).push(stem(ws.last()))
    } else {
        content_stems(ws.drop_last())
    }
}

/// The set of content words of a text: its lowercased alphanumeric runs, kept
/// when they are content words, stemmed.
pub open spec fn content_set(text: Seq<char>) -> Set<Seq<char>> {
    content_stems(words(lower(text))).to_set()
}

/// A bare one or two digit number: what an enumerated option looks like.
pub open spec fn is_number_token(w: Seq<char>) -> bool {
    &&& 0 < w.len() <= 2
    &&& forall|i: int| 0 <= i < w.len() ==> is_num(#[trigger] w[i])
}

pub open spec fn number_tokens_of(ws: Seq<Seq<char>>) -> Seq<Seq<char>>
    decreases ws.len(),
{
    if ws.len() == 0 {
        Seq::empty()
    } else if is_number_token(ws.last()) {
        number_tokens_of(ws.drop_last()).push(ws.last())
    } else {
        number_tokens_of(ws.drop_last())
    }
}

/// The bare one and two digit numbers of a text.
pub open spec fn number_set(text: Seq<char>) -> Set<Seq<char>> {
    number_tokens_of(words(text)).to_set()
}

pub open spec fn min_nat(a: nat, b: nat) -> nat {
    if a <= b {
        a
    } else {
        b
    }
}

/// Whether two texts agree: numbers decide first (two number sets neither of
/// which contains the other disagree); then content words agree when the sets
/// are equal, or when both are non-empty and at least half of the smaller set
/// lies in the other.
pub open spec fn similar_spec(a: Seq<char>, b: Seq<char>) -> bool {
    let na = number_set(a);
    let nb = number_set(b);
    if !na.is_empty() && !nb.is_empty() && !na.subset_of(nb) && !nb.subset_of(na) {
        false
    } else {
        let ka = content_set(a);
        let kb = content_set(b);
        if ka == kb {
            true
        } else if ka.is_empty() || kb.is_empty() {
            ka.is_empty() && kb.is_empty()
        } else {
            2 * ka.intersect(kb).len() >= min_nat(ka.len(), kb.len())
        }
    }
}

/// Whether `w` occurs among `ws`.
fn contains_word(ws: &Vec<Vec<char>>, w: &Vec<char>) -> (r: bool)
    ensures
        r == ws.deep_view().contains(w@),
{
    let n = ws.len();
    for i in 0..n
        invariant
            n == ws@.len(),
            forall|j: int| 0 <= j < i ==> ws.deep_view()[j] != w@,
    {
        if chars_eq(&ws[i], w) {
            assert(ws.deep_view()[i as int] == w@);
            return true;
        }
    }
    assert(!ws.deep_view().contains(w@)) by {
        if ws.deep_view().contains(w@) {
            let k = choose|k: int| 0 <= k < ws.deep_view().len() && ws.deep_view()[k] == w@;
            assert(ws.deep_view()[k] != w@);
        }
    }
    false
}

fn is_stopword_chars(w: &Vec<char>) -> (r: bool)
    ensures
        r == is_stopword(w@),
{
    let mut i: usize = 0;
    while i < 50
        invariant
            i <= 50,
            forall|j: int| 0 <= j < i ==> #[trigger] STOPWORDS@[j]@ != w@,
        decreases 50 - i,
    {
        let sw = chars_of(STOPWORDS[i]);
        if chars_eq(&sw, w) {
            return true;
        }
        i += 1;
    }
    false
}

fn stem_chars(w: &Vec<char>) -> (r: Vec<char>)
    ensures
        r@ == stem(w@),
{
    let n = w.len();
    if n >= 5 && w[n - 1] == 's' && w[n - 2] != 's' {
        copy_range(w, 0, n - 1)
    } else {
        copy_range(w, 0, n)
    }
}

fn is_number_chars(w: &Vec<char>) -> (r: bool)
    ensures
        r == is_number_token(w@),
{
    let n = w.len();
    if n == 0 || n > 2 {
        return false;
    }
    for i in 0..n
        invariant
            n == w@.len(),
            forall|j: int| 0 <= j < i ==> is_num(#[trigger] w@[j]),
    {
        if !char_is_numeric(w[i]) {
            return false;
        }
    }
    true
}

/// The bare one and two digit numbers of `s`, in order of appearance.
fn number_tokens(s: &Vec<char>) -> (r: Vec<Vec<char>>)
    ensures
        r.deep_view().to_set() == number_tokens_of(words(s@)).to_set(),
{
    let runs = alnum_runs(s);
    let mut out: Vec<Vec<char>> = Vec::new();
    let n = runs.len();
    for i in 0..n
        invariant
            n == runs@.len(),
            runs.deep_view() == words(s@),
            out.deep_view() == number_tokens_of(runs.deep_view().take(i as int)),
    {
        let ghost pre = runs.deep_view().take(i as int);
        assert(runs.deep_view().take(i + 1).drop_last() =~= pre);
        assert(runs.deep_view().take(i + 1).last() == runs@[i as int]@);
        if is_number_chars(&runs[i]) {
            let w = copy_range(&runs[i], 0, runs[i].len());
            assert(w@ =~= runs@[i as int]@);
            let ghost before = out.deep_view();
            assert(w.deep_view() =~= w@);
            out.push(w);
            assert(out.deep_view() =~= before.push(runs@[i as int]@));
        }
    }
    assert(runs.deep_view().take(n as int) =~= runs.deep_view());
    out
}

/// The distinct content-word stems of `text`.
pub(crate) fn content_word_list(text: &str) -> (r: Vec<Vec<char>>)
    ensures
        r.deep_view().no_duplicates(),
        r.deep_view().to_set() == content_set(text@),
{
    let lowered = str_to_lowercase(text);
    let chars = chars_of(lowered.as_str());
    let runs = alnum_runs(&chars);
    let mut out: Vec<Vec<char>> = Vec::new();
    let n = runs.len();
    for i in 0..n
        invariant
            n == runs@.len(),
            runs.deep_view() == words(lower(text@)),
            out.deep_view().no_duplicates(),
            out.deep_view().to_set() == content_stems(runs.deep_view().take(i as int)).to_set(),
    {
        let ghost pre = runs.deep_view().take(i as int);
        assert(runs.deep_view().take(i + 1).drop_last() =~= pre);
        assert(runs.deep_view().take(i + 1).last() == runs@[i as int]@);
        let w = &runs[i];
        if w.len() >= 4 && !is_stopword_chars(w) {
            let st = stem_chars(w);
            let ghost before = out.deep_view();
            let ghost stems = content_stems(pre);
            proof {
                stems.lemma_push_to_set_commute(st@);
            }
            if !contains_word(&out, &st) {
                assert(st.deep_view() =~= st@);
                out.push(st);
                assert(out.deep_view() =~= before.push(st@));
                proof {
                    before.lemma_push_to_set_commute(st@);
                }
            } else {
                assert(before.to_set().insert(st@) =~= before.to_set());
            }
        }
    }
    assert(runs.deep_view().take(n as int) =~= runs.deep_view());
    out
}

/// The set of content words of `text`: lowercased, split on anything that is
/// not alphanumeric, words of four or more characters, stopwords dropped,
/// stemmed. Each word occurs once.
pub fn content_words(text: &str) -> (r: Vec<String>)
    ensures
        r.deep_view().no_duplicates(),
        r.deep_view().to_set() == content_set(text@),
{
    let list = content_word_list(text);
    let r = strings_of(&list);
    r
}

/// Every element of `a` occurs in `b`.
fn all_contained(a: &Vec<Vec<char>>, b: &Vec<Vec<char>>) -> (r: bool)
    ensures
        r == a.deep_view().to_set().subset_of(b.deep_view().to_set()),
{
    let n = a.len();
    for i in 0..n
        invariant
            n == a@.len(),
            forall|j: int| 0 <= j < i ==> b.deep_view().contains(#[trigger] a.deep_view()[j]),
    {
        if !contains_word(b, &a[i]) {
            assert(a.deep_view().to_set().contains(a.deep_view()[i as int]));
            return false;
        }
    }
    assert forall|x: Seq<char>| a.deep_view().to_set().contains(x) implies b.deep_view().to_set().contains(x) by {
        let k = choose|k: int| 0 <= k < a.deep_view().len() && a.deep_view()[k] == x;
        assert(b.deep_view().contains(a.deep_view()[k]));
    }
    true
}

/// How many elements of `a` occur in `b`; with no repeats in `a` this is the
/// size of the intersection of the two sets.
pub(crate) fn count_shared(a: &Vec<Vec<char>>, b: &Vec<Vec<char>>) -> (r: usize)
    requires
        a.deep_view().no_duplicates(),
    ensures
        r == a.deep_view().to_set().intersect(b.deep_view().to_set()).len(),
{
    let ghost av = a.deep_view();
    let ghost bs = b.deep_view().to_set();
    let mut shared: Vec<Vec<char>> = Vec::new();
    let n = a.len();
    for i in 0..n
        invariant
            n == a@.len(),
            av == a.deep_view(),
            bs == b.deep_view().to_set(),
            av.no_duplicates(),
            shared.deep_view().no_duplicates(),
            shared.deep_view().to_set() == av.take(i as int).to_set().intersect(bs),
            forall|x: Seq<char>| shared.deep_view().contains(x) ==> av.take(i as int).contains(x),
    {
        let ghost before = shared.deep_view();
        assert(av.take(i + 1) =~= av.take(i as int).push(av[i as int]));
        proof {
            av.take(i as int).lemma_push_to_set_commute(av[i as int]);
        }
        assert(!av.take(i as int).contains(av[i as int])) by {
            if av.take(i as int).contains(av[i as int]) {
                let k = choose|k: int| 0 <= k < i && av.take(i as int)[k] == av[i as int];
                assert(av[k] == av[i as int]);
            }
        }
        if contains_word(b, &a[i]) {
            let w = copy_range(&a[i], 0, a[i].len());
            assert(w@ =~= av[i as int]);
            assert(w.deep_view() =~= w@);
            assert(!before.contains(av[i as int]));
            shared.push(w);
            assert(shared.deep_view() =~= before.push(av[i as int]));
            assert forall|x: Seq<char>| shared.deep_view().contains(x) implies av.take(i + 1).contains(x) by {
                let k = choose|k: int| 0 <= k < shared.deep_view().len() && shared.deep_view()[k] == x;
                if k < before.len() {
                    assert(before.contains(x));
                    let m = choose|m: int| 0 <= m < i && av.take(i as int)[m] == x;
                    assert(av.take(i + 1)[m] == x);
                } else {
                    assert(av.take(i + 1)[i as int] == x);
                }
            }
            proof {
                before.lemma_push_to_set_commute(av[i as int]);
            }
            assert(shared.deep_view().to_set() =~= av.take(i + 1).to_set().intersect(bs));
        } else {
            assert(shared.deep_view().to_set() =~= av.take(i + 1).to_set().intersect(bs));
            assert forall|x: Seq<char>| shared.deep_view().contains(x) implies av.take(i + 1).contains(x) by {
                let m = choose|m: int| 0 <= m < i && av.take(i as int)[m] == x;
                assert(av.take(i + 1)[m] == x);
            }
        }
    }
    assert(av.take(n as int) =~= av);
    proof {
        shared.deep_view().unique_seq_to_set();
    }
    shared.len()
}

/// Cheap agreement test: is most of the shorter text's substance also in the
/// longer one. Containment rather than overlap, because the deep pass usually
/// says more, and scoring against the longer text would call every fuller
/// answer a contradiction.
fn similar(a: &str, b: &str) -> (r: bool)
    ensures
        r == similar_spec(a@, b@),
{
    let ac = chars_of(a);
    let bc = chars_of(b);
    let na = number_tokens(&ac);
    let nb = number_tokens(&bc);
    if na.len() > 0 && nb.len() > 0 && !all_contained(&na, &nb) && !all_contained(&nb, &na) {
        assert(na.deep_view().to_set().contains(na.deep_view()[0]));
        assert(nb.deep_view().to_set().contains(nb.deep_view()[0]));
        return false;
    }
    proof {
        if na.len() == 0 {
            assert(na.deep_view().to_set() =~= Set::<Seq<char>>::empty());
        }
        if nb.len() == 0 {
            assert(nb.deep_view().to_set() =~= Set::<Seq<char>>::empty());
        }
    }
    let ka = content_word_list(a);
    let kb = content_word_list(b);
    proof {
        ka.deep_view().unique_seq_to_set();
        kb.deep_view().unique_seq_to_set();
    }
    let a_in_b = all_contained(&ka, &kb);
    let b_in_a = all_contained(&kb, &ka);
    if a_in_b && b_in_a {
        assert(ka.deep_view().to_set() =~= kb.deep_view().to_set());
        return true;
    }
    if ka.len() == 0 || kb.len() == 0 {
        return ka.len() == 0 && kb.len() == 0;
    }
    let overlap = count_shared(&ka, &kb);
    let smaller = if ka.len() <= kb.len() {
        ka.len()
    } else {
        kb.len()
    };
    // The ratio test `overlap / smaller >= 0.5`, in integers.
    overlap as u128 * 2 >= smaller as u128
}

/// True when the deep pass reached a different answer than the fast pass.
/// Only the lead decides this: the lead IS the answer, the bullets are
/// support, and two different models almost never phrase support identically.
pub fn contradicts(fast: &ParsedCard, deep: &ParsedCard) -> (r: bool)
    ensures
        r == (!fast.is_empty && fast.lead@.len() > 0 && deep.lead@.len() > 0
            && !similar_spec(fast.lead@, deep.lead@)),
{
    if fast.is_empty || fast.lead.as_str().is_empty() || deep.lead.as_str().is_empty() {
        return false;
    }
    !similar(fast.lead.as_str(), deep.lead.as_str())
}

/// The bullets of `new` that are not matched, at the same position, by a
/// similar bullet of `old`.
pub open spec fn changed_spec(old: Seq<Seq<char>>, new: Seq<Seq<char>>) -> Seq<Seq<char>>
    decreases new.len(),
{
    if new.len() == 0 {
        Seq::empty()
    } else {
        let i = new.len() - 1;
        let rest = changed_spec(old, new.drop_last());
        if i < old.len() && similar_spec(old[i], new[i]) {
            rest
        } else {
            rest.push(new[i])
        }
    }
}

/// Which bullets of `new` differ from `old` at the same position, or are new
/// past `old`'s length. Drives the "corrected" highlight when the deep pass
/// contradicts the fast pass.
pub fn changed_bullets(old: &ParsedCard, new: &ParsedCard) -> (r: Vec<String>)
    ensures
        r.deep_view() == changed_spec(old@.bullets, new@.bullets),
{
    let mut changed: Vec<String> = Vec::new();
    let n = new.bullets.len();
    let ghost nb = new.bullets.deep_view();
    let ghost ob = old.bullets.deep_view();
    for i in 0..n
        invariant
            n == new.bullets@.len(),
            nb == new.bullets.deep_view(),
            ob == old.bullets.deep_view(),
            changed.deep_view() == changed_spec(ob, nb.take(i as int)),
    {
        assert(nb.take(i + 1).drop_last() =~= nb.take(i as int));
        assert(nb.take(i + 1)[i as int] == nb[i as int]);
        let unchanged = if i < old.bullets.len() {
            similar(old.bullets[i].as_str(), new.bullets[i].as_str())
        } else {
            false
        };
        if !unchanged {
            let ghost before = changed.deep_view();
            changed.push(new.bullets[i].clone());
            assert(changed.deep_view() =~= before.push(nb[i as int]));
        }
    }
    assert(nb.take(n as int) =~= nb);
    changed
}


// ---------------------------------------------------------------------
// Laws
// ---------------------------------------------------------------------

/// Folding lines never collects more than three bullets.
proof fn lemma_fold_caps_bullets(lines: Seq<Seq<char>>)
    ensures
        fold_lines(lines).bullets.len() <= MAX_BULLETS,
    decreases lines.len(),
{
    if lines.len() > 0 {
        lemma_fold_caps_bullets(lines.drop_last());
    }
}

/// A card never shows more than three bullets, however many the reply had.
pub proof fn law_bullets_are_capped(text: Seq<char>)
    ensures
        parse_spec(text).bullets.len() <= MAX_BULLETS,
{
    lemma_fold_caps_bullets(split(text, '\n'));
}

/// The SKIP sentinel renders nothing: a skip card has no lead, no bullets
/// and no source, and a card is a skip exactly when the trimmed reply reads
/// as the sentinel.
pub proof fn law_skip_renders_nothing(text: Seq<char>)
    ensures
        parse_spec(text).is_skip == is_skip_text(trim(text)),
        parse_spec(text).is_skip ==> parse_spec(text).lead.len() == 0 && parse_spec(
            text,
        ).bullets.len() == 0 && parse_spec(text).source.len() == 0,
        !parse_spec(text).is_skip ==> (parse_spec(text).is_empty <==> card_is_blank(
            parse_spec(text),
        )),
{
}

/// Every text agrees with itself.
pub proof fn law_similar_is_reflexive(a: Seq<char>)
    ensures
        similar_spec(a, a),
{
}

/// Agreement does not depend on which text comes first.
pub proof fn law_similar_is_symmetric(a: Seq<char>, b: Seq<char>)
    ensures
        similar_spec(a, b) == similar_spec(b, a),
{
    assert(content_set(a).intersect(content_set(b)) =~= content_set(b).intersect(content_set(a)));
}

/// No bullet of a prefix of `old` differs from `old`.
proof fn lemma_changed_prefix_empty(old: Seq<Seq<char>>, k: int)
    requires
        0 <= k <= old.len(),
    ensures
        changed_spec(old, old.take(k)).len() == 0,
    decreases k,
{
    if k > 0 {
        assert(old.take(k).drop_last() =~= old.take(k - 1));
        lemma_changed_prefix_empty(old, k - 1);
        law_similar_is_reflexive(old[k - 1]);
    }
}

/// A deep pass that says what the fast pass said changes nothing: its lead
/// agrees with the fast lead, so it does not contradict it, and none of its
/// bullets is highlighted as changed.
pub proof fn law_a_card_agrees_with_itself(c: CardView)
    ensures
        similar_spec(c.lead, c.lead),
        changed_spec(c.bullets, c.bullets).len() == 0,
{
    lemma_changed_prefix_empty(c.bullets, c.bullets.len() as int);
    assert(c.bullets.take(c.bullets.len() as int) =~= c.bullets);
}


/// Containment is agreement: a text whose content words all appear in the
/// other, with number sets of which one contains the other, agrees with it,
/// on whichever side it stands. A fuller answer that says what the shorter
/// one said is no contradiction.
pub proof fn law_containment_is_agreement(a: Seq<char>, b: Seq<char>)
    requires
        !content_set(a).is_empty(),
        content_set(a).subset_of(content_set(b)),
        number_set(a).subset_of(number_set(b)) || number_set(b).subset_of(number_set(a)),
    ensures
        similar_spec(a, b),
        similar_spec(b, a),
{
    let ka = content_set(a);
    let kb = content_set(b);
    vstd::seq_lib::seq_to_set_is_finite(content_stems(words(lower(b))));
    vstd::set_lib::lemma_len_subset(ka, kb);
    assert(ka.intersect(kb) =~= ka);
    assert(kb.intersect(ka) =~= ka);
    assert(!kb.is_empty()) by {
        let x = ka.choose();
        assert(ka.contains(x));
    }
}


/// A stream that has said four or more characters, trimmed, is decided for
/// good: whatever streams after it, it stays decided.
pub proof fn law_a_long_decided_stream_stays_decided(t: Seq<char>, s: Seq<char>)
    requires
        trim(t).len() >= 4,
    ensures
        can_decide_spec(t),
        can_decide_spec(t + s),
{
    crate::text::lemma_trim_end_shorter(Blank::Unicode, trim_start_k(Blank::Unicode, t));
    crate::text::lemma_trim_append_len(Blank::Unicode, t, s);
}


/// Once a stream is decided it stays decided as it grows, and a stream
/// decided while short can never become SKIP: nothing shown while streaming
/// is ever taken back as a skip.
pub proof fn law_a_decided_stream_stays_decided(t: Seq<char>, s: Seq<char>)
    requires
        can_decide_spec(t),
    ensures
        can_decide_spec(t + s),
        trim(t).len() < 4 ==> !parse_spec(t + s).is_skip,
{
    let a = trim(t);
    let b = trim(t + s);
    crate::text::lemma_trim_append_prefix(Blank::Unicode, t, s);
    if a.len() >= 4 {
        law_a_long_decided_stream_stays_decided(t, s);
    } else {
        let r = b.subrange(a.len() as int, b.len() as int);
        assert(b =~= a + r);
        crate::text::lemma_upper_seq_append(a, r);
        let ua = upper_seq(a);
        let ub = upper_seq(b);
        if b.len() < 4 && ub.len() <= 4 && skip_word().subrange(0, ub.len() as int) == ub {
            assert(ub =~= ua + upper_seq(r));
            assert(skip_word().subrange(0, ua.len() as int) =~= ua) by {
                assert forall|i: int| 0 <= i < ua.len() implies skip_word().subrange(
                    0,
                    ua.len() as int,
                )[i] == ua[i] by {
                    assert(ub[i] == ua[i]);
                    assert(skip_word().subrange(0, ub.len() as int)[i] == ub[i]);
                }
            }
            assert(false);
        }
        if is_skip_text(b) {
            assert(b.len() >= 4 && b.subrange(0, 4) =~= skip_word()) by {
                if b.len() >= 5 && b.subrange(0, 5) == skip_word().push('\n') {
                    assert(b.subrange(0, 4) =~= b.subrange(0, 5).subrange(0, 4));
                    assert(skip_word().push('\n').subrange(0, 4) =~= skip_word());
                } else if b == skip_word().push('.') {
                    assert(skip_word().push('.').subrange(0, 4) =~= skip_word());
                }
            }
            assert(a =~= skip_word().subrange(0, a.len() as int)) by {
                assert forall|i: int| 0 <= i < a.len() implies a[i] == skip_word().subrange(
                    0,
                    a.len() as int,
                )[i] by {
                    assert(b[i] == a[i]);
                    assert(b.subrange(0, 4)[i] == b[i]);
                }
            }
            crate::text::lemma_upper_seq_of_caps(a);
            assert(false);
        }
    }
}

/// Agreement needs half of the smaller text's substance: two texts that both
/// have content words agree only when the words they share are at least half
/// of the smaller set; and, unless their numbers disagree, that much shared
/// substance is agreement.
pub proof fn law_agreement_needs_half_the_smaller_set(a: Seq<char>, b: Seq<char>)
    requires
        !content_set(a).is_empty(),
        !content_set(b).is_empty(),
    ensures
        similar_spec(a, b) ==> 2 * content_set(a).intersect(content_set(b)).len() >= min_nat(
            content_set(a).len(),
            content_set(b).len(),
        ),
        (number_set(a).is_empty() || number_set(b).is_empty() || number_set(a).subset_of(number_set(b))
            || number_set(b).subset_of(number_set(a))) ==> (2 * content_set(a).intersect(
            content_set(b),
        ).len() >= min_nat(content_set(a).len(), content_set(b).len()) ==> similar_spec(a, b)),
{
    let ka = content_set(a);
    let kb = content_set(b);
    if ka == kb {
        assert(ka.intersect(kb) =~= ka);
    }
}

/// Every bullet that `changed_spec` reports is a bullet of `new`, and every
/// bullet of `new` not matched at its position by a similar bullet of `old`
/// is reported.
pub proof fn law_changed_lines_are_new_bullets(old: Seq<Seq<char>>, new: Seq<Seq<char>>)
    ensures
        forall|l: Seq<char>| #[trigger] changed_spec(old, new).contains(l) ==> new.contains(l),
        forall|i: int|
            0 <= i < new.len() && (i >= old.len() || !similar_spec(old[i], new[i])) ==> changed_spec(
                old,
                new,
            ).contains(#[trigger] new[i]),
        changed_spec(old, new).len() <= new.len(),
    decreases new.len(),
{
    if new.len() > 0 {
        let p = new.drop_last();
        let j = new.len() - 1;
        law_changed_lines_are_new_bullets(old, p);
        let rest = changed_spec(old, p);
        let c = changed_spec(old, new);
        assert forall|l: Seq<char>| #[trigger] c.contains(l) implies new.contains(l) by {
            let k = choose|k: int| 0 <= k < c.len() && c[k] == l;
            if k < rest.len() {
                assert(rest[k] == l);
                assert(rest.contains(l));
                let m = choose|m: int| 0 <= m < p.len() && p[m] == l;
                assert(new[m] == l);
            } else {
                assert(l == new[j]);
            }
        }
        assert forall|i: int|
            0 <= i < new.len() && (i >= old.len() || !similar_spec(old[i], new[i])) implies c.contains(
            #[trigger] new[i],
        ) by {
            if i < j {
                assert(p[i] == new[i]);
                assert(rest.contains(p[i]));
                let k = choose|k: int| 0 <= k < rest.len() && rest[k] == p[i];
                assert(c[k] == new[i]);
            } else {
                assert(c[c.len() - 1] == new[j]);
            }
        }
    }
}

} // verus!
