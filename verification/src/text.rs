//! Character-level text tools shared by the card parser, the trigger engine,
//! the transcript log and the note parser.
//!
//! Text is handled as sequences of `char`. Unicode character classes and case
//! mappings come from std and are named here; everything built on them
//! (trimming, splitting, word runs) is verified.
use vstd::prelude::*;
use vstd::string::*;

verus! {

/// Whether `char::is_alphanumeric` holds of a character outside ASCII.
pub uninterp spec fn is_alnum_beyond_ascii(c: char) -> bool;

/// Whether `char::is_numeric` holds of a character outside ASCII.
pub uninterp spec fn is_num_beyond_ascii(c: char) -> bool;

pub open spec fn is_ascii_digit(c: char) -> bool {
    48 <= (c as u32) && (c as u32) <= 57
}

pub open spec fn is_ascii_letter(c: char) -> bool {
    (65 <= (c as u32) && (c as u32) <= 90) || (97 <= (c as u32) && (c as u32) <= 122)
}

/// `char::is_alphanumeric`: alphabetic or numeric. Among ASCII characters
/// that is the letters and the digits; beyond ASCII it is named.
pub open spec fn is_alnum(c: char) -> bool {
    if (c as u32) < 128 {
        is_ascii_letter(c) || is_ascii_digit(c)
    } else {
        is_alnum_beyond_ascii(c)
    }
}

/// `char::is_numeric`: a Unicode number (Nd, Nl or No). Among ASCII
/// characters that is the digits; beyond ASCII it is named.
pub open spec fn is_num(c: char) -> bool {
    if (c as u32) < 128 {
        is_ascii_digit(c)
    } else {
        is_num_beyond_ascii(c)
    }
}

/// `char::is_whitespace`: the character has the Unicode White_Space
/// property, which holds of exactly these code points: U+0009 to U+000D,
/// U+0020, U+0085, U+00A0, U+1680, U+2000 to U+200A, U+2028, U+2029,
/// U+202F, U+205F and U+3000.
pub open spec fn is_ws(c: char) -> bool {
    let n = c as u32;
    ||| (0x9 <= n && n <= 0xD)
    ||| n == 0x20
    ||| n == 0x85
    ||| n == 0xA0
    ||| n == 0x1680
    ||| (0x2000 <= n && n <= 0x200A)
    ||| n == 0x2028
    ||| n == 0x2029
    ||| n == 0x202F
    ||| n == 0x205F
    ||| n == 0x3000
}

/// What `str::to_lowercase` returns for a string holding a character
/// outside ASCII.
pub uninterp spec fn lower_beyond_ascii(s: Seq<char>) -> Seq<char>;

/// `char::to_ascii_lowercase`: `A`..=`Z` map to `a`..=`z`, everything else is unchanged.
pub open spec fn ascii_lower(c: char) -> char {
    if 65 <= (c as u32) && (c as u32) <= 90 {
        ((c as u32) + 32) as char
    } else {
        c
    }
}

pub open spec fn all_ascii(s: Seq<char>) -> bool {
    forall|i: int| 0 <= i < s.len() ==> (#[trigger] s[i] as u32) < 128
}

/// `str::to_lowercase`: an ASCII text is lowercased character by character
/// (`A`..=`Z` to `a`..=`z`); a text holding anything beyond ASCII is named.
pub open spec fn lower(s: Seq<char>) -> Seq<char> {
    if all_ascii(s) {
        s.map_values(|c: char| ascii_lower(c))
    } else {
        lower_beyond_ascii(s)
    }
}

/// What `char::to_uppercase` yields for a character outside ASCII, collected.
pub uninterp spec fn upper_char_beyond_ascii(c: char) -> Seq<char>;

/// What `char::to_uppercase` yields for a character, collected: an ASCII
/// character maps to its ASCII uppercase (`a`..=`z` to `A`..=`Z`, anything
/// else to itself); beyond ASCII the result is named.
pub open spec fn upper_char(c: char) -> Seq<char> {
    if (c as u32) < 128 {
        seq![ascii_upper(c)]
    } else {
        upper_char_beyond_ascii(c)
    }
}

/// A text uppercased one character at a time.
pub open spec fn upper_seq(s: Seq<char>) -> Seq<char>
    decreases s.len(),
{
    if s.len() == 0 {
        Seq::empty()
    } else {
        upper_seq(s.drop_last()) + upper_char(s.last())
    }
}

/// `char::to_ascii_uppercase`: `a`..=`z` map to `A`..=`Z`, everything else is unchanged.
pub open spec fn ascii_upper(c: char) -> char {
    if 97 <= (c as u32) && (c as u32) <= 122 {
        ((c as u32) - 32) as char
    } else {
        c
    }
}

/// Calls `char::is_alphanumeric`, which std documents as alphabetic or
/// numeric: for an ASCII character a letter or a digit; beyond ASCII the
/// result is named.
#[verifier::external_body]
pub(crate) fn char_is_alphanumeric(c: char) -> (b: bool)
    ensures
        (c as u32) < 128 ==> b == (is_ascii_letter(c) || is_ascii_digit(c)),
        (c as u32) >= 128 ==> b == is_alnum_beyond_ascii(c),
{
    c.is_alphanumeric()
}

/// Calls `char::is_numeric`, which std documents as the Unicode number
/// categories: for an ASCII character a digit; beyond ASCII the result is
/// named.
#[verifier::external_body]
pub(crate) fn char_is_numeric(c: char) -> (b: bool)
    ensures
        (c as u32) < 128 ==> b == is_ascii_digit(c),
        (c as u32) >= 128 ==> b == is_num_beyond_ascii(c),
{
    c.is_numeric()
}

/// `char::is_whitespace`, written out: the Unicode White_Space property.
pub(crate) fn char_is_whitespace(c: char) -> (b: bool)
    ensures
        b == is_ws(c),
{
    let n = c as u32;
    (0x9 <= n && n <= 0xD) || n == 0x20 || n == 0x85 || n == 0xA0 || n == 0x1680 || (0x2000 <= n
        && n <= 0x200A) || n == 0x2028 || n == 0x2029 || n == 0x202F || n == 0x205F || n == 0x3000
}

/// `char::to_ascii_uppercase`, written out: `a`..=`z` map to `A`..=`Z`,
/// every other character is unchanged.
pub(crate) fn char_to_ascii_uppercase(c: char) -> (u: char)
    ensures
        u == ascii_upper(c),
{
    let n = c as u32;
    if 97 <= n && n <= 122 {
        let b: u8 = (n - 32) as u8;
        b as char
    } else {
        c
    }
}

/// Calls `str::to_lowercase`: an ASCII text comes back lowercased
/// character by character, as std documents (`to_ascii_lowercase` is its
/// ASCII case); a text beyond ASCII gets a named result.
#[verifier::external_body]
pub(crate) fn str_to_lowercase(s: &str) -> (r: String)
    ensures
        all_ascii(s@) ==> r@ == s@.map_values(|c: char| ascii_lower(c)),
        !all_ascii(s@) ==> r@ == lower_beyond_ascii(s@),
{
    s.to_lowercase()
}

/// Calls `char::to_uppercase` and collects the characters it yields: for an
/// ASCII character its ASCII uppercase, as std documents `to_uppercase` to
/// yield the one-to-one mapping of the Unicode Character Database; beyond
/// ASCII the result is named.
#[verifier::external_body]
pub(crate) fn char_to_uppercase(c: char) -> (r: String)
    ensures
        (c as u32) < 128 ==> r@ == seq![ascii_upper(c)],
        (c as u32) >= 128 ==> r@ == upper_char_beyond_ascii(c),
{
    c.to_uppercase().collect()
}

/// Calls `String::push`, which appends one character.
#[verifier::external_body]
pub(crate) fn string_push(s: &mut String, c: char)
    ensures
        final(s)@ == old(s)@.push(c),
{
    s.push(c)
}

/// A vector of characters is its own deep view.
pub broadcast proof fn lemma_chars_deep_view(v: Vec<char>)
    ensures
        #[trigger] v.deep_view() == v@,
{
    assert(v.deep_view() =~= v@);
}

/// The characters of `s`, in order.
pub fn chars_of(s: &str) -> (v: Vec<char>)
    ensures
        v@ == s@,
{
    let mut v: Vec<char> = Vec::new();
    for c in it: s.chars()
        invariant
            v@ == it.seq().take(it.index() as int),
            it.seq() == s@,
    {
        v.push(c);
    }
    v
}

/// The characters of `v`, each uppercased as `char::to_uppercase` does.
pub fn uppercased(v: &Vec<char>) -> (r: Vec<char>)
    ensures
        r@ == upper_seq(v@),
{
    let mut r: Vec<char> = Vec::new();
    let n = v.len();
    for i in 0..n
        invariant
            n == v@.len(),
            r@ == upper_seq(v@.take(i as int)),
    {
        assert(v@.take(i + 1).drop_last() =~= v@.take(i as int));
        assert(v@.take(i + 1).last() == v@[i as int]);
        let u = char_to_uppercase(v[i]);
        let uc = chars_of(u.as_str());
        push_chars(&mut r, &uc);
    }
    assert(v@.take(n as int) =~= v@);
    r
}

/// A `String` holding exactly the characters of `v`.
pub fn string_of(v: &Vec<char>) -> (s: String)
    ensures
        s@ == v@,
{
    let mut s = String::new();
    let n = v.len();
    for i in 0..n
        invariant
            n == v@.len(),
            s@ == v@.take(i as int),
    {
        string_push(&mut s, v[i]);
        assert(v@.take(i as int).push(v@[i as int]) =~= v@.take(i + 1));
    }
    assert(v@.take(n as int) =~= v@);
    s
}

/// Appends the characters of `src` to `dst`.
pub fn push_chars(dst: &mut Vec<char>, src: &Vec<char>)
    ensures
        final(dst)@ == old(dst)@ + src@,
{
    let n = src.len();
    let ghost start = dst@;
    for i in 0..n
        invariant
            n == src@.len(),
            dst@ == start + src@.take(i as int),
    {
        dst.push(src[i]);
        assert(start + src@.take(i as int).push(src@[i as int]) =~= start + src@.take(i + 1));
    }
    assert(src@.take(n as int) =~= src@);
}

/// A copy of the characters `s[from..to]`.
pub fn copy_range(s: &Vec<char>, from: usize, to: usize) -> (r: Vec<char>)
    requires
        from <= to <= s@.len(),
    ensures
        r@ == s@.subrange(from as int, to as int),
{
    let mut r: Vec<char> = Vec::new();
    let mut i = from;
    while i < to
        invariant
            from <= i <= to <= s@.len(),
            r@ == s@.subrange(from as int, i as int),
        decreases to - i,
    {
        r.push(s[i]);
        assert(s@.subrange(from as int, i as int).push(s@[i as int]) =~= s@.subrange(
            from as int,
            i + 1,
        ));
        i += 1;
    }
    r
}

/// Whether two character sequences are equal.
pub fn chars_eq(a: &Vec<char>, b: &Vec<char>) -> (r: bool)
    ensures
        r == (a@ == b@),
{
    if a.len() != b.len() {
        return false;
    }
    let n = a.len();
    for i in 0..n
        invariant
            n == a@.len(),
            n == b@.len(),
            forall|j: int| 0 <= j < i ==> a@[j] == b@[j],
    {
        if a[i] != b[i] {
            return false;
        }
    }
    assert(a@ =~= b@);
    true
}

/// Whether `s` begins with `prefix`.
pub fn starts_with(s: &Vec<char>, prefix: &Vec<char>) -> (r: bool)
    ensures
        r == (prefix@.len() <= s@.len() && s@.subrange(0, prefix@.len() as int) == prefix@),
{
    if prefix.len() > s.len() {
        return false;
    }
    let n = prefix.len();
    for i in 0..n
        invariant
            n == prefix@.len(),
            n <= s@.len(),
            forall|j: int| 0 <= j < i ==> s@[j] == prefix@[j],
    {
        if s[i] != prefix[i] {
            assert(s@.subrange(0, n as int)[i as int] != prefix@[i as int]);
            return false;
        }
    }
    assert(s@.subrange(0, n as int) =~= prefix@);
    true
}

/// Whether `s` ends with `suffix`.
pub fn ends_with(s: &Vec<char>, suffix: &Vec<char>) -> (r: bool)
    ensures
        r == (suffix@.len() <= s@.len() && s@.subrange(
            s@.len() - suffix@.len(),
            s@.len() as int,
        ) == suffix@),
{
    if suffix.len() > s.len() {
        return false;
    }
    let n = suffix.len();
    let total = s.len();
    let off = total - n;
    for i in 0..n
        invariant
            n == suffix@.len(),
            total == s@.len(),
            off + n == total,
            forall|j: int| 0 <= j < i ==> s@[off + j] == suffix@[j],
    {
        if s[off + i] != suffix[i] {
            assert(s@.subrange(off as int, s@.len() as int)[i as int] != suffix@[i as int]);
            return false;
        }
    }
    assert(s@.subrange(off as int, s@.len() as int) =~= suffix@);
    true
}

/// Whether `c` occurs in `s`.
pub fn contains_char(s: &Vec<char>, c: char) -> (r: bool)
    ensures
        r == s@.contains(c),
{
    let n = s.len();
    for i in 0..n
        invariant
            n == s@.len(),
            forall|j: int| 0 <= j < i ==> s@[j] != c,
    {
        if s[i] == c {
            assert(s@[i as int] == c);
            return true;
        }
    }
    false
}

// ---------------------------------------------------------------------
// Trimming
// ---------------------------------------------------------------------

/// Which characters a trim strips.
#[derive(Clone, Copy)]
pub enum Blank {
    /// Unicode whitespace, as `str::trim` strips it.
    Unicode,
    /// Spaces and tabs only.
    Horizontal,
}

pub open spec fn is_blank(k: Blank, c: char) -> bool {
    match k {
        Blank::Unicode => is_ws(c),
        Blank::Horizontal => c == ' ' || c == '\t',
    }
}

pub open spec fn trim_start_k(k: Blank, s: Seq<char>) -> Seq<char>
    decreases s.len(),
{
    if s.len() > 0 && is_blank(k, s[0]) {
        trim_start_k(k, s.drop_first())
    } else {
        s
    }
}

pub open spec fn trim_end_k(k: Blank, s: Seq<char>) -> Seq<char>
    decreases s.len(),
{
    if s.len() > 0 && is_blank(k, s.last()) {
        trim_end_k(k, s.drop_last())
    } else {
        s
    }
}

/// `s` without leading and trailing characters of kind `k`.
pub open spec fn trim_k(k: Blank, s: Seq<char>) -> Seq<char> {
    trim_end_k(k, trim_start_k(k, s))
}

/// `str::trim`: `s` without leading and trailing Unicode whitespace.
pub open spec fn trim(s: Seq<char>) -> Seq<char> {
    trim_k(Blank::Unicode, s)
}

/// `s` without leading and trailing spaces and tabs.
pub open spec fn trim_h(s: Seq<char>) -> Seq<char> {
    trim_k(Blank::Horizontal, s)
}

fn blank(k: Blank, c: char) -> (r: bool)
    ensures
        r == is_blank(k, c),
{
    match k {
        Blank::Unicode => char_is_whitespace(c),
        Blank::Horizontal => c == ' ' || c == '\t',
    }
}

/// The bounds of `trim_k(k, s)` inside `s`.
pub fn trim_bounds(k: Blank, s: &Vec<char>) -> (r: (usize, usize))
    ensures
        r.0 <= r.1 <= s@.len(),
        s@.subrange(r.0 as int, r.1 as int) == trim_k(k, s@),
{
    let n = s.len();
    let mut a: usize = 0;
    assert(s@.subrange(0, n as int) =~= s@);
    while a < n && blank(k, s[a])
        invariant
            a <= n == s@.len(),
            trim_start_k(k, s@) == trim_start_k(k, s@.subrange(a as int, n as int)),
        decreases n - a,
    {
        assert(s@.subrange(a as int, n as int).drop_first() =~= s@.subrange(a + 1, n as int));
        a += 1;
    }
    assert(trim_start_k(k, s@.subrange(a as int, n as int)) == s@.subrange(a as int, n as int));
    let mut b: usize = n;
    while b > a && blank(k, s[b - 1])
        invariant
            a <= b <= n == s@.len(),
            trim_start_k(k, s@) == s@.subrange(a as int, n as int),
            trim_k(k, s@) == trim_end_k(k, s@.subrange(a as int, b as int)),
        decreases b - a,
    {
        assert(s@.subrange(a as int, b as int).drop_last() =~= s@.subrange(a as int, b - 1));
        b -= 1;
    }
    (a, b)
}

/// A copy of `trim_k(k, s)`.
pub fn trimmed(k: Blank, s: &Vec<char>) -> (r: Vec<char>)
    ensures
        r@ == trim_k(k, s@),
{
    let (a, b) = trim_bounds(k, s);
    copy_range(s, a, b)
}

// ---------------------------------------------------------------------
// Splitting
// ---------------------------------------------------------------------

pub open spec fn split_acc(s: Seq<char>, sep: char, cur: Seq<char>) -> Seq<Seq<char>>
    decreases s.len(),
{
    if s.len() == 0 {
        seq![cur]
    } else if s[0] == sep {
        seq![cur] + split_acc(s.drop_first(), sep, Seq::empty())
    } else {
        split_acc(s.drop_first(), sep, cur.push(s[0]))
    }
}

/// `str::split(sep)`: the pieces between separators, empty pieces included.
pub open spec fn split(s: Seq<char>, sep: char) -> Seq<Seq<char>> {
    split_acc(s, sep, Seq::empty())
}

/// The pieces of `s` between occurrences of `sep`.
pub fn split_on(s: &Vec<char>, sep: char) -> (r: Vec<Vec<char>>)
    ensures
        r.deep_view() == split(s@, sep),
{
    let n = s.len();
    let mut out: Vec<Vec<char>> = Vec::new();
    let mut cur: Vec<char> = Vec::new();
    assert(s@.subrange(0, n as int) =~= s@);
    for i in 0..n
        invariant
            n == s@.len(),
            split(s@, sep) == out.deep_view() + split_acc(s@.subrange(i as int, n as int), sep, cur@),
    {
        let ghost rest = s@.subrange(i as int, n as int);
        assert(rest.drop_first() =~= s@.subrange(i + 1, n as int));
        assert(rest[0] == s@[i as int]);
        if s[i] == sep {
            let ghost old_out = out.deep_view();
            let done = cur;
            assert(done.deep_view() =~= done@);
            cur = Vec::new();
            out.push(done);
            assert(out.deep_view() =~= old_out.push(done@));
            assert(old_out + (seq![done@] + split_acc(s@.subrange(i + 1, n as int), sep, cur@))
                =~= old_out.push(done@) + split_acc(s@.subrange(i + 1, n as int), sep, cur@));
        } else {
            cur.push(s[i]);
        }
    }
    let ghost old_out = out.deep_view();
    assert(s@.subrange(n as int, n as int) =~= Seq::<char>::empty());
    let done = cur;
    assert(done.deep_view() =~= done@);
    out.push(done);
    assert(out.deep_view() =~= old_out.push(done@));
    assert(old_out + seq![done@] =~= old_out.push(done@));
    out
}

pub open spec fn flush(cur: Seq<char>) -> Seq<Seq<char>> {
    if cur.len() > 0 {
        seq![cur]
    } else {
        Seq::empty()
    }
}

pub open spec fn runs_acc(s: Seq<char>, cur: Seq<char>) -> Seq<Seq<char>>
    decreases s.len(),
{
    if s.len() == 0 {
        flush(cur)
    } else if is_alnum(s[0]) {
        runs_acc(s.drop_first(), cur.push(s[0]))
    } else {
        flush(cur) + runs_acc(s.drop_first(), Seq::empty())
    }
}

/// The maximal runs of alphanumeric characters in `s`, in order: what
/// `s.split(|c| !c.is_alphanumeric())` yields once its empty pieces are dropped.
pub open spec fn words(s: Seq<char>) -> Seq<Seq<char>> {
    runs_acc(s, Seq::empty())
}

/// The maximal runs of alphanumeric characters in `s`.
pub fn alnum_runs(s: &Vec<char>) -> (r: Vec<Vec<char>>)
    ensures
        r.deep_view() == words(s@),
{
    let n = s.len();
    let mut out: Vec<Vec<char>> = Vec::new();
    let mut cur: Vec<char> = Vec::new();
    assert(s@.subrange(0, n as int) =~= s@);
    for i in 0..n
        invariant
            n == s@.len(),
            words(s@) == out.deep_view() + runs_acc(s@.subrange(i as int, n as int), cur@),
    {
        let ghost rest = s@.subrange(i as int, n as int);
        assert(rest.drop_first() =~= s@.subrange(i + 1, n as int));
        assert(rest[0] == s@[i as int]);
        if char_is_alphanumeric(s[i]) {
            cur.push(s[i]);
        } else {
            let ghost old_out = out.deep_view();
            let ghost tail = runs_acc(s@.subrange(i + 1, n as int), Seq::empty());
            if cur.len() > 0 {
                let done = cur;
                assert(done.deep_view() =~= done@);
                out.push(done);
                assert(out.deep_view() =~= old_out.push(done@));
                assert(old_out + (flush(done@) + tail) =~= old_out.push(done@) + tail);
            } else {
                assert(flush(cur@) =~= Seq::<Seq<char>>::empty());
                assert(old_out + (flush(cur@) + tail) =~= old_out + tail);
            }
            cur = Vec::new();
        }
    }
    assert(s@.subrange(n as int, n as int) =~= Seq::<char>::empty());
    let ghost old_out = out.deep_view();
    if cur.len() > 0 {
        let done = cur;
        assert(done.deep_view() =~= done@);
        out.push(done);
        assert(out.deep_view() =~= old_out.push(done@));
        assert(old_out + flush(done@) =~= old_out.push(done@));
    } else {
        assert(old_out + flush(cur@) =~= old_out);
    }
    out
}


// ---------------------------------------------------------------------
// Searching
// ---------------------------------------------------------------------

/// `m` occurs in `s` starting at index `i`.
pub open spec fn occurs_at(s: Seq<char>, m: Seq<char>, i: int) -> bool {
    0 <= i && i + m.len() <= s.len() && s.subrange(i, i + m.len()) == m
}

/// `i` is where `m` first occurs in `s` (what `str::find` reports, counted in characters).
pub open spec fn first_at(s: Seq<char>, m: Seq<char>, i: int) -> bool {
    occurs_at(s, m, i) && forall|j: int| 0 <= j < i ==> !occurs_at(s, m, j)
}

/// `m` occurs nowhere in `s`.
pub open spec fn nowhere(s: Seq<char>, m: Seq<char>) -> bool {
    forall|j: int| !occurs_at(s, m, j)
}

/// Whether `m` occurs in `s` at `i`.
fn matches_at(s: &Vec<char>, m: &Vec<char>, i: usize) -> (r: bool)
    requires
        i <= s@.len(),
    ensures
        r == occurs_at(s@, m@, i as int),
{
    let n = m.len();
    let total = s.len();
    if n > total - i {
        return false;
    }
    for k in 0..n
        invariant
            n == m@.len(),
            total == s@.len(),
            i + n <= total,
            forall|j: int| 0 <= j < k ==> s@[i + j] == m@[j],
    {
        if s[i + k] != m[k] {
            assert(s@.subrange(i as int, i + n)[k as int] != m@[k as int]);
            return false;
        }
    }
    assert(s@.subrange(i as int, i + n) =~= m@);
    true
}

/// The first index at which `m` occurs in `s`.
pub fn find(s: &Vec<char>, m: &Vec<char>) -> (r: Option<usize>)
    ensures
        r matches Some(i) ==> first_at(s@, m@, i as int),
        r is None ==> nowhere(s@, m@),
{
    let n = s.len();
    let mut i: usize = 0;
    while i <= n
        invariant
            n == s@.len(),
            i <= n + 1,
            forall|j: int| 0 <= j < i ==> !occurs_at(s@, m@, j),
        decreases n + 1 - i,
    {
        if matches_at(s, m, i) {
            return Some(i);
        }
        if i == n {
            assert forall|j: int| !occurs_at(s@, m@, j) by {
                if 0 <= j && j < i {
                } else if j >= i {
                    if j > n {
                    }
                }
            }
            return None;
        }
        i += 1;
    }
    None
}

// ---------------------------------------------------------------------
// Joining
// ---------------------------------------------------------------------

/// `ws` joined with `sep` between consecutive elements (`slice::join`).
pub open spec fn join(ws: Seq<Seq<char>>, sep: Seq<char>) -> Seq<char>
    decreases ws.len(),
{
    if ws.len() == 0 {
        Seq::empty()
    } else if ws.len() == 1 {
        ws[0]
    } else {
        join(ws.drop_last(), sep) + sep + ws.last()
    }
}

/// `ws` joined with `sep`.
pub fn join_with(ws: &Vec<String>, sep: &str) -> (r: String)
    ensures
        r@ == join(ws.deep_view(), sep@),
{
    let mut r = String::new();
    let n = ws.len();
    let ghost dv = ws.deep_view();
    for i in 0..n
        invariant
            n == ws@.len(),
            dv == ws.deep_view(),
            r@ == join(dv.take(i as int), sep@),
    {
        assert(dv.take(i + 1).drop_last() =~= dv.take(i as int));
        assert(dv.take(i + 1).last() == ws@[i as int]@);
        if i == 0 {
            assert(dv.take(1) =~= seq![dv[0]]);
            r = ws[0].clone();
        } else {
            r.append(sep);
            r.append(ws[i].as_str());
        }
    }
    assert(dv.take(n as int) =~= dv);
    r
}

// ---------------------------------------------------------------------
// Word lists
// ---------------------------------------------------------------------

/// `w` is one of the words of `list`.
pub open spec fn listed(list: Seq<&'static str>, w: Seq<char>) -> bool {
    exists|i: int| 0 <= i < list.len() && #[trigger] list[i]@ == w
}

/// Whether `w` is one of the words of `list`.
pub fn is_listed(list: &[&'static str], w: &Vec<char>) -> (r: bool)
    ensures
        r == listed(list@, w@),
{
    let n = list.len();
    for i in 0..n
        invariant
            n == list@.len(),
            forall|j: int| 0 <= j < i ==> #[trigger] list@[j]@ != w@,
    {
        let lw = chars_of(list[i]);
        if chars_eq(&lw, w) {
            return true;
        }
    }
    false
}

/// A copy of a list of strings.
pub fn clone_strings(v: &Vec<String>) -> (r: Vec<String>)
    ensures
        r.deep_view() == v.deep_view(),
{
    let mut r: Vec<String> = Vec::new();
    let n = v.len();
    for i in 0..n
        invariant
            n == v@.len(),
            r.deep_view() == v.deep_view().take(i as int),
    {
        let ghost before = r.deep_view();
        r.push(v[i].clone());
        assert(r.deep_view() =~= before.push(v@[i as int]@));
        assert(v.deep_view().take(i + 1) =~= v.deep_view().take(i as int).push(v@[i as int]@));
    }
    assert(v.deep_view().take(n as int) =~= v.deep_view());
    r
}


// ---------------------------------------------------------------------
// Facts about trimming
// ---------------------------------------------------------------------

/// Trimming the front keeps a suffix, and a blank first character goes.
pub proof fn lemma_trim_start_suffix(k: Blank, s: Seq<char>)
    ensures
        trim_start_k(k, s).len() <= s.len(),
        trim_start_k(k, s) == s.subrange(s.len() - trim_start_k(k, s).len(), s.len() as int),
        s.len() > 0 && is_blank(k, s[0]) ==> trim_start_k(k, s).len() < s.len(),
    decreases s.len(),
{
    if s.len() > 0 && is_blank(k, s[0]) {
        lemma_trim_start_suffix(k, s.drop_first());
        let t = trim_start_k(k, s.drop_first());
        assert(s.drop_first().subrange(s.drop_first().len() - t.len(), s.drop_first().len() as int)
            =~= s.subrange(s.len() - t.len(), s.len() as int));
    } else {
        assert(s.subrange(0, s.len() as int) =~= s);
    }
}

/// Trimming the back never lengthens, and a blank last character goes.
pub proof fn lemma_trim_end_shorter(k: Blank, s: Seq<char>)
    ensures
        trim_end_k(k, s).len() <= s.len(),
        s.len() > 0 && is_blank(k, s.last()) ==> trim_end_k(k, s).len() < s.len(),
    decreases s.len(),
{
    if s.len() > 0 && is_blank(k, s.last()) {
        lemma_trim_end_shorter(k, s.drop_last());
    }
}

/// A non-empty text that trimming leaves as it is starts and ends with a
/// non-blank character.
pub proof fn lemma_trimmed_ends(k: Blank, s: Seq<char>)
    requires
        trim_k(k, s) == s,
        s.len() > 0,
    ensures
        !is_blank(k, s[0]),
        !is_blank(k, s.last()),
{
    lemma_trim_start_suffix(k, s);
    let t = trim_start_k(k, s);
    lemma_trim_end_shorter(k, t);
    if t.len() > 0 {
        assert(t.last() == s.last());
    }
}

/// A trimmed non-empty text between two line breaks trims back to itself.
pub proof fn lemma_trim_between_breaks(s: Seq<char>)
    requires
        trim(s) == s,
        s.len() > 0,
    ensures
        trim(seq!['\n'] + s + seq!['\n']) == s,
{
    lemma_trimmed_ends(Blank::Unicode, s);
    let w = seq!['\n'] + s + seq!['\n'];
    assert(is_ws('\n'));
    assert(w.drop_first() =~= s + seq!['\n']);
    let v = s + seq!['\n'];
    assert(v[0] == s[0]);
    assert(w[0] == '\n');
    assert(is_blank(Blank::Unicode, w[0]));
    assert(trim_start_k(Blank::Unicode, w) == trim_start_k(Blank::Unicode, w.drop_first()));
    assert(!is_blank(Blank::Unicode, v[0]));
    assert(trim_start_k(Blank::Unicode, v) == v);
    assert(trim_start_k(Blank::Unicode, w) == v);
    assert(v.last() == '\n');
    assert(is_blank(Blank::Unicode, v.last()));
    assert(v.drop_last() =~= s);
    assert(trim_end_k(Blank::Unicode, v) == trim_end_k(Blank::Unicode, s));
}


/// Once a text has a non-blank character, more text after it is kept whole
/// by trimming the front.
pub proof fn lemma_trim_start_append(k: Blank, t: Seq<char>, s: Seq<char>)
    requires
        trim_start_k(k, t).len() > 0,
    ensures
        trim_start_k(k, t + s) == trim_start_k(k, t) + s,
    decreases t.len(),
{
    if t.len() > 0 && is_blank(k, t[0]) {
        assert((t + s).drop_first() =~= t.drop_first() + s);
        lemma_trim_start_append(k, t.drop_first(), s);
    } else {
        assert(t.len() > 0);
        assert((t + s)[0] == t[0]);
    }
}

/// More text never shortens what trimming the back keeps.
pub proof fn lemma_trim_end_append_len(k: Blank, x: Seq<char>, s: Seq<char>)
    ensures
        trim_end_k(k, x + s).len() >= trim_end_k(k, x).len(),
    decreases s.len(),
{
    if s.len() == 0 {
        assert(x + s =~= x);
    } else if is_blank(k, s.last()) {
        assert((x + s).drop_last() =~= x + s.drop_last());
        assert((x + s).last() == s.last());
        lemma_trim_end_append_len(k, x, s.drop_last());
    } else {
        assert((x + s).last() == s.last());
        lemma_trim_end_shorter(k, x);
    }
}

/// Once a text has a non-blank character, more text never shortens its trim.
pub proof fn lemma_trim_append_len(k: Blank, t: Seq<char>, s: Seq<char>)
    requires
        trim_start_k(k, t).len() > 0,
    ensures
        trim_k(k, t + s).len() >= trim_k(k, t).len(),
{
    lemma_trim_start_append(k, t, s);
    lemma_trim_end_append_len(k, trim_start_k(k, t), s);
}


/// Trimming the back keeps a prefix, and what it keeps ends in a non-blank
/// character.
pub proof fn lemma_trim_end_prefix(k: Blank, s: Seq<char>)
    ensures
        trim_end_k(k, s).len() <= s.len(),
        trim_end_k(k, s) == s.subrange(0, trim_end_k(k, s).len() as int),
        trim_end_k(k, s).len() > 0 ==> !is_blank(k, trim_end_k(k, s).last()),
    decreases s.len(),
{
    if s.len() > 0 && is_blank(k, s.last()) {
        lemma_trim_end_prefix(k, s.drop_last());
        let t = trim_end_k(k, s.drop_last());
        assert(s.drop_last().subrange(0, t.len() as int) =~= s.subrange(0, t.len() as int));
    } else {
        assert(s.subrange(0, s.len() as int) =~= s);
    }
}

/// Trimming the back of `x + w`, where `x` ends in a non-blank character,
/// keeps all of `x`.
pub proof fn lemma_trim_end_keeps_prefix(k: Blank, x: Seq<char>, w: Seq<char>)
    requires
        x.len() > 0,
        !is_blank(k, x.last()),
    ensures
        trim_end_k(k, x + w).len() >= x.len(),
        trim_end_k(k, x + w).subrange(0, x.len() as int) == x,
    decreases w.len(),
{
    if w.len() == 0 {
        assert(x + w =~= x);
    } else if is_blank(k, w.last()) {
        assert((x + w).drop_last() =~= x + w.drop_last());
        assert((x + w).last() == w.last());
        lemma_trim_end_keeps_prefix(k, x, w.drop_last());
    } else {
        assert((x + w).last() == w.last());
        assert((x + w).subrange(0, x.len() as int) =~= x);
    }
}

/// Once a text has a non-blank character, its trim starts every longer
/// text's trim.
pub proof fn lemma_trim_append_prefix(k: Blank, t: Seq<char>, s: Seq<char>)
    requires
        trim_k(k, t).len() > 0,
    ensures
        trim_k(k, t + s).len() >= trim_k(k, t).len(),
        trim_k(k, t + s).subrange(0, trim_k(k, t).len() as int) == trim_k(k, t),
{
    let a1 = trim_start_k(k, t);
    let a = trim_k(k, t);
    lemma_trim_end_shorter(k, a1);
    lemma_trim_start_append(k, t, s);
    lemma_trim_end_prefix(k, a1);
    let z = a1.subrange(a.len() as int, a1.len() as int);
    assert(a1 + s =~= a + (z + s));
    lemma_trim_end_keeps_prefix(k, a, z + s);
}

/// Uppercasing one character at a time distributes over concatenation.
pub proof fn lemma_upper_seq_append(a: Seq<char>, b: Seq<char>)
    ensures
        upper_seq(a + b) == upper_seq(a) + upper_seq(b),
    decreases b.len(),
{
    if b.len() == 0 {
        assert(a + b =~= a);
        assert(upper_seq(a) + upper_seq(b) =~= upper_seq(a));
    } else {
        assert((a + b).drop_last() =~= a + b.drop_last());
        assert((a + b).last() == b.last());
        lemma_upper_seq_append(a, b.drop_last());
        assert(upper_seq(a) + upper_seq(b.drop_last()) + upper_char(b.last()) =~= upper_seq(a) + (
        upper_seq(b.drop_last()) + upper_char(b.last())));
    }
}

/// Uppercasing leaves ASCII text with no lowercase letter as it is.
pub proof fn lemma_upper_seq_of_caps(a: Seq<char>)
    requires
        forall|i: int| 0 <= i < a.len() ==> (#[trigger] a[i] as u32) < 97 || (122 < (a[i] as u32)
            && (a[i] as u32) < 128),
    ensures
        upper_seq(a) == a,
    decreases a.len(),
{
    if a.len() > 0 {
        assert forall|i: int| 0 <= i < a.drop_last().len() implies (#[trigger] a.drop_last()[i] as u32)
            < 97 || (122 < (a.drop_last()[i] as u32) && (a.drop_last()[i] as u32) < 128) by {
            assert(a.drop_last()[i] == a[i]);
        }
        lemma_upper_seq_of_caps(a.drop_last());
        assert(a[a.len() - 1] == a.last());
        assert(upper_char(a.last()) == seq![a.last()]);
        assert(a.drop_last() + seq![a.last()] =~= a);
    }
}

} // verus!
