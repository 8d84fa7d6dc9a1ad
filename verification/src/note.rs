//! Note drafting: the deep lane's raw reply parses into a slug and a note
//! body here, and the files a save writes are laid out here. Writing them and
//! committing them to the vault is the caller's I/O.
use vstd::prelude::*;
use vstd::string::*;

use crate::text::{
    char_to_uppercase, chars_of, copy_range, find, first_at, lemma_trim_between_breaks, nowhere,
    occurs_at, string_of, trim, trimmed, upper_char, Blank,
};

verus! {

/// A drafted note: the slug that names its file and its markdown body.
#[derive(Debug, Clone)]
pub struct NoteDraft {
    pub slug: String,
    pub markdown: String,
}

pub open spec fn slug_marker() -> Seq<char> {
    "=== SLUG ==="@
}

pub open spec fn note_marker() -> Seq<char> {
    "=== NOTE ==="@
}

/// Where a marker first occurs, when it does.
pub open spec fn first_pos(raw: Seq<char>, m: Seq<char>) -> int {
    choose|i: int| first_at(raw, m, i)
}

/// What `parse_note` returns: the slug and body on success, the message on
/// failure. The note marker must start after the slug marker ends.
pub open spec fn parse_note_spec(raw: Seq<char>) -> Result<(Seq<char>, Seq<char>), Seq<char>> {
    if nowhere(raw, slug_marker()) {
        Err("missing === SLUG === marker"@)
    } else if nowhere(raw, note_marker()) {
        Err("missing === NOTE === marker"@)
    } else {
        let ps = first_pos(raw, slug_marker());
        let pn = first_pos(raw, note_marker());
        if pn < ps + slug_marker().len() {
            Err("=== NOTE === must come after === SLUG ==="@)
        } else {
            let slug = trim(raw.subrange(ps + slug_marker().len(), pn));
            let markdown = trim(raw.skip(pn + note_marker().len()));
            if slug.len() == 0 {
                Err("empty slug"@)
            } else if markdown.len() == 0 {
                Err("empty note body"@)
            } else {
                Ok((slug, markdown))
            }
        }
    }
}

/// A marker's first position is unique.
pub proof fn lemma_first_at_unique(raw: Seq<char>, m: Seq<char>, i: int, j: int)
    requires
        first_at(raw, m, i),
        first_at(raw, m, j),
    ensures
        i == j,
{
    if i < j {
        assert(!crate::text::occurs_at(raw, m, i));
    } else if j < i {
        assert(!crate::text::occurs_at(raw, m, j));
    }
}

/// Parses the deep lane's raw reply into a slug and a note body.
pub fn parse_note(raw: &str) -> (r: Result<NoteDraft, String>)
    ensures
        match r {
            Ok(d) => parse_note_spec(raw@) == Ok::<(Seq<char>, Seq<char>), Seq<char>>(
                (d.slug@, d.markdown@),
            ),
            Err(e) => parse_note_spec(raw@) == Err::<(Seq<char>, Seq<char>), Seq<char>>(e@),
        },
{
    let chars = chars_of(raw);
    let sm = chars_of("=== SLUG ===");
    let nm = chars_of("=== NOTE ===");
    let slug_pos = match find(&chars, &sm) {
        Some(p) => p,
        None => {
            return Err(String::from_str("missing === SLUG === marker"));
        },
    };
    let note_pos = match find(&chars, &nm) {
        Some(p) => p,
        None => {
            return Err(String::from_str("missing === NOTE === marker"));
        },
    };
    proof {
        lemma_first_at_unique(raw@, slug_marker(), slug_pos as int, first_pos(raw@, slug_marker()));
        lemma_first_at_unique(raw@, note_marker(), note_pos as int, first_pos(raw@, note_marker()));
    }
    assert(sm@ == slug_marker());
    if note_pos <= slug_pos || note_pos - slug_pos < sm.len() {
        proof {
            reveal_strlit("=== SLUG ===");
        }
        return Err(String::from_str("=== NOTE === must come after === SLUG ==="));
    }
    let slug_chars = copy_range(&chars, slug_pos + sm.len(), note_pos);
    let total = chars.len();
    let body_chars = copy_range(&chars, note_pos + nm.len(), total);
    assert(body_chars@ =~= raw@.skip(note_pos + note_marker().len()));
    let slug = trimmed(Blank::Unicode, &slug_chars);
    let markdown = trimmed(Blank::Unicode, &body_chars);
    if slug.len() == 0 {
        return Err(String::from_str("empty slug"));
    }
    if markdown.len() == 0 {
        return Err(String::from_str("empty note body"));
    }
    Ok(NoteDraft { slug: string_of(&slug), markdown: string_of(&markdown) })
}

/// `"team-standup"` reads as `"Team standup"`: hyphens become spaces and the
/// first character is uppercased.
pub open spec fn title_spec(slug: Seq<char>) -> Seq<char> {
    let spaced = slug.map_values(|c: char| if c == '-' { ' ' } else { c });
    if spaced.len() == 0 {
        spaced
    } else {
        upper_char(spaced[0]) + spaced.drop_first()
    }
}

/// The note's title, from its slug.
pub fn title_from_slug(slug: &str) -> (r: String)
    ensures
        r@ == title_spec(slug@),
{
    let chars = chars_of(slug);
    let n = chars.len();
    let mut spaced: Vec<char> = Vec::new();
    for i in 0..n
        invariant
            n == chars@.len(),
            spaced@ == chars@.take(i as int).map_values(|c: char| if c == '-' { ' ' } else { c }),
    {
        let c = chars[i];
        spaced.push(if c == '-' { ' ' } else { c });
        assert(chars@.take(i + 1) =~= chars@.take(i as int).push(c));
    }
    assert(chars@.take(n as int) =~= chars@);
    if n == 0 {
        return string_of(&spaced);
    }
    let first = char_to_uppercase(spaced[0]);
    let rest = copy_range(&spaced, 1, n);
    assert(rest@ =~= spaced@.drop_first());
    let rest_s = string_of(&rest);
    let r = first.concat(rest_s.as_str());
    r
}

/// What saving a note writes: two file names inside the vault's meetings
/// directory, the note file's contents, and the commit message.
#[derive(Debug, Clone)]
pub struct NotePlan {
    /// `<date>-<slug>.md`
    pub note_file: String,
    /// `<date>-<slug>_transcript.md`
    pub transcript_file: String,
    /// Title, date, the note body, and the Q&A log section.
    pub note_content: String,
    /// `Meeting note: <slug>`
    pub commit_message: String,
}

pub open spec fn note_file_spec(date: Seq<char>, slug: Seq<char>) -> Seq<char> {
    date + "-"@ + slug + ".md"@
}

pub open spec fn transcript_file_spec(date: Seq<char>, slug: Seq<char>) -> Seq<char> {
    date + "-"@ + slug + "_transcript.md"@
}

pub open spec fn note_content_spec(
    date: Seq<char>,
    slug: Seq<char>,
    markdown: Seq<char>,
    qa_log: Seq<char>,
) -> Seq<char> {
    "# "@ + title_spec(slug) + "\n\n"@ + date + "\n\n"@ + markdown + "\n\n## Q&A log\n\n"@ + qa_log
        + "\n"@
}

/// Lays out the files a save of `draft` on `date` writes.
pub fn note_plan(date: &str, draft: &NoteDraft, qa_log: &str) -> (p: NotePlan)
    ensures
        p.note_file@ == note_file_spec(date@, draft.slug@),
        p.transcript_file@ == transcript_file_spec(date@, draft.slug@),
        p.note_content@ == note_content_spec(date@, draft.slug@, draft.markdown@, qa_log@),
        p.commit_message@ == "Meeting note: "@ + draft.slug@,
{
    let note_file = String::from_str(date).concat("-").concat(draft.slug.as_str()).concat(".md");
    let transcript_file = String::from_str(date).concat("-").concat(draft.slug.as_str()).concat(
        "_transcript.md",
    );
    let title = title_from_slug(draft.slug.as_str());
    let note_content = String::from_str("# ").concat(title.as_str()).concat("\n\n").concat(
        date,
    ).concat("\n\n").concat(draft.markdown.as_str()).concat("\n\n## Q&A log\n\n").concat(
        qa_log,
    ).concat("\n");
    let commit_message = String::from_str("Meeting note: ").concat(draft.slug.as_str());
    NotePlan { note_file, transcript_file, note_content, commit_message }
}


/// A parsed note always has a slug to name its file and a body to save.
pub proof fn law_parsed_notes_are_never_empty(raw: Seq<char>)
    ensures
        parse_note_spec(raw) matches Ok((slug, markdown)) ==> slug.len() > 0 && markdown.len() > 0,
{
}


/// The reply the note prompt asks for: the slug marker, the slug, the note
/// marker and the body, each on its own line.
pub open spec fn note_reply(slug: Seq<char>, markdown: Seq<char>) -> Seq<char> {
    slug_marker() + seq!['\n'] + slug + seq!['\n'] + note_marker() + seq!['\n'] + markdown + seq![
        '\n',
    ]
}

/// A well-formed reply reads back as what was written: a non-empty slug and
/// body, each already trimmed, with no note marker inside the slug.
pub proof fn law_a_well_formed_reply_reads_back(slug: Seq<char>, markdown: Seq<char>)
    requires
        slug.len() > 0,
        markdown.len() > 0,
        trim(slug) == slug,
        trim(markdown) == markdown,
        nowhere(slug, note_marker()),
    ensures
        parse_note_spec(note_reply(slug, markdown)) == Ok::<(Seq<char>, Seq<char>), Seq<char>>(
            (slug, markdown),
        ),
{
    reveal_strlit("=== SLUG ===");
    reveal_strlit("=== NOTE ===");
    let sm = slug_marker();
    let nm = note_marker();
    let raw = note_reply(slug, markdown);
    let n: int = slug.len() as int;
    let pn: int = n + 14;
    assert(sm.len() == 12 && nm.len() == 12);
    assert(raw.len() == n + 28 + markdown.len());
    assert forall|i: int| 0 <= i < 12 implies raw[i] == sm[i] by {}
    assert(raw[12] == '\n');
    assert forall|i: int| 0 <= i < n implies raw[13 + i] == slug[i] by {}
    assert(raw[13 + n] == '\n');
    assert forall|i: int| 0 <= i < 12 implies raw[pn + i] == nm[i] by {}
    // The slug marker opens the reply.
    assert(raw.subrange(0, 12) =~= sm);
    assert(first_at(raw, sm, 0));
    lemma_first_at_unique(raw, sm, 0, first_pos(raw, sm));
    // The note marker first occurs right after the slug's line.
    assert(raw.subrange(pn, pn + 12) =~= nm);
    assert forall|j: int| 0 <= j < pn implies !occurs_at(raw, nm, j) by {
        if occurs_at(raw, nm, j) {
            let w = raw.subrange(j, j + 12);
            assert(w == nm);
            if j == 0 {
                assert(w[4] == raw[4]);
                assert(raw[4] == sm[4]);
                assert(false);
            } else if j <= 12 {
                assert(w[12 - j] == raw[12]);
                assert(false);
            } else if j + 12 <= 13 + n {
                assert(slug.subrange(j - 13, j - 13 + 12) =~= w);
                assert(occurs_at(slug, nm, j - 13));
                assert(false);
            } else {
                assert(w[13 + n - j] == raw[13 + n]);
                assert(false);
            }
        }
    }
    assert(first_at(raw, nm, pn));
    lemma_first_at_unique(raw, nm, pn, first_pos(raw, nm));
    // What lies between the markers, and after the note marker.
    assert(raw.subrange(12, pn) =~= seq!['\n'] + slug + seq!['\n']);
    assert(raw.skip(pn + 12) =~= seq!['\n'] + markdown + seq!['\n']);
    lemma_trim_between_breaks(slug);
    lemma_trim_between_breaks(markdown);
}

} // verus!
