//! The text lines of the score header: titles, credits, tuning and capo.
//!
//! Each line keeps the role that decides its text size; wrapping a line to
//! the page width is left to the layout, which measures glyphs.
use vstd::prelude::*;
use crate::notation::ScoreMetadata;
use crate::style::ElementVisibility;
use crate::text::{decimal, push_all, push_str, spec_decimal, string_from_chars};

verus! {

/// What a header line shows; each role is set in its own text size.
#[derive(Clone, Copy, Debug, PartialEq, Eq, Structural)]
pub enum HeaderRole {
    /// The score title.
    Title,
    /// The subtitle.
    Subtitle,
    /// The artist credit.
    Artist,
    /// The album credit.
    Album,
    /// The lyricist and composer credit.
    Credits,
    /// The copyright notice.
    Copyright,
    /// Performance instructions.
    Instructions,
    /// The open-string tuning.
    Tuning,
    /// The capo fret.
    Capo,
}

/// One line of the score header, before it is wrapped to the page width.
#[derive(Clone, Debug)]
pub struct HeaderLine {
    /// The text of the line.
    pub text: String,
    /// What the line shows.
    pub role: HeaderRole,
}

impl View for HeaderLine {
    type V = (Seq<char>, HeaderRole);

    open spec fn view(&self) -> (Seq<char>, HeaderRole) {
        (self.text@, self.role)
    }
}

/// `line` without one trailing carriage return.
pub open spec fn strip_cr(line: Seq<char>) -> Seq<char> {
    if line.len() > 0 && line.last() == '\r' {
        line.drop_last()
    } else {
        line
    }
}

/// `done` with `line` appended when `line` is not empty.
pub open spec fn keep_line(done: Seq<Seq<char>>, line: Seq<char>) -> Seq<Seq<char>> {
    if line.len() > 0 {
        done.push(line)
    } else {
        done
    }
}

/// After the first `k` characters of `s`: the non-empty lines that a line feed
/// has ended, and the characters of the line not yet ended.
pub open spec fn line_scan(s: Seq<char>, k: int) -> (Seq<Seq<char>>, Seq<char>)
    decreases k,
{
    if k <= 0 {
        (Seq::empty(), Seq::empty())
    } else {
        let prev = line_scan(s, k - 1);
        if s[k - 1] == '\n' {
            (keep_line(prev.0, strip_cr(prev.1)), Seq::empty())
        } else {
            (prev.0, prev.1.push(s[k - 1]))
        }
    }
}

/// The non-empty lines of `s`, in order. A line ends at a line feed, which
/// with one carriage return just before it belongs to no line; the last line
/// needs no line feed.
pub open spec fn text_lines_of(s: Seq<char>) -> Seq<Seq<char>> {
    let end = line_scan(s, s.len() as int);
    keep_line(end.0, end.1)
}

/// A non-empty piece of text without a line feed.
pub open spec fn single_line(l: Seq<char>) -> bool {
    l.len() > 0 && !l.contains('\n')
}

proof fn lemma_line_scan(s: Seq<char>, k: int)
    requires
        0 <= k <= s.len(),
    ensures
        forall|i: int|
            0 <= i < line_scan(s, k).0.len() ==> single_line(#[trigger] line_scan(s, k).0[i]),
        !line_scan(s, k).1.contains('\n'),
    decreases k,
{
    if k > 0 {
        lemma_line_scan(s, k - 1);
        let prev = line_scan(s, k - 1);
        if s[k - 1] == '\n' {
            let line = strip_cr(prev.1);
            assert(!line.contains('\n')) by {
                if line.contains('\n') {
                    let j = choose|j: int| 0 <= j < line.len() && line[j] == '\n';
                    assert(prev.1[j] == '\n');
                }
            }
        } else {
            let cur = prev.1.push(s[k - 1]);
            assert forall|j: int| 0 <= j < cur.len() implies #[trigger] cur[j] != '\n' by {
                if j < prev.1.len() {
                    assert(prev.1[j] != '\n');
                }
            }
        }
    }
}

/// Every line that [`text_lines`] gives is a non-empty line with no line feed
/// in it.
pub proof fn text_lines_are_single_lines(s: Seq<char>)
    ensures
        forall|i: int|
            0 <= i < text_lines_of(s).len() ==> single_line(#[trigger] text_lines_of(s)[i]),
{
    lemma_line_scan(s, s.len() as int);
}

/// The views of a list of strings.
pub open spec fn texts(v: Seq<String>) -> Seq<Seq<char>> {
    v.map_values(|s: String| s@)
}

proof fn lemma_texts_push(v: Seq<String>, s: String)
    ensures
        texts(v.push(s)) == texts(v).push(s@),
{
    assert(texts(v.push(s)) =~= texts(v).push(s@));
}

/// The non-empty lines of `text`, in order, as `str::lines` gives them.
pub fn text_lines(text: &str) -> (lines: Vec<String>)
    ensures
        texts(lines@) == text_lines_of(text@),
{
    let n = text.unicode_len();
    let mut done: Vec<String> = Vec::new();
    let mut cur: Vec<char> = Vec::new();
    let mut i: usize = 0;
    while i < n
        invariant
            n == text@.len(),
            i <= n,
            texts(done@) == line_scan(text@, i as int).0,
            cur@ == line_scan(text@, i as int).1,
        decreases n - i,
    {
        let c = text.get_char(i);
        if c == '\n' {
            if cur.len() > 0 && cur[cur.len() - 1] == '\r' {
                cur.pop();
            }
            if cur.len() > 0 {
                let line = string_from_chars(&cur);
                proof {
                    lemma_texts_push(done@, line);
                }
                done.push(line);
            }
            cur = Vec::new();
        } else {
            cur.push(c);
        }
        i = i + 1;
    }
    if cur.len() > 0 {
        let line = string_from_chars(&cur);
        proof {
            lemma_texts_push(done@, line);
        }
        done.push(line);
    }
    done
}

/// The credit line for a lyricist and a composer: one shared credit when both
/// are the same name, else the credits that are given, joined by a middle dot.
pub open spec fn credits_of(words: Seq<char>, music: Seq<char>) -> Seq<char> {
    if words == music && words.len() > 0 {
        "Words and music: "@ + words
    } else if words.len() > 0 && music.len() > 0 {
        "Words: "@ + words + " · "@ + "Music: "@ + music
    } else if words.len() > 0 {
        "Words: "@ + words
    } else if music.len() > 0 {
        "Music: "@ + music
    } else {
        Seq::empty()
    }
}

/// The credit line for `words` and `music`.
pub fn credits(words: &String, music: &String) -> (line: String)
    ensures
        line@ == credits_of(words@, music@),
{
    let mut out: Vec<char> = Vec::new();
    let has_words = words.as_str().unicode_len() > 0;
    let has_music = music.as_str().unicode_len() > 0;
    if *words == *music && has_words {
        push_str(&mut out, "Words and music: ");
        push_str(&mut out, words.as_str());
    } else {
        if has_words {
            push_str(&mut out, "Words: ");
            push_str(&mut out, words.as_str());
        }
        if has_words && has_music {
            push_str(&mut out, " · ");
        }
        if has_music {
            push_str(&mut out, "Music: ");
            push_str(&mut out, music.as_str());
        }
        assert(out@ =~= credits_of(words@, music@));
    }
    string_from_chars(&out)
}

/// `parts` joined by `sep`.
pub open spec fn joined(parts: Seq<Seq<char>>, sep: Seq<char>) -> Seq<char>
    decreases parts.len(),
{
    if parts.len() == 0 {
        Seq::empty()
    } else if parts.len() == 1 {
        parts[0]
    } else {
        joined(parts.drop_last(), sep) + sep + parts.last()
    }
}

/// The tuning line: the string names from the lowest string up, joined by an
/// en dash.
pub open spec fn tuning_of(strings: Seq<Seq<char>>) -> Seq<char> {
    "Tuning: "@ + joined(strings.reverse(), " – "@)
}

/// The tuning line for strings listed highest first.
pub fn tuning_line(strings: &Vec<String>) -> (line: String)
    ensures
        line@ == tuning_of(texts(strings@)),
{
    let n = strings.len();
    let ghost rev = texts(strings@).reverse();
    let mut out: Vec<char> = Vec::new();
    push_str(&mut out, "Tuning: ");
    let mut j: usize = 0;
    while j < n
        invariant
            n == strings@.len(),
            j <= n,
            rev == texts(strings@).reverse(),
            rev.len() == n,
            out@ == "Tuning: "@ + joined(rev.take(j as int), " – "@),
        decreases n - j,
    {
        let part = &strings[n - 1 - j];
        assert(rev[j as int] == part@);
        assert(rev.take(j + 1).drop_last() =~= rev.take(j as int));
        if j > 0 {
            push_str(&mut out, " – ");
        }
        push_str(&mut out, part.as_str());
        j = j + 1;
        assert(out@ =~= "Tuning: "@ + joined(rev.take(j as int), " – "@));
    }
    assert(rev.take(n as int) =~= rev);
    string_from_chars(&out)
}

/// The capo line for a capo on `fret`.
pub open spec fn capo_of(fret: u8) -> Seq<char> {
    "Capo: "@ + spec_decimal(fret as nat)
}

/// The capo line.
pub fn capo_line(fret: u8) -> (line: String)
    ensures
        line@ == capo_of(fret),
{
    let mut out: Vec<char> = Vec::new();
    push_str(&mut out, "Capo: ");
    let digits = decimal(fret as u64);
    push_all(&mut out, &digits);
    string_from_chars(&out)
}

/// The lines of `text`, each with `role`.
pub open spec fn role_lines(text: Seq<char>, role: HeaderRole) -> Seq<(Seq<char>, HeaderRole)> {
    text_lines_of(text).map_values(|l: Seq<char>| (l, role))
}

/// The lines of `text` with `role` where `shown`, else none.
pub open spec fn shown_lines(shown: bool, text: Seq<char>, role: HeaderRole) -> Seq<(Seq<char>, HeaderRole)> {
    if shown {
        role_lines(text, role)
    } else {
        Seq::empty()
    }
}

/// The header lines of the descriptive score text, in order: title,
/// subtitle, artist, album, credits, copyright and instructions, each split
/// into its non-empty lines and shown only where its switch is on.
pub open spec fn description_lines(m: ScoreMetadata, e: ElementVisibility) -> Seq<(Seq<char>, HeaderRole)> {
    shown_lines(e.title, m.title@, HeaderRole::Title)
        + shown_lines(e.subtitle, m.subtitle@, HeaderRole::Subtitle)
        + shown_lines(e.artist, m.artist@, HeaderRole::Artist)
        + shown_lines(e.album, m.album@, HeaderRole::Album)
        + shown_lines(e.words || e.music, credits_of(m.words@, m.music@), HeaderRole::Credits)
        + shown_lines(e.copyright, m.copyright@, HeaderRole::Copyright)
        + shown_lines(e.instructions, m.instructions@, HeaderRole::Instructions)
}

/// Every header line above the first system: the descriptive text when
/// `show_metadata`, then the tuning line when `show_tuning`, its element
/// switch is on and the track has strings, then the capo line when its
/// switch is on and the capo sits above the nut.
pub open spec fn header_of(
    m: ScoreMetadata,
    e: ElementVisibility,
    show_metadata: bool,
    show_tuning: bool,
    strings: Seq<Seq<char>>,
    capo: u8,
) -> Seq<(Seq<char>, HeaderRole)> {
    (if show_metadata {
        description_lines(m, e)
    } else {
        Seq::empty()
    }) + (if show_tuning && e.tuning && strings.len() > 0 {
        seq![(tuning_of(strings), HeaderRole::Tuning)]
    } else {
        Seq::empty()
    }) + (if e.capo && capo > 0 {
        seq![(capo_of(capo), HeaderRole::Capo)]
    } else {
        Seq::empty()
    })
}

/// The views of a list of header lines.
pub open spec fn line_views(v: Seq<HeaderLine>) -> Seq<(Seq<char>, HeaderRole)> {
    v.map_values(|l: HeaderLine| l@)
}

proof fn lemma_line_views_push(v: Seq<HeaderLine>, l: HeaderLine)
    ensures
        line_views(v.push(l)) == line_views(v).push(l@),
{
    assert(line_views(v.push(l)) =~= line_views(v).push(l@));
}

fn push_lines(out: &mut Vec<HeaderLine>, shown: bool, text: &str, role: HeaderRole)
    ensures
        line_views(final(out)@) == line_views(old(out)@) + shown_lines(shown, text@, role),
{
    if !shown {
        assert(line_views(out@) =~= line_views(out@) + shown_lines(shown, text@, role));
        return;
    }
    let lines = text_lines(text);
    let ghost start = line_views(out@);
    let ghost want = role_lines(text@, role);
    let n = lines.len();
    let mut i: usize = 0;
    while i < n
        invariant
            n == lines@.len(),
            i <= n,
            texts(lines@) == text_lines_of(text@),
            want == role_lines(text@, role),
            line_views(out@) == start + want.take(i as int),
        decreases n - i,
    {
        let line = HeaderLine { text: lines[i].clone(), role };
        assert(want[i as int] == line@) by {
            assert(texts(lines@)[i as int] == lines@[i as int]@);
        }
        proof {
            lemma_line_views_push(out@, line);
        }
        out.push(line);
        i = i + 1;
        assert(want.take(i as int) =~= want.take(i - 1).push(want[i - 1]));
        assert(line_views(out@) =~= start + want.take(i as int));
    }
    assert(want.take(n as int) =~= want);
}

/// Every line of the score header, in order, each with its role; see
/// [`header_of`]. `strings` names the open strings, highest first.
pub fn metadata_lines(
    metadata: &ScoreMetadata,
    elements: ElementVisibility,
    show_metadata: bool,
    show_tuning: bool,
    strings: &Vec<String>,
    capo: u8,
) -> (lines: Vec<HeaderLine>)
    ensures
        line_views(lines@) == header_of(
            *metadata,
            elements,
            show_metadata,
            show_tuning,
            texts(strings@),
            capo,
        ),
{
    let mut out: Vec<HeaderLine> = Vec::new();
    let ghost m = *metadata;
    let ghost e = elements;
    if show_metadata {
        let credit = credits(&metadata.words, &metadata.music);
        push_lines(&mut out, elements.title, metadata.title.as_str(), HeaderRole::Title);
        push_lines(&mut out, elements.subtitle, metadata.subtitle.as_str(), HeaderRole::Subtitle);
        push_lines(&mut out, elements.artist, metadata.artist.as_str(), HeaderRole::Artist);
        push_lines(&mut out, elements.album, metadata.album.as_str(), HeaderRole::Album);
        push_lines(&mut out, elements.words || elements.music, credit.as_str(), HeaderRole::Credits);
        push_lines(&mut out, elements.copyright, metadata.copyright.as_str(), HeaderRole::Copyright);
        push_lines(
            &mut out,
            elements.instructions,
            metadata.instructions.as_str(),
            HeaderRole::Instructions,
        );
        assert(line_views(out@) =~= description_lines(m, e));
    } else {
        assert(line_views(out@) =~= Seq::<(Seq<char>, HeaderRole)>::empty());
    }
    let ghost described = line_views(out@);
    if show_tuning && elements.tuning && strings.len() > 0 {
        let line = HeaderLine { text: tuning_line(strings), role: HeaderRole::Tuning };
        proof {
            lemma_line_views_push(out@, line);
        }
        out.push(line);
    }
    let ghost tuned = line_views(out@);
    if elements.capo && capo > 0 {
        let line = HeaderLine { text: capo_line(capo), role: HeaderRole::Capo };
        proof {
            lemma_line_views_push(out@, line);
        }
        out.push(line);
    }
    assert(line_views(out@) =~= header_of(m, e, show_metadata, show_tuning, texts(strings@), capo));
    out
}

} // verus!
