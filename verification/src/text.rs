//! Exact decimal formatting and XML text escaping.
use vstd::prelude::*;

verus! {

/// The decimal digit character for `d` (`0` through `9`).
pub open spec fn digit_char(d: nat) -> char {
    if d == 0 {
        '0'
    } else if d == 1 {
        '1'
    } else if d == 2 {
        '2'
    } else if d == 3 {
        '3'
    } else if d == 4 {
        '4'
    } else if d == 5 {
        '5'
    } else if d == 6 {
        '6'
    } else if d == 7 {
        '7'
    } else if d == 8 {
        '8'
    } else {
        '9'
    }
}

/// The shortest decimal representation of `n`, most significant digit first.
pub open spec fn spec_decimal(n: nat) -> Seq<char>
    decreases n,
{
    if n < 10 {
        seq![digit_char(n)]
    } else {
        spec_decimal(n / 10).push(digit_char(n % 10))
    }
}

/// The character for a single decimal digit.
pub fn digit(d: u64) -> (c: char)
    requires
        d < 10,
    ensures
        c == digit_char(d as nat),
{
    match d {
        0 => '0',
        1 => '1',
        2 => '2',
        3 => '3',
        4 => '4',
        5 => '5',
        6 => '6',
        7 => '7',
        8 => '8',
        _ => '9',
    }
}

/// Formats `n` in decimal.
pub fn decimal(n: u64) -> (s: Vec<char>)
    ensures
        s@ == spec_decimal(n as nat),
    decreases n,
{
    if n < 10 {
        let mut s: Vec<char> = Vec::new();
        s.push(digit(n));
        s
    } else {
        let mut s = decimal(n / 10);
        s.push(digit(n % 10));
        s
    }
}

/// Decimal representation of a signed integer, with a leading `-` when negative.
pub open spec fn spec_signed_decimal(n: int) -> Seq<char> {
    if n < 0 {
        seq!['-'] + spec_decimal((-n) as nat)
    } else {
        spec_decimal(n as nat)
    }
}

/// Formats a signed integer in decimal.
pub fn signed_decimal(n: i64) -> (s: Vec<char>)
    requires
        n > i64::MIN,
    ensures
        s@ == spec_signed_decimal(n as int),
{
    if n < 0 {
        let mut s: Vec<char> = Vec::new();
        s.push('-');
        let digits = decimal((-n) as u64);
        push_all(&mut s, &digits);
        s
    } else {
        decimal(n as u64)
    }
}

/// Appends every character of `tail` to `out`.
pub fn push_all(out: &mut Vec<char>, tail: &Vec<char>)
    ensures
        final(out)@ == old(out)@ + tail@,
{
    let mut i: usize = 0;
    while i < tail.len()
        invariant
            i <= tail.len(),
            out@ == old(out)@ + tail@.subrange(0, i as int),
        decreases tail.len() - i,
    {
        out.push(tail[i]);
        i = i + 1;
        assert(tail@.subrange(0, i as int) == tail@.subrange(0, i - 1).push(tail@[i - 1]));
    }
    assert(tail@.subrange(0, tail@.len() as int) == tail@);
}

/// Collects characters into a `String` holding exactly those characters.
#[verifier::external_body]
pub fn string_from_chars(chars: &Vec<char>) -> (s: String)
    ensures
        s@ == chars@,
{
    chars.iter().collect()
}

/// Characters that XML 1.0 allows in text: tab, newline, carriage return and
/// the scalar values from U+0020 up, except U+FFFE and U+FFFF.
pub open spec fn xml_allowed(c: char) -> bool {
    ||| c == '\t'
    ||| c == '\n'
    ||| c == '\r'
    ||| (0x20 <= c as int <= 0xD7FF)
    ||| (0xE000 <= c as int <= 0xFFFD)
    ||| (0x10000 <= c as int <= 0x10FFFF)
}

/// The escaped form of one character: a character that XML forbids becomes
/// U+FFFD, then markup characters become entity references.
pub open spec fn escaped_char(c: char) -> Seq<char> {
    let c = if xml_allowed(c) {
        c
    } else {
        '\u{FFFD}'
    };
    if c == '&' {
        "&amp;"@
    } else if c == '<' {
        "&lt;"@
    } else if c == '>' {
        "&gt;"@
    } else if c == '"' {
        "&quot;"@
    } else if c == '\'' {
        "&apos;"@
    } else {
        seq![c]
    }
}

/// The escaped forms of the first `k` characters of `s`, in order.
pub open spec fn spec_escape_xml(s: Seq<char>, k: int) -> Seq<char>
    decreases k,
{
    if k <= 0 {
        Seq::empty()
    } else {
        spec_escape_xml(s, k - 1) + escaped_char(s[k - 1])
    }
}

/// Appends every character of `s` to `out`.
pub fn push_str(out: &mut Vec<char>, s: &str)
    ensures
        final(out)@ == old(out)@ + s@,
{
    let n = s.unicode_len();
    let mut i: usize = 0;
    while i < n
        invariant
            n == s@.len(),
            i <= n,
            out@ == old(out)@ + s@.subrange(0, i as int),
        decreases n - i,
    {
        out.push(s.get_char(i));
        i = i + 1;
        assert(s@.subrange(0, i as int) == s@.subrange(0, i - 1).push(s@[i - 1]));
    }
    assert(s@.subrange(0, n as int) == s@);
}

/// Text as it may stand in SVG character data or an attribute value: each
/// character that XML forbids is replaced by U+FFFD, then `&`, `<`, `>`, `"`
/// and `'` are written as entity references.
pub fn escape_xml(text: &str) -> (r: String)
    ensures
        r@ == spec_escape_xml(text@, text@.len() as int),
{
    let n = text.unicode_len();
    let mut out: Vec<char> = Vec::new();
    let mut i: usize = 0;
    while i < n
        invariant
            n == text@.len(),
            i <= n,
            out@ == spec_escape_xml(text@, i as int),
        decreases n - i,
    {
        let c = text.get_char(i);
        let code = c as u32;
        let allowed = c == '\t' || c == '\n' || c == '\r' || (0x20 <= code && code <= 0xD7FF)
            || (0xE000 <= code && code <= 0xFFFD) || (0x10000 <= code && code <= 0x10FFFF);
        let c = if allowed {
            c
        } else {
            '\u{FFFD}'
        };
        if c == '&' {
            push_str(&mut out, "&amp;");
        } else if c == '<' {
            push_str(&mut out, "&lt;");
        } else if c == '>' {
            push_str(&mut out, "&gt;");
        } else if c == '"' {
            push_str(&mut out, "&quot;");
        } else if c == '\'' {
            push_str(&mut out, "&apos;");
        } else {
            out.push(c);
        }
        i = i + 1;
    }
    string_from_chars(&out)
}

/// A character that may stand in escaped text: allowed by XML and not markup.
pub open spec fn safe_in_text(c: char) -> bool {
    xml_allowed(c) && c != '<' && c != '>' && c != '"' && c != '\''
}

proof fn lemma_escaped_char_safe(c: char)
    ensures
        forall|i: int|
            0 <= i < escaped_char(c).len() ==> safe_in_text(#[trigger] escaped_char(c)[i]),
{
    reveal_strlit("&amp;");
    reveal_strlit("&lt;");
    reveal_strlit("&gt;");
    reveal_strlit("&quot;");
    reveal_strlit("&apos;");
}

/// Escaped text is safe XML character data: every character is one that XML
/// allows, and no `<`, `>`, `"` or `'` remains.
pub proof fn escaped_text_is_xml_safe(s: Seq<char>, k: int)
    requires
        0 <= k <= s.len(),
    ensures
        forall|i: int|
            0 <= i < spec_escape_xml(s, k).len() ==> safe_in_text(#[trigger] spec_escape_xml(s, k)[i]),
    decreases k,
{
    if k > 0 {
        escaped_text_is_xml_safe(s, k - 1);
        lemma_escaped_char_safe(s[k - 1]);
        let prefix = spec_escape_xml(s, k - 1);
        let tail = escaped_char(s[k - 1]);
        assert forall|i: int| 0 <= i < spec_escape_xml(s, k).len() implies safe_in_text(
            #[trigger] spec_escape_xml(s, k)[i],
        ) by {
            if i < prefix.len() {
                assert(spec_escape_xml(s, k)[i] == prefix[i]);
            } else {
                assert(spec_escape_xml(s, k)[i] == tail[i - prefix.len()]);
            }
        }
    }
}

/// Text with no character that XML forbids and no markup character is left
/// unchanged by escaping.
pub proof fn plain_text_is_unchanged(s: Seq<char>, k: int)
    requires
        0 <= k <= s.len(),
        forall|i: int| 0 <= i < s.len() ==> safe_in_text(#[trigger] s[i]) && s[i] != '&',
    ensures
        spec_escape_xml(s, k) == s.subrange(0, k),
    decreases k,
{
    if k > 0 {
        plain_text_is_unchanged(s, k - 1);
        assert(safe_in_text(s[k - 1]) && s[k - 1] != '&');
        assert(escaped_char(s[k - 1]) == seq![s[k - 1]]);
        assert(s.subrange(0, k) == s.subrange(0, k - 1).push(s[k - 1]));
    } else {
        assert(s.subrange(0, 0) =~= Seq::<char>::empty());
    }
}

/// `c` as escaping keeps it: a character that XML forbids becomes U+FFFD.
pub open spec fn clean_char(c: char) -> char {
    if xml_allowed(c) {
        c
    } else {
        '\u{FFFD}'
    }
}

/// The entity reference `&amp;`.
pub open spec fn amp_entity() -> Seq<char> {
    seq!['&', 'a', 'm', 'p', ';']
}

/// The entity reference `&lt;`.
pub open spec fn lt_entity() -> Seq<char> {
    seq!['&', 'l', 't', ';']
}

/// The entity reference `&gt;`.
pub open spec fn gt_entity() -> Seq<char> {
    seq!['&', 'g', 't', ';']
}

/// The entity reference `&quot;`.
pub open spec fn quot_entity() -> Seq<char> {
    seq!['&', 'q', 'u', 'o', 't', ';']
}

/// The entity reference `&apos;`.
pub open spec fn apos_entity() -> Seq<char> {
    seq!['&', 'a', 'p', 'o', 's', ';']
}

/// `t` begins with `e`.
pub open spec fn begins_with(t: Seq<char>, e: Seq<char>) -> bool {
    e.len() <= t.len() && t.take(e.len() as int) == e
}

/// One of the five entity references that escaping writes begins at index `i` of `t`.
pub open spec fn entity_starts_at(t: Seq<char>, i: int) -> bool {
    let rest = t.skip(i);
    ||| begins_with(rest, amp_entity())
    ||| begins_with(rest, lt_entity())
    ||| begins_with(rest, gt_entity())
    ||| begins_with(rest, quot_entity())
    ||| begins_with(rest, apos_entity())
}

/// Text with its entity references `&amp;`, `&lt;`, `&gt;`, `&quot;` and
/// `&apos;` read back as `&`, `<`, `>`, `"` and `'`, from the front.
pub open spec fn spec_unescape(t: Seq<char>) -> Seq<char>
    decreases t.len(),
{
    if t.len() == 0 {
        Seq::empty()
    } else if begins_with(t, amp_entity()) {
        seq!['&'] + spec_unescape(t.skip(5))
    } else if begins_with(t, lt_entity()) {
        seq!['<'] + spec_unescape(t.skip(4))
    } else if begins_with(t, gt_entity()) {
        seq!['>'] + spec_unescape(t.skip(4))
    } else if begins_with(t, quot_entity()) {
        seq!['"'] + spec_unescape(t.skip(6))
    } else if begins_with(t, apos_entity()) {
        seq!['\''] + spec_unescape(t.skip(6))
    } else {
        seq![t[0]] + spec_unescape(t.skip(1))
    }
}

proof fn lemma_entities_are_literals()
    ensures
        "&amp;"@ == amp_entity(),
        "&lt;"@ == lt_entity(),
        "&gt;"@ == gt_entity(),
        "&quot;"@ == quot_entity(),
        "&apos;"@ == apos_entity(),
{
    reveal_strlit("&amp;");
    reveal_strlit("&lt;");
    reveal_strlit("&gt;");
    reveal_strlit("&quot;");
    reveal_strlit("&apos;");
    assert("&amp;"@ =~= amp_entity());
    assert("&lt;"@ =~= lt_entity());
    assert("&gt;"@ =~= gt_entity());
    assert("&quot;"@ =~= quot_entity());
    assert("&apos;"@ =~= apos_entity());
}

proof fn lemma_not_begins(t: Seq<char>, e: Seq<char>, idx: int)
    requires
        0 <= idx < e.len(),
        idx < t.len(),
        t[idx] != e[idx],
    ensures
        !begins_with(t, e),
{
    if begins_with(t, e) {
        assert(t.take(e.len() as int)[idx] == t[idx]);
    }
}

/// Reading back one escaped character and the text after it gives the
/// character as escaping keeps it, then the text read back.
proof fn lemma_unescape_one(c: char, rest: Seq<char>)
    ensures
        spec_unescape(escaped_char(c) + rest) == seq![clean_char(c)] + spec_unescape(rest),
{
    lemma_entities_are_literals();
    let e = escaped_char(c);
    let t = e + rest;
    let k = clean_char(c);
    if k == '&' {
        assert(t.take(5) =~= amp_entity());
        assert(t.skip(5) =~= rest);
    } else if k == '<' {
        lemma_not_begins(t, amp_entity(), 1);
        assert(t.take(4) =~= lt_entity());
        assert(t.skip(4) =~= rest);
    } else if k == '>' {
        lemma_not_begins(t, amp_entity(), 1);
        lemma_not_begins(t, lt_entity(), 1);
        assert(t.take(4) =~= gt_entity());
        assert(t.skip(4) =~= rest);
    } else if k == '"' {
        lemma_not_begins(t, amp_entity(), 1);
        lemma_not_begins(t, lt_entity(), 1);
        lemma_not_begins(t, gt_entity(), 1);
        assert(t.take(6) =~= quot_entity());
        assert(t.skip(6) =~= rest);
    } else if k == '\'' {
        lemma_not_begins(t, amp_entity(), 2);
        lemma_not_begins(t, lt_entity(), 1);
        lemma_not_begins(t, gt_entity(), 1);
        lemma_not_begins(t, quot_entity(), 1);
        assert(t.take(6) =~= apos_entity());
        assert(t.skip(6) =~= rest);
    } else {
        assert(e == seq![k]);
        assert(t[0] == k);
        lemma_not_begins(t, amp_entity(), 0);
        lemma_not_begins(t, lt_entity(), 0);
        lemma_not_begins(t, gt_entity(), 0);
        lemma_not_begins(t, quot_entity(), 0);
        lemma_not_begins(t, apos_entity(), 0);
        assert(t.skip(1) =~= rest);
    }
}

/// Escaping the first `k > 0` characters is the first character escaped,
/// followed by the rest escaped.
proof fn lemma_escape_front(s: Seq<char>, k: int)
    requires
        1 <= k <= s.len(),
    ensures
        spec_escape_xml(s, k) == escaped_char(s[0]) + spec_escape_xml(s.skip(1), k - 1),
    decreases k,
{
    if k == 1 {
        assert(spec_escape_xml(s.skip(1), 0) == Seq::<char>::empty());
        assert(spec_escape_xml(s, 0) == Seq::<char>::empty());
        assert(spec_escape_xml(s, 1) =~= escaped_char(s[0]) + spec_escape_xml(s.skip(1), 0));
    } else {
        lemma_escape_front(s, k - 1);
        assert(s.skip(1)[k - 2] == s[k - 1]);
        assert(spec_escape_xml(s, k) =~= escaped_char(s[0]) + spec_escape_xml(s.skip(1), k - 1));
    }
}

proof fn lemma_round_trip(s: Seq<char>)
    ensures
        spec_unescape(spec_escape_xml(s, s.len() as int)) == s.map_values(|c: char| clean_char(c)),
    decreases s.len(),
{
    if s.len() == 0 {
        assert(s.map_values(|c: char| clean_char(c)) =~= Seq::<char>::empty());
    } else {
        let rest = s.skip(1);
        lemma_escape_front(s, s.len() as int);
        lemma_round_trip(rest);
        lemma_unescape_one(s[0], spec_escape_xml(rest, rest.len() as int));
        assert(s.map_values(|c: char| clean_char(c)) =~= seq![clean_char(s[0])]
            + rest.map_values(|c: char| clean_char(c)));
    }
}

proof fn lemma_ampersands_start_entities(s: Seq<char>, k: int)
    requires
        0 <= k <= s.len(),
    ensures
        forall|i: int|
            0 <= i < spec_escape_xml(s, k).len() && spec_escape_xml(s, k)[i] == '&'
                ==> #[trigger] entity_starts_at(spec_escape_xml(s, k), i),
    decreases k,
{
    if k > 0 {
        lemma_ampersands_start_entities(s, k - 1);
        lemma_entities_are_literals();
        let prefix = spec_escape_xml(s, k - 1);
        let tail = escaped_char(s[k - 1]);
        let t = spec_escape_xml(s, k);
        assert(t == prefix + tail);
        assert forall|i: int| 0 <= i < t.len() && t[i] == '&' implies #[trigger] entity_starts_at(
            t,
            i,
        ) by {
            if i < prefix.len() {
                assert(prefix[i] == '&');
                assert(entity_starts_at(prefix, i));
                let e = if begins_with(prefix.skip(i), amp_entity()) {
                    amp_entity()
                } else if begins_with(prefix.skip(i), lt_entity()) {
                    lt_entity()
                } else if begins_with(prefix.skip(i), gt_entity()) {
                    gt_entity()
                } else if begins_with(prefix.skip(i), quot_entity()) {
                    quot_entity()
                } else {
                    apos_entity()
                };
                assert(begins_with(prefix.skip(i), e));
                assert(t.skip(i).take(e.len() as int) =~= prefix.skip(i).take(e.len() as int));
                assert(begins_with(t.skip(i), e));
            } else {
                let j = i - prefix.len();
                assert(tail[j] == '&');
                let c = clean_char(s[k - 1]);
                assert(t.skip(i) =~= tail.skip(j));
                if c == '&' {
                    assert(j == 0);
                    assert(tail.skip(0).take(5) =~= amp_entity());
                } else if c == '<' {
                    assert(j == 0);
                    assert(tail.skip(0).take(4) =~= lt_entity());
                } else if c == '>' {
                    assert(j == 0);
                    assert(tail.skip(0).take(4) =~= gt_entity());
                } else if c == '"' {
                    assert(j == 0);
                    assert(tail.skip(0).take(6) =~= quot_entity());
                } else if c == '\'' {
                    assert(j == 0);
                    assert(tail.skip(0).take(6) =~= apos_entity());
                } else {
                    assert(tail == seq![c]);
                }
            }
        }
    }
}

/// Escaping loses nothing and writes no stray `&`: every `&` in escaped text
/// begins one of the entity references `&amp;`, `&lt;`, `&gt;`, `&quot;` and
/// `&apos;`, and reading those back gives the input with each character that
/// XML forbids replaced by U+FFFD, with no double escaping.
pub proof fn escaping_round_trips(s: Seq<char>)
    ensures
        forall|i: int|
            0 <= i < spec_escape_xml(s, s.len() as int).len() && spec_escape_xml(s, s.len() as int)[i]
                == '&' ==> #[trigger] entity_starts_at(spec_escape_xml(s, s.len() as int), i),
        spec_unescape(spec_escape_xml(s, s.len() as int)) == s.map_values(|c: char| clean_char(c)),
{
    lemma_ampersands_start_entities(s, s.len() as int);
    lemma_round_trip(s);
}

} // verus!
