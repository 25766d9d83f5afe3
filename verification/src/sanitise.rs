//! Making untrusted text safe to place in a rendered report.
//!
//! A contract's metadata is attacker-controlled. In Markdown, a value containing a
//! newline, a backtick or a table pipe can restructure the document around it, so
//! every interpolated value is passed through [`sanitise`]: anything that could
//! restructure the document is replaced, runs of spaces collapse to one, the value is
//! trimmed and bounded.
use vstd::prelude::*;

use crate::text::{chars_of, text_from_chars};

verus! {

/// The longest value a rendering interpolates, in characters.
pub const SANITISED_LIMIT: usize = 200;

/// Whether a character ends a line.
pub open spec fn is_line_break(c: char) -> bool {
    c == '\n' || c == '\r' || c == '\u{2028}' || c == '\u{2029}'
}

/// Whether a character is one of Markdown's structural characters.
pub open spec fn is_structural(c: char) -> bool {
    c == '|' || c == '`' || c == '*' || c == '_' || c == '[' || c == ']' || c == '<' || c == '>'
        || c == '#' || c == '\\'
}

/// Whether a character is a control character (Unicode category Cc), as
/// `char::is_control` decides.
pub open spec fn is_control(c: char) -> bool {
    (c as u32) <= 0x1f || (0x7f <= (c as u32) && (c as u32) <= 0x9f)
}

/// Whether a character is white space (Unicode `White_Space`), as `char::is_whitespace`
/// decides.
pub open spec fn is_whitespace(c: char) -> bool {
    let n = c as u32;
    (0x09 <= n && n <= 0x0d) || n == 0x20 || n == 0x85 || n == 0xa0 || n == 0x1680
        || (0x2000 <= n && n <= 0x200a) || n == 0x2028 || n == 0x2029 || n == 0x202f
        || n == 0x205f || n == 0x3000
}

/// The character a value's character is written as.
pub open spec fn neutral(c: char) -> char {
    if is_line_break(c) {
        ' '
    } else if is_structural(c) {
        '\''
    } else if is_control(c) {
        ' '
    } else {
        c
    }
}

/// Every character neutralised, with each run of spaces written once.
pub open spec fn collapsed(value: Seq<char>) -> Seq<char>
    decreases value.len(),
{
    if value.len() == 0 {
        seq![]
    } else {
        let kept = collapsed(value.drop_last());
        let c = neutral(value.last());
        if c == ' ' && kept.len() > 0 && kept.last() == ' ' {
            kept
        } else {
            kept.push(c)
        }
    }
}

/// A text without leading white space.
pub open spec fn trim_start(s: Seq<char>) -> Seq<char>
    decreases s.len(),
{
    if s.len() > 0 && is_whitespace(s[0]) { trim_start(s.drop_first()) } else { s }
}

/// A text without trailing white space.
pub open spec fn trim_end(s: Seq<char>) -> Seq<char>
    decreases s.len(),
{
    if s.len() > 0 && is_whitespace(s.last()) { trim_end(s.drop_last()) } else { s }
}

/// A value made safe to interpolate: neutralised, collapsed, trimmed, and cut to
/// [`SANITISED_LIMIT`] characters.
pub open spec fn spec_sanitise(value: Seq<char>) -> Seq<char> {
    let trimmed = trim_end(trim_start(collapsed(value)));
    if trimmed.len() <= SANITISED_LIMIT { trimmed } else { trimmed.take(SANITISED_LIMIT as int) }
}

fn neutralise(c: char) -> (res: char)
    ensures
        res == neutral(c),
{
    let n = c as u32;
    if c == '\n' || c == '\r' || c == '\u{2028}' || c == '\u{2029}' {
        ' '
    } else if c == '|' || c == '`' || c == '*' || c == '_' || c == '[' || c == ']' || c == '<'
        || c == '>' || c == '#' || c == '\\' {
        '\''
    } else if n <= 0x1f || (0x7f <= n && n <= 0x9f) {
        ' '
    } else {
        c
    }
}

fn whitespace(c: char) -> (res: bool)
    ensures
        res == is_whitespace(c),
{
    let n = c as u32;
    (0x09 <= n && n <= 0x0d) || n == 0x20 || n == 0x85 || n == 0xa0 || n == 0x1680
        || (0x2000 <= n && n <= 0x200a) || n == 0x2028 || n == 0x2029 || n == 0x202f
        || n == 0x205f || n == 0x3000
}

proof fn lemma_trim_start_skip(s: Seq<char>, k: int)
    requires
        0 <= k <= s.len(),
        forall|j: int| 0 <= j < k ==> is_whitespace(#[trigger] s[j]),
    ensures
        trim_start(s) == trim_start(s.skip(k)),
    decreases k,
{
    if k > 0 {
        assert(s.drop_first().skip(k - 1) =~= s.skip(k));
        lemma_trim_start_skip(s.drop_first(), k - 1);
    } else {
        assert(s.skip(0) =~= s);
    }
}

proof fn lemma_trim_end_take(s: Seq<char>, k: int)
    requires
        0 <= k <= s.len(),
        forall|j: int| k <= j < s.len() ==> is_whitespace(#[trigger] s[j]),
    ensures
        trim_end(s) == trim_end(s.take(k)),
    decreases s.len() - k,
{
    if k < s.len() {
        assert(s.drop_last().take(k) =~= s.take(k));
        lemma_trim_end_take(s.drop_last(), k);
    } else {
        assert(s.take(k) =~= s);
    }
}

/// A text with its leading and trailing white space removed, as `str::trim` does.
pub fn trim_chars(chars: &Vec<char>) -> (res: Vec<char>)
    ensures
        res@ == trim_end(trim_start(chars@)),
{
    let mut start: usize = 0;
    while start < chars.len() && whitespace(chars[start])
        invariant
            start <= chars@.len(),
            forall|j: int| 0 <= j < start ==> is_whitespace(#[trigger] chars@[j]),
        decreases chars@.len() - start,
    {
        start = start + 1;
    }
    let ghost rest = chars@.skip(start as int);
    proof {
        lemma_trim_start_skip(chars@, start as int);
        if start < chars@.len() {
            assert(rest[0] == chars@[start as int]);
        }
    }
    assert(trim_start(chars@) == rest);
    let mut end: usize = chars.len();
    while end > start && whitespace(chars[end - 1])
        invariant
            start <= end <= chars@.len(),
            rest == chars@.skip(start as int),
            forall|j: int| end - start <= j < rest.len() ==> is_whitespace(#[trigger] rest[j]),
        decreases end - start,
    {
        end = end - 1;
    }
    proof {
        lemma_trim_end_take(rest, end - start);
        if end > start {
            assert(rest.take(end - start).last() == chars@[end - 1]);
        }
        assert(trim_end(rest) == rest.take(end - start));
    }
    let mut kept: Vec<char> = Vec::new();
    let mut k: usize = start;
    while k < end
        invariant
            start <= k <= end <= chars@.len(),
            kept@ == chars@.subrange(start as int, k as int),
        decreases end - k,
    {
        kept.push(chars[k]);
        proof { assert(kept@ =~= chars@.subrange(start as int, k as int + 1)); }
        k = k + 1;
    }
    proof { assert(kept@ =~= rest.take(end - start)); }
    kept
}

/// Makes a value safe to place inside a Markdown table cell or a line of prose.
pub fn sanitise(value: &str) -> (res: String)
    ensures
        res@ == spec_sanitise(value@),
{
    let chars = chars_of(value);
    let mut cleaned: Vec<char> = Vec::new();
    let mut i: usize = 0;
    while i < chars.len()
        invariant
            chars@ == value@,
            i <= chars@.len(),
            cleaned@ == collapsed(chars@.take(i as int)),
        decreases chars@.len() - i,
    {
        proof { assert(chars@.take(i as int + 1).drop_last() =~= chars@.take(i as int)); }
        let c = neutralise(chars[i]);
        let n = cleaned.len();
        if !(c == ' ' && n > 0 && cleaned[n - 1] == ' ') {
            cleaned.push(c);
        }
        i = i + 1;
    }
    proof { assert(chars@.take(i as int) =~= chars@); }
    // Trim both ends.
    let mut start: usize = 0;
    while start < cleaned.len() && whitespace(cleaned[start])
        invariant
            start <= cleaned@.len(),
            forall|j: int| 0 <= j < start ==> is_whitespace(#[trigger] cleaned@[j]),
        decreases cleaned@.len() - start,
    {
        start = start + 1;
    }
    let ghost rest = cleaned@.skip(start as int);
    proof {
        lemma_trim_start_skip(cleaned@, start as int);
        if start < cleaned@.len() {
            assert(rest[0] == cleaned@[start as int]);
        }
    }
    assert(trim_start(cleaned@) == rest);
    let mut end: usize = cleaned.len();
    while end > start && whitespace(cleaned[end - 1])
        invariant
            start <= end <= cleaned@.len(),
            rest == cleaned@.skip(start as int),
            forall|j: int| end - start <= j < rest.len() ==> is_whitespace(#[trigger] rest[j]),
        decreases end - start,
    {
        end = end - 1;
    }
    proof {
        lemma_trim_end_take(rest, end - start);
        if end > start {
            assert(rest.take(end - start).last() == cleaned@[end - 1]);
        }
        assert(trim_end(rest) == rest.take(end - start));
    }
    let limit = if end - start <= SANITISED_LIMIT { end } else { start + SANITISED_LIMIT };
    let mut kept: Vec<char> = Vec::new();
    let mut k: usize = start;
    while k < limit
        invariant
            start <= k <= limit <= end <= cleaned@.len(),
            kept@ == cleaned@.subrange(start as int, k as int),
        decreases limit - k,
    {
        kept.push(cleaned[k]);
        proof { assert(kept@ =~= cleaned@.subrange(start as int, k as int + 1)); }
        k = k + 1;
    }
    proof {
        let trimmed = rest.take(end - start);
        assert(trimmed =~= cleaned@.subrange(start as int, end as int));
        if trimmed.len() > SANITISED_LIMIT {
            assert(kept@ =~= trimmed.take(SANITISED_LIMIT as int));
        } else {
            assert(kept@ =~= trimmed);
        }
    }
    text_from_chars(kept.as_slice())
}

/// What a sanitised value can never contain: a line break, one of Markdown's
/// structural characters or a control character; and it is never longer than the
/// limit.
pub proof fn law_sanitised_text_cannot_restructure(value: Seq<char>)
    ensures
        spec_sanitise(value).len() <= SANITISED_LIMIT,
        forall|i: int| 0 <= i < spec_sanitise(value).len() ==> {
            let c = #[trigger] spec_sanitise(value)[i];
            !is_line_break(c) && !is_structural(c) && !is_control(c)
        },
{
    lemma_collapsed_is_neutral(value);
    let t = trim_start(collapsed(value));
    lemma_trim_start_is_suffix(collapsed(value));
    lemma_trim_end_is_prefix(t);
}

/// Every character of a collapsed value is a neutral one.
proof fn lemma_collapsed_is_neutral(value: Seq<char>)
    ensures
        forall|i: int| 0 <= i < collapsed(value).len() ==> is_safe(#[trigger] collapsed(value)[i]),
    decreases value.len(),
{
    if value.len() > 0 {
        lemma_collapsed_is_neutral(value.drop_last());
        let c = neutral(value.last());
        assert(is_safe(c));
        let kept = collapsed(value.drop_last());
        assert forall|i: int| 0 <= i < collapsed(value).len() implies is_safe(#[trigger] collapsed(value)[i]) by {
            if i < kept.len() {
                assert(collapsed(value)[i] == kept[i]);
            }
        }
    }
}

/// Whether a character can restructure nothing.
pub open spec fn is_safe(c: char) -> bool {
    !is_line_break(c) && !is_structural(c) && !is_control(c)
}

proof fn lemma_trim_start_is_suffix(s: Seq<char>)
    ensures
        exists|k: int| 0 <= k <= s.len() && trim_start(s) == s.skip(k),
    decreases s.len(),
{
    if s.len() > 0 && is_whitespace(s[0]) {
        lemma_trim_start_is_suffix(s.drop_first());
        let k = choose|k: int| 0 <= k <= s.drop_first().len() && trim_start(s.drop_first()) == s.drop_first().skip(k);
        assert(s.drop_first().skip(k) =~= s.skip(k + 1));
    } else {
        assert(s.skip(0) =~= s);
    }
}

proof fn lemma_trim_end_is_prefix(s: Seq<char>)
    ensures
        exists|k: int| 0 <= k <= s.len() && trim_end(s) == s.take(k),
    decreases s.len(),
{
    if s.len() > 0 && is_whitespace(s.last()) {
        lemma_trim_end_is_prefix(s.drop_last());
        let k = choose|k: int| 0 <= k <= s.drop_last().len() && trim_end(s.drop_last()) == s.drop_last().take(k);
        assert(s.drop_last().take(k) =~= s.take(k));
    } else {
        assert(s.take(s.len() as int) =~= s);
    }
}

/// Whether no two adjacent characters are both spaces.
pub open spec fn single_spaced(s: Seq<char>) -> bool {
    forall|i: int| 0 <= i < s.len() - 1 ==> !(#[trigger] s[i] == ' ' && s[i + 1] == ' ')
}

proof fn lemma_collapsed_single_spaced(value: Seq<char>)
    ensures
        single_spaced(collapsed(value)),
    decreases value.len(),
{
    if value.len() > 0 {
        lemma_collapsed_single_spaced(value.drop_last());
        let kept = collapsed(value.drop_last());
        let now = collapsed(value);
        assert forall|i: int| 0 <= i < now.len() - 1 implies !(#[trigger] now[i] == ' ' && now[i + 1] == ' ') by {
            if i + 1 < kept.len() {
                assert(now[i] == kept[i] && now[i + 1] == kept[i + 1]);
            } else if now.len() == kept.len() + 1 {
                assert(now[i] == kept.last());
            }
        }
    }
}

/// Collapsing a text that is already neutral and single-spaced changes nothing.
proof fn lemma_collapsed_fixed(t: Seq<char>)
    requires
        forall|i: int| 0 <= i < t.len() ==> is_safe(#[trigger] t[i]),
        single_spaced(t),
    ensures
        collapsed(t) == t,
    decreases t.len(),
{
    if t.len() > 0 {
        let p = t.drop_last();
        assert forall|i: int| 0 <= i < p.len() implies is_safe(#[trigger] p[i]) by {
            assert(p[i] == t[i]);
        }
        assert forall|i: int| 0 <= i < p.len() - 1 implies !(#[trigger] p[i] == ' ' && p[i + 1] == ' ') by {
            assert(p[i] == t[i] && p[i + 1] == t[i + 1]);
        }
        lemma_collapsed_fixed(p);
        assert(is_safe(t.last()));
        assert(neutral(t.last()) == t.last());
        if t.last() == ' ' && p.len() > 0 {
            assert(t[t.len() - 2] == p.last());
            assert(!(t[t.len() - 2] == ' ' && t[t.len() - 1] == ' '));
        }
        assert(collapsed(t) =~= t);
    } else {
        assert(collapsed(t) =~= t);
    }
}

/// A trimmed text does not begin with white space.
proof fn lemma_trim_start_head(s: Seq<char>)
    ensures
        trim_start(s).len() > 0 ==> !is_whitespace(trim_start(s)[0]),
    decreases s.len(),
{
    if s.len() > 0 && is_whitespace(s[0]) {
        lemma_trim_start_head(s.drop_first());
    }
}

/// Sanitising a sanitised value changes nothing, unless cutting it to the limit left
/// white space at its end, which a second pass trims.
pub proof fn law_sanitising_is_idempotent(value: Seq<char>)
    requires
        spec_sanitise(value).len() == 0 || !is_whitespace(spec_sanitise(value).last()),
    ensures
        spec_sanitise(spec_sanitise(value)) == spec_sanitise(value),
{
    let c = collapsed(value);
    let a = trim_start(c);
    let b = trim_end(a);
    let s = spec_sanitise(value);
    law_sanitised_text_cannot_restructure(value);
    lemma_collapsed_single_spaced(value);
    lemma_trim_start_is_suffix(c);
    lemma_trim_end_is_prefix(a);
    lemma_trim_start_head(c);
    let k1 = choose|k: int| 0 <= k <= c.len() && a == c.skip(k);
    let k2 = choose|k: int| 0 <= k <= a.len() && b == a.take(k);
    // The sanitised value is a stretch of the collapsed one.
    assert forall|i: int| 0 <= i < s.len() implies #[trigger] s[i] == c[k1 + i] by {
        assert(s[i] == b[i]);
        assert(b[i] == a[i]);
    }
    assert(single_spaced(s)) by {
        assert forall|i: int| 0 <= i < s.len() - 1 implies !(#[trigger] s[i] == ' ' && s[i + 1] == ' ') by {
            assert(s[i] == c[k1 + i] && s[i + 1] == c[k1 + i + 1]);
        }
    }
    assert forall|i: int| 0 <= i < s.len() implies is_safe(#[trigger] s[i]) by {}
    lemma_collapsed_fixed(s);
    if s.len() > 0 {
        assert(s[0] == a[0]);
    }
    assert(trim_start(s) == s);
    assert(trim_end(s) == s);
}

} // verus!
