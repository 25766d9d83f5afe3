//! Normalising an internal identifier to the grammar the report schema accepts.
//!
//! The assertion layer names its checks after what they are, and the report schema
//! constrains an assertion identifier to lowercase kebab-case of at most sixty-four
//! characters. The structure is normalised on the way out; a name that has to be cut
//! gets a digest of the original appended, so two long names that share a prefix do
//! not collapse into one identifier, and the same name always produces the same one.
use vstd::prelude::*;

use crate::digest::{hex_lower, sha256, sha256_digest, spec_hex, lemma_hex_len};
use crate::text::{chars_of, push_char, push_str, text_from_chars};

verus! {

/// The longest identifier the schema permits.
pub const IDENTIFIER_LIMIT: usize = 64;

/// The shortest identifier the schema permits.
pub const IDENTIFIER_MINIMUM: usize = 2;

/// How many digest characters are appended when a name has to be cut.
pub const DISCRIMINATOR: usize = 8;

/// Whether a character is an ASCII letter or digit.
pub open spec fn is_ascii_alnum(c: char) -> bool {
    ('a' <= c && c <= 'z') || ('A' <= c && c <= 'Z') || ('0' <= c && c <= '9')
}

/// The lowercase form of an ASCII letter; any other character is unchanged.
pub open spec fn ascii_lower(c: char) -> char {
    if 'A' <= c && c <= 'Z' { ((c as u32) + 32) as char } else { c }
}

/// The characters kept so far, and whether the last thing written was a separator.
pub open spec fn slug_scan(raw: Seq<char>) -> (Seq<char>, bool)
    decreases raw.len(),
{
    if raw.len() == 0 {
        (seq![], true)
    } else {
        let (kept, separated) = slug_scan(raw.drop_last());
        let c = raw.last();
        if is_ascii_alnum(c) {
            (kept.push(ascii_lower(c)), false)
        } else if !separated {
            (kept.push('-'), true)
        } else {
            (kept, separated)
        }
    }
}

/// A text without its trailing dashes.
pub open spec fn strip_trailing_dashes(s: Seq<char>) -> Seq<char>
    decreases s.len(),
{
    if s.len() > 0 && s.last() == '-' {
        strip_trailing_dashes(s.drop_last())
    } else {
        s
    }
}

/// A text reduced to lowercase kebab-case: letters and digits kept and lowercased,
/// every run of anything else one dash, no dash at the end.
pub open spec fn spec_slug(raw: Seq<char>) -> Seq<char> {
    strip_trailing_dashes(slug_scan(raw).0)
}

/// The first eight hexadecimal digits of the SHA-256 digest of a text's UTF-8 bytes.
pub open spec fn spec_discriminator(text: Seq<char>) -> Seq<char> {
    spec_hex(sha256_digest(vstd::utf8::encode_utf8(text))).take(DISCRIMINATOR as int)
}

/// A slug lengthened to the schema's minimum with a discriminator when it is shorter.
pub open spec fn spec_pad(slug: Seq<char>) -> Seq<char> {
    if slug.len() >= IDENTIFIER_MINIMUM {
        slug
    } else {
        slug.push('-') + spec_discriminator(slug)
    }
}

/// The identifier an internal name is reported under.
pub open spec fn spec_identifier(raw: Seq<char>) -> Seq<char> {
    let slug = spec_slug(raw);
    if slug.len() <= IDENTIFIER_LIMIT {
        spec_pad(slug)
    } else {
        spec_cut(slug).push('-') + spec_discriminator(raw)
    }
}

/// The part of a long slug that is kept before the discriminator: as many characters
/// as leave room for a dash and the discriminator, without the dashes the cut leaves at
/// its end.
pub open spec fn spec_cut(slug: Seq<char>) -> Seq<char> {
    strip_trailing_dashes(slug.take((IDENTIFIER_LIMIT - DISCRIMINATOR - 1) as int))
}

fn is_alnum(c: char) -> (res: bool)
    ensures
        res == is_ascii_alnum(c),
{
    ('a' <= c && c <= 'z') || ('A' <= c && c <= 'Z') || ('0' <= c && c <= '9')
}

fn lower(c: char) -> (res: char)
    ensures
        res == ascii_lower(c),
{
    if 'A' <= c && c <= 'Z' {
        let code: u32 = (c as u32) + 32;
        proof { assert(0x61 <= code <= 0x7a); }
        (code as u8) as char
    } else {
        c
    }
}

/// Reduces a string to lowercase kebab-case.
fn slugify(raw: &str) -> (res: Vec<char>)
    ensures
        res@ == spec_slug(raw@),
{
    let chars = chars_of(raw);
    let mut slug: Vec<char> = Vec::new();
    let mut separated = true;
    let mut i: usize = 0;
    while i < chars.len()
        invariant
            chars@ == raw@,
            i <= chars@.len(),
            (slug@, separated) == slug_scan(chars@.take(i as int)),
        decreases chars@.len() - i,
    {
        proof { assert(chars@.take(i as int + 1).drop_last() =~= chars@.take(i as int)); }
        let c = chars[i];
        if is_alnum(c) {
            slug.push(lower(c));
            separated = false;
        } else if !separated {
            slug.push('-');
            separated = true;
        }
        i = i + 1;
    }
    proof { assert(chars@.take(i as int) =~= chars@); }
    while slug.len() > 0 && slug[slug.len() - 1] == '-'
        invariant
            strip_trailing_dashes(slug@) == spec_slug(raw@),
        decreases slug@.len(),
    {
        let ghost before = slug@;
        slug.pop();
        proof { assert(slug@ =~= before.drop_last()); }
    }
    slug
}

/// Whether a character may appear inside a segment of an identifier: a lowercase
/// ASCII letter or a digit.
pub open spec fn is_segment_char(c: char) -> bool {
    ('a' <= c && c <= 'z') || ('0' <= c && c <= '9')
}

/// Whether a character may appear in an identifier: a segment character or a dash.
pub open spec fn is_identifier_char(c: char) -> bool {
    is_segment_char(c) || c == '-'
}

/// Whether every character of a text may appear inside a segment.
pub open spec fn segment_chars(text: Seq<char>) -> bool {
    forall|i: int| 0 <= i < text.len() ==> is_segment_char(#[trigger] text[i])
}

/// Whether a text is lowercase kebab-case: non-empty segments of lowercase letters and
/// digits joined by single dashes.
pub open spec fn is_kebab(text: Seq<char>) -> bool {
    &&& text.len() > 0
    &&& identifier_chars(text)
    &&& text[0] != '-'
    &&& text.last() != '-'
    &&& no_double_dash(text)
}

/// Whether no dash in a text is followed by another.
pub open spec fn no_double_dash(text: Seq<char>) -> bool {
    forall|i: int| 0 <= i < text.len() - 1 && #[trigger] text[i] == '-' ==> text[i + 1] != '-'
}

/// Whether a text holds an ASCII letter or digit.
pub open spec fn has_alnum(text: Seq<char>) -> bool {
    exists|i: int| 0 <= i < text.len() && is_ascii_alnum(#[trigger] text[i])
}

/// Whether every character of a text may appear in an identifier.
pub open spec fn identifier_chars(text: Seq<char>) -> bool {
    forall|i: int| 0 <= i < text.len() ==> is_identifier_char(#[trigger] text[i])
}

proof fn lemma_hex_chars(bytes: Seq<u8>)
    ensures
        segment_chars(spec_hex(bytes)),
    decreases bytes.len(),
{
    if bytes.len() > 0 {
        lemma_hex_chars(bytes.drop_last());
        let n = bytes.last() as nat;
        assert(n / 16 < 16 && n % 16 < 16);
        let h = spec_hex(bytes);
        let p = spec_hex(bytes.drop_last());
        assert forall|i: int| 0 <= i < h.len() implies is_segment_char(#[trigger] h[i]) by {
            if i < p.len() {
                assert(h[i] == p[i]);
            }
        }
    }
}

proof fn lemma_slug_scan_chars(raw: Seq<char>)
    ensures
        identifier_chars(slug_scan(raw).0),
    decreases raw.len(),
{
    if raw.len() > 0 {
        lemma_slug_scan_chars(raw.drop_last());
        let prev = slug_scan(raw.drop_last()).0;
        let now = slug_scan(raw).0;
        assert forall|i: int| 0 <= i < now.len() implies is_identifier_char(#[trigger] now[i]) by {
            if i < prev.len() {
                assert(now[i] == prev[i]);
            }
        }
    }
}

proof fn lemma_strip_is_prefix(s: Seq<char>)
    ensures
        strip_trailing_dashes(s).len() <= s.len(),
        strip_trailing_dashes(s) == s.take(strip_trailing_dashes(s).len() as int),
    decreases s.len(),
{
    if s.len() > 0 && s.last() == '-' {
        lemma_strip_is_prefix(s.drop_last());
        let t = strip_trailing_dashes(s.drop_last());
        assert(s.drop_last().take(t.len() as int) =~= s.take(t.len() as int));
    } else {
        assert(s.take(s.len() as int) =~= s);
    }
}

/// A slug holds only characters an identifier may hold.
proof fn lemma_slug_chars(raw: Seq<char>)
    ensures
        identifier_chars(spec_slug(raw)),
{
    lemma_slug_scan_chars(raw);
    lemma_strip_is_prefix(slug_scan(raw).0);
    let full = slug_scan(raw).0;
    let slug = spec_slug(raw);
    assert forall|i: int| 0 <= i < slug.len() implies is_identifier_char(#[trigger] slug[i]) by {
        assert(slug[i] == full.take(slug.len() as int)[i]);
        assert(full.take(slug.len() as int)[i] == full[i]);
    }
}

/// What the scan has kept so far has the shape of kebab-case with possibly one dash at
/// its end, and the flag says whether it ends in one; it is empty exactly when the text
/// holds no letter or digit.
proof fn lemma_slug_scan_shape(raw: Seq<char>)
    ensures
        slug_scan(raw).0.len() == 0 ==> slug_scan(raw).1,
        slug_scan(raw).0.len() > 0 ==> (slug_scan(raw).1 <==> slug_scan(raw).0.last() == '-'),
        slug_scan(raw).0.len() > 0 ==> slug_scan(raw).0[0] != '-',
        slug_scan(raw).0.len() > 0 <==> has_alnum(raw),
        no_double_dash(slug_scan(raw).0),
    decreases raw.len(),
{
    if raw.len() > 0 {
        let prefix = raw.drop_last();
        lemma_slug_scan_shape(prefix);
        let prev = slug_scan(prefix).0;
        let now = slug_scan(raw).0;
        let c = raw.last();
        assert forall|i: int| 0 <= i < now.len() - 1 && #[trigger] now[i] == '-' implies now[i + 1] != '-' by {
            if i + 1 < prev.len() {
                assert(now[i] == prev[i] && now[i + 1] == prev[i + 1]);
            } else {
                assert(now[i] == prev[i]);
            }
        }
        if has_alnum(raw) {
            let i = choose|i: int| 0 <= i < raw.len() && is_ascii_alnum(#[trigger] raw[i]);
            if i < prefix.len() {
                assert(prefix[i] == raw[i]);
            }
        }
        if has_alnum(prefix) {
            let i = choose|i: int| 0 <= i < prefix.len() && is_ascii_alnum(#[trigger] prefix[i]);
            assert(raw[i] == prefix[i]);
        }
        if is_ascii_alnum(c) {
            assert(raw[raw.len() - 1] == c);
        }
        if prev.len() > 0 {
            assert(now[0] == prev[0]);
        }
    }
}

/// Cutting a kebab-like text at any point and dropping the dashes the cut leaves at the
/// end gives kebab-case.
proof fn lemma_cut_is_kebab(s: Seq<char>, n: int)
    requires
        s.len() > 0,
        identifier_chars(s),
        s[0] != '-',
        no_double_dash(s),
        0 < n <= s.len(),
    ensures
        is_kebab(strip_trailing_dashes(s.take(n))),
        strip_trailing_dashes(s.take(n)).len() <= n,
{
    let t = s.take(n);
    lemma_strip_is_prefix(t);
    lemma_strip_keeps_first(t);
    let r = strip_trailing_dashes(t);
    assert forall|i: int| 0 <= i < r.len() implies r[i] == #[trigger] s[i] by {
        assert(r[i] == t.take(r.len() as int)[i]);
    }
    assert forall|i: int| 0 <= i < r.len() implies is_identifier_char(#[trigger] r[i]) by {
        assert(r[i] == s[i]);
    }
    assert forall|i: int| 0 <= i < r.len() - 1 && #[trigger] r[i] == '-' implies r[i + 1] != '-' by {
        assert(r[i] == s[i] && r[i + 1] == s[i + 1]);
    }
}

/// Dropping the trailing dashes of a text that does not start with one leaves its first
/// character and no dash at the end.
proof fn lemma_strip_keeps_first(s: Seq<char>)
    requires
        s.len() > 0,
        s[0] != '-',
    ensures
        strip_trailing_dashes(s).len() > 0,
        strip_trailing_dashes(s)[0] == s[0],
        strip_trailing_dashes(s).last() != '-',
    decreases s.len(),
{
    if s.last() == '-' {
        assert(s.len() > 1);
        assert(s.drop_last()[0] == s[0]);
        lemma_strip_keeps_first(s.drop_last());
    }
}

/// The slug of a text that holds a letter or a digit is kebab-case.
proof fn lemma_slug_is_kebab(raw: Seq<char>)
    requires
        has_alnum(raw),
    ensures
        is_kebab(spec_slug(raw)),
{
    lemma_slug_scan_shape(raw);
    lemma_slug_scan_chars(raw);
    let kept = slug_scan(raw).0;
    assert(kept.take(kept.len() as int) =~= kept);
    lemma_cut_is_kebab(kept, kept.len() as int);
}

/// A kebab-case text, a dash and a non-empty run of segment characters make kebab-case.
proof fn lemma_kebab_join(a: Seq<char>, d: Seq<char>)
    requires
        is_kebab(a),
        d.len() > 0,
        segment_chars(d),
    ensures
        is_kebab(a.push('-') + d),
{
    let r = a.push('-') + d;
    let n = a.len() as int;
    assert forall|i: int| 0 <= i < r.len() implies (i < n ==> #[trigger] r[i] == a[i])
        && (i == n ==> r[i] == '-') && (i > n ==> r[i] == d[i - n - 1]) by {
        if i <= n {
            assert(r[i] == a.push('-')[i]);
        }
    }
    assert forall|i: int| 0 <= i < r.len() implies is_identifier_char(#[trigger] r[i]) by {
        if i > n {
            assert(is_segment_char(d[i - n - 1]));
        }
    }
    assert forall|i: int| 0 <= i < r.len() - 1 && #[trigger] r[i] == '-' implies r[i + 1] != '-' by {
        if i + 1 > n {
            assert(is_segment_char(d[i - n]));
        }
    }
    assert(is_segment_char(d[d.len() - 1]));
    assert(r.last() == r[r.len() - 1]);
}

/// A deterministic discriminator over the original text.
fn discriminator(raw: &str) -> (res: String)
    ensures
        res@ == spec_discriminator(raw@),
        res@.len() == DISCRIMINATOR,
        segment_chars(res@),
        identifier_chars(res@),
{
    let digest = sha256(raw.as_bytes());
    let spelled = hex_lower(digest.as_slice());
    proof {
        lemma_hex_len(digest@);
        lemma_hex_chars(digest@);
    }
    let mut chars = chars_of(spelled.as_str());
    chars.truncate(DISCRIMINATOR);
    let res = text_from_chars(chars.as_slice());
    assert forall|i: int| 0 <= i < res@.len() implies is_identifier_char(#[trigger] res@[i]) by {
        assert(is_segment_char(res@[i]));
    }
    res
}

/// Extends a slug that is too short to be an identifier.
fn pad(slug: Vec<char>) -> (res: String)
    requires
        identifier_chars(slug@),
    ensures
        res@ == spec_pad(slug@),
        IDENTIFIER_MINIMUM <= res@.len(),
        slug@.len() <= IDENTIFIER_LIMIT ==> res@.len() <= IDENTIFIER_LIMIT,
        identifier_chars(res@),
        is_kebab(slug@) ==> is_kebab(res@),
{
    let mut text = text_from_chars(slug.as_slice());
    if slug.len() >= IDENTIFIER_MINIMUM {
        return text;
    }
    let digest = discriminator(text.as_str());
    push_char(&mut text, '-');
    push_str(&mut text, digest.as_str());
    proof {
        if is_kebab(slug@) {
            lemma_kebab_join(slug@, digest@);
        }
    }
    text
}

/// Normalises an internal identifier to the schema's grammar: the result holds only
/// lowercase letters, digits and dashes, its length is within the schema's bounds, and
/// when the name holds a letter or a digit it is lowercase kebab-case.
pub fn identifier(raw: &str) -> (res: String)
    ensures
        res@ == spec_identifier(raw@),
        IDENTIFIER_MINIMUM <= res@.len() <= IDENTIFIER_LIMIT,
        identifier_chars(res@),
        has_alnum(raw@) ==> is_kebab(res@),
{
    let mut slug = slugify(raw);
    proof {
        lemma_slug_chars(raw@);
        if has_alnum(raw@) {
            lemma_slug_is_kebab(raw@);
        }
    }
    if slug.len() <= IDENTIFIER_LIMIT {
        return pad(slug);
    }
    let ghost whole = slug@;
    slug.truncate(IDENTIFIER_LIMIT - DISCRIMINATOR - 1);
    while slug.len() > 0 && slug[slug.len() - 1] == '-'
        invariant
            strip_trailing_dashes(slug@) == spec_cut(whole),
        decreases slug@.len(),
    {
        let ghost before = slug@;
        slug.pop();
        proof { assert(slug@ =~= before.drop_last()); }
    }
    proof {
        lemma_slug_scan_shape(raw@);
        lemma_strip_is_prefix(slug_scan(raw@).0);
        assert(has_alnum(raw@));
        lemma_slug_is_kebab(raw@);
        lemma_cut_is_kebab(whole, (IDENTIFIER_LIMIT - DISCRIMINATOR - 1) as int);
        assert(slug@ == spec_cut(whole));
    }
    let mut truncated = text_from_chars(slug.as_slice());
    push_char(&mut truncated, '-');
    let digest = discriminator(raw);
    push_str(&mut truncated, digest.as_str());
    proof {
        lemma_kebab_join(spec_cut(whole), digest@);
        assert(truncated@ =~= spec_cut(whole).push('-') + digest@);
    }
    truncated
}

} // verus!
