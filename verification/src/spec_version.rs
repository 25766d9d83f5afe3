//! The specification format version a profile declares.
//!
//! A profile names the version of the Estamora format it is written against. The
//! runner implements one version, and what it must refuse is a profile it might
//! misread: one of another major version, whose shape differs, or a newer minor
//! version, whose requirements it might silently fail to enforce. An older minor
//! version is still executable.
use vstd::prelude::*;

use crate::sanitise::{trim_chars, trim_end, trim_start};
use crate::taxonomy::{ErrorClass, Failure, context_view};
use crate::text::{chars_of, debug_text, decimal_text, owned, push_str, quoted, spec_decimal};

verus! {

/// The format version this runner implements.
pub const SUPPORTED_SPEC_VERSION: &'static str = "1.0";

/// A `MAJOR.MINOR` format version.
#[derive(Debug, Clone, Copy, PartialEq, Eq, Structural)]
pub struct SpecVersion {
    major: u32,
    minor: u32,
}

/// Whether a character is an ASCII decimal digit.
pub open spec fn is_digit(c: char) -> bool {
    '0' <= c && c <= '9'
}

/// The value of a run of decimal digits.
pub open spec fn digits_value(d: Seq<char>) -> nat
    decreases d.len(),
{
    if d.len() == 0 {
        0
    } else {
        digits_value(d.drop_last()) * 10 + ((d.last() as nat) - ('0' as nat)) as nat
    }
}

/// What `u32::from_str` reads from a text: an optional `+` followed by at least one
/// digit, whose value fits in 32 bits; anything else is refused.
pub open spec fn spec_parse_u32(s: Seq<char>) -> Option<u32> {
    let d = unsigned_digits(s);
    if d.len() > 0 && all_digits(d) && digits_value(d) <= u32::MAX {
        Some(digits_value(d) as u32)
    } else {
        None
    }
}

/// The text after an optional leading `+`.
pub open spec fn unsigned_digits(s: Seq<char>) -> Seq<char> {
    if s.len() > 0 && s[0] == '+' { s.drop_first() } else { s }
}

/// Whether every character is a decimal digit.
pub open spec fn all_digits(d: Seq<char>) -> bool {
    forall|i: int| 0 <= i < d.len() ==> is_digit(#[trigger] d[i])
}

/// The position of the first `c` in `s`, where there is one.
pub open spec fn first_index_of(s: Seq<char>, c: char) -> Option<int> {
    if exists|k: int| 0 <= k < s.len() && s[k] == c {
        Some(choose|k: int| 0 <= k < s.len() && s[k] == c && forall|j: int| 0 <= j < k ==> s[j] != c)
    } else {
        None
    }
}

proof fn lemma_first_index(s: Seq<char>, c: char, k: int)
    requires
        0 <= k < s.len(),
        s[k] == c,
        forall|j: int| 0 <= j < k ==> s[j] != c,
    ensures
        first_index_of(s, c) == Some(k),
{
    let w = choose|w: int| 0 <= w < s.len() && s[w] == c && forall|j: int| 0 <= j < w ==> s[j] != c;
    assert(0 <= k < s.len() && s[k] == c && forall|j: int| 0 <= j < k ==> s[j] != c);
    if w < k {
        assert(s[w] != c);
    } else if w > k {
        assert(s[k] != c);
    }
}

/// The version a text spells: the text up to its first `.` and the text after it,
/// each trimmed and read as a `u32`.
pub open spec fn spec_parse_version(text: Seq<char>) -> Option<(u32, u32)> {
    match first_index_of(text, '.') {
        None => None,
        Some(k) => match (spec_parse_u32(trim_end(trim_start(text.take(k)))), spec_parse_u32(trim_end(trim_start(text.skip(k + 1))))) {
            (Some(major), Some(minor)) => Some((major, minor)),
            _ => None,
        },
    }
}

/// The refusal of a text that is not `MAJOR.MINOR`.
pub open spec fn malformed_message(text: Seq<char>) -> Seq<char> {
    "estamora_spec_version must be MAJOR.MINOR, found "@ + debug_text(text) + " (the runner implements 1.0)"@
}

/// The characters between `start` and `end`.
fn slice_chars(chars: &Vec<char>, start: usize, end: usize) -> (res: Vec<char>)
    requires
        start <= end <= chars@.len(),
    ensures
        res@ == chars@.subrange(start as int, end as int),
{
    let mut out: Vec<char> = Vec::new();
    let mut k: usize = start;
    while k < end
        invariant
            start <= k <= end <= chars@.len(),
            out@ == chars@.subrange(start as int, k as int),
        decreases end - k,
    {
        out.push(chars[k]);
        proof { assert(out@ =~= chars@.subrange(start as int, k as int + 1)); }
        k = k + 1;
    }
    out
}

/// Reads a `u32` as `u32::from_str` does.
pub fn parse_u32(s: &Vec<char>) -> (res: Option<u32>)
    ensures
        res == spec_parse_u32(s@),
{
    let ghost d = unsigned_digits(s@);
    let start: usize = if s.len() > 0 && s[0] == '+' { 1 } else { 0 };
    proof { assert(d =~= s@.skip(start as int)); }
    if start >= s.len() {
        return None;
    }
    let cap: u64 = 0x1_0000_0000;
    let mut acc: u64 = 0;
    let mut i: usize = start;
    while i < s.len()
        invariant
            d == s@.skip(start as int),
            d == unsigned_digits(s@),
            start < s@.len(),
            start <= i <= s@.len(),
            forall|j: int| 0 <= j < i - start ==> is_digit(#[trigger] d[j]),
            acc <= cap,
            cap == 0x1_0000_0000,
            acc == if digits_value(d.take(i - start)) < cap { digits_value(d.take(i - start)) } else { cap as nat },
        decreases s@.len() - i,
    {
        let c = s[i];
        if !('0' <= c && c <= '9') {
            proof {
                assert(d[i - start] == c);
                assert(!is_digit(d[i - start]));
            }
            return None;
        }
        let digit = (c as u64) - ('0' as u64);
        proof {
            assert(d.take(i - start + 1).drop_last() =~= d.take(i - start));
            assert(d.take(i - start + 1).last() == c);
        }
        let next = acc * 10 + digit;
        acc = if next < cap { next } else { cap };
        i = i + 1;
    }
    proof { assert(d.take(i - start) =~= d); }
    if acc < cap {
        Some(acc as u32)
    } else {
        None
    }
}

impl SpecVersion {
    /// The major version.
    pub closed spec fn spec_major(self) -> u32 {
        self.major
    }

    /// The minor version.
    pub closed spec fn spec_minor(self) -> u32 {
        self.minor
    }

    /// The version this runner implements.
    pub fn supported() -> (res: Self)
        ensures
            res.spec_major() == 1,
            res.spec_minor() == 0,
    {
        SpecVersion { major: 1, minor: 0 }
    }

    /// Reads a `MAJOR.MINOR` version: the text up to the first `.` and the text after
    /// it, each trimmed and read as a `u32`. Any other text is refused as a profile
    /// defect that names what was found.
    pub fn parse(text: &str) -> (res: Result<Self, Failure>)
        ensures
            match spec_parse_version(text@) {
                Some((major, minor)) => res matches Ok(v) && v.spec_major() == major && v.spec_minor() == minor,
                None => res matches Err(f) && f.class == ErrorClass::ProfileError
                    && f.message@ == malformed_message(text@) && f.context@.len() == 0,
            },
    {
        let chars = chars_of(text);
        let mut k: usize = 0;
        while k < chars.len() && chars[k] != '.'
            invariant
                chars@ == text@,
                k <= chars@.len(),
                forall|j: int| 0 <= j < k ==> chars@[j] != '.',
            decreases chars@.len() - k,
        {
            k = k + 1;
        }
        if k >= chars.len() {
            proof { assert(first_index_of(text@, '.') is None); }
            return Err(Self::malformed(text));
        }
        proof {
            lemma_first_index(text@, '.', k as int);
            assert(chars@.subrange(0, k as int) =~= text@.take(k as int));
            assert(chars@.subrange(k as int + 1, chars@.len() as int) =~= text@.skip(k as int + 1));
        }
        let major = parse_u32(&trim_chars(&slice_chars(&chars, 0, k)));
        let minor = parse_u32(&trim_chars(&slice_chars(&chars, k + 1, chars.len())));
        match (major, minor) {
            (Some(major), Some(minor)) => Ok(SpecVersion { major, minor }),
            _ => Err(Self::malformed(text)),
        }
    }

    fn malformed(text: &str) -> (res: Failure)
        ensures
            res.class == ErrorClass::ProfileError,
            res.message@ == malformed_message(text@),
            res.context@.len() == 0,
    {
        let mut message = owned("estamora_spec_version must be MAJOR.MINOR, found ");
        push_str(&mut message, quoted(text).as_str());
        push_str(&mut message, " (the runner implements 1.0)");
        Failure::new(ErrorClass::ProfileError, message)
    }

    /// The major version.
    pub fn major(&self) -> (res: u32)
        ensures
            res == self.spec_major(),
    {
        self.major
    }

    /// The minor version.
    pub fn minor(&self) -> (res: u32)
        ensures
            res == self.spec_minor(),
    {
        self.minor
    }

    /// The version as it is written, `MAJOR.MINOR`.
    pub open spec fn spec_text(self) -> Seq<char> {
        version_text(self.spec_major(), self.spec_minor())
    }

    /// The version as it is written, `MAJOR.MINOR`.
    pub fn to_text(&self) -> (res: String)
        ensures
            res@ == self.spec_text(),
    {
        let mut out = decimal_text(self.major as u64);
        push_str(&mut out, ".");
        push_str(&mut out, decimal_text(self.minor as u64).as_str());
        out
    }
}

/// A version as it is written, `MAJOR.MINOR`.
pub open spec fn version_text(major: u32, minor: u32) -> Seq<char> {
    spec_decimal(major as nat) + "."@ + spec_decimal(minor as nat)
}

/// The refusal of a profile written in another major version.
pub open spec fn major_message(found: Seq<char>) -> Seq<char> {
    "profile declares specification format "@ + found + " but this runner implements "@ + "1.0"@ + "; a major version change means the document shape differs in a way this runner cannot interpret"@
}

/// The refusal of a profile written in a newer minor version.
pub open spec fn newer_message(found: Seq<char>) -> Seq<char> {
    "profile declares specification format "@ + found + ", which is newer than the "@ + "1.0"@ + " this runner implements; the profile may contain requirements this runner cannot enforce, and running it would report a contract as conformant against a corpus that was only partly evaluated"@
}

/// Whether `f` is the refusal [`check`] gives for the declared version `found`, when
/// it refuses it.
pub open spec fn format_refusal(found: Seq<char>, f: Failure) -> bool {
    f.class == ErrorClass::ProfileError && match spec_parse_version(found) {
        None => f.message@ == malformed_message(found),
        Some((major, minor)) => {
            let text = version_text(major, minor);
            if major != 1 {
                f.message@ == major_message(text) && context_view(f.context@) == seq![("found"@, text), ("supported"@, "1.0"@)]
            } else {
                f.message@ == newer_message(text) && context_view(f.context@) == seq![("found"@, text), ("supported"@, "1.0"@)]
            }
        },
    }
}

/// Checks a declared format version against the one this runner implements: a
/// malformed version, another major version or a newer minor version is refused as a
/// profile defect; an equal or older minor version of the same major is accepted.
pub fn check(found: &str) -> (res: Result<SpecVersion, Failure>)
    ensures
        match spec_parse_version(found@) {
            None => res matches Err(f) && f.class == ErrorClass::ProfileError && f.message@ == malformed_message(found@),
            Some((major, minor)) => {
                let text = version_text(major, minor);
                if major != 1 {
                    res matches Err(f) && f.class == ErrorClass::ProfileError && f.message@ == major_message(text)
                        && context_view(f.context@) == seq![("found"@, text), ("supported"@, "1.0"@)]
                } else if minor > 0 {
                    res matches Err(f) && f.class == ErrorClass::ProfileError && f.message@ == newer_message(text)
                        && context_view(f.context@) == seq![("found"@, text), ("supported"@, "1.0"@)]
                } else {
                    res matches Ok(v) && v.spec_major() == major && v.spec_minor() == minor
                }
            },
        },
{
    let found = match SpecVersion::parse(found) {
        Ok(v) => v,
        Err(f) => return Err(f),
    };
    let supported = SpecVersion::supported();
    proof {
        reveal_strlit("1.0");
        reveal_strlit(".");
        assert(spec_decimal(1) =~= seq!['1']);
        assert(spec_decimal(0) =~= seq!['0']);
        assert(supported.spec_text() =~= "1.0"@);
    }
    if found.major() != supported.major() {
        let mut message = owned("profile declares specification format ");
        push_str(&mut message, found.to_text().as_str());
        push_str(&mut message, " but this runner implements ");
        push_str(&mut message, supported.to_text().as_str());
        push_str(&mut message, "; a major version change means the document shape differs in a way this runner cannot interpret");
        proof { assert(message@ =~= major_message(found.spec_text())); }
        let failure = Failure::new(ErrorClass::ProfileError, message)
            .with_context("found", found.to_text())
            .with_context("supported", supported.to_text());
        proof { assert(context_view(failure.context@) =~= seq![("found"@, found.spec_text()), ("supported"@, "1.0"@)]); }
        return Err(failure);
    }
    if found.minor() > supported.minor() {
        let mut message = owned("profile declares specification format ");
        push_str(&mut message, found.to_text().as_str());
        push_str(&mut message, ", which is newer than the ");
        push_str(&mut message, supported.to_text().as_str());
        push_str(&mut message, " this runner implements; the profile may contain requirements this runner cannot enforce, and running it would report a contract as conformant against a corpus that was only partly evaluated");
        proof { assert(message@ =~= newer_message(found.spec_text())); }
        let failure = Failure::new(ErrorClass::ProfileError, message)
            .with_context("found", found.to_text())
            .with_context("supported", supported.to_text());
        proof { assert(context_view(failure.context@) =~= seq![("found"@, found.spec_text()), ("supported"@, "1.0"@)]); }
        return Err(failure);
    }
    Ok(found)
}

} // verus!
