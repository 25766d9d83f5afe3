//! Exact integers, written as strings.
//!
//! A token amount is an `i128`, which does not survive a round trip through a
//! double-precision float. So every quantity in the format is a string, converted to
//! an integer once, when the document is read, and only when it is exactly a
//! canonical decimal integer: `0`, or an optional minus followed by digits with no
//! leading zero. `-0` is refused, because two spellings of one value would let two
//! vectors differ textually while asserting the same thing.
use vstd::prelude::*;

use crate::spec_version::{all_digits, digits_value, is_digit};
use crate::text::{chars_of, debug_text, decimal_of, digit_char, owned, push_str, quoted, spec_decimal, spec_signed_decimal};

verus! {

/// An exact integer, read from the string form the format requires.
#[derive(Debug, Clone, Copy, PartialEq, Eq, PartialOrd, Ord, Structural)]
pub struct IntegerString(pub i128);

impl IntegerString {
    /// One holding `value`.
    pub fn new(value: i128) -> (res: Self)
        ensures
            res.0 == value,
    {
        IntegerString(value)
    }

    /// The value.
    pub fn get(self) -> (res: i128)
        ensures
            res == self.0,
    {
        self.0
    }

    /// The value as `Display` writes it.
    pub fn to_text(self) -> (res: String)
        ensures
            res@ == spec_signed_decimal(self.0 as int),
    {
        integer_text(self.0)
    }
}

/// The decimal spelling of `n`: a minus sign for a negative value, then the digits of
/// its magnitude.
fn integer_text(n: i128) -> (res: String)
    ensures
        res@ == spec_signed_decimal(n as int),
{
    if n < 0 {
        let below: i128 = -(n + 1);
        let magnitude: u128 = (below as u128) + 1;
        decimal_of(true, magnitude)
    } else {
        decimal_of(false, n as u128)
    }
}

/// Whether a text starts with a minus sign.
pub open spec fn negative(text: Seq<char>) -> bool {
    text.len() > 0 && text[0] == '-'
}

/// The text after an optional leading minus sign.
pub open spec fn magnitude_digits(text: Seq<char>) -> Seq<char> {
    if negative(text) { text.drop_first() } else { text }
}

/// Whether `text` is exactly `0`, or an optional minus followed by a canonical decimal
/// with no leading zero.
pub open spec fn spec_is_canonical(text: Seq<char>) -> bool {
    let d = magnitude_digits(text);
    &&& d.len() > 0
    &&& all_digits(d)
    &&& if negative(text) { d[0] != '0' } else { d == seq!['0'] || d[0] != '0' }
}

/// The value a canonical text spells.
pub open spec fn canonical_value(text: Seq<char>) -> int {
    if negative(text) { -(digits_value(magnitude_digits(text)) as int) } else { digits_value(magnitude_digits(text)) as int }
}

/// Whether a value fits in an `i128`.
pub open spec fn fits_i128(v: int) -> bool {
    i128::MIN <= v && v <= i128::MAX
}

/// Decides whether `text` is a canonical decimal integer.
pub fn is_canonical_integer(text: &str) -> (res: bool)
    ensures
        res == spec_is_canonical(text@),
{
    let chars = chars_of(text);
    let neg = chars.len() > 0 && chars[0] == '-';
    let start: usize = if neg { 1 } else { 0 };
    proof { assert(magnitude_digits(text@) =~= chars@.skip(start as int)); }
    if start >= chars.len() {
        return false;
    }
    let mut i: usize = start;
    while i < chars.len()
        invariant
            chars@ == text@,
            start <= i <= chars@.len(),
            magnitude_digits(text@) == chars@.skip(start as int),
            forall|j: int| start <= j < i ==> is_digit(#[trigger] chars@[j]),
        decreases chars@.len() - i,
    {
        if !('0' <= chars[i] && chars[i] <= '9') {
            proof { assert(!is_digit(magnitude_digits(text@)[i - start])); }
            return false;
        }
        i = i + 1;
    }
    proof {
        assert forall|j: int| 0 <= j < magnitude_digits(text@).len() implies is_digit(#[trigger] magnitude_digits(text@)[j]) by {
            assert(magnitude_digits(text@)[j] == chars@[j + start]);
        }
    }
    if neg {
        chars[1] != '0'
    } else {
        proof {
            if chars@.len() == 1 && chars@[0] == '0' {
                assert(magnitude_digits(text@) =~= seq!['0']);
            }
        }
        (chars.len() == 1 && chars[0] == '0') || chars[0] != '0'
    }
}

/// The refusal of a text that is not a canonical decimal integer.
pub open spec fn non_canonical_message(text: Seq<char>) -> Seq<char> {
    debug_text(text) + " is not a canonical decimal integer; the format is 0 or an optional minus followed by digits with no leading zero"@
}

/// The refusal of a canonical integer outside the range of an `i128`.
pub open spec fn out_of_range_message(text: Seq<char>) -> Seq<char> {
    debug_text(text) + " is outside the range of a signed 128-bit integer"@
}

/// The magnitude of the value a run of digits spells, capped just above what an
/// `i128` can hold.
fn capped_magnitude(chars: &Vec<char>, start: usize) -> (res: u128)
    requires
        start <= chars@.len(),
        forall|j: int| start <= j < chars@.len() ==> is_digit(#[trigger] chars@[j]),
    ensures
        res == if digits_value(chars@.skip(start as int)) < 0x8000_0000_0000_0000_0000_0000_0000_0001u128 {
            digits_value(chars@.skip(start as int))
        } else {
            0x8000_0000_0000_0000_0000_0000_0000_0001u128 as nat
        },
{
    let cap: u128 = 0x8000_0000_0000_0000_0000_0000_0000_0001u128;
    let ghost d = chars@.skip(start as int);
    let mut acc: u128 = 0;
    let mut i: usize = start;
    while i < chars.len()
        invariant
            d == chars@.skip(start as int),
            start <= i <= chars@.len(),
            forall|j: int| start <= j < chars@.len() ==> is_digit(#[trigger] chars@[j]),
            cap == 0x8000_0000_0000_0000_0000_0000_0000_0001u128,
            acc <= cap,
            acc == if digits_value(d.take(i - start)) < cap { digits_value(d.take(i - start)) } else { cap as nat },
        decreases chars@.len() - i,
    {
        let c = chars[i];
        proof {
            assert(is_digit(chars@[i as int]));
            assert(d.take(i - start + 1).drop_last() =~= d.take(i - start));
            assert(d.take(i - start + 1).last() == c);
        }
        let digit = (c as u128) - ('0' as u128);
        if acc > cap / 10 {
            acc = cap;
            proof {
                assert(digits_value(d.take(i - start)) >= cap / 10 + 1);
                assert(digits_value(d.take(i - start + 1)) >= cap);
            }
        } else {
            let next = acc * 10 + digit;
            acc = if next < cap { next } else { cap };
        }
        i = i + 1;
    }
    proof { assert(d.take(i - start) =~= d); }
    acc
}

impl IntegerString {
    /// Reads an exact integer from the string a document wrote: refused unless it is a
    /// canonical decimal integer within the range of an `i128`.
    pub fn from_text(text: &str) -> (res: Result<Self, String>)
        ensures
            !spec_is_canonical(text@) ==> (res matches Err(m) && m@ == non_canonical_message(text@)),
            spec_is_canonical(text@) && !fits_i128(canonical_value(text@)) ==> (res matches Err(m) && m@ == out_of_range_message(text@)),
            spec_is_canonical(text@) && fits_i128(canonical_value(text@)) ==> (res matches Ok(v) && v.0 == canonical_value(text@)),
    {
        if !is_canonical_integer(text) {
            let mut message = quoted(text);
            push_str(&mut message, " is not a canonical decimal integer; the format is 0 or an optional minus followed by digits with no leading zero");
            return Err(message);
        }
        let chars = chars_of(text);
        let neg = chars[0] == '-';
        let start: usize = if neg { 1 } else { 0 };
        proof {
            assert(magnitude_digits(text@) =~= chars@.skip(start as int));
            assert forall|j: int| start <= j < chars@.len() implies is_digit(#[trigger] chars@[j]) by {
                assert(chars@[j] == magnitude_digits(text@)[j - start]);
            }
        }
        let magnitude = capped_magnitude(&chars, start);
        let limit: u128 = 0x8000_0000_0000_0000_0000_0000_0000_0000u128;
        if neg && magnitude <= limit {
            let value: i128 = if magnitude == limit { i128::MIN } else { -(magnitude as i128) };
            return Ok(IntegerString(value));
        }
        if !neg && magnitude < limit {
            return Ok(IntegerString(magnitude as i128));
        }
        let mut message = quoted(text);
        push_str(&mut message, " is outside the range of a signed 128-bit integer");
        Err(message)
    }
}

proof fn lemma_digit_char(n: nat)
    requires
        n < 10,
    ensures
        is_digit(digit_char(n)),
        digit_char(n) != '-',
        (digit_char(n) as nat) - ('0' as nat) == n,
        (digit_char(n) == '0') == (n == 0),
{
}

proof fn lemma_char_digit(c: char)
    requires
        is_digit(c),
    ensures
        digit_char(((c as nat) - ('0' as nat)) as nat) == c,
{
}

/// A decimal spelling is digits, without a leading zero unless it is `0`, and reads
/// back as the number it spells.
proof fn lemma_decimal_reads_back(n: nat)
    ensures
        spec_decimal(n).len() > 0,
        all_digits(spec_decimal(n)),
        n == 0 ==> spec_decimal(n) == seq!['0'],
        n != 0 ==> spec_decimal(n)[0] != '0',
        digits_value(spec_decimal(n)) == n,
    decreases n,
{
    lemma_digit_char(n % 10);
    if n < 10 {
        let d = spec_decimal(n);
        assert(d.drop_last() =~= seq![]);
        assert(digits_value(d.drop_last()) == 0);
        assert(d.last() == digit_char(n));
        assert(digits_value(d) == n);
    } else {
        lemma_decimal_reads_back(n / 10);
        let d = spec_decimal(n);
        let p = spec_decimal(n / 10);
        assert(d.drop_last() =~= p);
        assert(d[0] == p[0]);
        assert forall|i: int| 0 <= i < d.len() implies is_digit(#[trigger] d[i]) by {
            if i < p.len() {
                assert(d[i] == p[i]);
            }
        }
        assert(n == (n / 10) * 10 + n % 10);
        assert(d.last() == digit_char(n % 10));
        assert(digits_value(d) == digits_value(p) * 10 + n % 10);
    }
}

/// Digits with a first digit other than zero spell at least one.
proof fn lemma_leading_digit_positive(d: Seq<char>)
    requires
        d.len() > 0,
        all_digits(d),
        d[0] != '0',
    ensures
        digits_value(d) >= 1,
    decreases d.len(),
{
    if d.len() > 1 {
        let p = d.drop_last();
        assert(p[0] == d[0]);
        assert forall|i: int| 0 <= i < p.len() implies is_digit(#[trigger] p[i]) by {
            assert(p[i] == d[i]);
        }
        lemma_leading_digit_positive(p);
    }
}

/// Digits without a leading zero, or a lone `0`, are the decimal spelling of the number
/// they spell.
proof fn lemma_digits_are_the_spelling(d: Seq<char>)
    requires
        d.len() > 0,
        all_digits(d),
        d == seq!['0'] || d[0] != '0',
    ensures
        spec_decimal(digits_value(d)) == d,
    decreases d.len(),
{
    let c = d.last();
    assert(is_digit(d[d.len() - 1]));
    let k = ((c as nat) - ('0' as nat)) as nat;
    lemma_char_digit(c);
    if d.len() == 1 {
        assert(d.drop_last() =~= seq![]);
        assert(digits_value(d.drop_last()) == 0);
        assert(digits_value(d) == k);
        assert(spec_decimal(k) =~= d);
    } else {
        let p = d.drop_last();
        assert(p[0] == d[0]);
        assert(d[0] != '0') by {
            if d == seq!['0'] {
                assert(d.len() == 1);
            }
        }
        assert forall|i: int| 0 <= i < p.len() implies is_digit(#[trigger] p[i]) by {
            assert(p[i] == d[i]);
        }
        lemma_leading_digit_positive(p);
        lemma_digits_are_the_spelling(p);
        let v = digits_value(d);
        assert(v == digits_value(p) * 10 + k);
        assert(v / 10 == digits_value(p) && v % 10 == k) by (nonlinear_arith)
            requires v == digits_value(p) * 10 + k, k < 10;
        assert(spec_decimal(v) =~= d);
    }
}

/// Every value has exactly one accepted spelling, its decimal rendering: the rendering
/// of a value is accepted and reads as that value, and an accepted text is the
/// rendering of the value it reads as.
pub proof fn law_one_spelling_per_value(value: int, text: Seq<char>)
    ensures
        spec_is_canonical(spec_signed_decimal(value)),
        canonical_value(spec_signed_decimal(value)) == value,
        spec_is_canonical(text) ==> spec_signed_decimal(canonical_value(text)) == text,
{
    if value < 0 {
        let m = (-value) as nat;
        lemma_decimal_reads_back(m);
        let t = spec_signed_decimal(value);
        assert(t[0] == '-');
        assert(magnitude_digits(t) =~= spec_decimal(m));
    } else {
        let m = value as nat;
        lemma_decimal_reads_back(m);
        let t = spec_signed_decimal(value);
        assert(is_digit(t[0]));
        assert(magnitude_digits(t) == t);
    }
    if spec_is_canonical(text) {
        let d = magnitude_digits(text);
        lemma_digits_are_the_spelling(d);
        if negative(text) {
            lemma_leading_digit_positive(d);
            assert(seq!['-'] + d =~= text);
        } else {
            assert(d == text);
        }
    }
}

} // verus!
