//! Text helpers shared by every module: characters in, characters out.
use vstd::prelude::*;
use vstd::string::*;
use vstd::std_specs::iter::IteratorSpec;

verus! {

/// The characters of `s`, in order.
pub(crate) fn chars_of(s: &str) -> (res: Vec<char>)
    ensures
        res@ == s@,
{
    let mut out: Vec<char> = Vec::new();
    let mut it = s.chars();
    proof { axiom_spec_iter(s); }
    loop
        invariant
            it.obeys_prophetic_iter_laws(),
            out@ + it.remaining() == s@,
        decreases s@.len() - out@.len(),
    {
        let ghost before = it;
        let next = it.next();
        proof { next_postcondition(&before, &it, next); }
        match next {
            Some(c) => {
                proof { assert(out@.push(c) + it.remaining() =~= out@ + before.remaining()); }
                out.push(c);
            },
            None => {
                proof { assert(out@ + it.remaining() =~= out@); }
                return out;
            },
        }
    }
}

/// A string holding exactly `chars`.
///
/// Collects the characters into a `String` through `FromIterator<&char>`; the contract
/// says that the string holds those characters and nothing else.
#[verifier::external_body]
pub(crate) fn text_from_chars(chars: &[char]) -> (res: String)
    ensures
        res@ == chars@,
{
    chars.iter().collect()
}

/// Appends one character.
///
/// Calls `String::push`; the contract says that the string afterwards is the string
/// before with the character added at the end.
#[verifier::external_body]
pub(crate) fn push_char(s: &mut String, c: char)
    ensures
        final(s)@ == old(s)@.push(c),
{
    s.push(c)
}

/// Appends a string slice.
pub(crate) fn push_str(s: &mut String, t: &str)
    ensures
        final(s)@ == old(s)@ + t@,
{
    s.append(t)
}

/// Whether two texts are equal.
pub fn same_text(a: &String, b: &String) -> (res: bool)
    ensures
        res == (a@ == b@),
{
    a.eq(b)
}

/// An owned copy of a string slice.
pub fn owned(s: &str) -> (res: String)
    ensures
        res@ == s@,
{
    s.to_owned()
}

/// Whether two character sequences are equal, element by element.
pub fn chars_eq(a: &[char], b: &[char]) -> (res: bool)
    ensures
        res == (a@ == b@),
{
    if a.len() != b.len() {
        return false;
    }
    let mut i: usize = 0;
    while i < a.len()
        invariant
            a@.len() == b@.len(),
            i <= a@.len(),
            forall|j: int| 0 <= j < i ==> a@[j] == b@[j],
        decreases a@.len() - i,
    {
        if a[i] != b[i] {
            return false;
        }
        i = i + 1;
    }
    assert(a@ =~= b@);
    true
}

/// Whether two byte sequences are equal, element by element.
pub fn bytes_eq(a: &[u8], b: &[u8]) -> (res: bool)
    ensures
        res == (a@ == b@),
{
    if a.len() != b.len() {
        return false;
    }
    let mut i: usize = 0;
    while i < a.len()
        invariant
            a@.len() == b@.len(),
            i <= a@.len(),
            forall|j: int| 0 <= j < i ==> a@[j] == b@[j],
        decreases a@.len() - i,
    {
        if a[i] != b[i] {
            return false;
        }
        i = i + 1;
    }
    assert(a@ =~= b@);
    true
}

/// Whether two string slices hold the same text.
pub fn str_eq(a: &str, b: &str) -> (res: bool)
    ensures
        res == (a@ == b@),
{
    let x = chars_of(a);
    let y = chars_of(b);
    chars_eq(x.as_slice(), y.as_slice())
}

/// Whether `s` begins with `prefix`.
pub open spec fn spec_starts_with(s: Seq<char>, prefix: Seq<char>) -> bool {
    prefix.len() <= s.len() && s.take(prefix.len() as int) == prefix
}

/// Whether `s` finishes with `suffix`.
pub open spec fn spec_ends_with(s: Seq<char>, suffix: Seq<char>) -> bool {
    suffix.len() <= s.len() && s.skip(s.len() - suffix.len()) == suffix
}

/// Whether `needle` occurs somewhere in `hay`.
pub open spec fn occurs_in(needle: Seq<char>, hay: Seq<char>) -> bool {
    exists|i: int| 0 <= i && i + needle.len() <= hay.len() && #[trigger] hay.subrange(i, i + needle.len()) == needle
}

/// Whether `s` begins with `prefix`.
pub fn starts_with(s: &str, prefix: &str) -> (res: bool)
    ensures
        res == spec_starts_with(s@, prefix@),
{
    let a = chars_of(s);
    let b = chars_of(prefix);
    if b.len() > a.len() {
        return false;
    }
    let mut i: usize = 0;
    while i < b.len()
        invariant
            b@.len() <= a@.len(),
            a@ == s@,
            b@ == prefix@,
            i <= b@.len(),
            forall|j: int| 0 <= j < i ==> a@[j] == b@[j],
        decreases b@.len() - i,
    {
        if a[i] != b[i] {
            assert(a@.take(b@.len() as int)[i as int] != b@[i as int]);
            assert(a@.take(b@.len() as int) != b@);
            assert(!spec_starts_with(a@, b@));
            return false;
        }
        i = i + 1;
    }
    assert(a@.take(b@.len() as int) =~= b@);
    true
}

/// Texts written one after another.
pub open spec fn concat_all(parts: Seq<Seq<char>>) -> Seq<char>
    decreases parts.len(),
{
    if parts.len() == 0 {
        seq![]
    } else {
        concat_all(parts.drop_last()) + parts.last()
    }
}

/// The texts of a list of strings.
pub open spec fn texts(list: Seq<String>) -> Seq<Seq<char>> {
    list.map_values(|s: String| s@)
}

/// `parts` joined by `sep`: the parts in order, with `sep` between two neighbours.
pub open spec fn joined(parts: Seq<Seq<char>>, sep: Seq<char>) -> Seq<char>
    decreases parts.len(),
{
    if parts.len() == 0 {
        seq![]
    } else if parts.len() == 1 {
        parts[0]
    } else {
        joined(parts.drop_last(), sep) + sep + parts.last()
    }
}

/// Joins `parts` with `sep` between neighbours.
pub fn join(parts: &Vec<String>, sep: &str) -> (res: String)
    ensures
        res@ == joined(texts(parts@), sep@),
{
    let mut out = String::new();
    let mut i: usize = 0;
    while i < parts.len()
        invariant
            i <= parts@.len(),
            out@ == joined(texts(parts@).take(i as int), sep@),
        decreases parts@.len() - i,
    {
        proof {
            assert(texts(parts@).take(i as int + 1).drop_last() =~= texts(parts@).take(i as int));
            assert(texts(parts@).take(i as int + 1).last() == parts@[i as int]@);
        }
        if i > 0 {
            push_str(&mut out, sep);
        } else {
            assert(texts(parts@).take(1) =~= seq![parts@[0]@]);
        }
        push_str(&mut out, parts[i].as_str());
        i = i + 1;
    }
    proof { assert(texts(parts@).take(parts@.len() as int) =~= texts(parts@)); }
    out
}

/// The decimal digits of a natural number, most significant first, with no leading zero.
pub open spec fn spec_decimal(n: nat) -> Seq<char>
    decreases n,
{
    if n < 10 {
        seq![digit_char(n)]
    } else {
        spec_decimal(n / 10).push(digit_char(n % 10))
    }
}

/// The character of a decimal digit.
pub open spec fn digit_char(d: nat) -> char {
    if d == 0 { '0' } else if d == 1 { '1' } else if d == 2 { '2' } else if d == 3 { '3' }
    else if d == 4 { '4' } else if d == 5 { '5' } else if d == 6 { '6' } else if d == 7 { '7' }
    else if d == 8 { '8' } else { '9' }
}

/// The decimal spelling of a signed integer: a minus sign before a negative one.
pub open spec fn spec_signed_decimal(n: int) -> Seq<char> {
    if n < 0 {
        seq!['-'] + spec_decimal((-n) as nat)
    } else {
        spec_decimal(n as nat)
    }
}

/// The character of a decimal digit.
fn digit(d: u128) -> (res: char)
    requires
        d < 10,
    ensures
        res == digit_char(d as nat),
{
    if d == 0 { '0' } else if d == 1 { '1' } else if d == 2 { '2' } else if d == 3 { '3' }
    else if d == 4 { '4' } else if d == 5 { '5' } else if d == 6 { '6' } else if d == 7 { '7' }
    else if d == 8 { '8' } else { '9' }
}

/// Appends the decimal digits of `n`, most significant first.
fn push_decimal(out: &mut Vec<char>, n: u128)
    ensures
        final(out)@ == old(out)@ + spec_decimal(n as nat),
    decreases n,
{
    if n >= 10 {
        push_decimal(out, n / 10);
    }
    out.push(digit(n % 10));
    proof {
        if n >= 10 {
            assert(old(out)@ + spec_decimal((n / 10) as nat) + seq![digit_char((n % 10) as nat)]
                =~= old(out)@ + spec_decimal(n as nat));
        } else {
            assert(spec_decimal(n as nat) =~= seq![digit_char(n as nat)]);
        }
    }
}

/// The decimal spelling of a magnitude, after a minus sign when `negative`.
pub(crate) fn decimal_of(negative: bool, magnitude: u128) -> (res: String)
    ensures
        res@ == if negative { seq!['-'] + spec_decimal(magnitude as nat) } else { spec_decimal(magnitude as nat) },
{
    let mut chars: Vec<char> = Vec::new();
    if negative {
        chars.push('-');
    }
    push_decimal(&mut chars, magnitude);
    proof {
        if negative {
            assert(chars@ =~= seq!['-'] + spec_decimal(magnitude as nat));
        } else {
            assert(chars@ =~= spec_decimal(magnitude as nat));
        }
    }
    text_from_chars(chars.as_slice())
}

/// The decimal spelling of `n`: its digits, with no sign and no leading zero.
pub(crate) fn decimal_text(n: u64) -> (res: String)
    ensures
        res@ == spec_decimal(n as nat),
{
    decimal_of(false, n as u128)
}

/// The decimal spelling of `n`: a minus sign for a negative value, then the digits of
/// its magnitude.
pub(crate) fn signed_decimal_text(n: i64) -> (res: String)
    ensures
        res@ == spec_signed_decimal(n as int),
{
    if n < 0 {
        let magnitude: u128 = (-(n as i128)) as u128;
        decimal_of(true, magnitude)
    } else {
        decimal_of(false, n as u128)
    }
}

/// What `Debug` writes for a text: the text quoted, with its special characters escaped.
pub uninterp spec fn debug_text(text: Seq<char>) -> Seq<char>;

/// The text as `Debug` writes it, quoted and escaped, as messages name a value.
///
/// Calls `format!` with `{:?}`. What the escaping does to each character is not a few
/// lines, so the result is named by [`debug_text`], a function of the text alone;
/// nothing more is claimed of it.
#[verifier::external_body]
pub(crate) fn quoted(text: &str) -> (res: String)
    ensures
        res@ == debug_text(text@),
{
    format!("{text:?}")
}

/// Whether `a` sorts strictly before `b`: character by character, a proper prefix
/// first, as `Ord` compares two strings.
pub open spec fn text_lt(a: Seq<char>, b: Seq<char>) -> bool
    decreases a.len(),
{
    if a.len() == 0 {
        b.len() > 0
    } else if b.len() == 0 {
        false
    } else if a[0] == b[0] {
        text_lt(a.drop_first(), b.drop_first())
    } else {
        a[0] < b[0]
    }
}

/// The order on texts is irreflexive, transitive and total.
pub proof fn lemma_text_order(a: Seq<char>, b: Seq<char>, c: Seq<char>)
    ensures
        !text_lt(a, a),
        text_lt(a, b) && text_lt(b, c) ==> text_lt(a, c),
        a != b ==> (text_lt(a, b) || text_lt(b, a)),
        text_lt(a, b) ==> !text_lt(b, a),
    decreases a.len(),
{
    if a.len() > 0 && b.len() > 0 && c.len() > 0 {
        lemma_text_order(a.drop_first(), b.drop_first(), c.drop_first());
    }
    if a.len() > 0 && b.len() > 0 {
        lemma_text_order(a.drop_first(), b.drop_first(), b.drop_first());
        if a != b && a[0] == b[0] {
            assert(a =~= seq![a[0]] + a.drop_first());
            assert(b =~= seq![b[0]] + b.drop_first());
        }
    }
    if a.len() > 0 {
        lemma_text_order(a.drop_first(), a.drop_first(), a.drop_first());
    }
    if a.len() == 0 && b.len() == 0 {
        assert(a =~= b);
    }
}

/// Whether `a` sorts strictly before `b`.
pub fn text_less(a: &str, b: &str) -> (res: bool)
    ensures
        res == text_lt(a@, b@),
{
    let x = chars_of(a);
    let y = chars_of(b);
    let mut i: usize = 0;
    proof {
        assert(x@.skip(0) =~= x@);
        assert(y@.skip(0) =~= y@);
    }
    while i < x.len() && i < y.len()
        invariant
            x@ == a@,
            y@ == b@,
            i <= x@.len(),
            i <= y@.len(),
            x@.take(i as int) == y@.take(i as int),
            text_lt(x@, y@) == text_lt(x@.skip(i as int), y@.skip(i as int)),
        decreases x@.len() - i,
    {
        proof {
            assert(x@.skip(i as int).drop_first() =~= x@.skip(i as int + 1));
            assert(y@.skip(i as int).drop_first() =~= y@.skip(i as int + 1));
        }
        proof {
            assert(x@.skip(i as int)[0] == x@[i as int]);
            assert(y@.skip(i as int)[0] == y@[i as int]);
        }
        if x[i] != y[i] {
            let less = x[i] < y[i];
            return less;
        }
        proof {
            assert(x@.take(i as int + 1) =~= x@.take(i as int).push(x@[i as int]));
            assert(y@.take(i as int + 1) =~= y@.take(i as int).push(y@[i as int]));
        }
        i = i + 1;
    }
    proof {
        assert(x@.skip(i as int).len() == x@.len() - i);
        assert(y@.skip(i as int).len() == y@.len() - i);
    }
    i < y.len()
}

/// Whether `list` is in strictly increasing order, so that no text occurs twice.
pub open spec fn sorted_distinct(list: Seq<Seq<char>>) -> bool {
    forall|i: int, j: int| 0 <= i < j < list.len() ==> text_lt(#[trigger] list[i], #[trigger] list[j])
}

/// Whether `list` holds the text `t`.
pub fn contains_text(list: &Vec<String>, t: &str) -> (res: bool)
    ensures
        res == texts(list@).contains(t@),
{
    let mut i: usize = 0;
    while i < list.len()
        invariant
            i <= list@.len(),
            forall|j: int| 0 <= j < i ==> list@[j]@ != t@,
        decreases list@.len() - i,
    {
        if str_eq(list[i].as_str(), t) {
            proof { assert(texts(list@)[i as int] == t@); }
            return true;
        }
        i = i + 1;
    }
    proof {
        if texts(list@).contains(t@) {
            let k = choose|k: int| 0 <= k < texts(list@).len() && texts(list@)[k] == t@;
            assert(list@[k]@ == t@);
        }
    }
    false
}

/// Adds `t` to a sorted list of distinct texts, keeping it sorted and distinct.
pub fn insert_sorted(list: &mut Vec<String>, t: &str)
    requires
        sorted_distinct(texts(old(list)@)),
    ensures
        sorted_distinct(texts(final(list)@)),
        texts(final(list)@).to_set() == texts(old(list)@).to_set().insert(t@),
{
    let ghost before = texts(list@);
    let mut i: usize = 0;
    loop
        invariant
            texts(list@) == before,
            sorted_distinct(before),
            i <= list@.len(),
            forall|j: int| 0 <= j < i ==> text_lt(#[trigger] before[j], t@),
        ensures
            texts(list@) == before,
            i <= list@.len(),
            forall|j: int| 0 <= j < i ==> text_lt(#[trigger] before[j], t@),
            i == list@.len() || !text_lt(before[i as int], t@),
        decreases list@.len() - i,
    {
        if i >= list.len() {
            break;
        }
        if !text_less(list[i].as_str(), t) {
            break;
        }
        i = i + 1;
    }
    proof { lemma_text_order(t@, t@, t@); }
    if i < list.len() && str_eq(list[i].as_str(), t) {
        proof {
            assert(before[i as int] == t@);
            assert(before.to_set().contains(t@));
            assert(before.to_set().insert(t@) =~= before.to_set());
        }
        return;
    }
    list.insert(i, owned(t));
    proof {
        let after = texts(list@);
        assert(after =~= before.insert(i as int, t@));
        if i < before.len() {
            lemma_text_order(t@, before[i as int], t@);
            lemma_text_order(before[i as int], t@, t@);
            assert(before[i as int] != t@);
            assert(text_lt(t@, before[i as int]));
        }
        assert forall|a: int, b: int| 0 <= a < b < after.len() implies text_lt(#[trigger] after[a], #[trigger] after[b]) by {
            if b < i {
                assert(after[a] == before[a]);
                assert(after[b] == before[b]);
            } else if a < i && b == i {
                assert(after[a] == before[a]);
            } else if a < i && b > i {
                assert(after[a] == before[a]);
                assert(after[b] == before[b - 1]);
            } else if a == i && b > i {
                assert(after[b] == before[b - 1]);
                if b - 1 > i {
                    assert(text_lt(before[i as int], before[b - 1]));
                    lemma_text_order(t@, before[i as int], before[b - 1]);
                }
            } else {
                assert(after[a] == before[a - 1]);
                assert(after[b] == before[b - 1]);
            }
        }
        assert(after.to_set() =~= before.to_set().insert(t@)) by {
            assert forall|x: Seq<char>| after.to_set().contains(x) implies before.to_set().insert(t@).contains(x) by {
                let k = choose|k: int| 0 <= k < after.len() && after[k] == x;
                if k < i { assert(before[k] == x); } else if k > i { assert(before[k - 1] == x); }
            }
            assert forall|x: Seq<char>| before.to_set().insert(t@).contains(x) implies after.to_set().contains(x) by {
                if x == t@ {
                    assert(after[i as int] == x);
                } else {
                    let k = choose|k: int| 0 <= k < before.len() && before[k] == x;
                    if k < i { assert(after[k] == x); } else { assert(after[k + 1] == x); }
                }
            }
        }
    }
}

/// The texts of a finite set, in increasing order.
pub open spec fn sorted_texts(set: Set<Seq<char>>) -> Seq<Seq<char>> {
    choose|s: Seq<Seq<char>>| sorted_distinct(s) && s.to_set() == set
}

/// A finite set of texts has exactly one increasing listing.
pub proof fn lemma_sorted_unique(a: Seq<Seq<char>>, b: Seq<Seq<char>>)
    requires
        sorted_distinct(a),
        sorted_distinct(b),
        a.to_set() == b.to_set(),
    ensures
        a == b,
    decreases a.len(),
{
    if a.len() == 0 {
        if b.len() > 0 {
            assert(b.to_set().contains(b[0]));
            assert(a.to_set().contains(b[0]));
        }
        assert(a =~= b);
        return;
    }
    if b.len() == 0 {
        assert(a.to_set().contains(a[0]));
        assert(b.to_set().contains(a[0]));
        return;
    }
    // Both start with the least element of the set.
    assert(b.to_set().contains(a[0]));
    let j = choose|j: int| 0 <= j < b.len() && b[j] == a[0];
    assert(a.to_set().contains(b[0]));
    let k = choose|k: int| 0 <= k < a.len() && a[k] == b[0];
    if j > 0 {
        assert(text_lt(b[0], b[j]));
        if k > 0 {
            assert(text_lt(a[0], a[k]));
            lemma_text_order(b[0], a[0], b[0]);
        } else {
            lemma_text_order(b[0], b[0], b[0]);
        }
    }
    assert(a[0] == b[0]) by {
        if j > 0 {
            lemma_text_order(a[0], b[0], a[0]);
        }
    }
    let ta = a.drop_first();
    let tb = b.drop_first();
    assert(sorted_distinct(ta)) by {
        assert forall|x: int, y: int| 0 <= x < y < ta.len() implies text_lt(#[trigger] ta[x], #[trigger] ta[y]) by {
            assert(ta[x] == a[x + 1]);
            assert(ta[y] == a[y + 1]);
        }
    }
    assert(sorted_distinct(tb)) by {
        assert forall|x: int, y: int| 0 <= x < y < tb.len() implies text_lt(#[trigger] tb[x], #[trigger] tb[y]) by {
            assert(tb[x] == b[x + 1]);
            assert(tb[y] == b[y + 1]);
        }
    }
    assert(ta.to_set() =~= tb.to_set()) by {
        assert forall|t: Seq<char>| ta.to_set().contains(t) implies tb.to_set().contains(t) by {
            let x = choose|x: int| 0 <= x < ta.len() && ta[x] == t;
            assert(a[x + 1] == t);
            assert(text_lt(a[0], a[x + 1]));
            lemma_text_order(a[0], a[0], a[0]);
            assert(b.to_set().contains(t));
            let y = choose|y: int| 0 <= y < b.len() && b[y] == t;
            if y == 0 {
                assert(t == a[0]);
            }
            assert(tb[y - 1] == t);
        }
        assert forall|t: Seq<char>| tb.to_set().contains(t) implies ta.to_set().contains(t) by {
            let y = choose|y: int| 0 <= y < tb.len() && tb[y] == t;
            assert(b[y + 1] == t);
            assert(text_lt(b[0], b[y + 1]));
            lemma_text_order(b[0], b[0], b[0]);
            assert(a.to_set().contains(t));
            let x = choose|x: int| 0 <= x < a.len() && a[x] == t;
            if x == 0 {
                assert(t == b[0]);
            }
            assert(ta[x - 1] == t);
        }
    }
    lemma_sorted_unique(ta, tb);
    assert(a =~= seq![a[0]] + ta);
    assert(b =~= seq![b[0]] + tb);
}

/// An increasing listing of a set is the one [`sorted_texts`] names.
pub proof fn lemma_sorted_texts(s: Seq<Seq<char>>)
    requires
        sorted_distinct(s),
    ensures
        sorted_texts(s.to_set()) == s,
{
    let t = sorted_texts(s.to_set());
    assert(sorted_distinct(s) && s.to_set() == s.to_set());
    lemma_sorted_unique(t, s);
}

/// The elements of a sequence with one more element are those of the shorter one and
/// that element.
pub proof fn lemma_to_set_push<A>(s: Seq<A>, x: A)
    ensures
        s.push(x).to_set() == s.to_set().insert(x),
{
    assert forall|y: A| s.push(x).to_set().contains(y) implies s.to_set().insert(y).contains(y) && s.to_set().insert(x).contains(y) by {
        let k = choose|k: int| 0 <= k < s.push(x).len() && s.push(x)[k] == y;
        if k < s.len() {
            assert(s[k] == y);
        }
    }
    assert forall|y: A| s.to_set().insert(x).contains(y) implies s.push(x).to_set().contains(y) by {
        if y == x {
            assert(s.push(x)[s.len() as int] == y);
        } else {
            let k = choose|k: int| 0 <= k < s.len() && s[k] == y;
            assert(s.push(x)[k] == y);
        }
    }
    assert(s.push(x).to_set() =~= s.to_set().insert(x));
}

} // verus!
