//! Measurements: the numbers of the telemetry that may have a fractional
//! part, kept as they are written.
//!
//! A measurement with a fractional part is held as its numeral, which has
//! to follow the grammar below; rounding it to a machine float is left to
//! whoever needs one. The grammar, with letters in either case:
//!
//! ```text
//! Numeral  ::= Sign? ( 'inf' | 'infinity' | 'nan' | Number )
//! Number   ::= Mantissa ( 'e' Sign? Digit+ )?
//! Mantissa ::= Digit+ | Digit+ '.' Digit* | Digit* '.' Digit+
//! ```

use crate::number::{
    all_digits, decimal_of, digit, fraction_part, is_decimal, is_digit, is_integer, parse_decimal,
    scan_integer, unsigned_part, whole_part, Decimal,
};
use crate::text::{chars_of, index_of, lemma_index_of, lemma_index_of_bounds, string_of};
use vstd::prelude::*;
use vstd::slice::slice_subrange;

verus! {

/// The lower-case form of an upper-case letter of the basic alphabet; any
/// other character itself.
pub open spec fn lower(c: char) -> char {
    if 'A' <= c <= 'Z' {
        ((c as u8 + 32) as u8) as char
    } else {
        c
    }
}

/// `s` with each character in its lower-case form.
pub open spec fn lowered(s: Seq<char>) -> Seq<char> {
    Seq::new(s.len(), |i: int| lower(s[i]))
}

/// The letter that opens an exponent.
pub open spec fn is_exponent_mark(c: char) -> bool {
    c == 'e' || c == 'E'
}

/// The index of the first exponent mark in `s`, or the length of `s` where
/// there is none.
pub open spec fn mark_at(s: Seq<char>) -> int
    decreases s.len(),
{
    if s.len() == 0 || is_exponent_mark(s[0]) {
        0
    } else {
        1 + mark_at(s.skip(1))
    }
}

/// The part of `m` after its first point; nothing where it has no point.
pub open spec fn after_point(m: Seq<char>) -> Seq<char> {
    let p = index_of(m, '.');
    if 0 <= p < m.len() {
        m.skip(p + 1)
    } else {
        Seq::empty()
    }
}

/// `m` is a mantissa: digits, with at most one point among them, and at
/// least one digit.
pub open spec fn is_mantissa(m: Seq<char>) -> bool {
    let whole = m.take(index_of(m, '.'));
    &&& all_digits(whole)
    &&& all_digits(after_point(m))
    &&& whole.len() + after_point(m).len() > 0
}

/// `b` is a number: a mantissa, and optionally an exponent mark followed by
/// an integer numeral.
pub open spec fn is_number(b: Seq<char>) -> bool {
    let k = mark_at(b);
    &&& is_mantissa(b.take(k))
    &&& 0 <= k < b.len() ==> is_integer(b.skip(k + 1))
}

/// `b` names an infinity or the value that is not a number.
pub open spec fn is_special(b: Seq<char>) -> bool {
    lowered(b) == "inf"@ || lowered(b) == "infinity"@ || lowered(b) == "nan"@
}

/// `s` is the numeral of a measurement: an optional sign, then a number or
/// the name of a special value.
pub open spec fn is_measurement(s: Seq<char>) -> bool {
    is_special(unsigned_part(s)) || is_number(unsigned_part(s))
}

/// `mark_at` is the position before which no exponent mark stands and at
/// which one does, or the end.
pub proof fn lemma_mark_at(s: Seq<char>, k: int)
    requires
        0 <= k <= s.len(),
        forall|i: int| 0 <= i < k ==> !is_exponent_mark(#[trigger] s[i]),
        k < s.len() ==> is_exponent_mark(s[k]),
    ensures
        mark_at(s) == k,
    decreases k,
{
    if k > 0 {
        lemma_mark_at(s.skip(1), k - 1);
    }
}

/// The lower-case form of `c`.
pub fn lower_case(c: char) -> (r: char)
    ensures
        r == lower(c),
{
    if 'A' <= c && c <= 'Z' {
        (c as u8 + 32) as char
    } else {
        c
    }
}

/// Whether `v`, letters in either case, spells `word`.
fn spells(v: &[char], word: &str) -> (b: bool)
    ensures
        b == (lowered(v@) == word@),
{
    let mut i: usize = 0;
    for c in it: word.chars()
        invariant
            i == it.index(),
            it.seq() == word@,
            i <= v.len(),
            lowered(v@).take(i as int) == word@.take(i as int),
    {
        if i >= v.len() || lower_case(v[i]) != c {
            assert(i < v.len() ==> lowered(v@)[i as int] != word@[i as int]);
            return false;
        }
        proof {
            assert(lowered(v@).take(i + 1) =~= lowered(v@).take(i as int).push(lower(v@[i as int])));
            assert(word@.take(i + 1) =~= word@.take(i as int).push(word@[i as int]));
        }
        i += 1;
    }
    proof {
        assert(word@.take(i as int) =~= word@);
        if i == v.len() {
            assert(lowered(v@).take(i as int) =~= lowered(v@));
        }
    }
    i == v.len()
}

/// Whether every character of `v` is a digit.
fn digits_only(v: &[char]) -> (b: bool)
    ensures
        b == all_digits(v@),
{
    let mut i: usize = 0;
    while i < v.len()
        invariant
            i <= v.len(),
            forall|k: int| 0 <= k < i ==> is_digit(#[trigger] v@[k]),
        decreases v.len() - i,
    {
        if digit(v[i]).is_none() {
            return false;
        }
        i += 1;
    }
    true
}

/// Whether `m` is a mantissa.
fn mantissa(m: &[char]) -> (b: bool)
    ensures
        b == is_mantissa(m@),
{
    let n = m.len();
    let mut p: usize = 0;
    while p < n && m[p] != '.'
        invariant
            p <= n,
            n == m.len(),
            forall|k: int| 0 <= k < p ==> #[trigger] m@[k] != '.',
        decreases n - p,
    {
        p += 1;
    }
    proof {
        lemma_index_of(m@, '.', p as int);
        assert(m@.take(p as int) =~= m@.subrange(0, p as int));
        if p < n {
            assert(after_point(m@) =~= m@.subrange(p + 1, n as int));
        }
    }
    if !digits_only(slice_subrange(m, 0, p)) {
        return false;
    }
    if p < n {
        digits_only(slice_subrange(m, p + 1, n)) && n - 1 > 0
    } else {
        p > 0
    }
}

/// Whether `v` is the numeral of a measurement.
pub fn measurement_numeral(v: &[char]) -> (b: bool)
    ensures
        b == is_measurement(v@),
{
    let n = v.len();
    let start: usize = if n > 0 && (v[0] == '-' || v[0] == '+') {
        1
    } else {
        0
    };
    let body = slice_subrange(v, start, n);
    assert(body@ =~= unsigned_part(v@));
    if spells(body, "inf") || spells(body, "infinity") || spells(body, "nan") {
        return true;
    }
    let len = body.len();
    let mut k: usize = 0;
    while k < len && body[k] != 'e' && body[k] != 'E'
        invariant
            k <= len,
            len == body.len(),
            forall|i: int| 0 <= i < k ==> !is_exponent_mark(#[trigger] body@[i]),
        decreases len - k,
    {
        k += 1;
    }
    proof {
        lemma_mark_at(body@, k as int);
        assert(body@.take(k as int) =~= body@.subrange(0, k as int));
        if k < len {
            assert(body@.skip(k + 1) =~= body@.subrange(k + 1, len as int));
        }
    }
    if !mantissa(slice_subrange(body, 0, k)) {
        return false;
    }
    if k < len {
        scan_integer(slice_subrange(body, k + 1, len)).is_some()
    } else {
        true
    }
}

/// The numeral of zero.
pub open spec fn zero_text() -> Seq<char> {
    seq!['0']
}

/// The numeral of zero is the numeral of a measurement.
pub proof fn lemma_zero_text()
    ensures
        is_measurement(zero_text()),
{
    let s = zero_text();
    assert(unsigned_part(s) == s);
    lemma_mark_at(s, 1);
    assert(s.take(1) =~= s);
    lemma_index_of(s, '.', 1);
    assert(after_point(s) =~= Seq::<char>::empty());
}

/// A measurement: a number that may have a fractional part, held as the
/// numeral that was read.
#[derive(Debug, PartialEq, Eq)]
pub struct Measurement {
    text: String,
}

impl View for Measurement {
    type V = Seq<char>;

    closed spec fn view(&self) -> Seq<char> {
        self.text@
    }
}

impl Clone for Measurement {
    fn clone(&self) -> (r: Measurement)
        ensures
            r@ == self@,
    {
        proof {
            use_type_invariant(self);
        }
        Measurement { text: self.text.clone() }
    }
}

impl Measurement {
    /// Every measurement holds a numeral.
    #[verifier::type_invariant]
    spec fn inv(&self) -> bool {
        is_measurement(self.text@)
    }

    /// The measurement zero.
    pub fn zero() -> (m: Measurement)
        ensures
            m@ == zero_text(),
    {
        let mut text = String::new();
        text.push('0');
        proof {
            lemma_zero_text();
            assert(text@ =~= zero_text());
        }
        Measurement { text }
    }

    /// The measurement that `v` writes, where `v` is a numeral.
    pub fn from_chars(v: &[char]) -> (r: Option<Measurement>)
        ensures
            match r {
                Some(m) => is_measurement(v@) && m@ == v@,
                None => !is_measurement(v@),
            },
    {
        if measurement_numeral(v) {
            Some(Measurement { text: string_of(v) })
        } else {
            None
        }
    }

    /// The measurement that `s` writes, where `s` is a numeral.
    pub fn from_str(s: &str) -> (r: Option<Measurement>)
        ensures
            match r {
                Some(m) => is_measurement(s@) && m@ == s@,
                None => !is_measurement(s@),
            },
    {
        let v = chars_of(s);
        Measurement::from_chars(v.as_slice())
    }

    /// The numeral, as it was read.
    pub fn as_str(&self) -> (s: &str)
        ensures
            s@ == self@,
            is_measurement(self@),
    {
        proof {
            use_type_invariant(self);
        }
        self.text.as_str()
    }

    /// The exact value, where the numeral is a plain decimal (digits with
    /// at most one point, no exponent) whose digits fit in 63 bits.
    pub fn decimal(&self) -> (d: Option<Decimal>)
        ensures
            d == decimal_of(self@),
    {
        let v = chars_of(self.text.as_str());
        parse_decimal(v.as_slice())
    }
}

/// Every decimal numeral is the numeral of a measurement, so the exact
/// value of a measurement, where it has one, is the value of its numeral.
pub proof fn lemma_decimal_is_measurement(s: Seq<char>)
    requires
        is_decimal(s),
    ensures
        is_measurement(s),
{
    let b = unsigned_part(s);
    let p = index_of(b, '.');
    lemma_index_of_bounds(b, '.');
    assert forall|i: int| 0 <= i < b.len() implies !is_exponent_mark(#[trigger] b[i]) by {
        if i < p {
            assert(whole_part(s)[i] == b[i]);
        } else if i > p {
            assert(fraction_part(s)[i - p - 1] == b[i]);
        }
    }
    lemma_mark_at(b, b.len() as int);
    assert(b.take(b.len() as int) =~= b);
    assert(after_point(b) == fraction_part(s));
}

} // verus!
