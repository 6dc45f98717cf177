//! Decimal numerals: the grammar of the integers on the wire, their values,
//! and the text of an integer.

use crate::text::{index_of, is_whitespace, lemma_index_of, no_whitespace};
use vstd::prelude::*;

verus! {

/// The ten decimal digits.
pub open spec fn is_digit(c: char) -> bool {
    '0' <= c <= '9'
}

/// The value of a decimal digit.
pub open spec fn digit_value(c: char) -> nat {
    if is_digit(c) {
        (c as u32 - '0' as u32) as nat
    } else {
        0
    }
}

/// The digit that stands for `d`, for `d` below ten.
pub open spec fn digit_char(d: nat) -> char {
    if d < 10 {
        (('0' as u8 + d) as u8) as char
    } else {
        '0'
    }
}

/// Every character of `s` is a decimal digit.
pub open spec fn all_digits(s: Seq<char>) -> bool {
    forall|i: int| 0 <= i < s.len() ==> is_digit(#[trigger] s[i])
}

/// The number that the digits of `s` write in base ten.
pub open spec fn digits_value(s: Seq<char>) -> nat
    decreases s.len(),
{
    if s.len() == 0 {
        0
    } else {
        10 * digits_value(s.drop_last()) + digit_value(s.last())
    }
}

/// `s` starts with a sign.
pub open spec fn has_sign(s: Seq<char>) -> bool {
    s.len() > 0 && (s[0] == '+' || s[0] == '-')
}

/// `s` starts with a minus sign.
pub open spec fn is_negative(s: Seq<char>) -> bool {
    s.len() > 0 && s[0] == '-'
}

/// `s` without its sign, if it has one.
pub open spec fn unsigned_part(s: Seq<char>) -> Seq<char> {
    if has_sign(s) {
        s.skip(1)
    } else {
        s
    }
}

/// `s` is an integer numeral: an optional sign, then one or more digits.
pub open spec fn is_integer(s: Seq<char>) -> bool {
    unsigned_part(s).len() > 0 && all_digits(unsigned_part(s))
}

/// `s` is a numeral without a minus sign.
pub open spec fn is_natural(s: Seq<char>) -> bool {
    is_integer(s) && !is_negative(s)
}

/// The value of the integer numeral `s`.
pub open spec fn integer_value(s: Seq<char>) -> int {
    if is_negative(s) {
        -(digits_value(unsigned_part(s)) as int)
    } else {
        digits_value(unsigned_part(s)) as int
    }
}

/// The digits of `n` in base ten, without leading zeros.
pub open spec fn nat_text(n: nat) -> Seq<char>
    decreases n,
{
    if n < 10 {
        seq![digit_char(n)]
    } else {
        nat_text(n / 10).push(digit_char(n % 10))
    }
}

/// The text of the integer `i`: a minus sign for a negative one, then the
/// digits of its magnitude.
pub open spec fn int_text(i: int) -> Seq<char> {
    if i < 0 {
        seq!['-'] + nat_text((-i) as nat)
    } else {
        nat_text(i as nat)
    }
}

/// The value of `c` where it is a decimal digit.
pub fn digit(c: char) -> (d: Option<u8>)
    ensures
        d is Some <==> is_digit(c),
        d matches Some(x) ==> x == digit_value(c) && x < 10,
{
    if '0' <= c && c <= '9' {
        Some((c as u32 - '0' as u32) as u8)
    } else {
        None
    }
}

/// A number read digit by digit, as far as it fits in 64 bits.
#[derive(Clone, Copy, Debug)]
pub struct Magnitude {
    pub value: u64,
    pub exact: bool,
}

impl Magnitude {
    /// `self` stands for the number that `digits` write: it holds the number
    /// itself, or is marked inexact where the number is beyond 64 bits.
    pub open spec fn tracks(self, digits: Seq<char>) -> bool {
        &&& self.exact ==> self.value == digits_value(digits)
        &&& !self.exact ==> digits_value(digits) > u64::MAX
    }
}

/// Reads the digits of `v` from `from` up to `to` as a continuation of the
/// digits `before`, which `acc` stands for. `None` where a character in the
/// range is no digit.
fn read_digits(
    acc: Magnitude,
    v: &[char],
    from: usize,
    to: usize,
    Ghost(before): Ghost<Seq<char>>,
) -> (r: Option<Magnitude>)
    requires
        from <= to <= v.len(),
        acc.tracks(before),
    ensures
        r is Some <==> all_digits(v@.subrange(from as int, to as int)),
        r matches Some(m) ==> m.tracks(before + v@.subrange(from as int, to as int)),
{
    let ghost run = v@.subrange(from as int, to as int);
    let mut value: u64 = acc.value;
    let mut exact = acc.exact;
    let mut i: usize = from;
    proof {
        assert(before + run.take(0) =~= before);
    }
    while i < to
        invariant
            from <= i <= to <= v.len(),
            run == v@.subrange(from as int, to as int),
            all_digits(run.take(i - from)),
            exact ==> value == digits_value(before + run.take(i - from)),
            !exact ==> digits_value(before + run.take(i - from)) > u64::MAX,
        decreases to - i,
    {
        let d = match digit(v[i]) {
            Some(d) => d,
            None => {
                assert(run[i - from] == v@[i as int]);
                return None;
            },
        };
        proof {
            let longer = before + run.take(i + 1 - from);
            assert(longer.drop_last() =~= before + run.take(i - from));
            assert(longer.last() == v@[i as int]);
            assert(run.take(i + 1 - from).last() == v@[i as int]);
        }
        if exact {
            if value > (u64::MAX - d as u64) / 10 {
                exact = false;
            } else {
                value = value * 10 + d as u64;
            }
        }
        i += 1;
    }
    assert(run.take(to - from) =~= run);
    Some(Magnitude { value, exact })
}

/// What a scan of an integer numeral found: whether it had a minus sign,
/// and the number that its digits write.
#[derive(Clone, Copy, Debug)]
pub struct Numeral {
    pub negative: bool,
    pub magnitude: Magnitude,
}

impl Numeral {
    /// The numeral describes the text `s`.
    pub open spec fn describes(self, s: Seq<char>) -> bool {
        &&& self.negative == is_negative(s)
        &&& self.magnitude.tracks(unsigned_part(s))
    }
}

/// Reads `v` as an integer numeral.
pub fn scan_integer(v: &[char]) -> (r: Option<Numeral>)
    ensures
        r is Some <==> is_integer(v@),
        r matches Some(n) ==> n.describes(v@),
{
    let n = v.len();
    if n == 0 {
        return None;
    }
    let negative = v[0] == '-';
    let start: usize = if v[0] == '-' || v[0] == '+' {
        1
    } else {
        0
    };
    if start == n {
        return None;
    }
    proof {
        assert(unsigned_part(v@) =~= v@.subrange(start as int, n as int));
        assert(Seq::<char>::empty() + unsigned_part(v@) =~= unsigned_part(v@));
    }
    let zero = Magnitude { value: 0, exact: true };
    match read_digits(zero, v, start, n, Ghost(Seq::empty())) {
        Some(magnitude) => Some(Numeral { negative, magnitude }),
        None => None,
    }
}

/// What `s` is as an unsigned machine word: the value of a numeral without
/// a minus sign, where it fits.
pub open spec fn usize_of(s: Seq<char>) -> Option<usize> {
    if is_natural(s) && integer_value(s) <= usize::MAX {
        Some(integer_value(s) as usize)
    } else {
        None
    }
}

/// What `s` is as a signed machine word: the value of an integer numeral,
/// where it fits.
pub open spec fn isize_of(s: Seq<char>) -> Option<isize> {
    if is_integer(s) && isize::MIN <= integer_value(s) <= isize::MAX {
        Some(integer_value(s) as isize)
    } else {
        None
    }
}

/// Reads `v` as an unsigned machine word.
pub fn parse_usize(v: &[char]) -> (r: Option<usize>)
    ensures
        r == usize_of(v@),
{
    match scan_integer(v) {
        Some(n) => {
            if n.negative || !n.magnitude.exact || n.magnitude.value > usize::MAX as u64 {
                None
            } else {
                Some(n.magnitude.value as usize)
            }
        },
        None => None,
    }
}

/// Reads `v` as a signed machine word.
pub fn parse_isize(v: &[char]) -> (r: Option<isize>)
    ensures
        r == isize_of(v@),
{
    match scan_integer(v) {
        Some(n) => {
            if !n.magnitude.exact {
                None
            } else if !n.negative {
                if n.magnitude.value > isize::MAX as u64 {
                    None
                } else {
                    Some(n.magnitude.value as isize)
                }
            } else if n.magnitude.value == 0 {
                Some(0)
            } else if n.magnitude.value - 1 > isize::MAX as u64 {
                None
            } else {
                Some(-((n.magnitude.value - 1) as isize) - 1)
            }
        },
        None => None,
    }
}

/// What reading a numeral against a range gives.
#[derive(Clone, Copy, Debug, PartialEq, Eq, Structural)]
pub enum Reading {
    /// The text is no integer numeral.
    Malformed,
    /// The text is an integer numeral whose value lies outside the range.
    OutOfRange,
    /// The value of the numeral, which lies in the range.
    Value(i64),
}

/// What reading `s` against the range from `lo` to `hi` gives.
pub open spec fn reading_of(s: Seq<char>, lo: int, hi: int) -> Reading {
    if !is_integer(s) {
        Reading::Malformed
    } else if lo <= integer_value(s) <= hi {
        Reading::Value(integer_value(s) as i64)
    } else {
        Reading::OutOfRange
    }
}

/// Reads `v` as an integer between `lo` and `hi`, both included.
pub fn read_in_range(v: &[char], lo: i64, hi: i64) -> (r: Reading)
    ensures
        r == reading_of(v@, lo as int, hi as int),
{
    match scan_integer(v) {
        None => Reading::Malformed,
        Some(n) => {
            let m = n.magnitude;
            if !m.exact || m.value > i64::MAX as u64 + 1 {
                Reading::OutOfRange
            } else if m.value == i64::MAX as u64 + 1 {
                if n.negative && lo == i64::MIN {
                    Reading::Value(i64::MIN)
                } else {
                    Reading::OutOfRange
                }
            } else {
                let x: i64 = if n.negative {
                    -(m.value as i64)
                } else {
                    m.value as i64
                };
                if lo <= x && x <= hi {
                    Reading::Value(x)
                } else {
                    Reading::OutOfRange
                }
            }
        },
    }
}

/// The digit that stands for `d`.
pub fn digit_of(d: u8) -> (c: char)
    requires
        d < 10,
    ensures
        c == digit_char(d as nat),
{
    ('0' as u8 + d) as char
}

/// Appends the digits of `n` to `out`.
pub fn push_nat_text(out: &mut Vec<char>, n: u64)
    ensures
        final(out)@ == old(out)@ + nat_text(n as nat),
    decreases n,
{
    if n >= 10 {
        push_nat_text(out, n / 10);
    }
    out.push(digit_of((n % 10) as u8));
    proof {
        if n >= 10 {
            assert(final(out)@ =~= old(out)@ + nat_text(n as nat));
        } else {
            assert(final(out)@ =~= old(out)@ + nat_text(n as nat));
        }
    }
}

/// Appends the text of the integer `i` to `out`.
pub fn push_int_text(out: &mut Vec<char>, i: i64)
    ensures
        final(out)@ == old(out)@ + int_text(i as int),
{
    if i < 0 {
        out.push('-');
        let m: u64 = (-(i + 1)) as u64 + 1;
        push_nat_text(out, m);
        assert(final(out)@ =~= old(out)@ + int_text(i as int));
    } else {
        push_nat_text(out, i as u64);
    }
}

/// The digits of a number are digits, at least one, and write that number.
pub proof fn lemma_nat_text(n: nat)
    ensures
        nat_text(n).len() > 0,
        all_digits(nat_text(n)),
        digits_value(nat_text(n)) == n,
    decreases n,
{
    if n < 10 {
        let t = nat_text(n);
        assert(t.drop_last() =~= Seq::<char>::empty());
        assert(digits_value(t.drop_last()) == 0);
    } else {
        lemma_nat_text(n / 10);
        let t = nat_text(n);
        assert(t.drop_last() =~= nat_text(n / 10));
        assert(t.last() == digit_char(n % 10));
    }
}

/// The text of an integer is an integer numeral with that value, and holds
/// no white space; that of a number that is not negative has no minus sign.
pub proof fn lemma_int_text(i: int)
    ensures
        is_integer(int_text(i)),
        integer_value(int_text(i)) == i,
        no_whitespace(int_text(i)),
        int_text(i).len() > 0,
        i >= 0 ==> is_natural(int_text(i)),
{
    let t = int_text(i);
    if i < 0 {
        let d = nat_text((-i) as nat);
        lemma_nat_text((-i) as nat);
        assert(t.skip(1) =~= d);
        assert(t[0] == '-');
    } else {
        lemma_nat_text(i as nat);
        assert(is_digit(t[0]));
    }
    assert forall|k: int| 0 <= k < t.len() implies !is_whitespace(#[trigger] t[k]) by {
        if i < 0 && k > 0 {
            assert(t[k] == unsigned_part(t)[k - 1]);
        }
        if i >= 0 {
            assert(is_digit(t[k]));
        }
    }
}

/// A decimal fraction as it was written: the number `mantissa / 10^scale`,
/// where `scale` counts the digits after the point. It stands for a
/// measurement that the robot reports with a fractional part.
#[derive(Debug, Clone, Copy, PartialEq, Eq, Structural)]
pub struct Decimal {
    pub mantissa: i64,
    pub scale: usize,
}

impl Decimal {
    /// The decimal zero, without digits after the point.
    pub open spec fn zero() -> Decimal {
        Decimal { mantissa: 0, scale: 0 }
    }
}

/// The digits of the numeral `s` before the point.
pub open spec fn whole_part(s: Seq<char>) -> Seq<char> {
    let b = unsigned_part(s);
    b.take(index_of(b, '.'))
}

/// The digits of the numeral `s` after the point; none where it has no
/// point.
pub open spec fn fraction_part(s: Seq<char>) -> Seq<char> {
    let b = unsigned_part(s);
    let p = index_of(b, '.');
    if 0 <= p < b.len() {
        b.skip(p + 1)
    } else {
        Seq::empty()
    }
}

/// `s` is a decimal numeral: an optional sign, digits, and optionally a
/// point with digits after it; at least one digit in all.
pub open spec fn is_decimal(s: Seq<char>) -> bool {
    &&& all_digits(whole_part(s))
    &&& all_digits(fraction_part(s))
    &&& whole_part(s).len() + fraction_part(s).len() > 0
}

/// What `s` is as a decimal: the value of a decimal numeral whose digits,
/// taken together, write a number that fits in 63 bits.
pub open spec fn decimal_of(s: Seq<char>) -> Option<Decimal> {
    let m = digits_value(whole_part(s) + fraction_part(s));
    if is_decimal(s) && m <= i64::MAX {
        Some(
            Decimal {
                mantissa: if is_negative(s) {
                    (-m) as i64
                } else {
                    m as i64
                },
                scale: fraction_part(s).len() as usize,
            },
        )
    } else {
        None
    }
}

/// Reads `v` as a decimal.
pub fn parse_decimal(v: &[char]) -> (r: Option<Decimal>)
    ensures
        r == decimal_of(v@),
{
    let n = v.len();
    let negative = n > 0 && v[0] == '-';
    let start: usize = if n > 0 && (v[0] == '-' || v[0] == '+') {
        1
    } else {
        0
    };
    let ghost body = unsigned_part(v@);
    assert(body =~= v@.skip(start as int));
    let mut p: usize = start;
    while p < n && v[p] != '.'
        invariant
            start <= p <= n,
            n == v.len(),
            body == v@.skip(start as int),
            forall|k: int| 0 <= k < p - start ==> #[trigger] body[k] != '.',
        decreases n - p,
    {
        p += 1;
    }
    proof {
        lemma_index_of(body, '.', p - start);
        assert(whole_part(v@) =~= v@.subrange(start as int, p as int));
        if p < n {
            assert(fraction_part(v@) =~= v@.subrange(p + 1, n as int));
        }
        assert(Seq::<char>::empty() + whole_part(v@) =~= whole_part(v@));
        assert(whole_part(v@) + Seq::<char>::empty() =~= whole_part(v@));
    }
    let zero = Magnitude { value: 0, exact: true };
    let whole = match read_digits(zero, v, start, p, Ghost(Seq::empty())) {
        Some(m) => m,
        None => {
            return None;
        },
    };
    let (all, scale) = if p < n {
        match read_digits(whole, v, p + 1, n, Ghost(whole_part(v@))) {
            Some(m) => (m, n - (p + 1)),
            None => {
                return None;
            },
        }
    } else {
        (whole, 0)
    };
    if (p - start) + scale == 0 || !all.exact || all.value > i64::MAX as u64 {
        return None;
    }
    let m: i64 = all.value as i64;
    Some(Decimal { mantissa: if negative {
        -m
    } else {
        m
    }, scale })
}

/// The text of an integer is made of digits, after a minus sign for a
/// negative one.
pub proof fn lemma_int_text_chars(i: int)
    ensures
        forall|k: int|
            0 <= k < int_text(i).len() ==> is_digit(#[trigger] int_text(i)[k]) || int_text(i)[k]
                == '-',
{
    let t = int_text(i);
    if i < 0 {
        lemma_nat_text((-i) as nat);
        assert forall|k: int| 0 <= k < t.len() implies is_digit(#[trigger] t[k]) || t[k]
            == '-' by {
            if k > 0 {
                assert(t[k] == nat_text((-i) as nat)[k - 1]);
            }
        }
    } else {
        lemma_nat_text(i as nat);
    }
}

} // verus!
