//! Whole numbers in decimal notation.

use crate::text::chars_of;
use vstd::prelude::*;
use vstd::string::*;

verus! {

/// The character of a digit.
pub open spec fn digit_char(d: int) -> char {
    (d + 0x30) as char
}

/// The shortest decimal notation of a number that is not negative.
pub open spec fn dec_nat(n: nat) -> Seq<char>
    decreases n,
{
    if n < 10 {
        seq![digit_char(n as int)]
    } else {
        dec_nat(n / 10).push(digit_char((n % 10) as int))
    }
}

/// The shortest decimal notation of a number.
pub open spec fn dec(n: int) -> Seq<char> {
    if n < 0 {
        seq!['-'] + dec_nat((-n) as nat)
    } else {
        dec_nat(n as nat)
    }
}

fn digit(d: u64) -> (c: char)
    requires
        d < 10,
    ensures
        c == digit_char(d as int),
{
    ((d as u8) + 0x30) as char
}

pub fn dec_u64(n: u64) -> (r: String)
    ensures
        r@ == dec(n as int),
    decreases n,
{
    let mut out = if n < 10 {
        String::new()
    } else {
        dec_u64(n / 10)
    };
    out.push(digit(n % 10));
    assert(n < 10 ==> out@ =~= seq![digit_char(n as int)]);
    out
}

pub fn dec_i64(n: i64) -> (r: String)
    ensures
        r@ == dec(n as int),
{
    if n < 0 {
        let magnitude: u64 = if n == i64::MIN {
            0x8000_0000_0000_0000
        } else {
            (-n) as u64
        };
        let digits = dec_u64(magnitude);
        let mut out = String::new();
        out.push('-');
        out.append(digits.as_str());
        assert(out@ =~= seq!['-'] + digits@);
        out
    } else {
        dec_u64(n as u64)
    }
}

/// The value of a character as a digit.
pub open spec fn digit_value(c: char) -> Option<nat> {
    if '0' <= c <= '9' {
        Some((c as int - 0x30) as nat)
    } else {
        None
    }
}

/// The number that a sequence of digits denotes. None where it is empty or holds anything else.
pub open spec fn digits_value(s: Seq<char>) -> Option<nat>
    decreases s.len(),
{
    if s.len() == 0 {
        None
    } else if s.len() == 1 {
        digit_value(s[0])
    } else {
        match (digits_value(s.drop_last()), digit_value(s.last())) {
            (Some(n), Some(d)) => Some(10 * n + d),
            _ => None,
        }
    }
}

/// The number that a text denotes: an optional sign, then digits.
pub open spec fn int_value(s: Seq<char>) -> Option<int> {
    if s.len() > 0 && s[0] == '-' {
        match digits_value(s.drop_first()) {
            Some(n) => Some(-(n as int)),
            None => None,
        }
    } else {
        nat_value(s)
    }
}

/// The number that a text denotes: an optional plus sign, then digits.
pub open spec fn nat_value(s: Seq<char>) -> Option<int> {
    let digits = if s.len() > 0 && s[0] == '+' {
        s.drop_first()
    } else {
        s
    };
    match digits_value(digits) {
        Some(n) => Some(n as int),
        None => None,
    }
}

/// What parsing a text as a number between two limits gives.
pub open spec fn within(v: Option<int>, low: int, high: int) -> Option<int> {
    match v {
        Some(n) => if low <= n <= high {
            Some(n)
        } else {
            None
        },
        None => None,
    }
}

proof fn lemma_prefix_digits(s: Seq<char>, k: int)
    requires
        0 < k <= s.len(),
        digits_value(s) is Some,
    ensures
        digits_value(s.take(k)) is Some,
        digits_value(s.take(k))->0 <= digits_value(s)->0,
    decreases s.len(),
{
    if k == s.len() {
        assert(s.take(k) =~= s);
    } else {
        lemma_prefix_digits(s.drop_last(), k);
        assert(s.drop_last().take(k) =~= s.take(k));
    }
}

/// The value of the digits from `from` on, where it is at most `max`.
fn digits_at_most(v: &Vec<char>, from: usize, max: u64) -> (r: Option<u64>)
    requires
        from <= v@.len(),
    ensures
        match r {
            Some(n) => n <= max && digits_value(v@.skip(from as int)) == Some(n as nat),
            None => match digits_value(v@.skip(from as int)) {
                Some(n) => n > max,
                None => true,
            },
        },
{
    let ghost s = v@.skip(from as int);
    if from == v.len() {
        return None;
    }
    let mut total: u64 = 0;
    let mut i: usize = from;
    while i < v.len()
        invariant
            from <= i <= v@.len(),
            from < v@.len(),
            s == v@.skip(from as int),
            i == from ==> total == 0,
            i > from ==> digits_value(s.take(i - from)) == Some(total as nat),
            total <= max,
        decreases v@.len() - i,
    {
        let c = v[i];
        let ghost next = s.take(i - from + 1);
        assert(next.last() == c);
        assert(next.drop_last() =~= s.take(i - from));
        if !('0' <= c && c <= '9') {
            proof {
                if digits_value(s) is Some {
                    lemma_prefix_digits(s, i - from + 1);
                }
            }
            return None;
        }
        let d: u64 = (c as u64) - 0x30;
        proof {
            if digits_value(s) is Some {
                lemma_prefix_digits(s, i - from + 1);
            }
        }
        if d > max || total > max / 10 || 10 * total > max - d {
            return None;
        }
        total = 10 * total + d;
        i += 1;
    }
    assert(s.take(i - from) =~= s);
    Some(total)
}

pub fn parse_u64(s: &str, max: u64) -> (r: Option<u64>)
    ensures
        match r {
            Some(n) => within(nat_value(s@), 0, max as int) == Some(n as int),
            None => within(nat_value(s@), 0, max as int) is None,
        },
{
    let v = chars_of(s);
    let from: usize = if v.len() > 0 && v[0] == '+' {
        1
    } else {
        0
    };
    assert(v@.skip(0) =~= v@);
    assert(v@.len() > 0 ==> v@.skip(1) =~= v@.drop_first());
    digits_at_most(&v, from, max)
}

pub fn parse_u32(s: &str) -> (r: Option<u32>)
    ensures
        match r {
            Some(n) => within(nat_value(s@), 0, u32::MAX as int) == Some(n as int),
            None => within(nat_value(s@), 0, u32::MAX as int) is None,
        },
{
    match parse_u64(s, 0xffff_ffff) {
        Some(n) => Some(n as u32),
        None => None,
    }
}

pub fn parse_usize(s: &str) -> (r: Option<usize>)
    ensures
        match r {
            Some(n) => within(nat_value(s@), 0, usize::MAX as int) == Some(n as int),
            None => within(nat_value(s@), 0, usize::MAX as int) is None,
        },
{
    match parse_u64(s, usize::MAX as u64) {
        Some(n) => Some(n as usize),
        None => None,
    }
}

pub fn parse_i64(s: &str) -> (r: Option<i64>)
    ensures
        match r {
            Some(n) => within(int_value(s@), i64::MIN as int, i64::MAX as int) == Some(n as int),
            None => within(int_value(s@), i64::MIN as int, i64::MAX as int) is None,
        },
{
    let v = chars_of(s);
    assert(v@.len() > 0 ==> v@.skip(1) =~= v@.drop_first());
    if v.len() > 0 && v[0] == '-' {
        match digits_at_most(&v, 1, 0x8000_0000_0000_0000) {
            Some(n) => if n == 0x8000_0000_0000_0000 {
                Some(i64::MIN)
            } else {
                Some(-(n as i64))
            },
            None => None,
        }
    } else {
        match parse_u64(s, 0x7fff_ffff_ffff_ffff) {
            Some(n) => Some(n as i64),
            None => None,
        }
    }
}

proof fn lemma_dec_nat_digits(n: nat)
    ensures
        dec_nat(n).len() > 0,
        digits_value(dec_nat(n)) == Some(n),
        forall|i: int| 0 <= i < dec_nat(n).len() ==> digit_value(#[trigger] dec_nat(n)[i]) is Some,
    decreases n,
{
    if n >= 10 {
        lemma_dec_nat_digits(n / 10);
        assert(dec_nat(n).drop_last() =~= dec_nat(n / 10));
    }
}

/// Reading a number back from its decimal notation gives the number.
pub proof fn law_decimal_reads_back(n: int)
    ensures
        int_value(dec(n)) == Some(n),
{
    if n < 0 {
        lemma_dec_nat_digits((-n) as nat);
        assert(dec(n).drop_first() =~= dec_nat((-n) as nat));
    } else {
        lemma_dec_nat_digits(n as nat);
        assert(digit_value(dec_nat(n as nat)[0]) is Some);
    }
}

/// A number is read digit by digit: one more digit counts ten times what was read before, and
/// itself.
pub proof fn law_numbers_are_read_digit_by_digit(s: Seq<char>, c: char)
    ensures
        '0' <= c <= '9' ==> digits_value(seq![c]) == Some((c as int - '0' as int) as nat),
        digits_value(s) matches Some(n) ==> ('0' <= c <= '9' ==> digits_value(s.push(c)) == Some(
            (10 * n + (c as int - '0' as int)) as nat,
        )),
        !('0' <= c <= '9') ==> digits_value(s.push(c)) is None,
        s.len() > 0 && digits_value(s) is None ==> digits_value(s.push(c)) is None,
        digits_value(Seq::empty()) is None,
{
    if s.len() > 0 {
        assert(s.push(c).drop_last() =~= s);
    } else {
        assert(s.push(c) =~= seq![c]);
    }
}

/// A number may have a sign: minus where it may be negative, plus always.
pub proof fn law_numbers_may_have_a_sign(s: Seq<char>)
    ensures
        digits_value(s) matches Some(n) ==> {
            &&& int_value(s) == Some(n as int)
            &&& nat_value(s) == Some(n as int)
            &&& int_value(seq!['+'] + s) == Some(n as int)
            &&& nat_value(seq!['+'] + s) == Some(n as int)
            &&& int_value(seq!['-'] + s) == Some(-(n as int))
            &&& nat_value(seq!['-'] + s) is None
        },
        digits_value(s) is None ==> int_value(seq!['-'] + s) is None && nat_value(seq!['+'] + s)
            is None,
{
    assert((seq!['+'] + s).drop_first() =~= s);
    assert((seq!['-'] + s).drop_first() =~= s);
    lemma_digits_only(s);
    lemma_digits_only(seq!['-'] + s);
}

proof fn lemma_digits_only(s: Seq<char>)
    ensures
        digits_value(s) is Some ==> forall|i: int|
            0 <= i < s.len() ==> '0' <= #[trigger] s[i] <= '9',
    decreases s.len(),
{
    if s.len() > 1 {
        lemma_digits_only(s.drop_last());
        if digits_value(s) is Some {
            assert forall|i: int| 0 <= i < s.len() implies '0' <= #[trigger] s[i] <= '9' by {
                if i < s.len() - 1 {
                    assert(s.drop_last()[i] == s[i]);
                }
            }
        }
    }
}

/// A number outside its range is none.
pub proof fn law_numbers_within_their_range(v: Option<int>, low: int, high: int)
    ensures
        within(v, low, high) is Some <==> v is Some && low <= v->0 <= high,
        within(v, low, high) is Some ==> within(v, low, high) == v,
{
}

/// The decimal notation has no zero in front, and a minus exactly for a negative number.
pub proof fn law_decimal_is_the_shortest(n: int)
    ensures
        n == 0 ==> dec(n) == seq!['0'],
        n > 0 ==> dec(n)[0] != '0' && dec(n)[0] != '-',
        n < 0 ==> dec(n)[0] == '-' && dec(n) == seq!['-'] + dec(-n),
        n >= 10 ==> dec(n) == dec(n / 10) + dec(n % 10),
        0 <= n < 10 ==> dec(n).len() == 1 && dec(n)[0] as int == '0' as int + n,
{
    if n > 0 {
        lemma_first_digit(n as nat);
    }
    if n >= 10 {
        assert(dec_nat((n / 10) as nat).push(digit_char(n % 10)) =~= dec(n / 10) + dec(n % 10));
    }
}

proof fn lemma_first_digit(n: nat)
    requires
        n > 0,
    ensures
        dec_nat(n).len() > 0,
        dec_nat(n)[0] != '0',
        dec_nat(n)[0] != '-',
    decreases n,
{
    if n >= 10 {
        lemma_first_digit(n / 10);
    }
}

} // verus!
