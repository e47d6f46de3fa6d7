//! Numbers as decimal text.

use crate::text::{chars_of, digit};
use vstd::prelude::*;
use vstd::string::*;

verus! {

/// The digit character of a value below ten.
pub open spec fn digit_char(d: nat) -> char {
    (('0' as u32 + d) as u32) as char
}

/// The value of a digit character.
pub open spec fn digit_value(c: char) -> nat {
    (c as u32 - '0' as u32) as nat
}

/// A natural number in decimal, without leading zeros.
pub open spec fn decimal(n: nat) -> Seq<char>
    decreases n,
{
    if n < 10 {
        seq![digit_char(n)]
    } else {
        decimal(n / 10).push(digit_char(n % 10))
    }
}

/// The number that a run of digits writes, most significant digit first.
pub open spec fn digits_value(s: Seq<char>) -> nat
    decreases s.len(),
{
    if s.len() == 0 {
        0
    } else {
        10 * digits_value(s.drop_last()) + digit_value(s.last())
    }
}

/// One or more digits and nothing else.
pub open spec fn all_digits(s: Seq<char>) -> bool {
    s.len() > 0 && forall|i: int| 0 <= i < s.len() ==> digit(#[trigger] s[i])
}

/// The unsigned number that a text writes: digits, with an optional `+`.
pub open spec fn unsigned_value(s: Seq<char>) -> Option<nat> {
    if s.len() > 0 && s[0] == '+' {
        if all_digits(s.skip(1)) {
            Some(digits_value(s.skip(1)))
        } else {
            None
        }
    } else if all_digits(s) {
        Some(digits_value(s))
    } else {
        None
    }
}

/// The signed number that a text writes: digits, with an optional sign.
pub open spec fn signed_value(s: Seq<char>) -> Option<int> {
    if s.len() > 0 && s[0] == '-' {
        if all_digits(s.skip(1)) {
            Some(-(digits_value(s.skip(1)) as int))
        } else {
            None
        }
    } else {
        match unsigned_value(s) {
            Some(n) => Some(n as int),
            None => None,
        }
    }
}

/// A number's decimal text holds digits only, and reads back as that number.
pub proof fn lemma_decimal(n: nat)
    ensures
        all_digits(decimal(n)),
        digits_value(decimal(n)) == n,
        decimal(n)[0] != '+',
        decimal(n)[0] != '-',
    decreases n,
{
    reveal_with_fuel(digits_value, 2);
    if n < 10 {
        assert(decimal(n).drop_last() == Seq::<char>::empty());
        assert(digit(digit_char(n)));
    } else {
        lemma_decimal(n / 10);
        let s = decimal(n);
        assert(s.drop_last() == decimal(n / 10));
        assert(s.last() == digit_char(n % 10));
        assert(digit(digit_char(n % 10)));
        assert forall|i: int| 0 <= i < s.len() implies digit(#[trigger] s[i]) by {
            if i < s.len() - 1 {
                assert(s[i] == decimal(n / 10)[i]);
            }
        }
        assert(s[0] == decimal(n / 10)[0]);
    }
}

/// Writing a number and reading it back gives the number.
pub proof fn decimal_reads_back(n: nat)
    ensures
        unsigned_value(decimal(n)) == Some(n),
        signed_value(decimal(n)) == Some(n as int),
{
    lemma_decimal(n);
}

/// The digit character of a value below ten.
fn to_digit_char(d: u64) -> (r: char)
    requires
        d < 10,
    ensures
        r == digit_char(d as nat),
{
    if d == 0 {
        '0'
    } else if d == 1 {
        '1'
    } else if d == 2 {
        '2'
    } else if d == 3 {
        '3'
    } else if d == 4 {
        '4'
    } else if d == 5 {
        '5'
    } else if d == 6 {
        '6'
    } else if d == 7 {
        '7'
    } else if d == 8 {
        '8'
    } else {
        '9'
    }
}

/// A number in decimal.
pub fn to_decimal(n: u64) -> (r: String)
    ensures
        r@ == decimal(n as nat),
    decreases n,
{
    if n < 10 {
        let mut r = String::new();
        r.push(to_digit_char(n));
        assert(r@ == decimal(n as nat));
        r
    } else {
        let mut r = to_decimal(n / 10);
        r.push(to_digit_char(n % 10));
        r
    }
}

/// The value of a prefix never exceeds that of the whole.
proof fn lemma_digits_value_grows(s: Seq<char>, i: int)
    requires
        0 <= i <= s.len(),
    ensures
        digits_value(s.take(i)) <= digits_value(s),
    decreases s.len() - i,
{
    if i < s.len() {
        lemma_digits_value_grows(s, i + 1);
        assert(s.take(i + 1).drop_last() == s.take(i));
    } else {
        assert(s.take(i) == s);
    }
}

/// The number that the digits of `cs` from `from` on write, if they are all
/// digits, there is at least one, and the number fits.
fn read_digits(cs: &Vec<char>, from: usize) -> (r: Option<u64>)
    requires
        from <= cs@.len(),
    ensures
        match r {
            Some(n) => all_digits(cs@.skip(from as int)) && n == digits_value(
                cs@.skip(from as int),
            ),
            None => !all_digits(cs@.skip(from as int)) || digits_value(cs@.skip(from as int))
                > u64::MAX,
        },
{
    let ghost s = cs@.skip(from as int);
    let len: usize = cs.len();
    if from == len {
        return None;
    }
    let mut n: u64 = 0;
    let mut i: usize = from;
    proof {
        assert(s.take(0) == Seq::<char>::empty());
    }
    while i < len
        invariant
            from <= i <= len == cs@.len(),
            s == cs@.skip(from as int),
            forall|j: int| 0 <= j < i - from ==> digit(#[trigger] s[j]),
            n == digits_value(s.take(i - from)),
        decreases len - i,
    {
        let c = cs[i];
        proof {
            assert(s[i - from] == c);
            assert(s.take(i - from + 1).drop_last() == s.take(i - from));
            lemma_digits_value_grows(s, i - from + 1);
        }
        if !('0' <= c && c <= '9') {
            proof {
                assert(!digit(s[i - from]));
            }
            return None;
        }
        let d: u64 = (c as u32 - '0' as u32) as u64;
        if n > u64::MAX / 10 || n * 10 > u64::MAX - d {
            return None;
        }
        n = n * 10 + d;
        i += 1;
    }
    proof {
        assert(s.take(len - from) == s);
    }
    Some(n)
}

/// Reads an unsigned number, as `str::parse::<u64>` does.
pub fn parse_u64(s: &str) -> (r: Option<u64>)
    ensures
        match r {
            Some(n) => unsigned_value(s@) == Some(n as nat),
            None => match unsigned_value(s@) {
                Some(n) => n > u64::MAX,
                None => true,
            },
        },
{
    let cs = chars_of(s);
    let start: usize = if cs.len() > 0 && cs[0] == '+' {
        1
    } else {
        0
    };
    proof {
        assert(s@.skip(0) == s@);
    }
    read_digits(&cs, start)
}

/// Reads a signed number, as `str::parse::<i64>` does.
pub fn parse_i64(s: &str) -> (r: Option<i64>)
    ensures
        match r {
            Some(n) => signed_value(s@) == Some(n as int),
            None => match signed_value(s@) {
                Some(n) => n > i64::MAX || n < i64::MIN,
                None => true,
            },
        },
{
    let cs = chars_of(s);
    if cs.len() > 0 && cs[0] == '-' {
        match read_digits(&cs, 1) {
            Some(n) => {
                if n < 0x8000_0000_0000_0000 {
                    Some(-(n as i64))
                } else if n == 0x8000_0000_0000_0000 {
                    Some(i64::MIN)
                } else {
                    None
                }
            },
            None => None,
        }
    } else {
        match parse_u64(s) {
            Some(n) => if n <= 0x7fff_ffff_ffff_ffff {
                Some(n as i64)
            } else {
                None
            },
            None => None,
        }
    }
}

/// Decimal text is written digit by digit: a number below ten has one, and any
/// other has the digits of its tenth part and then its last.
pub proof fn decimals_are_written_by_tens(n: nat, d: nat)
    requires
        d < 10,
    ensures
        decimal(d).len() == 1,
        decimal(d)[0] as u32 == '0' as u32 + d,
        n > 0 ==> decimal(10 * n + d) == decimal(n) + decimal(d),
{
    if n > 0 {
        assert((10 * n + d) / 10 == n && (10 * n + d) % 10 == d) by (nonlinear_arith)
            requires
                d < 10,
        ;
        assert(decimal(n).push(digit_char(d)) == decimal(n) + decimal(d));
    }
}

/// A number is read with its sign, a plus sign making no difference.
pub proof fn signs_are_read(n: nat)
    ensures
        signed_value(seq!['-'] + decimal(n)) == Some(-(n as int)),
        signed_value(seq!['+'] + decimal(n)) == Some(n as int),
        unsigned_value(seq!['+'] + decimal(n)) == Some(n),
        unsigned_value(seq!['-'] + decimal(n)) is None,
        unsigned_value(Seq::empty()) is None,
        signed_value(Seq::empty()) is None,
{
    lemma_decimal(n);
    let minus = seq!['-'] + decimal(n);
    let plus = seq!['+'] + decimal(n);
    assert(minus.skip(1) == decimal(n));
    assert(plus.skip(1) == decimal(n));
    assert(!digit(minus[0]));
}

/// A text that holds anything but digits behind its sign is no number.
pub proof fn only_digits_are_numbers(s: Seq<char>, i: int)
    requires
        0 < i < s.len(),
        !('0' <= s[i] <= '9'),
    ensures
        unsigned_value(s) is None,
        signed_value(s) is None,
{
    assert(s.skip(1)[i - 1] == s[i]);
    assert(!digit(s[i]));
    assert(!digit(s.skip(1)[i - 1]));
}

/// A number that was written is read again as what it was, and one that is too large
/// is not read at all.
pub proof fn written_numbers_are_read(
    n: u64,
    written: String,
    text: &str,
    r: Option<u64>,
    signed: Option<i64>,
    big: nat,
)
    ensures
        call_ensures(to_decimal, (n,), written) && text@ == written@ && call_ensures(
            parse_u64,
            (text,),
            r,
        ) ==> r == Some(n),
        call_ensures(to_decimal, (n,), written) && text@ == written@ && call_ensures(
            parse_i64,
            (text,),
            signed,
        ) && n <= i64::MAX ==> signed == Some(n as i64),
        big > u64::MAX && text@ == decimal(big) && call_ensures(parse_u64, (text,), r) ==> r is None,
        big > u64::MAX && text@ == decimal(big) && call_ensures(parse_i64, (text,), signed)
            ==> signed is None,
        text@.len() == 0 && call_ensures(parse_u64, (text,), r) ==> r is None,
{
    decimal_reads_back(n as nat);
    decimal_reads_back(big);
}

}
