//! Decimal numbers as text.
use vstd::prelude::*;
use vstd::string::StringExecFns;

use crate::text::chars_of;

verus! {

/// Whether `c` is one of the ten decimal digits.
pub open spec fn digit(c: char) -> bool {
    0x30 <= c as u32 <= 0x39
}

/// The value of a decimal digit.
pub open spec fn digit_value(c: char) -> nat {
    (c as u32 - 0x30) as nat
}

/// The decimal digit of value `d`.
pub open spec fn digit_char(d: nat) -> char {
    ((0x30 + d) as u32) as char
}

/// `n` in decimal, without leading zeros.
pub open spec fn decimal(n: nat) -> Seq<char>
    decreases n,
{
    if n < 10 {
        seq![digit_char(n)]
    } else {
        decimal(n / 10).push(digit_char(n % 10))
    }
}

/// Whether `s` holds decimal digits alone.
pub open spec fn digits(s: Seq<char>) -> bool {
    forall|i: int| 0 <= i < s.len() ==> digit(#[trigger] s[i])
}

/// The number that the digits `s` write.
pub open spec fn value(s: Seq<char>) -> nat
    decreases s.len(),
{
    if s.len() == 0 {
        0
    } else {
        10 * value(s.drop_last()) + digit_value(s.last())
    }
}

/// Why a run of characters is not a number within a limit.
#[derive(Debug, Clone, Copy, PartialEq, Eq, Structural)]
pub enum ScanFault {
    /// A character is no decimal digit.
    Digit,
    /// The digits up to some place write a number over the limit.
    Limit,
}

/// Reads `s` from left to right as a decimal number of at most `max`; stops at the first fault.
pub open spec fn scanned(s: Seq<char>, max: nat) -> Result<nat, ScanFault>
    decreases s.len(),
{
    if s.len() == 0 {
        Ok(0)
    } else {
        match scanned(s.drop_last(), max) {
            Err(fault) => Err(fault),
            Ok(v) => {
                if !digit(s.last()) {
                    Err(ScanFault::Digit)
                } else if 10 * v + digit_value(s.last()) > max {
                    Err(ScanFault::Limit)
                } else {
                    Ok(10 * v + digit_value(s.last()))
                }
            },
        }
    }
}

/// `s` as a number of at most `max`: at least one digit and nothing else.
pub open spec fn number(s: Seq<char>, max: nat) -> Option<nat> {
    if s.len() > 0 && scanned(s, max) is Ok {
        Some(scanned(s, max)->Ok_0)
    } else {
        None
    }
}

/// Why a text is not an integer.
#[derive(Debug, Clone, Copy, PartialEq, Eq, Structural)]
pub enum IntFault {
    /// There is no character.
    Empty,
    /// A character is no digit, or a sign stands alone.
    InvalidDigit,
    /// The number is over the largest that the type holds.
    TooLarge,
    /// The number is under the smallest that the type holds.
    TooSmall,
}

/// The sentence that describes an `IntFault`.
pub open spec fn int_fault_text(fault: IntFault) -> Seq<char> {
    match fault {
        IntFault::Empty => "cannot parse integer from empty string"@,
        IntFault::InvalidDigit => "invalid digit found in string"@,
        IntFault::TooLarge => "number too large to fit in target type"@,
        IntFault::TooSmall => "number too small to fit in target type"@,
    }
}

impl IntFault {
    /// The sentence that describes the fault.
    pub fn message(self) -> (r: &'static str)
        ensures
            r@ == int_fault_text(self),
    {
        match self {
            IntFault::Empty => "cannot parse integer from empty string",
            IntFault::InvalidDigit => "invalid digit found in string",
            IntFault::TooLarge => "number too large to fit in target type",
            IntFault::TooSmall => "number too small to fit in target type",
        }
    }
}

/// `s` as an integer from `-low` to `high`: an optional sign, then digits.
pub open spec fn signed(s: Seq<char>, low: nat, high: nat) -> Result<int, IntFault> {
    if s.len() == 0 {
        Err(IntFault::Empty)
    } else if s.len() == 1 && (s[0] == '+' || s[0] == '-') {
        Err(IntFault::InvalidDigit)
    } else if s[0] == '-' {
        match scanned(s.drop_first(), low) {
            Ok(v) => Ok(-(v as int)),
            Err(ScanFault::Digit) => Err(IntFault::InvalidDigit),
            Err(ScanFault::Limit) => Err(IntFault::TooSmall),
        }
    } else {
        match scanned(if s[0] == '+' { s.drop_first() } else { s }, high) {
            Ok(v) => Ok(v as int),
            Err(ScanFault::Digit) => Err(IntFault::InvalidDigit),
            Err(ScanFault::Limit) => Err(IntFault::TooLarge),
        }
    }
}

/// `s` as an unsigned integer of at most `high`: an optional `+`, then digits.
pub open spec fn unsigned(s: Seq<char>, high: nat) -> Option<nat> {
    if s.len() > 0 && s[0] == '+' {
        number(s.drop_first(), high)
    } else {
        number(s, high)
    }
}

/// A run of characters reads as a number exactly where it holds digits that write at most `max`,
/// and then it reads as the number that they write.
pub proof fn scanned_is_value(s: Seq<char>, max: nat)
    ensures
        scanned(s, max) is Ok <==> digits(s) && value(s) <= max,
        scanned(s, max) is Ok ==> scanned(s, max)->Ok_0 == value(s),
    decreases s.len(),
{
    if s.len() > 0 {
        let t = s.drop_last();
        scanned_is_value(t, max);
        assert(digits(s) <==> digits(t) && digit(s.last())) by {
            if digits(s) {
                assert forall|i: int| 0 <= i < t.len() implies digit(#[trigger] t[i]) by {
                    assert(t[i] == s[i]);
                }
                assert(digit(s[s.len() - 1]));
            }
            if digits(t) && digit(s.last()) {
                assert forall|i: int| 0 <= i < s.len() implies digit(#[trigger] s[i]) by {
                    if i < t.len() {
                        assert(t[i] == s[i]);
                    }
                }
            }
        }
    }
}

/// Reading what was written gives the number back, and what is written holds digits alone,
/// the first of them a zero only for zero itself.
pub proof fn decimal_reads_back(n: nat)
    ensures
        value(decimal(n)) == n,
        digits(decimal(n)),
        decimal(n).len() > 0,
        decimal(n)[0] == '0' ==> n == 0,
    decreases n,
{
    if n >= 10 {
        let m = n / 10;
        decimal_reads_back(m);
        let s = decimal(n);
        assert(s.drop_last() =~= decimal(m));
        assert(s.last() == digit_char(n % 10));
        assert(s[0] == decimal(m)[0]);
        assert forall|i: int| 0 <= i < s.len() implies digit(#[trigger] s[i]) by {
            if i < decimal(m).len() {
                assert(s[i] == decimal(m)[i]);
            }
        }
    } else {
        assert(decimal(n).drop_last() =~= Seq::<char>::empty());
        assert(value(Seq::<char>::empty()) == 0);
    }
}

/// Digits without a leading zero are what writing their number gives.
pub proof fn value_writes_back(s: Seq<char>)
    requires
        s.len() > 0,
        digits(s),
        s.len() > 1 ==> s[0] != '0',
    ensures
        decimal(value(s)) == s,
        s[0] != '0' ==> value(s) > 0,
    decreases s.len(),
{
    let t = s.drop_last();
    assert(digit(s[s.len() - 1]));
    if t.len() == 0 {
        assert(value(t) == 0);
        vstd::utf8::char_u32_cast(s[0], s[0] as u32);
        assert(digit_char(digit_value(s[0])) == s[0]);
        assert(decimal(value(s)) =~= s);
        assert(digit('0'));
    } else {
        assert forall|i: int| 0 <= i < t.len() implies digit(#[trigger] t[i]) by {
            assert(t[i] == s[i]);
        }
        assert(t[0] == s[0]);
        value_writes_back(t);
        let d = digit_value(s.last());
        assert(value(s) == 10 * value(t) + d);
        assert(value(s) >= 10);
        assert(value(s) / 10 == value(t));
        assert(value(s) % 10 == d);
        vstd::utf8::char_u32_cast(s.last(), s.last() as u32);
        assert(digit_char(d) == s.last());
        assert(decimal(value(s)) =~= s);
    }
}

/// Different numbers are written differently.
pub proof fn decimal_injective(a: nat, b: nat)
    ensures
        decimal(a) == decimal(b) ==> a == b,
{
    decimal_reads_back(a);
    decimal_reads_back(b);
}

fn digit_text(d: u8) -> (r: &'static str)
    requires
        d < 10,
    ensures
        r@ == seq![digit_char(d as nat)],
{
    proof {
        reveal_strlit("0");
        reveal_strlit("1");
        reveal_strlit("2");
        reveal_strlit("3");
        reveal_strlit("4");
        reveal_strlit("5");
        reveal_strlit("6");
        reveal_strlit("7");
        reveal_strlit("8");
        reveal_strlit("9");
    }
    let r: &'static str = match d {
        0 => "0",
        1 => "1",
        2 => "2",
        3 => "3",
        4 => "4",
        5 => "5",
        6 => "6",
        7 => "7",
        8 => "8",
        _ => "9",
    };
    assert(r@ =~= seq![digit_char(d as nat)]);
    r
}

/// `n` in decimal, without leading zeros.
pub fn to_decimal(n: u128) -> (r: String)
    ensures
        r@ == decimal(n as nat),
    decreases n,
{
    if n < 10 {
        digit_text(n as u8).to_owned()
    } else {
        let mut r = to_decimal(n / 10);
        r.append(digit_text((n % 10) as u8));
        assert(r@ =~= decimal(n as nat));
        r
    }
}

/// Reads `s` as a decimal number of at most `max`; stops at the first fault.
pub fn scan(s: &[char], max: u64) -> (r: Result<u64, ScanFault>)
    ensures
        match r {
            Ok(v) => scanned(s@, max as nat) == Ok::<nat, ScanFault>(v as nat),
            Err(e) => scanned(s@, max as nat) == Err::<nat, ScanFault>(e),
        },
{
    let mut i: usize = 0;
    let mut acc: u64 = 0;
    assert(s@.take(0) =~= Seq::<char>::empty());
    while i < s.len()
        invariant
            i <= s.len(),
            acc <= max,
            scanned(s@.take(i as int), max as nat) == Ok::<nat, ScanFault>(acc as nat),
        decreases s.len() - i,
    {
        let c: char = s[i];
        let u: u32 = c as u32;
        let ghost next = s@.take(i + 1);
        assert(next.drop_last() =~= s@.take(i as int));
        assert(next.last() == c);
        if u < 0x30 || u > 0x39 {
            proof {
                lemma_fault_stays(s@, max as nat, i + 1);
            }
            return Err(ScanFault::Digit);
        }
        let wide: u128 = 10 * (acc as u128) + ((u - 0x30) as u128);
        if wide > max as u128 {
            proof {
                lemma_fault_stays(s@, max as nat, i + 1);
            }
            return Err(ScanFault::Limit);
        }
        acc = wide as u64;
        i = i + 1;
    }
    assert(s@.take(i as int) =~= s@);
    Ok(acc)
}

proof fn lemma_fault_stays(s: Seq<char>, max: nat, k: int)
    requires
        0 <= k <= s.len(),
        scanned(s.take(k), max) is Err,
    ensures
        scanned(s, max) == scanned(s.take(k), max),
    decreases s.len() - k,
{
    if k < s.len() {
        assert(s.take(k + 1).drop_last() =~= s.take(k));
        lemma_fault_stays(s, max, k + 1);
    } else {
        assert(s.take(k) =~= s);
    }
}

/// `s` as a number of at most `max`: at least one digit and nothing else.
pub fn parse_number(s: &[char], max: u64) -> (r: Option<u64>)
    ensures
        match r {
            Some(v) => number(s@, max as nat) == Some(v as nat),
            None => number(s@, max as nat) is None,
        },
{
    if s.len() == 0 {
        return None;
    }
    match scan(s, max) {
        Ok(v) => Some(v),
        Err(_) => None,
    }
}

/// `s` as an unsigned integer of at most `max`: an optional `+`, then digits.
pub fn parse_unsigned(s: &str, max: u64) -> (r: Option<u64>)
    ensures
        match r {
            Some(v) => unsigned(s@, max as nat) == Some(v as nat),
            None => unsigned(s@, max as nat) is None,
        },
{
    let v = chars_of(s);
    if v.len() > 0 && v[0] == '+' {
        let rest = vstd::slice::slice_subrange(v.as_slice(), 1, v.len());
        assert(rest@ =~= s@.drop_first());
        parse_number(rest, max)
    } else {
        parse_number(v.as_slice(), max)
    }
}

/// `s` as an `i32`: an optional sign, then digits.
pub fn parse_i32(s: &str) -> (r: Result<i32, IntFault>)
    ensures
        match r {
            Ok(v) => signed(s@, 0x8000_0000, 0x7fff_ffff) == Ok::<int, IntFault>(v as int),
            Err(e) => signed(s@, 0x8000_0000, 0x7fff_ffff) == Err::<int, IntFault>(e),
        },
{
    let v = chars_of(s);
    let n: usize = v.len();
    if n == 0 {
        return Err(IntFault::Empty);
    }
    let first: char = v[0];
    if n == 1 && (first == '+' || first == '-') {
        return Err(IntFault::InvalidDigit);
    }
    if first == '-' {
        let rest = vstd::slice::slice_subrange(v.as_slice(), 1, n);
        assert(rest@ =~= s@.drop_first());
        match scan(rest, 0x8000_0000) {
            Ok(x) => {
                proof {
                    scanned_is_value(rest@, 0x8000_0000);
                }
                let m: i64 = -(x as i64);
                Ok(m as i32)
            },
            Err(ScanFault::Digit) => Err(IntFault::InvalidDigit),
            Err(ScanFault::Limit) => Err(IntFault::TooSmall),
        }
    } else {
        let from: usize = if first == '+' {
            1
        } else {
            0
        };
        let rest = vstd::slice::slice_subrange(v.as_slice(), from, n);
        assert(from == 1 ==> rest@ =~= s@.drop_first());
        assert(from == 0 ==> rest@ =~= s@);
        match scan(rest, 0x7fff_ffff) {
            Ok(x) => {
                proof {
                    scanned_is_value(rest@, 0x7fff_ffff);
                }
                Ok(x as i32)
            },
            Err(ScanFault::Digit) => Err(IntFault::InvalidDigit),
            Err(ScanFault::Limit) => Err(IntFault::TooLarge),
        }
    }
}

/// A number reads back with its sign, where it is within the limits; beyond them it is too large or
/// too small. A text that is empty, or holds anything but digits behind its sign, is no number.
pub proof fn signed_numbers_read_back(n: nat, low: nat, high: nat)
    ensures
        signed(decimal(n), low, high) == (if n <= high {
            Ok::<int, IntFault>(n as int)
        } else {
            Err(IntFault::TooLarge)
        }),
        signed("+"@ + decimal(n), low, high) == signed(decimal(n), low, high),
        signed("-"@ + decimal(n), low, high) == (if n <= low {
            Ok::<int, IntFault>(-(n as int))
        } else {
            Err(IntFault::TooSmall)
        }),
        signed(Seq::<char>::empty(), low, high) == Err::<int, IntFault>(IntFault::Empty),
{
    reveal_strlit("+");
    reveal_strlit("-");
    let d = decimal(n);
    decimal_reads_back(n);
    scanned_is_value(d, low);
    scanned_is_value(d, high);
    if n > low {
        lemma_too_large(d, low);
    }
    if n > high {
        lemma_too_large(d, high);
    }
    assert(digit(d[0]));
    assert(d[0] != '+' && d[0] != '-');
    let plus = "+"@ + d;
    let minus = "-"@ + d;
    assert(plus[0] == '+' && minus[0] == '-');
    assert(plus.drop_first() =~= d);
    assert(minus.drop_first() =~= d);
}

/// A text with a character that is neither a digit nor a sign at its start is no number, and neither
/// is a sign alone.
pub proof fn signed_numbers_hold_digits_alone(s: Seq<char>, low: nat, high: nat)
    ensures
        signed(s, low, high) is Ok ==> {
            let rest = if s[0] == '+' || s[0] == '-' {
                s.drop_first()
            } else {
                s
            };
            &&& s.len() > 0
            &&& rest.len() > 0
            &&& digits(rest)
            &&& s[0] == '-' ==> signed(s, low, high)->Ok_0 == -(value(rest) as int) && value(rest)
                <= low
            &&& s[0] != '-' ==> signed(s, low, high)->Ok_0 == value(rest) as int && value(rest)
                <= high
        },
{
    if s.len() > 0 {
        scanned_is_value(s, high);
        scanned_is_value(s.drop_first(), high);
        scanned_is_value(s.drop_first(), low);
    }
}

proof fn lemma_too_large(s: Seq<char>, max: nat)
    requires
        digits(s),
        value(s) > max,
    ensures
        scanned(s, max) == Err::<nat, ScanFault>(ScanFault::Limit),
    decreases s.len(),
{
    let t = s.drop_last();
    assert forall|i: int| 0 <= i < t.len() implies digit(#[trigger] t[i]) by {
        assert(t[i] == s[i]);
    }
    assert(digit(s[s.len() - 1]));
    if value(t) > max {
        lemma_too_large(t, max);
    } else {
        scanned_is_value(t, max);
    }
}

/// A text is an unsigned number up to a limit exactly where it holds digits, behind a plus sign or
/// not, that write a number up to that limit.
pub proof fn unsigned_numbers_hold_digits_alone(s: Seq<char>, high: nat)
    ensures
        ({
            let rest = if s.len() > 0 && s[0] == '+' {
                s.drop_first()
            } else {
                s
            };
            &&& unsigned(s, high) is Some <==> rest.len() > 0 && digits(rest) && value(rest) <= high
            &&& unsigned(s, high) matches Some(v) ==> v == value(rest)
        }),
{
    scanned_is_value(s, high);
    scanned_is_value(s.drop_first(), high);
}

/// The digits from 0 to 9 have the values from 0 to 9, and a digit behind others counts one tenth of
/// what it would count before them.
pub proof fn digits_count_by_tens(s: Seq<char>, c: char)
    requires
        digit(c),
    ensures
        value(seq![c]) == c as u32 - '0' as u32,
        value(seq![c]) < 10,
        value(s.push(c)) == 10 * value(s) + value(seq![c]),
        '0' <= c <= '9',
{
    assert(seq![c].drop_last() =~= seq![]);
    assert(s.push(c).drop_last() =~= s);
    assert(value(seq![]) == 0);
}

/// Each way in which a text can fail to be an integer has a sentence of its own.
pub proof fn faults_have_their_sentences(fault: IntFault)
    ensures
        int_fault_text(fault) == "cannot parse integer from empty string"@ <==> fault
            == IntFault::Empty,
        int_fault_text(fault) == "invalid digit found in string"@ <==> fault
            == IntFault::InvalidDigit,
        int_fault_text(fault) == "number too large to fit in target type"@ <==> fault
            == IntFault::TooLarge,
        int_fault_text(fault) == "number too small to fit in target type"@ <==> fault
            == IntFault::TooSmall,
{
    reveal_strlit("cannot parse integer from empty string");
    reveal_strlit("invalid digit found in string");
    reveal_strlit("number too large to fit in target type");
    reveal_strlit("number too small to fit in target type");
    assert("number too large to fit in target type"@[11] != "number too small to fit in target type"@[11]);
    assert("cannot parse integer from empty string"@[0] != "number too small to fit in target type"@[0]);
}

} // verus!
