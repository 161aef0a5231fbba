//! The version marker encoding: a release's version ordinal written as
//! decimal text, and read back as the integer it encodes.

use vstd::prelude::*;
use vstd::arithmetic::div_mod::lemma_fundamental_div_mod;
use vstd::string::{StrSliceExecFns, StringExecFns};

verus! {

/// Why a version marker's text could not be read as a version ordinal.
#[derive(Debug, PartialEq, Eq, Structural, Clone, Copy)]
pub enum VersionParseError {
    /// The text is empty.
    Empty,
    /// The text is not an optional sign followed by one or more digits.
    InvalidCharacter,
    /// The denoted value does not fit in a version ordinal.
    OutOfRange,
}

/// Whether `c` is a decimal digit.
pub open spec fn is_digit(c: char) -> bool {
    48 <= c as u32 <= 57
}

/// Whether every character of `s` is a decimal digit.
pub open spec fn all_digits(s: Seq<char>) -> bool {
    forall|i: int| 0 <= i < s.len() ==> is_digit(s[i])
}

/// The value denoted by a sequence of decimal digits, most significant
/// first.
pub open spec fn digits_val(s: Seq<char>) -> int
    decreases s.len(),
{
    if s.len() == 0 {
        0
    } else {
        digits_val(s.drop_last()) * 10 + (s.last() as u32 - 48)
    }
}

/// The character for one decimal digit value.
pub open spec fn digit_char(d: int) -> char {
    if d == 0 {
        '0'
    } else if d == 1 {
        '1'
    } else if d == 2 {
        '2'
    } else if d == 3 {
        '3'
    } else if d == 4 {
        '4'
    } else if d == 5 {
        '5'
    } else if d == 6 {
        '6'
    } else if d == 7 {
        '7'
    } else if d == 8 {
        '8'
    } else {
        '9'
    }
}

/// The decimal digits of a nonnegative integer, most significant first,
/// with no leading zeros (a single `0` for zero).
pub open spec fn dec_digits(n: nat) -> Seq<char>
    decreases n,
{
    if n < 10 {
        seq![digit_char(n as int)]
    } else {
        dec_digits(n / 10).push(digit_char((n % 10) as int))
    }
}

/// The canonical decimal text of an integer: a minus sign for negative
/// values, then the digits of its magnitude.
pub open spec fn int_literal(v: int) -> Seq<char> {
    if v < 0 {
        seq!['-'] + dec_digits((-v) as nat)
    } else {
        dec_digits(v as nat)
    }
}

/// The digits of `s` once an optional leading sign is removed.
pub open spec fn unsigned_part(s: Seq<char>) -> Seq<char> {
    if s.len() > 0 && (s[0] == '+' || s[0] == '-') {
        s.drop_first()
    } else {
        s
    }
}

/// Whether `s` is an optional sign followed by one or more digits.
pub open spec fn well_formed_decimal(s: Seq<char>) -> bool {
    unsigned_part(s).len() > 0 && all_digits(unsigned_part(s))
}

/// The integer a well-formed decimal text denotes.
pub open spec fn decimal_value(s: Seq<char>) -> int {
    if s.len() > 0 && s[0] == '-' {
        -digits_val(unsigned_part(s))
    } else {
        digits_val(unsigned_part(s))
    }
}

proof fn lemma_dec_digits_shape(n: nat)
    ensures
        dec_digits(n).len() >= 1,
        all_digits(dec_digits(n)),
    decreases n,
{
    if n >= 10 {
        lemma_dec_digits_shape(n / 10);
        let prefix = dec_digits(n / 10);
        let whole = prefix.push(digit_char((n % 10) as int));
        assert(forall|i: int| 0 <= i < prefix.len() ==> whole[i] == prefix[i]);
        assert(is_digit(whole[whole.len() - 1]));
    }
}

proof fn lemma_digit_char_val(d: int)
    requires
        0 <= d < 10,
    ensures
        digit_char(d) as u32 == 48 + d,
{
    if d == 0 {
        assert('0' as u32 == 48);
    } else if d == 1 {
        assert('1' as u32 == 49);
    } else if d == 2 {
        assert('2' as u32 == 50);
    } else if d == 3 {
        assert('3' as u32 == 51);
    } else if d == 4 {
        assert('4' as u32 == 52);
    } else if d == 5 {
        assert('5' as u32 == 53);
    } else if d == 6 {
        assert('6' as u32 == 54);
    } else if d == 7 {
        assert('7' as u32 == 55);
    } else if d == 8 {
        assert('8' as u32 == 56);
    } else {
        assert('9' as u32 == 57);
    }
}

proof fn lemma_digits_val_dec_digits(n: nat)
    ensures
        digits_val(dec_digits(n)) == n,
    decreases n,
{
    if n < 10 {
        lemma_digit_char_val(n as int);
        let s = dec_digits(n);
        assert(s == seq![digit_char(n as int)]);
        assert(s.len() == 1);
        assert(s.last() == digit_char(n as int));
        assert(s.drop_last() =~= Seq::<char>::empty());
        assert(digits_val(s.drop_last()) == 0);
        assert(digits_val(s) == digits_val(s.drop_last()) * 10 + (s.last() as u32 - 48));
    } else {
        lemma_digits_val_dec_digits(n / 10);
        lemma_digit_char_val((n % 10) as int);
        let whole = dec_digits(n / 10).push(digit_char((n % 10) as int));
        assert(dec_digits(n) == whole);
        assert(whole.len() == dec_digits(n / 10).len() + 1);
        assert(whole.drop_last() =~= dec_digits(n / 10));
        assert(whole.last() == digit_char((n % 10) as int));
        assert(digits_val(whole) == digits_val(whole.drop_last()) * 10 + (whole.last() as u32
            - 48));
        lemma_fundamental_div_mod(n as int, 10);
    }
}

/// Law: the decimal text written for a version ordinal `v` is well formed
/// and denotes exactly `v`, so a marker written with [`format_version`] and
/// read with [`parse_version`] yields the value that was written.
pub proof fn lemma_version_marker_round_trip(v: i32)
    ensures
        well_formed_decimal(int_literal(v as int)),
        i32::MIN <= decimal_value(int_literal(v as int)) <= i32::MAX,
        decimal_value(int_literal(v as int)) == v as int,
{
    if v >= 0 {
        let s = int_literal(v as int);
        lemma_dec_digits_shape(v as nat);
        lemma_digits_val_dec_digits(v as nat);
        assert(is_digit(s[0]));
        assert(s[0] as u32 != 43 && s[0] as u32 != 45);
        assert(s[0] != '+' && s[0] != '-');
        assert(unsigned_part(s) == s);
    } else {
        let m = (-(v as int)) as nat;
        let s = int_literal(v as int);
        lemma_dec_digits_shape(m);
        lemma_digits_val_dec_digits(m);
        assert(s[0] == '-');
        assert(unsigned_part(s) =~= dec_digits(m));
    }
}

fn digit_str(d: u8) -> (r: &'static str)
    requires
        d < 10,
    ensures
        r@ =~= seq![digit_char(d as int)],
{
    proof {
        reveal_strlit("0");
        reveal_strlit("1");
        reveal_strlit("2");
        reveal_strlit("3");
        reveal_strlit("4");
        reveal_strlit("5");
        reveal_strlit("6");
        reveal_strlit("7");
        reveal_strlit("8");
        reveal_strlit("9");
    }
    match d {
        0 => "0",
        1 => "1",
        2 => "2",
        3 => "3",
        4 => "4",
        5 => "5",
        6 => "6",
        7 => "7",
        8 => "8",
        _ => "9",
    }
}

/// The characters of the digit values in `s`, read back to front.
spec fn rev_chars(s: Seq<u8>) -> Seq<char> {
    Seq::new(s.len(), |i: int| digit_char(s[s.len() - 1 - i] as int))
}

/// Renders a version ordinal as its canonical decimal text, the form the
/// version marker file holds.
pub fn format_version(v: i32) -> (r: String)
    ensures
        r@ == int_literal(v as int),
{
    let mut magnitude: u64 = if v < 0 {
        (-(v as i64)) as u64
    } else {
        v as u64
    };
    let ghost total: nat = magnitude as nat;
    let mut low_digits: Vec<u8> = Vec::new();
    while magnitude >= 10
        invariant
            dec_digits(total) =~= dec_digits(magnitude as nat) + rev_chars(low_digits@),
            forall|i: int| 0 <= i < low_digits@.len() ==> low_digits@[i] < 10,
        decreases magnitude,
    {
        let d: u8 = (magnitude % 10) as u8;
        proof {
            let m = magnitude as nat;
            assert(dec_digits(m) =~= dec_digits(m / 10) + seq![digit_char((m % 10) as int)]);
            assert(rev_chars(low_digits@.push(d)) =~= seq![digit_char(d as int)] + rev_chars(
                low_digits@,
            ));
        }
        low_digits.push(d);
        magnitude = magnitude / 10;
    }
    let d: u8 = magnitude as u8;
    proof {
        assert(rev_chars(low_digits@.push(d)) =~= seq![digit_char(d as int)] + rev_chars(
            low_digits@,
        ));
    }
    low_digits.push(d);
    proof {
        assert(dec_digits(total) =~= rev_chars(low_digits@));
    }
    let mut out = String::new();
    if v < 0 {
        out.append("-");
        proof {
            reveal_strlit("-");
            assert(out@ =~= seq!['-']);
        }
    }
    let ghost sign: Seq<char> = out@;
    let n = low_digits.len();
    let mut j: usize = 0;
    while j < n
        invariant
            j <= n,
            n == low_digits@.len(),
            forall|i: int| 0 <= i < low_digits@.len() ==> low_digits@[i] < 10,
            out@ =~= sign + rev_chars(low_digits@).subrange(0, j as int),
        decreases n - j,
    {
        out.append(digit_str(low_digits[n - 1 - j]));
        proof {
            assert(rev_chars(low_digits@).subrange(0, j + 1) =~= rev_chars(
                low_digits@,
            ).subrange(0, j as int).push(digit_char(low_digits@[n as int - 1 - j as int] as int)));
        }
        j = j + 1;
    }
    proof {
        assert(rev_chars(low_digits@).subrange(0, n as int) =~= rev_chars(low_digits@));
        if v < 0 {
            assert(out@ =~= int_literal(v as int));
        } else {
            assert(sign =~= Seq::<char>::empty());
            assert(out@ =~= int_literal(v as int));
        }
    }
    out
}

proof fn lemma_digits_val_step(s: Seq<char>, start: int, i: int)
    requires
        0 <= start <= i < s.len(),
    ensures
        digits_val(s.subrange(start, i + 1)) == digits_val(s.subrange(start, i)) * 10 + (
        s[i] as u32 - 48),
{
    assert(s.subrange(start, i + 1).drop_last() =~= s.subrange(start, i));
    assert(s.subrange(start, i + 1).last() == s[i]);
}

/// Reads a version ordinal from the text of a version marker: an optional
/// sign followed by decimal digits, rejected exactly when the text is
/// empty, holds any other character, or denotes a value outside the
/// ordinal's range.
pub fn parse_version(s: &str) -> (r: Result<i32, VersionParseError>)
    ensures
        match r {
            Ok(v) => well_formed_decimal(s@) && i32::MIN <= decimal_value(s@) <= i32::MAX
                && v as int == decimal_value(s@),
            Err(VersionParseError::Empty) => s@.len() == 0,
            Err(VersionParseError::InvalidCharacter) => s@.len() > 0 && !well_formed_decimal(s@),
            Err(VersionParseError::OutOfRange) => well_formed_decimal(s@) && !(i32::MIN
                <= decimal_value(s@) <= i32::MAX),
        },
{
    let len = s.unicode_len();
    if len == 0 {
        return Err(VersionParseError::Empty);
    }
    let first = s.get_char(0);
    let negative: bool = first == '-';
    let start: usize = if first == '-' || first == '+' {
        1
    } else {
        0
    };
    proof {
        assert(unsigned_part(s@) =~= s@.subrange(start as int, len as int));
    }
    if len == start {
        return Err(VersionParseError::InvalidCharacter);
    }
    let mut acc: u64 = 0;
    let mut over: bool = false;
    let mut i: usize = start;
    while i < len
        invariant
            start <= i <= len,
            len == s@.len(),
            len > start,
            unsigned_part(s@) == s@.subrange(start as int, len as int),
            all_digits(s@.subrange(start as int, i as int)),
            !over ==> acc == digits_val(s@.subrange(start as int, i as int)) && acc
                <= 2147483648,
            over ==> digits_val(s@.subrange(start as int, i as int)) > 2147483648,
        decreases len - i,
    {
        let c = s.get_char(i);
        let cu = c as u32;
        if cu < 48 || cu > 57 {
            proof {
                assert(unsigned_part(s@)[i - start] == s@[i as int]);
                assert(!is_digit(unsigned_part(s@)[i - start]));
            }
            return Err(VersionParseError::InvalidCharacter);
        }
        proof {
            assert(s@.subrange(start as int, i + 1) =~= s@.subrange(
                start as int,
                i as int,
            ).push(s@[i as int]));
            lemma_digits_val_step(s@, start as int, i as int);
        }
        let d: u64 = (cu - 48) as u64;
        if !over {
            if acc > 214748364 || (acc == 214748364 && d > 8) {
                over = true;
            } else {
                acc = acc * 10 + d;
            }
        } else {
            proof {
                let prev = digits_val(s@.subrange(start as int, i as int));
                assert(prev * 10 + (s@[i as int] as u32 - 48) >= prev * 10);
                assert(prev * 10 > 2147483648 * 10) by {
                    assert(prev > 2147483648);
                };
            }
        }
        i = i + 1;
    }
    proof {
        assert(s@.subrange(start as int, len as int) =~= unsigned_part(s@));
        assert(well_formed_decimal(s@));
    }
    if over {
        return Err(VersionParseError::OutOfRange);
    }
    if negative {
        if acc == 2147483648 {
            Ok(i32::MIN)
        } else {
            Ok(-((acc as i64) as i32))
        }
    } else {
        if acc == 2147483648 {
            return Err(VersionParseError::OutOfRange);
        }
        Ok(acc as i32)
    }
}

} // verus!
