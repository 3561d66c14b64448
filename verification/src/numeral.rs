//! Numerals: reading and writing integers as text.

use vstd::prelude::*;

use crate::text::chars_of;

verus! {

/// `c` is a decimal digit.
pub open spec fn is_digit(c: char) -> bool {
    '0' <= c <= '9'
}

/// Every character of `s` is a decimal digit.
pub open spec fn all_digits(s: Seq<char>) -> bool {
    forall|i: int| 0 <= i < s.len() ==> is_digit(#[trigger] s[i])
}

/// The number that a row of digits stands for.
pub open spec fn digits_value(s: Seq<char>) -> nat
    decreases s.len(),
{
    if s.len() == 0 {
        0
    } else {
        digits_value(s.drop_last()) * 10 + (s.last() as nat - '0' as nat) as nat
    }
}

/// The value of a non-empty row of digits.
pub open spec fn digits_number(s: Seq<char>) -> Option<nat> {
    if s.len() > 0 && all_digits(s) {
        Some(digits_value(s))
    } else {
        None
    }
}

/// `s` without the sign `c` at its start.
pub open spec fn unsigned_part(s: Seq<char>, c: char) -> Seq<char> {
    if s.len() > 0 && s[0] == c {
        s.drop_first()
    } else {
        s
    }
}

/// What a text says as a `u64`: digits, after an optional plus sign, whose value
/// is in range.
pub open spec fn u64_text(s: Seq<char>) -> Option<u64> {
    match digits_number(unsigned_part(s, '+')) {
        Some(n) => if n <= u64::MAX {
            Some(n as u64)
        } else {
            None
        },
        None => None,
    }
}

/// What a text says as an `i32`: digits, after an optional sign, whose value is
/// in range.
pub open spec fn i32_text(s: Seq<char>) -> Option<i32> {
    if s.len() > 0 && s[0] == '-' {
        match digits_number(s.drop_first()) {
            Some(n) => if n <= 0x8000_0000 {
                Some((-(n as int)) as i32)
            } else {
                None
            },
            None => None,
        }
    } else {
        match digits_number(unsigned_part(s, '+')) {
            Some(n) => if n <= i32::MAX {
                Some(n as i32)
            } else {
                None
            },
            None => None,
        }
    }
}

proof fn lemma_digits_value_grows(s: Seq<char>, i: int)
    requires
        all_digits(s),
        0 <= i <= s.len(),
    ensures
        digits_value(s.take(i)) <= digits_value(s),
    decreases s.len() - i,
{
    if i < s.len() {
        lemma_digits_value_grows(s, i + 1);
        assert(s.take(i + 1).drop_last() =~= s.take(i));
        assert(is_digit(s[i]));
    } else {
        assert(s.take(i) =~= s);
    }
}

/// The value of `chars[from..]`, where it is a non-empty row of digits and at
/// most `max`.
fn read_digits(chars: &Vec<char>, from: usize, max: u64) -> (r: Option<u64>)
    requires
        from <= chars@.len(),
        max >= 9,
    ensures
        match r {
            Some(n) => digits_number(chars@.skip(from as int)) == Some(n as nat) && n <= max,
            None => match digits_number(chars@.skip(from as int)) {
                Some(n) => n > max,
                None => true,
            },
        },
{
    let n = chars.len();
    let ghost s = chars@.skip(from as int);
    if from == n {
        return None;
    }
    let mut acc: u64 = 0;
    let mut i: usize = from;
    while i < n
        invariant
            from <= i <= n == chars@.len(),
            s == chars@.skip(from as int),
            all_digits(s.take(i - from)),
            acc == digits_value(s.take(i - from)),
            acc <= max,
            max >= 9,
        decreases n - i,
    {
        let c = chars[i];
        assert(s[i - from] == c);
        if !(c >= '0' && c <= '9') {
            assert(!is_digit(s[i - from]));
            return None;
        }
        let d: u64 = (c as u32 - '0' as u32) as u64;
        let ghost longer = s.take(i - from + 1);
        assert(longer.drop_last() =~= s.take(i - from));
        assert(longer.last() == c);
        assert(digits_value(longer) == acc * 10 + d);
        if acc > max / 10 || acc * 10 > max - d {
            proof {
                if all_digits(s) {
                    lemma_digits_value_grows(s, i - from + 1);
                }
            }
            return None;
        }
        acc = acc * 10 + d;
        i += 1;
        assert(all_digits(s.take(i - from))) by {
            assert forall|k: int| 0 <= k < i - from implies is_digit(
                #[trigger] s.take(i - from)[k],
            ) by {
                if k < i - from - 1 {
                    assert(s.take(i - from - 1)[k] == s.take(i - from)[k]);
                }
            }
        }
    }
    assert(s.take(n - from) =~= s);
    Some(acc)
}

/// Reads a `u64`.
pub fn parse_u64(s: &str) -> (r: Option<u64>)
    ensures
        r == u64_text(s@),
{
    let chars = chars_of(s);
    let from: usize = if chars.len() > 0 && chars[0] == '+' {
        1
    } else {
        0
    };
    assert(chars@.skip(from as int) =~= unsigned_part(s@, '+'));
    read_digits(&chars, from, u64::MAX)
}

/// Reads an `i32`.
pub fn parse_i32(s: &str) -> (r: Option<i32>)
    ensures
        r == i32_text(s@),
{
    let chars = chars_of(s);
    if chars.len() > 0 && chars[0] == '-' {
        assert(chars@.skip(1) =~= s@.drop_first());
        match read_digits(&chars, 1, 0x8000_0000) {
            Some(n) => {
                let v: i64 = -(n as i64);
                Some(v as i32)
            },
            None => None,
        }
    } else {
        let from: usize = if chars.len() > 0 && chars[0] == '+' {
            1
        } else {
            0
        };
        assert(chars@.skip(from as int) =~= unsigned_part(s@, '+'));
        match read_digits(&chars, from, 0x7fff_ffff) {
            Some(n) => Some(n as i32),
            None => None,
        }
    }
}

/// The digit of value `d` in a base of at most sixteen.
pub open spec fn digit_char(d: nat) -> char {
    if d < 10 {
        (d + '0' as nat) as char
    } else {
        (d - 10 + 'a' as nat) as char
    }
}

/// The numeral of `n` in `base`.
pub open spec fn numeral(n: nat, base: nat) -> Seq<char>
    decreases n,
{
    if base < 2 || n < base {
        seq![digit_char(n)]
    } else {
        proof {
            assert(n / base < n) by (nonlinear_arith)
                requires
                    base >= 2,
                    n >= base,
            ;
        }
        numeral(n / base, base).push(digit_char(n % base))
    }
}

/// The decimal numeral of `n`.
pub open spec fn decimal(n: nat) -> Seq<char> {
    numeral(n, 10)
}

/// The decimal numeral of `n`, with a minus sign where it is negative.
pub open spec fn signed_decimal(n: int) -> Seq<char> {
    if n < 0 {
        seq!['-'] + decimal((-n) as nat)
    } else {
        decimal(n as nat)
    }
}

/// The hexadecimal numeral of `n`, in lower case.
pub open spec fn hexadecimal(n: nat) -> Seq<char> {
    numeral(n, 16)
}

fn digit_of(d: u64) -> (c: char)
    requires
        d < 16,
    ensures
        c == digit_char(d as nat),
{
    if d < 10 {
        (d as u8 + '0' as u8) as char
    } else {
        (d as u8 - 10 + 'a' as u8) as char
    }
}

fn write_numeral(n: u64, base: u64) -> (r: String)
    requires
        2 <= base <= 16,
    ensures
        r@ == numeral(n as nat, base as nat),
    decreases n,
{
    if n < base {
        let mut out = String::new();
        out.push(digit_of(n));
        assert(out@ =~= seq![digit_char(n as nat)]);
        out
    } else {
        proof {
            assert(n / base < n) by (nonlinear_arith)
                requires
                    base >= 2,
                    n >= base,
            ;
            assert(n % base < base) by (nonlinear_arith)
                requires
                    base >= 2,
            ;
        }
        let mut out = write_numeral(n / base, base);
        out.push(digit_of(n % base));
        out
    }
}

/// Writes `n` in decimal.
pub fn decimal_text(n: u64) -> (r: String)
    ensures
        r@ == decimal(n as nat),
{
    write_numeral(n, 10)
}

/// Writes `n` in decimal.
pub fn signed_decimal_text(n: i32) -> (r: String)
    ensures
        r@ == signed_decimal(n as int),
{
    if n < 0 {
        let magnitude: i64 = -(n as i64);
        let mut out = String::new();
        out.push('-');
        assert(out@ =~= seq!['-']);
        out.append(write_numeral(magnitude as u64, 10).as_str());
        out
    } else {
        write_numeral(n as u64, 10)
    }
}

/// Writes `n` in lower-case hexadecimal.
pub fn hexadecimal_text(n: u64) -> (r: String)
    ensures
        r@ == hexadecimal(n as nat),
{
    write_numeral(n, 16)
}

/// A decimal numeral is a non-empty row of digits that stands for its number.
pub proof fn lemma_decimal_digits(n: nat)
    ensures
        digits_number(decimal(n)) == Some(n),
    decreases n,
{
    if n < 10 {
        let s = decimal(n);
        assert(s =~= seq![digit_char(n)]);
        assert(s.drop_last() =~= Seq::empty());
        assert(digits_value(s.drop_last()) == 0);
        assert(is_digit(s[0]));
    } else {
        lemma_decimal_digits(n / 10);
        let s = decimal(n);
        let front = decimal(n / 10);
        assert(s == front.push(digit_char(n % 10)));
        assert(s.drop_last() =~= front);
        assert(all_digits(s)) by {
            assert forall|i: int| 0 <= i < s.len() implies is_digit(#[trigger] s[i]) by {
                if i < front.len() {
                    assert(s[i] == front[i]);
                }
            }
        }
    }
}

/// Reading back a written `u64` gives the number.
pub proof fn law_u64_round_trip(n: u64)
    ensures
        u64_text(decimal(n as nat)) == Some(n),
{
    lemma_decimal_digits(n as nat);
    let s = decimal(n as nat);
    assert(is_digit(s[0]));
    assert(unsigned_part(s, '+') == s);
}

/// Reading back a written `i32` gives the number.
pub proof fn law_i32_round_trip(n: i32)
    ensures
        i32_text(signed_decimal(n as int)) == Some(n),
{
    let s = signed_decimal(n as int);
    if n < 0 {
        lemma_decimal_digits((-n) as nat);
        assert(s.drop_first() =~= decimal((-n) as nat));
    } else {
        lemma_decimal_digits(n as nat);
        assert(is_digit(s[0]));
        assert(unsigned_part(s, '+') == s);
    }
}

/// A hexadecimal numeral is a non-empty row of digits and small letters.
pub proof fn lemma_hexadecimal_digits(n: nat)
    ensures
        hexadecimal(n).len() > 0,
        forall|i: int|
            0 <= i < hexadecimal(n).len() ==> is_digit(#[trigger] hexadecimal(n)[i]) || 'a'
                <= hexadecimal(n)[i] <= 'f',
    decreases n,
{
    if n >= 16 {
        lemma_hexadecimal_digits(n / 16);
        let front = hexadecimal(n / 16);
        assert forall|i: int| 0 <= i < hexadecimal(n).len() implies is_digit(
            #[trigger] hexadecimal(n)[i],
        ) || 'a' <= hexadecimal(n)[i] <= 'f' by {
            if i < front.len() {
                assert(hexadecimal(n)[i] == front[i]);
            }
        }
    }
}

// ---------------------------------------------------------------------------
// Laws
// ---------------------------------------------------------------------------


/// The decimal numeral of a number ends in the digit of its units, after the numeral
/// of its tens.
pub proof fn law_decimal_digits(n: nat)
    ensures
        decimal(n).len() > 0,
        decimal(n).last() as nat == '0' as nat + n % 10,
        n < 10 ==> decimal(n).len() == 1,
        n >= 10 ==> decimal(n).drop_last() == decimal(n / 10),
        n > 0 ==> decimal(n)[0] != '0',
    decreases n,
{
    if n >= 10 {
        law_decimal_digits(n / 10);
        let front = decimal(n / 10);
        assert(decimal(n) == front.push(digit_char(n % 10)));
        assert(decimal(n).drop_last() =~= front);
        assert(decimal(n)[0] == front[0]);
    }
}

/// The hexadecimal numeral of a number ends in the digit of its remainder by sixteen,
/// after the numeral of its sixteenth part.
pub proof fn law_hexadecimal_digits(n: nat)
    ensures
        hexadecimal(n).len() > 0,
        n % 16 < 10 ==> hexadecimal(n).last() as nat == '0' as nat + n % 16,
        n % 16 >= 10 ==> hexadecimal(n).last() as nat == 'a' as nat + (n % 16 - 10),
        n < 16 ==> hexadecimal(n).len() == 1,
        n >= 16 ==> hexadecimal(n).drop_last() == hexadecimal(n / 16),
{
    if n >= 16 {
        let front = hexadecimal(n / 16);
        assert(hexadecimal(n) == front.push(digit_char(n % 16)));
        assert(hexadecimal(n).drop_last() =~= front);
    }
}

/// A negative number is written as a minus sign and its magnitude.
pub proof fn law_sign_is_written(n: int)
    ensures
        n >= 0 ==> signed_decimal(n) == decimal(n as nat),
        n < 0 ==> signed_decimal(n) == seq!['-'] + decimal((-n) as nat),
{
}

/// One more digit makes ten times the number and the digit, where that fits in 64
/// bits; any other character makes no number. A plus sign may come first.
pub proof fn law_u64_digit_by_digit(s: Seq<char>, c: char)
    ensures
        u64_text(Seq::empty()) is None,
        u64_text(seq!['+']) is None,
        s.len() == 0 || s == seq!['+'] ==> u64_text(s.push(c)) == (if '0' <= c <= '9' {
            Some((c as u64 - '0' as u64) as u64)
        } else {
            None
        }),
        s.len() > 0 && s != seq!['+'] ==> u64_text(s.push(c)) == match u64_text(s) {
            Some(n) => if '0' <= c <= '9' && n * 10 + (c as nat - '0' as nat)
                <= 0xffff_ffff_ffff_ffff {
                Some((n * 10 + (c as nat - '0' as nat)) as u64)
            } else {
                None
            },
            None => None,
        },
{
    let t = s.push(c);
    assert(unsigned_part(seq!['+'], '+') =~= Seq::empty());
    if s.len() == 0 {
        if c == '+' {
            assert(unsigned_part(t, '+') =~= Seq::empty());
        } else {
            assert(unsigned_part(t, '+') =~= seq![c]);
            lemma_digits_push(Seq::empty(), c);
            assert(Seq::<char>::empty().push(c) =~= seq![c]);
        }
    } else {
        assert(t[0] == s[0]);
        assert(unsigned_part(t, '+') =~= unsigned_part(s, '+').push(c));
        lemma_digits_push(unsigned_part(s, '+'), c);
        if s == seq!['+'] {
            assert(unsigned_part(s, '+') =~= Seq::empty());
        } else if s[0] == '+' {
            if s.len() == 1 {
                assert(s =~= seq!['+']);
            }
        }
    }
}

proof fn lemma_digits_push(s: Seq<char>, c: char)
    ensures
        all_digits(s.push(c)) <==> all_digits(s) && is_digit(c),
        digits_value(s.push(c)) == digits_value(s) * 10 + (c as nat - '0' as nat) as nat,
{
    assert(s.push(c).drop_last() =~= s);
    assert(s.push(c)[s.len() as int] == c);
    if all_digits(s.push(c)) {
        assert forall|i: int| 0 <= i < s.len() implies is_digit(#[trigger] s[i]) by {
            assert(s.push(c)[i] == s[i]);
        }
    }
}

/// A text is read as a signed number where it is read as an unsigned one that fits in
/// 32 bits, or where it is a minus sign and digits of such a magnitude.
pub proof fn law_i32_by_u64(s: Seq<char>)
    ensures
        s.len() == 0 || s[0] != '-' ==> i32_text(s) == match u64_text(s) {
            Some(n) => if n <= 0x7fff_ffff {
                Some(n as i32)
            } else {
                None
            },
            None => None,
        },
        s.len() > 0 && s[0] == '-' ==> i32_text(s) == (if s.len() > 1 && s[1] == '+' {
            None
        } else {
            match u64_text(s.drop_first()) {
                Some(n) => if n <= 0x8000_0000 {
                    Some((-(n as int)) as i32)
                } else {
                    None
                },
                None => None,
            }
        }),
{
    if s.len() > 0 && s[0] == '-' {
        let t = s.drop_first();
        if s.len() > 1 {
            assert(t[0] == s[1]);
            if s[1] == '+' {
                assert(!is_digit(t[0]));
            }
        }
    }
}

} // verus!
