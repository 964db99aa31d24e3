//! Decimal text for optional-integer keys: a specification of how signed
//! decimal text denotes an `i32`, an executable parser, and an executable
//! formatter, with the round-trip proof that links them.
use vstd::prelude::*;

verus! {

broadcast use vstd::string::is_ascii_spec_bytes, vstd::utf8::is_ascii_chars_nat_bound;

/// The code of the minus sign.
pub open spec fn minus_code() -> int {
    45
}

/// The code of the plus sign.
pub open spec fn plus_code() -> int {
    43
}

/// Whether `c` is a decimal digit.
pub open spec fn is_digit(c: char) -> bool {
    48 <= c as int <= 57
}

/// The numeric value of a decimal digit.
pub open spec fn digit_val(c: char) -> int {
    c as int - 48
}

/// Whether every character of `s` is a decimal digit.
pub open spec fn all_digits(s: Seq<char>) -> bool {
    forall|i: int| 0 <= i < s.len() ==> is_digit(#[trigger] s[i])
}

/// The value denoted by a sequence of decimal digits, most significant first.
pub open spec fn digits_val(s: Seq<char>) -> int
    decreases s.len(),
{
    if s.len() == 0 {
        0
    } else {
        digits_val(s.drop_last()) * 10 + digit_val(s.last())
    }
}

/// The `i32` denoted by `s`: an optional sign, then at least one digit,
/// nothing else, and a value within the `i32` range; otherwise nothing.
/// This is the acceptance rule of `str::parse::<i32>`.
pub open spec fn parse_i32(s: Seq<char>) -> Option<i32> {
    let signed = s.len() > 0 && (s[0] as int == minus_code() || s[0] as int == plus_code());
    let neg = s.len() > 0 && s[0] as int == minus_code();
    let digits = if signed {
        s.skip(1)
    } else {
        s
    };
    if digits.len() == 0 || !all_digits(digits) {
        None
    } else {
        let v = if neg {
            -digits_val(digits)
        } else {
            digits_val(digits)
        };
        if i32::MIN <= v <= i32::MAX {
            Some(v as i32)
        } else {
            None
        }
    }
}

/// The digit character for a value below ten.
pub open spec fn digit_char(d: int) -> char {
    if d == 0 {
        '0'
    } else if d == 1 {
        '1'
    } else if d == 2 {
        '2'
    } else if d == 3 {
        '3'
    } else if d == 4 {
        '4'
    } else if d == 5 {
        '5'
    } else if d == 6 {
        '6'
    } else if d == 7 {
        '7'
    } else if d == 8 {
        '8'
    } else {
        '9'
    }
}

/// The decimal digits of `n`, most significant first, no sign and no
/// leading zero except for `n == 0` itself.
pub open spec fn dec_digits(n: nat) -> Seq<char>
    decreases n,
{
    if n < 10 {
        seq![digit_char(n as int)]
    } else {
        dec_digits(n / 10).push(digit_char((n % 10) as int))
    }
}

/// The canonical decimal text of `n`: a minus sign for negative values,
/// then the digits of the magnitude.
pub open spec fn decimal_of(n: int) -> Seq<char> {
    if n < 0 {
        seq!['-'] + dec_digits((-n) as nat)
    } else {
        dec_digits(n as nat)
    }
}

/// A digit sequence denotes a value no smaller than zero.
proof fn lemma_digits_val_nonneg(s: Seq<char>)
    requires
        all_digits(s),
    ensures
        digits_val(s) >= 0,
    decreases s.len(),
{
    if s.len() > 0 {
        assert(all_digits(s.drop_last()));
        lemma_digits_val_nonneg(s.drop_last());
    }
}

/// Dropping trailing digits never increases the denoted value.
proof fn lemma_digits_val_prefix(s: Seq<char>, k: int)
    requires
        all_digits(s),
        0 <= k <= s.len(),
    ensures
        digits_val(s.subrange(0, k)) <= digits_val(s),
    decreases s.len() - k,
{
    if k == s.len() {
        assert(s.subrange(0, k) =~= s);
    } else {
        let t = s.subrange(0, k + 1);
        lemma_digits_val_prefix(s, k + 1);
        assert(t.drop_last() =~= s.subrange(0, k));
        assert(all_digits(t.drop_last()));
        lemma_digits_val_nonneg(t.drop_last());
        assert(digits_val(t) == digits_val(t.drop_last()) * 10 + digit_val(t.last()));
        assert(digits_val(t.drop_last()) * 10 >= digits_val(t.drop_last())) by (nonlinear_arith)
            requires
                digits_val(t.drop_last()) >= 0,
        ;
    }
}

/// The digits of a magnitude are digits, there is at least one of them,
/// and they denote the magnitude itself.
proof fn lemma_dec_digits(n: nat)
    ensures
        all_digits(dec_digits(n)),
        dec_digits(n).len() >= 1,
        digits_val(dec_digits(n)) == n,
    decreases n,
{
    if n < 10 {
        let s = dec_digits(n);
        assert(s.drop_last() =~= Seq::<char>::empty());
        assert(digit_char(n as int) as int == 48 + n);
        assert(digits_val(s) == digits_val(s.drop_last()) * 10 + digit_val(s.last()));
    } else {
        lemma_dec_digits(n / 10);
        let s = dec_digits(n);
        assert(s.drop_last() =~= dec_digits(n / 10));
        assert(digit_char((n % 10) as int) as int == 48 + n % 10);
        assert(digits_val(s) == digits_val(s.drop_last()) * 10 + digit_val(s.last()));
        assert(n / 10 * 10 + n % 10 == n) by (nonlinear_arith);
        assert(forall|i: int| 0 <= i < s.len() ==> is_digit(#[trigger] s[i])) by {
            assert(forall|i: int| 0 <= i < s.len() - 1 ==> s[i] == dec_digits(n / 10)[i]);
        }
    }
}

/// An ASCII character has the same code as the byte it encodes to.
proof fn lemma_ascii_byte(c: char, b: u8)
    requires
        b == (c as u8),
        (c as nat) < 128,
    ensures
        c as int == b as int,
{
}

/// A character that is no digit, and no sign while it stands first,
/// makes the whole text denote nothing.
proof fn lemma_parse_none_with_bad_char(s: Seq<char>, j: int)
    requires
        0 <= j < s.len(),
        !is_digit(s[j]),
        j == 0 ==> !(s[0] as int == minus_code() || s[0] as int == plus_code()),
    ensures
        parse_i32(s) == None::<i32>,
{
    let signed = s.len() > 0 && (s[0] as int == minus_code() || s[0] as int == plus_code());
    if signed {
        let digits = s.skip(1);
        assert(digits[j - 1] == s[j]);
        assert(!all_digits(digits));
    } else {
        assert(!all_digits(s));
    }
}

/// Digits already worth more than the largest `i32` magnitude make the
/// whole text denote nothing, whatever follows them.
proof fn lemma_parse_overflow(s: Seq<char>, start: int, k: int)
    requires
        0 <= start <= k <= s.len(),
        start == (if s.len() > 0 && (s[0] as int == minus_code() || s[0] as int == plus_code()) {
            1int
        } else {
            0int
        }),
        all_digits(s.subrange(start, k)),
        digits_val(s.subrange(start, k)) > 2147483648,
    ensures
        parse_i32(s) == None::<i32>,
{
    let digits = if start == 1 {
        s.skip(1)
    } else {
        s
    };
    assert(digits =~= s.subrange(start, s.len() as int));
    if all_digits(digits) {
        assert(s.subrange(start, k) =~= digits.subrange(0, k - start));
        lemma_digits_val_prefix(digits, k - start);
    }
}

/// Parsing the canonical decimal text of an `i32` gives back the value.
pub proof fn lemma_parse_decimal_roundtrip(n: i32)
    ensures
        parse_i32(decimal_of(n as int)) == Some(n),
{
    if n >= 0 {
        let s = decimal_of(n as int);
        lemma_dec_digits(n as nat);
        assert(is_digit(s[0]));
    } else {
        let mag = (-(n as int)) as nat;
        lemma_dec_digits(mag);
        let s = decimal_of(n as int);
        assert(s[0] as int == minus_code());
        assert(s.skip(1) =~= dec_digits(mag));
    }
}

/// Parses signed decimal text into an `i32`, accepting exactly what
/// `parse_i32` accepts: an optional sign, then only digits, within range.
pub fn parse_decimal(s: &str) -> (r: Option<i32>)
    ensures
        r == parse_i32(s@),
{
    if !s.is_ascii() {
        proof {
            assert(!vstd::utf8::is_ascii_chars(s@));
            let j = choose|i: int|
                0 <= i < s@.len() && !('\0' <= #[trigger] s@[i] <= '\u{7f}');
            lemma_parse_none_with_bad_char(s@, j);
        }
        return None;
    }
    let bytes = s.as_bytes();
    let n = bytes.len();
    proof {
        assert(bytes@ =~= Seq::new(s@.len(), |i: int| s@[i] as u8));
    }
    assert(n == s@.len());
    assert(forall|k: int| 0 <= k < s@.len() ==> bytes@[k] == (#[trigger] s@[k]) as u8);
    assert(forall|k: int| 0 <= k < s@.len() ==> ((#[trigger] s@[k]) as nat) < 128);
    if n == 0 {
        return None;
    }
    let b0 = bytes[0];
    proof {
        lemma_ascii_byte(s@[0], b0);
    }
    let mut start: usize = 0;
    let mut neg: bool = false;
    if b0 == 45u8 {
        neg = true;
        start = 1;
    } else if b0 == 43u8 {
        start = 1;
    }
    let ghost digits = if start == 1 {
        s@.skip(1)
    } else {
        s@
    };
    if start == n {
        assert(digits.len() == 0);
        return None;
    }
    let mut j = start;
    let mut acc: u64 = 0;
    while j < n
        invariant
            start <= j <= n,
            start < n,
            start <= 1,
            n == s@.len(),
            n == bytes@.len(),
            forall|k: int| 0 <= k < s@.len() ==> bytes@[k] == (#[trigger] s@[k]) as u8,
            forall|k: int| 0 <= k < s@.len() ==> ((#[trigger] s@[k]) as nat) < 128,
            (start == 1) == (s@[0] as int == minus_code() || s@[0] as int == plus_code()),
            neg == (s@[0] as int == minus_code()),
            digits == (if start == 1 {
                s@.skip(1)
            } else {
                s@
            }),
            acc <= 2147483648,
            acc as int == digits_val(s@.subrange(start as int, j as int)),
            all_digits(s@.subrange(start as int, j as int)),
        decreases n - j,
    {
        let b = bytes[j];
        if b < 48 || b > 57 {
            proof {
                lemma_ascii_byte(s@[j as int], b);
                assert(!is_digit(s@[j as int]));
                lemma_parse_none_with_bad_char(s@, j as int);
            }
            return None;
        }
        proof {
            let t = s@.subrange(start as int, j as int + 1);
            assert(t.drop_last() =~= s@.subrange(start as int, j as int));
            assert(t.last() == s@[j as int]);
            lemma_ascii_byte(s@[j as int], b);
            assert(is_digit(s@[j as int]));
            assert(digit_val(s@[j as int]) == b - 48);
            assert(digits_val(t) == digits_val(t.drop_last()) * 10 + digit_val(t.last()));
        }
        acc = acc * 10 + ((b - 48) as u64);
        if acc > 2147483648u64 {
            proof {
                lemma_parse_overflow(s@, start as int, j as int + 1);
            }
            return None;
        }
        j = j + 1;
    }
    proof {
        assert(s@.subrange(start as int, n as int) =~= digits);
        lemma_digits_val_nonneg(digits);
    }
    if neg {
        if acc == 2147483648u64 {
            Some(i32::MIN)
        } else {
            Some(-(acc as i32))
        }
    } else {
        if acc > 2147483647u64 {
            None
        } else {
            Some(acc as i32)
        }
    }
}

/// A one-character string holding one digit.
fn digit_str(d: u32) -> (r: &'static str)
    requires
        d < 10,
    ensures
        r@ == seq![digit_char(d as int)],
{
    proof {
        reveal_strlit("0");
        reveal_strlit("1");
        reveal_strlit("2");
        reveal_strlit("3");
        reveal_strlit("4");
        reveal_strlit("5");
        reveal_strlit("6");
        reveal_strlit("7");
        reveal_strlit("8");
        reveal_strlit("9");
    }
    if d == 0 {
        proof { assert("0"@ =~= seq![digit_char(0)]); }
        "0"
    } else if d == 1 {
        proof { assert("1"@ =~= seq![digit_char(1)]); }
        "1"
    } else if d == 2 {
        proof { assert("2"@ =~= seq![digit_char(2)]); }
        "2"
    } else if d == 3 {
        proof { assert("3"@ =~= seq![digit_char(3)]); }
        "3"
    } else if d == 4 {
        proof { assert("4"@ =~= seq![digit_char(4)]); }
        "4"
    } else if d == 5 {
        proof { assert("5"@ =~= seq![digit_char(5)]); }
        "5"
    } else if d == 6 {
        proof { assert("6"@ =~= seq![digit_char(6)]); }
        "6"
    } else if d == 7 {
        proof { assert("7"@ =~= seq![digit_char(7)]); }
        "7"
    } else if d == 8 {
        proof { assert("8"@ =~= seq![digit_char(8)]); }
        "8"
    } else {
        proof { assert("9"@ =~= seq![digit_char(9)]); }
        "9"
    }
}

/// Appends the decimal digits of `m`, most significant first.
fn push_dec_digits(out: &mut String, m: u32)
    ensures
        final(out)@ == old(out)@ + dec_digits(m as nat),
    decreases m,
{
    if m >= 10 {
        assert(m / 10 < m) by (nonlinear_arith)
            requires
                m >= 10,
        ;
        push_dec_digits(out, m / 10);
    }
    let ds = digit_str(m % 10);
    out.append(ds);
    proof {
        if m >= 10 {
            assert(dec_digits(m as nat) == dec_digits(m as nat / 10).push(
                digit_char((m as nat % 10) as int),
            ));
            assert(m as nat / 10 == (m / 10) as nat);
            assert((m as nat % 10) as int == (m % 10) as int);
            assert(final(out)@ =~= old(out)@ + dec_digits(m as nat));
        } else {
            assert(dec_digits(m as nat) == seq![digit_char(m as int)]);
            assert(final(out)@ =~= old(out)@ + dec_digits(m as nat));
        }
    }
}

/// Formats an `i32` as its canonical decimal text.
pub fn decimal_string(n: i32) -> (r: String)
    ensures
        r@ == decimal_of(n as int),
{
    let mut out = String::new();
    if n < 0 {
        proof {
            reveal_strlit("-");
            assert("-"@ =~= seq!['-']);
        }
        out.append("-");
        let mag: u32 = if n == i32::MIN {
            2147483648u32
        } else {
            (-n) as u32
        };
        assert(mag as nat == (-(n as int)) as nat);
        push_dec_digits(&mut out, mag);
        proof {
            assert(out@ =~= seq!['-'] + dec_digits(mag as nat));
        }
    } else {
        push_dec_digits(&mut out, n as u32);
        proof {
            assert(out@ =~= dec_digits(n as nat));
        }
    }
    out
}

} // verus!
