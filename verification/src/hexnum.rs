//! Decimal and hexadecimal text codecs for the integer fields of the
//! trace protocol: strict parsers with exact success conditions, and a
//! decimal formatter.

use vstd::prelude::*;

verus! {

/// True for the ASCII decimal digits `0`..`9`.
pub open spec fn spec_is_dec_digit(c: char) -> bool {
    '0' <= c && c <= '9'
}

/// Value of a decimal digit; meaningful only under [`spec_is_dec_digit`].
pub open spec fn spec_dec_val(c: char) -> nat {
    (c as u32 - '0' as u32) as nat
}

/// True for the ASCII hexadecimal digits `0`..`9`, `a`..`f`, `A`..`F`.
pub open spec fn spec_is_hex_digit(c: char) -> bool {
    ('0' <= c && c <= '9') || ('a' <= c && c <= 'f') || ('A' <= c && c <= 'F')
}

/// Value of a hexadecimal digit; meaningful only under [`spec_is_hex_digit`].
pub open spec fn spec_hex_val(c: char) -> nat {
    if '0' <= c && c <= '9' {
        (c as u32 - '0' as u32) as nat
    } else if 'a' <= c && c <= 'f' {
        (c as u32 - 'a' as u32 + 10) as nat
    } else {
        (c as u32 - 'A' as u32 + 10) as nat
    }
}

/// All characters of `s` are decimal digits.
pub open spec fn spec_all_dec_digits(s: Seq<char>) -> bool {
    forall|i: int| 0 <= i < s.len() ==> spec_is_dec_digit(#[trigger] s[i])
}

/// All characters of `s` are hexadecimal digits.
pub open spec fn spec_all_hex_digits(s: Seq<char>) -> bool {
    forall|i: int| 0 <= i < s.len() ==> spec_is_hex_digit(#[trigger] s[i])
}

/// The number denoted by `s` read as a decimal numeral (empty reads as 0).
pub open spec fn spec_dec_nat(s: Seq<char>) -> nat
    decreases s.len(),
{
    if s.len() == 0 {
        0
    } else {
        spec_dec_nat(s.drop_last()) * 10 + spec_dec_val(s.last())
    }
}

/// The number denoted by `s` read as a hexadecimal numeral (empty reads as 0).
pub open spec fn spec_hex_nat(s: Seq<char>) -> nat
    decreases s.len(),
{
    if s.len() == 0 {
        0
    } else {
        spec_hex_nat(s.drop_last()) * 16 + spec_hex_val(s.last())
    }
}

/// A longer prefix of a numeral never denotes a smaller number.
proof fn lemma_dec_nat_prefix_le(s: Seq<char>, i: int, j: int)
    requires
        0 <= i <= j <= s.len(),
    ensures
        spec_dec_nat(s.take(i)) <= spec_dec_nat(s.take(j)),
    decreases j - i,
{
    if i < j {
        lemma_dec_nat_prefix_le(s, i, j - 1);
        assert(s.take(j).drop_last() =~= s.take(j - 1));
    }
}

/// A longer prefix of a hex numeral never denotes a smaller number.
proof fn lemma_hex_nat_prefix_le(s: Seq<char>, i: int, j: int)
    requires
        0 <= i <= j <= s.len(),
    ensures
        spec_hex_nat(s.take(i)) <= spec_hex_nat(s.take(j)),
    decreases j - i,
{
    if i < j {
        lemma_hex_nat_prefix_le(s, i, j - 1);
        assert(s.take(j).drop_last() =~= s.take(j - 1));
    }
}

/// Decimal digit value of `c`, or `None` if `c` is no decimal digit.
pub fn dec_digit_val(c: char) -> (r: Option<u8>)
    ensures
        r is Some <==> spec_is_dec_digit(c),
        r is Some ==> r->0 == spec_dec_val(c) && r->0 <= 9,
{
    let v = c as u32;
    if 48 <= v && v <= 57 {
        Some((v - 48) as u8)
    } else {
        None
    }
}

/// Hexadecimal digit value of `c`, or `None` if `c` is no hex digit.
pub fn hex_digit_val(c: char) -> (r: Option<u8>)
    ensures
        r is Some <==> spec_is_hex_digit(c),
        r is Some ==> r->0 == spec_hex_val(c) && r->0 <= 15,
{
    let v = c as u32;
    if 48 <= v && v <= 57 {
        Some((v - 48) as u8)
    } else if 97 <= v && v <= 102 {
        Some((v - 97 + 10) as u8)
    } else if 65 <= v && v <= 70 {
        Some((v - 65 + 10) as u8)
    } else {
        None
    }
}

/// Strict decimal parser: succeeds exactly on non-empty all-digit
/// numerals whose value fits in a `u64`.
pub fn parse_dec_u64(s: &Vec<char>) -> (r: Option<u64>)
    ensures
        r is Some <==> s@.len() > 0 && spec_all_dec_digits(s@) && spec_dec_nat(s@) <= u64::MAX,
        r is Some ==> r->0 == spec_dec_nat(s@),
{
    if s.len() == 0 {
        return None;
    }
    let mut acc: u64 = 0;
    let mut j: usize = 0;
    while j < s.len()
        invariant
            0 <= j <= s@.len(),
            spec_all_dec_digits(s@.take(j as int)),
            acc == spec_dec_nat(s@.take(j as int)),
        decreases s@.len() - j,
    {
        let c = s[j];
        let d = match dec_digit_val(c) {
            Some(d) => d,
            None => {
                assert(!spec_all_dec_digits(s@)) by {
                    assert(s@[j as int] == c);
                }
                return None;
            },
        };
        if acc > u64::MAX / 10 || (acc == u64::MAX / 10 && d > 5) {
            proof {
                assert(s@.take(j + 1).drop_last() =~= s@.take(j as int));
                assert(spec_dec_nat(s@.take(j + 1)) > u64::MAX);
                lemma_dec_nat_prefix_le(s@, j + 1, s@.len() as int);
                assert(s@.take(s@.len() as int) =~= s@);
            }
            return None;
        }
        proof {
            assert(s@.take(j + 1).drop_last() =~= s@.take(j as int));
        }
        acc = acc * 10 + (d as u64);
        j = j + 1;
    }
    proof {
        assert(s@.take(s@.len() as int) =~= s@);
    }
    Some(acc)
}

/// Strict hexadecimal parser: succeeds exactly on non-empty all-hex
/// numerals whose value fits in a `u64`.
pub fn parse_hex_u64(s: &Vec<char>) -> (r: Option<u64>)
    ensures
        r is Some <==> s@.len() > 0 && spec_all_hex_digits(s@) && spec_hex_nat(s@) <= u64::MAX,
        r is Some ==> r->0 == spec_hex_nat(s@),
{
    if s.len() == 0 {
        return None;
    }
    let mut acc: u64 = 0;
    let mut j: usize = 0;
    while j < s.len()
        invariant
            0 <= j <= s@.len(),
            spec_all_hex_digits(s@.take(j as int)),
            acc == spec_hex_nat(s@.take(j as int)),
        decreases s@.len() - j,
    {
        let c = s[j];
        let d = match hex_digit_val(c) {
            Some(d) => d,
            None => {
                assert(!spec_all_hex_digits(s@)) by {
                    assert(s@[j as int] == c);
                }
                return None;
            },
        };
        if acc > u64::MAX / 16 {
            proof {
                assert(s@.take(j + 1).drop_last() =~= s@.take(j as int));
                assert(spec_hex_nat(s@.take(j + 1)) > u64::MAX);
                lemma_hex_nat_prefix_le(s@, j + 1, s@.len() as int);
                assert(s@.take(s@.len() as int) =~= s@);
            }
            return None;
        }
        proof {
            assert(s@.take(j + 1).drop_last() =~= s@.take(j as int));
        }
        acc = acc * 16 + (d as u64);
        j = j + 1;
    }
    proof {
        assert(s@.take(s@.len() as int) =~= s@);
    }
    Some(acc)
}

/// Strict decimal parser into `u8`: succeeds exactly on non-empty
/// all-digit numerals whose value fits in a `u8`.
pub fn parse_dec_u8(s: &Vec<char>) -> (r: Option<u8>)
    ensures
        r is Some <==> s@.len() > 0 && spec_all_dec_digits(s@) && spec_dec_nat(s@) <= u8::MAX,
        r is Some ==> r->0 == spec_dec_nat(s@),
{
    match parse_dec_u64(s) {
        Some(n) if n <= 255 => Some(n as u8),
        _ => None,
    }
}

/// Strict decimal parser into `u32`: succeeds exactly on non-empty
/// all-digit numerals whose value fits in a `u32`.
pub fn parse_dec_u32(s: &Vec<char>) -> (r: Option<u32>)
    ensures
        r is Some <==> s@.len() > 0 && spec_all_dec_digits(s@) && spec_dec_nat(s@) <= u32::MAX,
        r is Some ==> r->0 == spec_dec_nat(s@),
{
    match parse_dec_u64(s) {
        Some(n) if n <= 0xFFFF_FFFF => Some(n as u32),
        _ => None,
    }
}

/// Digit character of a value below ten.
pub open spec fn spec_digit_char(d: nat) -> char
    recommends
        d < 10,
{
    (('0' as u8) + d as u8) as char
}

/// Canonical decimal numeral of `n`: no sign, no leading zero except
/// for the numeral `0` itself.
pub open spec fn spec_dec_chars(n: nat) -> Seq<char>
    decreases n,
{
    if n < 10 {
        seq![spec_digit_char(n)]
    } else {
        spec_dec_chars(n / 10).push(spec_digit_char(n % 10))
    }
}

/// Formats `n` as its canonical decimal numeral.
pub fn u64_to_dec_chars(n: u64) -> (r: Vec<char>)
    ensures
        r@ == spec_dec_chars(n as nat),
{
    let mut digits: Vec<char> = Vec::new();
    let mut x: u64 = n;
    loop
        invariant_except_break
            digits@.len() == 0 ==> x == n,
            digits@.len() > 0 ==> x > 0 && spec_dec_chars(n as nat) =~= spec_dec_chars(x as nat)
                + digits@.reverse(),
        ensures
            spec_dec_chars(n as nat) =~= digits@.reverse(),
        decreases x,
    {
        let d: u8 = (x % 10) as u8;
        let c = (48 + d) as char;
        assert(c == spec_digit_char((x % 10) as nat));
        let ghost prev = digits@;
        let ghost x_old = x;
        digits.push(c);
        proof {
            assert(digits@.reverse() =~= seq![c] + prev.reverse());
        }
        x = x / 10;
        proof {
            if x_old < 10 {
                assert(spec_dec_chars(x_old as nat) =~= seq![c]);
            } else {
                assert(spec_dec_chars(x_old as nat) =~= spec_dec_chars((x_old / 10) as nat)
                    + seq![c]);
            }
            if prev.len() == 0 {
                if x_old >= 10 {
                    assert(spec_dec_chars(n as nat) =~= spec_dec_chars(x as nat)
                        + digits@.reverse());
                } else {
                    assert(spec_dec_chars(n as nat) =~= digits@.reverse());
                }
            } else {
                assert(spec_dec_chars(n as nat) =~= spec_dec_chars(x_old as nat)
                    + prev.reverse());
                if x_old >= 10 {
                    assert(spec_dec_chars(n as nat) =~= spec_dec_chars(x as nat)
                        + digits@.reverse());
                } else {
                    assert(spec_dec_chars(n as nat) =~= digits@.reverse());
                }
            }
        }
        if x == 0 {
            break;
        }
    }
    assert(spec_dec_chars(n as nat) =~= digits@.reverse());
    let mut r: Vec<char> = Vec::new();
    let len = digits.len();
    let mut i: usize = 0;
    while i < len
        invariant
            len == digits@.len(),
            0 <= i <= len,
            r@ =~= digits@.reverse().take(i as int),
        decreases len - i,
    {
        r.push(digits[len - 1 - i]);
        assert(r@ =~= digits@.reverse().take(i + 1));
        i = i + 1;
    }
    assert(digits@.reverse().take(len as int) =~= digits@.reverse());
    r
}

/// Digit characters evaluate back to their value.
pub proof fn lemma_digit_char_val(d: nat)
    requires
        d < 10,
    ensures
        spec_is_dec_digit(spec_digit_char(d)),
        spec_dec_val(spec_digit_char(d)) == d,
{
    if d == 0 {
        assert(spec_digit_char(0) == '0');
    } else if d == 1 {
        assert(spec_digit_char(1) == '1');
    } else if d == 2 {
        assert(spec_digit_char(2) == '2');
    } else if d == 3 {
        assert(spec_digit_char(3) == '3');
    } else if d == 4 {
        assert(spec_digit_char(4) == '4');
    } else if d == 5 {
        assert(spec_digit_char(5) == '5');
    } else if d == 6 {
        assert(spec_digit_char(6) == '6');
    } else if d == 7 {
        assert(spec_digit_char(7) == '7');
    } else if d == 8 {
        assert(spec_digit_char(8) == '8');
    } else {
        assert(spec_digit_char(9) == '9');
    }
}

/// A canonical decimal numeral holds decimal digits only.
pub proof fn lemma_dec_chars_digits(n: nat)
    ensures
        spec_dec_chars(n).len() >= 1,
        spec_all_dec_digits(spec_dec_chars(n)),
    decreases n,
{
    if n < 10 {
        lemma_digit_char_val(n);
    } else {
        lemma_dec_chars_digits(n / 10);
        lemma_digit_char_val(n % 10);
        assert forall|i: int| 0 <= i < spec_dec_chars(n).len() implies spec_is_dec_digit(
            #[trigger] spec_dec_chars(n)[i],
        ) by {
            if i < spec_dec_chars(n / 10).len() {
                assert(spec_dec_chars(n)[i] == spec_dec_chars(n / 10)[i]);
            }
        }
    }
}

/// Reading a canonical decimal numeral gives back its value.
pub proof fn lemma_dec_chars_value(n: nat)
    ensures
        spec_dec_nat(spec_dec_chars(n)) == n,
    decreases n,
{
    if n < 10 {
        lemma_digit_char_val(n);
        let cs = spec_dec_chars(n);
        assert(cs == seq![spec_digit_char(n)]);
        assert(cs.last() == spec_digit_char(n));
        assert(cs.drop_last() =~= Seq::<char>::empty());
        assert(spec_dec_nat(Seq::<char>::empty()) == 0);
        assert(spec_dec_nat(cs) == spec_dec_nat(cs.drop_last()) * 10 + spec_dec_val(cs.last()));
    } else {
        lemma_dec_chars_value(n / 10);
        lemma_digit_char_val(n % 10);
        let cs = spec_dec_chars(n);
        assert(cs == spec_dec_chars(n / 10).push(spec_digit_char(n % 10)));
        assert(cs.last() == spec_digit_char(n % 10));
        assert(cs.drop_last() =~= spec_dec_chars(n / 10));
        assert(spec_dec_nat(cs) == spec_dec_nat(cs.drop_last()) * 10 + spec_dec_val(cs.last()));
        assert(spec_dec_nat(cs) == (n / 10) * 10 + n % 10);
    }
}

} // verus!
