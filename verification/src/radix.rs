//! Positional notation for unsigned integers in a radix between 2 and 36.
//!
//! A number is written with the digits `0` to `9` and then `a` to `z`, most
//! significant digit first. [`encode`] is the numeral of a number and
//! [`decode`] the number of a numeral; [`format_radix`] and [`parse_radix`]
//! compute them for 64-bit numbers.

use vstd::prelude::*;
use crate::radix_laws::{
    lemma_decode_encode, lemma_encode_u64_len, lemma_no_leading_zero, lemma_prefix_value,
};

verus! {

/// Whether `radix` is a base that the digit alphabet serves.
pub open spec fn valid_radix(radix: nat) -> bool {
    2 <= radix <= 36
}

/// The character that stands for the digit `d`: `0` to `9`, then `a` to `z`.
pub open spec fn digit_char(d: nat) -> char
    recommends
        d < 36,
{
    if d < 10 {
        ('0' as nat + d) as char
    } else {
        ('a' as nat + (d - 10)) as char
    }
}

/// The digit that `c` stands for, if it is a character of the alphabet.
pub open spec fn digit_value(c: char) -> Option<nat> {
    if '0' <= c <= '9' {
        Some((c as nat - '0' as nat) as nat)
    } else if 'a' <= c <= 'z' {
        Some((c as nat - 'a' as nat + 10) as nat)
    } else {
        None
    }
}

/// Whether `c` is a digit of the given radix.
pub open spec fn is_digit_of(c: char, radix: nat) -> bool {
    digit_value(c) matches Some(d) && d < radix
}

/// The numeral of `v`: its digits in the given radix, most significant
/// first, with no leading zero. Zero is the single digit `0`.
pub open spec fn encode(v: nat, radix: nat) -> Seq<char>
    recommends
        valid_radix(radix),
    decreases v,
    via encode_terminates
{
    if radix < 2 || v < radix {
        seq![digit_char(v)]
    } else {
        encode(v / radix, radix).push(digit_char(v % radix))
    }
}

#[via_fn]
proof fn encode_terminates(v: nat, radix: nat) {
    if radix >= 2 && v >= radix {
        assert(v / radix < v) by (nonlinear_arith)
            requires
                radix >= 2,
                v >= radix,
        ;
    }
}

/// Whether `text` is made of at least one digit of the given radix and of
/// nothing else.
pub open spec fn is_numeral(text: Seq<char>, radix: nat) -> bool {
    &&& text.len() > 0
    &&& forall|i: int| 0 <= i < text.len() ==> is_digit_of(#[trigger] text[i], radix)
}

/// Whether `text` is the one way to write its number: a numeral with no
/// leading zero, or the single digit `0`.
pub open spec fn is_canonical(text: Seq<char>, radix: nat) -> bool {
    is_numeral(text, radix) && (text.len() == 1 || text[0] != '0')
}

/// The number that the digits of `text` add up to, each weighted by its
/// place. A character that is no digit counts as zero.
pub open spec fn place_value(text: Seq<char>, radix: nat) -> nat
    decreases text.len(),
{
    if text.len() == 0 {
        0
    } else {
        let low = match digit_value(text.last()) {
            Some(d) => d,
            None => 0,
        };
        place_value(text.drop_last(), radix) * radix + low
    }
}

/// The number that `text` denotes in the given radix, if it is a numeral.
pub open spec fn decode(text: Seq<char>, radix: nat) -> Option<nat> {
    if is_numeral(text, radix) {
        Some(place_value(text, radix))
    } else {
        None
    }
}

/// The number that `text` denotes, if it is a numeral of a number that
/// fits in 64 bits.
pub open spec fn decode_u64(text: Seq<char>, radix: nat) -> Option<u64> {
    match decode(text, radix) {
        Some(v) => if v <= u64::MAX {
            Some(v as u64)
        } else {
            None
        },
        None => None,
    }
}

/// `String::push` of the standard library appends one character to the end
/// of the string and leaves the characters before it as they were.
pub assume_specification[ String::push ](text: &mut String, ch: char)
    ensures
        final(text)@ == old(text)@.push(ch),
;

/// The character of one digit.
pub fn digit_to_char(d: u8) -> (c: char)
    requires
        d < 36,
    ensures
        c == digit_char(d as nat),
        digit_value(c) == Some(d as nat),
{
    if d < 10 {
        ('0' as u8 + d) as char
    } else {
        ('a' as u8 + (d - 10)) as char
    }
}

/// The digit that an ASCII byte stands for, if it is a character of the
/// alphabet.
pub fn byte_to_digit(b: u8) -> (d: Option<u8>)
    ensures
        d is Some <==> digit_value(b as char) is Some,
        d matches Some(n) ==> digit_value(b as char) == Some(n as nat),
{
    if '0' as u8 <= b && b <= '9' as u8 {
        Some(b - '0' as u8)
    } else if 'a' as u8 <= b && b <= 'z' as u8 {
        Some(b - 'a' as u8 + 10)
    } else {
        None
    }
}

/// Writes `x` in the given radix: the digits of [`encode`], and so no
/// leading zero, and `0` for zero. Reading the text back gives `x`. The
/// text has at most 64 digits.
pub fn format_radix(x: u64, radix: u32) -> (text: String)
    requires
        2 <= radix <= 36,
    ensures
        text@ == encode(x as nat, radix as nat),
        decode_u64(text@, radix as nat) == Some(x),
        is_canonical(text@, radix as nat),
        x == 0 ==> text@ == seq!['0'],
        x != 0 ==> text@[0] != '0',
        1 <= text@.len() <= 64,
{
    proof {
        lemma_decode_encode(x as nat, radix as nat);
        lemma_no_leading_zero(x as nat, radix as nat);
        lemma_encode_u64_len(x, radix as nat);
    }
    let base: u64 = radix as u64;
    let mut rest: u64 = x;
    let mut low_first: Vec<char> = Vec::new();
    loop
        invariant_except_break
            encode(x as nat, base as nat) == encode(rest as nat, base as nat)
                + low_first@.reverse(),
        invariant
            2 <= base <= 36,
        ensures
            encode(x as nat, base as nat) == low_first@.reverse(),
        decreases rest,
    {
        let m: u64 = rest % base;
        let ghost before = low_first@;
        let ghost whole = rest;
        rest = rest / base;
        low_first.push(digit_to_char(m as u8));
        proof {
            let c = digit_char(m as nat);
            assert(low_first@.reverse() =~= seq![c] + before.reverse());
            if rest == 0 {
                assert(whole < base && whole % base == whole) by (nonlinear_arith)
                    requires
                        whole / base == 0,
                        base > 0,
                        whole >= 0,
                ;
            } else {
                assert(whole >= base && rest < whole) by (nonlinear_arith)
                    requires
                        rest == whole / base,
                        rest != 0,
                        base >= 2,
                ;
                assert(encode(rest as nat, base as nat).push(c) + before.reverse() =~= encode(
                    rest as nat,
                    base as nat,
                ) + (seq![c] + before.reverse()));
            }
        }
        if rest == 0 {
            break ;
        }
    }
    let mut text = String::new();
    let mut i: usize = low_first.len();
    while i > 0
        invariant
            i <= low_first@.len(),
            text@ == low_first@.subrange(i as int, low_first@.len() as int).reverse(),
        decreases i,
    {
        i = i - 1;
        text.push(low_first[i]);
        assert(text@ =~= low_first@.subrange(i as int, low_first@.len() as int).reverse());
    }
    assert(low_first@.subrange(0, low_first@.len() as int) =~= low_first@);
    text
}

/// Reads a numeral in the given radix: the number that `text` denotes, or
/// `None` where `text` is empty, holds a character that is no digit of the
/// radix, or denotes a number that does not fit in 64 bits. In a radix
/// outside 2 to 36 no text is a numeral.
pub fn parse_radix(text: &str, radix: u32) -> (value: Option<u64>)
    ensures
        value == if valid_radix(radix as nat) {
            decode_u64(text@, radix as nat)
        } else {
            None
        },
{
    broadcast use vstd::string::is_ascii_spec_bytes;

    if radix < 2 || radix > 36 {
        return None;
    }
    if !text.is_ascii() {
        proof {
            let i = choose|i: int|
                0 <= i < text@.len() && !('\0' <= #[trigger] text@[i] <= '\u{7f}');
            assert(!is_digit_of(text@[i], radix as nat));
        }
        return None;
    }
    let bytes = text.as_bytes();
    let n = bytes.len();
    if n == 0 {
        return None;
    }
    let base: u64 = radix as u64;
    let mut acc: u64 = 0;
    let mut i: usize = 0;
    while i < n
        invariant
            2 <= base <= 36,
            base == radix,
            n == bytes@.len(),
            n == text@.len(),
            i <= n,
            forall|j: int| 0 <= j < n ==> bytes@[j] == #[trigger] text@[j] as u8,
            forall|j: int| 0 <= j < n ==> '\0' <= #[trigger] text@[j] <= '\u{7f}',
            forall|j: int| 0 <= j < i ==> is_digit_of(#[trigger] text@[j], base as nat),
            acc == place_value(text@.subrange(0, i as int), base as nat),
        decreases n - i,
    {
        let b = bytes[i];
        let ghost c = text@[i as int];
        let ghost upto = text@.subrange(0, i as int);
        let ghost next = text@.subrange(0, i + 1);
        assert(b as char == c);
        assert(next.drop_last() =~= upto);
        assert(next.last() == c);
        let d: u64 = match byte_to_digit(b) {
            Some(d) => d as u64,
            None => {
                return None;
            },
        };
        if d >= base {
            return None;
        }
        assert(place_value(next, base as nat) == acc * base + d);
        proof {
            lemma_prefix_value(text@, base as nat, i + 1);
        }
        let shifted: u64 = match acc.checked_mul(base) {
            Some(m) => m,
            None => {
                return None;
            },
        };
        acc = match shifted.checked_add(d) {
            Some(a) => a,
            None => {
                return None;
            },
        };
        i = i + 1;
    }
    assert(text@.subrange(0, n as int) =~= text@);
    Some(acc)
}

} // verus!
