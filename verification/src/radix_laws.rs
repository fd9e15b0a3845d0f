//! What holds of numerals in every radix from 2 to 36: writing and reading
//! are inverse to each other, and the numeral of a number is the shortest
//! text that denotes it.

use vstd::prelude::*;
use crate::radix::{
    decode, decode_u64, digit_char, digit_value, encode, is_canonical, is_digit_of, is_numeral,
    place_value, valid_radix,
};

verus! {

/// Every digit has its own character, and the character gives it back. The
/// character of zero, and of no other digit, is `0`.
pub proof fn lemma_digit_char_value(d: nat)
    requires
        d < 36,
    ensures
        digit_value(digit_char(d)) == Some(d),
        d == 0 <==> digit_char(d) == '0',
{
}

/// A character of the alphabet is the character of its digit.
pub proof fn lemma_digit_value_char(c: char)
    requires
        digit_value(c) is Some,
    ensures
        digit_value(c).unwrap() < 36,
        digit_char(digit_value(c).unwrap()) == c,
{
}

/// Round trip: the numeral of a number is a numeral, and it denotes that
/// number and no other.
pub proof fn lemma_decode_encode(v: nat, radix: nat)
    requires
        valid_radix(radix),
    ensures
        decode(encode(v, radix), radix) == Some(v),
        v <= u64::MAX ==> decode_u64(encode(v, radix), radix) == Some(v as u64),
    decreases v,
{
    let text = encode(v, radix);
    if v < radix {
        lemma_digit_char_value(v);
        assert(text.drop_last() =~= Seq::<char>::empty());
        assert(place_value(text.drop_last(), radix) == 0);
        assert(place_value(text, radix) == 0 * radix + v);
    } else {
        let high = v / radix;
        let low = v % radix;
        assert(high < v && low < radix && high * radix + low == v) by (nonlinear_arith)
            requires
                radix >= 2,
                v >= radix,
                high == v / radix,
                low == v % radix,
        ;
        lemma_decode_encode(high, radix);
        lemma_digit_char_value(low);
        let front = encode(high, radix);
        assert(text == front.push(digit_char(low)));
        assert(text.drop_last() =~= front);
        assert(text.last() == digit_char(low));
        assert(is_numeral(text, radix)) by {
            assert forall|i: int| 0 <= i < text.len() implies is_digit_of(
                #[trigger] text[i],
                radix,
            ) by {
                if i < front.len() {
                    assert(text[i] == front[i]);
                }
            }
        }
    }
}

/// Zero is written as the single digit `0` in every radix.
pub proof fn lemma_encode_zero(radix: nat)
    requires
        valid_radix(radix),
    ensures
        encode(0, radix) == seq!['0'],
{
}

/// The numeral of a number has at least one digit, and its first digit is
/// `0` for zero alone: it is canonical.
pub proof fn lemma_no_leading_zero(v: nat, radix: nat)
    requires
        valid_radix(radix),
    ensures
        encode(v, radix).len() >= 1,
        v != 0 ==> encode(v, radix)[0] != '0',
        is_canonical(encode(v, radix), radix),
    decreases v,
{
    lemma_decode_encode(v, radix);
    if v < radix {
        lemma_digit_char_value(v);
    } else {
        let high = v / radix;
        assert(1 <= high < v) by (nonlinear_arith)
            requires
                radix >= 2,
                v >= radix,
                high == v / radix,
        ;
        lemma_no_leading_zero(high, radix);
    }
}

/// Two numbers with the same numeral are the same number.
pub proof fn lemma_encode_injective(a: nat, b: nat, radix: nat)
    requires
        valid_radix(radix),
        encode(a, radix) == encode(b, radix),
    ensures
        a == b,
{
    lemma_decode_encode(a, radix);
    lemma_decode_encode(b, radix);
}

/// A text is worth at least as much as any of its prefixes.
pub proof fn lemma_prefix_value(text: Seq<char>, radix: nat, k: int)
    requires
        radix >= 1,
        0 <= k <= text.len(),
    ensures
        place_value(text.subrange(0, k), radix) <= place_value(text, radix),
    decreases text.len(),
{
    if k == text.len() {
        assert(text.subrange(0, k) =~= text);
    } else {
        let front = text.drop_last();
        lemma_prefix_value(front, radix, k);
        assert(front.subrange(0, k) =~= text.subrange(0, k));
        assert(place_value(front, radix) <= place_value(front, radix) * radix)
            by (nonlinear_arith)
            requires
                radix >= 1,
        ;
    }
}

/// A numeral with a digit other than `0` in front denotes a number that is
/// not zero.
proof fn lemma_leading_digit_counts(text: Seq<char>, radix: nat)
    requires
        valid_radix(radix),
        is_numeral(text, radix),
        text[0] != '0',
    ensures
        place_value(text, radix) >= 1,
    decreases text.len(),
{
    if text.len() == 1 {
        assert(text.drop_last() =~= Seq::<char>::empty());
        assert(place_value(text.drop_last(), radix) == 0);
        assert(text.last() == text[0]);
        lemma_digit_value_char(text[0]);
    } else {
        let front = text.drop_last();
        assert(front[0] == text[0]);
        lemma_leading_digit_counts(front, radix);
        assert(place_value(front, radix) * radix >= 1) by (nonlinear_arith)
            requires
                place_value(front, radix) >= 1,
                radix >= 2,
        ;
    }
}

/// A number has one canonical numeral only: a canonical text is the numeral
/// of the number it denotes.
pub proof fn lemma_encode_decode(text: Seq<char>, radix: nat)
    requires
        valid_radix(radix),
        is_canonical(text, radix),
    ensures
        encode(place_value(text, radix), radix) == text,
    decreases text.len(),
{
    let front = text.drop_last();
    let low = digit_value(text.last()).unwrap();
    lemma_digit_value_char(text.last());
    assert(is_digit_of(text[text.len() - 1], radix));
    if text.len() == 1 {
        assert(front =~= Seq::<char>::empty());
        assert(place_value(front, radix) == 0);
        assert(place_value(text, radix) == 0 * radix + low);
        assert(text =~= seq![text.last()]);
    } else {
        assert(front[0] == text[0]);
        assert(is_canonical(front, radix));
        lemma_encode_decode(front, radix);
        lemma_leading_digit_counts(front, radix);
        let high = place_value(front, radix);
        let v = place_value(text, radix);
        assert(v == high * radix + low);
        assert(v >= radix && v / radix == high && v % radix == low) by (nonlinear_arith)
            requires
                v == high * radix + low,
                high >= 1,
                low < radix,
                radix >= 2,
        ;
        assert(encode(v, radix) == encode(high, radix).push(digit_char(low)));
        assert(front.push(text.last()) =~= text);
    }
}

/// The numeral of a number is the shortest text that denotes it: every
/// numeral of the same number has at least as many digits.
pub proof fn lemma_encode_is_shortest(text: Seq<char>, radix: nat)
    requires
        valid_radix(radix),
        is_numeral(text, radix),
    ensures
        encode(place_value(text, radix), radix).len() <= text.len(),
    decreases text.len(),
{
    let front = text.drop_last();
    let low = digit_value(text.last()).unwrap();
    assert(is_digit_of(text[text.len() - 1], radix));
    if text.len() == 1 {
        assert(front =~= Seq::<char>::empty());
        assert(place_value(front, radix) == 0);
        assert(place_value(text, radix) == 0 * radix + low);
    } else {
        let high = place_value(front, radix);
        let v = place_value(text, radix);
        assert(v == high * radix + low);
        if high == 0 {
            assert(v == low) by (nonlinear_arith)
                requires
                    v == high * radix + low,
                    high == 0,
            ;
        } else {
            assert(is_numeral(front, radix)) by {
                assert forall|i: int| 0 <= i < front.len() implies is_digit_of(
                    #[trigger] front[i],
                    radix,
                ) by {
                    assert(front[i] == text[i]);
                }
            }
            lemma_encode_is_shortest(front, radix);
            assert(v >= radix && v / radix == high) by (nonlinear_arith)
                requires
                    v == high * radix + low,
                    high >= 1,
                    low < radix,
                    radix >= 2,
            ;
        }
    }
}

/// The number of texts of `k` digits: the radix multiplied `k` times.
pub open spec fn radix_power(radix: nat, k: nat) -> nat
    decreases k,
{
    if k == 0 {
        1
    } else {
        radix * radix_power(radix, (k - 1) as nat)
    }
}

/// A larger radix has larger powers.
pub proof fn lemma_radix_power_grows(small: nat, large: nat, k: nat)
    requires
        small <= large,
    ensures
        radix_power(small, k) <= radix_power(large, k),
    decreases k,
{
    if k > 0 {
        lemma_radix_power_grows(small, large, (k - 1) as nat);
        assert(small * radix_power(small, (k - 1) as nat) <= large * radix_power(
            large,
            (k - 1) as nat,
        )) by (nonlinear_arith)
            requires
                small <= large,
                radix_power(small, (k - 1) as nat) <= radix_power(large, (k - 1) as nat),
        ;
    }
}

/// The numeral of a number has `k` digits exactly where the number lies
/// from the power `k - 1` of the radix up to, and not including, the power
/// `k`; zero has one digit.
pub proof fn lemma_encode_len(v: nat, radix: nat, k: nat)
    requires
        valid_radix(radix),
        k >= 1,
        k == 1 || radix_power(radix, (k - 1) as nat) <= v,
        v < radix_power(radix, k),
    ensures
        encode(v, radix).len() == k,
    decreases v,
{
    reveal_with_fuel(radix_power, 2);
    if v < radix {
        if k > 1 {
            lemma_radix_power_positive(radix, (k - 2) as nat);
            assert(radix_power(radix, (k - 1) as nat) >= radix) by (nonlinear_arith)
                requires
                    radix_power(radix, (k - 1) as nat) == radix * radix_power(
                        radix,
                        (k - 2) as nat,
                    ),
                    radix_power(radix, (k - 2) as nat) >= 1,
            ;
        }
    } else {
        let high = v / radix;
        let below = radix_power(radix, (k - 1) as nat);
        assert(k >= 2);
        assert(1 <= high < v && high < below) by (nonlinear_arith)
            requires
                radix >= 2,
                v >= radix,
                high == v / radix,
                v < radix * below,
        ;
        if k > 2 {
            let lower = radix_power(radix, (k - 2) as nat);
            assert(below == radix * lower);
            assert(lower <= high) by (nonlinear_arith)
                requires
                    radix >= 2,
                    high == v / radix,
                    radix * lower <= v,
            ;
        }
        lemma_encode_len(high, radix, (k - 1) as nat);
    }
}

/// Every power of a radix is at least one.
proof fn lemma_radix_power_positive(radix: nat, k: nat)
    requires
        radix >= 1,
    ensures
        radix_power(radix, k) >= 1,
    decreases k,
{
    if k > 0 {
        lemma_radix_power_positive(radix, (k - 1) as nat);
        assert(radix * radix_power(radix, (k - 1) as nat) >= 1) by (nonlinear_arith)
            requires
                radix >= 1,
                radix_power(radix, (k - 1) as nat) >= 1,
        ;
    }
}

/// A number below the power `k` of the radix has at most `k` digits.
pub proof fn lemma_encode_len_at_most(v: nat, radix: nat, k: nat)
    requires
        valid_radix(radix),
        k >= 1,
        v < radix_power(radix, k),
    ensures
        1 <= encode(v, radix).len() <= k,
    decreases k,
{
    if k == 1 || radix_power(radix, (k - 1) as nat) <= v {
        lemma_encode_len(v, radix, k);
    } else {
        lemma_encode_len_at_most(v, radix, (k - 1) as nat);
    }
}

/// A 64-bit number has at most 64 digits in every radix.
pub proof fn lemma_encode_u64_len(v: u64, radix: nat)
    requires
        valid_radix(radix),
    ensures
        1 <= encode(v as nat, radix).len() <= 64,
{
    assert(radix_power(2, 64) == 0x1_0000_0000_0000_0000) by {
        reveal_with_fuel(radix_power, 65);
    }
    lemma_radix_power_grows(2, radix, 64);
    lemma_encode_len_at_most(v as nat, radix, 64);
}

/// A 64-bit number has at most 13 digits in radix 36.
pub proof fn lemma_encode_u64_len_36(v: u64)
    ensures
        1 <= encode(v as nat, 36).len() <= 13,
{
    assert(radix_power(36, 13) > u64::MAX) by {
        reveal_with_fuel(radix_power, 14);
    }
    lemma_encode_len_at_most(v as nat, 36, 13);
}

} // verus!
