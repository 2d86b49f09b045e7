//! Formatting of unsigned integers as decimal and fixed-width uppercase
//! hexadecimal text, as the archive's path conventions demand.

use vstd::prelude::*;

verus! {

/// The character standing for one digit value below sixteen.
pub open spec fn digit_char(d: int) -> char {
    if d == 0 { '0' } else if d == 1 { '1' } else if d == 2 { '2' } else if d == 3 { '3' }
    else if d == 4 { '4' } else if d == 5 { '5' } else if d == 6 { '6' } else if d == 7 { '7' }
    else if d == 8 { '8' } else if d == 9 { '9' } else if d == 10 { 'A' } else if d == 11 { 'B' }
    else if d == 12 { 'C' } else if d == 13 { 'D' } else if d == 14 { 'E' } else { 'F' }
}

/// The uppercase hexadecimal form of `n`, zero-padded on the left to at
/// least `width` digits; values too wide for `width` keep all their digits.
pub open spec fn hex_str_pad(n: int, width: nat) -> Seq<char>
    decreases n, width,
{
    if n < 0 {
        Seq::empty()
    } else if n < 16 && width <= 1 {
        seq![digit_char(n)]
    } else {
        hex_str_pad(n / 16, if width == 0 { 0 } else { (width - 1) as nat }).push(digit_char(n % 16))
    }
}

/// The decimal form of a non-negative `n`, without padding.
pub open spec fn dec_str(n: int) -> Seq<char>
    decreases n,
{
    if n < 0 {
        Seq::empty()
    } else if n < 10 {
        seq![digit_char(n)]
    } else {
        dec_str(n / 10).push(digit_char(n % 10))
    }
}

/// The one-character string for a digit value below sixteen.
fn digit_str(d: u8) -> (r: &'static str)
    requires
        d < 16,
    ensures
        r@ =~= seq![digit_char(d as int)],
        r.is_ascii(),
{
    proof {
        reveal_strlit("0"); reveal_strlit("1"); reveal_strlit("2"); reveal_strlit("3");
        reveal_strlit("4"); reveal_strlit("5"); reveal_strlit("6"); reveal_strlit("7");
        reveal_strlit("8"); reveal_strlit("9"); reveal_strlit("A"); reveal_strlit("B");
        reveal_strlit("C"); reveal_strlit("D"); reveal_strlit("E"); reveal_strlit("F");
    }
    if d == 0 { "0" } else if d == 1 { "1" } else if d == 2 { "2" } else if d == 3 { "3" }
    else if d == 4 { "4" } else if d == 5 { "5" } else if d == 6 { "6" } else if d == 7 { "7" }
    else if d == 8 { "8" } else if d == 9 { "9" } else if d == 10 { "A" } else if d == 11 { "B" }
    else if d == 12 { "C" } else if d == 13 { "D" } else if d == 14 { "E" } else { "F" }
}

/// Is `c` one of the characters the digit table emits?
pub open spec fn is_digit_char(c: char) -> bool {
    (48 <= c as int && c as int <= 57) || (65 <= c as int && c as int <= 70)
}

/// Sixteen to the `d`-th power.
pub open spec fn sixteen_pow(d: nat) -> int
    decreases d,
{
    if d == 0 {
        1
    } else {
        16 * sixteen_pow((d - 1) as nat)
    }
}

/// Ten to the `d`-th power.
pub open spec fn ten_pow(d: nat) -> int
    decreases d,
{
    if d == 0 {
        1
    } else {
        10 * ten_pow((d - 1) as nat)
    }
}

/// Sixteen to the eighth covers every 32-bit value.
pub proof fn lemma_sixteen_pow_8()
    ensures
        sixteen_pow(8nat) == 0x1_0000_0000,
{
    assert(sixteen_pow(0nat) == 1);
    assert(sixteen_pow(1nat) == 16);
    assert(sixteen_pow(2nat) == 0x100);
    assert(sixteen_pow(3nat) == 0x1000);
    assert(sixteen_pow(4nat) == 0x10000);
    assert(sixteen_pow(5nat) == 0x10_0000);
    assert(sixteen_pow(6nat) == 0x100_0000);
    assert(sixteen_pow(7nat) == 0x1000_0000);
    assert(sixteen_pow(8nat) == 0x1_0000_0000);
}

/// Sixteen to the sixteenth covers every 64-bit value.
pub proof fn lemma_sixteen_pow_16()
    ensures
        sixteen_pow(16nat) == 0x1_0000_0000_0000_0000,
{
    lemma_sixteen_pow_8();
    assert(sixteen_pow(9nat) == 0x10_0000_0000);
    assert(sixteen_pow(10nat) == 0x100_0000_0000);
    assert(sixteen_pow(11nat) == 0x1000_0000_0000);
    assert(sixteen_pow(12nat) == 0x1_0000_0000_0000);
    assert(sixteen_pow(13nat) == 0x10_0000_0000_0000);
    assert(sixteen_pow(14nat) == 0x100_0000_0000_0000);
    assert(sixteen_pow(15nat) == 0x1000_0000_0000_0000);
    assert(sixteen_pow(16nat) == 0x1_0000_0000_0000_0000);
}

/// Ten to the tenth covers every 32-bit value.
pub proof fn lemma_ten_pow_10()
    ensures
        ten_pow(10nat) == 10_000_000_000,
{
    assert(ten_pow(0nat) == 1);
    assert(ten_pow(1nat) == 10);
    assert(ten_pow(2nat) == 100);
    assert(ten_pow(3nat) == 1000);
    assert(ten_pow(4nat) == 10_000);
    assert(ten_pow(5nat) == 100_000);
    assert(ten_pow(6nat) == 1_000_000);
    assert(ten_pow(7nat) == 10_000_000);
    assert(ten_pow(8nat) == 100_000_000);
    assert(ten_pow(9nat) == 1_000_000_000);
    assert(ten_pow(10nat) == 10_000_000_000);
}

/// The digit table emits only decimal digits and the six hex letters.
pub proof fn lemma_digit_char_range(d: int)
    requires
        0 <= d < 16,
    ensures
        is_digit_char(digit_char(d)),
{
}

/// Every character of a hexadecimal numeral is a digit or hex letter, and
/// the numeral is between one and `w + d` characters long when the value
/// is below sixteen to the `d`-th.
pub proof fn lemma_hex_str_pad_props(n: int, w: nat, d: nat)
    requires
        0 <= n,
        n < sixteen_pow(d),
        1 <= d,
    ensures
        1 <= hex_str_pad(n, w).len() <= w + d,
        forall|k: int| 0 <= k < hex_str_pad(n, w).len() ==> is_digit_char(
            #[trigger] hex_str_pad(n, w)[k],
        ),
    decreases d + w,
{
    if n < 16 && w <= 1 {
        lemma_digit_char_range(n);
    } else {
        let rest_w: nat = if w == 0 { 0 } else { (w - 1) as nat };
        let q = n / 16;
        if d == 1 {
            // n < 16 here, so the recursion carries a zero quotient.
            assert(sixteen_pow(0nat) == 1);
            assert(sixteen_pow(1nat) == 16);
            assert(q == 0);
            lemma_hex_str_pad_props(q, rest_w, 1);
        } else {
            assert(q < sixteen_pow((d - 1) as nat)) by {
                vstd::arithmetic::div_mod::lemma_fundamental_div_mod(n, 16);
                vstd::arithmetic::div_mod::lemma_mod_bound(n, 16);
            }
            lemma_hex_str_pad_props(q, rest_w, (d - 1) as nat);
        }
        lemma_digit_char_range(n % 16);
        assert(forall|k: int| 0 <= k < hex_str_pad(q, rest_w).len() ==> hex_str_pad(n, w)[k]
            == #[trigger] hex_str_pad(q, rest_w)[k]);
    }
}

/// Every character of a decimal numeral is a digit, and the numeral is
/// between one and `d` characters long when the value is below ten to the
/// `d`-th.
pub proof fn lemma_dec_str_props(n: int, d: nat)
    requires
        0 <= n,
        n < ten_pow(d),
        1 <= d,
    ensures
        1 <= dec_str(n).len() <= d,
        forall|k: int| 0 <= k < dec_str(n).len() ==> is_digit_char(#[trigger] dec_str(n)[k])
            && (#[trigger] dec_str(n)[k]) as int <= 57,
    decreases d,
{
    if n < 10 {
        lemma_digit_char_range(n);
    } else {
        let q = n / 10;
        assert(ten_pow(0nat) == 1);
        assert(ten_pow(1nat) == 10);
        assert(2 <= d) by {
            if d == 1 {
            }
        }
        assert(q < ten_pow((d - 1) as nat)) by {
            vstd::arithmetic::div_mod::lemma_fundamental_div_mod(n, 10);
            vstd::arithmetic::div_mod::lemma_mod_bound(n, 10);
        }
        lemma_dec_str_props(q, (d - 1) as nat);
        lemma_digit_char_range(n % 10);
        assert(forall|k: int| 0 <= k < dec_str(q).len() ==> dec_str(n)[k] == #[trigger] dec_str(
            q,
        )[k]);
    }
}

/// Appends the uppercase hexadecimal form of `n`, zero-padded to at least
/// `width` digits, to `out`.
pub fn push_hex_pad(out: &mut String, n: u64, width: usize)
    ensures
        final(out)@ == old(out)@ + hex_str_pad(n as int, width as nat),
    decreases n, width,
{
    if n < 16 && width <= 1 {
        out.append(digit_str(n as u8));
    } else {
        let rest_width: usize = if width == 0 { 0 } else { width - 1 };
        push_hex_pad(out, n / 16, rest_width);
        out.append(digit_str((n % 16) as u8));
        assert(final(out)@ =~= old(out)@ + hex_str_pad(n as int, width as nat));
    }
}

/// Appends the decimal form of `n` to `out`.
pub fn push_dec(out: &mut String, n: u32)
    ensures
        final(out)@ == old(out)@ + dec_str(n as int),
    decreases n,
{
    if n < 10 {
        out.append(digit_str(n as u8));
    } else {
        push_dec(out, n / 10);
        out.append(digit_str((n % 10) as u8));
        assert(final(out)@ =~= old(out)@ + dec_str(n as int));
    }
}

} // verus!
