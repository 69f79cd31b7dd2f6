//! Text: decimal numbers, padding, lengths in bytes, and comparison.

use vstd::prelude::*;
use vstd::string::StringSliceAdditionalSpecFns;
use vstd::utf8::{encode_utf8, is_ascii_chars, is_ascii_chars_encode_utf8};

verus! {

/// The character of the decimal digit `d`, for `d` in 0..=9.
pub open spec fn digit_char(d: int) -> char {
    ((d + 48) as u8) as char
}

/// Whether `c` is one of the characters '0' to '9'.
pub open spec fn is_digit(c: char) -> bool {
    '0' <= c && c <= '9'
}

/// The value of the decimal digit `c`.
pub open spec fn digit_value(c: char) -> int {
    (c as int) - 48
}

/// `n` written in decimal, without leading zeros.
pub open spec fn decimal(n: nat) -> Seq<char>
    decreases n,
{
    if n < 10 {
        seq![digit_char(n as int)]
    } else {
        decimal(n / 10).push(digit_char((n % 10) as int))
    }
}

/// `count` copies of `c`.
pub open spec fn repeated(c: char, count: nat) -> Seq<char> {
    Seq::new(count, |i: int| c)
}

/// `n` in decimal, with zeros in front up to `width` characters.
pub open spec fn zero_padded(n: nat, width: nat) -> Seq<char> {
    let digits = decimal(n);
    if digits.len() >= width {
        digits
    } else {
        repeated('0', (width - digits.len()) as nat) + digits
    }
}

/// `value` in decimal, at least `width` characters wide: zeros fill the space between
/// the sign, if there is one, and the digits.
pub open spec fn padded_int(value: int, width: nat) -> Seq<char> {
    if value < 0 {
        seq!['-'] + zero_padded((-value) as nat, if width > 0 { (width - 1) as nat } else { 0 })
    } else {
        zero_padded(value as nat, width)
    }
}

fn digit_str(d: u8) -> (s: &'static str)
    requires
        d < 10,
    ensures
        s@ == seq![digit_char(d as int)],
{
    proof {
        reveal_strlit("0");
        reveal_strlit("1");
        reveal_strlit("2");
        reveal_strlit("3");
        reveal_strlit("4");
        reveal_strlit("5");
        reveal_strlit("6");
        reveal_strlit("7");
        reveal_strlit("8");
        reveal_strlit("9");
    }
    let s = match d {
        0 => "0",
        1 => "1",
        2 => "2",
        3 => "3",
        4 => "4",
        5 => "5",
        6 => "6",
        7 => "7",
        8 => "8",
        _ => "9",
    };
    assert(s@ =~= seq![digit_char(d as int)]);
    s
}

/// Appends one decimal digit to `out`.
pub fn push_digit(out: &mut String, d: u8)
    requires
        d < 10,
    ensures
        final(out)@ == old(out)@.push(digit_char(d as int)),
{
    out.append(digit_str(d));
    assert(out@ =~= old(out)@.push(digit_char(d as int)));
}

/// Appends `n` in decimal to `out`.
pub fn push_decimal(out: &mut String, n: u32)
    ensures
        final(out)@ == old(out)@ + decimal(n as nat),
    decreases n,
{
    if n >= 10 {
        push_decimal(out, n / 10);
    }
    push_digit(out, (n % 10) as u8);
    assert(out@ =~= old(out)@ + decimal(n as nat));
}

/// The number of decimal digits of `n`.
pub fn decimal_len(n: u32) -> (len: usize)
    ensures
        len == decimal(n as nat).len(),
{
    let mut rest: u32 = n;
    let mut len: u32 = 1;
    while rest >= 10
        invariant
            1 <= len,
            len + rest <= n + 1,
            decimal(n as nat).len() == decimal(rest as nat).len() + len - 1,
        decreases rest,
    {
        rest = rest / 10;
        len = len + 1;
    }
    len as usize
}

/// Appends `count` copies of the one character that `piece` holds.
fn push_repeated(out: &mut String, piece: &str, count: usize)
    requires
        piece@.len() == 1,
    ensures
        final(out)@ == old(out)@ + repeated(piece@[0], count as nat),
{
    let mut done: usize = 0;
    while done < count
        invariant
            done <= count,
            piece@.len() == 1,
            out@ == old(out)@ + repeated(piece@[0], done as nat),
        decreases count - done,
    {
        out.append(piece);
        done = done + 1;
        assert(out@ =~= old(out)@ + repeated(piece@[0], done as nat));
    }
}

/// Appends `count` spaces to `out`.
pub fn push_spaces(out: &mut String, count: usize)
    ensures
        final(out)@ == old(out)@ + repeated(' ', count as nat),
{
    proof {
        reveal_strlit(" ");
    }
    push_repeated(out, " ", count);
}

/// Appends `n` in decimal to `out`, with zeros in front up to `width` characters.
pub fn push_zero_padded(out: &mut String, n: u32, width: usize)
    ensures
        final(out)@ == old(out)@ + zero_padded(n as nat, width as nat),
{
    let len = decimal_len(n);
    if len < width {
        proof {
            reveal_strlit("0");
        }
        push_repeated(out, "0", width - len);
    }
    push_decimal(out, n);
    assert(out@ =~= old(out)@ + zero_padded(n as nat, width as nat));
}

/// Appends `value` in decimal to `out`, at least `width` characters wide, a minus sign
/// first where it is negative.
pub fn push_padded_int(out: &mut String, value: i32, width: usize)
    ensures
        final(out)@ == old(out)@ + padded_int(value as int, width as nat),
{
    if value < 0 {
        proof {
            reveal_strlit("-");
        }
        out.append("-");
        assert(out@ =~= old(out)@ + seq!['-']);
        let magnitude: u32 = (-(value as i64)) as u32;
        let rest: usize = if width > 0 { width - 1 } else { 0 };
        push_zero_padded(out, magnitude, rest);
        assert(out@ =~= old(out)@ + padded_int(value as int, width as nat));
    } else {
        push_zero_padded(out, value as u32, width);
    }
}

/// The character of a digit is a digit, and has the digit as its value.
pub proof fn lemma_digit_char(d: int)
    requires
        0 <= d <= 9,
    ensures
        is_digit(digit_char(d)),
        digit_value(digit_char(d)) == d,
{
}

/// A number below 100, padded to two characters, is its tens digit and its units digit.
pub proof fn lemma_zero_padded_2(n: nat)
    requires
        n <= 99,
    ensures
        zero_padded(n, 2) == seq![digit_char((n / 10) as int), digit_char((n % 10) as int)],
{
    reveal_with_fuel(decimal, 2);
    if n < 10 {
        assert(zero_padded(n, 2) =~= seq![digit_char(0), digit_char(n as int)]);
    } else {
        assert(zero_padded(n, 2) =~= seq![
            digit_char((n / 10) as int),
            digit_char((n % 10) as int),
        ]);
    }
}

/// A number below 10000, padded to four characters, is its four digits.
pub proof fn lemma_zero_padded_4(n: nat)
    requires
        n <= 9999,
    ensures
        zero_padded(n, 4) == seq![
            digit_char((n / 1000) as int),
            digit_char((n / 100 % 10) as int),
            digit_char((n / 10 % 10) as int),
            digit_char((n % 10) as int),
        ],
{
    reveal_with_fuel(decimal, 4);
    let want = seq![
        digit_char((n / 1000) as int),
        digit_char((n / 100 % 10) as int),
        digit_char((n / 10 % 10) as int),
        digit_char((n % 10) as int),
    ];
    if n < 10 {
        assert(zero_padded(n, 4) =~= want);
    } else if n < 100 {
        assert(zero_padded(n, 4) =~= want);
    } else if n < 1000 {
        assert(n / 10 / 10 == n / 100);
        assert(zero_padded(n, 4) =~= want);
    } else {
        assert(n / 10 / 10 == n / 100);
        assert(n / 10 / 10 / 10 == n / 1000);
        assert(zero_padded(n, 4) =~= want);
    }
}

/// The texts that a sequence of strings holds.
pub open spec fn texts(strings: Seq<String>) -> Seq<Seq<char>> {
    Seq::new(strings.len(), |i: int| strings[i]@)
}

/// Whether the text `a` is `b` or comes before it, where texts are compared character by
/// character from the left, and a text comes before the longer ones that begin with it.
pub open spec fn text_le(a: Seq<char>, b: Seq<char>) -> bool
    decreases a.len(),
{
    if a.len() == 0 {
        true
    } else if b.len() == 0 {
        false
    } else if a[0] == b[0] {
        text_le(a.drop_first(), b.drop_first())
    } else {
        a[0] < b[0]
    }
}

/// Whether `a` is `b` or comes before it, for two texts of one length that are alike
/// before the position `k`: the first position from `k` on where they differ decides.
pub open spec fn ordered_from(a: Seq<char>, b: Seq<char>, k: int) -> bool
    decreases a.len() - k,
{
    if k < 0 || k >= a.len() {
        true
    } else if a[k] == b[k] {
        ordered_from(a, b, k + 1)
    } else {
        a[k] < b[k]
    }
}

/// The order of two texts of one length, from the position `k` on, is decided by the
/// first position where they differ.
pub proof fn lemma_text_le_from(a: Seq<char>, b: Seq<char>, k: int)
    requires
        a.len() == b.len(),
        0 <= k <= a.len(),
    ensures
        text_le(a.skip(k), b.skip(k)) == ordered_from(a, b, k),
    decreases a.len() - k,
{
    if k < a.len() {
        lemma_text_le_from(a, b, k + 1);
        assert(a.skip(k).drop_first() =~= a.skip(k + 1));
        assert(b.skip(k).drop_first() =~= b.skip(k + 1));
    }
}

/// The characters of two digits stand in the order of the digits.
pub proof fn lemma_digit_char_order(p: int, q: int)
    requires
        0 <= p <= 9,
        0 <= q <= 9,
    ensures
        digit_char(p) < digit_char(q) <==> p < q,
        digit_char(p) == digit_char(q) <==> p == q,
{
}

/// The number of bytes that `s` takes in UTF-8, which is what `str::len` counts.
pub open spec fn byte_len(s: Seq<char>) -> nat {
    encode_utf8(s).len()
}

/// The number of bytes of `s`.
pub fn byte_length(s: &str) -> (len: usize)
    ensures
        len == byte_len(s@),
{
    s.as_bytes().len()
}

/// Whether `a` and `b` hold the same text.
pub fn same_text(a: &str, b: &str) -> (same: bool)
    ensures
        same == (a@ == b@),
{
    let left = a.as_bytes();
    let right = b.as_bytes();
    proof {
        vstd::utf8::encode_utf8_decode_utf8(a@);
        vstd::utf8::encode_utf8_decode_utf8(b@);
    }
    if left.len() != right.len() {
        return false;
    }
    let mut done: usize = 0;
    while done < left.len()
        invariant
            done <= left.len(),
            left.len() == right.len(),
            left@ == encode_utf8(a@),
            right@ == encode_utf8(b@),
            forall|i: int| 0 <= i < done ==> left@[i] == right@[i],
        decreases left.len() - done,
    {
        if left[done] != right[done] {
            return false;
        }
        done = done + 1;
    }
    assert(left@ =~= right@);
    true
}

/// Ten to the power `e`.
pub open spec fn pow10(e: nat) -> nat
    decreases e,
{
    if e == 0 {
        1
    } else {
        10 * pow10((e - 1) as nat)
    }
}

/// A number below ten to the power `k` has at most `k` digits.
pub proof fn lemma_decimal_len(n: nat, k: nat)
    requires
        k >= 1,
        n < pow10(k),
    ensures
        1 <= decimal(n).len() <= k,
    decreases k,
{
    reveal_with_fuel(pow10, 2);
    if n >= 10 {
        lemma_decimal_len(n / 10, (k - 1) as nat);
    }
}

/// The decimal form of a number holds digits only.
pub proof fn lemma_decimal_digits(n: nat)
    ensures
        forall|i: int| 0 <= i < decimal(n).len() ==> is_digit(#[trigger] decimal(n)[i]),
    decreases n,
{
    if n >= 10 {
        lemma_decimal_digits(n / 10);
        lemma_digit_char((n % 10) as int);
        assert forall|i: int| 0 <= i < decimal(n).len() implies is_digit(
            #[trigger] decimal(n)[i],
        ) by {
            if i < decimal(n / 10).len() {
                assert(decimal(n)[i] == decimal(n / 10)[i]);
            }
        }
    } else {
        lemma_digit_char(n as int);
    }
}

/// A padded number of 32 bits is ASCII, and is as wide as asked for, or as wide as the
/// number needs, at most 11 characters.
pub proof fn lemma_padded_int(value: int, width: nat)
    requires
        i32::MIN <= value <= i32::MAX,
    ensures
        is_ascii_chars(padded_int(value, width)),
        byte_len(padded_int(value, width)) == padded_int(value, width).len(),
        padded_int(value, width).len() <= (if width > 11 {
            width
        } else {
            11
        }),
{
    let magnitude: nat = if value < 0 {
        (-value) as nat
    } else {
        value as nat
    };
    reveal_with_fuel(pow10, 11);
    assert(pow10(10) == 10_000_000_000);
    lemma_decimal_len(magnitude, 10);
    lemma_decimal_digits(magnitude);
    is_ascii_chars_encode_utf8(padded_int(value, width));
}

} // verus!
