//! Number formatting and string assembly.
//!
//! Every line the monitor prints is described as a sequence of characters. The
//! specification functions here say what the numeric pieces of those lines look
//! like; the executable functions append exactly those pieces to a `String`.

use vstd::prelude::*;

verus! {

/// The character of one digit in base 16 or below, in lower case.
pub open spec fn digit_char(d: nat) -> char {
    if d < 10 {
        (48 + d) as char
    } else {
        (87 + d) as char
    }
}

/// The digits of `n` in `base`, most significant first, without leading zeros.
pub open spec fn digits(n: nat, base: nat) -> Seq<char>
    decreases n,
{
    if base < 2 || n < base {
        seq![digit_char(n)]
    } else {
        proof {
            assert(n / base < n) by (nonlinear_arith)
                requires
                    n >= base,
                    base >= 2,
            ;
        }
        digits(n / base, base).push(digit_char(n % base))
    }
}

/// `n` in decimal.
pub open spec fn dec(n: nat) -> Seq<char> {
    digits(n, 10)
}

/// `n` in decimal, with a minus sign where it is negative.
pub open spec fn dec_int(n: int) -> Seq<char> {
    if n < 0 {
        "-"@ + dec((-n) as nat)
    } else {
        dec(n as nat)
    }
}

/// `n` in hexadecimal, without a prefix.
pub open spec fn hex(n: nat) -> Seq<char> {
    digits(n, 16)
}

/// `n` in hexadecimal behind `0x`.
pub open spec fn hex0x(n: nat) -> Seq<char> {
    "0x"@ + hex(n)
}

/// `n` copies of `c`.
pub open spec fn run_of(c: char, n: nat) -> Seq<char> {
    Seq::new(n, |i: int| c)
}

/// How many characters `s` lacks to be `width` long.
pub open spec fn shortfall(s: Seq<char>, width: nat) -> nat {
    if s.len() < width {
        (width - s.len()) as nat
    } else {
        0
    }
}

/// `s`, filled with spaces on the right up to `width` characters.
pub open spec fn pad_right(s: Seq<char>, width: nat) -> Seq<char> {
    s + run_of(' ', shortfall(s, width))
}

/// `s`, filled with zeros on the left up to `width` characters.
pub open spec fn zero_fill(s: Seq<char>, width: nat) -> Seq<char> {
    run_of('0', shortfall(s, width)) + s
}

/// `n` in hexadecimal behind `0x`, filled with zeros up to `width` characters in all.
pub open spec fn hex0x_fill(n: nat, width: nat) -> Seq<char> {
    "0x"@ + zero_fill(hex(n), (width - 2) as nat)
}

/// The text of each string of a list.
pub open spec fn texts(list: Seq<String>) -> Seq<Seq<char>> {
    list.map_values(|s: String| s@)
}

/// The parts one after another, with `separator` between each two.
pub open spec fn joined(parts: Seq<Seq<char>>, separator: Seq<char>) -> Seq<char>
    decreases parts.len(),
{
    if parts.len() == 0 {
        Seq::empty()
    } else if parts.len() == 1 {
        parts[0]
    } else {
        joined(parts.drop_last(), separator) + separator + parts.last()
    }
}

/// What a digit counts.
pub open spec fn digit_value(c: char) -> int {
    if '0' <= c && c <= '9' {
        c as int - 48
    } else {
        c as int - 87
    }
}

/// The number that a text of digits means in `base`.
pub open spec fn number(s: Seq<char>, base: int) -> int
    decreases s.len(),
{
    if s.len() == 0 {
        0
    } else {
        number(s.drop_last(), base) * base + digit_value(s.last())
    }
}

/// Whether a character is a digit of `base`, in lower case.
pub open spec fn is_digit(c: char, base: int) -> bool {
    ('0' <= c && c <= '9' || 'a' <= c && c <= 'f') && digit_value(c) < base
}

/// The digits of a number mean that number, and none of them could be left out.
pub proof fn law_digits(n: nat, base: nat)
    requires
        base == 10 || base == 16,
    ensures
        number(digits(n, base), base as int) == n,
        digits(n, base).len() > 0,
        digits(n, base)[0] == '0' ==> n == 0 && digits(n, base).len() == 1,
        forall|i: int|
            0 <= i < digits(n, base).len() ==> is_digit(#[trigger] digits(n, base)[i], base as int),
    decreases n,
{
    let all = digits(n, base);
    reveal_with_fuel(number, 2);
    if n < base {
        assert(all.drop_last() =~= Seq::empty());
    } else {
        assert(n / base < n) by (nonlinear_arith)
            requires
                n >= base,
                base >= 2,
        ;
        assert(n / base >= 1) by (nonlinear_arith)
            requires
                n >= base,
                base >= 2,
        ;
        let front = digits(n / base, base);
        law_digits(n / base, base);
        assert(all.drop_last() =~= front);
        assert(n == (n / base) * base + n % base) by (nonlinear_arith)
            requires
                base >= 2,
        ;
        assert forall|i: int| 0 <= i < all.len() implies is_digit(
            #[trigger] all[i],
            base as int,
        ) by {
            if i < front.len() {
                assert(all[i] == front[i]);
            }
        }
    }
}

/// Filling with zeros keeps the number, leaves no text shorter than the width, and
/// leaves one that is as long already as it is.
pub proof fn law_zero_fill(s: Seq<char>, width: nat, base: int)
    ensures
        number(zero_fill(s, width), base) == number(s, base),
        zero_fill(s, width).len() >= width,
        s.len() >= width ==> zero_fill(s, width) == s,
        s.len() < width ==> zero_fill(s, width).len() == width,
        s.is_suffix_of(zero_fill(s, width)),
    decreases s.len() + shortfall(s, width),
{
    let full = zero_fill(s, width);
    let zeros = run_of('0', shortfall(s, width));
    assert(full.subrange(full.len() - s.len(), full.len() as int) =~= s);
    if s.len() >= width {
        assert(full =~= s);
    }
    lemma_number_zeros(zeros, s, base);
}

proof fn lemma_number_zeros(zeros: Seq<char>, s: Seq<char>, base: int)
    requires
        forall|i: int| 0 <= i < zeros.len() ==> zeros[i] == '0',
    ensures
        number(zeros + s, base) == number(s, base),
    decreases zeros.len() + s.len(),
{
    let full = zeros + s;
    if s.len() > 0 {
        lemma_number_zeros(zeros, s.drop_last(), base);
        assert(full.drop_last() =~= zeros + s.drop_last());
    } else if zeros.len() > 0 {
        lemma_number_zeros(zeros.drop_last(), s, base);
        assert(full.drop_last() =~= zeros.drop_last() + s);
        assert(number(full.drop_last(), base) == 0);
        assert(0 * base == 0) by (nonlinear_arith);
    } else {
        assert(full =~= s);
    }
}

/// Padding keeps the text at the left and puts spaces behind it, as many as the width
/// asks for and no more.
pub proof fn law_pad_right(s: Seq<char>, width: nat)
    ensures
        pad_right(s, width).take(s.len() as int) == s,
        pad_right(s, width).len() == if s.len() < width {
            width
        } else {
            s.len()
        },
        forall|i: int|
            s.len() <= i < pad_right(s, width).len() ==> #[trigger] pad_right(s, width)[i] == ' ',
{
    assert(pad_right(s, width).take(s.len() as int) =~= s);
}

/// A number with a sign: the digits of its size, behind a minus where it is negative.
pub proof fn law_dec_int(n: int)
    ensures
        n >= 0 ==> number(dec_int(n), 10) == n,
        n < 0 ==> dec_int(n)[0] == '-' && number(dec_int(n).skip(1), 10) == -n,
{
    reveal_strlit("-");
    if n < 0 {
        law_digits((-n) as nat, 10);
        assert(dec_int(n).skip(1) =~= dec((-n) as nat));
    } else {
        law_digits(n as nat, 10);
    }
}

/// Hexadecimal numbers behind `0x`: filled or not, they mean the number, and a filled
/// one is as wide as asked for, or wider where the number needs it.
pub proof fn law_hex0x(n: nat, width: nat)
    requires
        width >= 2,
    ensures
        number(hex(n), 16) == n,
        hex0x(n).take(2) == "0x"@,
        hex0x(n).skip(2) == hex(n),
        hex0x_fill(n, width).take(2) == "0x"@,
        number(hex0x_fill(n, width).skip(2), 16) == n,
        hex0x_fill(n, width).len() == if hex0x(n).len() < width {
            width
        } else {
            hex0x(n).len()
        },
        hex(n).is_suffix_of(hex0x_fill(n, width)),
{
    reveal_strlit("0x");
    law_digits(n, 16);
    law_zero_fill(hex(n), (width - 2) as nat, 16);
    let filled = zero_fill(hex(n), (width - 2) as nat);
    let full = hex0x_fill(n, width);
    assert(hex0x(n).take(2) =~= "0x"@);
    assert(hex0x(n).skip(2) =~= hex(n));
    assert(full.take(2) =~= "0x"@);
    assert(full.skip(2) =~= filled);
    assert(full.subrange(full.len() - hex(n).len(), full.len() as int) =~= filled.subrange(
        filled.len() - hex(n).len(),
        filled.len() as int,
    ));
}

/// One more string at the end of a list.
pub proof fn lemma_texts_push(list: Seq<String>, s: String)
    ensures
        texts(list.push(s)) == texts(list).push(s@),
{
    assert(texts(list.push(s)) =~= texts(list).push(s@));
}

/// Appends one digit.
fn push_digit(out: &mut String, d: u32)
    requires
        d < 16,
    ensures
        final(out)@ == old(out)@.push(digit_char(d as nat)),
{
    let text: &str = match d {
        0 => "0",
        1 => "1",
        2 => "2",
        3 => "3",
        4 => "4",
        5 => "5",
        6 => "6",
        7 => "7",
        8 => "8",
        9 => "9",
        10 => "a",
        11 => "b",
        12 => "c",
        13 => "d",
        14 => "e",
        _ => "f",
    };
    proof {
        reveal_strlit("0");
        reveal_strlit("1");
        reveal_strlit("2");
        reveal_strlit("3");
        reveal_strlit("4");
        reveal_strlit("5");
        reveal_strlit("6");
        reveal_strlit("7");
        reveal_strlit("8");
        reveal_strlit("9");
        reveal_strlit("a");
        reveal_strlit("b");
        reveal_strlit("c");
        reveal_strlit("d");
        reveal_strlit("e");
        reveal_strlit("f");
    }
    assert(text@ =~= seq![digit_char(d as nat)]);
    out.append(text);
    assert(out@ =~= old(out)@.push(digit_char(d as nat)));
}

/// Appends the digits of `n` in `base`.
fn push_digits(out: &mut String, n: u128, base: u128)
    requires
        2 <= base <= 16,
    ensures
        final(out)@ == old(out)@ + digits(n as nat, base as nat),
    decreases n,
{
    if n >= base {
        assert(n / base < n) by (nonlinear_arith)
            requires
                n >= base,
                base >= 2,
        ;
        push_digits(out, n / base, base);
    }
    let last: u128 = n % base;
    push_digit(out, last as u32);
    proof {
        if n < base {
            assert(n % base == n) by (nonlinear_arith)
                requires
                    n < base,
            ;
        }
    }
    assert(out@ =~= old(out)@ + digits(n as nat, base as nat));
}

/// Appends `n` in decimal.
pub fn push_dec(out: &mut String, n: u64)
    ensures
        final(out)@ == old(out)@ + dec(n as nat),
{
    push_digits(out, n as u128, 10);
}

/// Appends `n` in decimal, with its sign.
pub fn push_dec_int(out: &mut String, n: i32)
    ensures
        final(out)@ == old(out)@ + dec_int(n as int),
{
    if n < 0 {
        let size: i64 = -(n as i64);
        out.append("-");
        push_digits(out, size as u128, 10);
        assert(out@ =~= old(out)@ + dec_int(n as int));
    } else {
        push_digits(out, n as u128, 10);
    }
}

/// Appends `n` in hexadecimal, without a prefix.
pub fn push_hex(out: &mut String, n: u64)
    ensures
        final(out)@ == old(out)@ + hex(n as nat),
{
    push_digits(out, n as u128, 16);
}

/// Appends a 128-bit `n` in hexadecimal, without a prefix.
pub fn push_hex_wide(out: &mut String, n: u128)
    ensures
        final(out)@ == old(out)@ + hex(n as nat),
{
    push_digits(out, n, 16);
}

/// Appends `n` in hexadecimal behind `0x`.
pub fn push_hex0x(out: &mut String, n: u64)
    ensures
        final(out)@ == old(out)@ + hex0x(n as nat),
{
    out.append("0x");
    push_hex(out, n);
    assert(out@ =~= old(out)@ + hex0x(n as nat));
}

/// Appends `count` copies of a text of one character.
pub fn push_run(out: &mut String, unit: &str, count: usize)
    requires
        unit@.len() == 1,
    ensures
        final(out)@ == old(out)@ + run_of(unit@[0], count as nat),
{
    let mut done: usize = 0;
    assert(out@ =~= old(out)@ + run_of(unit@[0], 0));
    while done < count
        invariant
            done <= count,
            unit@.len() == 1,
            out@ == old(out)@ + run_of(unit@[0], done as nat),
        decreases count - done,
    {
        out.append(unit);
        done += 1;
        assert(out@ =~= old(out)@ + run_of(unit@[0], done as nat));
    }
}

/// How many characters `s` lacks to be `width` long.
fn missing(s: &str, width: usize) -> (n: usize)
    ensures
        n == shortfall(s@, width as nat),
{
    let len: usize = s.unicode_len();
    if len < width {
        width - len
    } else {
        0
    }
}

/// Appends `s`, filled with spaces on the right up to `width` characters.
pub fn push_padded(out: &mut String, s: &str, width: usize)
    ensures
        final(out)@ == old(out)@ + pad_right(s@, width as nat),
{
    let fill: usize = missing(s, width);
    out.append(s);
    proof {
        reveal_strlit(" ");
    }
    push_run(out, " ", fill);
    assert(out@ =~= old(out)@ + pad_right(s@, width as nat));
}

/// Appends `s`, filled with zeros on the left up to `width` characters.
fn push_zero_filled(out: &mut String, s: &str, width: usize)
    ensures
        final(out)@ == old(out)@ + zero_fill(s@, width as nat),
{
    let fill: usize = missing(s, width);
    proof {
        reveal_strlit("0");
    }
    push_run(out, "0", fill);
    out.append(s);
    assert(out@ =~= old(out)@ + zero_fill(s@, width as nat));
}

/// Appends `n` in decimal, filled with zeros on the left up to `width` characters.
pub fn push_dec_fill(out: &mut String, n: u64, width: usize)
    ensures
        final(out)@ == old(out)@ + zero_fill(dec(n as nat), width as nat),
{
    let body = dec_string(n);
    push_zero_filled(out, body.as_str(), width);
}

/// Appends `n` in hexadecimal behind `0x`, filled with zeros up to `width` characters in all.
pub fn push_hex0x_fill(out: &mut String, n: u64, width: usize)
    requires
        width >= 2,
    ensures
        final(out)@ == old(out)@ + hex0x_fill(n as nat, width as nat),
{
    let mut body = String::new();
    push_hex(&mut body, n);
    assert(body@ =~= hex(n as nat));
    out.append("0x");
    push_zero_filled(out, body.as_str(), width - 2);
    assert(out@ =~= old(out)@ + hex0x_fill(n as nat, width as nat));
}

/// `n` in decimal.
pub fn dec_string(n: u64) -> (s: String)
    ensures
        s@ == dec(n as nat),
{
    let mut s = String::new();
    push_dec(&mut s, n);
    assert(s@ =~= dec(n as nat));
    s
}

/// Whether two texts are the same.
pub fn same_text(a: &str, b: &str) -> (r: bool)
    ensures
        r == (a@ == b@),
{
    a.to_owned() == b.to_owned()
}

/// Adds a line to a list of lines.
pub fn push_line(lines: &mut Vec<String>, line: String)
    ensures
        texts(final(lines)@) == texts(old(lines)@).push(line@),
{
    proof {
        lemma_texts_push(lines@, line);
    }
    lines.push(line);
}

/// Adds lines to a list of lines.
pub fn push_lines(lines: &mut Vec<String>, more: Vec<String>)
    ensures
        texts(final(lines)@) == texts(old(lines)@) + texts(more@),
{
    let mut more = more;
    let ghost before = lines@;
    let ghost added = more@;
    lines.append(&mut more);
    assert(texts(before + added) =~= texts(before) + texts(added));
}

} // verus!
