//! Numbers as text: decimal, zero-padded and hexadecimal digits, and reading an index back.
use vstd::prelude::*;

use crate::text::chars_of;

verus! {

/// The digit for a value below ten.
pub open spec fn digit(d: nat) -> char {
    (48 + d) as char
}

/// The decimal digits of a number, without leading zeros.
pub open spec fn decimal(n: nat) -> Seq<char>
    decreases n,
{
    if n < 10 {
        seq![digit(n)]
    } else {
        decimal(n / 10).push(digit(n % 10))
    }
}

/// The number that a row of decimal digits stands for.
pub open spec fn digits_value(s: Seq<char>) -> nat
    decreases s.len(),
{
    if s.len() == 0 {
        0
    } else {
        10 * digits_value(s.drop_last()) + (s.last() as u32 - 48) as nat
    }
}

/// Whether `c` is one of `0` to `9`.
pub open spec fn is_digit(c: char) -> bool {
    '0' <= c <= '9'
}

/// The text without a leading plus sign.
pub open spec fn unsigned_part(s: Seq<char>) -> Seq<char> {
    if s.len() > 0 && s[0] == '+' {
        s.drop_first()
    } else {
        s
    }
}

/// The index that a text stands for: one or more decimal digits, after a plus sign or without
/// one, whose value an index can hold.
pub open spec fn index_of(s: Seq<char>) -> Option<usize> {
    let digits = unsigned_part(s);
    if digits.len() > 0 && (forall|i: int| 0 <= i < digits.len() ==> is_digit(#[trigger] digits[i]))
        && digits_value(digits) <= usize::MAX {
        Some(digits_value(digits) as usize)
    } else {
        None
    }
}

/// `width` zeros or more in front of the digits so that at least `width` digits stand there.
pub open spec fn padded(n: nat, width: nat) -> Seq<char> {
    let digits = decimal(n);
    if digits.len() >= width {
        digits
    } else {
        Seq::new((width - digits.len()) as nat, |i: int| '0') + digits
    }
}

/// The lowercase hexadecimal digit for a value below sixteen.
pub open spec fn hex_digit(d: nat) -> char {
    if d < 10 {
        (48 + d) as char
    } else {
        (87 + d) as char
    }
}

/// The last six hexadecimal digits of a number.
pub open spec fn hex_tail(n: nat) -> Seq<char> {
    seq![
        hex_digit(n / 0x100000 % 16),
        hex_digit(n / 0x10000 % 16),
        hex_digit(n / 0x1000 % 16),
        hex_digit(n / 0x100 % 16),
        hex_digit(n / 0x10 % 16),
        hex_digit(n % 16),
    ]
}

fn digit_char(d: u64) -> (c: char)
    requires
        d < 10,
    ensures
        c == digit(d as nat),
{
    (48 + d as u8) as char
}

fn hex_char(d: u64) -> (c: char)
    requires
        d < 16,
    ensures
        c == hex_digit(d as nat),
{
    if d < 10 {
        (48 + d as u8) as char
    } else {
        (87 + d as u8) as char
    }
}

/// Appends the decimal digits of `n`.
pub fn push_decimal(out: &mut String, n: u64)
    ensures
        final(out)@ == old(out)@ + decimal(n as nat),
    decreases n,
{
    let ghost before = out@;
    if n >= 10 {
        push_decimal(out, n / 10);
    }
    out.push(digit_char(n % 10));
    assert(out@ =~= before + decimal(n as nat));
}

/// The decimal digits of `n`.
pub fn decimal_text(n: u64) -> (s: String)
    ensures
        s@ == decimal(n as nat),
{
    let mut s = String::new();
    push_decimal(&mut s, n);
    assert(s@ =~= decimal(n as nat));
    s
}

/// The decimal digits of `n`, filled up with zeros in front to `width` digits.
pub fn padded_text(n: u64, width: usize) -> (s: String)
    ensures
        s@ == padded(n as nat, width as nat),
{
    let digits = decimal_text(n);
    let length = chars_of(digits.as_str()).len();
    let mut s = String::new();
    let mut have: usize = length;
    while have < width
        invariant
            length == decimal(n as nat).len(),
            length <= have,
            have <= width || have == length,
            s@ =~= Seq::new((have - length) as nat, |i: int| '0'),
        decreases width - have,
    {
        s.push('0');
        have += 1;
    }
    s.append(digits.as_str());
    assert(s@ =~= padded(n as nat, width as nat));
    s
}

/// The last six hexadecimal digits of `n`.
pub fn hex_tail_text(n: u64) -> (s: String)
    ensures
        s@ == hex_tail(n as nat),
{
    let mut s = String::new();
    s.push(hex_char(n / 0x100000 % 16));
    s.push(hex_char(n / 0x10000 % 16));
    s.push(hex_char(n / 0x1000 % 16));
    s.push(hex_char(n / 0x100 % 16));
    s.push(hex_char(n / 0x10 % 16));
    s.push(hex_char(n % 16));
    assert(s@ =~= hex_tail(n as nat));
    s
}

/// Reads an index back from its text.
pub fn parse_index(s: &str) -> (r: Option<usize>)
    ensures
        r == index_of(s@),
{
    let chars = chars_of(s);
    let mut start: usize = 0;
    if chars.len() > 0 && chars[0] == '+' {
        start = 1;
    }
    let ghost digits = unsigned_part(s@);
    assert(digits =~= s@.skip(start as int));
    if start == chars.len() {
        return None;
    }
    let mut value: usize = 0;
    let mut fits = true;
    let mut i: usize = start;
    assert(digits.take(0) =~= Seq::<char>::empty());
    while i < chars.len()
        invariant
            start <= i <= chars@.len(),
            start <= 1,
            chars@ == s@,
            digits == unsigned_part(s@),
            digits =~= s@.skip(start as int),
            digits.len() > 0,
            forall|j: int| 0 <= j < i - start ==> is_digit(#[trigger] digits[j]),
            fits ==> value == digits_value(digits.take(i - start)),
            !fits ==> digits_value(digits.take(i - start)) > usize::MAX,
        decreases chars@.len() - i,
    {
        let c = chars[i];
        assert(c == digits[i - start]);
        assert(digits.take(i - start + 1).drop_last() =~= digits.take(i - start));
        if c < '0' || c > '9' {
            return None;
        }
        let d: usize = (c as u32 - 48) as usize;
        if fits {
            if value > (usize::MAX - d) / 10 {
                fits = false;
            } else {
                value = value * 10 + d;
            }
        }
        i += 1;
    }
    assert(digits.take(i - start) =~= digits);
    if fits {
        Some(value)
    } else {
        None
    }
}

// ---------------------------------------------------------------------------
// Laws
// ---------------------------------------------------------------------------

/// Decimal text is made of digits alone, at least one of them, and has the number's value.
pub proof fn decimal_has_its_value(n: nat)
    ensures
        decimal(n).len() > 0,
        forall|i: int| 0 <= i < decimal(n).len() ==> is_digit(#[trigger] decimal(n)[i]),
        digits_value(decimal(n)) == n,
    decreases n,
{
    if n < 10 {
        assert(decimal(n).drop_last() =~= Seq::<char>::empty());
        reveal_with_fuel(digits_value, 2);
    } else {
        decimal_has_its_value(n / 10);
        assert(decimal(n).drop_last() =~= decimal(n / 10));
    }
}

/// An index written in decimal is read back as itself.
pub proof fn index_reads_back(n: usize)
    ensures
        index_of(decimal(n as nat)) == Some(n),
{
    decimal_has_its_value(n as nat);
    assert(is_digit(decimal(n as nat)[0]));
}

/// A single digit is written as itself, and a digit behind a number that is not zero is written
/// behind that number.
pub proof fn digits_are_written_in_order(n: nat, d: nat)
    requires
        d < 10,
    ensures
        decimal(d) == "0123456789"@.subrange(d as int, d as int + 1),
        n > 0 ==> decimal(10 * n + d) == decimal(n) + decimal(d),
{
    reveal_strlit("0123456789");
    assert(decimal(d) =~= "0123456789"@.subrange(d as int, d as int + 1));
    if n > 0 {
        assert((10 * n + d) / 10 == n);
        assert((10 * n + d) % 10 == d);
        assert(decimal(10 * n + d) =~= decimal(n) + decimal(d));
    }
}

/// No number but zero begins with a zero, and different numbers are written differently.
pub proof fn decimals_differ(m: nat, n: nat)
    ensures
        n > 0 ==> decimal(n)[0] != '0',
        decimal(m) == decimal(n) ==> m == n,
{
    decimal_has_its_value(m);
    decimal_has_its_value(n);
    if n > 0 {
        begins_without_zero(n);
    }
}

proof fn begins_without_zero(n: nat)
    requires
        n > 0,
    ensures
        decimal(n).len() > 0,
        decimal(n)[0] != '0',
    decreases n,
{
    if n >= 10 {
        begins_without_zero(n / 10);
        assert(decimal(n)[0] == decimal(n / 10)[0]);
    }
}

/// Padded text is as wide as it must be, stands for the number, and is no wider than the digits
/// or the width ask for.
pub proof fn padded_text_has_its_width(n: nat, width: nat)
    ensures
        padded(n, width).len() >= width,
        padded(n, width).len() >= decimal(n).len(),
        padded(n, width).len() == width || padded(n, width) == decimal(n),
        forall|i: int|
            0 <= i < padded(n, width).len() - decimal(n).len() ==> #[trigger] padded(n, width)[i]
                == '0',
        padded(n, width).skip(padded(n, width).len() - decimal(n).len()) == decimal(n),
{
    let text = padded(n, width);
    assert(text.skip(text.len() - decimal(n).len()) =~= decimal(n));
}

/// A hexadecimal digit behind a number pushes its digits one place to the left, so that the last
/// six stay; zero is six zeros.
pub proof fn hex_digits_are_written_in_order(q: nat, d: nat)
    requires
        d < 16,
    ensures
        hex_tail(16 * q + d) == hex_tail(q).skip(1) + "0123456789abcdef"@.subrange(
            d as int,
            d as int + 1,
        ),
        hex_tail(0) == "000000"@,
{
    assert(hex_tail(0) =~= "000000"@) by {
        reveal_strlit("000000");
    }
    let n = 16 * q + d;
    assert(n % 16 == d);
    assert(n / 0x10 == q);
    assert(n / 0x100 == q / 0x10);
    assert(n / 0x1000 == q / 0x100);
    assert(n / 0x10000 == q / 0x1000);
    assert(n / 0x100000 == q / 0x10000);
    let last = "0123456789abcdef"@.subrange(d as int, d as int + 1);
    assert(last =~= seq![hex_digit(d)]) by {
        reveal_strlit("0123456789abcdef");
    }
    assert(hex_tail(n) =~= hex_tail(q).skip(1) + last);
}

/// Leading zeros and one plus sign do not change an index, and a text with any other character
/// than a digit is none.
pub proof fn index_ignores_zeros_and_plus(s: Seq<char>, at: int)
    ensures
        s.len() > 0 && s[0] != '+' ==> index_of(seq!['0'] + s) == index_of(s),
        s.len() > 0 && s[0] != '+' ==> index_of(seq!['+'] + s) == index_of(s),
        0 <= at < s.len() && !is_digit(s[at]) && (at > 0 || s[at] != '+') ==> index_of(s) is None,
        index_of(Seq::empty()) is None,
{
    if s.len() > 0 && s[0] != '+' {
        let z = seq!['0'] + s;
        let p = seq!['+'] + s;
        assert(p.drop_first() =~= s);
        value_behind_zero(s);
        assert(z[0] == '0');
        assert forall|i: int| 0 <= i < s.len() implies #[trigger] z[i + 1] == s[i] by {}
        if forall|i: int| 0 <= i < s.len() ==> is_digit(#[trigger] s[i]) {
            assert forall|i: int| 0 <= i < z.len() implies is_digit(#[trigger] z[i]) by {
                if i > 0 {
                    assert(z[i] == s[i - 1]);
                }
            }
        } else {
            let k = choose|k: int| 0 <= k < s.len() && !is_digit(#[trigger] s[k]);
            assert(!is_digit(z[k + 1]));
        }
    }
    if 0 <= at < s.len() && !is_digit(s[at]) && (at > 0 || s[at] != '+') {
        let digits = unsigned_part(s);
        if s[0] == '+' {
            assert(digits[at - 1] == s[at]);
        } else {
            assert(digits[at] == s[at]);
        }
    }
}

proof fn value_behind_zero(s: Seq<char>)
    ensures
        digits_value(seq!['0'] + s) == digits_value(s),
    decreases s.len(),
{
    let z = seq!['0'] + s;
    if s.len() == 0 {
        assert(z.drop_last() =~= Seq::<char>::empty());
        reveal_with_fuel(digits_value, 2);
    } else {
        value_behind_zero(s.drop_last());
        assert(z.drop_last() =~= seq!['0'] + s.drop_last());
    }
}

/// Padding does not change what a number is read as.
pub proof fn padded_keeps_the_value(n: nat, width: nat)
    requires
        n <= usize::MAX,
    ensures
        index_of(padded(n, width)) == Some(n as usize),
    decreases width,
{
    index_reads_back(n as usize);
    decimal_has_its_value(n);
    let digits = decimal(n);
    if digits.len() < width {
        padded_keeps_the_value(n, (width - 1) as nat);
        let less = padded(n, (width - 1) as nat);
        assert(padded(n, width) =~= seq!['0'] + less);
        assert(less[0] != '+') by {
            if digits.len() == width - 1 {
                assert(is_digit(digits[0]));
            }
        }
        index_ignores_zeros_and_plus(less, 0);
    }
}

} // verus!
