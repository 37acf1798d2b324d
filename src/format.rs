//! Human-readable renderings of byte counts.

use vstd::arithmetic::div_mod::{lemma_div_by_multiple, lemma_div_is_ordered};
use vstd::prelude::*;

verus! {

/// The character of a decimal digit `d < 10`.
pub open spec fn digit_char(d: nat) -> char {
    if d == 0 { '0' }
    else if d == 1 { '1' }
    else if d == 2 { '2' }
    else if d == 3 { '3' }
    else if d == 4 { '4' }
    else if d == 5 { '5' }
    else if d == 6 { '6' }
    else if d == 7 { '7' }
    else if d == 8 { '8' }
    else { '9' }
}

pub open spec fn is_digit(c: char) -> bool {
    '0' <= c && c <= '9'
}

/// The value of a digit character.
pub open spec fn digit_value(c: char) -> nat {
    (c as int - '0' as int) as nat
}

/// The decimal digits of `n`, most significant first, without leading zeros.
pub open spec fn decimal(n: nat) -> Seq<char>
    decreases n,
{
    if n < 10 {
        seq![digit_char(n)]
    } else {
        decimal(n / 10).push(digit_char(n % 10))
    }
}

/// The three digits of `m < 1000`, zero-padded.
pub open spec fn three_digits(m: nat) -> Seq<char> {
    seq![digit_char(m / 100), digit_char((m / 10) % 10), digit_char(m % 10)]
}

/// The decimal digits of `n` with a comma between each group of three,
/// counting from the least significant digit.
pub open spec fn grouped(n: nat) -> Seq<char>
    decreases n,
{
    if n < 1000 {
        decimal(n)
    } else {
        grouped(n / 1000) + seq![','] + three_digits(n % 1000)
    }
}

/// The number that a string of digits denotes.
pub open spec fn digits_value(s: Seq<char>) -> nat
    decreases s.len(),
{
    if s.len() == 0 {
        0
    } else {
        digits_value(s.drop_last()) * 10 + digit_value(s.last())
    }
}

/// `s` with every comma taken out.
pub open spec fn without_commas(s: Seq<char>) -> Seq<char>
    decreases s.len(),
{
    if s.len() == 0 {
        s
    } else if s.last() == ',' {
        without_commas(s.drop_last())
    } else {
        without_commas(s.drop_last()).push(s.last())
    }
}

proof fn lemma_digit_char(d: nat)
    requires
        d < 10,
    ensures
        is_digit(digit_char(d)),
        digit_value(digit_char(d)) == d,
        digit_char(d) != ',',
{
}

/// The decimal form of `n` is a non-empty string of digits, of at most three
/// for `n < 1000`, whose value is `n`.
pub proof fn lemma_decimal(n: nat)
    ensures
        decimal(n).len() >= 1,
        n < 10 ==> decimal(n).len() == 1,
        n < 100 ==> decimal(n).len() <= 2,
        n < 1000 ==> decimal(n).len() <= 3,
        forall|i: int| 0 <= i < decimal(n).len() ==> is_digit(#[trigger] decimal(n)[i]),
        digits_value(decimal(n)) == n,
    decreases n,
{
    lemma_digit_char(n % 10);
    if n >= 10 {
        lemma_decimal(n / 10);
        let d = decimal(n);
        assert(d == decimal(n / 10).push(digit_char(n % 10)));
        assert(d.drop_last() =~= decimal(n / 10));
        assert(d.last() == digit_char(n % 10));
        assert(digits_value(d) == digits_value(decimal(n / 10)) * 10 + n % 10);
        assert((n / 10) * 10 + n % 10 == n);
    } else {
        assert(decimal(n) == seq![digit_char(n)]);
        assert(decimal(n).drop_last() =~= Seq::<char>::empty());
        assert(digits_value(Seq::<char>::empty()) == 0);
        assert(n % 10 == n);
    }
}

proof fn lemma_decimal_split(n: nat)
    requires
        n >= 1000,
    ensures
        decimal(n) == decimal(n / 1000) + three_digits(n % 1000),
{
    let r = n % 1000;
    assert(n / 10 / 10 == n / 100);
    assert(n / 100 / 10 == n / 1000);
    assert((n / 100) % 10 == r / 100);
    assert((n / 10) % 10 == (r / 10) % 10);
    assert(n % 10 == r % 10);
    assert(decimal(n) == decimal(n / 10).push(digit_char(n % 10)));
    assert(decimal(n / 10) == decimal(n / 100).push(digit_char((n / 10) % 10)));
    assert(decimal(n / 100) == decimal(n / 1000).push(digit_char((n / 100) % 10)));
    assert(decimal(n) =~= decimal(n / 1000) + three_digits(r));
}

proof fn lemma_without_commas_concat(a: Seq<char>, b: Seq<char>)
    ensures
        without_commas(a + b) == without_commas(a) + without_commas(b),
    decreases b.len(),
{
    if b.len() == 0 {
        assert(a + b =~= a);
        assert(without_commas(a) + without_commas(b) =~= without_commas(a));
    } else {
        lemma_without_commas_concat(a, b.drop_last());
        assert((a + b).drop_last() =~= a + b.drop_last());
        assert((a + b).last() == b.last());
        if b.last() == ',' {
        } else {
            assert(without_commas(a) + without_commas(b.drop_last()).push(b.last()) =~= (
            without_commas(a) + without_commas(b.drop_last())).push(b.last()));
        }
    }
}

proof fn lemma_without_commas_digits(s: Seq<char>)
    requires
        forall|i: int| 0 <= i < s.len() ==> is_digit(#[trigger] s[i]),
    ensures
        without_commas(s) == s,
    decreases s.len(),
{
    if s.len() > 0 {
        lemma_without_commas_digits(s.drop_last());
        assert(s.drop_last().push(s.last()) =~= s);
    }
}

/// Shape of a grouping: only digits and commas, a comma exactly at every
/// fourth place counted from the right end, and the plain decimal digits of
/// `n` once the commas are taken out.
pub proof fn lemma_grouped_shape(n: nat)
    ensures
        forall|i: int|
            0 <= i < grouped(n).len() ==> is_digit(#[trigger] grouped(n)[i]) || grouped(n)[i]
                == ',',
        forall|i: int|
            0 <= i < grouped(n).len() ==> (#[trigger] grouped(n)[i] == ',' <==> (grouped(n).len()
                - i) % 4 == 0),
        without_commas(grouped(n)) == decimal(n),
    decreases n,
{
    if n < 1000 {
        lemma_decimal(n);
        lemma_without_commas_digits(decimal(n));
    } else {
        let m = n % 1000;
        lemma_grouped_shape(n / 1000);
        lemma_digit_char(m / 100);
        lemma_digit_char((m / 10) % 10);
        lemma_digit_char(m % 10);
        let p = grouped(n / 1000);
        let t = three_digits(m);
        let g = grouped(n);
        assert(g == p + seq![','] + t);
        assert forall|i: int| 0 <= i < g.len() implies (is_digit(#[trigger] g[i]) || g[i] == ',')
            && (g[i] == ',' <==> (g.len() - i) % 4 == 0) by {
            if i < p.len() {
                assert(g[i] == p[i]);
            } else if i == p.len() {
            } else {
                assert(g[i] == t[i - p.len() - 1]);
            }
        }
        lemma_without_commas_concat(p + seq![','], t);
        lemma_without_commas_concat(p, seq![',']);
        assert(seq![','].drop_last() =~= Seq::<char>::empty());
        assert(seq![','].last() == ',');
        assert(without_commas(Seq::<char>::empty()) == Seq::<char>::empty());
        assert(without_commas(seq![',']) =~= Seq::<char>::empty());
        lemma_without_commas_digits(t);
        lemma_decimal_split(n);
        assert(without_commas(p) + Seq::<char>::empty() =~= without_commas(p));
    }
}

/// Rendering a number and taking the commas out of the result gives back
/// exactly that number's decimal digits, and their value is the number.
pub proof fn lemma_format_num_round_trip(n: u64)
    ensures
        without_commas(grouped(n as nat)) == decimal(n as nat),
        digits_value(without_commas(grouped(n as nat))) == n,
{
    lemma_grouped_shape(n as nat);
    lemma_decimal(n as nat);
}

fn append_digit(out: &mut String, d: u64)
    requires
        d < 10,
    ensures
        final(out)@ == old(out)@.push(digit_char(d as nat)),
{
    proof {
        reveal_strlit("0");
        reveal_strlit("1");
        reveal_strlit("2");
        reveal_strlit("3");
        reveal_strlit("4");
        reveal_strlit("5");
        reveal_strlit("6");
        reveal_strlit("7");
        reveal_strlit("8");
        reveal_strlit("9");
    }
    let s: &str = if d == 0 {
        "0"
    } else if d == 1 {
        "1"
    } else if d == 2 {
        "2"
    } else if d == 3 {
        "3"
    } else if d == 4 {
        "4"
    } else if d == 5 {
        "5"
    } else if d == 6 {
        "6"
    } else if d == 7 {
        "7"
    } else if d == 8 {
        "8"
    } else {
        "9"
    };
    assert(s@ =~= seq![digit_char(d as nat)]);
    out.append(s);
    assert(final(out)@ =~= old(out)@.push(digit_char(d as nat)));
}

fn append_decimal(out: &mut String, n: u64)
    ensures
        final(out)@ == old(out)@ + decimal(n as nat),
    decreases n,
{
    if n >= 10 {
        append_decimal(out, n / 10);
    }
    append_digit(out, n % 10);
    assert(final(out)@ =~= old(out)@ + decimal(n as nat));
}

fn append_grouped(out: &mut String, n: u64)
    ensures
        final(out)@ == old(out)@ + grouped(n as nat),
    decreases n,
{
    if n < 1000 {
        append_decimal(out, n);
    } else {
        append_grouped(out, n / 1000);
        proof {
            reveal_strlit(",");
        }
        out.append(",");
        let m: u64 = n % 1000;
        append_digit(out, m / 100);
        append_digit(out, (m / 10) % 10);
        append_digit(out, m % 10);
        assert(final(out)@ =~= old(out)@ + grouped(n as nat));
    }
}

/// Renders `n` in decimal with its digits grouped in threes by commas,
/// counting from the right: `1234567` gives `1,234,567`.
pub fn format_num(n: u64) -> (r: String)
    ensures
        r@ == grouped(n as nat),
{
    let mut s = String::new();
    append_grouped(&mut s, n);
    assert(s@ =~= grouped(n as nat));
    s
}

/// Bytes in one binary gigabyte.
pub const GIB: u64 = 1073741824;

/// `n` bytes in binary gigabytes, in hundredths, rounded to the nearest
/// hundredth of the exact quotient, ties to the even hundredth.
pub open spec fn gigabyte_hundredths(n: nat) -> nat {
    let q = (n * 100) / (GIB as nat);
    let rem = (n * 100) % (GIB as nat);
    if rem * 2 > GIB || (rem * 2 == GIB && q % 2 == 1) {
        q + 1
    } else {
        q
    }
}

/// The gigabyte figure of `n` bytes with exactly two decimals.
pub open spec fn gigabytes_text(n: nat) -> Seq<char> {
    let h = gigabyte_hundredths(n);
    decimal(h / 100) + seq!['.', digit_char((h % 100) / 10), digit_char(h % 10)]
}

/// `n` bytes in binary gigabytes (units of 1024^3 bytes), in hundredths.
pub fn to_gigabyte_hundredths(n: u64) -> (r: u64)
    ensures
        r == gigabyte_hundredths(n as nat),
{
    let x: u128 = (n as u128) * 100;
    let g: u128 = GIB as u128;
    let q: u128 = x / g;
    let rem: u128 = x % g;
    proof {
        lemma_div_is_ordered(x as int, (100 * 0x4_0000_0000 * 1073741824) as int, g as int);
        lemma_div_by_multiple((100 * 0x4_0000_0000) as int, 1073741824);
    }
    if rem * 2 > g || (rem * 2 == g && q % 2 == 1) {
        (q + 1) as u64
    } else {
        q as u64
    }
}

/// Renders `n` bytes as binary gigabytes with two decimals, rounded half to
/// even on the exact quotient: `1073741824` gives `1.00`.
pub fn format_gigabytes(n: u64) -> (r: String)
    ensures
        r@ == gigabytes_text(n as nat),
{
    let h = to_gigabyte_hundredths(n);
    let mut s = String::new();
    append_decimal(&mut s, h / 100);
    proof {
        reveal_strlit(".");
    }
    s.append(".");
    append_digit(&mut s, (h % 100) / 10);
    append_digit(&mut s, h % 10);
    assert(s@ =~= gigabytes_text(n as nat));
    s
}

} // verus!
