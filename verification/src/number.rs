//! Numbers in text: decimal and hexadecimal digits, written and read.

use vstd::arithmetic::div_mod::lemma_fundamental_div_mod;
use vstd::prelude::*;

verus! {

/// The digit that stands for `d`, in lower case.
pub open spec fn digit(d: nat) -> char {
    if d < 10 {
        (48 + d) as char
    } else {
        (87 + d) as char
    }
}

/// The number that the digit `c` stands for in `radix`, if it is one.
pub open spec fn digit_value(c: char, radix: nat) -> Option<nat> {
    let v: nat = if '0' <= c <= '9' {
        (c as u32 - 48) as nat
    } else if 'a' <= c <= 'z' {
        (c as u32 - 87) as nat
    } else if 'A' <= c <= 'Z' {
        (c as u32 - 55) as nat
    } else {
        radix
    };
    if v < radix {
        Some(v)
    } else {
        None
    }
}

/// `n` in `radix`, without leading zeros; zero is one digit.
pub open spec fn rendered(n: nat, radix: nat) -> Seq<char>
    decreases n,
{
    if radix < 2 || n < radix {
        seq![digit(n)]
    } else {
        proof {
            assert(n / radix < n) by (nonlinear_arith)
                requires
                    n >= radix,
                    radix >= 2,
            ;
        }
        rendered(n / radix, radix).push(digit(n % radix))
    }
}

/// `n` in decimal.
pub open spec fn decimal(n: nat) -> Seq<char> {
    rendered(n, 10)
}

/// Every character of `s` is a digit of `radix`.
pub open spec fn all_digits(s: Seq<char>, radix: nat) -> bool {
    forall|i: int| 0 <= i < s.len() ==> digit_value(#[trigger] s[i], radix) is Some
}

/// The number that the digits `s` stand for.
pub open spec fn value_of(s: Seq<char>, radix: nat) -> nat
    decreases s.len(),
{
    if s.len() == 0 {
        0
    } else {
        value_of(s.drop_last(), radix) * radix + digit_value(s.last(), radix)->0
    }
}

/// The unsigned number in `s`, at most `max`: one or more decimal digits, behind
/// an optional plus sign.
pub open spec fn unsigned(s: Seq<char>, max: nat) -> Option<nat> {
    let digits = if s.len() > 0 && s[0] == '+' {
        s.skip(1)
    } else {
        s
    };
    if digits.len() > 0 && all_digits(digits, 10) && value_of(digits, 10) <= max {
        Some(value_of(digits, 10))
    } else {
        None
    }
}

/// A written digit is read back as the same digit.
proof fn lemma_digit_reads_back(d: nat, radix: nat)
    requires
        d < radix <= 16,
    ensures
        digit_value(digit(d), radix) == Some(d),
{
    assert(d < 10 ==> digit(d) as u32 == 48 + d);
    assert(d >= 10 ==> digit(d) as u32 == 87 + d);
}

/// Law: what is written in a radix is read back as the same number.
pub proof fn law_rendered_reads_back(n: nat, radix: nat)
    requires
        2 <= radix <= 16,
    ensures
        rendered(n, radix).len() > 0,
        all_digits(rendered(n, radix), radix),
        value_of(rendered(n, radix), radix) == n,
    decreases n,
{
    if n < radix {
        lemma_digit_reads_back(n, radix);
        assert(rendered(n, radix).drop_last() =~= Seq::empty());
        assert(value_of(rendered(n, radix).drop_last(), radix) == 0);
        assert(0 * radix == 0);
    } else {
        assert(n / radix < n) by (nonlinear_arith)
            requires
                n >= radix,
                radix >= 2,
        ;
        law_rendered_reads_back(n / radix, radix);
        assert(n % radix < radix) by (nonlinear_arith)
            requires
                radix >= 2,
        ;
        lemma_digit_reads_back(n % radix, radix);
        assert(rendered(n, radix).drop_last() =~= rendered(n / radix, radix));
        lemma_fundamental_div_mod(n as int, radix as int);
        assert((n / radix) * radix == radix * (n / radix)) by (nonlinear_arith);
    }
}

/// A written number other than zero does not start with a zero.
pub proof fn lemma_rendered_first(n: nat, radix: nat)
    requires
        2 <= radix <= 16,
        n > 0,
    ensures
        rendered(n, radix).len() > 0,
        rendered(n, radix)[0] != '0',
    decreases n,
{
    if n < radix {
        assert(n < 10 ==> digit(n) as u32 == 48 + n);
        assert(n >= 10 ==> digit(n) as u32 == 87 + n);
    } else {
        assert(0 < n / radix < n) by (nonlinear_arith)
            requires
                n >= radix,
                radix >= 2,
        ;
        lemma_rendered_first(n / radix, radix);
    }
}

/// A number under 1000 has at most three decimal digits.
pub proof fn lemma_decimal_width(n: nat)
    requires
        n < 1000,
    ensures
        decimal(n).len() <= 3,
        n < 10 ==> decimal(n).len() == 1,
{
    reveal_with_fuel(rendered, 3);
}

/// A number under 65536 has at most four hexadecimal digits.
pub proof fn lemma_hexadecimal_width(n: nat)
    requires
        n < 0x10000,
    ensures
        rendered(n, 16).len() <= 4,
{
    reveal_with_fuel(rendered, 4);
}

/// Reading more digits never gives a smaller number.
proof fn lemma_value_grows(s: Seq<char>, k: int, radix: nat)
    requires
        0 <= k <= s.len(),
        radix >= 1,
    ensures
        value_of(s.take(k), radix) <= value_of(s, radix),
    decreases s.len() - k,
{
    if k == s.len() {
        assert(s.take(k) =~= s);
    } else {
        let next = s.take(k + 1);
        assert(next.drop_last() =~= s.take(k));
        let v = value_of(s.take(k), radix);
        assert(v <= v * radix) by (nonlinear_arith)
            requires
                radix >= 1,
        ;
        lemma_value_grows(s, k + 1, radix);
    }
}

/// The digit for `d`.
fn digit_char(d: u64) -> (c: char)
    requires
        d < 16,
    ensures
        c == digit(d as nat),
{
    if d < 10 {
        (48 + d as u8) as char
    } else {
        (87 + d as u8) as char
    }
}

/// `n` written in `radix`.
pub fn render(n: u64, radix: u64) -> (r: Vec<char>)
    requires
        2 <= radix <= 16,
    ensures
        r@ == rendered(n as nat, radix as nat),
    decreases n,
{
    if n < radix {
        let mut out: Vec<char> = Vec::new();
        out.push(digit_char(n));
        proof {
            assert(out@ =~= seq![digit(n as nat)]);
        }
        out
    } else {
        proof {
            assert(n / radix < n) by (nonlinear_arith)
                requires
                    n >= radix,
                    radix >= 2,
            ;
            assert(n % radix < radix) by (nonlinear_arith)
                requires
                    radix >= 2,
            ;
        }
        let mut out = render(n / radix, radix);
        out.push(digit_char(n % radix));
        out
    }
}

/// `n` in decimal.
pub fn decimal_text(n: u64) -> (r: String)
    ensures
        r@ == decimal(n as nat),
{
    crate::text::string_of(&render(n, 10))
}

/// The number that the digit `c` stands for, or `radix` where it is no digit.
fn digit_number(c: char, radix: u64) -> (d: u64)
    requires
        radix <= 16,
    ensures
        d <= radix,
        d < radix ==> digit_value(c, radix as nat) == Some(d as nat),
        d == radix ==> digit_value(c, radix as nat) is None,
{
    let u: u32 = c as u32;
    let v: u64 = if 48 <= u && u <= 57 {
        (u - 48) as u64
    } else if 97 <= u && u <= 122 {
        (u - 87) as u64
    } else if 65 <= u && u <= 90 {
        (u - 55) as u64
    } else {
        radix
    };
    if v < radix {
        v
    } else {
        radix
    }
}

/// Reads digits of `radix`; `None` where there is none, where another character
/// stands among them, or where the number is above `max`.
pub fn read_digits(s: &Vec<char>, radix: u64, max: u64) -> (r: Option<u64>)
    requires
        2 <= radix <= 16,
    ensures
        r is Some <==> s@.len() > 0 && all_digits(s@, radix as nat) && value_of(s@, radix as nat)
            <= max,
        r is Some ==> r->0 == value_of(s@, radix as nat),
{
    if s.len() == 0 {
        return None;
    }
    let mut v: u64 = 0;
    let mut i: usize = 0;
    proof {
        assert(s@.take(0) =~= Seq::empty());
    }
    while i < s.len()
        invariant
            2 <= radix <= 16,
            i <= s.len(),
            v <= max,
            v == value_of(s@.take(i as int), radix as nat),
            forall|j: int|
                0 <= j < i ==> digit_value(#[trigger] s@[j], radix as nat) is Some,
        decreases s.len() - i,
    {
        let d = digit_number(s[i], radix);
        if d == radix {
            return None;
        }
        proof {
            assert(s@.take(i + 1).drop_last() =~= s@.take(i as int));
            lemma_value_grows(s@, i + 1, radix as nat);
        }
        proof {
            assert(v * radix <= 0xffff_ffff_ffff_ffff * 16) by (nonlinear_arith)
                requires
                    v <= 0xffff_ffff_ffff_ffff,
                    radix <= 16,
            ;
        }
        let wide: u128 = v as u128 * radix as u128 + d as u128;
        if wide > max as u128 {
            return None;
        }
        v = wide as u64;
        i = i + 1;
    }
    proof {
        assert(s@.take(s@.len() as int) =~= s@);
    }
    Some(v)
}

/// Reads an unsigned decimal number of at most `max`.
pub fn read_unsigned(s: &Vec<char>, max: u64) -> (r: Option<u64>)
    ensures
        r is Some <==> unsigned(s@, max as nat) is Some,
        r is Some ==> unsigned(s@, max as nat) == Some(r->0 as nat),
{
    if s.len() > 0 && s[0] == '+' {
        let rest = crate::text::slice_of(s, 1, s.len());
        proof {
            assert(rest@ =~= s@.skip(1));
        }
        read_digits(&rest, 10, max)
    } else {
        read_digits(s, 10, max)
    }
}

} // verus!
