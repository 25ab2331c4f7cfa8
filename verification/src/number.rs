//! Integers as text, in any radix up to 36.

use vstd::prelude::*;

use crate::text;

verus! {

/// The character for one lower-case digit.
pub open spec fn digit_char(d: nat) -> char {
    if d < 10 {
        (d + 48) as char
    } else {
        (d + 87) as char
    }
}

/// The value of one digit, of either case.
pub open spec fn digit_value(c: char, radix: nat) -> Option<nat> {
    let u = c as nat;
    let v: int = if 48 <= u <= 57 {
        u - 48
    } else if 97 <= u <= 122 {
        u - 87
    } else if 65 <= u <= 90 {
        u - 55
    } else {
        36
    };
    if v < radix && v < 36 {
        Some(v as nat)
    } else {
        None
    }
}

/// `n` in the given radix, without leading zeros.
pub open spec fn digits(n: nat, radix: nat) -> Seq<char>
    decreases n,
{
    if radix < 2 || n < radix {
        seq![digit_char(n)]
    } else {
        proof {
            assert(n / radix < n) by (nonlinear_arith)
                requires
                    n >= radix,
                    radix >= 2,
            ;
        }
        digits(n / radix, radix).push(digit_char(n % radix))
    }
}

/// `n` in decimal.
pub open spec fn decimal(n: nat) -> Seq<char> {
    digits(n, 10)
}

/// `n` copies of `0`.
pub open spec fn zeros(n: nat) -> Seq<char> {
    Seq::new(n, |i: int| '0')
}

/// `s` with zeros in front, up to `width` characters.
pub open spec fn zero_padded(s: Seq<char>, width: nat) -> Seq<char> {
    if s.len() < width {
        zeros((width - s.len()) as nat) + s
    } else {
        s
    }
}

/// `n` in hexadecimal, lower case, at least `width` characters.
pub open spec fn hex_padded(n: nat, width: nat) -> Seq<char> {
    zero_padded(digits(n, 16), width)
}

/// The value of a sequence of digits; the empty sequence is zero.
pub open spec fn digits_value(s: Seq<char>, radix: nat) -> Option<nat>
    decreases s.len(),
{
    if s.len() == 0 {
        Some(0)
    } else {
        match (digits_value(s.drop_last(), radix), digit_value(s.last(), radix)) {
            (Some(v), Some(d)) => Some(v * radix + d),
            _ => None,
        }
    }
}

/// `s` without one leading plus sign.
pub open spec fn without_plus(s: Seq<char>) -> Seq<char> {
    if s.len() > 0 && s[0] == '+' {
        s.skip(1)
    } else {
        s
    }
}

/// An unsigned number no greater than `max`: an optional plus sign and at
/// least one digit.
pub open spec fn unsigned(s: Seq<char>, radix: nat, max: nat) -> Option<nat> {
    let body = without_plus(s);
    if body.len() == 0 {
        None
    } else {
        match digits_value(body, radix) {
            Some(v) => if v <= max {
                Some(v)
            } else {
                None
            },
            None => None,
        }
    }
}

/// A decimal number in the range of `i32`.
pub open spec fn signed32(s: Seq<char>) -> Option<int> {
    if s.len() > 0 && s[0] == '-' {
        if s.len() == 1 {
            None
        } else {
            match digits_value(s.skip(1), 10) {
                Some(v) => if v <= 0x8000_0000 {
                    Some(-v)
                } else {
                    None
                },
                None => None,
            }
        }
    } else {
        match unsigned(s, 10, 0x7fff_ffff) {
            Some(v) => Some(v as int),
            None => None,
        }
    }
}

/// A digit written is the digit read.
pub proof fn lemma_digit(d: nat, radix: nat)
    requires
        d < radix <= 36,
    ensures
        digit_value(digit_char(d), radix) == Some(d),
{
}

/// A number written is the number read, in every radix from 2 to 36.
pub proof fn lemma_digits_round_trip(n: nat, radix: nat)
    requires
        2 <= radix <= 36,
    ensures
        digits(n, radix).len() > 0,
        digits_value(digits(n, radix), radix) == Some(n),
    decreases n,
{
    if n < radix {
        lemma_digit(n, radix);
        assert(digits(n, radix).drop_last().len() == 0);
        assert(digits_value(digits(n, radix).drop_last(), radix) == Some(0nat));
        assert(0 * radix == 0) by (nonlinear_arith);
    } else {
        assert(n / radix < n && n / radix * radix + n % radix == n && n % radix < radix)
            by (nonlinear_arith)
            requires
                n >= radix,
                radix >= 2,
        ;
        lemma_digits_round_trip(n / radix, radix);
        lemma_digit(n % radix, radix);
        assert(digits(n, radix).drop_last() =~= digits(n / radix, radix));
    }
}

/// Every character of a written number is one of its radix's digits.
pub proof fn lemma_digits_chars(n: nat, radix: nat)
    requires
        2 <= radix <= 36,
    ensures
        digits(n, radix).len() > 0,
        forall|i: int|
            0 <= i < digits(n, radix).len() ==> digit_value(#[trigger] digits(n, radix)[i], radix)
                is Some,
    decreases n,
{
    if n < radix {
        lemma_digit(n, radix);
    } else {
        assert(n / radix < n && n % radix < radix) by (nonlinear_arith)
            requires
                n >= radix,
                radix >= 2,
        ;
        lemma_digits_chars(n / radix, radix);
        lemma_digit(n % radix, radix);
    }
}

/// A decimal number holds no character that is not a digit.
pub proof fn lemma_decimal_has_no_mark(n: nat, mark: char)
    requires
        digit_value(mark, 10) is None,
    ensures
        !decimal(n).contains(mark),
{
    lemma_digits_chars(n, 10);
}

/// Leading zeros do not change a number.
pub proof fn lemma_zero_padded_value(s: Seq<char>, width: nat, radix: nat)
    requires
        1 <= radix,
    ensures
        digits_value(zero_padded(s, width), radix) == digits_value(s, radix),
    decreases s.len(), width,
{
    if s.len() < width {
        let n = (width - s.len()) as nat;
        lemma_zeros_value(s, n, radix);
    }
}

proof fn lemma_zeros_value(s: Seq<char>, n: nat, radix: nat)
    requires
        1 <= radix,
    ensures
        digits_value(zeros(n) + s, radix) == digits_value(s, radix),
    decreases s.len(), n,
{
    if s.len() > 0 {
        assert((zeros(n) + s).drop_last() =~= zeros(n) + s.drop_last());
        lemma_zeros_value(s.drop_last(), n, radix);
    } else if n > 0 {
        let m = (n - 1) as nat;
        assert((zeros(n) + s).drop_last() =~= zeros(m) + s);
        lemma_zeros_value(s, m, radix);
        assert(0 * radix == 0) by (nonlinear_arith);
    } else {
        assert(zeros(0) + s =~= s);
    }
}

proof fn lemma_value_grows(s: Seq<char>, i: int, radix: nat)
    requires
        0 <= i <= s.len(),
        1 <= radix,
    ensures
        match (digits_value(s, radix), digits_value(s.take(i), radix)) {
            (Some(v), Some(u)) => u <= v,
            (Some(_), None) => false,
            _ => true,
        },
    decreases s.len() - i,
{
    if i == s.len() {
        assert(s.take(i) =~= s);
    } else {
        lemma_value_grows(s, i + 1, radix);
        assert(s.take(i + 1).drop_last() =~= s.take(i));
        if let Some(u) = digits_value(s.take(i), radix) {
            assert(u * radix >= u) by (nonlinear_arith)
                requires
                    radix >= 1,
            ;
        }
    }
}

/// A character that is no digit spoils the number.
pub proof fn lemma_bad_digit(s: Seq<char>, i: int, radix: nat)
    requires
        0 <= i < s.len(),
        digit_value(s[i], radix) is None,
    ensures
        digits_value(s, radix) is None,
    decreases s.len(),
{
    if i < s.len() - 1 {
        lemma_bad_digit(s.drop_last(), i, radix);
    }
}

/// `base` to the power of `n`.
pub open spec fn power(base: nat, n: nat) -> nat
    decreases n,
{
    if n == 0 {
        1
    } else {
        base * power(base, (n - 1) as nat)
    }
}

/// A number of `n` digits is below the radix to the power of `n`.
pub proof fn lemma_value_bound(s: Seq<char>, radix: nat)
    requires
        1 <= radix,
    ensures
        digits_value(s, radix) matches Some(v) ==> v < power(radix, s.len()),
    decreases s.len(),
{
    if s.len() > 0 {
        lemma_value_bound(s.drop_last(), radix);
        if let Some(v) = digits_value(s.drop_last(), radix) {
            let p = power(radix, (s.len() - 1) as nat);
            assert(v * radix + radix <= radix * p) by (nonlinear_arith)
                requires
                    v < p,
                    radix >= 1,
            ;
        }
    }
}

/// A number below the radix to the power of `k` has at most `k` digits.
pub proof fn lemma_digits_len(n: nat, radix: nat, k: nat)
    requires
        2 <= radix,
        k >= 1,
    ensures
        n < power(radix, k) ==> digits(n, radix).len() <= k,
    decreases k,
{
    if n < power(radix, k) && n >= radix {
        let p = power(radix, (k - 1) as nat);
        if k == 1 {
            assert(p == 1);
            assert(radix * 1 == radix) by (nonlinear_arith);
        } else {
            assert(n / radix < p) by (nonlinear_arith)
                requires
                    n < radix * p,
                    radix >= 2,
            ;
            lemma_digits_len(n / radix, radix, (k - 1) as nat);
        }
    }
}

/// A number below the radix to the power of the width fills that width with its
/// digits.
pub proof fn lemma_padded(n: nat, width: nat, radix: nat)
    requires
        2 <= radix <= 36,
        width >= 1,
        n < power(radix, width),
    ensures
        zero_padded(digits(n, radix), width).len() == width,
        digits_value(zero_padded(digits(n, radix), width), radix) == Some(n),
        forall|i: int|
            0 <= i < width ==> digit_value(
                #[trigger] zero_padded(digits(n, radix), width)[i],
                radix,
            ) is Some,
{
    let d = digits(n, radix);
    let s = zero_padded(d, width);
    lemma_digits_len(n, radix, width);
    lemma_digits_chars(n, radix);
    lemma_digits_round_trip(n, radix);
    lemma_zero_padded_value(d, width, radix);
    assert forall|i: int| 0 <= i < width implies digit_value(#[trigger] s[i], radix) is Some by {
        let z = width - d.len();
        if i >= z {
            assert(s[i] == d[i - z]);
        }
    }
}

proof fn lemma_decimal_digit(c: char)
    requires
        digit_value(c, 10) is Some,
    ensures
        c as u32 == digit_value(c, 10)->0 + 48,
        c == (digit_value(c, 10)->0 + 48) as char,
{
}

/// Decimal numbers of one width come in the order of their values.
pub proof fn lemma_decimals_in_order(a: Seq<char>, b: Seq<char>)
    requires
        a.len() == b.len(),
        digits_value(a, 10) is Some,
        digits_value(b, 10) is Some,
    ensures
        digits_value(a, 10)->0 < digits_value(b, 10)->0 ==> text::before(a, b),
        digits_value(a, 10) == digits_value(b, 10) ==> a == b,
    decreases a.len(),
{
    if a.len() == 0 {
        assert(a =~= b);
    } else {
        let fa = a.drop_last();
        let fb = b.drop_last();
        lemma_decimals_in_order(fa, fb);
        lemma_decimal_digit(a.last());
        lemma_decimal_digit(b.last());
        let va = digits_value(fa, 10)->0;
        let vb = digits_value(fb, 10)->0;
        if digits_value(a, 10)->0 < digits_value(b, 10)->0 {
            if va < vb {
                let i = choose|i: int| text::before_at(fa, fb, i);
                assert forall|j: int| 0 <= j < i implies #[trigger] a[j] == b[j] by {
                    assert(fa[j] == fb[j]);
                }
                assert(text::before_at(a, b, i));
            } else {
                assert(va == vb);
                let n = a.len() - 1;
                assert forall|j: int| 0 <= j < n implies #[trigger] a[j] == b[j] by {
                    assert(fa[j] == fb[j]);
                }
                assert(text::before_at(a, b, n));
            }
        } else if digits_value(a, 10) == digits_value(b, 10) {
            assert(va == vb);
            assert(a.last() == b.last());
            assert(a =~= fa.push(a.last()));
            assert(b =~= fb.push(b.last()));
        }
    }
}

/// The character for one digit.
pub fn char_of_digit(d: u8) -> (c: char)
    requires
        d < 36,
    ensures
        c == digit_char(d as nat),
{
    if d < 10 {
        (d + 48) as char
    } else {
        (d + 87) as char
    }
}

/// The value of a digit, or `None` when `c` is not one.
pub fn value_of_digit(c: char, radix: u8) -> (d: Option<u8>)
    ensures
        match d {
            Some(v) => digit_value(c, radix as nat) == Some(v as nat) && v < radix,
            None => digit_value(c, radix as nat) is None,
        },
{
    let u: u32 = c as u32;
    let v: u32 = if 48 <= u && u <= 57 {
        u - 48
    } else if 97 <= u && u <= 122 {
        u - 87
    } else if 65 <= u && u <= 90 {
        u - 55
    } else {
        36
    };
    if v < 36 && v < radix as u32 {
        Some(v as u8)
    } else {
        None
    }
}

/// The characters of `n` in the given radix.
pub fn digits_of(n: u64, radix: u8) -> (cs: Vec<char>)
    requires
        2 <= radix <= 36,
    ensures
        cs@ == digits(n as nat, radix as nat),
    decreases n,
{
    let r: u64 = radix as u64;
    if n < r {
        let mut cs: Vec<char> = Vec::new();
        cs.push(char_of_digit(n as u8));
        assert(cs@ =~= digits(n as nat, radix as nat));
        cs
    } else {
        assert(n / r < n && n % r < r) by (nonlinear_arith)
            requires
                n >= r,
                r >= 2,
        ;
        let mut cs = digits_of(n / r, radix);
        cs.push(char_of_digit((n % r) as u8));
        cs
    }
}

/// `n` in decimal.
pub fn decimal_text(n: u64) -> (s: String)
    ensures
        s@ == decimal(n as nat),
{
    let cs = digits_of(n, 10);
    text::string_of(cs.as_slice())
}

/// Characters with zeros in front, up to `width`.
pub fn pad_zeros(cs: &[char], width: usize) -> (s: String)
    ensures
        s@ == zero_padded(cs@, width as nat),
{
    let mut out: Vec<char> = Vec::new();
    if cs.len() < width {
        let need: usize = width - cs.len();
        let mut i: usize = 0;
        while i < need
            invariant
                i <= need,
                out@ =~= zeros(i as nat),
            decreases need - i,
        {
            out.push('0');
            i += 1;
        }
    }
    let ghost front = out@;
    let mut j: usize = 0;
    assert(front + cs@.take(0) =~= front);
    while j < cs.len()
        invariant
            j <= cs@.len(),
            out@ == front + cs@.take(j as int),
        decreases cs@.len() - j,
    {
        out.push(cs[j]);
        j += 1;
        assert(cs@.take(j as int) =~= cs@.take(j - 1).push(cs@[j - 1]));
    }
    assert(cs@.take(j as int) =~= cs@);
    assert(out@ =~= zero_padded(cs@, width as nat));
    text::string_of(out.as_slice())
}

/// `n` in lower-case hexadecimal, at least `width` characters.
pub fn hex_text(n: u64, width: usize) -> (s: String)
    ensures
        s@ == hex_padded(n as nat, width as nat),
{
    let cs = digits_of(n, 16);
    pad_zeros(cs.as_slice(), width)
}

fn parse_digits(s: &[char], radix: u8, max: u64) -> (r: Option<u64>)
    requires
        2 <= radix <= 36,
    ensures
        match r {
            Some(v) => digits_value(s@, radix as nat) == Some(v as nat) && v <= max,
            None => match digits_value(s@, radix as nat) {
                Some(v) => v > max,
                None => true,
            },
        },
{
    let mut acc: u64 = 0;
    let mut i: usize = 0;
    while i < s.len()
        invariant
            i <= s@.len(),
            2 <= radix <= 36,
            acc <= max,
            digits_value(s@.take(i as int), radix as nat) == Some(acc as nat),
        decreases s@.len() - i,
    {
        proof {
            lemma_value_grows(s@, i + 1, radix as nat);
            assert(s@.take(i + 1).drop_last() =~= s@.take(i as int));
            assert(s@.take(i + 1).last() == s@[i as int]);
        }
        match value_of_digit(s[i], radix) {
            Some(d) => {
                assert(acc * radix <= 0xffff_ffff_ffff_ffff * 36) by (nonlinear_arith)
                    requires
                        acc <= 0xffff_ffff_ffff_ffff,
                        radix <= 36,
                ;
                assert((acc as u128) * (radix as u128) == acc * radix) by (nonlinear_arith);
                let next: u128 = (acc as u128) * (radix as u128) + (d as u128);
                if next > max as u128 {
                    return None;
                }
                acc = next as u64;
            },
            None => {
                return None;
            },
        }
        i += 1;
    }
    assert(s@.take(i as int) =~= s@);
    Some(acc)
}

/// Read an unsigned number no greater than `max`.
pub fn parse_unsigned(s: &[char], radix: u8, max: u64) -> (r: Option<u64>)
    requires
        2 <= radix <= 36,
    ensures
        match r {
            Some(v) => unsigned(s@, radix as nat, max as nat) == Some(v as nat) && v <= max,
            None => unsigned(s@, radix as nat, max as nat) is None,
        },
{
    if s.len() > 0 && s[0] == '+' {
        let body = text::tail(s, 1);
        if body.len() == 0 {
            return None;
        }
        parse_digits(body, radix, max)
    } else if s.len() == 0 {
        None
    } else {
        parse_digits(s, radix, max)
    }
}

/// Read a decimal `i32`.
pub fn parse_signed32(s: &[char]) -> (r: Option<i32>)
    ensures
        match r {
            Some(v) => signed32(s@) == Some(v as int),
            None => signed32(s@) is None,
        },
{
    if s.len() > 0 && s[0] == '-' {
        if s.len() == 1 {
            return None;
        }
        match parse_digits(text::tail(s, 1), 10, 0x8000_0000) {
            Some(v) => Some((0 - (v as i64)) as i32),
            None => None,
        }
    } else {
        match parse_unsigned(s, 10, 0x7fff_ffff) {
            Some(v) => Some(v as i32),
            None => None,
        }
    }
}

/// The quotient, rounded up.
pub open spec fn ceil_div(n: nat, d: nat) -> nat {
    if d == 0 {
        0
    } else {
        (n + d - 1) as nat / d
    }
}

/// The smaller of two numbers.
pub open spec fn at_most(n: nat, max: nat) -> nat {
    if n <= max {
        n
    } else {
        max
    }
}

/// Nanoseconds as whole milliseconds, rounded up and capped at `u32`.
pub fn milliseconds(ns: u64) -> (ms: u32)
    ensures
        ms == at_most(ceil_div(ns as nat, 1_000_000), u32::MAX as nat),
        ns > 0 ==> ms > 0,
{
    let up: u64 = ns / 1_000_000 + if ns % 1_000_000 > 0 {
        1
    } else {
        0
    };
    if up <= u32::MAX as u64 {
        up as u32
    } else {
        u32::MAX
    }
}

/// Nanoseconds as whole seconds, rounded up.
pub fn seconds(ns: u64) -> (s: u64)
    ensures
        s == ceil_div(ns as nat, 1_000_000_000),
        ns > 0 ==> s > 0,
{
    ns / 1_000_000_000 + if ns % 1_000_000_000 > 0 {
        1
    } else {
        0
    }
}

/// Nanoseconds as whole seconds, rounded up and capped at `u32`.
pub fn seconds32(ns: u64) -> (s: u32)
    ensures
        s == at_most(ceil_div(ns as nat, 1_000_000_000), u32::MAX as nat),
        ns > 0 ==> s > 0,
{
    let up = seconds(ns);
    if up <= u32::MAX as u64 {
        up as u32
    } else {
        u32::MAX
    }
}

/// Rounding up never turns a time that is set into none.
pub proof fn lemma_rounding_keeps_a_limit(ns: u64, unit: nat)
    requires
        ns > 0,
        unit > 0,
    ensures
        ceil_div(ns as nat, unit) > 0,
        ceil_div(ns as nat, unit) * unit >= ns,
        (ceil_div(ns as nat, unit) - 1) * unit < ns,
{
    let q = ceil_div(ns as nat, unit);
    let x = (ns + unit - 1) as nat;
    assert(q > 0 && q * unit >= ns && (q - 1) * unit < ns) by (nonlinear_arith)
        requires
            q == x / unit,
            x == ns + unit - 1,
            ns > 0,
            unit > 0,
    ;
}

} // verus!
