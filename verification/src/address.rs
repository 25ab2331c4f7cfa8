//! IP address literals.
//!
//! An IPv4 literal is four decimal octets without leading zeros. An IPv6
//! literal is eight groups of one to four hexadecimal digits, where an IPv4
//! literal may stand for the last two, and one `::` may stand for at least one
//! group of zeros.

use vstd::prelude::*;

use crate::number;
use crate::text;

verus! {

/// One decimal octet.
pub open spec fn octet(s: Seq<char>) -> bool {
    &&& 1 <= s.len() <= 3
    &&& s.len() > 1 ==> s[0] != '0'
    &&& number::digits_value(s, 10) matches Some(v) && v <= 255
}

/// An IPv4 literal.
pub open spec fn is_ipv4(s: Seq<char>) -> bool {
    let parts = text::split(s, '.');
    parts.len() == 4 && forall|i: int| 0 <= i < 4 ==> octet(#[trigger] parts[i])
}

/// One group of an IPv6 literal.
pub open spec fn hex_group(s: Seq<char>) -> bool {
    1 <= s.len() <= 4 && number::digits_value(s, 16) is Some
}

/// How many groups a list of parts stands for, if each part is one. An IPv4
/// literal stands for two, in the last place and only where allowed.
pub open spec fn weight(parts: Seq<Seq<char>>, v4: bool) -> Option<nat>
    decreases parts.len(),
{
    if parts.len() == 0 {
        Some(0)
    } else {
        let last = if hex_group(parts.last()) {
            1nat
        } else if v4 && is_ipv4(parts.last()) {
            2nat
        } else {
            0nat
        };
        match weight(parts.drop_last(), false) {
            Some(n) => if last > 0 {
                Some(n + last)
            } else {
                None
            },
            None => None,
        }
    }
}

/// How many groups a run of groups stands for.
pub open spec fn section(s: Seq<char>, v4: bool) -> Option<nat> {
    if s.len() == 0 {
        Some(0)
    } else {
        weight(text::split(s, ':'), v4)
    }
}

/// An IPv6 literal.
pub open spec fn is_ipv6(s: Seq<char>) -> bool {
    match text::find(s, "::"@) {
        Some(i) => match (section(s.take(i), false), section(s.skip(i + 2), true)) {
            (Some(a), Some(b)) => a + b <= 7,
            _ => false,
        },
        None => section(s, true) == Some(8nat),
    }
}

/// An IP address literal.
pub open spec fn is_address(s: Seq<char>) -> bool {
    is_ipv4(s) || is_ipv6(s)
}

/// An IPv4 literal holds nothing but digits and dots.
pub proof fn lemma_ipv4_chars(s: Seq<char>)
    requires
        is_ipv4(s),
    ensures
        s.len() > 0,
        forall|i: int|
            0 <= i < s.len() ==> (#[trigger] s[i]) == '.' || number::digit_value(s[i], 10) is Some,
{
    let parts = text::split(s, '.');
    if s.len() == 0 {
        assert(parts.len() == 1);
    }
    assert forall|i: int| 0 <= i < s.len() implies (#[trigger] s[i]) == '.'
        || number::digit_value(s[i], 10) is Some by {
        if s[i] != '.' {
            text::lemma_split_holds(s, '.', i);
            let k = choose|k: int| 0 <= k < parts.len() && (#[trigger] parts[k]).contains(s[i]);
            let at = choose|at: int| 0 <= at < parts[k].len() && parts[k][at] == s[i];
            assert(octet(parts[k]));
            if number::digit_value(s[i], 10) is None {
                number::lemma_bad_digit(parts[k], at, 10);
            }
        }
    }
}

fn octet_text(s: &[char]) -> (b: bool)
    ensures
        b == octet(s@),
{
    if s.len() < 1 || s.len() > 3 {
        return false;
    }
    if s.len() > 1 && s[0] == '0' {
        return false;
    }
    if s[0] == '+' {
        proof {
            number::lemma_bad_digit(s@, 0, 10);
        }
        return false;
    }
    match number::parse_unsigned(s, 10, 255) {
        Some(_) => true,
        None => false,
    }
}

fn ipv4_text(s: &[char]) -> (b: bool)
    ensures
        b == is_ipv4(s@),
{
    let parts = text::split_char(s, '.');
    let ghost spec_parts = text::split(s@, '.');
    if parts.len() != 4 {
        return false;
    }
    let mut i: usize = 0;
    while i < 4
        invariant
            i <= 4,
            parts@.len() == 4,
            spec_parts == text::views(parts@),
            spec_parts == text::split(s@, '.'),
            forall|j: int| 0 <= j < i ==> octet(#[trigger] spec_parts[j]),
        decreases 4 - i,
    {
        assert(spec_parts[i as int] == parts@[i as int]@);
        if !octet_text(parts[i].as_slice()) {
            return false;
        }
        i += 1;
    }
    true
}

fn hex_group_text(s: &[char]) -> (b: bool)
    ensures
        b == hex_group(s@),
{
    if s.len() < 1 || s.len() > 4 {
        return false;
    }
    if s[0] == '+' {
        proof {
            number::lemma_bad_digit(s@, 0, 16);
        }
        return false;
    }
    proof {
        number::lemma_value_bound(s@, 16);
        assert(number::power(16, s@.len()) <= 0x1_0000) by {
            reveal_with_fuel(number::power, 5);
        }
    }
    match number::parse_unsigned(s, 16, u64::MAX) {
        Some(_) => true,
        None => false,
    }
}

fn section_weight(s: &[char], v4: bool) -> (r: Option<usize>)
    ensures
        match r {
            Some(n) => section(s@, v4) == Some(n as nat),
            None => section(s@, v4) is None || section(s@, v4)->0 > 0xffff,
        },
{
    if s.len() == 0 {
        return Some(0);
    }
    let parts = text::split_char(s, ':');
    let ghost all = text::split(s@, ':');
    let n: usize = parts.len();
    if n > 0xffff {
        proof {
            lemma_weight_at_least(all, v4);
        }
        return None;
    }
    let mut i: usize = 0;
    let mut sum: usize = 0;
    assert(all.take(0).len() == 0);
    while i + 1 < n
        invariant
            i < n <= 0xffff,
            n == parts@.len(),
            s@.len() > 0,
            all == text::split(s@, ':'),
            all == text::views(parts@),
            sum == i,
            weight(all.take(i as int), false) == Some(sum as nat),
        decreases n - i,
    {
        assert(all[i as int] == parts@[i as int]@);
        assert(all.take(i + 1).drop_last() =~= all.take(i as int));
        assert(all.take(i + 1).last() == all[i as int]);
        if !hex_group_text(parts[i].as_slice()) {
            proof {
                lemma_weight_prefix(all, v4, i + 1);
            }
            return None;
        }
        sum += 1;
        i += 1;
    }
    assert(all.drop_last() =~= all.take(n - 1));
    assert(all.last() == parts@[n - 1]@);
    if hex_group_text(parts[n - 1].as_slice()) {
        Some(sum + 1)
    } else if v4 && ipv4_text(parts[n - 1].as_slice()) {
        Some(sum + 2)
    } else {
        None
    }
}

proof fn lemma_weight_at_least(parts: Seq<Seq<char>>, v4: bool)
    ensures
        weight(parts, v4) matches Some(n) ==> n >= parts.len(),
    decreases parts.len(),
{
    if parts.len() > 0 {
        lemma_weight_at_least(parts.drop_last(), false);
    }
}

proof fn lemma_weight_prefix(parts: Seq<Seq<char>>, v4: bool, k: int)
    requires
        0 <= k < parts.len(),
        weight(parts.take(k), false) is None,
    ensures
        weight(parts, v4) is None,
    decreases parts.len(),
{
    if k == parts.len() - 1 {
        assert(parts.drop_last() =~= parts.take(k));
    } else {
        assert(parts.drop_last().take(k) =~= parts.take(k));
        lemma_weight_prefix(parts.drop_last(), false, k);
    }
}

fn ipv6_text(s: &[char]) -> (b: bool)
    ensures
        b == is_ipv6(s@),
{
    proof {
        reveal_strlit("::");
        text::lemma_find_in_range(s@, "::"@);
    }
    match text::split_once(s, "::") {
        Some((front, back)) => {
            match (section_weight(front, false), section_weight(back, true)) {
                (Some(a), Some(b)) => a <= 7 && b <= 7 && a + b <= 7,
                _ => false,
            }
        },
        None => match section_weight(s, true) {
            Some(n) => n == 8,
            None => false,
        },
    }
}

/// Whether a text is an IP address literal.
pub fn is_address_text(s: &[char]) -> (b: bool)
    ensures
        b == is_address(s@),
{
    ipv4_text(s) || ipv6_text(s)
}

} // verus!
