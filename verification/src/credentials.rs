//! Base64, for HTTP Basic credentials.

use vstd::prelude::*;
use vstd::string::*;
use vstd::utf8::*;

use base64::Engine;

use crate::text;

verus! {

/// The character for six bits, in the standard alphabet.
pub open spec fn letter(v: nat) -> char {
    if v < 26 {
        (v + 65) as char
    } else if v < 52 {
        (v - 26 + 97) as char
    } else if v < 62 {
        (v - 52 + 48) as char
    } else if v == 62 {
        '+'
    } else {
        '/'
    }
}

/// Three bytes as one number of 24 bits.
pub open spec fn group(a: u8, b: u8, c: u8) -> nat {
    (a as nat) * 65536 + (b as nat) * 256 + (c as nat)
}

/// Bytes in base64 with padding: four letters for three bytes.
pub open spec fn base64_of(s: Seq<u8>) -> Seq<char>
    decreases s.len(),
{
    if s.len() == 0 {
        seq![]
    } else if s.len() == 1 {
        let n = group(s[0], 0, 0);
        seq![letter(n / 262144), letter(n / 4096 % 64), '=', '=']
    } else if s.len() == 2 {
        let n = group(s[0], s[1], 0);
        seq![letter(n / 262144), letter(n / 4096 % 64), letter(n / 64 % 64), '=']
    } else {
        let n = group(s[0], s[1], s[2]);
        seq![letter(n / 262144), letter(n / 4096 % 64), letter(n / 64 % 64), letter(n % 64)]
            + base64_of(s.skip(3))
    }
}

/// The six bits that a letter stands for.
pub open spec fn letter_value(c: char) -> nat {
    let u = c as nat;
    if 65 <= u <= 90 {
        (u - 65) as nat
    } else if 97 <= u <= 122 {
        (u - 97 + 26) as nat
    } else if 48 <= u <= 57 {
        (u - 48 + 52) as nat
    } else if c == '+' {
        62
    } else {
        63
    }
}

/// The bytes that base64 text stands for.
pub open spec fn base64_bytes(s: Seq<char>) -> Seq<u8>
    decreases s.len(),
{
    if s.len() < 4 {
        seq![]
    } else {
        let n = letter_value(s[0]) * 262144 + letter_value(s[1]) * 4096;
        if s[2] == '=' {
            seq![(n / 65536) as u8]
        } else if s[3] == '=' {
            let m = n + letter_value(s[2]) * 64;
            seq![(m / 65536) as u8, (m / 256 % 256) as u8]
        } else {
            let m = n + letter_value(s[2]) * 64 + letter_value(s[3]);
            seq![(m / 65536) as u8, (m / 256 % 256) as u8, (m % 256) as u8] + base64_bytes(
                s.skip(4),
            )
        }
    }
}

proof fn lemma_letter(v: nat)
    requires
        v < 64,
    ensures
        letter_value(letter(v)) == v,
        letter(v) != '=',
{
}

proof fn lemma_group(a: u8, b: u8, c: u8)
    ensures
        ({
            let n = group(a, b, c);
            let high = n / 262144 * 262144 + n / 4096 % 64 * 4096;
            &&& n / 262144 < 64
            &&& high + n / 64 % 64 * 64 + n % 64 == n
            &&& n / 65536 == a
            &&& n / 256 % 256 == b
            &&& n % 256 == c
            &&& c == 0 ==> n % 64 == 0
            &&& c == 0 && b == 0 ==> n / 64 % 64 == 0
        }),
{
    let n = group(a, b, c);
    let (a1, a0) = (a as nat / 4, a as nat % 4);
    let (b1, b0) = (b as nat / 16, b as nat % 16);
    let (c1, c0) = (c as nat / 64, c as nat % 64);
    let sixteen = a0 * 16 + b1;
    let four = b0 * 4 + c1;
    assert(n == a1 * 262144 + sixteen * 4096 + four * 64 + c0);
    lemma_quotient(n, 64, a1 * 4096 + sixteen * 64 + four, c0);
    lemma_quotient(n, 4096, a1 * 64 + sixteen, four * 64 + c0);
    lemma_quotient(n, 262144, a1, sixteen * 4096 + four * 64 + c0);
    lemma_quotient(n / 4096, 64, a1, sixteen);
    lemma_quotient(n / 64, 64, a1 * 64 + sixteen, four);
    lemma_quotient(n, 65536, a as nat, b as nat * 256 + c as nat);
    lemma_quotient(n, 256, a as nat * 256 + b as nat, c as nat);
    lemma_quotient(n / 256, 256, a as nat, b as nat);
}

proof fn lemma_quotient(x: nat, d: nat, q: nat, r: nat)
    requires
        x == q * d + r,
        r < d,
    ensures
        x / d == q,
        x % d == r,
{
    vstd::arithmetic::div_mod::lemma_fundamental_div_mod_converse(
        x as int,
        d as int,
        q as int,
        r as int,
    );
}

/// Base64 loses nothing: decoding gives the bytes back.
pub proof fn lemma_base64_decodes(s: Seq<u8>)
    ensures
        base64_bytes(base64_of(s)) == s,
    decreases s.len(),
{
    let t = base64_of(s);
    if s.len() > 0 {
        let b = if s.len() > 1 {
            s[1]
        } else {
            0
        };
        let c = if s.len() > 2 {
            s[2]
        } else {
            0
        };
        let n = group(s[0], b, c);
        lemma_group(s[0], b, c);
        lemma_letter(n / 262144);
        lemma_letter(n / 4096 % 64);
        lemma_letter(n / 64 % 64);
        lemma_letter(n % 64);
        if s.len() == 1 {
            assert(base64_bytes(t) =~= s);
        } else if s.len() == 2 {
            assert(base64_bytes(t) =~= s);
        } else {
            lemma_base64_decodes(s.skip(3));
            assert(t.skip(4) =~= base64_of(s.skip(3)));
            assert(base64_bytes(t) =~= seq![s[0], s[1], s[2]] + s.skip(3));
            assert(seq![s[0], s[1], s[2]] + s.skip(3) =~= s);
        }
    } else {
        assert(base64_bytes(t) =~= s);
    }
}

fn letter_of(v: u32) -> (c: char)
    requires
        v < 64,
    ensures
        c == letter(v as nat),
{
    if v < 26 {
        ((v + 65) as u8) as char
    } else if v < 52 {
        ((v - 26 + 97) as u8) as char
    } else if v < 62 {
        ((v - 52 + 48) as u8) as char
    } else if v == 62 {
        '+'
    } else {
        '/'
    }
}

/// Standard base64, with padding.
pub fn base64(input: &[u8]) -> (out: String)
    ensures
        out@ == base64_of(input@),
{
    let len: usize = input.len();
    let mut cs: Vec<char> = Vec::new();
    let mut i: usize = 0;
    assert(input@.skip(0) =~= input@);
    while i < len
        invariant
            i <= len == input@.len(),
            cs@ + base64_of(input@.skip(i as int)) == base64_of(input@),
        decreases len - i,
    {
        let ghost before = cs@;
        let ghost rest = input@.skip(i as int);
        let left: usize = len - i;
        let a: u32 = input[i] as u32;
        let b: u32 = if left > 1 {
            input[i + 1] as u32
        } else {
            0
        };
        let c: u32 = if left > 2 {
            input[i + 2] as u32
        } else {
            0
        };
        let n: u32 = a * 65536 + b * 256 + c;
        cs.push(letter_of(n / 262144));
        cs.push(letter_of(n / 4096 % 64));
        if left > 1 {
            cs.push(letter_of(n / 64 % 64));
        } else {
            cs.push('=');
        }
        if left > 2 {
            cs.push(letter_of(n % 64));
            assert(rest.skip(3) =~= input@.skip(i + 3));
            assert(cs@ + base64_of(input@.skip(i + 3)) =~= before + base64_of(rest));
            i += 3;
        } else {
            cs.push('=');
            assert(cs@ =~= before + base64_of(rest));
            assert(input@.skip(len as int).len() == 0);
            assert(cs@ + base64_of(input@.skip(len as int)) =~= cs@);
            i = len;
        }
    }
    assert(input@.skip(i as int).len() == 0);
    assert(cs@ + base64_of(input@.skip(i as int)) =~= cs@);
    text::string_of(cs.as_slice())
}

/// `base64::engine::general_purpose::STANDARD.encode`: standard base64 with
/// padding.
#[verifier::external_body]
fn standard_encode(input: &[u8]) -> (out: String)
    ensures
        out@ == base64_of(input@),
{
    base64::engine::general_purpose::STANDARD.encode(input)
}

/// A Basic credential for a user.
pub open spec fn basic(username: Seq<char>, password: Seq<char>) -> Seq<char> {
    "Basic "@ + base64_of(encode_utf8(username + ":"@ + password))
}

/// The `Authorization` value for a user, encoded by the `base64` crate.
pub fn basic_authorization(username: &str, password: &str) -> (s: String)
    ensures
        s@ == basic(username@, password@),
{
    let pair = text::joined3(username, ":", password);
    let encoded = standard_encode(pair.as_str().as_bytes());
    text::joined("Basic ", encoded.as_str())
}

/// Two users share a credential only when name and password are the same,
/// unless a name holds a colon.
pub proof fn lemma_basic_injective(
    u1: Seq<char>,
    p1: Seq<char>,
    u2: Seq<char>,
    p2: Seq<char>,
)
    requires
        basic(u1, p1) == basic(u2, p2),
        !u1.contains(':'),
        !u2.contains(':'),
    ensures
        u1 == u2,
        p1 == p2,
{
    reveal_strlit(":");
    assert(":"@ =~= seq![':']);
    let a = u1 + ":"@ + p1;
    let b = u2 + ":"@ + p2;
    let prefix = "Basic "@.len() as int;
    assert(basic(u1, p1).skip(prefix) =~= base64_of(encode_utf8(a)));
    assert(basic(u2, p2).skip(prefix) =~= base64_of(encode_utf8(b)));
    lemma_base64_decodes(encode_utf8(a));
    lemma_base64_decodes(encode_utf8(b));
    encode_utf8_decode_utf8(a);
    encode_utf8_decode_utf8(b);
    assert(a == b);
    text::lemma_cut_unique(u1, p1, u2, p2, ':');
}

} // verus!
