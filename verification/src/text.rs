//! Text as a sequence of characters: searching, trimming and splitting.
//!
//! Executable code works on character slices, so every function here is stated
//! over `Seq<char>`, the view that `str` and `String` already have.

use vstd::prelude::*;
use vstd::slice::*;
use vstd::string::*;
use vstd::utf8::*;

verus! {

/// `String::push` appends one character.
pub assume_specification[ String::push ](s: &mut String, c: char)
    ensures
        final(s)@ == old(s)@.push(c),
;

/// The characters of a string.
pub fn chars_of(s: &str) -> (cs: Vec<char>)
    ensures
        cs@ == s@,
{
    let mut cs: Vec<char> = Vec::new();
    for c in it: s.chars()
        invariant
            it.seq() == s@,
            cs@ == s@.take(it.index()),
    {
        cs.push(c);
    }
    cs
}

/// The string with the given characters.
pub fn string_of(cs: &[char]) -> (s: String)
    ensures
        s@ == cs@,
{
    let mut s = String::new();
    let mut i: usize = 0;
    while i < cs.len()
        invariant
            i <= cs@.len(),
            s@ == cs@.take(i as int),
        decreases cs@.len() - i,
    {
        s.push(cs[i]);
        i += 1;
    }
    s
}

/// Whether two strings hold the same characters.
pub fn same_text(a: &str, b: &str) -> (same: bool)
    ensures
        same == (a@ == b@),
{
    let x = a.as_bytes();
    let y = b.as_bytes();
    proof {
        encode_utf8_decode_utf8(a@);
        encode_utf8_decode_utf8(b@);
    }
    if x.len() != y.len() {
        return false;
    }
    let mut i: usize = 0;
    while i < x.len()
        invariant
            i <= x@.len(),
            x@.len() == y@.len(),
            forall|j: int| 0 <= j < i ==> x@[j] == y@[j],
            x@ == encode_utf8(a@),
            y@ == encode_utf8(b@),
        decreases x@.len() - i,
    {
        if x[i] != y[i] {
            return false;
        }
        i += 1;
    }
    assert(x@ =~= y@);
    true
}

/// Whether two character slices are equal.
pub fn same_chars(a: &[char], b: &[char]) -> (same: bool)
    ensures
        same == (a@ == b@),
{
    if a.len() != b.len() {
        return false;
    }
    let mut i: usize = 0;
    while i < a.len()
        invariant
            i <= a@.len(),
            a@.len() == b@.len(),
            forall|j: int| 0 <= j < i ==> a@[j] == b@[j],
        decreases a@.len() - i,
    {
        if a[i] != b[i] {
            return false;
        }
        i += 1;
    }
    assert(a@ =~= b@);
    true
}

/// Whether a character slice holds exactly the text of a string.
pub fn is_text(a: &[char], b: &str) -> (same: bool)
    ensures
        same == (a@ == b@),
{
    let cs = chars_of(b);
    same_chars(a, cs.as_slice())
}

/// The characters from `from` on.
pub fn tail(s: &[char], from: usize) -> (r: &[char])
    requires
        from <= s@.len(),
    ensures
        r@ == s@.skip(from as int),
{
    slice_subrange(s, from, s.len())
}

/// The first `to` characters.
pub fn head(s: &[char], to: usize) -> (r: &[char])
    requires
        to <= s@.len(),
    ensures
        r@ == s@.take(to as int),
{
    slice_subrange(s, 0, to)
}

/// The Unicode `White_Space` property.
pub open spec fn is_white_space(c: char) -> bool {
    let u = c as int;
    ||| 0x09 <= u <= 0x0d
    ||| u == 0x20 || u == 0x85 || u == 0xa0 || u == 0x1680
    ||| 0x2000 <= u <= 0x200a
    ||| u == 0x2028 || u == 0x2029 || u == 0x202f || u == 0x205f || u == 0x3000
}

/// Whether `c` is white space.
pub fn is_whitespace(c: char) -> (b: bool)
    ensures
        b == is_white_space(c),
{
    let u: u32 = c as u32;
    (0x09 <= u && u <= 0x0d) || u == 0x20 || u == 0x85 || u == 0xa0 || u == 0x1680 || (0x2000 <= u
        && u <= 0x200a) || u == 0x2028 || u == 0x2029 || u == 0x202f || u == 0x205f || u == 0x3000
}

/// `s` without leading white space.
pub open spec fn strip_front(s: Seq<char>) -> Seq<char>
    decreases s.len(),
{
    if s.len() > 0 && is_white_space(s[0]) {
        strip_front(s.drop_first())
    } else {
        s
    }
}

/// `s` without trailing white space.
pub open spec fn strip_back(s: Seq<char>) -> Seq<char>
    decreases s.len(),
{
    if s.len() > 0 && is_white_space(s.last()) {
        strip_back(s.drop_last())
    } else {
        s
    }
}

/// `s` without white space at either end.
pub open spec fn trimmed(s: Seq<char>) -> Seq<char> {
    strip_back(strip_front(s))
}

/// Remove white space from both ends.
pub fn trim(s: &[char]) -> (r: &[char])
    ensures
        r@ == trimmed(s@),
{
    let mut i: usize = 0;
    assert(s@.skip(0) =~= s@);
    while i < s.len() && is_whitespace(s[i])
        invariant
            i <= s@.len(),
            strip_front(s@) == strip_front(s@.skip(i as int)),
        decreases s@.len() - i,
    {
        assert(s@.skip(i as int).drop_first() =~= s@.skip(i + 1));
        i += 1;
    }
    let t = tail(s, i);
    let mut n: usize = t.len();
    assert(t@.take(n as int) =~= t@);
    while n > 0 && is_whitespace(t[n - 1])
        invariant
            n <= t@.len(),
            strip_back(t@) == strip_back(t@.take(n as int)),
        decreases n,
    {
        assert(t@.take(n as int).drop_last() =~= t@.take(n - 1));
        n -= 1;
    }
    head(t, n)
}

/// Trimming leaves a text alone that begins and ends with no white space.
pub proof fn lemma_trimmed_same(s: Seq<char>)
    requires
        s.len() > 0,
        !is_white_space(s[0]),
        !is_white_space(s.last()),
    ensures
        trimmed(s) == s,
{
}

/// `s` without leading occurrences of `q`.
pub open spec fn drop_front(s: Seq<char>, q: char) -> Seq<char>
    decreases s.len(),
{
    if s.len() > 0 && s[0] == q {
        drop_front(s.drop_first(), q)
    } else {
        s
    }
}

/// `s` without trailing occurrences of `q`.
pub open spec fn drop_back(s: Seq<char>, q: char) -> Seq<char>
    decreases s.len(),
{
    if s.len() > 0 && s.last() == q {
        drop_back(s.drop_last(), q)
    } else {
        s
    }
}

/// `s` without occurrences of `q` at either end.
pub open spec fn trimmed_of(s: Seq<char>, q: char) -> Seq<char> {
    drop_back(drop_front(s, q), q)
}

/// Trimming leaves a text alone that begins and ends with something else.
pub proof fn lemma_trimmed_of_same(s: Seq<char>, q: char)
    requires
        s.len() > 0,
        s[0] != q,
        s.last() != q,
    ensures
        trimmed_of(s, q) == s,
{
}

/// Remove every leading `q`.
pub fn trim_start_char(s: &[char], q: char) -> (r: &[char])
    ensures
        r@ == drop_front(s@, q),
{
    let mut i: usize = 0;
    assert(s@.skip(0) =~= s@);
    while i < s.len() && s[i] == q
        invariant
            i <= s@.len(),
            drop_front(s@, q) == drop_front(s@.skip(i as int), q),
        decreases s@.len() - i,
    {
        assert(s@.skip(i as int).drop_first() =~= s@.skip(i + 1));
        i += 1;
    }
    tail(s, i)
}

/// Remove every trailing `q`.
pub fn trim_end_char(s: &[char], q: char) -> (r: &[char])
    ensures
        r@ == drop_back(s@, q),
{
    let mut n: usize = s.len();
    assert(s@.take(n as int) =~= s@);
    while n > 0 && s[n - 1] == q
        invariant
            n <= s@.len(),
            drop_back(s@, q) == drop_back(s@.take(n as int), q),
        decreases n,
    {
        assert(s@.take(n as int).drop_last() =~= s@.take(n - 1));
        n -= 1;
    }
    head(s, n)
}

/// Remove every `q` from both ends.
pub fn trim_char(s: &[char], q: char) -> (r: &[char])
    ensures
        r@ == trimmed_of(s@, q),
{
    trim_end_char(trim_start_char(s, q), q)
}

/// Whether `s` begins with `pat`.
pub open spec fn starts_with(s: Seq<char>, pat: Seq<char>) -> bool {
    pat.len() <= s.len() && s.take(pat.len() as int) == pat
}

/// Whether `s` begins with `pat`.
pub fn has_prefix(s: &[char], pat: &[char]) -> (b: bool)
    ensures
        b == starts_with(s@, pat@),
{
    if pat.len() > s.len() {
        return false;
    }
    same_chars(head(s, pat.len()), pat)
}

/// Whether `s` begins with the text `pat`.
pub fn begins_with(s: &[char], pat: &str) -> (b: bool)
    ensures
        b == starts_with(s@, pat@),
{
    let cs = chars_of(pat);
    has_prefix(s, cs.as_slice())
}

/// `s` without as many leading copies of `pat` as there are.
pub open spec fn strip_copies(s: Seq<char>, pat: Seq<char>) -> Seq<char>
    decreases s.len(),
{
    if pat.len() > 0 && starts_with(s, pat) {
        strip_copies(s.skip(pat.len() as int), pat)
    } else {
        s
    }
}

/// Remove every leading copy of `pat`.
pub fn trim_start_copies<'a>(s: &'a [char], pat: &str) -> (r: &'a [char])
    ensures
        r@ == strip_copies(s@, pat@),
{
    let cs = chars_of(pat);
    let mut rest: &[char] = s;
    while cs.len() > 0 && has_prefix(rest, cs.as_slice())
        invariant
            cs@ == pat@,
            strip_copies(s@, pat@) == strip_copies(rest@, pat@),
        decreases rest@.len(),
    {
        rest = tail(rest, cs.len());
    }
    rest
}

/// Where `pat` first occurs in `s`.
pub open spec fn find(s: Seq<char>, pat: Seq<char>) -> Option<int>
    decreases s.len(),
{
    if starts_with(s, pat) {
        Some(0)
    } else if s.len() == 0 {
        None
    } else {
        match find(s.drop_first(), pat) {
            Some(i) => Some(i + 1),
            None => None,
        }
    }
}

/// A place that `find` gives lies inside `s`, and `pat` stands there.
pub proof fn lemma_find_in_range(s: Seq<char>, pat: Seq<char>)
    ensures
        find(s, pat) matches Some(i) ==> 0 <= i && i + pat.len() <= s.len() && s.subrange(
            i,
            i + pat.len(),
        ) == pat,
    decreases s.len(),
{
    if starts_with(s, pat) {
    } else if s.len() > 0 {
        lemma_find_in_range(s.drop_first(), pat);
        if let Some(i) = find(s.drop_first(), pat) {
            assert(s.drop_first().subrange(i, i + pat.len()) =~= s.subrange(
                i + 1,
                i + 1 + pat.len(),
            ));
        }
    }
}

/// What stands behind the first occurrence makes no difference to where it is.
pub proof fn lemma_find_same_front(s: Seq<char>, t: Seq<char>, pat: Seq<char>, i: int)
    requires
        find(s, pat) == Some(i),
        i + pat.len() <= t.len(),
        s.take(i + pat.len()) == t.take(i + pat.len()),
    ensures
        find(t, pat) == Some(i),
    decreases s.len(),
{
    lemma_find_in_range(s, pat);
    let n = pat.len() as int;
    if starts_with(s, pat) {
        assert(t.take(n) =~= s.take(n));
    } else {
        assert(i >= 1);
        if starts_with(t, pat) {
            assert(s.take(n) =~= s.take(i + n).take(n));
            assert(t.take(n) =~= t.take(i + n).take(n));
            assert(starts_with(s, pat));
        }
        assert(s.drop_first().take(i - 1 + n) =~= s.take(i + n).drop_first());
        assert(t.drop_first().take(i - 1 + n) =~= t.take(i + n).drop_first());
        lemma_find_same_front(s.drop_first(), t.drop_first(), pat, i - 1);
    }
}

/// A text that occurs somewhere is found.
pub proof fn lemma_find_some(s: Seq<char>, pat: Seq<char>, i: int)
    requires
        0 <= i,
        i <= s.len(),
        starts_with(s.skip(i), pat),
    ensures
        find(s, pat) is Some,
        find(s, pat)->0 <= i,
    decreases s.len(),
{
    if starts_with(s, pat) {
    } else if i == 0 {
        assert(s.skip(0) =~= s);
    } else {
        assert(s.drop_first().skip(i - 1) =~= s.skip(i));
        lemma_find_some(s.drop_first(), pat, i - 1);
    }
}

/// One character is found where it first stands.
pub proof fn lemma_find_char(a: Seq<char>, q: char, b: Seq<char>, pat: Seq<char>)
    requires
        pat == seq![q],
        !a.contains(q),
    ensures
        find(a + pat + b, pat) == Some(a.len() as int),
    decreases a.len(),
{
    let s = a + pat + b;
    if a.len() == 0 {
        assert(s.take(1) =~= pat);
    } else {
        assert(a[0] != q);
        assert(s.take(1)[0] == a[0]);
        assert(s.drop_first() =~= a.drop_first() + pat + b);
        assert(!a.drop_first().contains(q)) by {
            if a.drop_first().contains(q) {
                let k = choose|k: int| 0 <= k < a.len() - 1 && a.drop_first()[k] == q;
                assert(a[k + 1] == q);
            }
        }
        lemma_find_char(a.drop_first(), q, b, pat);
    }
}

/// A character that a text does not hold is not found in it.
pub proof fn lemma_find_absent(a: Seq<char>, q: char, pat: Seq<char>)
    requires
        pat == seq![q],
        !a.contains(q),
    ensures
        find(a, pat) is None,
{
    lemma_find_in_range(a, pat);
    if let Some(i) = find(a, pat) {
        assert(a.subrange(i, i + 1)[0] == q);
        assert(a[i] == q);
    }
}

/// Find the first occurrence of `pat`.
pub fn position(s: &[char], pat: &[char]) -> (r: Option<usize>)
    ensures
        match r {
            Some(i) => find(s@, pat@) == Some(i as int) && i + pat@.len() <= s@.len(),
            None => find(s@, pat@) is None,
        },
{
    proof {
        lemma_find_in_range(s@, pat@);
    }
    assert(s@.skip(0) =~= s@);
    let mut i: usize = 0;
    while i <= s.len()
        invariant
            i <= s@.len() + 1,
            i <= s@.len() ==> find(s@, pat@) == (match find(s@.skip(i as int), pat@) {
                Some(k) => Some(k + i),
                None => None,
            }),
            i == s@.len() + 1 ==> find(s@, pat@) is None,
            find(s@, pat@) matches Some(k) ==> 0 <= k && k + pat@.len() <= s@.len(),
        decreases s@.len() + 1 - i,
    {
        let rest = tail(s, i);
        if has_prefix(rest, pat) {
            return Some(i);
        }
        if i == s.len() {
            return None;
        }
        assert(s@.skip(i as int).drop_first() =~= s@.skip(i + 1));
        i += 1;
    }
    None
}

/// Whether `pat` occurs in `s`.
pub open spec fn contains_text(s: Seq<char>, pat: Seq<char>) -> bool {
    find(s, pat) is Some
}

/// Whether the text `pat` occurs in `s`.
pub fn has_text(s: &[char], pat: &str) -> (b: bool)
    ensures
        b == contains_text(s@, pat@),
{
    let cs = chars_of(pat);
    position(s, cs.as_slice()).is_some()
}

/// `s` cut at the first occurrence of `pat`, which neither half keeps.
pub open spec fn split_first(s: Seq<char>, pat: Seq<char>) -> Option<(Seq<char>, Seq<char>)> {
    match find(s, pat) {
        Some(i) => Some((s.take(i), s.skip(i + pat.len()))),
        None => None,
    }
}

/// Cut at the first occurrence of `pat`.
pub fn split_once<'a>(s: &'a [char], pat: &str) -> (r: Option<(&'a [char], &'a [char])>)
    ensures
        match r {
            Some((a, b)) => split_first(s@, pat@) == Some((a@, b@)),
            None => split_first(s@, pat@) is None,
        },
{
    let cs = chars_of(pat);
    proof {
        lemma_find_in_range(s@, pat@);
    }
    let len: usize = s.len();
    match position(s, cs.as_slice()) {
        Some(i) => Some((head(s, i), slice_subrange(s, i + cs.len(), len))),
        None => None,
    }
}

/// Where `q` last occurs in `s`.
pub open spec fn find_last(s: Seq<char>, q: char) -> Option<int>
    decreases s.len(),
{
    if s.len() == 0 {
        None
    } else if s.last() == q {
        Some(s.len() - 1)
    } else {
        find_last(s.drop_last(), q)
    }
}

/// `s` cut at the last `q`, which neither half keeps.
pub open spec fn split_last(s: Seq<char>, q: char) -> Option<(Seq<char>, Seq<char>)> {
    match find_last(s, q) {
        Some(i) => Some((s.take(i), s.skip(i + 1))),
        None => None,
    }
}

/// Cut at the last `q`.
pub fn rsplit_once(s: &[char], q: char) -> (r: Option<(&[char], &[char])>)
    ensures
        match r {
            Some((a, b)) => split_last(s@, q) == Some((a@, b@)),
            None => split_last(s@, q) is None,
        },
{
    let mut n: usize = s.len();
    assert(s@.take(n as int) =~= s@);
    while n > 0
        invariant
            n <= s@.len(),
            find_last(s@, q) == find_last(s@.take(n as int), q),
        decreases n,
    {
        if s[n - 1] == q {
            return Some((head(s, n - 1), tail(s, n)));
        }
        assert(s@.take(n as int).drop_last() =~= s@.take(n - 1));
        n -= 1;
    }
    None
}

/// A text in front of the first `q`, and the text behind it, are determined by
/// the whole.
pub proof fn lemma_cut_unique(a1: Seq<char>, b1: Seq<char>, a2: Seq<char>, b2: Seq<char>, q: char)
    requires
        a1 + seq![q] + b1 == a2 + seq![q] + b2,
        !a1.contains(q),
        !a2.contains(q),
    ensures
        a1 == a2,
        b1 == b2,
{
    let s = a1 + seq![q] + b1;
    let t = a2 + seq![q] + b2;
    assert(s[a1.len() as int] == q);
    assert(t[a2.len() as int] == q);
    if a1.len() < a2.len() {
        assert(a2[a1.len() as int] == t[a1.len() as int]);
        assert(a2.contains(q));
    } else if a2.len() < a1.len() {
        assert(a1[a2.len() as int] == s[a2.len() as int]);
        assert(a1.contains(q));
    }
    assert(a1 =~= s.take(a1.len() as int));
    assert(a2 =~= t.take(a2.len() as int));
    assert(b1 =~= s.skip(a1.len() as int + 1));
    assert(b2 =~= t.skip(a2.len() as int + 1));
}

/// A text is cut at a `q` that none follows.
pub proof fn lemma_split_last(a: Seq<char>, b: Seq<char>, q: char)
    requires
        !b.contains(q),
    ensures
        split_last(a + seq![q] + b, q) == Some((a, b)),
{
    let s = a + seq![q] + b;
    lemma_find_last(a, b, q);
    assert(s.take(a.len() as int) =~= a);
    assert(s.skip(a.len() as int + 1) =~= b);
}

proof fn lemma_find_last(a: Seq<char>, b: Seq<char>, q: char)
    requires
        !b.contains(q),
    ensures
        find_last(a + seq![q] + b, q) == Some(a.len() as int),
    decreases b.len(),
{
    let s = a + seq![q] + b;
    if b.len() > 0 {
        assert(s.last() == b.last());
        assert(b.contains(b.last()));
        assert(s.drop_last() =~= a + seq![q] + b.drop_last());
        assert forall|i: int| 0 <= i < b.len() - 1 implies b.drop_last()[i] != q by {
            assert(b.contains(b[i]));
        }
        lemma_find_last(a, b.drop_last(), q);
    } else {
        assert(s.last() == q);
    }
}

/// A text in front of the last `q`, and the text behind it, are determined by
/// the whole.
pub proof fn lemma_last_cut_unique(
    a1: Seq<char>,
    b1: Seq<char>,
    a2: Seq<char>,
    b2: Seq<char>,
    q: char,
)
    requires
        a1 + seq![q] + b1 == a2 + seq![q] + b2,
        !b1.contains(q),
        !b2.contains(q),
    ensures
        a1 == a2,
        b1 == b2,
{
    let s = a1 + seq![q] + b1;
    let t = a2 + seq![q] + b2;
    assert(s.len() == a1.len() + 1 + b1.len());
    assert(t.len() == a2.len() + 1 + b2.len());
    assert(s.len() == t.len());
    assert(s[a1.len() as int] == q);
    assert(t[a2.len() as int] == q);
    if a1.len() < a2.len() {
        let k = a2.len() - a1.len() - 1;
        assert(a2.len() < t.len() && 0 <= k < b1.len());
        assert(b1[k] == s[a1.len() + 1 + k]);
        assert(b1.contains(q));
    } else if a2.len() < a1.len() {
        let k = a1.len() - a2.len() - 1;
        assert(a1.len() < s.len() && 0 <= k < b2.len());
        assert(b2[k] == t[a2.len() + 1 + k]);
        assert(b2.contains(q));
    }
    assert(a1 =~= s.take(a1.len() as int));
    assert(a2 =~= t.take(a2.len() as int));
    assert(b1 =~= s.skip(a1.len() as int + 1));
    assert(b2 =~= t.skip(a2.len() as int + 1));
}

/// The contents of a list of character vectors.
pub open spec fn views(v: Seq<Vec<char>>) -> Seq<Seq<char>> {
    Seq::new(v.len(), |i: int| v[i]@)
}

/// `s` cut at every `q`. There is always one part more than there are cuts.
pub open spec fn split(s: Seq<char>, q: char) -> Seq<Seq<char>>
    decreases s.len(),
{
    if s.len() == 0 {
        seq![Seq::<char>::empty()]
    } else {
        let parts = split(s.drop_last(), q);
        if s.last() == q {
            parts.push(Seq::<char>::empty())
        } else {
            parts.drop_last().push(parts.last().push(s.last()))
        }
    }
}

/// There is at least one part.
pub proof fn lemma_split_nonempty(s: Seq<char>, q: char)
    ensures
        split(s, q).len() > 0,
    decreases s.len(),
{
    if s.len() > 0 {
        lemma_split_nonempty(s.drop_last(), q);
    }
}

/// A text without `q` is one part.
pub proof fn lemma_split_single(s: Seq<char>, q: char)
    requires
        !s.contains(q),
    ensures
        split(s, q) == seq![s],
    decreases s.len(),
{
    if s.len() > 0 {
        let front = s.drop_last();
        assert(s.last() != q) by {
            assert(s[s.len() - 1] == s.last());
        }
        assert(!front.contains(q)) by {
            if front.contains(q) {
                let i = choose|i: int| 0 <= i < front.len() && front[i] == q;
                assert(s[i] == q);
            }
        }
        lemma_split_single(front, q);
        assert(split(s, q) =~= seq![front.push(s.last())]);
        assert(front.push(s.last()) =~= s);
    } else {
        assert(s =~= Seq::empty());
    }
}

/// The first part of a text is what stands in front of its first `q`.
pub proof fn lemma_split_cut(a: Seq<char>, b: Seq<char>, q: char)
    requires
        !a.contains(q),
    ensures
        split(a + seq![q] + b, q) == seq![a] + split(b, q),
    decreases b.len(),
{
    let s = a + seq![q] + b;
    lemma_split_nonempty(b, q);
    if b.len() == 0 {
        lemma_split_single(a, q);
        assert(s.drop_last() =~= a);
        assert(split(s, q) =~= seq![a] + split(b, q));
    } else {
        let c = b.drop_last();
        lemma_split_cut(a, c, q);
        lemma_split_nonempty(c, q);
        assert(s.drop_last() =~= a + seq![q] + c);
        assert(s.last() == b.last());
        assert(split(s, q) =~= seq![a] + split(b, q));
    }
}

/// Every character of a text but `q` stands in one of its parts.
pub proof fn lemma_split_holds(s: Seq<char>, q: char, i: int)
    requires
        0 <= i < s.len(),
        s[i] != q,
    ensures
        exists|k: int|
            0 <= k < split(s, q).len() && (#[trigger] split(s, q)[k]).contains(s[i]),
    decreases s.len(),
{
    let front = s.drop_last();
    let parts = split(front, q);
    lemma_split_nonempty(front, q);
    let whole = split(s, q);
    if i == s.len() - 1 {
        let last = parts.last().push(s.last());
        assert(last[last.len() - 1] == s[i]);
        assert(whole[whole.len() - 1] == last);
    } else {
        lemma_split_holds(front, q, i);
        let k = choose|k: int| 0 <= k < parts.len() && (#[trigger] parts[k]).contains(front[i]);
        let at = choose|at: int| 0 <= at < parts[k].len() && parts[k][at] == front[i];
        if s.last() == q || k < parts.len() - 1 {
            assert(whole[k] == parts[k]);
        } else {
            assert(whole[k] == parts[k].push(s.last()));
            assert(whole[k][at] == s[i]);
        }
    }
}

/// Cut at every `q`.
pub fn split_char(s: &[char], q: char) -> (parts: Vec<Vec<char>>)
    ensures
        views(parts@) == split(s@, q),
        parts@.len() > 0,
{
    let mut parts: Vec<Vec<char>> = Vec::new();
    let mut part: Vec<char> = Vec::new();
    let mut i: usize = 0;
    assert(views(parts@).push(part@) =~= split(s@.take(0), q));
    while i < s.len()
        invariant
            i <= s@.len(),
            views(parts@).push(part@) == split(s@.take(i as int), q),
        decreases s@.len() - i,
    {
        let ghost before = views(parts@);
        let ghost last = part@;
        proof {
            assert(s@.take(i + 1).drop_last() =~= s@.take(i as int));
            assert(s@.take(i + 1).last() == s@[i as int]);
            assert(before.push(last).drop_last() =~= before);
        }
        if s[i] == q {
            parts.push(part);
            part = Vec::new();
            assert(views(parts@) =~= before.push(last));
            assert(part@ =~= Seq::<char>::empty());
        } else {
            part.push(s[i]);
        }
        i += 1;
    }
    let ghost before = views(parts@);
    let ghost last = part@;
    parts.push(part);
    assert(views(parts@) =~= before.push(last));
    assert(s@.take(i as int) =~= s@);
    parts
}

/// The runs of `s` that hold no white space.
pub open spec fn words(s: Seq<char>) -> Seq<Seq<char>>
    decreases s.len(),
{
    if s.len() == 0 {
        seq![]
    } else {
        let front = words(s.drop_last());
        if is_white_space(s.last()) {
            front
        } else if s.len() > 1 && !is_white_space(s[s.len() - 2]) {
            front.drop_last().push(front.last().push(s.last()))
        } else {
            front.push(seq![s.last()])
        }
    }
}

proof fn lemma_words_nonempty(s: Seq<char>)
    requires
        s.len() > 0,
        !is_white_space(s.last()),
    ensures
        words(s).len() > 0,
    decreases s.len(),
{
    if s.len() > 1 && !is_white_space(s[s.len() - 2]) {
        lemma_words_nonempty(s.drop_last());
    }
}

/// Split at white space, dropping it.
pub fn split_words(s: &[char]) -> (parts: Vec<Vec<char>>)
    ensures
        views(parts@) == words(s@),
{
    let mut parts: Vec<Vec<char>> = Vec::new();
    let mut i: usize = 0;
    assert(views(parts@) =~= words(s@.take(0)));
    while i < s.len()
        invariant
            i <= s@.len(),
            views(parts@) == words(s@.take(i as int)),
        decreases s@.len() - i,
    {
        let ghost before = views(parts@);
        proof {
            assert(s@.take(i + 1).drop_last() =~= s@.take(i as int));
            assert(s@.take(i + 1).last() == s@[i as int]);
            if i > 0 && !is_white_space(s@[i - 1]) {
                assert(s@.take(i as int).last() == s@[i - 1]);
                lemma_words_nonempty(s@.take(i as int));
            }
        }
        if !is_whitespace(s[i]) {
            if i > 0 && !is_whitespace(s[i - 1]) {
                assert(parts@.len() == before.len());
                let mut word: Vec<char> = match parts.pop() {
                    Some(word) => word,
                    None => Vec::new(),
                };
                assert(word@ == before.last());
                assert(views(parts@) =~= before.drop_last());
                let ghost rest = views(parts@);
                word.push(s[i]);
                let ghost longer = word@;
                parts.push(word);
                assert(views(parts@) =~= rest.push(longer));
            } else {
                let mut word: Vec<char> = Vec::new();
                word.push(s[i]);
                assert(word@ =~= seq![s@[i as int]]);
                parts.push(word);
                assert(views(parts@) =~= before.push(seq![s@[i as int]]));
            }
        }
        i += 1;
    }
    assert(s@.take(i as int) =~= s@);
    parts
}

/// An ASCII capital as its small letter; anything else as it is.
pub open spec fn lower_char(c: char) -> char {
    if 'A' <= c && c <= 'Z' {
        ((c as nat) + 32) as char
    } else {
        c
    }
}

/// `s` with every ASCII capital made small.
pub open spec fn lower(s: Seq<char>) -> Seq<char> {
    Seq::new(s.len(), |i: int| lower_char(s[i]))
}

/// Whether two texts differ at most in the case of ASCII letters.
pub open spec fn same_ignoring_case(a: Seq<char>, b: Seq<char>) -> bool {
    lower(a) == lower(b)
}

/// Make one ASCII capital small.
pub fn to_lower_char(c: char) -> (r: char)
    ensures
        r == lower_char(c),
{
    let u: u32 = c as u32;
    if 65 <= u && u <= 90 {
        ((u + 32) as u8) as char
    } else {
        c
    }
}

/// Make every ASCII capital small.
pub fn to_lower(s: &[char]) -> (out: Vec<char>)
    ensures
        out@ == lower(s@),
{
    let mut out: Vec<char> = Vec::new();
    let mut i: usize = 0;
    while i < s.len()
        invariant
            i <= s@.len(),
            out@ =~= lower(s@).take(i as int),
        decreases s@.len() - i,
    {
        out.push(to_lower_char(s[i]));
        i += 1;
    }
    out
}

/// Whether two strings differ at most in the case of ASCII letters.
pub fn eq_ignore_case(a: &str, b: &str) -> (same: bool)
    ensures
        same == same_ignoring_case(a@, b@),
{
    let x = chars_of(a);
    let y = chars_of(b);
    let p = to_lower(x.as_slice());
    let q = to_lower(y.as_slice());
    same_chars(p.as_slice(), q.as_slice())
}

/// A character in a text that keeps clear of a mark.
pub open spec fn masked_char(c: char, mark: char) -> Seq<char> {
    if c == mark {
        seq!['%', '1']
    } else if c == '%' {
        seq!['%', '0']
    } else {
        seq![c]
    }
}

/// `s` without the mark: a percent sign and a digit stand for the mark and for
/// the percent sign itself.
pub open spec fn masked(s: Seq<char>, mark: char) -> Seq<char>
    decreases s.len(),
{
    if s.len() == 0 {
        Seq::empty()
    } else {
        masked(s.drop_last(), mark) + masked_char(s.last(), mark)
    }
}

/// A masked text does not hold the mark.
pub proof fn lemma_masked_clear(s: Seq<char>, mark: char)
    requires
        mark != '%' && mark != '0' && mark != '1',
    ensures
        !masked(s, mark).contains(mark),
    decreases s.len(),
{
    if s.len() > 0 {
        lemma_masked_clear(s.drop_last(), mark);
        let front = masked(s.drop_last(), mark);
        let last = masked_char(s.last(), mark);
        let whole = masked(s, mark);
        assert forall|i: int| 0 <= i < whole.len() implies whole[i] != mark by {
            if i < front.len() {
                assert(whole[i] == front[i]);
                assert(front.contains(front[i]));
            } else {
                assert(whole[i] == last[i - front.len()]);
            }
        }
    }
}

/// Masking from the front.
proof fn lemma_masked_front(s: Seq<char>, mark: char)
    requires
        s.len() > 0,
    ensures
        masked(s, mark) == masked_char(s[0], mark) + masked(s.drop_first(), mark),
    decreases s.len(),
{
    if s.len() == 1 {
        assert(masked(s.drop_last(), mark) =~= Seq::<char>::empty());
        assert(masked(s.drop_first(), mark) =~= Seq::<char>::empty());
    } else {
        lemma_masked_front(s.drop_last(), mark);
        assert(s.drop_last().drop_first() =~= s.drop_first().drop_last());
        assert(s.drop_first().last() == s.last());
    }
    assert(masked(s, mark) =~= masked_char(s[0], mark) + masked(s.drop_first(), mark));
}

/// Texts that differ are masked differently.
pub proof fn lemma_masked_injective(a: Seq<char>, b: Seq<char>, mark: char)
    requires
        mark != '%' && mark != '0' && mark != '1',
        masked(a, mark) == masked(b, mark),
    ensures
        a == b,
    decreases a.len(),
{
    if a.len() > 0 {
        lemma_masked_front(a, mark);
    }
    if b.len() > 0 {
        lemma_masked_front(b, mark);
    }
    if a.len() > 0 && b.len() > 0 {
        let ma = masked(a, mark);
        let ca = masked_char(a[0], mark);
        let cb = masked_char(b[0], mark);
        assert(ma[0] == ca[0] && ma[0] == cb[0]);
        if ca[0] == '%' {
            assert(ma[1] == ca[1] && ma[1] == cb[1]);
        }
        assert(a[0] == b[0]);
        assert(ma.skip(ca.len() as int) =~= masked(a.drop_first(), mark));
        assert(ma.skip(cb.len() as int) =~= masked(b.drop_first(), mark));
        lemma_masked_injective(a.drop_first(), b.drop_first(), mark);
        assert(a =~= seq![a[0]] + a.drop_first());
        assert(b =~= seq![b[0]] + b.drop_first());
    } else {
        assert(a =~= b);
    }
}

/// A text without a percent sign or the mark is its own masked form.
pub proof fn lemma_masked_same(s: Seq<char>, mark: char)
    requires
        !s.contains('%'),
        !s.contains(mark),
    ensures
        masked(s, mark) == s,
    decreases s.len(),
{
    if s.len() > 0 {
        let front = s.drop_last();
        assert forall|i: int| 0 <= i < front.len() implies front[i] != '%' && front[i] != mark by {
            assert(s.contains(s[i]));
        }
        lemma_masked_same(front, mark);
        assert(s.contains(s.last()));
    }
    assert(masked(s, mark) =~= s);
}

/// Mask a text.
pub fn mask(s: &str, mark: char) -> (out: String)
    ensures
        out@ == masked(s@, mark),
{
    let cs = chars_of(s);
    let mut out: Vec<char> = Vec::new();
    let mut i: usize = 0;
    assert(cs@.take(0).len() == 0);
    while i < cs.len()
        invariant
            i <= cs@.len(),
            out@ == masked(cs@.take(i as int), mark),
        decreases cs@.len() - i,
    {
        let ghost before = out@;
        proof {
            assert(cs@.take(i + 1).drop_last() =~= cs@.take(i as int));
            assert(cs@.take(i + 1).last() == cs@[i as int]);
        }
        if cs[i] == mark {
            out.push('%');
            out.push('1');
        } else if cs[i] == '%' {
            out.push('%');
            out.push('0');
        } else {
            out.push(cs[i]);
        }
        assert(out@ =~= before + masked_char(cs@[i as int], mark));
        i += 1;
    }
    assert(cs@.take(i as int) =~= cs@);
    string_of(out.as_slice())
}

/// Whether `a` comes before `b` in the order of texts, decided at `i`: the two
/// are the same up to there, and then `a` ends or has the smaller character.
pub open spec fn before_at(a: Seq<char>, b: Seq<char>, i: int) -> bool {
    &&& 0 <= i < b.len()
    &&& i <= a.len()
    &&& forall|j: int| 0 <= j < i ==> #[trigger] a[j] == b[j]
    &&& i < a.len() ==> (a[i] as u32) < (b[i] as u32)
}

/// Whether `a` comes before `b` in the order of texts.
pub open spec fn before(a: Seq<char>, b: Seq<char>) -> bool {
    exists|i: int| before_at(a, b, i)
}

/// A text does not come before itself.
pub proof fn lemma_before_differs(a: Seq<char>, b: Seq<char>)
    requires
        before(a, b),
    ensures
        a != b,
{
    let i = choose|i: int| before_at(a, b, i);
    assert(before_at(a, b, i));
}

/// Fronts of one length decide the order, and where they are the same the rest
/// does.
pub proof fn lemma_before_joined(a: Seq<char>, x: Seq<char>, b: Seq<char>, y: Seq<char>)
    requires
        a.len() == b.len(),
        before(a, b) || (a == b && before(x, y)),
    ensures
        before(a + x, b + y),
{
    if before(a, b) {
        let i = choose|i: int| before_at(a, b, i);
        assert forall|j: int| 0 <= j < i implies #[trigger] (a + x)[j] == (b + y)[j] by {
            assert(a[j] == b[j]);
        }
        assert(before_at(a + x, b + y, i));
    } else {
        let i = choose|i: int| before_at(x, y, i);
        let n = a.len() as int;
        assert forall|j: int| 0 <= j < n + i implies #[trigger] (a + x)[j] == (b + y)[j] by {
            if j >= n {
                assert(x[j - n] == y[j - n]);
            }
        }
        assert(before_at(a + x, b + y, n + i));
    }
}

/// How often `q` occurs in `s`.
pub open spec fn count(s: Seq<char>, q: char) -> nat
    decreases s.len(),
{
    if s.len() == 0 {
        0
    } else {
        count(s.drop_last(), q) + if s.last() == q {
            1nat
        } else {
            0nat
        }
    }
}

/// What occurs in a text occurs in its front or in the rest.
pub proof fn lemma_count_joined(a: Seq<char>, b: Seq<char>, q: char)
    ensures
        count(a + b, q) == count(a, q) + count(b, q),
    decreases b.len(),
{
    if b.len() == 0 {
        assert(a + b =~= a);
    } else {
        assert((a + b).drop_last() =~= a + b.drop_last());
        lemma_count_joined(a, b.drop_last(), q);
    }
}

/// A text of one character holds it once.
pub proof fn lemma_count_one(c: char, q: char)
    ensures
        count(seq![c], q) == if c == q {
            1nat
        } else {
            0nat
        },
{
    assert(seq![c].drop_last() =~= Seq::<char>::empty());
    assert(count(Seq::<char>::empty(), q) == 0);
}

/// A character occurs nowhere exactly when it is not among the characters.
pub proof fn lemma_count_zero(s: Seq<char>, q: char)
    ensures
        count(s, q) == 0 <==> !s.contains(q),
    decreases s.len(),
{
    if s.len() > 0 {
        let front = s.drop_last();
        lemma_count_zero(front, q);
        if front.contains(q) {
            let k = choose|k: int| 0 <= k < front.len() && front[k] == q;
            assert(s[k] == q);
        } else if s.contains(q) {
            let k = choose|k: int| 0 <= k < s.len() && s[k] == q;
            if k < front.len() {
                assert(front[k] == q);
            }
        }
        if s.last() == q {
            assert(s[s.len() - 1] == q);
        }
    }
}

/// Count the occurrences of `q`.
pub fn count_char(s: &[char], q: char) -> (n: usize)
    ensures
        n == count(s@, q),
{
    let mut n: usize = 0;
    let mut i: usize = 0;
    while i < s.len()
        invariant
            n <= i <= s@.len(),
            n == count(s@.take(i as int), q),
        decreases s@.len() - i,
    {
        proof {
            assert(s@.take(i + 1).drop_last() =~= s@.take(i as int));
            assert(s@.take(i + 1).last() == s@[i as int]);
        }
        if s[i] == q {
            n += 1;
        }
        i += 1;
    }
    assert(s@.take(i as int) =~= s@);
    n
}

/// Whether `q` occurs in `s`.
pub fn has_char(s: &[char], q: char) -> (b: bool)
    ensures
        b == s@.contains(q),
{
    let mut i: usize = 0;
    while i < s.len()
        invariant
            i <= s@.len(),
            forall|j: int| 0 <= j < i ==> s@[j] != q,
        decreases s@.len() - i,
    {
        if s[i] == q {
            return true;
        }
        i += 1;
    }
    false
}

/// `a` followed by `b`.
pub fn joined(a: &str, b: &str) -> (s: String)
    ensures
        s@ == a@ + b@,
{
    let mut s = a.to_string();
    s.append(b);
    s
}

/// `a`, `b` and `c` in a row.
pub fn joined3(a: &str, b: &str, c: &str) -> (s: String)
    ensures
        s@ == a@ + b@ + c@,
{
    let mut s = a.to_string();
    s.append(b);
    s.append(c);
    s
}

/// The contents of an optional string.
pub open spec fn option_view(s: Option<String>) -> Option<Seq<char>> {
    match s {
        Some(s) => Some(s@),
        None => None,
    }
}

/// The contents of a list of strings.
pub open spec fn texts(v: Seq<String>) -> Seq<Seq<char>> {
    Seq::new(v.len(), |i: int| v[i]@)
}

/// The texts that are not empty.
pub open spec fn nonempty(v: Seq<Seq<char>>) -> Seq<Seq<char>> {
    v.filter(|p: Seq<char>| p.len() > 0)
}

/// Leaving out empty texts leaves the others, all of them and in order.
pub proof fn lemma_nonempty_keeps(paths: Seq<Seq<char>>, p: Seq<char>)
    ensures
        nonempty(paths).contains(p) <==> paths.contains(p) && p.len() > 0,
        nonempty(paths).len() <= paths.len(),
        (forall|i: int| 0 <= i < paths.len() ==> (#[trigger] paths[i]).len() > 0)
            ==> nonempty(paths) == paths,
    decreases paths.len(),
{
    reveal(Seq::filter);
    if paths.len() > 0 {
        let front = paths.drop_last();
        lemma_nonempty_keeps(front, p);
        let kept = nonempty(front);
        let whole = nonempty(paths);
        let n = paths.len() - 1;
        if paths.contains(p) {
            let i = choose|i: int| 0 <= i < paths.len() && paths[i] == p;
            if i < n {
                assert(front[i] == p);
            }
        }
        if front.contains(p) {
            let i = choose|i: int| 0 <= i < front.len() && front[i] == p;
            assert(paths[i] == p);
        }
        if paths.last().len() > 0 {
            assert(whole =~= kept.push(paths.last()));
            assert(whole[kept.len() as int] == paths.last());
            assert(paths[n] == paths.last());
            if kept.contains(p) {
                let i = choose|i: int| 0 <= i < kept.len() && kept[i] == p;
                assert(whole[i] == p);
            }
            if whole.contains(p) {
                let i = choose|i: int| 0 <= i < whole.len() && whole[i] == p;
                if i < kept.len() {
                    assert(kept[i] == p);
                }
            }
        } else {
            assert(whole =~= kept);
        }
        if forall|i: int| 0 <= i < paths.len() ==> (#[trigger] paths[i]).len() > 0 {
            assert forall|i: int| 0 <= i < front.len() implies (#[trigger] front[i]).len() > 0 by {
                assert(front[i] == paths[i]);
            }
            assert(paths[n].len() > 0);
            assert(front.push(paths.last()) =~= paths);
        }
    }
}

/// Copies of the texts that are not empty.
pub fn nonempty_texts(paths: &Vec<String>) -> (out: Vec<String>)
    ensures
        texts(out@) == nonempty(texts(paths@)),
{
    let ghost all = texts(paths@);
    let ghost keep = |p: Seq<char>| p.len() > 0;
    let mut out: Vec<String> = Vec::new();
    let mut i: usize = 0;
    assert(all.take(0).filter(keep) =~= seq![]) by {
        reveal(Seq::filter);
    }
    assert(texts(out@) =~= seq![]);
    while i < paths.len()
        invariant
            i <= paths@.len(),
            all == texts(paths@),
            keep == (|p: Seq<char>| p.len() > 0),
            texts(out@) == all.take(i as int).filter(keep),
        decreases paths@.len() - i,
    {
        let ghost before = texts(out@);
        proof {
            reveal(Seq::filter);
            assert(all.take(i + 1).drop_last() =~= all.take(i as int));
            assert(all.take(i + 1).last() == paths@[i as int]@);
        }
        let cs = chars_of(paths[i].as_str());
        if cs.len() > 0 {
            let path = paths[i].clone();
            out.push(path);
            assert(texts(out@) =~= before.push(paths@[i as int]@));
        }
        i += 1;
    }
    assert(all.take(i as int) =~= all);
    out
}

/// What `String::from_utf8_lossy` makes of bytes.
pub uninterp spec fn lossy_text(bytes: Seq<u8>) -> Seq<char>;

/// What `{:?}` makes of a string: the text in quotes, with escapes.
pub uninterp spec fn debug_quoted(s: Seq<char>) -> Seq<char>;

/// `String::from_utf8`: the text that the bytes encode, exactly when they are
/// UTF-8.
#[verifier::external_body]
pub(crate) fn from_utf8(bytes: &[u8]) -> (r: Option<String>)
    ensures
        match r {
            Some(s) => valid_utf8(bytes@) && s@ == decode_utf8(bytes@),
            None => !valid_utf8(bytes@),
        },
{
    String::from_utf8(bytes.to_vec()).ok()
}

/// `String::from_utf8_lossy`: the text that the bytes encode where they are
/// UTF-8. What stands for other bytes is left to it, under a name.
#[verifier::external_body]
pub(crate) fn from_utf8_lossy(bytes: &[u8]) -> (s: String)
    ensures
        s@ == lossy_text(bytes@),
        valid_utf8(bytes@) ==> s@ == decode_utf8(bytes@),
{
    String::from_utf8_lossy(bytes).to_string()
}

/// `format!("{:?}")` of a string: which characters it escapes is left to it,
/// under a name.
#[verifier::external_body]
pub(crate) fn debug_text(s: &str) -> (r: String)
    ensures
        r@ == debug_quoted(s@),
{
    format!("{:?}", s)
}

proof fn lemma_strip_front(s: Seq<char>) -> (a: int)
    ensures
        0 <= a <= s.len(),
        strip_front(s) == s.skip(a),
        forall|i: int| 0 <= i < a ==> is_white_space(#[trigger] s[i]),
        a < s.len() ==> !is_white_space(s[a]),
    decreases s.len(),
{
    if s.len() > 0 && is_white_space(s[0]) {
        let rest = s.drop_first();
        let b = lemma_strip_front(rest);
        assert(rest.skip(b) =~= s.skip(b + 1));
        assert forall|i: int| 0 <= i < b + 1 implies is_white_space(#[trigger] s[i]) by {
            if i > 0 {
                assert(rest[i - 1] == s[i]);
            }
        }
        b + 1
    } else {
        assert(s.skip(0) =~= s);
        0
    }
}

proof fn lemma_strip_back(s: Seq<char>) -> (b: int)
    ensures
        0 <= b <= s.len(),
        strip_back(s) == s.take(b),
        forall|i: int| b <= i < s.len() ==> is_white_space(#[trigger] s[i]),
        b > 0 ==> !is_white_space(s[b - 1]),
    decreases s.len(),
{
    if s.len() > 0 && is_white_space(s.last()) {
        let rest = s.drop_last();
        let b = lemma_strip_back(rest);
        assert(rest.take(b) =~= s.take(b));
        assert forall|i: int| b <= i < s.len() implies is_white_space(#[trigger] s[i]) by {
            if i < rest.len() {
                assert(rest[i] == s[i]);
            }
        }
        b
    } else {
        assert(s.take(s.len() as int) =~= s);
        s.len() as int
    }
}

/// Trimming takes white space off both ends and nothing else: what is left is a
/// piece of the text that begins and ends with no white space, and white space is
/// all that stood around it.
pub proof fn lemma_trimmed_is_the_middle(s: Seq<char>)
    ensures
        exists|a: int, b: int|
            0 <= a <= b <= s.len() && trimmed(s) == #[trigger] s.subrange(a, b) && (forall|i: int|
                0 <= i < a || b <= i < s.len() ==> is_white_space(#[trigger] s[i])),
        trimmed(s).len() > 0 ==> !is_white_space(trimmed(s)[0]) && !is_white_space(
            trimmed(s).last(),
        ),
{
    let a = lemma_strip_front(s);
    let rest = s.skip(a);
    let n = lemma_strip_back(rest);
    assert(rest.take(n) =~= s.subrange(a, a + n));
    assert forall|i: int| 0 <= i < a || a + n <= i < s.len() implies is_white_space(
        #[trigger] s[i],
    ) by {
        if i >= a {
            assert(rest[i - a] == s[i]);
        }
    }
}

/// Among ASCII characters, the space and the five control characters from tab to
/// carriage return are white space.
pub proof fn lemma_ascii_white_space(c: char)
    requires
        (c as int) < 128,
    ensures
        is_white_space(c) <==> c == ' ' || 9 <= (c as int) <= 13,
{
}

/// Two texts are the same without regard to case exactly when they are equally
/// long and differ, where they do, by a letter's case.
pub proof fn lemma_case_is_all_that_differs(a: Seq<char>, b: Seq<char>)
    ensures
        same_ignoring_case(a, b) <==> a.len() == b.len() && forall|i: int|
            0 <= i < a.len() ==> #[trigger] a[i] == b[i] || ('A' <= a[i] <= 'Z' && b[i] as int
                == a[i] as int + 32) || ('A' <= b[i] <= 'Z' && a[i] as int == b[i] as int + 32),
{
    if same_ignoring_case(a, b) {
        assert(lower(a).len() == lower(b).len());
        assert forall|i: int| 0 <= i < a.len() implies #[trigger] a[i] == b[i] || ('A' <= a[i]
            <= 'Z' && b[i] as int == a[i] as int + 32) || ('A' <= b[i] <= 'Z' && a[i] as int
            == b[i] as int + 32) by {
            assert(lower(a)[i] == lower(b)[i]);
        }
    }
    if a.len() == b.len() && forall|i: int|
        0 <= i < a.len() ==> #[trigger] a[i] == b[i] || ('A' <= a[i] <= 'Z' && b[i] as int
            == a[i] as int + 32) || ('A' <= b[i] <= 'Z' && a[i] as int == b[i] as int + 32) {
        assert(lower(a) =~= lower(b));
    }
}

/// A cut is at the first place where the mark stands: the two halves with the
/// mark between them are the text, and the mark begins nowhere before.
pub proof fn lemma_cut_is_the_first(s: Seq<char>, pat: Seq<char>)
    ensures
        split_first(s, pat) matches Some((a, b)) ==> s == a + pat + b && forall|i: int|
            0 <= i < a.len() ==> !starts_with(#[trigger] s.skip(i), pat),
        split_first(s, pat) is None ==> forall|i: int|
            0 <= i <= s.len() ==> !starts_with(#[trigger] s.skip(i), pat),
{
    lemma_find_in_range(s, pat);
    if let Some((a, b)) = split_first(s, pat) {
        let k = find(s, pat)->0;
        assert(s =~= a + pat + b) by {
            assert(s.subrange(k, k + pat.len()) == pat);
            assert forall|i: int| 0 <= i < s.len() implies s[i] == (a + pat + b)[i] by {
                if k <= i < k + pat.len() {
                    assert(s.subrange(k, k + pat.len())[i - k] == s[i]);
                }
            }
        }
        assert forall|i: int| 0 <= i < a.len() implies !starts_with(#[trigger] s.skip(i), pat) by {
            if starts_with(s.skip(i), pat) {
                lemma_find_some(s, pat, i);
            }
        }
    } else {
        assert forall|i: int| 0 <= i <= s.len() implies !starts_with(
            #[trigger] s.skip(i),
            pat,
        ) by {
            if starts_with(s.skip(i), pat) {
                lemma_find_some(s, pat, i);
            }
        }
    }
}

} // verus!
