//! JSON documents.
//!
//! [`Json`] is the library's own tree. What it means is a [`Tree`]: arrays are
//! sequences, objects are maps from names. Reading and writing text is
//! `serde_json`'s work; the tree and everything done with it is this crate's.

use vstd::prelude::*;
use vstd::utf8::*;

use crate::text;

verus! {

/// A JSON document. Of two members of one name, the later one counts.
#[derive(Debug, PartialEq, Eq)]
pub enum Json {
    Null,
    Bool(bool),
    Unsigned(u64),
    Signed(i64),
    /// A number that is not an integer, or is too large for one.
    Fractional(Fraction),
    Text(String),
    Array(Vec<Json>),
    Object(Vec<(String, Json)>),
}

/// A number that is not an integer, or is too large for one.
#[derive(Debug, PartialEq, Eq)]
pub struct Fraction {
    number: serde_json::Number,
}

/// What a JSON document says.
pub enum Tree {
    Null,
    Bool(bool),
    Int(int),
    Fractional(serde_json::Number),
    Text(Seq<char>),
    Array(Seq<Tree>),
    Object(Map<Seq<char>, Tree>),
}

/// The outside crate's document type. Its contents are named by `value_tree`.
#[verifier::external_type_specification]
#[verifier::external_body]
pub struct ExValue(serde_json::Value);

/// The outside crate's number type, only ever carried through.
#[verifier::external_type_specification]
#[verifier::external_body]
pub struct ExNumber(serde_json::Number);

/// What a `serde_json::Value` holds.
pub uninterp spec fn value_tree(v: serde_json::Value) -> Tree;

/// Whether a number is one that `serde_json` documents hold as a fraction.
pub open spec fn is_fraction(n: serde_json::Number) -> bool {
    exists|v: serde_json::Value| #[trigger] value_tree(v) == Tree::Fractional(n)
}

impl View for Fraction {
    type V = serde_json::Number;

    closed spec fn view(&self) -> serde_json::Number {
        self.number
    }
}

impl Fraction {
    #[verifier::type_invariant]
    spec fn well_formed(self) -> bool {
        is_fraction(self.number)
    }

    fn copy(&self) -> (f: Fraction)
        ensures
            f@ == self@,
    {
        proof {
            use_type_invariant(self);
        }
        Fraction { number: self.number.clone() }
    }
}

/// What `serde_json::from_slice` makes of bytes: the document, or the text of
/// its error.
pub uninterp spec fn json_parse(bytes: Seq<u8>) -> Result<Tree, Seq<char>>;

/// The compact text that `serde_json` writes for a document.
pub uninterp spec fn json_text(t: Tree) -> Seq<char>;

/// One level of a `serde_json::Value`.
pub enum Node {
    Null,
    Bool(bool),
    Unsigned(u64),
    Signed(i64),
    Fractional(serde_json::Number),
    Text(String),
    Array(Vec<serde_json::Value>),
    Object(Vec<(String, serde_json::Value)>),
}

/// The members of an object, the later of two with one name counting.
pub open spec fn value_members(s: Seq<(String, serde_json::Value)>) -> Map<Seq<char>, Tree>
    decreases s.len(),
{
    if s.len() == 0 {
        Map::empty()
    } else {
        value_members(s.drop_last()).insert(s.last().0@, value_tree(s.last().1))
    }
}

/// Whether no two members have one name.
pub open spec fn distinct_names(s: Seq<(String, serde_json::Value)>) -> bool {
    forall|i: int, j: int| 0 <= i < j < s.len() ==> (#[trigger] s[i]).0@ != (#[trigger] s[j]).0@
}

impl Node {
    /// What one level of a document says.
    pub open spec fn tree(self) -> Tree {
        match self {
            Node::Null => Tree::Null,
            Node::Bool(b) => Tree::Bool(b),
            Node::Unsigned(n) => Tree::Int(n as int),
            Node::Signed(n) => Tree::Int(n as int),
            Node::Fractional(n) => Tree::Fractional(n),
            Node::Text(s) => Tree::Text(s@),
            Node::Array(items) => Tree::Array(
                Seq::new(items@.len(), |i: int| value_tree(items@[i])),
            ),
            Node::Object(items) => Tree::Object(value_members(items@)),
        }
    }
}

/// `serde_json::from_slice`: the document that the bytes spell, or the error's
/// text. Both are named by `json_parse`; which bytes are JSON is left to it.
#[verifier::external_body]
fn value_from_slice(bytes: &[u8]) -> (r: Result<serde_json::Value, String>)
    ensures
        match r {
            Ok(v) => json_parse(bytes@) == Ok::<Tree, Seq<char>>(value_tree(v)),
            Err(e) => json_parse(bytes@) == Err::<Tree, Seq<char>>(e@),
        },
{
    serde_json::from_slice(bytes).map_err(|e| e.to_string())
}

/// `serde_json::Value` to text, by its `Display`: compact JSON.
#[verifier::external_body]
fn value_to_string(v: &serde_json::Value) -> (s: String)
    ensures
        s@ == json_text(value_tree(*v)),
{
    v.to_string()
}

/// Take a `serde_json::Value` apart by one level. The members of an object come
/// out with distinct names, because `serde_json::Map` holds one value for each.
#[verifier::external_body]
fn open_value(v: serde_json::Value) -> (n: Node)
    ensures
        n.tree() == value_tree(v),
        n matches Node::Object(items) ==> distinct_names(items@),
{
    match v {
        serde_json::Value::Null => Node::Null,
        serde_json::Value::Bool(b) => Node::Bool(b),
        serde_json::Value::Number(n) => match (n.as_u64(), n.as_i64()) {
            (Some(u), _) => Node::Unsigned(u),
            (None, Some(i)) => Node::Signed(i),
            (None, None) => Node::Fractional(n),
        },
        serde_json::Value::String(s) => Node::Text(s),
        serde_json::Value::Array(items) => Node::Array(items),
        serde_json::Value::Object(members) => Node::Object(members.into_iter().collect()),
    }
}

/// Put a `serde_json::Value` together from one level. An object is collected
/// into `serde_json::Map`, which holds every member when their names are
/// distinct. A number passes for a fraction only if it is one: an integer would
/// come out as an integer.
#[verifier::external_body]
fn close_value(n: Node) -> (v: serde_json::Value)
    requires
        n matches Node::Fractional(m) ==> is_fraction(m),
        n matches Node::Object(items) ==> distinct_names(items@),
    ensures
        value_tree(v) == n.tree(),
{
    match n {
        Node::Null => serde_json::Value::Null,
        Node::Bool(b) => serde_json::Value::Bool(b),
        Node::Unsigned(u) => serde_json::Value::from(u),
        Node::Signed(i) => serde_json::Value::from(i),
        Node::Fractional(n) => serde_json::Value::Number(n),
        Node::Text(s) => serde_json::Value::String(s),
        Node::Array(items) => serde_json::Value::Array(items),
        Node::Object(members) => serde_json::Value::Object(members.into_iter().collect()),
    }
}

/// `serde_json::Number::clone`: the same number.
pub assume_specification[ <serde_json::Number as Clone>::clone ](
    n: &serde_json::Number,
) -> (m: serde_json::Number)
    ensures
        m == *n,
;

/// The members of an object, the later of two with one name counting.
pub open spec fn members(s: Seq<(String, Json)>) -> Map<Seq<char>, Tree>
    decreases s,
{
    if s.len() == 0 {
        Map::empty()
    } else {
        members(s.drop_last()).insert(s.last().0@, s.last().1.tree())
    }
}

impl Json {
    /// What this document says.
    pub open spec fn tree(self) -> Tree
        decreases self,
    {
        match self {
            Json::Null => Tree::Null,
            Json::Bool(b) => Tree::Bool(b),
            Json::Unsigned(n) => Tree::Int(n as int),
            Json::Signed(n) => Tree::Int(n as int),
            Json::Fractional(f) => Tree::Fractional(f@),
            Json::Text(s) => Tree::Text(s@),
            Json::Array(items) => Tree::Array(
                Seq::new(
                    items@.len(),
                    |i: int|
                        if 0 <= i < items@.len() {
                            items@[i].tree()
                        } else {
                            Tree::Null
                        },
                ),
            ),
            Json::Object(items) => Tree::Object(members(items@)),
        }
    }
}

/// Distinct names keep every member.
proof fn lemma_value_members(s: Seq<(String, serde_json::Value)>, i: int)
    requires
        0 <= i < s.len(),
        distinct_names(s),
    ensures
        value_members(s).contains_key(s[i].0@),
        value_members(s)[s[i].0@] == value_tree(s[i].1),
    decreases s.len(),
{
    if i < s.len() - 1 {
        let t = s.drop_last();
        assert(t[i] == s[i]);
        lemma_value_members(t, i);
        assert(s[i].0@ != s[s.len() - 1].0@);
    }
}

/// The library's form of a `serde_json` document.
pub fn json_of(v: serde_json::Value) -> (j: Json)
    ensures
        j.tree() == value_tree(v),
    decreases value_tree(v),
{
    match open_value(v) {
        Node::Null => Json::Null,
        Node::Bool(b) => Json::Bool(b),
        Node::Unsigned(n) => Json::Unsigned(n),
        Node::Signed(n) => Json::Signed(n),
        Node::Fractional(n) => Json::Fractional(Fraction { number: n }),
        Node::Text(s) => Json::Text(s),
        Node::Array(items) => {
            let ghost all = items@;
            let ghost whole = value_tree(v);
            let mut out: Vec<Json> = Vec::new();
            for item in it: items
                invariant
                    it.seq() == all,
                    whole == value_tree(v),
                    whole == Tree::Array(Seq::new(all.len(), |i: int| value_tree(all[i]))),
                    out@.len() == it.index(),
                    forall|k: int|
                        0 <= k < out@.len() ==> (#[trigger] out@[k]).tree() == value_tree(all[k]),
            {
                proof {
                    let k = it.index();
                    assert(whole->Array_0[k] == value_tree(all[k]));
                    assert(decreases_to!(whole => whole->Array_0));
                }
                out.push(json_of(item));
            }
            let j = Json::Array(out);
            assert(j.tree()->Array_0 =~= whole->Array_0);
            j
        },
        Node::Object(items) => {
            let ghost all = items@;
            let ghost whole = value_tree(v);
            let mut out: Vec<(String, Json)> = Vec::new();
            for item in it: items
                invariant
                    it.seq() == all,
                    whole == value_tree(v),
                    whole == Tree::Object(value_members(all)),
                    distinct_names(all),
                    out@.len() == it.index(),
                    members(out@) == value_members(all.take(it.index())),
            {
                let ghost k = it.index();
                proof {
                    lemma_value_members(all, k);
                    assert(decreases_to!(whole => whole->Object_0));
                    assert(whole->Object_0[all[k].0@] == value_tree(all[k].1));
                    assert(all.take(k + 1).drop_last() =~= all.take(k));
                    assert(all.take(k + 1).last() == all[k]);
                }
                let (name, value) = item;
                let ghost before = out@;
                out.push((name, json_of(value)));
                assert(out@.drop_last() =~= before);
            }
            assert(all.take(all.len() as int) =~= all);
            Json::Object(out)
        },
    }
}

/// A member put in the place of another of its name is the one that counts.
proof fn lemma_replaced(s: Seq<(String, serde_json::Value)>, k: int, item: (String, serde_json::Value))
    requires
        0 <= k < s.len(),
        distinct_names(s),
        s[k].0@ == item.0@,
    ensures
        distinct_names(s.update(k, item)),
        value_members(s.update(k, item)) == value_members(s).insert(item.0@, value_tree(item.1)),
    decreases s.len(),
{
    let t = s.update(k, item);
    let front = s.drop_last();
    assert forall|i: int, j: int| 0 <= i < j < t.len() implies (#[trigger] t[i]).0@ != (
    #[trigger] t[j]).0@ by {
        assert(s[i].0@ != s[j].0@);
    }
    if k == s.len() - 1 {
        assert(t.drop_last() =~= front);
    } else {
        assert forall|i: int, j: int| 0 <= i < j < front.len() implies (#[trigger] front[i]).0@ != (
        #[trigger] front[j]).0@ by {
            assert(s[i].0@ != s[j].0@);
        }
        lemma_replaced(front, k, item);
        assert(t.drop_last() =~= front.update(k, item));
        assert(s[k].0@ != s[s.len() - 1].0@);
    }
    assert(value_members(t) =~= value_members(s).insert(item.0@, value_tree(item.1)));
}

/// Put a member among members of distinct names, in place of one with the same
/// name.
fn place(members: &mut Vec<(String, serde_json::Value)>, name: String, value: serde_json::Value)
    requires
        distinct_names(old(members)@),
    ensures
        distinct_names(final(members)@),
        value_members(final(members)@) == value_members(old(members)@).insert(
            name@,
            value_tree(value),
        ),
{
    let ghost before = members@;
    let mut k: usize = 0;
    while k < members.len()
        invariant
            k <= members@.len(),
            members@ == before,
            before == old(members)@,
            distinct_names(before),
            forall|i: int| 0 <= i < k ==> (#[trigger] before[i]).0@ != name@,
        decreases members@.len() - k,
    {
        if text::same_text(members[k].0.as_str(), name.as_str()) {
            proof {
                lemma_replaced(before, k as int, (name, value));
            }
            members.set(k, (name, value));
            return;
        }
        k += 1;
    }
    members.push((name, value));
    assert(members@.drop_last() =~= before);
}

/// The `serde_json` form of a document. Of members of one name only the last
/// goes into it.
pub fn value_of(j: &Json) -> (v: serde_json::Value)
    ensures
        value_tree(v) == j.tree(),
    decreases *j,
{
    match j {
        Json::Null => close_value(Node::Null),
        Json::Bool(b) => close_value(Node::Bool(*b)),
        Json::Unsigned(n) => close_value(Node::Unsigned(*n)),
        Json::Signed(n) => close_value(Node::Signed(*n)),
        Json::Fractional(f) => {
            proof {
                use_type_invariant(f);
            }
            close_value(Node::Fractional(f.number.clone()))
        },
        Json::Text(s) => close_value(Node::Text(s.clone())),
        Json::Array(items) => {
            let mut out: Vec<serde_json::Value> = Vec::new();
            let mut i: usize = 0;
            while i < items.len()
                invariant
                    i <= items@.len(),
                    *j == Json::Array(*items),
                    out@.len() == i,
                    forall|k: int|
                        0 <= k < i ==> value_tree(#[trigger] out@[k]) == items@[k].tree(),
                decreases items@.len() - i,
            {
                assert(decreases_to!(*j => j->Array_0));
                assert(decreases_to!(items@ => items@[i as int]));
                out.push(value_of(&items[i]));
                i += 1;
            }
            let v = close_value(Node::Array(out));
            assert(value_tree(v)->Array_0 =~= j.tree()->Array_0);
            v
        },
        Json::Object(items) => {
            let mut out: Vec<(String, serde_json::Value)> = Vec::new();
            let mut i: usize = 0;
            while i < items.len()
                invariant
                    i <= items@.len(),
                    *j == Json::Object(*items),
                    distinct_names(out@),
                    value_members(out@) == members(items@.take(i as int)),
                decreases items@.len() - i,
            {
                assert(decreases_to!(*j => j->Object_0));
                assert(decreases_to!(items@ => items@[i as int]));
                assert(decreases_to!(items@[i as int] => items@[i as int].1));
                place(&mut out, items[i].0.clone(), value_of(&items[i].1));
                proof {
                    assert(items@.take(i + 1).drop_last() =~= items@.take(i as int));
                    assert(items@.take(i + 1).last() == items@[i as int]);
                }
                i += 1;
            }
            assert(items@.take(i as int) =~= items@);
            close_value(Node::Object(out))
        },
    }
}

/// Read a document out of bytes.
pub fn parse(bytes: &[u8]) -> (r: Result<Json, String>)
    ensures
        match r {
            Ok(j) => json_parse(bytes@) == Ok::<Tree, Seq<char>>(j.tree()),
            Err(e) => json_parse(bytes@) == Err::<Tree, Seq<char>>(e@),
        },
{
    match value_from_slice(bytes) {
        Ok(v) => Ok(json_of(v)),
        Err(e) => Err(e),
    }
}

/// Read a document out of a string.
pub fn parse_text(s: &str) -> (r: Result<Json, String>)
    ensures
        match r {
            Ok(j) => json_parse(encode_utf8(s@)) == Ok::<Tree, Seq<char>>(j.tree()),
            Err(e) => json_parse(encode_utf8(s@)) == Err::<Tree, Seq<char>>(e@),
        },
{
    parse(s.as_bytes())
}

/// Write a document as compact text.
pub fn write(j: &Json) -> (s: String)
    ensures
        s@ == json_text(j.tree()),
{
    let v = value_of(j);
    value_to_string(&v)
}

/// The member of a document under a name, when it is an object that has one.
pub open spec fn member(t: Tree, name: Seq<char>) -> Option<Tree> {
    match t {
        Tree::Object(m) => if m.contains_key(name) {
            Some(m[name])
        } else {
            None
        },
        _ => None,
    }
}

impl Json {
    /// The member under a name, when this is an object that has one.
    pub fn get(&self, name: &str) -> (r: Option<&Json>)
        ensures
            match r {
                Some(j) => member(self.tree(), name@) == Some(j.tree()) && decreases_to!(*self => *j),
                None => member(self.tree(), name@) is None,
            },
    {
        match self {
            Json::Object(items) => {
                let mut n: usize = items.len();
                assert(items@.take(n as int) =~= items@);
                while n > 0
                    invariant
                        n <= items@.len(),
                        *self == Json::Object(*items),
                        forall|k: int| n <= k < items@.len() ==> (#[trigger] items@[k]).0@ != name@,
                        members(items@).contains_key(name@) == members(
                            items@.take(n as int),
                        ).contains_key(name@),
                        members(items@).contains_key(name@) ==> members(items@)[name@] == members(
                            items@.take(n as int),
                        )[name@],
                    decreases n,
                {
                    proof {
                        assert(items@.take(n as int).drop_last() =~= items@.take(n - 1));
                        assert(items@.take(n as int).last() == items@[n - 1]);
                    }
                    if text::same_text(items[n - 1].0.as_str(), name) {
                        return Some(&items[n - 1].1);
                    }
                    n -= 1;
                }
                None
            },
            _ => None,
        }
    }

    /// A copy that says the same.
    pub fn copy(&self) -> (j: Json)
        ensures
            j.tree() == self.tree(),
        decreases *self,
    {
        match self {
            Json::Null => Json::Null,
            Json::Bool(b) => Json::Bool(*b),
            Json::Unsigned(n) => Json::Unsigned(*n),
            Json::Signed(n) => Json::Signed(*n),
            Json::Fractional(f) => Json::Fractional(f.copy()),
            Json::Text(s) => Json::Text(s.clone()),
            Json::Array(items) => {
                let mut out: Vec<Json> = Vec::new();
                let mut i: usize = 0;
                while i < items.len()
                    invariant
                        i <= items@.len(),
                        *self == Json::Array(*items),
                        out@.len() == i,
                        forall|k: int|
                            0 <= k < i ==> (#[trigger] out@[k]).tree() == items@[k].tree(),
                    decreases items@.len() - i,
                {
                    assert(decreases_to!(*self => self->Array_0));
                    assert(decreases_to!(items@ => items@[i as int]));
                    out.push(items[i].copy());
                    i += 1;
                }
                let j = Json::Array(out);
                assert(j.tree()->Array_0 =~= self.tree()->Array_0);
                j
            },
            Json::Object(items) => {
                let mut out: Vec<(String, Json)> = Vec::new();
                let mut i: usize = 0;
                while i < items.len()
                    invariant
                        i <= items@.len(),
                        *self == Json::Object(*items),
                        out@.len() == i,
                        members(out@) == members(items@.take(i as int)),
                    decreases items@.len() - i,
                {
                    let ghost before = out@;
                    assert(decreases_to!(*self => self->Object_0));
                    assert(decreases_to!(items@ => items@[i as int]));
                    assert(decreases_to!(items@[i as int] => items@[i as int].1));
                    out.push((items[i].0.clone(), items[i].1.copy()));
                    proof {
                        assert(out@.drop_last() =~= before);
                        assert(items@.take(i + 1).drop_last() =~= items@.take(i as int));
                        assert(items@.take(i + 1).last() == items@[i as int]);
                    }
                    i += 1;
                }
                assert(items@.take(i as int) =~= items@);
                Json::Object(out)
            },
        }
    }
}

/// Put a member into an object. Over one with the same name it counts, being the
/// later.
pub fn put(object: &mut Vec<(String, Json)>, name: String, value: Json)
    ensures
        members(final(object)@) == members(old(object)@).insert(name@, value.tree()),
{
    let ghost before = object@;
    object.push((name, value));
    assert(object@.drop_last() =~= before);
}

} // verus!
