//! Selecting paths out of a JSON document.

use vstd::prelude::*;
use vstd::string::*;
use vstd::utf8::*;

use crate::json;
use crate::json::{Json, Tree};
use crate::text;
use crate::types::DocumentError;
use crate::wire;

verus! {

/// What a document holds under a path of names.
pub open spec fn lookup(t: Tree, path: Seq<Seq<char>>) -> Option<Tree>
    decreases path.len(),
{
    if path.len() == 0 {
        Some(t)
    } else {
        match json::member(t, path[0]) {
            Some(u) => lookup(u, path.drop_first()),
            None => None,
        }
    }
}

/// The members of a document, if it is an object; none otherwise.
pub open spec fn members_of(t: Option<Tree>) -> Map<Seq<char>, Tree> {
    match t {
        Some(Tree::Object(m)) => m,
        _ => Map::empty(),
    }
}

/// Members with a value put under a path, making the objects on the way.
pub open spec fn graft(m: Map<Seq<char>, Tree>, path: Seq<Seq<char>>, value: Tree) -> Map<
    Seq<char>,
    Tree,
>
    decreases path.len(),
{
    if path.len() == 0 {
        m
    } else if path.len() == 1 {
        m.insert(path[0], value)
    } else {
        let inner = members_of(json::member(Tree::Object(m), path[0]));
        m.insert(path[0], Tree::Object(graft(inner, path.drop_first(), value)))
    }
}

/// The names that a dotted path is made of.
pub open spec fn names(path: Seq<char>) -> Seq<Seq<char>> {
    text::split(path, '.')
}

/// The members that paths select out of a document. A path that leads nowhere
/// selects nothing: absent and present-but-null are different answers.
pub open spec fn selected(doc: Tree, paths: Seq<Seq<char>>) -> Map<Seq<char>, Tree>
    decreases paths.len(),
{
    if paths.len() == 0 {
        Map::empty()
    } else {
        let front = selected(doc, paths.drop_last());
        match lookup(doc, names(paths.last())) {
            Some(value) => graft(front, names(paths.last()), value),
            None => front,
        }
    }
}

/// Whether a document is part of another: the same, or an object whose members
/// are parts of the other's.
pub open spec fn part_of(a: Tree, b: Tree) -> bool
    decreases a,
{
    a == b || match (a, b) {
        (Tree::Object(m), Tree::Object(n)) => forall|k: Seq<char>| #[trigger]
            m.contains_key(k) ==> n.contains_key(k) && part_of(m[k], n[k]),
        _ => false,
    }
}

proof fn lemma_graft(m: Map<Seq<char>, Tree>, path: Seq<Seq<char>>, doc: Tree, value: Tree)
    requires
        path.len() > 0,
        part_of(Tree::Object(m), doc),
        lookup(doc, path) == Some(value),
    ensures
        part_of(Tree::Object(graft(m, path, value)), doc),
        lookup(Tree::Object(graft(m, path, value)), path) == Some(value),
    decreases path.len(),
{
    let g = graft(m, path, value);
    let name = path[0];
    let rest = path.drop_first();
    assert(doc is Object);
    let n = doc->Object_0;
    assert(n.contains_key(name));
    assert forall|k: Seq<char>| #[trigger] m.contains_key(k) implies n.contains_key(k) && part_of(
        m[k],
        n[k],
    ) by {}
    if path.len() == 1 {
        assert(lookup(n[name], rest) == Some(value));
        assert(n[name] == value);
        assert(g[name] == value);
        assert(lookup(Tree::Object(g), path) == lookup(value, rest));
    } else {
        let inner = members_of(json::member(Tree::Object(m), name));
        assert(lookup(n[name], rest) == Some(value));
        assert(n[name] is Object);
        assert(part_of(Tree::Object(inner), n[name])) by {
            if m.contains_key(name) {
                assert(part_of(m[name], n[name]));
                assert(m[name] is Object);
            }
        }
        lemma_graft(inner, rest, n[name], value);
        assert(g[name] == Tree::Object(graft(inner, rest, value)));
    }
    assert forall|k: Seq<char>| #[trigger] g.contains_key(k) implies n.contains_key(k) && part_of(
        g[k],
        n[k],
    ) by {
        if k != name {
            assert(m.contains_key(k));
            assert(g[k] == m[k]);
        }
    }
}

proof fn lemma_graft_same(m: Map<Seq<char>, Tree>, path: Seq<Seq<char>>, value: Tree)
    requires
        path.len() > 0,
        lookup(Tree::Object(m), path) == Some(value),
    ensures
        graft(m, path, value) == m,
    decreases path.len(),
{
    let name = path[0];
    let rest = path.drop_first();
    if path.len() == 1 {
        assert(lookup(m[name], rest) == Some(value));
        assert(graft(m, path, value) =~= m);
    } else {
        assert(lookup(m[name], rest) == Some(value));
        assert(m[name] is Object);
        lemma_graft_same(m[name]->Object_0, rest, value);
        assert(graft(m, path, value) =~= m);
    }
}

proof fn lemma_graft_keeps(
    m: Map<Seq<char>, Tree>,
    path: Seq<Seq<char>>,
    doc: Tree,
    value: Tree,
    other: Seq<Seq<char>>,
    kept: Tree,
)
    requires
        path.len() > 0,
        other.len() > 0,
        part_of(Tree::Object(m), doc),
        lookup(doc, path) == Some(value),
        lookup(doc, other) == Some(kept),
        lookup(Tree::Object(m), other) == Some(kept),
    ensures
        lookup(Tree::Object(graft(m, path, value)), other) == Some(kept),
    decreases path.len(),
{
    let g = graft(m, path, value);
    let n = doc->Object_0;
    let name = path[0];
    let rest = path.drop_first();
    if other[0] == name {
        let other_rest = other.drop_first();
        assert(m.contains_key(name));
        assert(lookup(m[name], other_rest) == Some(kept));
        assert(lookup(n[name], other_rest) == Some(kept));
        assert(lookup(n[name], rest) == Some(value));
        if path.len() == 1 {
            assert(n[name] == value);
            assert(g[name] == value);
        } else {
            assert(part_of(m[name], n[name])) by {
                assert(doc is Object);
            }
            assert(n[name] is Object);
            assert(m[name] is Object);
            let inner = m[name]->Object_0;
            assert(g[name] == Tree::Object(graft(inner, rest, value)));
            if other_rest.len() == 0 {
                assert(m[name] == kept && n[name] == kept);
                lemma_graft_same(inner, rest, value);
            } else {
                lemma_graft_keeps(inner, rest, n[name], value, other_rest, kept);
            }
        }
    } else {
        assert(g.contains_key(other[0]) && g[other[0]] == m[other[0]]);
    }
}

proof fn lemma_part_lookup(a: Tree, b: Tree, path: Seq<Seq<char>>)
    requires
        part_of(a, b),
        lookup(a, path) is Some,
    ensures
        lookup(b, path) is Some,
    decreases path.len(),
{
    if path.len() > 0 && a != b {
        let m = a->Object_0;
        let n = b->Object_0;
        assert(m.contains_key(path[0]));
        lemma_part_lookup(m[path[0]], n[path[0]], path.drop_first());
    }
}

/// A projection of an object is part of it, and holds under each path exactly
/// what the document holds there: the same value, or nothing.
pub proof fn lemma_projection_is_faithful(doc: Tree, paths: Seq<Seq<char>>)
    requires
        doc is Object,
    ensures
        part_of(Tree::Object(selected(doc, paths)), doc),
        forall|i: int|
            0 <= i < paths.len() ==> lookup(
                Tree::Object(selected(doc, paths)),
                names(#[trigger] paths[i]),
            ) == lookup(doc, names(paths[i])),
    decreases paths.len(),
{
    let whole = Tree::Object(selected(doc, paths));
    if paths.len() > 0 {
        let front = paths.drop_last();
        lemma_projection_is_faithful(doc, front);
        let m = selected(doc, front);
        let path = names(paths.last());
        text::lemma_split_nonempty(paths.last(), '.');
        if let Some(value) = lookup(doc, path) {
            lemma_graft(m, path, doc, value);
        }
        assert forall|i: int| 0 <= i < paths.len() implies lookup(whole, names(#[trigger] paths[i]))
            == lookup(doc, names(paths[i])) by {
            let other = names(paths[i]);
            if let Some(kept) = lookup(doc, other) {
                if i < front.len() {
                    assert(front[i] == paths[i]);
                    if let Some(value) = lookup(doc, path) {
                        text::lemma_split_nonempty(paths[i], '.');
                        lemma_graft_keeps(m, path, doc, value, other, kept);
                    }
                }
            } else if lookup(whole, other) is Some {
                lemma_part_lookup(whole, doc, other);
            }
        }
    }
}

proof fn lemma_graft_adds(
    m: Map<Seq<char>, Tree>,
    path: Seq<Seq<char>>,
    value: Tree,
    at: Seq<Seq<char>>,
)
    requires
        path.len() > 0,
        at.len() > 0,
        lookup(Tree::Object(graft(m, path, value)), at) is Some,
    ensures
        lookup(Tree::Object(m), at) is Some || path.is_prefix_of(at) || at.is_prefix_of(path),
    decreases path.len(),
{
    let g = graft(m, path, value);
    let name = path[0];
    let rest = path.drop_first();
    let at_rest = at.drop_first();
    if at[0] != name {
        assert(g.contains_key(at[0]) && g[at[0]] == m[at[0]]);
        assert(m.contains_key(at[0]));
    } else if path.len() == 1 {
        assert(path.is_prefix_of(at));
    } else if at.len() == 1 {
        assert(at.is_prefix_of(path));
    } else {
        let inner = members_of(json::member(Tree::Object(m), name));
        assert(g[name] == Tree::Object(graft(inner, rest, value)));
        lemma_graft_adds(inner, rest, value, at_rest);
        if lookup(Tree::Object(inner), at_rest) is Some {
            assert(inner.contains_key(at_rest[0]));
            assert(m.contains_key(name) && m[name] == Tree::Object(inner));
        } else if rest.is_prefix_of(at_rest) {
            assert forall|i: int| 0 <= i < path.len() implies path[i] == at[i] by {
                if i > 0 {
                    assert(rest[i - 1] == at_rest[i - 1]);
                }
            }
            assert(path.is_prefix_of(at));
        } else {
            assert forall|i: int| 0 <= i < at.len() implies path[i] == at[i] by {
                if i > 0 {
                    assert(rest[i - 1] == at_rest[i - 1]);
                }
            }
            assert(at.is_prefix_of(path));
        }
    }
}

/// Whether a value has nothing below it.
pub open spec fn is_leaf(t: Tree) -> bool {
    match t {
        Tree::Object(m) => forall|k: Seq<char>| !#[trigger] m.contains_key(k),
        _ => true,
    }
}

proof fn lemma_below(t: Tree, at: Seq<Seq<char>>, path: Seq<Seq<char>>)
    requires
        at.is_prefix_of(path),
        at.len() < path.len(),
        lookup(t, at) is Some,
        lookup(t, path) is Some,
    ensures
        !is_leaf(lookup(t, at)->0),
    decreases at.len(),
{
    if at.len() > 0 {
        assert(at[0] == path[0]);
        let m = t->Object_0;
        assert forall|i: int| 0 <= i < at.len() - 1 implies at.drop_first()[i]
            == path.drop_first()[i] by {
            assert(at[i + 1] == path[i + 1]);
        }
        assert(at.drop_first().is_prefix_of(path.drop_first()));
        lemma_below(m[path[0]], at.drop_first(), path.drop_first());
    } else {
        assert(t->Object_0.contains_key(path[0]));
    }
}

/// A place in a projection lies at, under or on the way to one of the paths.
proof fn lemma_on_a_path(doc: Tree, paths: Seq<Seq<char>>, at: Seq<Seq<char>>) -> (i: int)
    requires
        at.len() > 0,
        lookup(Tree::Object(selected(doc, paths)), at) is Some,
    ensures
        0 <= i < paths.len(),
        lookup(doc, names(paths[i])) is Some,
        names(paths[i]).is_prefix_of(at) || at.is_prefix_of(names(paths[i])),
    decreases paths.len(),
{
    if paths.len() == 0 {
        assert(!Map::<Seq<char>, Tree>::empty().contains_key(at[0]));
        0
    } else {
        let front = paths.drop_last();
        let m = selected(doc, front);
        let path = names(paths.last());
        text::lemma_split_nonempty(paths.last(), '.');
        if lookup(Tree::Object(m), at) is Some {
            let i = lemma_on_a_path(doc, front, at);
            assert(front[i] == paths[i]);
            i
        } else {
            lemma_graft_adds(m, path, lookup(doc, path)->0, at);
            paths.len() - 1
        }
    }
}

/// Nothing comes along that was not asked for: every leaf of a projection lies
/// at or under one of the paths.
pub proof fn lemma_projection_adds_nothing(
    doc: Tree,
    paths: Seq<Seq<char>>,
    at: Seq<Seq<char>>,
)
    requires
        doc is Object,
        at.len() > 0,
        lookup(Tree::Object(selected(doc, paths)), at) matches Some(t) && is_leaf(t),
    ensures
        exists|i: int|
            0 <= i < paths.len() && (#[trigger] names(paths[i])).is_prefix_of(at) && lookup(
                doc,
                names(paths[i]),
            ) is Some,
{
    let whole = Tree::Object(selected(doc, paths));
    let i = lemma_on_a_path(doc, paths, at);
    let path = names(paths[i]);
    if !path.is_prefix_of(at) {
        lemma_projection_is_faithful(doc, paths);
        assert(lookup(whole, path) is Some);
        assert(at.len() < path.len()) by {
            if at.len() == path.len() {
                assert(at =~= path);
            }
        }
        lemma_below(whole, at, path);
    }
}

/// A copy of what a document holds under a path of names.
fn find(doc: &Json, path: &Vec<Vec<char>>) -> (r: Option<Json>)
    ensures
        match r {
            Some(j) => lookup(doc.tree(), text::views(path@)) == Some(j.tree()),
            None => lookup(doc.tree(), text::views(path@)) is None,
        },
{
    let ghost all = text::views(path@);
    let mut node: &Json = doc;
    let mut i: usize = 0;
    assert(all.skip(0) =~= all);
    while i < path.len()
        invariant
            i <= path@.len(),
            all == text::views(path@),
            lookup(doc.tree(), all) == lookup(node.tree(), all.skip(i as int)),
        decreases path@.len() - i,
    {
        let name = text::string_of(path[i].as_slice());
        proof {
            assert(all.skip(i as int)[0] == name@);
            assert(all.skip(i as int).drop_first() =~= all.skip(i + 1));
        }
        match node.get(name.as_str()) {
            Some(next) => {
                node = next;
            },
            None => {
                return None;
            },
        }
        i += 1;
    }
    Some(node.copy())
}

/// An object with a value put under the names from `at` on.
fn put_path(
    object: Vec<(String, Json)>,
    path: &Vec<Vec<char>>,
    at: usize,
    value: Json,
) -> (out: Vec<(String, Json)>)
    requires
        at < path@.len(),
    ensures
        json::members(out@) == graft(
            json::members(object@),
            text::views(path@).skip(at as int),
            value.tree(),
        ),
    decreases path@.len() - at,
{
    let ghost rest = text::views(path@).skip(at as int);
    let mut object = object;
    let name = text::string_of(path[at].as_slice());
    assert(rest[0] == name@);
    if path.len() - at == 1 {
        json::put(&mut object, name, value);
        return object;
    }
    assert(rest.drop_first() =~= text::views(path@).skip(at + 1));
    let whole = Json::Object(object);
    let found = match whole.get(name.as_str()) {
        Some(found) => found.copy(),
        None => Json::Null,
    };
    let inner: Vec<(String, Json)> = match found {
        Json::Object(items) => items,
        _ => Vec::new(),
    };
    assert(json::members(inner@) =~= members_of(json::member(whole.tree(), name@)));
    let inner = put_path(inner, path, at + 1, value);
    let mut items: Vec<(String, Json)> = match whole {
        Json::Object(items) => items,
        _ => Vec::new(),
    };
    json::put(&mut items, name, Json::Object(inner));
    items
}

/// Select paths out of a parsed document, rebuilding the nesting so that the
/// result is a subset of the shape of the document.
pub fn select(doc: &Json, paths: &[String]) -> (out: Json)
    ensures
        out.tree() == Tree::Object(selected(doc.tree(), text::texts(paths@))),
{
    let ghost all = text::texts(paths@);
    let mut object: Vec<(String, Json)> = Vec::new();
    let mut i: usize = 0;
    assert(all.take(0).len() == 0);
    assert(json::members(object@) =~= Map::empty());
    while i < paths.len()
        invariant
            i <= paths@.len(),
            all == text::texts(paths@),
            json::members(object@) == selected(doc.tree(), all.take(i as int)),
        decreases paths@.len() - i,
    {
        let cs = text::chars_of(paths[i].as_str());
        let path = text::split_char(cs.as_slice(), '.');
        proof {
            assert(all.take(i + 1).drop_last() =~= all.take(i as int));
            assert(all.take(i + 1).last() == paths@[i as int]@);
            assert(text::views(path@).skip(0) =~= text::views(path@));
        }
        match find(doc, &path) {
            Some(value) => {
                object = put_path(object, &path, 0, value);
            },
            None => {},
        }
        i += 1;
    }
    assert(all.take(i as int) =~= all);
    Json::Object(object)
}

/// The bytes of a projected document, or that the document is not JSON.
pub open spec fn projection(document: Seq<u8>, paths: Seq<Seq<char>>) -> Option<Seq<u8>> {
    match json::json_parse(document) {
        Ok(parsed) => Some(
            encode_utf8(json::json_text(Tree::Object(selected(parsed, paths)))),
        ),
        Err(_) => None,
    }
}

/// Select `paths` out of the bytes of a JSON document.
pub fn project(document: &[u8], paths: &[String]) -> (r: Result<Vec<u8>, DocumentError>)
    ensures
        match r {
            Ok(bytes) => projection(document@, text::texts(paths@)) == Some(bytes@),
            Err(e) => projection(document@, text::texts(paths@)) is None && e == DocumentError::NotJson,
        },
{
    match json::parse(document) {
        Ok(parsed) => {
            let out = select(&parsed, paths);
            let written = json::write(&out);
            Ok(wire::copy_bytes(written.as_str().as_bytes()))
        },
        Err(_) => Err(DocumentError::NotJson),
    }
}

} // verus!
