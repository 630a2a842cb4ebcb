//! The response merger: splices a partial response into the global response
//! tree at a target path.
//!
//! A merge walks the target path from the tree root, then deep-merges the
//! partial value into the addressed subtree. A path that cannot be walked
//! records a failure and nulls the subtree at the deepest node reached, so
//! a failed branch degrades locally while unaffected siblings survive.
//! Successful merges are destructive only at the target subtree, which is
//! what lets path-disjoint merges commute.

use vstd::prelude::*;
use vstd::string::StringExecFns;
use crate::json::{
    Json, JsonV, clone_entries, clone_items, entries_view, first_key_index, items_view,
    json_clone, lemma_first_key_index, lemma_jview_array, lemma_jview_object, names_view,
    obj_has_key,
};
use crate::path::{Path, PathSegment, SegV};
use crate::error::{FetchError, FetchErrorV, fetch_errors_view};

verus! {

/// Whether an object has exactly one entry with key `k`: a duplicate key
/// makes the address ambiguous, so it is not followable.
pub open spec fn key_unique(es: Seq<(Seq<char>, JsonV)>, k: Seq<char>) -> bool {
    &&& obj_has_key(es, k)
    &&& forall|i: int, j: int|
        (0 <= i < es.len() && 0 <= j < es.len() && es[i].0 == k && es[j].0 == k) ==> i == j
}

/// Whether one navigation step from `t` along `s` reaches a child: a field
/// of an object held exactly once, or a list index in range. A
/// type-condition marker addresses query structure, never response
/// structure, so it reaches nothing.
pub open spec fn can_follow(t: JsonV, s: SegV) -> bool {
    match t {
        JsonV::Object(es) => match s {
            SegV::Field(k) => key_unique(es, k),
            _ => false,
        },
        JsonV::Array(items) => match s {
            SegV::Index(i) => 0 <= i < items.len(),
            _ => false,
        },
        _ => false,
    }
}

/// The child reached by one navigation step.
pub open spec fn child_of(t: JsonV, s: SegV) -> JsonV {
    match t {
        JsonV::Object(es) => match s {
            SegV::Field(k) => es[first_key_index(es, k)].1,
            _ => JsonV::Null,
        },
        JsonV::Array(items) => match s {
            SegV::Index(i) => items[i],
            _ => JsonV::Null,
        },
        _ => JsonV::Null,
    }
}

/// The tree with the child at one navigation step replaced by `c`; every
/// other part of the tree is untouched.
pub open spec fn with_child(t: JsonV, s: SegV, c: JsonV) -> JsonV {
    match t {
        JsonV::Object(es) => match s {
            SegV::Field(k) => JsonV::Object(
                Seq::new(
                    es.len(),
                    |i: int|
                        if es[i].0 == k {
                            (es[i].0, c)
                        } else {
                            es[i]
                        },
                ),
            ),
            _ => t,
        },
        JsonV::Array(items) => match s {
            SegV::Index(i) => JsonV::Array(items.update(i, c)),
            _ => t,
        },
        _ => t,
    }
}

/// Deep merge of object entries: each patch entry replaces or recursively
/// merges the first base entry with its key, or is appended.
pub open spec fn merge_entries(b: Seq<(Seq<char>, JsonV)>, p: Seq<(Seq<char>, JsonV)>) -> Seq<
    (Seq<char>, JsonV),
>
    decreases p, 0int,
{
    if p.len() == 0 {
        b
    } else {
        let k = p[0].0;
        let i = first_key_index(b, k);
        let b2 = if i == -1 {
            b.push(p[0])
        } else {
            b.update(i, (k, merge_value(b[i].1, p[0].1)))
        };
        merge_entries(b2, p.skip(1))
    }
}

/// Deep merge of a partial value into a base value: two objects merge
/// entry by entry; anything else is replaced by the patch.
pub open spec fn merge_value(base: JsonV, patch: JsonV) -> JsonV
    decreases patch, 1int,
{
    match patch {
        JsonV::Object(p) => match base {
            JsonV::Object(b) => JsonV::Object(merge_entries(b, p)),
            _ => patch,
        },
        _ => patch,
    }
}

/// Why one navigation step failed.
pub open spec fn seg_fail_reason(s: SegV) -> Seq<char> {
    match s {
        SegV::Field(k) => "no addressable field '"@ + k + "'"@,
        SegV::Index(i) => "no addressable list element"@,
        SegV::Fragment(k) => "type condition '"@ + k + "' does not address the response"@,
    }
}

/// Outcome of splicing a partial value into a tree.
#[verifier::ext_equal]
pub struct SpliceV {
    /// The updated tree.
    pub tree: JsonV,
    /// The reason the target path could not be walked, if it could not.
    pub err: Option<Seq<char>>,
}

/// Splice `v` into `t` at `path`: walk the path, deep-merge at its end. If
/// a step cannot be followed, the subtree at the deepest node reached
/// becomes null and the failure is reported.
pub open spec fn splice(t: JsonV, path: Seq<SegV>, v: JsonV) -> SpliceV
    decreases path.len(),
{
    if path.len() == 0 {
        SpliceV { tree: merge_value(t, v), err: None }
    } else if can_follow(t, path[0]) {
        let sub = splice(child_of(t, path[0]), path.skip(1), v);
        SpliceV { tree: with_child(t, path[0], sub.tree), err: sub.err }
    } else {
        SpliceV { tree: JsonV::Null, err: Some(seg_fail_reason(path[0])) }
    }
}

/// A step that replaces a child changes no key and no length, so it
/// changes what any step can reach in neither direction.
proof fn lemma_follow_stable(t: JsonV, s: SegV, c: JsonV, s2: SegV)
    requires
        can_follow(t, s),
    ensures
        can_follow(with_child(t, s, c), s2) == can_follow(t, s2),
{
    match t {
        JsonV::Object(es) => {
            let es2 = with_child(t, s, c)->Object_0;
            assert(es2.len() == es.len());
            assert(forall|i: int| 0 <= i < es.len() ==> es2[i].0 == es[i].0);
            match s2 {
                SegV::Field(k2) => {
                    assert(obj_has_key(es2, k2) == obj_has_key(es, k2)) by {
                        if obj_has_key(es, k2) {
                            let w = choose|i: int| 0 <= i < es.len() && es[i].0 == k2;
                            assert(es2[w].0 == k2);
                        }
                        if obj_has_key(es2, k2) {
                            let w = choose|i: int| 0 <= i < es2.len() && es2[i].0 == k2;
                            assert(es[w].0 == k2);
                        }
                    }
                },
                _ => {},
            }
        },
        _ => {},
    }
}

/// `first_key_index` depends only on the keys.
proof fn lemma_first_key_index_same_keys(
    a: Seq<(Seq<char>, JsonV)>,
    b: Seq<(Seq<char>, JsonV)>,
    k: Seq<char>,
)
    requires
        a.len() == b.len(),
        forall|i: int| 0 <= i < a.len() ==> a[i].0 == b[i].0,
    ensures
        first_key_index(a, k) == first_key_index(b, k),
    decreases a.len(),
{
    if a.len() == 0 {
    } else if a[0].0 == k {
    } else {
        assert(forall|j: int| 0 <= j < a.skip(1).len() ==> a.skip(1)[j] == a[j + 1]);
        assert(forall|j: int| 0 <= j < b.skip(1).len() ==> b.skip(1)[j] == b[j + 1]);
        lemma_first_key_index_same_keys(a.skip(1), b.skip(1), k);
    }
}

/// After replacing the child at `s`, the step at `s` reaches the new child.
proof fn lemma_child_after_same(t: JsonV, s: SegV, c: JsonV)
    requires
        can_follow(t, s),
    ensures
        child_of(with_child(t, s, c), s) == c,
{
    match t {
        JsonV::Object(es) => {
            let k = s->Field_0;
            let es2 = with_child(t, s, c)->Object_0;
            lemma_first_key_index_same_keys(es2, es, k);
            crate::json::lemma_first_key_index(es, k);
            let i = first_key_index(es, k);
            assert(es2[i] == (es[i].0, c));
        },
        _ => {},
    }
}

/// After replacing the child at `s`, a step at any other segment reaches
/// what it reached before.
proof fn lemma_child_after_other(t: JsonV, s: SegV, c: JsonV, s2: SegV)
    requires
        can_follow(t, s),
        can_follow(t, s2),
        s != s2,
    ensures
        child_of(with_child(t, s, c), s2) == child_of(t, s2),
{
    match t {
        JsonV::Object(es) => {
            let k = s->Field_0;
            let k2 = s2->Field_0;
            let es2 = with_child(t, s, c)->Object_0;
            lemma_first_key_index_same_keys(es2, es, k2);
            crate::json::lemma_first_key_index(es, k2);
            let i = first_key_index(es, k2);
            assert(es[i].0 == k2);
            assert(k != k2);
            assert(es2[i] == es[i]);
        },
        _ => {},
    }
}

/// Replacements at two different segments touch different parts of the
/// tree, so they commute.
proof fn lemma_with_child_commutes(t: JsonV, s: SegV, c: JsonV, s2: SegV, c2: JsonV)
    requires
        can_follow(t, s),
        can_follow(t, s2),
        s != s2,
    ensures
        with_child(with_child(t, s, c), s2, c2) == with_child(with_child(t, s2, c2), s, c),
{
    match t {
        JsonV::Object(es) => {
            let a = with_child(with_child(t, s, c), s2, c2);
            let b = with_child(with_child(t, s2, c2), s, c);
            assert(a->Object_0 =~= b->Object_0);
        },
        JsonV::Array(items) => {
            let a = with_child(with_child(t, s, c), s2, c2);
            let b = with_child(with_child(t, s2, c2), s, c);
            assert(a->Array_0 =~= b->Array_0);
        },
        _ => {},
    }
}

/// A second replacement at the same segment overwrites the first.
proof fn lemma_with_child_collapses(t: JsonV, s: SegV, c: JsonV, c2: JsonV)
    requires
        can_follow(t, s),
    ensures
        with_child(with_child(t, s, c), s, c2) == with_child(t, s, c2),
{
    match t {
        JsonV::Object(es) => {
            let a = with_child(with_child(t, s, c), s, c2);
            let b = with_child(t, s, c2);
            assert(a->Object_0 =~= b->Object_0);
        },
        JsonV::Array(items) => {
            let a = with_child(with_child(t, s, c), s, c2);
            let b = with_child(t, s, c2);
            assert(a->Array_0 =~= b->Array_0);
        },
        _ => {},
    }
}

/// Law: merges at disjoint paths commute. For every tree and every two
/// target paths of which neither is a prefix of the other, splicing a
/// partial value at the one and then a partial value at the other yields
/// the same tree as splicing in the reverse order.
pub proof fn lemma_disjoint_merge_commutes(
    t: JsonV,
    p1: Seq<SegV>,
    v1: JsonV,
    p2: Seq<SegV>,
    v2: JsonV,
)
    requires
        crate::path::disjoint_paths(p1, p2),
    ensures
        splice(splice(t, p1, v1).tree, p2, v2).tree == splice(splice(t, p2, v2).tree, p1, v1).tree,
    decreases p1.len(),
{
    assert(p1.len() > 0) by {
        if p1.len() == 0 {
            assert(p1 =~= p2.subrange(0, 0));
        }
    }
    assert(p2.len() > 0) by {
        if p2.len() == 0 {
            assert(p2 =~= p1.subrange(0, 0));
        }
    }
    let s1 = p1[0];
    let s2 = p2[0];
    if s1 == s2 {
        let q1 = p1.skip(1);
        let q2 = p2.skip(1);
        assert(crate::path::disjoint_paths(q1, q2)) by {
            if q1.is_prefix_of(q2) {
                assert forall|i: int| 0 <= i < p1.len() implies p1[i] == p2.subrange(
                    0,
                    p1.len() as int,
                )[i] by {
                    if i > 0 {
                        assert(q1[i - 1] == q2.subrange(0, q1.len() as int)[i - 1]);
                        assert(q1[i - 1] == q2[i - 1]);
                        assert(q1[i - 1] == p1[i]);
                        assert(q2[i - 1] == p2[i]);
                    }
                }
                assert(p1 =~= p2.subrange(0, p1.len() as int));
            }
            if q2.is_prefix_of(q1) {
                assert forall|i: int| 0 <= i < p2.len() implies p2[i] == p1.subrange(
                    0,
                    p2.len() as int,
                )[i] by {
                    if i > 0 {
                        assert(q2[i - 1] == q1.subrange(0, q2.len() as int)[i - 1]);
                        assert(q2[i - 1] == q1[i - 1]);
                        assert(q2[i - 1] == p2[i]);
                        assert(q1[i - 1] == p1[i]);
                    }
                }
                assert(p2 =~= p1.subrange(0, p2.len() as int));
            }
        }
        if can_follow(t, s1) {
            let c = child_of(t, s1);
            let a = splice(c, q1, v1).tree;
            let b = splice(c, q2, v2).tree;
            lemma_disjoint_merge_commutes(c, q1, v1, q2, v2);
            lemma_follow_stable(t, s1, a, s1);
            lemma_child_after_same(t, s1, a);
            lemma_with_child_collapses(t, s1, a, splice(a, q2, v2).tree);
            lemma_follow_stable(t, s1, b, s1);
            lemma_child_after_same(t, s1, b);
            lemma_with_child_collapses(t, s1, b, splice(b, q1, v1).tree);
        } else {
            assert(splice(t, p1, v1).tree == JsonV::Null);
            assert(splice(t, p2, v2).tree == JsonV::Null);
            assert(!can_follow(JsonV::Null, s1));
            assert(!can_follow(JsonV::Null, s2));
        }
    } else {
        if can_follow(t, s1) && can_follow(t, s2) {
            let a = splice(child_of(t, s1), p1.skip(1), v1).tree;
            let b = splice(child_of(t, s2), p2.skip(1), v2).tree;
            lemma_follow_stable(t, s1, a, s2);
            lemma_child_after_other(t, s1, a, s2);
            lemma_follow_stable(t, s2, b, s1);
            lemma_child_after_other(t, s2, b, s1);
            lemma_with_child_commutes(t, s1, a, s2, b);
        } else if can_follow(t, s1) {
            let a = splice(child_of(t, s1), p1.skip(1), v1).tree;
            lemma_follow_stable(t, s1, a, s2);
            assert(!can_follow(JsonV::Null, s1));
        } else if can_follow(t, s2) {
            let b = splice(child_of(t, s2), p2.skip(1), v2).tree;
            lemma_follow_stable(t, s2, b, s1);
            assert(!can_follow(JsonV::Null, s2));
        } else {
            assert(!can_follow(JsonV::Null, s1));
            assert(!can_follow(JsonV::Null, s2));
        }
    }
}

/// The subtree addressed by `path`, or nothing when the path cannot be
/// walked.
pub open spec fn read_at(t: JsonV, path: Seq<SegV>) -> Option<JsonV>
    decreases path.len(),
{
    if path.len() == 0 {
        Some(t)
    } else if can_follow(t, path[0]) {
        read_at(child_of(t, path[0]), path.skip(1))
    } else {
        None
    }
}

/// Law: a merge that walked its whole target path is destructive only at
/// the target's subtree. Every disjoint path reads the same value before
/// and after, so when one of several path-disjoint branches fails, the
/// trees the others produced survive untouched.
pub proof fn lemma_splice_preserves_disjoint_read(
    t: JsonV,
    p1: Seq<SegV>,
    p2: Seq<SegV>,
    v2: JsonV,
)
    requires
        crate::path::disjoint_paths(p1, p2),
        splice(t, p2, v2).err is None,
    ensures
        read_at(splice(t, p2, v2).tree, p1) == read_at(t, p1),
    decreases p1.len(),
{
    assert(p1.len() > 0) by {
        if p1.len() == 0 {
            assert(p1 =~= p2.subrange(0, 0));
        }
    }
    assert(p2.len() > 0) by {
        if p2.len() == 0 {
            assert(p2 =~= p1.subrange(0, 0));
        }
    }
    let s1 = p1[0];
    let s2 = p2[0];
    assert(can_follow(t, s2));
    let c2 = child_of(t, s2);
    let sub = splice(c2, p2.skip(1), v2);
    if s1 == s2 {
        let q1 = p1.skip(1);
        let q2 = p2.skip(1);
        assert(crate::path::disjoint_paths(q1, q2)) by {
            if q1.is_prefix_of(q2) {
                assert forall|i: int| 0 <= i < p1.len() implies p1[i] == p2.subrange(
                    0,
                    p1.len() as int,
                )[i] by {
                    if i > 0 {
                        assert(q1[i - 1] == q2.subrange(0, q1.len() as int)[i - 1]);
                        assert(q1[i - 1] == q2[i - 1]);
                        assert(q1[i - 1] == p1[i]);
                        assert(q2[i - 1] == p2[i]);
                    }
                }
                assert(p1 =~= p2.subrange(0, p1.len() as int));
            }
            if q2.is_prefix_of(q1) {
                assert forall|i: int| 0 <= i < p2.len() implies p2[i] == p1.subrange(
                    0,
                    p2.len() as int,
                )[i] by {
                    if i > 0 {
                        assert(q2[i - 1] == q1.subrange(0, q2.len() as int)[i - 1]);
                        assert(q2[i - 1] == q1[i - 1]);
                        assert(q2[i - 1] == p2[i]);
                        assert(q1[i - 1] == p1[i]);
                    }
                }
                assert(p2 =~= p1.subrange(0, p2.len() as int));
            }
        }
        lemma_follow_stable(t, s2, sub.tree, s1);
        lemma_child_after_same(t, s2, sub.tree);
        lemma_splice_preserves_disjoint_read(c2, q1, q2, v2);
    } else {
        lemma_follow_stable(t, s2, sub.tree, s1);
        if can_follow(t, s1) {
            lemma_child_after_other(t, s2, sub.tree, s1);
        }
    }
}

/// Law: a merge that walked its whole target path leaves exactly the
/// deep-merged value at the target. Splicing a null there, as a failed
/// branch does, leaves exactly a null subtree at that path.
pub proof fn lemma_splice_read_at_target(t: JsonV, p: Seq<SegV>, v: JsonV)
    requires
        splice(t, p, v).err is None,
    ensures
        read_at(t, p) is Some,
        read_at(splice(t, p, v).tree, p) == Some(merge_value(read_at(t, p)->Some_0, v)),
    decreases p.len(),
{
    if p.len() == 0 {
    } else {
        let s = p[0];
        assert(can_follow(t, s));
        let c = child_of(t, s);
        let sub = splice(c, p.skip(1), v);
        lemma_follow_stable(t, s, sub.tree, s);
        lemma_child_after_same(t, s, sub.tree);
        lemma_splice_read_at_target(c, p.skip(1), v);
    }
}

/// A merge walks its whole target path exactly when the path is readable.
pub proof fn lemma_splice_err_iff_unreadable(t: JsonV, p: Seq<SegV>, v: JsonV)
    ensures
        (splice(t, p, v).err is None) <==> (read_at(t, p) is Some),
    decreases p.len(),
{
    if p.len() == 0 {
    } else if can_follow(t, p[0]) {
        lemma_splice_err_iff_unreadable(child_of(t, p[0]), p.skip(1), v);
    }
}

/// Null out the subtree at `target`: what remains of a branch whose fetch
/// failed.
pub fn null_out(tree: &Json, target: &Path) -> (r: Json)
    ensures
        r@ == splice(tree@, target@, JsonV::Null).tree,
{
    proof {
        assert(target@.skip(0) =~= target@);
    }
    let nullv = Json::Null;
    let sub = splice_rec(tree, target, 0, &nullv);
    sub.0
}

/// Position of the first entry of `es` whose key is `k`, if any.
#[verifier::loop_isolation(false)]
pub(crate) fn find_first_key(es: &Vec<(String, Json)>, k: &String) -> (r: Option<usize>)
    ensures
        match r {
            Some(i) => first_key_index(entries_view(es@), k@) == i as int && (i as int) < es@.len(),
            None => first_key_index(entries_view(es@), k@) == -1,
        },
{
    let ghost ev = entries_view(es@);
    let mut i: usize = 0;
    while i < es.len()
        invariant
            i <= es.len(),
            forall|j: int| 0 <= j < i ==> ev[j].0 != k@,
        decreases es.len() - i,
    {
        if es[i].0 == *k {
            proof {
                assert(ev[i as int].0 == k@);
                lemma_first_key_index(ev, k@);
            }
            return Some(i);
        }
        i += 1;
    }
    proof {
        lemma_first_key_index(ev, k@);
    }
    None
}

/// Position of the only entry of `es` whose key is `k`: `None` when the key
/// is absent or held more than once.
#[verifier::loop_isolation(false)]
fn find_unique_key(es: &Vec<(String, Json)>, k: &String) -> (r: Option<usize>)
    ensures
        match r {
            Some(i) => key_unique(entries_view(es@), k@) && first_key_index(entries_view(es@), k@)
                == i as int && (i as int) < es@.len(),
            None => !key_unique(entries_view(es@), k@),
        },
{
    let ghost ev = entries_view(es@);
    let mut found: Option<usize> = None;
    let mut i: usize = 0;
    while i < es.len()
        invariant
            i <= es.len(),
            match found {
                Some(f) => (f as int) < i && ev[f as int].0 == k@ && forall|j: int|
                    0 <= j < i && j != f ==> ev[j].0 != k@,
                None => forall|j: int| 0 <= j < i ==> ev[j].0 != k@,
            },
        decreases es.len() - i,
    {
        if es[i].0 == *k {
            match found {
                Some(f) => {
                    proof {
                        assert(ev[f as int].0 == k@ && ev[i as int].0 == k@ && f as int != i as int);
                    }
                    return None;
                },
                None => {
                    found = Some(i);
                },
            }
        }
        i += 1;
    }
    match found {
        Some(f) => {
            proof {
                lemma_first_key_index(ev, k@);
            }
            Some(f)
        },
        None => {
            proof {
                assert(!obj_has_key(ev, k@));
            }
            None
        },
    }
}

/// Deep merge of a partial value into a base value, as `merge_value` says.
#[verifier::loop_isolation(false)]
pub fn merge_value_exec(base: &Json, patch: &Json) -> (r: Json)
    ensures
        r@ == merge_value(base@, patch@),
    decreases patch,
{
    match (base, patch) {
        (Json::Object(b), Json::Object(p)) => {
            proof {
                lemma_jview_object(*b);
                lemma_jview_object(*p);
            }
            let ghost bv = entries_view(b@);
            let ghost pv = entries_view(p@);
            let mut acc = clone_entries(b);
            proof {
                assert(pv.skip(0) =~= pv);
            }
            let mut i: usize = 0;
            while i < p.len()
                invariant
                    i <= p.len(),
                    merge_entries(entries_view(acc@), pv.skip(i as int)) == merge_entries(bv, pv),
                decreases p.len() - i,
            {
                let ghost acc0 = entries_view(acc@);
                proof {
                    assert(pv.skip(i as int)[0] == pv[i as int]);
                    assert(pv.skip(i as int).skip(1) =~= pv.skip(i as int + 1));
                }
                match find_first_key(&acc, &p[i].0) {
                    Some(ix) => {
                        proof {
                            assert(decreases_to!(*patch => (*patch)->Object_0));
                            assert(decreases_to!((*patch)->Object_0 => (*patch)->Object_0@));
                            assert(decreases_to!((*patch)->Object_0@ => (*patch)->Object_0@[i as int]));
                            assert(decreases_to!((*patch)->Object_0@[i as int] => (*patch)->Object_0@[i as int].1));
                        }
                        let merged = merge_value_exec(&acc[ix].1, &p[i].1);
                        acc.set(ix, (p[i].0.clone(), merged));
                        proof {
                            assert(entries_view(acc@) =~= acc0.update(
                                ix as int,
                                (pv[i as int].0, merge_value(acc0[ix as int].1, pv[i as int].1)),
                            ));
                        }
                    },
                    None => {
                        acc.push((p[i].0.clone(), json_clone(&p[i].1)));
                        proof {
                            assert(entries_view(acc@) =~= acc0.push(pv[i as int]));
                        }
                    },
                }
                i += 1;
            }
            proof {
                assert(pv.skip(p@.len() as int) =~= Seq::<(Seq<char>, JsonV)>::empty());
            }
            let r = Json::Object(acc);
            proof {
                lemma_jview_object(r->Object_0);
            }
            r
        },
        _ => json_clone(patch),
    }
}

/// The reason a field step failed.
fn field_fail_reason(k: &String) -> (r: String)
    ensures
        r@ == seg_fail_reason(SegV::Field(k@)),
{
    let mut m = String::from_str("no addressable field '");
    m.append(k.as_str());
    m.append("'");
    m
}

/// The reason a type-condition step failed.
fn fragment_fail_reason(k: &String) -> (r: String)
    ensures
        r@ == seg_fail_reason(SegV::Fragment(k@)),
{
    let mut m = String::from_str("type condition '");
    m.append(k.as_str());
    m.append("' does not address the response");
    m
}

/// Walk `path` from depth `d` and splice `v` there, as `splice` says.
#[verifier::loop_isolation(false)]
fn splice_rec(t: &Json, path: &Path, d: usize, v: &Json) -> (r: (Json, Option<String>))
    requires
        d <= path@.len(),
    ensures
        ({
            let s = splice(t@, path@.skip(d as int), v@);
            &&& r.0@ == s.tree
            &&& match r.1 {
                Some(m) => s.err == Some(m@),
                None => s.err is None,
            }
        }),
    decreases path@.len() - d,
{
    if d == path.segments.len() {
        proof {
            assert(path@.skip(d as int) =~= Seq::<SegV>::empty());
        }
        (merge_value_exec(t, v), None)
    } else {
        let ghost rest = path@.skip(d as int);
        proof {
            assert(rest[0] == path@[d as int]);
            assert(path@[d as int] == path.segments@[d as int]@);
            assert(rest.skip(1) =~= path@.skip(d as int + 1));
        }
        match &path.segments[d] {
            PathSegment::Field(k) => match t {
                Json::Object(es) => {
                    proof {
                        lemma_jview_object(*es);
                    }
                    match find_unique_key(es, k) {
                        Some(ix) => {
                            let sub = splice_rec(&es[ix].1, path, d + 1, v);
                            let mut out = clone_entries(es);
                            out.set(ix, (k.clone(), sub.0));
                            let rr = Json::Object(out);
                            proof {
                                lemma_jview_object(rr->Object_0);
                                let ev = entries_view(es@);
                                lemma_first_key_index(ev, k@);
                                assert(entries_view(out@) =~= with_child(t@, SegV::Field(k@), sub.0@)->Object_0);
                            }
                            (rr, sub.1)
                        },
                        None => (Json::Null, Some(field_fail_reason(k))),
                    }
                },
                _ => (Json::Null, Some(field_fail_reason(k))),
            },
            PathSegment::Index(ix) => match t {
                Json::Array(items) => {
                    if *ix < items.len() {
                        proof {
                            lemma_jview_array(*items);
                        }
                        let sub = splice_rec(&items[*ix], path, d + 1, v);
                        let mut out = clone_items(items);
                        out.set(*ix, sub.0);
                        let rr = Json::Array(out);
                        proof {
                            lemma_jview_array(rr->Array_0);
                            assert(items_view(out@) =~= items_view(items@).update(*ix as int, sub.0@));
                        }
                        (rr, sub.1)
                    } else {
                        (Json::Null, Some(String::from_str("no addressable list element")))
                    }
                },
                _ => (Json::Null, Some(String::from_str("no addressable list element"))),
            },
            PathSegment::Fragment(k) => (Json::Null, Some(fragment_fail_reason(k))),
        }
    }
}

/// Whether the partial value holds a top-level field named `n`.
pub open spec fn required_present(p: JsonV, n: Seq<char>) -> bool {
    match p {
        JsonV::Object(es) => obj_has_key(es, n),
        _ => false,
    }
}

/// The required field names the partial value does not hold, in order.
pub open spec fn missing_required(p: JsonV, req: Seq<Seq<char>>) -> Seq<Seq<char>>
    decreases req.len(),
{
    if req.len() == 0 {
        Seq::empty()
    } else {
        let rest = missing_required(p, req.skip(1));
        if required_present(p, req[0]) {
            rest
        } else {
            seq![req[0]] + rest
        }
    }
}

/// The required field names the partial value does not hold.
#[verifier::loop_isolation(false)]
fn missing_required_exec(p: &Json, req: &Vec<String>) -> (r: Vec<String>)
    ensures
        names_view(r@) == missing_required(p@, names_view(req@)),
{
    let ghost rv = names_view(req@);
    let mut out: Vec<String> = Vec::new();
    proof {
        assert(rv.skip(0) =~= rv);
        assert(names_view(out@) =~= Seq::<Seq<char>>::empty());
        assert(names_view(out@) + missing_required(p@, rv) =~= missing_required(p@, rv));
    }
    let mut i: usize = 0;
    while i < req.len()
        invariant
            i <= req.len(),
            missing_required(p@, rv) == names_view(out@) + missing_required(p@, rv.skip(i as int)),
        decreases req.len() - i,
    {
        let ghost out0 = names_view(out@);
        proof {
            assert(rv.skip(i as int)[0] == rv[i as int]);
            assert(rv.skip(i as int).skip(1) =~= rv.skip(i as int + 1));
        }
        let present: bool = match p {
            Json::Object(es) => {
                proof {
                    lemma_jview_object(*es);
                    lemma_first_key_index(entries_view(es@), req@[i as int]@);
                }
                match find_first_key(es, &req[i]) {
                    Some(_) => true,
                    None => false,
                }
            },
            _ => false,
        };
        if !present {
            out.push(req[i].clone());
            proof {
                assert(names_view(out@) =~= out0 + seq![rv[i as int]]);
                assert(names_view(out@) + missing_required(p@, rv.skip(i as int + 1)) =~= out0 + (
                seq![rv[i as int]] + missing_required(p@, rv.skip(i as int + 1))));
            }
        }
        i += 1;
    }
    proof {
        assert(rv.skip(req@.len() as int) =~= Seq::<Seq<char>>::empty());
        assert(names_view(out@) + Seq::<Seq<char>>::empty() =~= names_view(out@));
    }
    out
}

/// What a merge yields: the updated tree and the failures recorded. A
/// partial value missing a required field is not merged: the target
/// subtree is nulled and each missing field is reported. Otherwise the
/// value is spliced at the target path; a path that cannot be walked nulls
/// the subtree at the deepest node reached and is reported.
pub open spec fn merge_model(t: JsonV, path: Seq<SegV>, v: JsonV, req: Seq<Seq<char>>) -> (
    JsonV,
    Seq<FetchErrorV>,
) {
    let miss = missing_required(v, req);
    if miss.len() > 0 {
        (
            splice(t, path, JsonV::Null).tree,
            Seq::new(miss.len(), |i: int| FetchErrorV::ExecutionFieldNotFound { field: miss[i] }),
        )
    } else {
        let s = splice(t, path, v);
        (
            s.tree,
            match s.err {
                Some(m) => seq![FetchErrorV::ExecutionPathNotFound { reason: m }],
                None => Seq::empty(),
            },
        )
    }
}

/// Splice a partial response into the tree at the target path, checking
/// first that every field the subquery requires is present. Returns the
/// updated tree and the failures recorded; on failure the affected subtree
/// is nulled and unaffected siblings are untouched.
#[verifier::loop_isolation(false)]
pub fn merge(tree: &Json, target: &Path, partial: &Json, required: &Vec<String>) -> (r: (
    Json,
    Vec<FetchError>,
))
    ensures
        ({
            let m = merge_model(tree@, target@, partial@, names_view(required@));
            &&& r.0@ == m.0
            &&& fetch_errors_view(r.1@) == m.1
        }),
{
    proof {
        assert(target@.skip(0) =~= target@);
    }
    let miss = missing_required_exec(partial, required);
    if miss.len() > 0 {
        let nullv = Json::Null;
        let sub = splice_rec(tree, target, 0, &nullv);
        let mut errs: Vec<FetchError> = Vec::new();
        let mut i: usize = 0;
        while i < miss.len()
            invariant
                i <= miss.len(),
                errs@.len() == i as int,
                forall|j: int| 0 <= j < i ==> errs@[j]@ == (FetchErrorV::ExecutionFieldNotFound {
                    field: names_view(miss@)[j],
                }),
            decreases miss.len() - i,
        {
            errs.push(FetchError::ExecutionFieldNotFound { field: miss[i].clone() });
            i += 1;
        }
        proof {
            let m = merge_model(tree@, target@, partial@, names_view(required@));
            assert(fetch_errors_view(errs@) =~= m.1);
        }
        (sub.0, errs)
    } else {
        proof {
            assert(names_view(miss@) =~= Seq::<Seq<char>>::empty());
        }
        let sub = splice_rec(tree, target, 0, partial);
        let mut errs: Vec<FetchError> = Vec::new();
        match sub.1 {
            Some(reason) => {
                errs.push(FetchError::ExecutionPathNotFound { reason });
            },
            None => {},
        }
        proof {
            let m = merge_model(tree@, target@, partial@, names_view(required@));
            assert(missing_required(partial@, names_view(required@)).len() == 0);
            assert(fetch_errors_view(errs@) =~= m.1);
        }
        (sub.0, errs)
    }
}

} // verus!
