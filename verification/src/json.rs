//! JSON-like response values: the data model of the response tree.
//!
//! `Json` is the executable representation; `JsonV` is its mathematical
//! model, used by every contract in the crate. Objects keep their entries as
//! an ordered list of key/value pairs.

use vstd::prelude::*;

verus! {

/// Mathematical model of a JSON-like value.
#[verifier::ext_equal]
pub enum JsonV {
    Null,
    Bool(bool),
    Number(int),
    Str(Seq<char>),
    Array(Seq<JsonV>),
    Object(Seq<(Seq<char>, JsonV)>),
}

/// A JSON-like value: the accumulated `data` of a response, or a fragment of
/// it. Numbers are integral: the gateway routes integral scalars and treats
/// anything else as opaque text.
#[derive(Debug)]
pub enum Json {
    Null,
    Bool(bool),
    Number(i64),
    Str(String),
    Array(Vec<Json>),
    Object(Vec<(String, Json)>),
}

/// Model of an executable value.
pub open spec fn jview(j: Json) -> JsonV
    decreases j,
{
    match j {
        Json::Null => JsonV::Null,
        Json::Bool(b) => JsonV::Bool(b),
        Json::Number(n) => JsonV::Number(n as int),
        Json::Str(s) => JsonV::Str(s@),
        Json::Array(v) => JsonV::Array(
            Seq::new(
                v@.len(),
                |i: int|
                    if 0 <= i < v@.len() {
                        jview(v@[i])
                    } else {
                        JsonV::Null
                    },
            ),
        ),
        Json::Object(v) => JsonV::Object(
            Seq::new(
                v@.len(),
                |i: int|
                    if 0 <= i < v@.len() {
                        (v@[i].0@, jview(v@[i].1))
                    } else {
                        (Seq::empty(), JsonV::Null)
                    },
            ),
        ),
    }
}

impl View for Json {
    type V = JsonV;

    open spec fn view(&self) -> JsonV {
        jview(*self)
    }
}

/// Model of a list of object entries.
pub open spec fn entries_view(v: Seq<(String, Json)>) -> Seq<(Seq<char>, JsonV)> {
    Seq::new(v.len(), |i: int| (v[i].0@, jview(v[i].1)))
}

/// The model of an object value is the model of its entry list.
pub proof fn lemma_jview_object(v: Vec<(String, Json)>)
    ensures
        jview(Json::Object(v)) == JsonV::Object(entries_view(v@)),
{
    assert(jview(Json::Object(v))->Object_0 =~= entries_view(v@));
}

/// Model of a list of array elements.
pub open spec fn items_view(v: Seq<Json>) -> Seq<JsonV> {
    Seq::new(v.len(), |i: int| jview(v[i]))
}

/// The model of an array value is the model of its element list.
pub proof fn lemma_jview_array(v: Vec<Json>)
    ensures
        jview(Json::Array(v)) == JsonV::Array(items_view(v@)),
{
    assert(jview(Json::Array(v))->Array_0 =~= items_view(v@));
}

/// Model of a list of names.
pub open spec fn names_view(v: Seq<String>) -> Seq<Seq<char>> {
    Seq::new(v.len(), |i: int| v[i]@)
}

/// Whether an object with these entries has the key `k`.
pub open spec fn obj_has_key(entries: Seq<(Seq<char>, JsonV)>, k: Seq<char>) -> bool {
    exists|i: int| 0 <= i < entries.len() && entries[i].0 == k
}

/// Position of the first entry whose key is `k`, or `-1` when no entry has
/// that key.
pub open spec fn first_key_index(entries: Seq<(Seq<char>, JsonV)>, k: Seq<char>) -> int
    decreases entries.len(),
{
    if entries.len() == 0 {
        -1
    } else if entries[0].0 == k {
        0
    } else {
        let r = first_key_index(entries.skip(1), k);
        if r == -1 {
            -1
        } else {
            r + 1
        }
    }
}

/// The value stored under key `k`, going by the first entry with that key.
pub open spec fn obj_get(entries: Seq<(Seq<char>, JsonV)>, k: Seq<char>) -> Option<JsonV> {
    let i = first_key_index(entries, k);
    if i == -1 {
        None
    } else {
        Some(entries[i].1)
    }
}

/// What `first_key_index` finds: a well-placed entry with key `k`, before
/// which no entry has that key; or `-1` exactly when no entry has the key.
pub proof fn lemma_first_key_index(entries: Seq<(Seq<char>, JsonV)>, k: Seq<char>)
    ensures
        first_key_index(entries, k) == -1 <==> !obj_has_key(entries, k),
        first_key_index(entries, k) != -1 ==> {
            let r = first_key_index(entries, k);
            &&& 0 <= r < entries.len()
            &&& entries[r].0 == k
            &&& forall|j: int| 0 <= j < r ==> entries[j].0 != k
        },
    decreases entries.len(),
{
    if entries.len() == 0 {
    } else if entries[0].0 == k {
    } else {
        let rest = entries.skip(1);
        lemma_first_key_index(rest, k);
        assert(forall|j: int| 0 <= j < rest.len() ==> rest[j] == entries[j + 1]);
        if obj_has_key(entries, k) {
            let w = choose|i: int| 0 <= i < entries.len() && entries[i].0 == k;
            assert(rest[w - 1].0 == k);
            assert(obj_has_key(rest, k));
        }
        if obj_has_key(rest, k) {
            let w = choose|i: int| 0 <= i < rest.len() && rest[i].0 == k;
            assert(entries[w + 1].0 == k);
            assert(obj_has_key(entries, k));
        }
        if first_key_index(entries, k) != -1 {
            let r = first_key_index(entries, k);
            assert(entries[r].0 == rest[r - 1].0);
            assert forall|j: int| 0 <= j < r implies entries[j].0 != k by {
                if j >= 1 {
                    assert(entries[j].0 == rest[j - 1].0);
                }
            }
        }
    }
}

/// Deep copy of a value, with the same model.
#[verifier::loop_isolation(false)]
pub fn json_clone(j: &Json) -> (r: Json)
    ensures
        r@ == j@,
    decreases j,
{
    match j {
        Json::Null => Json::Null,
        Json::Bool(b) => Json::Bool(*b),
        Json::Number(n) => Json::Number(*n),
        Json::Str(s) => Json::Str(s.clone()),
        Json::Array(v) => {
            let mut out: Vec<Json> = Vec::new();
            let mut i: usize = 0;
            while i < v.len()
                invariant
                    i <= v.len(),
                    out@.len() == i as int,
                    forall|q: int| 0 <= q < i ==> out@[q]@ == v@[q]@,
                decreases v.len() - i,
            {
                proof {
                    assert(decreases_to!(*j => (*j)->Array_0));
                    assert(decreases_to!((*j)->Array_0 => (*j)->Array_0@));
                    assert(decreases_to!((*j)->Array_0@ => (*j)->Array_0@[i as int]));
                    assert((*j)->Array_0@[i as int] == v@[i as int]);
                }
                out.push(json_clone(&v[i]));
                i += 1;
            }
            let r = Json::Array(out);
            proof {
                assert(r@->Array_0 =~= j@->Array_0);
                assert(r@ =~= j@);
            }
            r
        },
        Json::Object(v) => {
            let mut out: Vec<(String, Json)> = Vec::new();
            let mut i: usize = 0;
            while i < v.len()
                invariant
                    i <= v.len(),
                    out@.len() == i as int,
                    forall|q: int| 0 <= q < i ==> out@[q].0@ == v@[q].0@ && out@[q].1@ == v@[q].1@,
                decreases v.len() - i,
            {
                proof {
                    assert(decreases_to!(*j => (*j)->Object_0));
                    assert(decreases_to!((*j)->Object_0 => (*j)->Object_0@));
                    assert(decreases_to!((*j)->Object_0@ => (*j)->Object_0@[i as int]));
                    assert(decreases_to!((*j)->Object_0@[i as int] => (*j)->Object_0@[i as int].1));
                    assert((*j)->Object_0@[i as int].1 == v@[i as int].1);
                }
                out.push((v[i].0.clone(), json_clone(&v[i].1)));
                i += 1;
            }
            let r = Json::Object(out);
            proof {
                assert(r@->Object_0 =~= j@->Object_0);
                assert(r@ =~= j@);
            }
            r
        },
    }
}

/// Structural equality of two values, decided exactly: two values are
/// equal when their models are.
#[verifier::loop_isolation(false)]
pub fn json_eq(a: &Json, b: &Json) -> (r: bool)
    ensures
        r == (a@ == b@),
    decreases a,
{
    match (a, b) {
        (Json::Null, Json::Null) => true,
        (Json::Bool(x), Json::Bool(y)) => *x == *y,
        (Json::Number(x), Json::Number(y)) => *x == *y,
        (Json::Str(x), Json::Str(y)) => *x == *y,
        (Json::Array(x), Json::Array(y)) => {
            if x.len() != y.len() {
                proof {
                    assert(a@->Array_0.len() != b@->Array_0.len());
                }
                return false;
            }
            let mut i: usize = 0;
            while i < x.len()
                invariant
                    i <= x.len(),
                    forall|q: int| 0 <= q < i ==> x@[q]@ == y@[q]@,
                decreases x.len() - i,
            {
                proof {
                    assert(decreases_to!(*a => (*a)->Array_0));
                    assert(decreases_to!((*a)->Array_0 => (*a)->Array_0@));
                    assert(decreases_to!((*a)->Array_0@ => (*a)->Array_0@[i as int]));
                    assert((*a)->Array_0@[i as int] == x@[i as int]);
                }
                if !json_eq(&x[i], &y[i]) {
                    proof {
                        assert(a@->Array_0[i as int] != b@->Array_0[i as int]);
                    }
                    return false;
                }
                i += 1;
            }
            proof {
                assert(a@->Array_0 =~= b@->Array_0);
                assert(a@ =~= b@);
            }
            true
        },
        (Json::Object(x), Json::Object(y)) => {
            if x.len() != y.len() {
                proof {
                    assert(a@->Object_0.len() != b@->Object_0.len());
                }
                return false;
            }
            let mut i: usize = 0;
            while i < x.len()
                invariant
                    i <= x.len(),
                    forall|q: int| 0 <= q < i ==> x@[q].0@ == y@[q].0@ && x@[q].1@ == y@[q].1@,
                decreases x.len() - i,
            {
                if !(x[i].0 == y[i].0) {
                    proof {
                        assert(a@->Object_0[i as int].0 != b@->Object_0[i as int].0);
                    }
                    return false;
                }
                proof {
                    assert(decreases_to!(*a => (*a)->Object_0));
                    assert(decreases_to!((*a)->Object_0 => (*a)->Object_0@));
                    assert(decreases_to!((*a)->Object_0@ => (*a)->Object_0@[i as int]));
                    assert(decreases_to!((*a)->Object_0@[i as int] => (*a)->Object_0@[i as int].1));
                    assert((*a)->Object_0@[i as int].1 == x@[i as int].1);
                }
                if !json_eq(&x[i].1, &y[i].1) {
                    proof {
                        assert(a@->Object_0[i as int].1 != b@->Object_0[i as int].1);
                    }
                    return false;
                }
                i += 1;
            }
            proof {
                assert(a@->Object_0 =~= b@->Object_0);
                assert(a@ =~= b@);
            }
            true
        },
        _ => false,
    }
}

/// Copy of a list of array elements, with the same model.
pub fn clone_items(v: &Vec<Json>) -> (r: Vec<Json>)
    ensures
        items_view(r@) == items_view(v@),
{
    let mut out: Vec<Json> = Vec::new();
    let mut i: usize = 0;
    while i < v.len()
        invariant
            i <= v.len(),
            out@.len() == i as int,
            forall|q: int| 0 <= q < i ==> out@[q]@ == v@[q]@,
        decreases v.len() - i,
    {
        out.push(json_clone(&v[i]));
        i += 1;
    }
    proof {
        assert(items_view(out@) =~= items_view(v@));
    }
    out
}

/// Copy of a list of object entries, with the same model.
pub fn clone_entries(v: &Vec<(String, Json)>) -> (r: Vec<(String, Json)>)
    ensures
        entries_view(r@) == entries_view(v@),
{
    let mut out: Vec<(String, Json)> = Vec::new();
    let mut i: usize = 0;
    while i < v.len()
        invariant
            i <= v.len(),
            out@.len() == i as int,
            forall|q: int| 0 <= q < i ==> out@[q].0@ == v@[q].0@ && out@[q].1@ == v@[q].1@,
        decreases v.len() - i,
    {
        out.push((v[i].0.clone(), json_clone(&v[i].1)));
        i += 1;
    }
    proof {
        assert(entries_view(out@) =~= entries_view(v@));
    }
    out
}

} // verus!
