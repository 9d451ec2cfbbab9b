//! The generic tree value that a document parses into, and its depth measure.

use vstd::prelude::*;

verus! {

/// A parsed document: a sum over the null value, booleans, numbers, strings,
/// ordered arrays and ordered objects. Numbers are carried as their canonical
/// text form, since every leaf is stringified when the tree is flattened.
pub enum Json {
    Null,
    Bool(bool),
    Number(String),
    Text(String),
    Array(Vec<Json>),
    Object(Vec<(String, Json)>),
}

/// The greater of two naturals.
pub open spec fn nat_max(a: nat, b: nat) -> nat {
    if a >= b {
        a
    } else {
        b
    }
}

/// Nesting depth of a tree value: scalars and empty containers have depth 1,
/// a non-empty container is one deeper than its deepest direct child.
pub open spec fn depth(v: Json) -> nat
    decreases v, 0int,
{
    match v {
        Json::Null => 1,
        Json::Bool(_) => 1,
        Json::Number(_) => 1,
        Json::Text(_) => 1,
        Json::Array(elems) => if elems@.len() == 0 {
            1
        } else {
            1 + arr_depth(elems@, elems@.len() as int)
        },
        Json::Object(fields) => if fields@.len() == 0 {
            1
        } else {
            1 + obj_depth(fields@, fields@.len() as int)
        },
    }
}

/// Greatest depth among the first `i` elements of an array.
pub open spec fn arr_depth(elems: Seq<Json>, i: int) -> nat
    decreases elems, i,
{
    if i <= 0 || elems.len() < i {
        0
    } else {
        nat_max(arr_depth(elems, i - 1), depth(elems[i - 1]))
    }
}

/// Greatest depth among the values of the first `i` fields of an object.
pub open spec fn obj_depth(fields: Seq<(String, Json)>, i: int) -> nat
    decreases fields, i,
{
    if i <= 0 || fields.len() < i {
        0
    } else {
        nat_max(obj_depth(fields, i - 1), depth(fields[i - 1].1))
    }
}

pub proof fn lemma_depth_pos(v: Json)
    ensures
        depth(v) >= 1,
{
}

/// Each array element counted so far is no deeper than the running maximum.
pub proof fn lemma_arr_depth_child(elems: Seq<Json>, i: int, j: int)
    requires
        0 <= j < i <= elems.len(),
    ensures
        depth(elems[j]) <= arr_depth(elems, i),
    decreases i,
{
    if j < i - 1 {
        lemma_arr_depth_child(elems, i - 1, j);
    }
}

/// Each object field value counted so far is no deeper than the running maximum.
pub proof fn lemma_obj_depth_child(fields: Seq<(String, Json)>, i: int, j: int)
    requires
        0 <= j < i <= fields.len(),
    ensures
        depth(fields[j].1) <= obj_depth(fields, i),
    decreases i,
{
    if j < i - 1 {
        lemma_obj_depth_child(fields, i - 1, j);
    }
}

/// Whether two values have the same structural nesting: scalars of any kind
/// match each other, containers match containers of the same kind and length
/// whose corresponding children match. Key names and scalar contents are
/// ignored.
pub open spec fn same_shape(a: Json, b: Json) -> bool
    decreases a, 0int,
{
    match (a, b) {
        (Json::Array(x), Json::Array(y)) => x@.len() == y@.len() && arr_same_shape(
            x@,
            y@,
            x@.len() as int,
        ),
        (Json::Object(x), Json::Object(y)) => x@.len() == y@.len() && obj_same_shape(
            x@,
            y@,
            x@.len() as int,
        ),
        (Json::Array(_), _) => false,
        (_, Json::Array(_)) => false,
        (Json::Object(_), _) => false,
        (_, Json::Object(_)) => false,
        _ => true,
    }
}

/// Whether the first `i` elements of two arrays match pairwise in shape.
pub open spec fn arr_same_shape(x: Seq<Json>, y: Seq<Json>, i: int) -> bool
    decreases x, i,
{
    if i <= 0 || x.len() < i || y.len() < i {
        true
    } else {
        arr_same_shape(x, y, i - 1) && same_shape(x[i - 1], y[i - 1])
    }
}

/// Whether the first `i` field values of two objects match pairwise in shape.
pub open spec fn obj_same_shape(x: Seq<(String, Json)>, y: Seq<(String, Json)>, i: int) -> bool
    decreases x, i,
{
    if i <= 0 || x.len() < i || y.len() < i {
        true
    } else {
        obj_same_shape(x, y, i - 1) && same_shape(x[i - 1].1, y[i - 1].1)
    }
}

/// Depth depends only on structural nesting, never on key names, scalar
/// kinds or scalar contents: values of the same shape have the same depth.
pub proof fn lemma_depth_same_shape(a: Json, b: Json)
    requires
        same_shape(a, b),
    ensures
        depth(a) == depth(b),
    decreases a, 0int,
{
    match (a, b) {
        (Json::Array(x), Json::Array(y)) => {
            lemma_arr_depth_same_shape(x@, y@, x@.len() as int);
        },
        (Json::Object(x), Json::Object(y)) => {
            lemma_obj_depth_same_shape(x@, y@, x@.len() as int);
        },
        _ => {},
    }
}

proof fn lemma_arr_depth_same_shape(x: Seq<Json>, y: Seq<Json>, i: int)
    requires
        x.len() == y.len(),
        i <= x.len(),
        arr_same_shape(x, y, i),
    ensures
        arr_depth(x, i) == arr_depth(y, i),
    decreases x, i,
{
    if i <= 0 {
    } else {
        lemma_arr_depth_same_shape(x, y, i - 1);
        lemma_depth_same_shape(x[i - 1], y[i - 1]);
    }
}

proof fn lemma_obj_depth_same_shape(x: Seq<(String, Json)>, y: Seq<(String, Json)>, i: int)
    requires
        x.len() == y.len(),
        i <= x.len(),
        obj_same_shape(x, y, i),
    ensures
        obj_depth(x, i) == obj_depth(y, i),
    decreases x, i,
{
    if i <= 0 {
    } else {
        lemma_obj_depth_same_shape(x, y, i - 1);
        lemma_depth_same_shape(x[i - 1].1, y[i - 1].1);
    }
}

/// The running maximum is attained by one of the elements counted so far.
proof fn lemma_arr_depth_achieved(elems: Seq<Json>, i: int)
    requires
        0 < i <= elems.len(),
    ensures
        exists|j: int| 0 <= j < i && depth(#[trigger] elems[j]) == arr_depth(elems, i),
    decreases i,
{
    if i == 1 {
        lemma_depth_pos(elems[0]);
        assert(arr_depth(elems, 0) == 0);
        assert(depth(elems[0]) == arr_depth(elems, 1));
    } else {
        lemma_arr_depth_achieved(elems, i - 1);
        if arr_depth(elems, i) == depth(elems[i - 1]) {
        } else {
            assert(arr_depth(elems, i) == arr_depth(elems, i - 1));
        }
    }
}

/// The running maximum is attained by one of the field values counted so far.
proof fn lemma_obj_depth_achieved(fields: Seq<(String, Json)>, i: int)
    requires
        0 < i <= fields.len(),
    ensures
        exists|j: int| 0 <= j < i && depth((#[trigger] fields[j]).1) == obj_depth(fields, i),
    decreases i,
{
    if i == 1 {
        lemma_depth_pos(fields[0].1);
        assert(obj_depth(fields, 0) == 0);
        assert(depth(fields[0].1) == obj_depth(fields, 1));
    } else {
        lemma_obj_depth_achieved(fields, i - 1);
        if obj_depth(fields, i) == depth(fields[i - 1].1) {
        } else {
            assert(obj_depth(fields, i) == obj_depth(fields, i - 1));
        }
    }
}

proof fn lemma_arr_depth_le(x: Seq<Json>, y: Seq<Json>)
    requires
        x.len() > 0,
        y.len() > 0,
        forall|e: Json| x.contains(e) ==> y.contains(e),
    ensures
        arr_depth(x, x.len() as int) <= arr_depth(y, y.len() as int),
{
    lemma_arr_depth_achieved(x, x.len() as int);
    let j = choose|j: int| 0 <= j < x.len() && depth(#[trigger] x[j]) == arr_depth(
        x,
        x.len() as int,
    );
    assert(x.contains(x[j]));
    let k = choose|k: int| 0 <= k < y.len() && y[k] == x[j];
    lemma_arr_depth_child(y, y.len() as int, k);
}

proof fn lemma_obj_depth_le(x: Seq<(String, Json)>, y: Seq<(String, Json)>)
    requires
        x.len() > 0,
        y.len() > 0,
        forall|e: (String, Json)| x.contains(e) ==> y.contains(e),
    ensures
        obj_depth(x, x.len() as int) <= obj_depth(y, y.len() as int),
{
    lemma_obj_depth_achieved(x, x.len() as int);
    let j = choose|j: int| 0 <= j < x.len() && depth((#[trigger] x[j]).1) == obj_depth(
        x,
        x.len() as int,
    );
    assert(x.contains(x[j]));
    let k = choose|k: int| 0 <= k < y.len() && y[k] == x[j];
    lemma_obj_depth_child(y, y.len() as int, k);
}

/// Depth does not depend on the order in which a container's children are
/// iterated: an array holding the same elements in another order, or an
/// object holding the same fields in another order, has the same depth.
pub proof fn lemma_depth_order_irrelevant(a: Json, b: Json)
    requires
        (a matches Json::Array(x) && b matches Json::Array(y) && x@.to_multiset()
            == y@.to_multiset()) || (a matches Json::Object(x) && b matches Json::Object(y)
            && x@.to_multiset() == y@.to_multiset()),
    ensures
        depth(a) == depth(b),
{
    match (a, b) {
        (Json::Array(x), Json::Array(y)) => {
            let xs = x@;
            let ys = y@;
            xs.to_multiset_ensures();
            ys.to_multiset_ensures();
            assert(xs.len() == ys.len());
            if xs.len() > 0 {
                assert forall|e: Json| xs.contains(e) implies ys.contains(e) by {
                    assert(xs.to_multiset().count(e) > 0);
                }
                assert forall|e: Json| ys.contains(e) implies xs.contains(e) by {
                    assert(ys.to_multiset().count(e) > 0);
                }
                lemma_arr_depth_le(xs, ys);
                lemma_arr_depth_le(ys, xs);
            }
        },
        (Json::Object(x), Json::Object(y)) => {
            let xs = x@;
            let ys = y@;
            xs.to_multiset_ensures();
            ys.to_multiset_ensures();
            assert(xs.len() == ys.len());
            if xs.len() > 0 {
                assert forall|e: (String, Json)| xs.contains(e) implies ys.contains(e) by {
                    assert(xs.to_multiset().count(e) > 0);
                }
                assert forall|e: (String, Json)| ys.contains(e) implies xs.contains(e) by {
                    assert(ys.to_multiset().count(e) > 0);
                }
                lemma_obj_depth_le(xs, ys);
                lemma_obj_depth_le(ys, xs);
            }
        },
        _ => {
            assert(false);
        },
    }
}

/// Nesting depth of a tree value, computed executably.
pub fn count_depth(v: &Json) -> (d: usize)
    requires
        depth(*v) <= usize::MAX,
    ensures
        d as nat == depth(*v),
    decreases *v,
{
    match v {
        Json::Null => 1,
        Json::Bool(_) => 1,
        Json::Number(_) => 1,
        Json::Text(_) => 1,
        Json::Array(elems) => {
            if elems.len() == 0 {
                1
            } else {
                let mut m: usize = 0;
                let mut i: usize = 0;
                while i < elems.len()
                    invariant
                        0 <= i <= elems@.len(),
                        depth(Json::Array(*elems)) <= usize::MAX,
                        *v == Json::Array(*elems),
                        elems@.len() > 0,
                        m as nat == arr_depth(elems@, i as int),
                    decreases elems@.len() - i,
                {
                    proof {
                        lemma_arr_depth_child(elems@, elems@.len() as int, i as int);
                        assert(decreases_to!(*v => *elems));
                        assert(decreases_to!(*elems => elems@));
                        assert(decreases_to!(elems@ => elems@[i as int]));
                    }
                    let di = count_depth(&elems[i]);
                    if di > m {
                        m = di;
                    }
                    i += 1;
                }
                1 + m
            }
        },
        Json::Object(fields) => {
            if fields.len() == 0 {
                1
            } else {
                let mut m: usize = 0;
                let mut i: usize = 0;
                while i < fields.len()
                    invariant
                        0 <= i <= fields@.len(),
                        depth(Json::Object(*fields)) <= usize::MAX,
                        *v == Json::Object(*fields),
                        fields@.len() > 0,
                        m as nat == obj_depth(fields@, i as int),
                    decreases fields@.len() - i,
                {
                    proof {
                        lemma_obj_depth_child(fields@, fields@.len() as int, i as int);
                        assert(decreases_to!(*v => *fields));
                        assert(decreases_to!(*fields => fields@));
                        assert(decreases_to!(fields@ => fields@[i as int]));
                        assert(decreases_to!(fields@[i as int] => fields@[i as int].1));
                    }
                    let di = count_depth(&fields[i].1);
                    if di > m {
                        m = di;
                    }
                    i += 1;
                }
                1 + m
            }
        },
    }
}

} // verus!
