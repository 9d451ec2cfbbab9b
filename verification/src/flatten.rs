//! Flattening a tree value into a rectangular grid of optional string cells:
//! one row per leaf or empty container, each row `max_depth + 1` cells wide.

use vstd::prelude::*;
use crate::digits::{decimal_of, usize_to_string};
use crate::parse::{parse_json, parsed_json, ParseError};
use crate::tree::{
    count_depth, depth, lemma_arr_depth_child, lemma_depth_pos, lemma_obj_depth_child, Json,
};

verus! {

/// Whether a value is a scalar leaf.
pub open spec fn is_leaf(v: Json) -> bool {
    v is Null || v is Bool || v is Number || v is Text
}

/// Text form of a scalar leaf: strings verbatim, other scalars canonically.
pub open spec fn scalar_text(v: Json) -> Seq<char> {
    match v {
        Json::Null => "null"@,
        Json::Bool(b) => if b {
            "true"@
        } else {
            "false"@
        },
        Json::Number(s) => s@,
        Json::Text(s) => s@,
        Json::Array(_) => Seq::empty(),
        Json::Object(_) => Seq::empty(),
    }
}

/// One row: the current path segments in the leading cells, absent padding up
/// to the value column, and the value cell last.
pub open spec fn row_of(path: Seq<Seq<char>>, val: Option<Seq<char>>, max_depth: nat) -> Seq<
    Option<Seq<char>>,
> {
    Seq::new(
        max_depth + 1,
        |i: int|
            if i < path.len() && i < max_depth {
                Some(path[i])
            } else if i == max_depth {
                val
            } else {
                None
            },
    )
}

/// The rows that flattening `v` visited at `path` appends, in depth-first
/// pre-order. An empty object leaves the value cell absent; an empty array
/// marks it with the literal "[]"; scalars fill in their text form.
pub open spec fn rows_of(v: Json, path: Seq<Seq<char>>, max_depth: nat) -> Seq<
    Seq<Option<Seq<char>>>,
>
    decreases v, 0int,
{
    match v {
        Json::Array(elems) => if elems@.len() == 0 {
            seq![row_of(path, Some("[]"@), max_depth)]
        } else {
            arr_rows(elems@, elems@.len() as int, path, max_depth)
        },
        Json::Object(fields) => if fields@.len() == 0 {
            seq![row_of(path, None, max_depth)]
        } else {
            obj_rows(fields@, fields@.len() as int, path, max_depth)
        },
        _ => seq![row_of(path, Some(scalar_text(v)), max_depth)],
    }
}

/// Rows of the first `i` array elements, each visited under the decimal
/// numeral of its index.
pub open spec fn arr_rows(elems: Seq<Json>, i: int, path: Seq<Seq<char>>, max_depth: nat) -> Seq<
    Seq<Option<Seq<char>>>,
>
    decreases elems, i,
{
    if i <= 0 || elems.len() < i {
        Seq::empty()
    } else {
        arr_rows(elems, i - 1, path, max_depth) + rows_of(
            elems[i - 1],
            path.push(decimal_of((i - 1) as nat)),
            max_depth,
        )
    }
}

/// Rows of the first `i` object fields, each value visited under its key.
pub open spec fn obj_rows(
    fields: Seq<(String, Json)>,
    i: int,
    path: Seq<Seq<char>>,
    max_depth: nat,
) -> Seq<Seq<Option<Seq<char>>>>
    decreases fields, i,
{
    if i <= 0 || fields.len() < i {
        Seq::empty()
    } else {
        obj_rows(fields, i - 1, path, max_depth) + rows_of(
            fields[i - 1].1,
            path.push(fields[i - 1].0@),
            max_depth,
        )
    }
}

fn scalar_string(v: &Json) -> (s: String)
    requires
        is_leaf(*v),
    ensures
        s@ == scalar_text(*v),
{
    match v {
        Json::Null => "null".to_owned(),
        Json::Bool(b) => if *b {
            "true".to_owned()
        } else {
            "false".to_owned()
        },
        Json::Number(s) => s.clone(),
        Json::Text(s) => s.clone(),
        Json::Array(_) => {
            proof {
                assert(false);
            }
            String::new()
        },
        Json::Object(_) => {
            proof {
                assert(false);
            }
            String::new()
        },
    }
}

fn emit_row(path: &Vec<String>, val: Option<String>, max_depth: usize) -> (row: Vec<Option<String>>)
    requires
        path@.len() <= max_depth,
        max_depth < usize::MAX,
    ensures
        row.deep_view() == row_of(path.deep_view(), val.deep_view(), max_depth as nat),
{
    let mut row: Vec<Option<String>> = Vec::new();
    let mut i: usize = 0;
    while i < path.len()
        invariant
            i <= path@.len() <= max_depth < usize::MAX,
            row@.len() == i,
            forall|j: int| 0 <= j < i ==> row@[j] == Some(path@[j]),
        decreases path@.len() - i,
    {
        row.push(Some(path[i].clone()));
        i += 1;
    }
    while i < max_depth
        invariant
            path@.len() <= i <= max_depth < usize::MAX,
            row@.len() == i,
            forall|j: int| 0 <= j < path@.len() ==> row@[j] == Some(path@[j]),
            forall|j: int| path@.len() <= j < i ==> row@[j] is None,
        decreases max_depth - i,
    {
        row.push(None);
        i += 1;
    }
    row.push(val);
    proof {
        assert(row.deep_view() =~~= row_of(path.deep_view(), val.deep_view(), max_depth as nat));
    }
    row
}

/// Depth-first pre-order traversal: appends to `rows` one row per leaf or
/// empty container below `v`, and leaves `path` as it found it.
fn walk(v: &Json, path: &mut Vec<String>, rows: &mut Vec<Vec<Option<String>>>, max_depth: usize)
    requires
        old(path)@.len() + depth(*v) <= max_depth + 1,
        max_depth < usize::MAX,
    ensures
        final(path)@ == old(path)@,
        final(rows).deep_view() == old(rows).deep_view() + rows_of(
            *v,
            old(path).deep_view(),
            max_depth as nat,
        ),
    decreases *v,
{
    let ghost path0 = path@;
    let ghost dpath0 = path.deep_view();
    let ghost rows0 = rows.deep_view();
    match v {
        Json::Array(elems) => {
            if elems.len() == 0 {
                let row = emit_row(path, Some("[]".to_owned()), max_depth);
                rows.push(row);
                proof {
                    assert(rows.deep_view() =~~= rows0 + rows_of(*v, dpath0, max_depth as nat));
                }
            } else {
                let mut i: usize = 0;
                while i < elems.len()
                    invariant
                        *v == Json::Array(*elems),
                        elems@.len() > 0,
                        i <= elems@.len(),
                        max_depth < usize::MAX,
                        dpath0.len() + depth(*v) <= max_depth + 1,
                        path@ == path0,
                        path.deep_view() == dpath0,
                        path@.len() == dpath0.len(),
                        rows.deep_view() == rows0 + arr_rows(
                            elems@,
                            i as int,
                            dpath0,
                            max_depth as nat,
                        ),
                    decreases elems@.len() - i,
                {
                    let seg = usize_to_string(i);
                    path.push(seg);
                    proof {
                        lemma_arr_depth_child(elems@, elems@.len() as int, i as int);
                        lemma_depth_pos(elems@[i as int]);
                        assert(path.deep_view() =~~= dpath0.push(decimal_of(i as nat)));
                        assert(decreases_to!(*v => *elems));
                        assert(decreases_to!(*elems => elems@));
                        assert(decreases_to!(elems@ => elems@[i as int]));
                    }
                    walk(&elems[i], path, rows, max_depth);
                    let _ = path.pop();
                    proof {
                        assert(path@ =~= path0);
                        assert(path.deep_view() =~~= dpath0);
                        assert(rows.deep_view() =~~= rows0 + arr_rows(
                            elems@,
                            i as int + 1,
                            dpath0,
                            max_depth as nat,
                        ));
                    }
                    i += 1;
                }
                proof {
                    assert(rows.deep_view() == rows0 + rows_of(*v, dpath0, max_depth as nat));
                }
            }
        },
        Json::Object(fields) => {
            if fields.len() == 0 {
                let row = emit_row(path, None, max_depth);
                rows.push(row);
                proof {
                    assert(rows.deep_view() =~~= rows0 + rows_of(*v, dpath0, max_depth as nat));
                }
            } else {
                let mut i: usize = 0;
                while i < fields.len()
                    invariant
                        *v == Json::Object(*fields),
                        fields@.len() > 0,
                        i <= fields@.len(),
                        max_depth < usize::MAX,
                        dpath0.len() + depth(*v) <= max_depth + 1,
                        path@ == path0,
                        path.deep_view() == dpath0,
                        path@.len() == dpath0.len(),
                        rows.deep_view() == rows0 + obj_rows(
                            fields@,
                            i as int,
                            dpath0,
                            max_depth as nat,
                        ),
                    decreases fields@.len() - i,
                {
                    let seg = fields[i].0.clone();
                    path.push(seg);
                    proof {
                        lemma_obj_depth_child(fields@, fields@.len() as int, i as int);
                        lemma_depth_pos(fields@[i as int].1);
                        assert(path.deep_view() =~~= dpath0.push(fields@[i as int].0@));
                        assert(decreases_to!(*v => *fields));
                        assert(decreases_to!(*fields => fields@));
                        assert(decreases_to!(fields@ => fields@[i as int]));
                        assert(decreases_to!(fields@[i as int] => fields@[i as int].1));
                    }
                    walk(&fields[i].1, path, rows, max_depth);
                    let _ = path.pop();
                    proof {
                        assert(path@ =~= path0);
                        assert(path.deep_view() =~~= dpath0);
                        assert(rows.deep_view() =~~= rows0 + obj_rows(
                            fields@,
                            i as int + 1,
                            dpath0,
                            max_depth as nat,
                        ));
                    }
                    i += 1;
                }
                proof {
                    assert(rows.deep_view() == rows0 + rows_of(*v, dpath0, max_depth as nat));
                }
            }
        },
        _ => {
            let sval = scalar_string(v);
            let row = emit_row(path, Some(sval), max_depth);
            rows.push(row);
            proof {
                assert(rows.deep_view() =~~= rows0 + rows_of(*v, dpath0, max_depth as nat));
            }
        },
    }
}

/// The number of path columns a document flattens to: its depth less the one
/// level taken by the value column, floored at zero.
pub open spec fn spec_max_depth(v: Json) -> nat {
    (depth(v) - 1) as nat
}

/// Parse text as a generic tree document and flatten it: one row per leaf or
/// empty container, in traversal order, each row `spec_max_depth + 1` cells
/// wide. Malformed text is rejected with the parser's own diagnostics.
pub fn create_df(json_text: &str) -> (r: Result<(Vec<Vec<Option<String>>>, usize), ParseError>)
    ensures
        match r {
            Ok(p) => {
                &&& parsed_json(json_text@) is Some
                &&& p.1 as nat == spec_max_depth(parsed_json(json_text@)->Some_0)
                &&& p.0.deep_view() == rows_of(
                    parsed_json(json_text@)->Some_0,
                    Seq::empty(),
                    spec_max_depth(parsed_json(json_text@)->Some_0),
                )
            },
            Err(_) => parsed_json(json_text@) is None,
        },
{
    match parse_json(json_text) {
        Err(message) => Err(ParseError { message }),
        Ok(t) => {
            proof {
                lemma_depth_pos(t);
            }
            let d = count_depth(&t);
            let max_depth = d - 1;
            let mut rows: Vec<Vec<Option<String>>> = Vec::new();
            let mut path: Vec<String> = Vec::new();
            walk(&t, &mut path, &mut rows, max_depth);
            proof {
                assert(path.deep_view() =~~= Seq::<Seq<char>>::empty());
                assert(rows.deep_view() =~~= rows_of(t, Seq::empty(), spec_max_depth(t)));
            }
            Ok((rows, max_depth))
        },
    }
}

/// The header labels for a grid of the given width: one label per path
/// column, numbered from one, then the value column's label.
pub fn header_labels(max_depth: usize) -> (labels: Vec<String>)
    requires
        max_depth < usize::MAX,
    ensures
        labels@.len() == max_depth + 1,
        forall|i: int|
            0 <= i < max_depth ==> (#[trigger] labels@[i])@ == "Depth_"@ + decimal_of((i + 1) as nat),
        labels@[max_depth as int]@ == "value"@,
{
    let mut labels: Vec<String> = Vec::new();
    let mut i: usize = 0;
    while i < max_depth
        invariant
            i <= max_depth < usize::MAX,
            labels@.len() == i,
            forall|j: int|
                0 <= j < i ==> (#[trigger] labels@[j])@ == "Depth_"@ + decimal_of((j + 1) as nat),
        decreases max_depth - i,
    {
        let label = "Depth_".to_owned().concat(usize_to_string(i + 1).as_str());
        labels.push(label);
        i += 1;
    }
    labels.push("value".to_owned());
    labels
}

/// Every row that flattening produces is exactly `max_depth + 1` cells wide,
/// whatever the document and whatever path it is visited at.
pub proof fn lemma_rows_width(v: Json, path: Seq<Seq<char>>, max_depth: nat)
    ensures
        forall|i: int|
            0 <= i < rows_of(v, path, max_depth).len() ==> (#[trigger] rows_of(
                v,
                path,
                max_depth,
            )[i]).len() == max_depth + 1,
    decreases v, 0int,
{
    match v {
        Json::Array(elems) => {
            if elems@.len() > 0 {
                lemma_arr_rows_width(elems@, elems@.len() as int, path, max_depth);
                assert(rows_of(v, path, max_depth) == arr_rows(
                    elems@,
                    elems@.len() as int,
                    path,
                    max_depth,
                ));
            } else {
                assert(rows_of(v, path, max_depth)[0] == row_of(path, Some("[]"@), max_depth));
            }
        },
        Json::Object(fields) => {
            if fields@.len() > 0 {
                lemma_obj_rows_width(fields@, fields@.len() as int, path, max_depth);
                assert(rows_of(v, path, max_depth) == obj_rows(
                    fields@,
                    fields@.len() as int,
                    path,
                    max_depth,
                ));
            } else {
                assert(rows_of(v, path, max_depth)[0] == row_of(path, None, max_depth));
            }
        },
        _ => {
            assert(rows_of(v, path, max_depth)[0] == row_of(path, Some(scalar_text(v)), max_depth));
        },
    }
}

proof fn lemma_arr_rows_width(elems: Seq<Json>, i: int, path: Seq<Seq<char>>, max_depth: nat)
    ensures
        forall|k: int|
            0 <= k < arr_rows(elems, i, path, max_depth).len() ==> (#[trigger] arr_rows(
                elems,
                i,
                path,
                max_depth,
            )[k]).len() == max_depth + 1,
    decreases elems, i,
{
    if i <= 0 || elems.len() < i {
    } else {
        lemma_arr_rows_width(elems, i - 1, path, max_depth);
        lemma_rows_width(elems[i - 1], path.push(decimal_of((i - 1) as nat)), max_depth);
        let pre = arr_rows(elems, i - 1, path, max_depth);
        let post = rows_of(elems[i - 1], path.push(decimal_of((i - 1) as nat)), max_depth);
        assert forall|k: int| 0 <= k < arr_rows(elems, i, path, max_depth).len() implies (
        #[trigger] arr_rows(elems, i, path, max_depth)[k]).len() == max_depth + 1 by {
            if k < pre.len() {
                assert(arr_rows(elems, i, path, max_depth)[k] == pre[k]);
            } else {
                assert(arr_rows(elems, i, path, max_depth)[k] == post[k - pre.len()]);
            }
        }
    }
}

proof fn lemma_obj_rows_width(
    fields: Seq<(String, Json)>,
    i: int,
    path: Seq<Seq<char>>,
    max_depth: nat,
)
    ensures
        forall|k: int|
            0 <= k < obj_rows(fields, i, path, max_depth).len() ==> (#[trigger] obj_rows(
                fields,
                i,
                path,
                max_depth,
            )[k]).len() == max_depth + 1,
    decreases fields, i,
{
    if i <= 0 || fields.len() < i {
    } else {
        lemma_obj_rows_width(fields, i - 1, path, max_depth);
        lemma_rows_width(fields[i - 1].1, path.push(fields[i - 1].0@), max_depth);
        let pre = obj_rows(fields, i - 1, path, max_depth);
        let post = rows_of(fields[i - 1].1, path.push(fields[i - 1].0@), max_depth);
        assert forall|k: int| 0 <= k < obj_rows(fields, i, path, max_depth).len() implies (
        #[trigger] obj_rows(fields, i, path, max_depth)[k]).len() == max_depth + 1 by {
            if k < pre.len() {
                assert(obj_rows(fields, i, path, max_depth)[k] == pre[k]);
            } else {
                assert(obj_rows(fields, i, path, max_depth)[k] == post[k - pre.len()]);
            }
        }
    }
}

/// An empty object and an empty array each flatten to a single row, and the
/// two are never confused: the empty object leaves the value cell absent
/// where the empty array fills it with the "[]" marker.
pub proof fn lemma_empty_leaves(o: Json, a: Json, path: Seq<Seq<char>>, max_depth: nat)
    requires
        o matches Json::Object(fields) && fields@.len() == 0,
        a matches Json::Array(elems) && elems@.len() == 0,
    ensures
        rows_of(o, path, max_depth).len() == 1,
        rows_of(a, path, max_depth).len() == 1,
        rows_of(o, path, max_depth)[0][max_depth as int] is None,
        rows_of(a, path, max_depth)[0][max_depth as int] == Some("[]"@),
        rows_of(o, path, max_depth)[0][max_depth as int] != rows_of(
            a,
            path,
            max_depth,
        )[0][max_depth as int],
{
}

} // verus!
