use json2excel::digits::usize_to_string;
use json2excel::flatten::{create_df, header_labels};
use json2excel::tree::{count_depth, Json};
use json2excel::ConvertedFile;

fn some(s: &str) -> Option<String> {
    Some(s.to_string())
}

#[test]
fn round_trip_two_rows() {
    let (rows, max_depth) = create_df("{\"a\": 1, \"b\": {\"c\": \"x\"}}").unwrap();
    assert_eq!(max_depth, 2);
    assert_eq!(
        rows,
        vec![
            vec![some("a"), None, some("1")],
            vec![some("b"), some("c"), some("x")],
        ]
    );
}

#[test]
fn empty_object_root() {
    let (rows, max_depth) = create_df("{}").unwrap();
    assert_eq!(max_depth, 0);
    assert_eq!(rows, vec![vec![None]]);
}

#[test]
fn empty_array_root() {
    let (rows, max_depth) = create_df("[]").unwrap();
    assert_eq!(max_depth, 0);
    assert_eq!(rows, vec![vec![some("[]")]]);
}

#[test]
fn empty_array_under_key() {
    let (rows, max_depth) = create_df("{\"x\": []}").unwrap();
    assert_eq!(max_depth, 1);
    assert_eq!(rows, vec![vec![some("x"), some("[]")]]);
}

#[test]
fn bare_scalar_root() {
    let (rows, max_depth) = create_df("42").unwrap();
    assert_eq!(max_depth, 0);
    assert_eq!(rows, vec![vec![some("42")]]);
}

#[test]
fn empty_leaves_never_confused() {
    let (rows, max_depth) = create_df("{\"o\": {}, \"a\": []}").unwrap();
    assert_eq!(max_depth, 1);
    assert_eq!(
        rows,
        vec![vec![some("o"), None], vec![some("a"), some("[]")]]
    );
}

#[test]
fn scalar_kinds_stringified() {
    let (rows, max_depth) =
        create_df("{\"n\": null, \"t\": true, \"f\": false, \"x\": 1.5, \"s\": \"hi\"}").unwrap();
    assert_eq!(max_depth, 1);
    assert_eq!(
        rows,
        vec![
            vec![some("n"), some("null")],
            vec![some("t"), some("true")],
            vec![some("f"), some("false")],
            vec![some("x"), some("1.5")],
            vec![some("s"), some("hi")],
        ]
    );
}

#[test]
fn array_indices_become_segments() {
    let (rows, max_depth) = create_df("[1, [2, 3]]").unwrap();
    assert_eq!(max_depth, 2);
    assert_eq!(
        rows,
        vec![
            vec![some("0"), None, some("1")],
            vec![some("1"), some("0"), some("2")],
            vec![some("1"), some("1"), some("3")],
        ]
    );
}

#[test]
fn rows_all_have_uniform_width() {
    let (rows, max_depth) =
        create_df("{\"a\": [1, {\"b\": [2, {}]}], \"c\": \"x\", \"d\": []}").unwrap();
    assert_eq!(max_depth, 4);
    for row in &rows {
        assert_eq!(row.len(), max_depth + 1);
    }
}

#[test]
fn malformed_text_is_a_parse_error() {
    let err = create_df("{not json").unwrap_err();
    assert!(!err.message.is_empty());
}

#[test]
fn count_depth_ignores_key_names_and_contents() {
    let first = Json::Object(vec![(
        "a".to_string(),
        Json::Object(vec![("b".to_string(), Json::Number("1".to_string()))]),
    )]);
    let second = Json::Object(vec![(
        "long key".to_string(),
        Json::Object(vec![("other".to_string(), Json::Bool(true))]),
    )]);
    assert_eq!(count_depth(&first), 3);
    assert_eq!(count_depth(&second), 3);
}

#[test]
fn max_depth_ignores_field_order() {
    let (_, forward) = create_df("{\"a\": {\"b\": 1}, \"c\": 2}").unwrap();
    let (_, backward) = create_df("{\"c\": 2, \"a\": {\"b\": 1}}").unwrap();
    assert_eq!(forward, 2);
    assert_eq!(backward, 2);
}

#[test]
fn count_depth_of_scalars_and_empty_containers() {
    assert_eq!(count_depth(&Json::Null), 1);
    assert_eq!(count_depth(&Json::Text("deep".to_string())), 1);
    assert_eq!(count_depth(&Json::Array(Vec::new())), 1);
    assert_eq!(count_depth(&Json::Object(Vec::new())), 1);
}

#[test]
fn count_depth_takes_the_deepest_child() {
    let v = Json::Array(vec![
        Json::Number("1".to_string()),
        Json::Array(vec![Json::Array(vec![Json::Null])]),
        Json::Bool(false),
    ]);
    assert_eq!(count_depth(&v), 4);
}

#[test]
fn header_labels_numbered_then_value() {
    let labels = header_labels(3);
    assert_eq!(labels, vec!["Depth_1", "Depth_2", "Depth_3", "value"]);
    assert_eq!(header_labels(0), vec!["value"]);
}

#[test]
fn decimal_numerals_exact() {
    assert_eq!(usize_to_string(0), "0");
    assert_eq!(usize_to_string(9), "9");
    assert_eq!(usize_to_string(10), "10");
    assert_eq!(usize_to_string(305), "305");
}

#[test]
fn converted_file_holds_a_grid() {
    let (rows, max_depth) = create_df("{\"x\": []}").unwrap();
    let file = ConvertedFile { src: "in.json".to_string(), rows, max_depth };
    let copy = file.clone();
    assert_eq!(copy.src, "in.json");
    assert_eq!(copy.max_depth, 1);
    assert_eq!(copy.rows, vec![vec![some("x"), some("[]")]]);
    let blank = ConvertedFile::default();
    assert_eq!(blank.src, "");
    assert_eq!(blank.rows.len(), 0);
    assert_eq!(blank.max_depth, 0);
}
