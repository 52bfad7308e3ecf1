use fedimint_observer::json::json_eq;
use fedimint_observer::json::JsonValue;
use fedimint_observer::query::convert_cell;
use fedimint_observer::query::project_rows;
use fedimint_observer::query::CellReads;
use fedimint_observer::query::ColumnKind;
use fedimint_observer::query::QueryCell;

fn no_reads() -> CellReads {
    CellReads { as_bool: None, as_int: None, as_float: None, as_text: None, as_blob: None }
}

fn cell(name: &str, kind: ColumnKind, reads: CellReads) -> QueryCell {
    QueryCell { name: name.to_owned(), kind, reads }
}

#[test]
fn empty_result_has_no_columns_and_no_rows() {
    let rows: Vec<Vec<QueryCell>> = vec![];
    let result = project_rows(&rows);
    assert_eq!(result.cols.len(), 0);
    assert_eq!(result.rows.len(), 0);
}

#[test]
fn bool_and_text_row() {
    let b = CellReads { as_bool: Some(true), ..no_reads() };
    let t = CellReads { as_text: Some("abc".to_owned()), ..no_reads() };
    let rows = vec![vec![cell("b", ColumnKind::Bool, b), cell("t", ColumnKind::Text, t)]];
    let result = project_rows(&rows);
    assert_eq!(result.cols, vec!["b".to_owned(), "t".to_owned()]);
    assert_eq!(result.rows.len(), 1);
    assert!(matches!(result.rows[0][0], JsonValue::Bool(true)));
    match &result.rows[0][1] {
        JsonValue::Str(s) => assert_eq!(s, "abc"),
        _ => panic!("text column did not convert to a string"),
    }
}

#[test]
fn null_typed_stored_boolean_recovers_as_boolean() {
    // The driver can read a stored boolean both as a boolean and as text;
    // boolean has first priority in the fallback chain.
    let reads = CellReads {
        as_bool: Some(true),
        as_text: Some("true".to_owned()),
        ..no_reads()
    };
    let v = convert_cell(ColumnKind::Null, &reads);
    assert!(matches!(v, JsonValue::Bool(true)));
}

#[test]
fn fallback_tries_text_before_integer() {
    let reads = CellReads { as_int: Some(7), as_text: Some("7".to_owned()), ..no_reads() };
    match convert_cell(ColumnKind::Null, &reads) {
        JsonValue::Str(s) => assert_eq!(s, "7"),
        _ => panic!("text must win over integer in the fallback chain"),
    }
}

#[test]
fn fallback_tries_integer_before_binary() {
    let reads = CellReads { as_int: Some(9), as_blob: Some(vec![9]), ..no_reads() };
    assert!(matches!(convert_cell(ColumnKind::Null, &reads), JsonValue::Int(9)));
}

#[test]
fn fallback_binary_renders_as_hex() {
    let reads = CellReads { as_blob: Some(vec![0xde, 0xad]), ..no_reads() };
    match convert_cell(ColumnKind::Null, &reads) {
        JsonValue::Str(s) => assert_eq!(s, "dead"),
        _ => panic!("binary fallback must render hex"),
    }
}

#[test]
fn fallback_exhausted_yields_null() {
    let v = convert_cell(ColumnKind::Null, &no_reads());
    assert!(matches!(v, JsonValue::Null));
}

#[test]
fn failed_read_of_typed_column_degrades_to_null() {
    let v = convert_cell(ColumnKind::Text, &no_reads());
    assert!(matches!(v, JsonValue::Null));
    let v = convert_cell(ColumnKind::BigInt, &no_reads());
    assert!(matches!(v, JsonValue::Null));
}

#[test]
fn integer_kinds_convert_to_numbers() {
    for kind in [ColumnKind::SmallInt, ColumnKind::Integer, ColumnKind::BigInt] {
        let reads = CellReads { as_int: Some(-42), ..no_reads() };
        assert!(matches!(convert_cell(kind, &reads), JsonValue::Int(-42)));
    }
}

#[test]
fn floating_column_carries_the_bit_pattern() {
    let bits = 1.5f64.to_bits();
    let reads = CellReads { as_float: Some(bits), ..no_reads() };
    match convert_cell(ColumnKind::Double, &reads) {
        JsonValue::Float(b) => assert_eq!(f64::from_bits(b), 1.5),
        _ => panic!("double column must carry the reading's bits"),
    }
}

#[test]
fn blob_column_matches_outside_hex_encoder() {
    let bytes = vec![0xde, 0xad, 0xbe, 0xef];
    let reads = CellReads { as_blob: Some(bytes.clone()), ..no_reads() };
    match convert_cell(ColumnKind::Blob, &reads) {
        JsonValue::Str(s) => {
            assert_eq!(s, "deadbeef");
            assert_eq!(s, hex::encode(&bytes));
        },
        _ => panic!("blob column must render hex"),
    }
}

#[test]
fn rows_stay_aligned_with_columns() {
    let row = |x: i64, s: &str| {
        vec![
            cell("n", ColumnKind::Integer, CellReads { as_int: Some(x), ..no_reads() }),
            cell("t", ColumnKind::Text, CellReads { as_text: Some(s.to_owned()), ..no_reads() }),
        ]
    };
    let rows = vec![row(1, "one"), row(2, "two")];
    let result = project_rows(&rows);
    assert_eq!(result.cols, vec!["n".to_owned(), "t".to_owned()]);
    assert_eq!(result.rows.len(), 2);
    assert!(matches!(result.rows[0][0], JsonValue::Int(1)));
    assert!(matches!(result.rows[1][0], JsonValue::Int(2)));
    match &result.rows[1][1] {
        JsonValue::Str(s) => assert_eq!(s, "two"),
        _ => panic!("second row misaligned"),
    }
}

#[test]
fn json_values_compare_structurally() {
    assert!(json_eq(&JsonValue::Int(3), &JsonValue::Int(3)));
    assert!(!json_eq(&JsonValue::Int(3), &JsonValue::Bool(true)));
    assert!(json_eq(
        &JsonValue::Str("x".to_owned()),
        &JsonValue::Str("x".to_owned())
    ));
    assert!(!json_eq(&JsonValue::Str("x".to_owned()), &JsonValue::Null));
}
