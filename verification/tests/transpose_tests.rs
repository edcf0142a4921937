use method_studio::json::JsonValue;
use method_studio::ser::to_json_string;
use method_studio::transpose::rows_to_columnar;

fn row(entries: Vec<(&str, &str)>) -> JsonValue {
    JsonValue::Obj(
        entries
            .into_iter()
            .map(|(k, v)| (k.to_string(), JsonValue::Num(v.to_string())))
            .collect(),
    )
}

fn column<'a>(cols: &'a [(String, Vec<JsonValue>)], name: &str) -> &'a Vec<JsonValue> {
    &cols.iter().find(|(k, _)| k == name).expect("column exists").1
}

#[test]
fn columns_are_row_count_long() {
    let rows = vec![
        row(vec![("a", "1"), ("b", "2")]),
        row(vec![("a", "3"), ("b", "4")]),
        row(vec![("a", "5"), ("b", "6")]),
    ];
    let cols = rows_to_columnar(&rows);
    assert_eq!(cols.len(), 2);
    assert_eq!(column(&cols, "a").len(), 3);
    assert_eq!(column(&cols, "b").len(), 3);
}

#[test]
fn missing_keys_fill_with_null() {
    let rows = vec![
        row(vec![("a", "1")]),
        row(vec![("a", "2"), ("b", "3")]),
        row(vec![("b", "4")]),
    ];
    let cols = rows_to_columnar(&rows);
    assert_eq!(cols.len(), 2);
    let a = column(&cols, "a");
    assert_eq!(to_json_string(&a[0]), "1");
    assert_eq!(to_json_string(&a[1]), "2");
    assert!(matches!(a[2], JsonValue::Null));
    let b = column(&cols, "b");
    assert!(matches!(b[0], JsonValue::Null));
    assert_eq!(to_json_string(&b[1]), "3");
    assert_eq!(to_json_string(&b[2]), "4");
}

#[test]
fn zero_rows_give_zero_columns() {
    let rows: Vec<JsonValue> = Vec::new();
    let cols = rows_to_columnar(&rows);
    assert!(cols.is_empty());
}

#[test]
fn non_object_rows_contribute_nulls() {
    let rows = vec![
        JsonValue::Num("7".to_string()),
        row(vec![("a", "1")]),
        JsonValue::Null,
    ];
    let cols = rows_to_columnar(&rows);
    assert_eq!(cols.len(), 1);
    let a = column(&cols, "a");
    assert_eq!(a.len(), 3);
    assert!(matches!(a[0], JsonValue::Null));
    assert_eq!(to_json_string(&a[1]), "1");
    assert!(matches!(a[2], JsonValue::Null));
}
