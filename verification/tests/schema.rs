use perspective::api::Schema as ClientSchema;
use perspective::dtype::DType;
use perspective::ffi::Schema;
use perspective::name_map::NameMap;

#[test]
fn name_map_insert_replaces_in_place() {
    let mut m: NameMap<u8> = NameMap::new();
    m.insert("a".to_string(), 1);
    m.insert("b".to_string(), 2);
    m.insert("a".to_string(), 3);
    assert_eq!(m.len(), 2);
    assert_eq!(m.name_at(0), "a");
    assert_eq!(*m.value_at(0), 3);
    assert_eq!(m.get("b"), Some(2));
    assert_eq!(m.get("c"), None);
    assert_eq!(m.position("b"), Some(1));
}

#[test]
fn engine_schema_later_type_wins() {
    let s = Schema::new(&vec![
        ("x".to_string(), DType::DTYPE_INT32),
        ("y".to_string(), DType::DTYPE_STR),
        ("x".to_string(), DType::DTYPE_FLOAT64),
    ]);
    assert_eq!(s.columns(), vec!["x".to_string(), "y".to_string()]);
    assert_eq!(s.types(), vec![DType::DTYPE_FLOAT64, DType::DTYPE_STR]);
}

#[test]
fn client_schema_from_engine_schema() {
    let s = Schema::new(&vec![
        ("a".to_string(), DType::DTYPE_INT64),
        ("b".to_string(), DType::DTYPE_DATE),
    ]);
    let c = ClientSchema::from_table_schema(&s);
    assert_eq!(c.columns(), vec!["a".to_string(), "b".to_string()]);
    assert_eq!(c.fields.get("a"), Some(1));
    assert_eq!(c.fields.get("b"), Some(13));
}

#[test]
fn client_schema_wide_round_trip() {
    let mut f: NameMap<u8> = NameMap::new();
    f.insert("p".to_string(), 19);
    f.insert("q".to_string(), 2);
    let c = ClientSchema::from_fields(f);
    let wide = c.to_wide_fields();
    assert_eq!(wide.get("p"), Some(19u32));
    let back = ClientSchema::from_wide_fields(&wide);
    assert_eq!(back.fields.get("p"), Some(19));
    assert_eq!(back.fields.get("q"), Some(2));
    assert_eq!(back.columns(), c.columns());
}

#[test]
fn client_schema_narrows_wide_codes() {
    let mut w: NameMap<u32> = NameMap::new();
    w.insert("z".to_string(), 258);
    let c = ClientSchema::from_wide_fields(&w);
    assert_eq!(c.fields.get("z"), Some(2));
    let f = c.into_fields();
    assert_eq!(f.len(), 1);
}

#[test]
fn client_schema_type_names() {
    let s = Schema::new(&vec![
        ("i".to_string(), DType::DTYPE_INT64),
        ("f".to_string(), DType::DTYPE_FLOAT64),
        ("dt".to_string(), DType::DTYPE_TIME),
        ("b".to_string(), DType::DTYPE_BOOL),
        ("d".to_string(), DType::DTYPE_DATE),
        ("s".to_string(), DType::DTYPE_STR),
    ]);
    let c = ClientSchema::from_table_schema(&s);
    let names = c.type_names();
    let expected: Vec<(String, String)> = vec![
        ("i", "integer"),
        ("f", "float"),
        ("dt", "datetime"),
        ("b", "boolean"),
        ("d", "date"),
        ("s", "string"),
    ]
    .into_iter()
    .map(|(a, b)| (a.to_string(), b.to_string()))
    .collect();
    assert_eq!(names, expected);
}

#[test]
fn client_schema_unknown_type_byte() {
    let mut f: NameMap<u8> = NameMap::new();
    f.insert("x".to_string(), 200);
    f.insert("n".to_string(), 0);
    let c = ClientSchema::from_fields(f);
    assert_eq!(
        c.type_names(),
        vec![
            ("x".to_string(), "unknown".to_string()),
            ("n".to_string(), "null".to_string())
        ]
    );
}
