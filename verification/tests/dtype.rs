use perspective::dtype::{validity_mask, DType, Status};

#[test]
fn dtype_codes_round_trip() {
    for code in 0u8..23 {
        let d = DType::from_repr(code).unwrap();
        assert_eq!(d.repr(), code);
    }
    assert_eq!(DType::from_repr(23), None);
    assert_eq!(DType::from_repr(255), None);
    assert_eq!(DType::DTYPE_NONE.repr(), 0);
    assert_eq!(DType::DTYPE_STR.repr(), 19);
    assert_eq!(DType::DTYPE_LAST.repr(), 22);
}

#[test]
fn dtype_names_match_debug() {
    for code in 0u8..23 {
        let d = DType::from_repr(code).unwrap();
        assert_eq!(d.name(), format!("{:?}", d));
    }
    assert_eq!(DType::DTYPE_FLOAT64.name(), "DTYPE_FLOAT64");
}

#[test]
fn dtype_schema_types() {
    assert_eq!(DType::DTYPE_INT32.schema_type(), "integer");
    assert_eq!(DType::DTYPE_INT64.schema_type(), "integer");
    assert_eq!(DType::DTYPE_UINT8.schema_type(), "integer");
    assert_eq!(DType::DTYPE_FLOAT64.schema_type(), "float");
    assert_eq!(DType::DTYPE_FLOAT32.schema_type(), "float");
    assert_eq!(DType::DTYPE_TIME.schema_type(), "datetime");
    assert_eq!(DType::DTYPE_BOOL.schema_type(), "boolean");
    assert_eq!(DType::DTYPE_DATE.schema_type(), "date");
    assert_eq!(DType::DTYPE_STR.schema_type(), "string");
    assert_eq!(DType::DTYPE_NONE.schema_type(), "null");
}

#[test]
fn validity_mask_marks_valid_statuses() {
    let statuses = vec![
        Status::STATUS_VALID,
        Status::STATUS_INVALID,
        Status::STATUS_CLEAR,
        Status::STATUS_VALID,
    ];
    assert_eq!(validity_mask(&statuses), vec![true, false, false, true]);
    assert_eq!(validity_mask(&vec![]), Vec::<bool>::new());
}
