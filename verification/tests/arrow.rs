use perspective::api::Error;
use perspective::dtype::DType;
use perspective::ffi::{
    arrow_type_for, batch_start_rows, dtype_from_arrow, export_kind, import_kind, is_exportable,
    narrow_offsets, packed_date_days, read_plan, schema_from_arrow_fields, ArrowType, ColumnFill,
    ExportKind, ImportKind, Schema, TimeUnit,
};

fn string_dictionary() -> ArrowType {
    ArrowType::Dictionary(Box::new(ArrowType::Int32), Box::new(ArrowType::Utf8))
}

#[test]
fn arrow_types_of_dtypes() {
    assert_eq!(arrow_type_for(DType::DTYPE_INT32), Some(ArrowType::Int32));
    assert_eq!(arrow_type_for(DType::DTYPE_TIME), Some(ArrowType::Date64));
    assert_eq!(arrow_type_for(DType::DTYPE_STR), Some(string_dictionary()));
    assert_eq!(arrow_type_for(DType::DTYPE_BOOL), None);
    assert_eq!(arrow_type_for(DType::DTYPE_INT8), None);
}

#[test]
fn dtypes_of_arrow_types() {
    assert_eq!(dtype_from_arrow(&ArrowType::Date32), Some(DType::DTYPE_DATE));
    assert_eq!(dtype_from_arrow(&string_dictionary()), Some(DType::DTYPE_STR));
    let wide_keys = ArrowType::Dictionary(Box::new(ArrowType::Int64), Box::new(ArrowType::Utf8));
    assert_eq!(dtype_from_arrow(&wide_keys), None);
    assert_eq!(dtype_from_arrow(&ArrowType::Utf8), None);
    assert_eq!(dtype_from_arrow(&ArrowType::Time32(TimeUnit::Second)), None);
}

#[test]
fn arrow_types_round_trip() {
    for code in 0u8..23 {
        let d = DType::from_repr(code).unwrap();
        if let Some(t) = arrow_type_for(d) {
            assert_eq!(dtype_from_arrow(&t), Some(d));
        }
    }
}

#[test]
fn schema_to_arrow_fields() {
    let s = Schema::new(&vec![
        ("a".to_string(), DType::DTYPE_INT32),
        ("b".to_string(), DType::DTYPE_STR),
    ]);
    let fields = s.to_arrow_fields().unwrap();
    assert_eq!(fields.len(), 2);
    assert_eq!(fields[0].0, "a");
    assert_eq!(fields[0].1, ArrowType::Int32);
    assert_eq!(fields[1].1, string_dictionary());
}

#[test]
fn schema_to_arrow_unsupported() {
    let s = Schema::new(&vec![
        ("a".to_string(), DType::DTYPE_INT32),
        ("b".to_string(), DType::DTYPE_BOOL),
        ("c".to_string(), DType::DTYPE_OBJECT),
    ]);
    assert_eq!(
        s.to_arrow_fields(),
        Err(Error::UnsupportedArrowSchema("DTYPE_BOOL".to_string()))
    );
}

#[test]
fn schema_from_arrow_fields_reads_back() {
    let s = Schema::new(&vec![
        ("x".to_string(), DType::DTYPE_FLOAT64),
        ("y".to_string(), DType::DTYPE_DATE),
        ("z".to_string(), DType::DTYPE_STR),
    ]);
    let fields = s.to_arrow_fields().unwrap();
    let back = schema_from_arrow_fields(&fields).ok().unwrap();
    assert_eq!(back.columns(), s.columns());
    assert_eq!(back.types(), s.types());
}

#[test]
fn schema_from_arrow_fields_unsupported_index() {
    let fields = vec![
        ("a".to_string(), ArrowType::Int64),
        ("b".to_string(), ArrowType::Boolean),
        ("c".to_string(), ArrowType::Utf8),
    ];
    assert_eq!(schema_from_arrow_fields(&fields).err(), Some(1));
}

#[test]
fn export_kinds() {
    assert!(is_exportable(DType::DTYPE_DATE));
    assert!(!is_exportable(DType::DTYPE_TIME));
    assert!(!is_exportable(DType::DTYPE_BOOL));
    assert_eq!(export_kind(DType::DTYPE_STR), ExportKind::StringDictionary);
    assert_eq!(export_kind(DType::DTYPE_UINT64), ExportKind::UInt64);
}

#[test]
fn import_kinds() {
    assert_eq!(import_kind(&ArrowType::Int32), Some(ImportKind::Copy(4)));
    assert_eq!(import_kind(&ArrowType::Float64), Some(ImportKind::Copy(8)));
    assert_eq!(import_kind(&ArrowType::Date32), Some(ImportKind::Date));
    assert_eq!(import_kind(&ArrowType::Date64), Some(ImportKind::Time));
    assert_eq!(import_kind(&ArrowType::Time32(TimeUnit::Millisecond)), Some(ImportKind::Copy(4)));
    assert_eq!(import_kind(&ArrowType::Time32(TimeUnit::Microsecond)), None);
    assert_eq!(import_kind(&ArrowType::Time64(TimeUnit::Nanosecond)), Some(ImportKind::Copy(8)));
    assert_eq!(import_kind(&ArrowType::Time64(TimeUnit::Second)), None);
    assert_eq!(import_kind(&string_dictionary()), Some(ImportKind::StringDictionary));
    assert_eq!(import_kind(&ArrowType::Boolean), None);
    assert_eq!(import_kind(&ArrowType::Other), None);
}

#[test]
fn exported_types_import_again() {
    for code in 0u8..23 {
        let d = DType::from_repr(code).unwrap();
        if is_exportable(d) {
            let t = arrow_type_for(d).unwrap();
            assert!(import_kind(&t).is_some());
            assert_eq!(dtype_from_arrow(&t), Some(d));
        }
    }
}

#[test]
fn packed_dates() {
    // 1970-01-01 is day 0 of the epoch, the next day is day 1
    assert_eq!(packed_date_days((1970 << 16) | (1 << 8) | 1), 0);
    assert_eq!(packed_date_days((1970 << 16) | (1 << 8) | 2), 1);
    assert_eq!(packed_date_days((1970 << 16) | (1 << 8) | 4), 3);
    // 2000-02-29, a leap day
    assert_eq!(packed_date_days((2000 << 16) | (2 << 8) | 29), 11016);
    // 2023-12-31
    assert_eq!(packed_date_days((2023 << 16) | (12 << 8) | 31), 19722);
}

#[test]
fn packed_invalid_dates_fall_back_to_epoch() {
    // 2001-02-29 does not exist
    assert_eq!(packed_date_days((2001 << 16) | (2 << 8) | 29), 0);
    // month 13
    assert_eq!(packed_date_days((2024 << 16) | (13 << 8) | 1), 0);
    // day 0
    assert_eq!(packed_date_days(2024 << 16 | (1 << 8)), 0);
}

#[test]
fn packed_dates_before_epoch_are_negative() {
    // 1969-12-31 is day -1
    assert_eq!(packed_date_days((1969 << 16) | (12 << 8) | 31) as i32, -1);
    // 0001-01-01
    assert_eq!(packed_date_days((1 << 16) | (1 << 8) | 1) as i32, -719162);
    // 0000-01-01
    assert_eq!(packed_date_days((1 << 8) | 1) as i32, -719528);
}

#[test]
fn offsets_are_narrowed() {
    let v = vec![0u64, 7, 0x1_0000_0002, u64::MAX];
    assert_eq!(narrow_offsets(&v), vec![0, 7, 2, -1]);
}

#[test]
fn batch_rows_accumulate() {
    assert_eq!(batch_start_rows(&vec![5, 0, 3, 10]), vec![0, 5, 5, 8]);
    assert_eq!(batch_start_rows(&vec![]), Vec::<usize>::new());
}

#[test]
fn read_plan_fills_each_batch_after_the_last() {
    let types = vec![ArrowType::Int32, string_dictionary(), ArrowType::Date32];
    let plan = read_plan(&types, &vec![5, 2]);
    assert_eq!(plan.len(), 2);
    assert_eq!(
        plan[0],
        vec![
            ColumnFill { column: 0, start: 0, len: 5, kind: ImportKind::Copy(4) },
            ColumnFill { column: 1, start: 0, len: 5, kind: ImportKind::StringDictionary },
            ColumnFill { column: 2, start: 0, len: 5, kind: ImportKind::Date },
        ]
    );
    assert_eq!(plan[1][0], ColumnFill { column: 0, start: 5, len: 2, kind: ImportKind::Copy(4) });
    assert_eq!(plan[1][2], ColumnFill { column: 2, start: 5, len: 2, kind: ImportKind::Date });
}

#[test]
fn read_plan_without_batches_is_empty() {
    assert!(read_plan(&vec![ArrowType::Float64], &vec![]).is_empty());
}
