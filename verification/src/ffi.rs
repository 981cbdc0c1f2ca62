use vstd::prelude::*;

use crate::api::Error;
use crate::dtype::{dtype_name, DType};
use crate::name_map::{names_distinct, NameMap};

verus! {

// ---------------------------------------------------------------- schema

/// The schema of an engine table: each column name with its data type.
pub struct Schema {
    pub fields: NameMap<DType>,
}

/// The map that results from adding the pairs in order, a later pair for a
/// name replacing an earlier one.
pub open spec fn pairs_map(p: Seq<(Seq<char>, DType)>) -> Map<Seq<char>, DType>
    decreases p.len(),
{
    if p.len() == 0 {
        Map::empty()
    } else {
        pairs_map(p.drop_last()).insert(p.last().0, p.last().1)
    }
}

/// The pairs with each name taken as its text.
pub open spec fn pairs_view(p: Seq<(String, DType)>) -> Seq<(Seq<char>, DType)> {
    p.map_values(|e: (String, DType)| (e.0@, e.1))
}

impl Schema {
    /// Whether the fields are a well-formed name map.
    pub open spec fn wf(&self) -> bool {
        self.fields.wf()
    }

    /// The schema of the given columns and types; where a name is given twice
    /// the later type counts.
    pub fn new(columns: &Vec<(String, DType)>) -> (s: Schema)
        ensures
            s.wf(),
            s.fields.as_map() == pairs_map(pairs_view(columns@)),
    {
        let mut fields: NameMap<DType> = NameMap::new();
        let mut i: usize = 0;
        proof {
            fields.lemma_entries();
            assert(fields.as_map() =~= Map::empty());
            assert(pairs_view(columns@).take(0) =~= Seq::empty());
        }
        while i < columns.len()
            invariant
                fields.wf(),
                0 <= i <= columns.len(),
                fields.as_map() == pairs_map(pairs_view(columns@).take(i as int)),
            decreases columns.len() - i,
        {
            let name = columns[i].0.clone();
            let d = columns[i].1;
            fields.insert(name, d);
            let ghost p = pairs_view(columns@);
            assert(p.take(i + 1).drop_last() =~= p.take(i as int));
            i = i + 1;
        }
        assert(pairs_view(columns@).take(columns.len() as int) =~= pairs_view(columns@));
        Schema { fields }
    }

    /// The column names, in order.
    pub fn columns(&self) -> (r: Vec<String>)
        ensures
            r@.map_values(|s: String| s@) == self.fields.keys(),
            names_distinct(r@.map_values(|s: String| s@)),
    {
        self.fields.names()
    }

    /// The column types, in the order of the column names.
    pub fn types(&self) -> (r: Vec<DType>)
        ensures
            r@ == self.fields.vals(),
    {
        self.fields.values()
    }
}

// ---------------------------------------------------------------- arrow types

/// The unit of an Arrow time or timestamp.
#[derive(Clone, Copy, Debug, PartialEq, Eq, Structural)]
pub enum TimeUnit {
    Second,
    Millisecond,
    Microsecond,
    Nanosecond,
}

/// The Arrow data types, as far as the engine tells them apart; every other
/// Arrow type is `Other`.
#[derive(Debug, PartialEq, Eq)]
pub enum ArrowType {
    Null,
    Boolean,
    Int8,
    Int16,
    Int32,
    Int64,
    UInt8,
    UInt16,
    UInt32,
    UInt64,
    Float16,
    Float32,
    Float64,
    Timestamp(TimeUnit),
    Date32,
    Date64,
    Time32(TimeUnit),
    Time64(TimeUnit),
    Utf8,
    Dictionary(Box<ArrowType>, Box<ArrowType>),
    Other,
}

/// Whether an Arrow type is a dictionary of text with 32-bit keys.
pub open spec fn is_string_dictionary(t: ArrowType) -> bool {
    t matches ArrowType::Dictionary(k, v) && *k == ArrowType::Int32 && *v == ArrowType::Utf8
}

/// The Arrow type that holds a column of an engine data type, if any.
pub open spec fn arrow_type_of(d: DType) -> Option<ArrowType> {
    match d {
        DType::DTYPE_INT32 => Some(ArrowType::Int32),
        DType::DTYPE_INT64 => Some(ArrowType::Int64),
        DType::DTYPE_UINT32 => Some(ArrowType::UInt32),
        DType::DTYPE_UINT64 => Some(ArrowType::UInt64),
        DType::DTYPE_FLOAT32 => Some(ArrowType::Float32),
        DType::DTYPE_FLOAT64 => Some(ArrowType::Float64),
        DType::DTYPE_DATE => Some(ArrowType::Date32),
        DType::DTYPE_TIME => Some(ArrowType::Date64),
        DType::DTYPE_STR => Some(
            ArrowType::Dictionary(Box::new(ArrowType::Int32), Box::new(ArrowType::Utf8)),
        ),
        _ => None,
    }
}

/// The engine data type of a column read from an Arrow type, if any.
pub open spec fn dtype_for_arrow(t: ArrowType) -> Option<DType> {
    match t {
        ArrowType::Int32 => Some(DType::DTYPE_INT32),
        ArrowType::Int64 => Some(DType::DTYPE_INT64),
        ArrowType::UInt32 => Some(DType::DTYPE_UINT32),
        ArrowType::UInt64 => Some(DType::DTYPE_UINT64),
        ArrowType::Float32 => Some(DType::DTYPE_FLOAT32),
        ArrowType::Float64 => Some(DType::DTYPE_FLOAT64),
        ArrowType::Date32 => Some(DType::DTYPE_DATE),
        ArrowType::Date64 => Some(DType::DTYPE_TIME),
        ArrowType::Dictionary(_, _) => if is_string_dictionary(t) {
            Some(DType::DTYPE_STR)
        } else {
            None
        },
        _ => None,
    }
}

/// The Arrow type that holds a column of the given engine type; `None` for
/// the types that have no Arrow counterpart.
pub fn arrow_type_for(d: DType) -> (r: Option<ArrowType>)
    ensures
        r == arrow_type_of(d),
{
    match d {
        DType::DTYPE_INT32 => Some(ArrowType::Int32),
        DType::DTYPE_INT64 => Some(ArrowType::Int64),
        DType::DTYPE_UINT32 => Some(ArrowType::UInt32),
        DType::DTYPE_UINT64 => Some(ArrowType::UInt64),
        DType::DTYPE_FLOAT32 => Some(ArrowType::Float32),
        DType::DTYPE_FLOAT64 => Some(ArrowType::Float64),
        DType::DTYPE_DATE => Some(ArrowType::Date32),
        DType::DTYPE_TIME => Some(ArrowType::Date64),
        DType::DTYPE_STR => Some(
            ArrowType::Dictionary(Box::new(ArrowType::Int32), Box::new(ArrowType::Utf8)),
        ),
        _ => None,
    }
}

/// Whether a type is `Int32`.
fn is_int32(t: &ArrowType) -> (r: bool)
    ensures
        r == (*t == ArrowType::Int32),
{
    match t {
        ArrowType::Int32 => true,
        _ => false,
    }
}

/// Whether a type is `Utf8`.
fn is_utf8(t: &ArrowType) -> (r: bool)
    ensures
        r == (*t == ArrowType::Utf8),
{
    match t {
        ArrowType::Utf8 => true,
        _ => false,
    }
}

/// The engine type of a column read from the given Arrow type; `None` for
/// the Arrow types the engine cannot hold.
pub fn dtype_from_arrow(t: &ArrowType) -> (r: Option<DType>)
    ensures
        r == dtype_for_arrow(*t),
{
    match t {
        ArrowType::Int32 => Some(DType::DTYPE_INT32),
        ArrowType::Int64 => Some(DType::DTYPE_INT64),
        ArrowType::UInt32 => Some(DType::DTYPE_UINT32),
        ArrowType::UInt64 => Some(DType::DTYPE_UINT64),
        ArrowType::Float32 => Some(DType::DTYPE_FLOAT32),
        ArrowType::Float64 => Some(DType::DTYPE_FLOAT64),
        ArrowType::Date32 => Some(DType::DTYPE_DATE),
        ArrowType::Date64 => Some(DType::DTYPE_TIME),
        ArrowType::Dictionary(k, v) => {
            if is_int32(k) && is_utf8(v) {
                Some(DType::DTYPE_STR)
            } else {
                None
            }
        },
        _ => None,
    }
}

/// An engine type and an Arrow type correspond both ways: the Arrow type of
/// an engine type reads back as that engine type, and the engine type read
/// from an Arrow type is written back as that Arrow type.
pub proof fn lemma_arrow_type_round_trip(d: DType, t: ArrowType)
    ensures
        arrow_type_of(d) == Some(t) ==> dtype_for_arrow(t) == Some(d),
        dtype_for_arrow(t) == Some(d) ==> arrow_type_of(d) == Some(t),
{
    if dtype_for_arrow(t) == Some(d) && d == DType::DTYPE_STR {
        if let ArrowType::Dictionary(k, v) = t {
            assert(*k == ArrowType::Int32);
            assert(*v == ArrowType::Utf8);
            assert(t == ArrowType::Dictionary(Box::new(ArrowType::Int32), Box::new(ArrowType::Utf8)));
        }
    }
}

/// Each engine type that Arrow can hold is written as the Arrow type of the
/// same kind, signedness and width, and read back from it: 32- and 64-bit
/// signed integers as `Int32` and `Int64`, unsigned ones as `UInt32` and
/// `UInt64`, floats as `Float32` and `Float64`, dates as `Date32`, times as
/// `Date64` and text as a dictionary of `Utf8` with `Int32` keys. No other
/// engine type has an Arrow type, and no other Arrow type is read.
pub proof fn lemma_arrow_type_pairs(d: DType, t: ArrowType)
    ensures
        arrow_type_of(DType::DTYPE_INT32) == Some(ArrowType::Int32),
        arrow_type_of(DType::DTYPE_INT64) == Some(ArrowType::Int64),
        arrow_type_of(DType::DTYPE_UINT32) == Some(ArrowType::UInt32),
        arrow_type_of(DType::DTYPE_UINT64) == Some(ArrowType::UInt64),
        arrow_type_of(DType::DTYPE_FLOAT32) == Some(ArrowType::Float32),
        arrow_type_of(DType::DTYPE_FLOAT64) == Some(ArrowType::Float64),
        arrow_type_of(DType::DTYPE_DATE) == Some(ArrowType::Date32),
        arrow_type_of(DType::DTYPE_TIME) == Some(ArrowType::Date64),
        arrow_type_of(DType::DTYPE_STR) == Some(
            ArrowType::Dictionary(Box::new(ArrowType::Int32), Box::new(ArrowType::Utf8)),
        ),
        dtype_for_arrow(ArrowType::Int32) == Some(DType::DTYPE_INT32),
        dtype_for_arrow(ArrowType::Int64) == Some(DType::DTYPE_INT64),
        dtype_for_arrow(ArrowType::UInt32) == Some(DType::DTYPE_UINT32),
        dtype_for_arrow(ArrowType::UInt64) == Some(DType::DTYPE_UINT64),
        dtype_for_arrow(ArrowType::Float32) == Some(DType::DTYPE_FLOAT32),
        dtype_for_arrow(ArrowType::Float64) == Some(DType::DTYPE_FLOAT64),
        dtype_for_arrow(ArrowType::Date32) == Some(DType::DTYPE_DATE),
        dtype_for_arrow(ArrowType::Date64) == Some(DType::DTYPE_TIME),
        arrow_type_of(d) is Some <==> (d == DType::DTYPE_INT32 || d == DType::DTYPE_INT64 || d == DType::DTYPE_UINT32
            || d == DType::DTYPE_UINT64 || d == DType::DTYPE_FLOAT32 || d == DType::DTYPE_FLOAT64
            || d == DType::DTYPE_DATE || d == DType::DTYPE_TIME || d == DType::DTYPE_STR),
        dtype_for_arrow(t) is Some <==> (t == ArrowType::Int32 || t == ArrowType::Int64 || t == ArrowType::UInt32
            || t == ArrowType::UInt64 || t == ArrowType::Float32 || t == ArrowType::Float64
            || t == ArrowType::Date32 || t == ArrowType::Date64 || is_string_dictionary(t)),
{
}

/// The index of the first type in `types` that has no Arrow counterpart, or
/// the length of `types` where there is none.
pub open spec fn first_without_arrow_type(types: Seq<DType>) -> int
    decreases types.len(),
{
    if types.len() == 0 {
        0
    } else if arrow_type_of(types[0]) is None {
        0
    } else {
        1 + first_without_arrow_type(types.drop_first())
    }
}

proof fn lemma_first_without_arrow_type(types: Seq<DType>)
    ensures
        0 <= first_without_arrow_type(types) <= types.len(),
        first_without_arrow_type(types) < types.len() ==> arrow_type_of(types[first_without_arrow_type(types)]) is None,
        forall|j: int| 0 <= j < first_without_arrow_type(types) ==> arrow_type_of(#[trigger] types[j]) is Some,
    decreases types.len(),
{
    if types.len() > 0 && arrow_type_of(types[0]) is Some {
        lemma_first_without_arrow_type(types.drop_first());
        assert forall|j: int| 0 <= j < first_without_arrow_type(types) implies arrow_type_of(#[trigger] types[j]) is Some by {
            if j > 0 {
                assert(types[j] == types.drop_first()[j - 1]);
            }
        }
    }
}

/// Whether `fields` are the Arrow fields of the schema: its columns in
/// order, each with the Arrow type of its data type.
pub open spec fn are_arrow_fields_of(s: Schema, fields: Seq<(String, ArrowType)>) -> bool {
    &&& fields.len() == s.fields.keys().len()
    &&& forall|i: int| 0 <= i < fields.len() ==> (#[trigger] fields[i]).0@ == s.fields.keys()[i]
        && arrow_type_of(s.fields.vals()[i]) == Some(fields[i].1)
}

impl Schema {
    /// The Arrow fields of the schema: each column with the Arrow type of
    /// its data type, in column order. The first column whose type has no
    /// Arrow counterpart makes the conversion fail, naming that type.
    pub fn to_arrow_fields(&self) -> (r: Result<Vec<(String, ArrowType)>, Error>)
        ensures
            ({
                let keys = self.fields.keys();
                let types = self.fields.vals();
                let k = first_without_arrow_type(types);
                match r {
                    Ok(v) => k == types.len() && are_arrow_fields_of(*self, v@),
                    Err(Error::UnsupportedArrowSchema(msg)) => k < types.len() && msg@ == dtype_name(types[k]),
                }
            }),
    {
        let fields = &self.fields;
        let ghost keys = fields.keys();
        let ghost types = fields.vals();
        let mut out: Vec<(String, ArrowType)> = Vec::new();
        let mut i: usize = 0;
        proof {
            use_type_invariant(fields);
            lemma_first_without_arrow_type(types);
            fields.lemma_entries();
        }
        while i < fields.len()
            invariant
                fields.wf(),
                keys == fields.keys(),
                types == fields.vals(),
                keys == self.fields.keys(),
                types == self.fields.vals(),
                keys.len() == types.len(),
                0 <= i <= keys.len(),
                i <= first_without_arrow_type(types) <= types.len(),
                first_without_arrow_type(types) < types.len() ==> arrow_type_of(types[first_without_arrow_type(types)]) is None,
                forall|j: int| 0 <= j < first_without_arrow_type(types) ==> arrow_type_of(#[trigger] types[j]) is Some,
                out@.len() == i,
                forall|j: int| 0 <= j < i ==> (#[trigger] out@[j]).0@ == keys[j] && arrow_type_of(types[j]) == Some(out@[j].1),
            decreases keys.len() - i,
        {
            let d = *fields.value_at(i);
            match arrow_type_for(d) {
                Some(t) => {
                    out.push((fields.name_at(i).clone(), t));
                },
                None => {
                    proof {
                        assert(d == types[i as int]);
                        if (i as int) < first_without_arrow_type(types) {
                            assert(arrow_type_of(types[i as int]) is Some);
                        }
                    }
                    return Err(Error::UnsupportedArrowSchema(d.name()));
                },
            }
            i = i + 1;
        }
        Ok(out)
    }
}

/// The index of the first field whose Arrow type the engine cannot hold, or
/// the number of fields where there is none.
pub open spec fn first_unsupported_field(fields: Seq<(String, ArrowType)>) -> int
    decreases fields.len(),
{
    if fields.len() == 0 {
        0
    } else if dtype_for_arrow(fields[0].1) is None {
        0
    } else {
        1 + first_unsupported_field(fields.drop_first())
    }
}

proof fn lemma_first_unsupported_field(fields: Seq<(String, ArrowType)>)
    ensures
        0 <= first_unsupported_field(fields) <= fields.len(),
        first_unsupported_field(fields) < fields.len() ==> dtype_for_arrow(fields[first_unsupported_field(fields)].1) is None,
        forall|j: int| 0 <= j < first_unsupported_field(fields) ==> dtype_for_arrow((#[trigger] fields[j]).1) is Some,
    decreases fields.len(),
{
    if fields.len() > 0 && dtype_for_arrow(fields[0].1) is Some {
        lemma_first_unsupported_field(fields.drop_first());
        assert forall|j: int| 0 <= j < first_unsupported_field(fields) implies dtype_for_arrow((#[trigger] fields[j]).1) is Some by {
            if j > 0 {
                assert(fields[j] == fields.drop_first()[j - 1]);
            }
        }
    }
}

/// The engine columns that Arrow fields read as: each name with the engine
/// type of its Arrow type.
pub open spec fn arrow_fields_as_columns(fields: Seq<(String, ArrowType)>) -> Seq<(Seq<char>, DType)> {
    fields.map_values(|f: (String, ArrowType)| (f.0@, dtype_for_arrow(f.1)->0))
}

/// The schema of a table read from Arrow fields, where a name given twice
/// takes the later type. Where a field's Arrow type has no engine
/// counterpart the result is the index of the first such field.
pub fn schema_from_arrow_fields(fields: &Vec<(String, ArrowType)>) -> (r: Result<Schema, usize>)
    ensures
        ({
            let k = first_unsupported_field(fields@);
            match r {
                Ok(s) => k == fields@.len() && s.wf() && s.fields.as_map() == pairs_map(arrow_fields_as_columns(fields@)),
                Err(i) => i == k && k < fields@.len(),
            }
        }),
{
    let ghost all = arrow_fields_as_columns(fields@);
    let mut columns: Vec<(String, DType)> = Vec::new();
    let mut i: usize = 0;
    proof {
        lemma_first_unsupported_field(fields@);
    }
    while i < fields.len()
        invariant
            0 <= i <= fields@.len(),
            all == arrow_fields_as_columns(fields@),
            i <= first_unsupported_field(fields@) <= fields@.len(),
            first_unsupported_field(fields@) < fields@.len() ==> dtype_for_arrow(fields@[first_unsupported_field(fields@)].1) is None,
            forall|j: int| 0 <= j < first_unsupported_field(fields@) ==> dtype_for_arrow((#[trigger] fields@[j]).1) is Some,
            pairs_view(columns@) == all.take(i as int),
        decreases fields@.len() - i,
    {
        match dtype_from_arrow(&fields[i].1) {
            Some(d) => {
                columns.push((fields[i].0.clone(), d));
                assert(all.take(i + 1) =~= all.take(i as int).push(all[i as int]));
                assert(pairs_view(columns@) =~= all.take(i + 1));
            },
            None => {
                return Err(i);
            },
        }
        i = i + 1;
    }
    assert(all.take(fields@.len() as int) =~= all);
    Ok(Schema::new(&columns))
}

// ---------------------------------------------------------------- columns to Arrow

/// How a column of the engine is written to Arrow.
#[derive(Clone, Copy, Debug, PartialEq, Eq, Structural)]
pub enum ExportKind {
    Int32,
    Int64,
    UInt32,
    UInt64,
    Float32,
    Float64,
    StringDictionary,
    Date,
}

/// How a column of the given type is written to Arrow; `None` for the types
/// that cannot be written. Time columns have an Arrow type (`Date64`, which
/// the schema conversion gives them) but the writer has no conversion for
/// their values, so they are not written.
pub open spec fn export_kind_of(d: DType) -> Option<ExportKind> {
    match d {
        DType::DTYPE_INT32 => Some(ExportKind::Int32),
        DType::DTYPE_INT64 => Some(ExportKind::Int64),
        DType::DTYPE_UINT32 => Some(ExportKind::UInt32),
        DType::DTYPE_UINT64 => Some(ExportKind::UInt64),
        DType::DTYPE_FLOAT32 => Some(ExportKind::Float32),
        DType::DTYPE_FLOAT64 => Some(ExportKind::Float64),
        DType::DTYPE_STR => Some(ExportKind::StringDictionary),
        DType::DTYPE_DATE => Some(ExportKind::Date),
        _ => None,
    }
}

/// Each column that can be written is written as values of the Arrow type
/// that the schema conversion gives its type: signed and unsigned 32- and
/// 64-bit integers, 32- and 64-bit floats, text as a dictionary and dates as
/// `Date32` days. Only those eight engine types are written; in particular
/// time columns are not.
pub proof fn lemma_export_kinds(d: DType)
    ensures
        export_kind_of(DType::DTYPE_INT32) == Some(ExportKind::Int32),
        export_kind_of(DType::DTYPE_INT64) == Some(ExportKind::Int64),
        export_kind_of(DType::DTYPE_UINT32) == Some(ExportKind::UInt32),
        export_kind_of(DType::DTYPE_UINT64) == Some(ExportKind::UInt64),
        export_kind_of(DType::DTYPE_FLOAT32) == Some(ExportKind::Float32),
        export_kind_of(DType::DTYPE_FLOAT64) == Some(ExportKind::Float64),
        export_kind_of(DType::DTYPE_STR) == Some(ExportKind::StringDictionary),
        export_kind_of(DType::DTYPE_DATE) == Some(ExportKind::Date),
        export_kind_of(d) is Some <==> (d == DType::DTYPE_INT32 || d == DType::DTYPE_INT64 || d == DType::DTYPE_UINT32
            || d == DType::DTYPE_UINT64 || d == DType::DTYPE_FLOAT32 || d == DType::DTYPE_FLOAT64
            || d == DType::DTYPE_STR || d == DType::DTYPE_DATE),
        export_kind_of(d) == Some(ExportKind::Int32) ==> arrow_type_of(d) == Some(ArrowType::Int32),
        export_kind_of(d) == Some(ExportKind::Int64) ==> arrow_type_of(d) == Some(ArrowType::Int64),
        export_kind_of(d) == Some(ExportKind::UInt32) ==> arrow_type_of(d) == Some(ArrowType::UInt32),
        export_kind_of(d) == Some(ExportKind::UInt64) ==> arrow_type_of(d) == Some(ArrowType::UInt64),
        export_kind_of(d) == Some(ExportKind::Float32) ==> arrow_type_of(d) == Some(ArrowType::Float32),
        export_kind_of(d) == Some(ExportKind::Float64) ==> arrow_type_of(d) == Some(ArrowType::Float64),
        export_kind_of(d) == Some(ExportKind::Date) ==> arrow_type_of(d) == Some(ArrowType::Date32),
{
}

/// Whether columns of the type can be written to Arrow.
pub fn is_exportable(d: DType) -> (r: bool)
    ensures
        r == export_kind_of(d) is Some,
{
    match d {
        DType::DTYPE_INT32 | DType::DTYPE_INT64 | DType::DTYPE_UINT32 | DType::DTYPE_UINT64
        | DType::DTYPE_FLOAT32 | DType::DTYPE_FLOAT64 | DType::DTYPE_STR | DType::DTYPE_DATE => true,
        _ => false,
    }
}

/// How a column of the type is written to Arrow.
pub fn export_kind(d: DType) -> (r: ExportKind)
    requires
        export_kind_of(d) is Some,
    ensures
        export_kind_of(d) == Some(r),
{
    match d {
        DType::DTYPE_INT32 => ExportKind::Int32,
        DType::DTYPE_INT64 => ExportKind::Int64,
        DType::DTYPE_UINT32 => ExportKind::UInt32,
        DType::DTYPE_UINT64 => ExportKind::UInt64,
        DType::DTYPE_FLOAT32 => ExportKind::Float32,
        DType::DTYPE_FLOAT64 => ExportKind::Float64,
        DType::DTYPE_STR => ExportKind::StringDictionary,
        _ => ExportKind::Date,
    }
}

/// The dictionary keys of a text column, stored as 64-bit offsets, narrowed
/// to the 32-bit keys of an Arrow dictionary (keeping the low 32 bits).
pub fn narrow_offsets(offsets: &Vec<u64>) -> (r: Vec<i32>)
    ensures
        r@.len() == offsets@.len(),
        forall|i: int| 0 <= i < r@.len() ==> r@[i] == offsets@[i] as i32,
{
    let mut r: Vec<i32> = Vec::new();
    let mut i: usize = 0;
    while i < offsets.len()
        invariant
            0 <= i <= offsets@.len(),
            r@.len() == i,
            forall|j: int| 0 <= j < i ==> r@[j] == offsets@[j] as i32,
        decreases offsets@.len() - i,
    {
        let k: i32 = #[verifier::truncate] (offsets[i] as i32);
        r.push(k);
        i = i + 1;
    }
    r
}

// ---------------------------------------------------------------- dates

/// Whether `y` is a leap year of the proleptic Gregorian calendar.
pub open spec fn is_leap_year(y: int) -> bool {
    (y % 4 == 0 && y % 100 != 0) || y % 400 == 0
}

/// The number of days of month `m` of year `y`.
pub open spec fn days_in_month(y: int, m: int) -> int {
    if m == 2 {
        if is_leap_year(y) { 29 } else { 28 }
    } else if m == 4 || m == 6 || m == 9 || m == 11 {
        30
    } else {
        31
    }
}

/// The number of days of year `y` before the first of month `m`.
pub open spec fn days_before_month(y: int, m: int) -> int
    decreases m,
{
    if m <= 1 {
        0
    } else {
        days_before_month(y, m - 1) + days_in_month(y, m - 1)
    }
}

/// Whether year, month and day make a date that `chrono::NaiveDate` can
/// hold: a real day of the proleptic Gregorian calendar whose year lies
/// between -262143 and 262142.
pub open spec fn is_valid_ymd(y: int, m: int, d: int) -> bool {
    &&& -262143 <= y <= 262142
    &&& 1 <= m <= 12
    &&& 1 <= d <= days_in_month(y, m)
}

/// The number of the day in the proleptic Gregorian calendar, counted so
/// that the first of January of year 1 is day 1.
pub open spec fn days_from_ce(y: int, m: int, d: int) -> int {
    let p = y - 1;
    365 * p + p / 4 - p / 100 + p / 400 + days_before_month(y, m) + d
}

/// Calls `chrono::NaiveDate::from_ymd_opt` with the year, month and day and,
/// where that gives a date, `chrono::Datelike::num_days_from_ce` on it; the
/// date itself does not leave this function. chrono documents that
/// `from_ymd_opt` gives `None` exactly for an invalid month or day or a year
/// out of its range (its source bounds the year to -262143..=262142), and
/// that `num_days_from_ce` counts days in the proleptic Gregorian calendar
/// from the first of January of year 1, which is day 1.
#[verifier::external_body]
fn ymd_days_from_ce(year: i32, month: u32, day: u32) -> (r: Option<i32>)
    ensures
        r is Some <==> is_valid_ymd(year as int, month as int, day as int),
        r matches Some(n) ==> n == days_from_ce(year as int, month as int, day as int),
{
    match chrono::NaiveDate::from_ymd_opt(year, month, day) {
        Some(date) => Some(chrono::Datelike::num_days_from_ce(&date)),
        None => None,
    }
}

/// The year stored in the high half of a packed engine date.
pub open spec fn packed_year(val: u32) -> int {
    val as int / 65536
}

/// The month stored in the second byte of a packed engine date.
pub open spec fn packed_month(val: u32) -> int {
    (val as int / 256) % 256
}

/// The day stored in the low byte of a packed engine date.
pub open spec fn packed_day(val: u32) -> int {
    val as int % 256
}

/// The number of days from the first of January 1970 to the given day,
/// negative before it: the day number of an Arrow `Date32`.
pub open spec fn days_since_epoch(y: int, m: int, d: int) -> int {
    days_from_ce(y, m, d) - days_from_ce(1970, 1, 1)
}

/// The first of January 1970 is day 719163 of the common era, so it is day 0
/// of the epoch and the day after it is day 1.
pub proof fn lemma_epoch_origin()
    ensures
        days_from_ce(1970, 1, 1) == 719163,
        days_since_epoch(1970, 1, 1) == 0,
        days_since_epoch(1970, 1, 2) == 1,
{
}

/// The Arrow day number of a packed engine date: its days since the first
/// of January 1970, or day 0 (that date itself) where the packed fields do
/// not make a date; kept to the low 32 bits, which Arrow reads as a signed
/// day number.
pub open spec fn packed_date_day_number(val: u32) -> u32 {
    let (y, m, d) = (packed_year(val), packed_month(val), packed_day(val));
    if is_valid_ymd(y, m, d) {
        days_since_epoch(y, m, d) as u32
    } else {
        0
    }
}

/// Converts a date as the engine packs it (year in the high 16 bits, month
/// in the next 8, day in the low 8) to the day number that is written to
/// an Arrow `Date32` column.
pub fn packed_date_days(val: u32) -> (r: u32)
    ensures
        r == packed_date_day_number(val),
{
    let year_bits: u32 = (val & 0xFFFF0000u32) >> 16u32;
    let month: u32 = (val & 0x0000FF00u32) >> 8u32;
    let day: u32 = val & 0x000000FFu32;
    assert(year_bits == val / 65536) by (bit_vector)
        requires
            year_bits == (val & 0xFFFF0000u32) >> 16u32,
    ;
    assert(month == (val / 256) % 256) by (bit_vector)
        requires
            month == (val & 0x0000FF00u32) >> 8u32,
    ;
    assert(day == val % 256) by (bit_vector)
        requires
            day == val & 0x000000FFu32,
    ;
    let year: i32 = year_bits as i32;
    assert(is_valid_ymd(1970, 1, 1));
    let epoch: i32 = ymd_days_from_ce(1970, 1, 1).unwrap();
    let days: i32 = match ymd_days_from_ce(year, month, day) {
        Some(n) => n,
        None => epoch,
    };
    let diff: i64 = days as i64 - epoch as i64;
    #[verifier::truncate]
    (diff as u32)
}

// ---------------------------------------------------------------- columns from Arrow

/// How a column of an Arrow type is copied into the engine.
#[derive(Clone, Copy, Debug, PartialEq, Eq, Structural)]
pub enum ImportKind {
    /// The values are copied as they are, each this many bytes wide.
    Copy(usize),
    /// Days since the epoch, converted to engine dates.
    Date,
    /// Milliseconds since the epoch, converted to engine times.
    Time,
    /// Text dictionary entries with 32-bit keys.
    StringDictionary,
}

/// How a column of the given Arrow type is read into the engine; `None` for
/// the types it refuses.
pub open spec fn import_kind_of(t: ArrowType) -> Option<ImportKind> {
    match t {
        ArrowType::Int32 => Some(ImportKind::Copy(4)),
        ArrowType::Int64 => Some(ImportKind::Copy(8)),
        ArrowType::UInt32 => Some(ImportKind::Copy(4)),
        ArrowType::UInt64 => Some(ImportKind::Copy(8)),
        ArrowType::Float32 => Some(ImportKind::Copy(4)),
        ArrowType::Float64 => Some(ImportKind::Copy(8)),
        ArrowType::Date32 => Some(ImportKind::Date),
        ArrowType::Date64 => Some(ImportKind::Time),
        ArrowType::Time32(u) => if u == TimeUnit::Second || u == TimeUnit::Millisecond {
            Some(ImportKind::Copy(4))
        } else {
            None
        },
        ArrowType::Time64(u) => if u == TimeUnit::Microsecond || u == TimeUnit::Nanosecond {
            Some(ImportKind::Copy(8))
        } else {
            None
        },
        ArrowType::Dictionary(_, _) => if is_string_dictionary(t) {
            Some(ImportKind::StringDictionary)
        } else {
            None
        },
        _ => None,
    }
}

/// Columns that are copied as they are, are copied with the byte width of
/// their Arrow type's values: 4 bytes for `Int32`, `UInt32`, `Float32` and
/// `Time32` (seconds and milliseconds), 8 bytes for `Int64`, `UInt64`,
/// `Float64` and `Time64` (microseconds and nanoseconds). No other Arrow type
/// is copied as it is.
pub proof fn lemma_import_copy_widths(t: ArrowType, n: usize)
    ensures
        import_kind_of(ArrowType::Int32) == Some(ImportKind::Copy(4)),
        import_kind_of(ArrowType::UInt32) == Some(ImportKind::Copy(4)),
        import_kind_of(ArrowType::Float32) == Some(ImportKind::Copy(4)),
        import_kind_of(ArrowType::Time32(TimeUnit::Second)) == Some(ImportKind::Copy(4)),
        import_kind_of(ArrowType::Time32(TimeUnit::Millisecond)) == Some(ImportKind::Copy(4)),
        import_kind_of(ArrowType::Int64) == Some(ImportKind::Copy(8)),
        import_kind_of(ArrowType::UInt64) == Some(ImportKind::Copy(8)),
        import_kind_of(ArrowType::Float64) == Some(ImportKind::Copy(8)),
        import_kind_of(ArrowType::Time64(TimeUnit::Microsecond)) == Some(ImportKind::Copy(8)),
        import_kind_of(ArrowType::Time64(TimeUnit::Nanosecond)) == Some(ImportKind::Copy(8)),
        import_kind_of(t) == Some(ImportKind::Copy(n)) ==> {
            ||| n == 4 && (t == ArrowType::Int32 || t == ArrowType::UInt32 || t == ArrowType::Float32 || t is Time32)
            ||| n == 8 && (t == ArrowType::Int64 || t == ArrowType::UInt64 || t == ArrowType::Float64 || t is Time64)
        },
{
}

/// How a column of the given Arrow type is read into the engine; `None` for
/// the Arrow types the engine refuses. Timestamps are not handled at all.
pub fn import_kind(t: &ArrowType) -> (r: Option<ImportKind>)
    requires
        !(*t is Timestamp),
    ensures
        r == import_kind_of(*t),
{
    match t {
        ArrowType::Int32 => Some(ImportKind::Copy(4)),
        ArrowType::Int64 => Some(ImportKind::Copy(8)),
        ArrowType::UInt32 => Some(ImportKind::Copy(4)),
        ArrowType::UInt64 => Some(ImportKind::Copy(8)),
        ArrowType::Float32 => Some(ImportKind::Copy(4)),
        ArrowType::Float64 => Some(ImportKind::Copy(8)),
        ArrowType::Date32 => Some(ImportKind::Date),
        ArrowType::Date64 => Some(ImportKind::Time),
        ArrowType::Time32(u) => match u {
            TimeUnit::Second | TimeUnit::Millisecond => Some(ImportKind::Copy(4)),
            _ => None,
        },
        ArrowType::Time64(u) => match u {
            TimeUnit::Microsecond | TimeUnit::Nanosecond => Some(ImportKind::Copy(8)),
            _ => None,
        },
        ArrowType::Dictionary(k, v) => {
            if is_int32(k) && is_utf8(v) {
                Some(ImportKind::StringDictionary)
            } else {
                None
            }
        },
        _ => None,
    }
}

/// The sum of the row counts.
pub open spec fn total_rows(rows: Seq<usize>) -> int
    decreases rows.len(),
{
    if rows.len() == 0 {
        0
    } else {
        total_rows(rows.drop_last()) + rows.last()
    }
}

/// The row at which each batch starts when batches of the given sizes are
/// read one after another into a table.
pub fn batch_start_rows(rows: &Vec<usize>) -> (r: Vec<usize>)
    requires
        total_rows(rows@) <= usize::MAX,
    ensures
        r@.len() == rows@.len(),
        forall|i: int| 0 <= i < r@.len() ==> r@[i] == total_rows(rows@.take(i)),
{
    let mut r: Vec<usize> = Vec::new();
    let mut start: usize = 0;
    let mut i: usize = 0;
    assert(rows@.take(0) =~= Seq::<usize>::empty());
    while i < rows.len()
        invariant
            0 <= i <= rows@.len(),
            total_rows(rows@) <= usize::MAX,
            start == total_rows(rows@.take(i as int)),
            r@.len() == i,
            forall|j: int| 0 <= j < i ==> r@[j] == total_rows(rows@.take(j)),
        decreases rows@.len() - i,
    {
        r.push(start);
        assert(rows@.take(i + 1).drop_last() =~= rows@.take(i as int));
        proof {
            lemma_total_rows_prefix(rows@, i + 1);
        }
        start = start + rows[i];
        i = i + 1;
    }
    r
}

/// A prefix of the batches has no more rows than all of them.
proof fn lemma_total_rows_prefix(rows: Seq<usize>, n: int)
    requires
        0 <= n <= rows.len(),
    ensures
        total_rows(rows.take(n)) <= total_rows(rows),
    decreases rows.len() - n,
{
    if n < rows.len() {
        lemma_total_rows_prefix(rows, n + 1);
        assert(rows.take(n + 1).drop_last() =~= rows.take(n));
    } else {
        assert(rows.take(n) =~= rows);
    }
}

/// What the engine writes to Arrow it reads back as it was: every column
/// type that can be written has an Arrow type that the engine accepts again
/// and that reads back as the same column type.
pub proof fn lemma_export_reads_back(d: DType)
    requires
        export_kind_of(d) is Some,
    ensures
        arrow_type_of(d) is Some,
        import_kind_of(arrow_type_of(d)->0) is Some,
        dtype_for_arrow(arrow_type_of(d)->0) == Some(d),
{
}

/// Adding pairs whose names are all different gives the map of each name to
/// its own type.
proof fn lemma_pairs_map_distinct(cols: Seq<(Seq<char>, DType)>, n: int)
    requires
        0 <= n <= cols.len(),
        forall|i: int, j: int| 0 <= i < cols.len() && 0 <= j < cols.len() && cols[i].0 == cols[j].0 ==> i == j,
    ensures
        forall|k: Seq<char>| #[trigger] pairs_map(cols.take(n)).contains_key(k)
            <==> exists|i: int| 0 <= i < n && cols[i].0 == k,
        forall|i: int| 0 <= i < n ==> pairs_map(cols.take(n))[#[trigger] cols[i].0] == cols[i].1,
    decreases n,
{
    if n > 0 {
        lemma_pairs_map_distinct(cols, n - 1);
        assert(cols.take(n).drop_last() =~= cols.take(n - 1));
        let m = pairs_map(cols.take(n));
        assert(cols.take(n).last() == cols[n - 1]);
        assert(m == pairs_map(cols.take(n - 1)).insert(cols[n - 1].0, cols[n - 1].1));
        assert forall|k: Seq<char>| #[trigger] m.contains_key(k)
            <==> exists|i: int| 0 <= i < n && cols[i].0 == k by {
            if m.contains_key(k) && k != cols[n - 1].0 {
                let i = choose|i: int| 0 <= i < n - 1 && cols[i].0 == k;
                assert(0 <= i < n && cols[i].0 == k);
            }
            if exists|i: int| 0 <= i < n && cols[i].0 == k {
                let i = choose|i: int| 0 <= i < n && cols[i].0 == k;
                if i < n - 1 {
                    assert(pairs_map(cols.take(n - 1)).contains_key(k));
                }
            }
        }
    } else {
        assert(cols.take(0) =~= Seq::<(Seq<char>, DType)>::empty());
    }
}

/// Writing a schema's columns to Arrow fields and reading those fields back
/// gives the same schema: every field is accepted, and the columns map to
/// the same types.
pub proof fn lemma_schema_arrow_round_trip(s: Schema, fields: Seq<(String, ArrowType)>)
    requires
        s.wf(),
        are_arrow_fields_of(s, fields),
    ensures
        first_unsupported_field(fields) == fields.len(),
        pairs_map(arrow_fields_as_columns(fields)) == s.fields.as_map(),
{
    s.fields.lemma_entries();
    let keys = s.fields.keys();
    let vals = s.fields.vals();
    let cols = arrow_fields_as_columns(fields);
    lemma_first_unsupported_field(fields);
    assert forall|i: int| 0 <= i < fields.len() implies #[trigger] cols[i] == (keys[i], vals[i]) by {
        lemma_arrow_type_round_trip(vals[i], fields[i].1);
    }
    if first_unsupported_field(fields) < fields.len() {
        let k = first_unsupported_field(fields);
        lemma_arrow_type_round_trip(vals[k], fields[k].1);
    }
    assert forall|i: int, j: int| 0 <= i < cols.len() && 0 <= j < cols.len() && cols[i].0 == cols[j].0 implies i == j by {
        assert(cols[i] == (keys[i], vals[i]));
        assert(cols[j] == (keys[j], vals[j]));
    }
    lemma_pairs_map_distinct(cols, cols.len() as int);
    assert(cols.take(cols.len() as int) =~= cols);
    let m = pairs_map(cols);
    assert forall|k: Seq<char>| #[trigger] m.contains_key(k) <==> s.fields.as_map().contains_key(k) by {
        if m.contains_key(k) {
            let i = choose|i: int| 0 <= i < cols.len() && cols[i].0 == k;
            assert(cols[i] == (keys[i], vals[i]));
            assert(keys[i] == k);
        }
        if s.fields.as_map().contains_key(k) {
            let i = choose|i: int| 0 <= i < keys.len() && keys[i] == k;
            assert(cols[i] == (keys[i], vals[i]));
            assert(0 <= i < cols.len() && cols[i].0 == k);
        }
    }
    assert forall|k: Seq<char>| #[trigger] m.contains_key(k) implies m[k] == s.fields.as_map()[k] by {
        let i = choose|i: int| 0 <= i < cols.len() && cols[i].0 == k;
        assert(cols[i] == (keys[i], vals[i]));
        assert(s.fields.as_map()[keys[i]] == vals[i]);
    }
    assert(m =~= s.fields.as_map());
}

/// One column of one record batch copied into a table: which column, from
/// which row of the table on, how many rows, and how.
#[derive(Clone, Copy, Debug, PartialEq, Eq, Structural)]
pub struct ColumnFill {
    pub column: usize,
    pub start: usize,
    pub len: usize,
    pub kind: ImportKind,
}

/// The fill of column `c` of batch `b`, for columns of the given Arrow
/// types and batches of the given row counts read one after another.
pub open spec fn fill_of(types: Seq<ArrowType>, rows: Seq<usize>, b: int, c: int) -> ColumnFill {
    ColumnFill {
        column: c as usize,
        start: total_rows(rows.take(b)) as usize,
        len: rows[b],
        kind: import_kind_of(types[c])->0,
    }
}

/// Every Arrow type that a table column can be read from is copied in some
/// way, and none of them is a timestamp.
proof fn lemma_readable_has_import_kind(t: ArrowType)
    requires
        dtype_for_arrow(t) is Some,
    ensures
        import_kind_of(t) is Some,
        !(t is Timestamp),
{
}

/// The plan by which record batches are read into a table: for each batch,
/// in order, each column in order is copied from the row where the batch
/// starts, as its Arrow type asks. The columns must all be of types that a
/// table column can hold.
pub fn read_plan(types: &Vec<ArrowType>, rows: &Vec<usize>) -> (r: Vec<Vec<ColumnFill>>)
    requires
        forall|j: int| 0 <= j < types@.len() ==> dtype_for_arrow(#[trigger] types@[j]) is Some,
        total_rows(rows@) <= usize::MAX,
    ensures
        r@.len() == rows@.len(),
        forall|b: int| 0 <= b < r@.len() ==> (#[trigger] r@[b])@.len() == types@.len(),
        forall|b: int, c: int| 0 <= b < r@.len() && 0 <= c < types@.len()
            ==> (#[trigger] r@[b]@[c]) == fill_of(types@, rows@, b, c),
{
    let starts = batch_start_rows(rows);
    let mut plan: Vec<Vec<ColumnFill>> = Vec::new();
    let mut b: usize = 0;
    while b < rows.len()
        invariant
            forall|j: int| 0 <= j < types@.len() ==> dtype_for_arrow(#[trigger] types@[j]) is Some,
            starts@.len() == rows@.len(),
            forall|i: int| 0 <= i < starts@.len() ==> starts@[i] == total_rows(rows@.take(i)),
            0 <= b <= rows@.len(),
            plan@.len() == b,
            forall|i: int| 0 <= i < b ==> (#[trigger] plan@[i])@.len() == types@.len(),
            forall|i: int, c: int| 0 <= i < b && 0 <= c < types@.len()
                ==> (#[trigger] plan@[i]@[c]) == fill_of(types@, rows@, i, c),
        decreases rows@.len() - b,
    {
        let mut batch: Vec<ColumnFill> = Vec::new();
        let mut c: usize = 0;
        while c < types.len()
            invariant
                forall|j: int| 0 <= j < types@.len() ==> dtype_for_arrow(#[trigger] types@[j]) is Some,
                starts@.len() == rows@.len(),
                forall|i: int| 0 <= i < starts@.len() ==> starts@[i] == total_rows(rows@.take(i)),
                0 <= b < rows@.len(),
                0 <= c <= types@.len(),
                batch@.len() == c,
                forall|k: int| 0 <= k < c ==> (#[trigger] batch@[k]) == fill_of(types@, rows@, b as int, k),
            decreases types@.len() - c,
        {
            proof {
                lemma_readable_has_import_kind(types@[c as int]);
            }
            let kind = import_kind(&types[c]).unwrap();
            batch.push(ColumnFill { column: c, start: starts[b], len: rows[b], kind });
            c = c + 1;
        }
        plan.push(batch);
        b = b + 1;
    }
    plan
}

} // verus!
