use vstd::prelude::*;

use crate::text::owned;

verus! {

/// The storage type of a column of the engine.
#[allow(non_camel_case_types)]
#[derive(Clone, Copy, Debug, PartialEq, Eq, Hash, Structural)]
pub enum DType {
    DTYPE_NONE,
    DTYPE_INT64,
    DTYPE_INT32,
    DTYPE_INT16,
    DTYPE_INT8,
    DTYPE_UINT64,
    DTYPE_UINT32,
    DTYPE_UINT16,
    DTYPE_UINT8,
    DTYPE_FLOAT64,
    DTYPE_FLOAT32,
    DTYPE_BOOL,
    DTYPE_TIME,
    DTYPE_DATE,
    DTYPE_ENUM,
    DTYPE_OID,
    DTYPE_OBJECT,
    DTYPE_F64PAIR,
    DTYPE_USER_FIXED,
    DTYPE_STR,
    DTYPE_USER_VLEN,
    DTYPE_LAST_VLEN,
    DTYPE_LAST,
}

/// Whether a value of a column is present, missing, or cleared.
#[allow(non_camel_case_types)]
#[derive(Clone, Copy, Debug, PartialEq, Eq, Structural)]
pub enum Status {
    STATUS_INVALID,
    STATUS_VALID,
    STATUS_CLEAR,
}

/// The number that stands for a data type where it is exchanged as a byte.
pub open spec fn dtype_code(d: DType) -> u8 {
    match d {
        DType::DTYPE_NONE => 0,
        DType::DTYPE_INT64 => 1,
        DType::DTYPE_INT32 => 2,
        DType::DTYPE_INT16 => 3,
        DType::DTYPE_INT8 => 4,
        DType::DTYPE_UINT64 => 5,
        DType::DTYPE_UINT32 => 6,
        DType::DTYPE_UINT16 => 7,
        DType::DTYPE_UINT8 => 8,
        DType::DTYPE_FLOAT64 => 9,
        DType::DTYPE_FLOAT32 => 10,
        DType::DTYPE_BOOL => 11,
        DType::DTYPE_TIME => 12,
        DType::DTYPE_DATE => 13,
        DType::DTYPE_ENUM => 14,
        DType::DTYPE_OID => 15,
        DType::DTYPE_OBJECT => 16,
        DType::DTYPE_F64PAIR => 17,
        DType::DTYPE_USER_FIXED => 18,
        DType::DTYPE_STR => 19,
        DType::DTYPE_USER_VLEN => 20,
        DType::DTYPE_LAST_VLEN => 21,
        DType::DTYPE_LAST => 22,
    }
}

/// The data type that a byte stands for, if any.
pub open spec fn dtype_of_code(code: u8) -> Option<DType> {
    if code < 23 {
        Some(choose|d: DType| dtype_code(d) == code)
    } else {
        None
    }
}

/// The name of a data type, as its `Debug` writes it.
pub open spec fn dtype_name(d: DType) -> Seq<char> {
    match d {
        DType::DTYPE_NONE => "DTYPE_NONE"@,
        DType::DTYPE_INT64 => "DTYPE_INT64"@,
        DType::DTYPE_INT32 => "DTYPE_INT32"@,
        DType::DTYPE_INT16 => "DTYPE_INT16"@,
        DType::DTYPE_INT8 => "DTYPE_INT8"@,
        DType::DTYPE_UINT64 => "DTYPE_UINT64"@,
        DType::DTYPE_UINT32 => "DTYPE_UINT32"@,
        DType::DTYPE_UINT16 => "DTYPE_UINT16"@,
        DType::DTYPE_UINT8 => "DTYPE_UINT8"@,
        DType::DTYPE_FLOAT64 => "DTYPE_FLOAT64"@,
        DType::DTYPE_FLOAT32 => "DTYPE_FLOAT32"@,
        DType::DTYPE_BOOL => "DTYPE_BOOL"@,
        DType::DTYPE_TIME => "DTYPE_TIME"@,
        DType::DTYPE_DATE => "DTYPE_DATE"@,
        DType::DTYPE_ENUM => "DTYPE_ENUM"@,
        DType::DTYPE_OID => "DTYPE_OID"@,
        DType::DTYPE_OBJECT => "DTYPE_OBJECT"@,
        DType::DTYPE_F64PAIR => "DTYPE_F64PAIR"@,
        DType::DTYPE_USER_FIXED => "DTYPE_USER_FIXED"@,
        DType::DTYPE_STR => "DTYPE_STR"@,
        DType::DTYPE_USER_VLEN => "DTYPE_USER_VLEN"@,
        DType::DTYPE_LAST_VLEN => "DTYPE_LAST_VLEN"@,
        DType::DTYPE_LAST => "DTYPE_LAST"@,
    }
}

/// Whether a data type has a name in the schema that clients are shown.
pub open spec fn has_schema_type(d: DType) -> bool {
    !(d == DType::DTYPE_ENUM || d == DType::DTYPE_OID || d == DType::DTYPE_OBJECT || d == DType::DTYPE_F64PAIR || d == DType::DTYPE_USER_FIXED || d == DType::DTYPE_USER_VLEN || d == DType::DTYPE_LAST_VLEN || d == DType::DTYPE_LAST)
}

/// The name under which clients are shown columns of a data type: one of the
/// column types `integer`, `float`, `boolean`, `date`, `datetime` and
/// `string`, or `null` for a column that has no type yet.
pub open spec fn schema_type_name(d: DType) -> Seq<char>
    recommends
        has_schema_type(d),
{
    match d {
        DType::DTYPE_NONE => "null"@,
        DType::DTYPE_INT64 => "integer"@,
        DType::DTYPE_INT32 => "integer"@,
        DType::DTYPE_INT16 => "integer"@,
        DType::DTYPE_INT8 => "integer"@,
        DType::DTYPE_UINT64 => "integer"@,
        DType::DTYPE_UINT32 => "integer"@,
        DType::DTYPE_UINT16 => "integer"@,
        DType::DTYPE_UINT8 => "integer"@,
        DType::DTYPE_FLOAT64 => "float"@,
        DType::DTYPE_FLOAT32 => "float"@,
        DType::DTYPE_BOOL => "boolean"@,
        DType::DTYPE_TIME => "datetime"@,
        DType::DTYPE_DATE => "date"@,
        DType::DTYPE_STR => "string"@,
        _ => Seq::empty(),
    }
}

impl DType {
    /// The byte that stands for this data type.
    pub fn repr(&self) -> (r: u8)
        ensures
            r == dtype_code(*self),
    {
        match self {
            DType::DTYPE_NONE => 0,
            DType::DTYPE_INT64 => 1,
            DType::DTYPE_INT32 => 2,
            DType::DTYPE_INT16 => 3,
            DType::DTYPE_INT8 => 4,
            DType::DTYPE_UINT64 => 5,
            DType::DTYPE_UINT32 => 6,
            DType::DTYPE_UINT16 => 7,
            DType::DTYPE_UINT8 => 8,
            DType::DTYPE_FLOAT64 => 9,
            DType::DTYPE_FLOAT32 => 10,
            DType::DTYPE_BOOL => 11,
            DType::DTYPE_TIME => 12,
            DType::DTYPE_DATE => 13,
            DType::DTYPE_ENUM => 14,
            DType::DTYPE_OID => 15,
            DType::DTYPE_OBJECT => 16,
            DType::DTYPE_F64PAIR => 17,
            DType::DTYPE_USER_FIXED => 18,
            DType::DTYPE_STR => 19,
            DType::DTYPE_USER_VLEN => 20,
            DType::DTYPE_LAST_VLEN => 21,
            DType::DTYPE_LAST => 22,
        }
    }

    /// The data type that a byte stands for; no type has a byte above 22.
    pub fn from_repr(code: u8) -> (r: Option<DType>)
        ensures
            match r {
                Some(d) => dtype_code(d) == code,
                None => forall|d: DType| dtype_code(d) != code,
            },
            r is Some <==> code < 23,
    {
        match code {
            0 => Some(DType::DTYPE_NONE),
            1 => Some(DType::DTYPE_INT64),
            2 => Some(DType::DTYPE_INT32),
            3 => Some(DType::DTYPE_INT16),
            4 => Some(DType::DTYPE_INT8),
            5 => Some(DType::DTYPE_UINT64),
            6 => Some(DType::DTYPE_UINT32),
            7 => Some(DType::DTYPE_UINT16),
            8 => Some(DType::DTYPE_UINT8),
            9 => Some(DType::DTYPE_FLOAT64),
            10 => Some(DType::DTYPE_FLOAT32),
            11 => Some(DType::DTYPE_BOOL),
            12 => Some(DType::DTYPE_TIME),
            13 => Some(DType::DTYPE_DATE),
            14 => Some(DType::DTYPE_ENUM),
            15 => Some(DType::DTYPE_OID),
            16 => Some(DType::DTYPE_OBJECT),
            17 => Some(DType::DTYPE_F64PAIR),
            18 => Some(DType::DTYPE_USER_FIXED),
            19 => Some(DType::DTYPE_STR),
            20 => Some(DType::DTYPE_USER_VLEN),
            21 => Some(DType::DTYPE_LAST_VLEN),
            22 => Some(DType::DTYPE_LAST),
            _ => None,
        }
    }

    /// The type's name, as its `Debug` writes it.
    pub fn name(&self) -> (s: String)
        ensures
            s@ == dtype_name(*self),
    {
        match self {
            DType::DTYPE_NONE => owned("DTYPE_NONE"),
            DType::DTYPE_INT64 => owned("DTYPE_INT64"),
            DType::DTYPE_INT32 => owned("DTYPE_INT32"),
            DType::DTYPE_INT16 => owned("DTYPE_INT16"),
            DType::DTYPE_INT8 => owned("DTYPE_INT8"),
            DType::DTYPE_UINT64 => owned("DTYPE_UINT64"),
            DType::DTYPE_UINT32 => owned("DTYPE_UINT32"),
            DType::DTYPE_UINT16 => owned("DTYPE_UINT16"),
            DType::DTYPE_UINT8 => owned("DTYPE_UINT8"),
            DType::DTYPE_FLOAT64 => owned("DTYPE_FLOAT64"),
            DType::DTYPE_FLOAT32 => owned("DTYPE_FLOAT32"),
            DType::DTYPE_BOOL => owned("DTYPE_BOOL"),
            DType::DTYPE_TIME => owned("DTYPE_TIME"),
            DType::DTYPE_DATE => owned("DTYPE_DATE"),
            DType::DTYPE_ENUM => owned("DTYPE_ENUM"),
            DType::DTYPE_OID => owned("DTYPE_OID"),
            DType::DTYPE_OBJECT => owned("DTYPE_OBJECT"),
            DType::DTYPE_F64PAIR => owned("DTYPE_F64PAIR"),
            DType::DTYPE_USER_FIXED => owned("DTYPE_USER_FIXED"),
            DType::DTYPE_STR => owned("DTYPE_STR"),
            DType::DTYPE_USER_VLEN => owned("DTYPE_USER_VLEN"),
            DType::DTYPE_LAST_VLEN => owned("DTYPE_LAST_VLEN"),
            DType::DTYPE_LAST => owned("DTYPE_LAST"),
        }
    }

    /// The name under which clients are shown a column of this type: every
    /// signed or unsigned integer type is `integer`, both floating-point types
    /// are `float`, times are `datetime`, and booleans, dates and text are
    /// `boolean`, `date` and `string`; a column without a type is `null`. The
    /// engine's internal types have no such name and are not accepted.
    pub fn schema_type(&self) -> (s: String)
        requires
            has_schema_type(*self),
        ensures
            s@ == schema_type_name(*self),
    {
        match self {
            DType::DTYPE_NONE => owned("null"),
            DType::DTYPE_INT64 => owned("integer"),
            DType::DTYPE_INT32 => owned("integer"),
            DType::DTYPE_INT16 => owned("integer"),
            DType::DTYPE_INT8 => owned("integer"),
            DType::DTYPE_UINT64 => owned("integer"),
            DType::DTYPE_UINT32 => owned("integer"),
            DType::DTYPE_UINT16 => owned("integer"),
            DType::DTYPE_UINT8 => owned("integer"),
            DType::DTYPE_FLOAT64 => owned("float"),
            DType::DTYPE_FLOAT32 => owned("float"),
            DType::DTYPE_BOOL => owned("boolean"),
            DType::DTYPE_TIME => owned("datetime"),
            DType::DTYPE_DATE => owned("date"),
            DType::DTYPE_STR => owned("string"),
            _ => owned(""),
        }
    }
}

/// Clients are shown `integer` exactly for the signed and unsigned integer
/// types, `float` exactly for the two floating-point types, `datetime` for
/// times, `date` for dates, `boolean` for booleans, `string` for text and
/// `null` for a column without a type.
pub proof fn lemma_schema_type_names(d: DType)
    requires
        has_schema_type(d),
    ensures
        schema_type_name(d) == "integer"@ <==> (d == DType::DTYPE_INT8 || d == DType::DTYPE_INT16
            || d == DType::DTYPE_INT32 || d == DType::DTYPE_INT64 || d == DType::DTYPE_UINT8
            || d == DType::DTYPE_UINT16 || d == DType::DTYPE_UINT32 || d == DType::DTYPE_UINT64),
        schema_type_name(d) == "float"@ <==> (d == DType::DTYPE_FLOAT32 || d == DType::DTYPE_FLOAT64),
        schema_type_name(d) == "datetime"@ <==> d == DType::DTYPE_TIME,
        schema_type_name(d) == "date"@ <==> d == DType::DTYPE_DATE,
        schema_type_name(d) == "boolean"@ <==> d == DType::DTYPE_BOOL,
        schema_type_name(d) == "string"@ <==> d == DType::DTYPE_STR,
        schema_type_name(d) == "null"@ <==> d == DType::DTYPE_NONE,
{
    reveal_strlit("integer");
    reveal_strlit("float");
    reveal_strlit("datetime");
    reveal_strlit("date");
    reveal_strlit("boolean");
    reveal_strlit("string");
    reveal_strlit("null");
    assert("integer"@ != "boolean"@) by {
        assert("integer"@[0] != "boolean"@[0]);
    }
    assert("date"@ != "null"@) by {
        assert("date"@[0] != "null"@[0]);
    }
    assert("integer"@.len() == 7 && "boolean"@.len() == 7 && "float"@.len() == 5 && "datetime"@.len() == 8);
    assert("date"@.len() == 4 && "null"@.len() == 4 && "string"@.len() == 6);
}

/// The byte of each data type is its place in the engine's list of types:
/// none, the signed integers from 64 down to 8 bits, the unsigned ones
/// likewise, 64- and 32-bit floats, booleans, times, dates, the engine's
/// internal types, text, and the closing markers.
pub proof fn lemma_dtype_codes()
    ensures
        dtype_code(DType::DTYPE_NONE) == 0,
        dtype_code(DType::DTYPE_INT64) == 1,
        dtype_code(DType::DTYPE_INT32) == 2,
        dtype_code(DType::DTYPE_INT16) == 3,
        dtype_code(DType::DTYPE_INT8) == 4,
        dtype_code(DType::DTYPE_UINT64) == 5,
        dtype_code(DType::DTYPE_UINT32) == 6,
        dtype_code(DType::DTYPE_UINT16) == 7,
        dtype_code(DType::DTYPE_UINT8) == 8,
        dtype_code(DType::DTYPE_FLOAT64) == 9,
        dtype_code(DType::DTYPE_FLOAT32) == 10,
        dtype_code(DType::DTYPE_BOOL) == 11,
        dtype_code(DType::DTYPE_TIME) == 12,
        dtype_code(DType::DTYPE_DATE) == 13,
        dtype_code(DType::DTYPE_ENUM) == 14,
        dtype_code(DType::DTYPE_OID) == 15,
        dtype_code(DType::DTYPE_OBJECT) == 16,
        dtype_code(DType::DTYPE_F64PAIR) == 17,
        dtype_code(DType::DTYPE_USER_FIXED) == 18,
        dtype_code(DType::DTYPE_STR) == 19,
        dtype_code(DType::DTYPE_USER_VLEN) == 20,
        dtype_code(DType::DTYPE_LAST_VLEN) == 21,
        dtype_code(DType::DTYPE_LAST) == 22,
{
}

/// Distinct data types are exchanged as distinct bytes, and every byte below
/// 23 stands for a data type: reading the byte of a type gives it back.
pub proof fn lemma_dtype_code_round_trip(d: DType, e: DType)
    ensures
        dtype_code(d) < 23,
        dtype_code(d) == dtype_code(e) ==> d == e,
        dtype_of_code(dtype_code(d)) == Some(d),
{
    if dtype_of_code(dtype_code(d)) != Some(d) {
        let c = choose|x: DType| dtype_code(x) == dtype_code(d);
        assert(dtype_code(c) == dtype_code(d));
    }
}

/// Marks which values of a column are present: a value is present exactly
/// where its status is valid.
pub fn validity_mask(statuses: &Vec<Status>) -> (r: Vec<bool>)
    ensures
        r.len() == statuses.len(),
        forall|i: int| 0 <= i < r.len() ==> r@[i] == (statuses@[i] == Status::STATUS_VALID),
{
    let mut r: Vec<bool> = Vec::new();
    let mut i: usize = 0;
    while i < statuses.len()
        invariant
            0 <= i <= statuses.len(),
            r.len() == i,
            forall|j: int| 0 <= j < i ==> r@[j] == (statuses@[j] == Status::STATUS_VALID),
        decreases statuses.len() - i,
    {
        r.push(statuses[i] == Status::STATUS_VALID);
        i = i + 1;
    }
    r
}

} // verus!
