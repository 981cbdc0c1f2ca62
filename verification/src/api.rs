use vstd::prelude::*;

use crate::dtype::{
    dtype_code, dtype_of_code, has_schema_type, lemma_dtype_code_round_trip, schema_type_name, DType,
};
use crate::ffi;
use crate::name_map::{names_distinct, NameMap};
use crate::text::owned;

verus! {

/// The number by which a client and a server refer to a table.
pub type TableId = u32;

/// The number by which a client and a server refer to a view.
pub type ViewId = u32;

/// An error of the engine.
#[derive(Clone, Debug, PartialEq, Eq)]
pub enum Error {
    /// A column type that has no counterpart in the other format; the text
    /// names the type.
    UnsupportedArrowSchema(String),
}

/// The schema a client is told of a table: each column name with the byte of
/// its data type.
pub struct Schema {
    pub fields: NameMap<u8>,
}

impl Schema {
    /// Whether the fields are a well-formed name map.
    pub open spec fn wf(&self) -> bool {
        self.fields.wf()
    }

    /// The schema with these fields.
    pub fn from_fields(fields: NameMap<u8>) -> (s: Schema)
        ensures
            s.fields == fields,
    {
        Schema { fields }
    }

    /// The fields of the schema.
    pub fn into_fields(self) -> (f: NameMap<u8>)
        ensures
            f == self.fields,
    {
        self.fields
    }

    /// The schema of fields whose type bytes were widened to 32 bits; each
    /// is narrowed back to its low byte.
    pub fn from_wide_fields(fields: &NameMap<u32>) -> (s: Schema)
        ensures
            s.wf(),
            s.fields.keys() == fields.keys(),
            s.fields.vals() == narrow_codes(fields.vals()),
    {
        let out = fields.map_values(|v: &u32| -> (r: u8)
            ensures
                r == *v as u8,
            {
                #[verifier::truncate]
                (*v as u8)
            });
        assert(out.vals() =~= narrow_codes(fields.vals()));
        Schema { fields: out }
    }

    /// The fields with their type bytes widened to 32 bits.
    pub fn to_wide_fields(&self) -> (f: NameMap<u32>)
        ensures
            f.wf(),
            f.keys() == self.fields.keys(),
            f.vals() == widen_codes(self.fields.vals()),
    {
        let out = self.fields.map_values(|v: &u8| -> (r: u32)
            ensures
                r == *v as u32,
            {
                *v as u32
            });
        assert(out.vals() =~= widen_codes(self.fields.vals()));
        out
    }

    /// The names of the columns, each once.
    pub fn columns(&self) -> (r: Vec<String>)
        ensures
            r@.map_values(|s: String| s@) == self.fields.keys(),
            names_distinct(r@.map_values(|s: String| s@)),
    {
        self.fields.names()
    }

    /// The schema a client is told of an engine table: each column with the
    /// byte of its data type.
    pub fn from_table_schema(schema: &ffi::Schema) -> (s: Schema)
        ensures
            s.wf(),
            s.fields.keys() == schema.fields.keys(),
            s.fields.vals().len() == schema.fields.vals().len(),
            forall|i: int| 0 <= i < s.fields.vals().len() ==> s.fields.vals()[i] == dtype_code(schema.fields.vals()[i]),
    {
        let out = schema.fields.map_values(|d: &DType| -> (r: u8)
            ensures
                r == dtype_code(*d),
            {
                d.repr()
            });
        Schema { fields: out }
    }

    /// The type name that clients are shown for each column, in column
    /// order. A byte that stands for no data type is shown as `unknown`; the
    /// engine's internal types have no name to show and are not accepted.
    pub fn type_names(&self) -> (r: Vec<(String, String)>)
        requires
            forall|i: int| 0 <= i < self.fields.vals().len() ==> code_has_type_name(#[trigger] self.fields.vals()[i]),
        ensures
            r@.len() == self.fields.keys().len(),
            forall|i: int| 0 <= i < r@.len() ==> (#[trigger] r@[i]).0@ == self.fields.keys()[i]
                && r@[i].1@ == code_type_name(self.fields.vals()[i]),
    {
        let names = self.fields.names();
        let codes = self.fields.values();
        proof {
            use_type_invariant(&self.fields);
            self.fields.lemma_entries();
        }
        let mut r: Vec<(String, String)> = Vec::new();
        let mut i: usize = 0;
        while i < codes.len()
            invariant
                codes@ == self.fields.vals(),
                names@.map_values(|s: String| s@) == self.fields.keys(),
                self.fields.keys().len() == self.fields.vals().len(),
                forall|j: int| 0 <= j < self.fields.vals().len() ==> code_has_type_name(#[trigger] self.fields.vals()[j]),
                0 <= i <= codes@.len(),
                r@.len() == i,
                forall|j: int| 0 <= j < i ==> (#[trigger] r@[j]).0@ == self.fields.keys()[j]
                    && r@[j].1@ == code_type_name(self.fields.vals()[j]),
            decreases codes@.len() - i,
        {
            let code = codes[i];
            assert(code_has_type_name(self.fields.vals()[i as int]));
            let tpe = match DType::from_repr(code) {
                Some(d) => {
                    proof {
                        lemma_dtype_code_round_trip(d, d);
                    }
                    d.schema_type()
                },
                None => owned("unknown"),
            };
            assert(names@.map_values(|s: String| s@)[i as int] == names@[i as int]@);
            r.push((names[i].clone(), tpe));
            i = i + 1;
        }
        r
    }
}

/// Whether a type byte can be shown to clients: it stands for no data type,
/// or for one that has a name clients are shown.
pub open spec fn code_has_type_name(code: u8) -> bool {
    match dtype_of_code(code) {
        Some(d) => has_schema_type(d),
        None => true,
    }
}

/// The type name clients are shown for a type byte.
pub open spec fn code_type_name(code: u8) -> Seq<char> {
    match dtype_of_code(code) {
        Some(d) => schema_type_name(d),
        None => "unknown"@,
    }
}

/// Type bytes widened to 32 bits.
pub open spec fn widen_codes(v: Seq<u8>) -> Seq<u32> {
    v.map_values(|x: u8| x as u32)
}

/// Wide type codes narrowed to their low byte.
pub open spec fn narrow_codes(v: Seq<u32>) -> Seq<u8> {
    v.map_values(|x: u32| x as u8)
}

/// Widening the type bytes of a schema and narrowing them again gives back
/// the bytes it started from.
pub proof fn lemma_wide_round_trip(v: Seq<u8>)
    ensures
        narrow_codes(widen_codes(v)) == v,
{
    assert(narrow_codes(widen_codes(v)) =~= v);
}

} // verus!
