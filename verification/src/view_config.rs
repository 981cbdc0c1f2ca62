use vstd::prelude::*;

use crate::text::{intersperse_collect, owned, seq_join, str_eq};

verus! {

/// The error of a request that names something the engine does not know.
#[derive(Clone, Debug, PartialEq, Eq)]
pub struct ApiError {
    pub message: String,
}

/// The result of a request that can fail with an [`ApiError`].
pub type ApiResult<T> = Result<T, ApiError>;

// ---------------------------------------------------------------- filters

/// A comparison applied by a filter to the values of a column.
#[derive(Clone, Copy, Debug, PartialEq, Eq, Structural)]
pub enum FilterOp {
    Contains,
    NotIn,
    In,
    BeginsWith,
    EndsWith,
    IsNull,
    IsNotNull,
    GT,
    LT,
    EQ,
    GTE,
    LTE,
    NE,
}

/// The text by which a filter operator is written.
pub open spec fn filter_op_name(op: FilterOp) -> Seq<char> {
    match op {
        FilterOp::Contains => "contains"@,
        FilterOp::In => "in"@,
        FilterOp::NotIn => "not in"@,
        FilterOp::BeginsWith => "begins with"@,
        FilterOp::EndsWith => "ends with"@,
        FilterOp::IsNull => "is null"@,
        FilterOp::IsNotNull => "is not null"@,
        FilterOp::GT => ">"@,
        FilterOp::LT => "<"@,
        FilterOp::EQ => "=="@,
        FilterOp::GTE => ">="@,
        FilterOp::LTE => "<="@,
        FilterOp::NE => "!="@,
    }
}

impl FilterOp {
    /// The operator's text, as its `Display` writes it.
    pub fn to_string(&self) -> (s: String)
        ensures
            s@ == filter_op_name(*self),
    {
        match self {
            FilterOp::Contains => owned("contains"),
            FilterOp::In => owned("in"),
            FilterOp::NotIn => owned("not in"),
            FilterOp::BeginsWith => owned("begins with"),
            FilterOp::EndsWith => owned("ends with"),
            FilterOp::IsNull => owned("is null"),
            FilterOp::IsNotNull => owned("is not null"),
            FilterOp::GT => owned(">"),
            FilterOp::LT => owned("<"),
            FilterOp::EQ => owned("=="),
            FilterOp::GTE => owned(">="),
            FilterOp::LTE => owned("<="),
            FilterOp::NE => owned("!="),
        }
    }

    /// Reads an operator from its text; any other text is refused with a
    /// message that quotes it.
    pub fn from_str(input: &str) -> (r: Result<FilterOp, String>)
        ensures
            match r {
                Ok(op) => filter_op_name(op) == input@,
                Err(msg) => (forall|op: FilterOp| filter_op_name(op) != input@)
                    && msg@ == "Unknown filter operator "@ + input@,
            },
    {
        if str_eq(input, "contains") {
            Ok(FilterOp::Contains)
        } else if str_eq(input, "in") {
            Ok(FilterOp::In)
        } else if str_eq(input, "not in") {
            Ok(FilterOp::NotIn)
        } else if str_eq(input, "begins with") {
            Ok(FilterOp::BeginsWith)
        } else if str_eq(input, "ends with") {
            Ok(FilterOp::EndsWith)
        } else if str_eq(input, "is null") {
            Ok(FilterOp::IsNull)
        } else if str_eq(input, "is not null") {
            Ok(FilterOp::IsNotNull)
        } else if str_eq(input, ">") {
            Ok(FilterOp::GT)
        } else if str_eq(input, "<") {
            Ok(FilterOp::LT)
        } else if str_eq(input, "==") {
            Ok(FilterOp::EQ)
        } else if str_eq(input, ">=") {
            Ok(FilterOp::GTE)
        } else if str_eq(input, "<=") {
            Ok(FilterOp::LTE)
        } else if str_eq(input, "!=") {
            Ok(FilterOp::NE)
        } else {
            Err(owned("Unknown filter operator ").concat(input))
        }
    }
}

/// The length and leading characters of each text, which tell the texts
/// apart.
proof fn lemma_filter_op_name_key(x: FilterOp)
    ensures
        ({
            let n = filter_op_name(x);
            match x {
                FilterOp::Contains => n.len() == 8 && n[0] == 'c',
                FilterOp::In => n.len() == 2 && n[0] == 'i',
                FilterOp::NotIn => n.len() == 6 && n[0] == 'n',
                FilterOp::BeginsWith => n.len() == 11 && n[0] == 'b',
                FilterOp::EndsWith => n.len() == 9 && n[0] == 'e',
                FilterOp::IsNull => n.len() == 7 && n[0] == 'i',
                FilterOp::IsNotNull => n.len() == 11 && n[0] == 'i',
                FilterOp::GT => n.len() == 1 && n[0] == '>',
                FilterOp::LT => n.len() == 1 && n[0] == '<',
                FilterOp::EQ => n.len() == 2 && n[0] == '=',
                FilterOp::GTE => n.len() == 2 && n[0] == '>',
                FilterOp::LTE => n.len() == 2 && n[0] == '<',
                FilterOp::NE => n.len() == 2 && n[0] == '!',
            }
        }),
{
    match x {
        FilterOp::Contains => {
            reveal_strlit("contains");
        },
        FilterOp::In => {
            reveal_strlit("in");
        },
        FilterOp::NotIn => {
            reveal_strlit("not in");
        },
        FilterOp::BeginsWith => {
            reveal_strlit("begins with");
        },
        FilterOp::EndsWith => {
            reveal_strlit("ends with");
        },
        FilterOp::IsNull => {
            reveal_strlit("is null");
        },
        FilterOp::IsNotNull => {
            reveal_strlit("is not null");
        },
        FilterOp::GT => {
            reveal_strlit(">");
        },
        FilterOp::LT => {
            reveal_strlit("<");
        },
        FilterOp::EQ => {
            reveal_strlit("==");
        },
        FilterOp::GTE => {
            reveal_strlit(">=");
        },
        FilterOp::LTE => {
            reveal_strlit("<=");
        },
        FilterOp::NE => {
            reveal_strlit("!=");
        },
    }
}

/// No two filter operators are written alike, so reading the text of an
/// operator gives that operator back.
pub proof fn lemma_filter_op_names_distinct(a: FilterOp, b: FilterOp)
    requires
        filter_op_name(a) == filter_op_name(b),
    ensures
        a == b,
{
    lemma_filter_op_name_key(a);
    lemma_filter_op_name_key(b);
}

/// How each filter operator is written: the text tests by their words
/// (`contains`, `in`, `not in`, `begins with`, `ends with`, `is null`,
/// `is not null`) and the comparisons by their symbols (`>`, `<`, `==`, `>=`,
/// `<=`, `!=`).
pub proof fn lemma_filter_op_texts()
    ensures
        filter_op_name(FilterOp::Contains) == "contains"@,
        filter_op_name(FilterOp::In) == "in"@,
        filter_op_name(FilterOp::NotIn) == "not in"@,
        filter_op_name(FilterOp::BeginsWith) == "begins with"@,
        filter_op_name(FilterOp::EndsWith) == "ends with"@,
        filter_op_name(FilterOp::IsNull) == "is null"@,
        filter_op_name(FilterOp::IsNotNull) == "is not null"@,
        filter_op_name(FilterOp::GT) == ">"@,
        filter_op_name(FilterOp::LT) == "<"@,
        filter_op_name(FilterOp::EQ) == "=="@,
        filter_op_name(FilterOp::GTE) == ">="@,
        filter_op_name(FilterOp::LTE) == "<="@,
        filter_op_name(FilterOp::NE) == "!="@,
{
}

/// The text of a list filter term: the texts of its values, separated by
/// commas.
pub fn format_term_list(values: &Vec<String>) -> (s: String)
    ensures
        s@ == seq_join(values@.map_values(|v: String| v@), ","@),
{
    intersperse_collect(values, ",")
}

// ---------------------------------------------------------------- sorting

/// The direction in which a column is sorted.
#[derive(Clone, Copy, Debug, PartialEq, Eq, Structural)]
pub enum SortDir {
    Unsorted,
    Desc,
    Asc,
    ColDesc,
    ColAsc,
    DescAbs,
    AscAbs,
    ColDescAbs,
    ColAscAbs,
}

/// A column name with the direction it is sorted in.
#[derive(Clone, Debug, PartialEq, Eq)]
pub struct Sort(pub String, pub SortDir);

/// The text by which a sort direction is written.
pub open spec fn sort_dir_name(d: SortDir) -> Seq<char> {
    match d {
        SortDir::Unsorted => "none"@,
        SortDir::Desc => "desc"@,
        SortDir::Asc => "asc"@,
        SortDir::ColDesc => "col desc"@,
        SortDir::ColAsc => "col asc"@,
        SortDir::DescAbs => "desc abs"@,
        SortDir::AscAbs => "asc abs"@,
        SortDir::ColDescAbs => "col desc abs"@,
        SortDir::ColAscAbs => "col asc abs"@,
    }
}

/// How each sort direction is written: `none`, then `asc` or `desc`, with
/// `col ` before it for sorting by column and ` abs` after it for sorting by
/// absolute value.
pub proof fn lemma_sort_dir_texts()
    ensures
        sort_dir_name(SortDir::Unsorted) == "none"@,
        sort_dir_name(SortDir::Asc) == "asc"@,
        sort_dir_name(SortDir::Desc) == "desc"@,
        sort_dir_name(SortDir::ColAsc) == "col asc"@,
        sort_dir_name(SortDir::ColDesc) == "col desc"@,
        sort_dir_name(SortDir::AscAbs) == "asc abs"@,
        sort_dir_name(SortDir::DescAbs) == "desc abs"@,
        sort_dir_name(SortDir::ColAscAbs) == "col asc abs"@,
        sort_dir_name(SortDir::ColDescAbs) == "col desc abs"@,
{
}

/// The ring of directions that `cycle` steps through, for a view with or
/// without split columns and with or without the absolute-value modifier.
pub open spec fn sort_cycle_order(split_by: bool, abs: bool) -> Seq<SortDir> {
    if !split_by && !abs {
        seq![SortDir::Unsorted, SortDir::Asc, SortDir::Desc]
    } else if !split_by && abs {
        seq![SortDir::Unsorted, SortDir::AscAbs, SortDir::DescAbs]
    } else if split_by && !abs {
        seq![SortDir::Unsorted, SortDir::Asc, SortDir::Desc, SortDir::ColAsc, SortDir::ColDesc]
    } else {
        seq![SortDir::Unsorted, SortDir::AscAbs, SortDir::DescAbs, SortDir::ColAscAbs, SortDir::ColDescAbs]
    }
}

/// The index of the first occurrence of `x` in `s`, or `s.len()` where it
/// does not occur.
pub open spec fn first_index_of(s: Seq<SortDir>, x: SortDir) -> int
    decreases s.len(),
{
    if s.len() == 0 {
        0
    } else if s[0] == x {
        0
    } else {
        1 + first_index_of(s.drop_first(), x)
    }
}

/// The direction that follows `d` in the ring; a direction outside the ring
/// is treated as standing at its start.
pub open spec fn next_sort_dir(d: SortDir, split_by: bool, abs: bool) -> SortDir {
    let order = sort_cycle_order(split_by, abs);
    let i = first_index_of(order, d);
    let pos = if i < order.len() { i } else { 0 };
    order[(pos + 1) % (order.len() as int)]
}

impl SortDir {
    /// The direction's text, as its `Display` writes it.
    pub fn to_string(&self) -> (s: String)
        ensures
            s@ == sort_dir_name(*self),
    {
        match self {
            SortDir::Unsorted => owned("none"),
            SortDir::Desc => owned("desc"),
            SortDir::Asc => owned("asc"),
            SortDir::ColDesc => owned("col desc"),
            SortDir::ColAsc => owned("col asc"),
            SortDir::DescAbs => owned("desc abs"),
            SortDir::AscAbs => owned("asc abs"),
            SortDir::ColDescAbs => owned("col desc abs"),
            SortDir::ColAscAbs => owned("col asc abs"),
        }
    }

    /// Increment the `SortDir` in logical order, given an `abs()` modifier.
    pub fn cycle(&self, split_by: bool, abs: bool) -> (r: SortDir)
        ensures
            r == next_sort_dir(*self, split_by, abs),
    {
        let order: Vec<SortDir> = if !split_by && !abs {
            vec![SortDir::Unsorted, SortDir::Asc, SortDir::Desc]
        } else if !split_by && abs {
            vec![SortDir::Unsorted, SortDir::AscAbs, SortDir::DescAbs]
        } else if split_by && !abs {
            vec![SortDir::Unsorted, SortDir::Asc, SortDir::Desc, SortDir::ColAsc, SortDir::ColDesc]
        } else {
            vec![SortDir::Unsorted, SortDir::AscAbs, SortDir::DescAbs, SortDir::ColAscAbs, SortDir::ColDescAbs]
        };
        let ghost ring = sort_cycle_order(split_by, abs);
        assert(order@ == ring);
        let mut index: usize = 0;
        assert(order@.skip(0) == order@);
        while index < order.len() && order[index] != *self
            invariant
                order@ == ring,
                ring.len() == 3 || ring.len() == 5,
                0 <= index <= order.len(),
                first_index_of(order@.skip(index as int), *self) + index == first_index_of(ring, *self),
            decreases order.len() - index,
        {
            assert(order@.skip(index as int).drop_first() == order@.skip(index + 1));
            index = index + 1;
        }
        let pos = if index < order.len() { index } else { 0 };
        order[(pos + 1) % order.len()]
    }
}

// ---------------------------------------------------------------- aggregates

/// An aggregate that reduces a single column.
#[derive(Clone, Copy, Debug, PartialEq, Eq, PartialOrd, Ord, Hash, Structural)]
pub enum SingleAggregate {
    Sum,
    SumAbs,
    SumNotNull,
    AbsSum,
    PctSumParent,
    PctSumGrandTotal,
    Any,
    Unique,
    Dominant,
    Median,
    First,
    LastByIndex,
    LastMinusFirst,
    Last,
    Count,
    DistinctCount,
    Avg,
    Mean,
    Join,
    High,
    Low,
    Max,
    Min,
    HighMinusLow,
    StdDev,
    Var,
}

/// An aggregate that reduces a column weighted by a second one.
#[derive(Clone, Copy, Debug, PartialEq, Eq, PartialOrd, Ord, Hash, Structural)]
pub enum MultiAggregate {
    WeightedMean,
}

/// How the values of a column are combined when rows are grouped.
#[derive(Clone, Debug, PartialEq, Eq, PartialOrd, Ord, Hash)]
pub enum Aggregate {
    SingleAggregate(SingleAggregate),
    MultiAggregate(MultiAggregate, String),
}

/// The text by which a single-column aggregate is written.
pub open spec fn single_aggregate_name(a: SingleAggregate) -> Seq<char> {
    match a {
        SingleAggregate::Sum => "sum"@,
        SingleAggregate::SumAbs => "sum abs"@,
        SingleAggregate::SumNotNull => "sum not null"@,
        SingleAggregate::AbsSum => "abs sum"@,
        SingleAggregate::PctSumParent => "pct sum parent"@,
        SingleAggregate::PctSumGrandTotal => "pct sum grand total"@,
        SingleAggregate::Any => "any"@,
        SingleAggregate::Unique => "unique"@,
        SingleAggregate::Dominant => "dominant"@,
        SingleAggregate::Median => "median"@,
        SingleAggregate::First => "first"@,
        SingleAggregate::LastByIndex => "last by index"@,
        SingleAggregate::LastMinusFirst => "last minus first"@,
        SingleAggregate::Last => "last"@,
        SingleAggregate::Count => "count"@,
        SingleAggregate::DistinctCount => "distinct count"@,
        SingleAggregate::Avg => "avg"@,
        SingleAggregate::Mean => "mean"@,
        SingleAggregate::Join => "join"@,
        SingleAggregate::High => "high"@,
        SingleAggregate::Low => "low"@,
        SingleAggregate::Max => "max"@,
        SingleAggregate::Min => "min"@,
        SingleAggregate::HighMinusLow => "high minus low"@,
        SingleAggregate::StdDev => "stddev"@,
        SingleAggregate::Var => "var"@,
    }
}

/// How each single-column aggregate is written.
pub proof fn lemma_single_aggregate_texts()
    ensures
        single_aggregate_name(SingleAggregate::Sum) == "sum"@,
        single_aggregate_name(SingleAggregate::SumAbs) == "sum abs"@,
        single_aggregate_name(SingleAggregate::SumNotNull) == "sum not null"@,
        single_aggregate_name(SingleAggregate::AbsSum) == "abs sum"@,
        single_aggregate_name(SingleAggregate::PctSumParent) == "pct sum parent"@,
        single_aggregate_name(SingleAggregate::PctSumGrandTotal) == "pct sum grand total"@,
        single_aggregate_name(SingleAggregate::Any) == "any"@,
        single_aggregate_name(SingleAggregate::Unique) == "unique"@,
        single_aggregate_name(SingleAggregate::Dominant) == "dominant"@,
        single_aggregate_name(SingleAggregate::Median) == "median"@,
        single_aggregate_name(SingleAggregate::First) == "first"@,
        single_aggregate_name(SingleAggregate::LastByIndex) == "last by index"@,
        single_aggregate_name(SingleAggregate::LastMinusFirst) == "last minus first"@,
        single_aggregate_name(SingleAggregate::Last) == "last"@,
        single_aggregate_name(SingleAggregate::Count) == "count"@,
        single_aggregate_name(SingleAggregate::DistinctCount) == "distinct count"@,
        single_aggregate_name(SingleAggregate::Avg) == "avg"@,
        single_aggregate_name(SingleAggregate::Mean) == "mean"@,
        single_aggregate_name(SingleAggregate::Join) == "join"@,
        single_aggregate_name(SingleAggregate::High) == "high"@,
        single_aggregate_name(SingleAggregate::Low) == "low"@,
        single_aggregate_name(SingleAggregate::Max) == "max"@,
        single_aggregate_name(SingleAggregate::Min) == "min"@,
        single_aggregate_name(SingleAggregate::HighMinusLow) == "high minus low"@,
        single_aggregate_name(SingleAggregate::StdDev) == "stddev"@,
        single_aggregate_name(SingleAggregate::Var) == "var"@,
{
}

/// The text that introduces a weighted mean, before the weighting column.
pub open spec fn weighted_mean_prefix() -> Seq<char> {
    "weighted mean by "@
}

/// The text by which an aggregate is written.
pub open spec fn aggregate_text(a: Aggregate) -> Seq<char> {
    match a {
        Aggregate::SingleAggregate(x) => single_aggregate_name(x),
        Aggregate::MultiAggregate(MultiAggregate::WeightedMean, col) => weighted_mean_prefix() + col@,
    }
}

/// The message with which an unknown aggregate is refused.
pub open spec fn unknown_aggregate_message(input: Seq<char>) -> Seq<char> {
    "Unknown aggregate `"@ + input + "`"@
}

impl SingleAggregate {
    /// The aggregate's text, as its `Display` writes it.
    pub fn to_string(&self) -> (s: String)
        ensures
            s@ == single_aggregate_name(*self),
    {
        match self {
            SingleAggregate::Sum => owned("sum"),
            SingleAggregate::SumAbs => owned("sum abs"),
            SingleAggregate::SumNotNull => owned("sum not null"),
            SingleAggregate::AbsSum => owned("abs sum"),
            SingleAggregate::PctSumParent => owned("pct sum parent"),
            SingleAggregate::PctSumGrandTotal => owned("pct sum grand total"),
            SingleAggregate::Any => owned("any"),
            SingleAggregate::Unique => owned("unique"),
            SingleAggregate::Dominant => owned("dominant"),
            SingleAggregate::Median => owned("median"),
            SingleAggregate::First => owned("first"),
            SingleAggregate::LastByIndex => owned("last by index"),
            SingleAggregate::LastMinusFirst => owned("last minus first"),
            SingleAggregate::Last => owned("last"),
            SingleAggregate::Count => owned("count"),
            SingleAggregate::DistinctCount => owned("distinct count"),
            SingleAggregate::Avg => owned("avg"),
            SingleAggregate::Mean => owned("mean"),
            SingleAggregate::Join => owned("join"),
            SingleAggregate::High => owned("high"),
            SingleAggregate::Low => owned("low"),
            SingleAggregate::Max => owned("max"),
            SingleAggregate::Min => owned("min"),
            SingleAggregate::HighMinusLow => owned("high minus low"),
            SingleAggregate::StdDev => owned("stddev"),
            SingleAggregate::Var => owned("var"),
        }
    }

    /// Reads an aggregate from its text; any other text is refused with a
    /// message that quotes it.
    pub fn from_str(input: &str) -> (r: ApiResult<SingleAggregate>)
        ensures
            match r {
                Ok(a) => single_aggregate_name(a) == input@,
                Err(e) => (forall|a: SingleAggregate| single_aggregate_name(a) != input@)
                    && e.message@ == unknown_aggregate_message(input@),
            },
    {
        if str_eq(input, "sum") {
            Ok(SingleAggregate::Sum)
        } else if str_eq(input, "sum abs") {
            Ok(SingleAggregate::SumAbs)
        } else if str_eq(input, "sum not null") {
            Ok(SingleAggregate::SumNotNull)
        } else if str_eq(input, "abs sum") {
            Ok(SingleAggregate::AbsSum)
        } else if str_eq(input, "pct sum parent") {
            Ok(SingleAggregate::PctSumParent)
        } else if str_eq(input, "pct sum grand total") {
            Ok(SingleAggregate::PctSumGrandTotal)
        } else if str_eq(input, "any") {
            Ok(SingleAggregate::Any)
        } else if str_eq(input, "unique") {
            Ok(SingleAggregate::Unique)
        } else if str_eq(input, "dominant") {
            Ok(SingleAggregate::Dominant)
        } else if str_eq(input, "median") {
            Ok(SingleAggregate::Median)
        } else if str_eq(input, "first") {
            Ok(SingleAggregate::First)
        } else if str_eq(input, "last by index") {
            Ok(SingleAggregate::LastByIndex)
        } else if str_eq(input, "last minus first") {
            Ok(SingleAggregate::LastMinusFirst)
        } else if str_eq(input, "last") {
            Ok(SingleAggregate::Last)
        } else if str_eq(input, "count") {
            Ok(SingleAggregate::Count)
        } else if str_eq(input, "distinct count") {
            Ok(SingleAggregate::DistinctCount)
        } else if str_eq(input, "avg") {
            Ok(SingleAggregate::Avg)
        } else if str_eq(input, "mean") {
            Ok(SingleAggregate::Mean)
        } else if str_eq(input, "join") {
            Ok(SingleAggregate::Join)
        } else if str_eq(input, "high") {
            Ok(SingleAggregate::High)
        } else if str_eq(input, "low") {
            Ok(SingleAggregate::Low)
        } else if str_eq(input, "max") {
            Ok(SingleAggregate::Max)
        } else if str_eq(input, "min") {
            Ok(SingleAggregate::Min)
        } else if str_eq(input, "high minus low") {
            Ok(SingleAggregate::HighMinusLow)
        } else if str_eq(input, "stddev") {
            Ok(SingleAggregate::StdDev)
        } else if str_eq(input, "var") {
            Ok(SingleAggregate::Var)
        } else {
            Err(ApiError { message: owned("Unknown aggregate `").concat(input).concat("`") })
        }
    }
}

/// The length and leading characters of each text, which tell the texts
/// apart.
proof fn lemma_single_aggregate_name_key(x: SingleAggregate)
    ensures
        ({
            let n = single_aggregate_name(x);
            match x {
                SingleAggregate::Sum => n.len() == 3 && n[0] == 's' && n[1] == 'u',
                SingleAggregate::SumAbs => n.len() == 7 && n[0] == 's' && n[1] == 'u',
                SingleAggregate::SumNotNull => n.len() == 12 && n[0] == 's' && n[1] == 'u',
                SingleAggregate::AbsSum => n.len() == 7 && n[0] == 'a' && n[1] == 'b',
                SingleAggregate::PctSumParent => n.len() == 14 && n[0] == 'p' && n[1] == 'c',
                SingleAggregate::PctSumGrandTotal => n.len() == 19 && n[0] == 'p' && n[1] == 'c',
                SingleAggregate::Any => n.len() == 3 && n[0] == 'a' && n[1] == 'n',
                SingleAggregate::Unique => n.len() == 6 && n[0] == 'u' && n[1] == 'n',
                SingleAggregate::Dominant => n.len() == 8 && n[0] == 'd' && n[1] == 'o',
                SingleAggregate::Median => n.len() == 6 && n[0] == 'm' && n[1] == 'e',
                SingleAggregate::First => n.len() == 5 && n[0] == 'f' && n[1] == 'i',
                SingleAggregate::LastByIndex => n.len() == 13 && n[0] == 'l' && n[1] == 'a',
                SingleAggregate::LastMinusFirst => n.len() == 16 && n[0] == 'l' && n[1] == 'a',
                SingleAggregate::Last => n.len() == 4 && n[0] == 'l' && n[1] == 'a',
                SingleAggregate::Count => n.len() == 5 && n[0] == 'c' && n[1] == 'o',
                SingleAggregate::DistinctCount => n.len() == 14 && n[0] == 'd' && n[1] == 'i',
                SingleAggregate::Avg => n.len() == 3 && n[0] == 'a' && n[1] == 'v',
                SingleAggregate::Mean => n.len() == 4 && n[0] == 'm' && n[1] == 'e',
                SingleAggregate::Join => n.len() == 4 && n[0] == 'j' && n[1] == 'o',
                SingleAggregate::High => n.len() == 4 && n[0] == 'h' && n[1] == 'i',
                SingleAggregate::Low => n.len() == 3 && n[0] == 'l' && n[1] == 'o',
                SingleAggregate::Max => n.len() == 3 && n[0] == 'm' && n[1] == 'a',
                SingleAggregate::Min => n.len() == 3 && n[0] == 'm' && n[1] == 'i',
                SingleAggregate::HighMinusLow => n.len() == 14 && n[0] == 'h' && n[1] == 'i',
                SingleAggregate::StdDev => n.len() == 6 && n[0] == 's' && n[1] == 't',
                SingleAggregate::Var => n.len() == 3 && n[0] == 'v' && n[1] == 'a',
            }
        }),
{
    match x {
        SingleAggregate::Sum => {
            reveal_strlit("sum");
        },
        SingleAggregate::SumAbs => {
            reveal_strlit("sum abs");
        },
        SingleAggregate::SumNotNull => {
            reveal_strlit("sum not null");
        },
        SingleAggregate::AbsSum => {
            reveal_strlit("abs sum");
        },
        SingleAggregate::PctSumParent => {
            reveal_strlit("pct sum parent");
        },
        SingleAggregate::PctSumGrandTotal => {
            reveal_strlit("pct sum grand total");
        },
        SingleAggregate::Any => {
            reveal_strlit("any");
        },
        SingleAggregate::Unique => {
            reveal_strlit("unique");
        },
        SingleAggregate::Dominant => {
            reveal_strlit("dominant");
        },
        SingleAggregate::Median => {
            reveal_strlit("median");
        },
        SingleAggregate::First => {
            reveal_strlit("first");
        },
        SingleAggregate::LastByIndex => {
            reveal_strlit("last by index");
        },
        SingleAggregate::LastMinusFirst => {
            reveal_strlit("last minus first");
        },
        SingleAggregate::Last => {
            reveal_strlit("last");
        },
        SingleAggregate::Count => {
            reveal_strlit("count");
        },
        SingleAggregate::DistinctCount => {
            reveal_strlit("distinct count");
        },
        SingleAggregate::Avg => {
            reveal_strlit("avg");
        },
        SingleAggregate::Mean => {
            reveal_strlit("mean");
        },
        SingleAggregate::Join => {
            reveal_strlit("join");
        },
        SingleAggregate::High => {
            reveal_strlit("high");
        },
        SingleAggregate::Low => {
            reveal_strlit("low");
        },
        SingleAggregate::Max => {
            reveal_strlit("max");
        },
        SingleAggregate::Min => {
            reveal_strlit("min");
        },
        SingleAggregate::HighMinusLow => {
            reveal_strlit("high minus low");
        },
        SingleAggregate::StdDev => {
            reveal_strlit("stddev");
        },
        SingleAggregate::Var => {
            reveal_strlit("var");
        },
    }
}

/// No two single-column aggregates are written alike, so reading the text of
/// an aggregate gives that aggregate back.
pub proof fn lemma_single_aggregate_names_distinct(a: SingleAggregate, b: SingleAggregate)
    requires
        single_aggregate_name(a) == single_aggregate_name(b),
    ensures
        a == b,
{
    lemma_single_aggregate_name_key(a);
    lemma_single_aggregate_name_key(b);
}

/// Whether the text begins with the weighted-mean prefix.
pub open spec fn has_weighted_mean_prefix(input: Seq<char>) -> bool {
    &&& input.len() >= weighted_mean_prefix().len()
    &&& input.subrange(0, weighted_mean_prefix().len() as int) == weighted_mean_prefix()
}

/// Whether `a` is the aggregate that the text `input` is read as: a weighted
/// mean by the rest of the text where the text begins with the weighted-mean
/// prefix, else the single-column aggregate written as the whole text.
pub open spec fn aggregate_parses_to(input: Seq<char>, a: Aggregate) -> bool {
    if has_weighted_mean_prefix(input) {
        &&& a matches Aggregate::MultiAggregate(MultiAggregate::WeightedMean, col)
        &&& col@ == input.skip(weighted_mean_prefix().len() as int)
    } else {
        &&& a matches Aggregate::SingleAggregate(x)
        &&& single_aggregate_name(x) == input
    }
}

/// Two aggregates are alike when they are the same single-column aggregate,
/// or weighted means by columns of the same name.
pub open spec fn same_aggregate(a: Aggregate, b: Aggregate) -> bool {
    match (a, b) {
        (Aggregate::SingleAggregate(x), Aggregate::SingleAggregate(y)) => x == y,
        (Aggregate::MultiAggregate(m, c), Aggregate::MultiAggregate(n, d)) => m == n && c@ == d@,
        _ => false,
    }
}

impl Aggregate {
    /// The aggregate's text, as its `Display` writes it.
    pub fn to_string(&self) -> (s: String)
        ensures
            s@ == aggregate_text(*self),
    {
        match self {
            Aggregate::SingleAggregate(x) => x.to_string(),
            Aggregate::MultiAggregate(MultiAggregate::WeightedMean, col) => {
                owned("weighted mean by ").concat(col.as_str())
            },
        }
    }

    /// Reads an aggregate from its text: a text that begins with
    /// `weighted mean by ` is a weighted mean by the column named by the rest;
    /// any other text must name a single-column aggregate.
    pub fn from_str(input: &str) -> (r: ApiResult<Aggregate>)
        ensures
            match r {
                Ok(a) => aggregate_parses_to(input@, a),
                Err(e) => !has_weighted_mean_prefix(input@)
                    && (forall|x: SingleAggregate| single_aggregate_name(x) != input@)
                    && e.message@ == unknown_aggregate_message(input@),
            },
    {
        proof {
            reveal_strlit("weighted mean by ");
        }
        let n = input.unicode_len();
        if n >= 17 && str_eq(input.substring_char(0, 17), "weighted mean by ") {
            let rest = input.substring_char(17, n);
            Ok(Aggregate::MultiAggregate(MultiAggregate::WeightedMean, owned(rest)))
        } else {
            match SingleAggregate::from_str(input) {
                Ok(x) => Ok(Aggregate::SingleAggregate(x)),
                Err(e) => Err(e),
            }
        }
    }
}

/// No single-column aggregate is written with the weighted-mean prefix.
proof fn lemma_single_names_lack_prefix(x: SingleAggregate)
    ensures
        !has_weighted_mean_prefix(single_aggregate_name(x)),
{
    lemma_single_aggregate_name_key(x);
    reveal_strlit("weighted mean by ");
    if has_weighted_mean_prefix(single_aggregate_name(x)) {
        assert(single_aggregate_name(x)[0] == weighted_mean_prefix()[0]);
    }
}

/// Reading the text of an aggregate gives back an aggregate alike to it, and
/// only such: the text of every aggregate reads back as that aggregate.
pub proof fn lemma_aggregate_text_round_trip(a: Aggregate, b: Aggregate)
    ensures
        aggregate_parses_to(aggregate_text(a), b) <==> same_aggregate(a, b),
{
    reveal_strlit("weighted mean by ");
    match a {
        Aggregate::SingleAggregate(x) => {
            lemma_single_names_lack_prefix(x);
            if let Aggregate::SingleAggregate(y) = b {
                if single_aggregate_name(y) == single_aggregate_name(x) {
                    lemma_single_aggregate_names_distinct(x, y);
                }
            }
        },
        Aggregate::MultiAggregate(MultiAggregate::WeightedMean, col) => {
            let t = weighted_mean_prefix() + col@;
            assert(t.subrange(0, 17) == weighted_mean_prefix());
            assert(t.skip(17) == col@);
        },
    }
}

/// The text read as an aggregate is the text that aggregate is written with.
pub proof fn lemma_aggregate_parse_then_text(input: Seq<char>, a: Aggregate)
    requires
        aggregate_parses_to(input, a),
    ensures
        aggregate_text(a) == input,
{
    reveal_strlit("weighted mean by ");
    if has_weighted_mean_prefix(input) {
        assert(input == input.subrange(0, 17) + input.skip(17));
    }
}

// ---------------------------------------------------------------- column types

/// The type of the values of a column.
#[derive(Clone, Copy, Debug, PartialEq, Eq, Structural)]
pub enum Type {
    String,
    Integer,
    Float,
    Bool,
    Date,
    Datetime,
}

/// The aggregates offered for columns of text, dates and booleans.
pub open spec fn string_aggregates() -> Seq<SingleAggregate> {
    seq![SingleAggregate::Any, SingleAggregate::Count, SingleAggregate::DistinctCount, SingleAggregate::Dominant, SingleAggregate::First, SingleAggregate::Join, SingleAggregate::Last, SingleAggregate::LastByIndex, SingleAggregate::Median, SingleAggregate::Unique]
}

/// The aggregates offered for numeric columns.
pub open spec fn number_aggregates() -> Seq<SingleAggregate> {
    seq![SingleAggregate::AbsSum, SingleAggregate::Any, SingleAggregate::Avg, SingleAggregate::Count, SingleAggregate::DistinctCount, SingleAggregate::Dominant, SingleAggregate::First, SingleAggregate::High, SingleAggregate::Low, SingleAggregate::Max, SingleAggregate::Min, SingleAggregate::HighMinusLow, SingleAggregate::LastByIndex, SingleAggregate::LastMinusFirst, SingleAggregate::Last, SingleAggregate::Mean, SingleAggregate::Median, SingleAggregate::PctSumParent, SingleAggregate::PctSumGrandTotal, SingleAggregate::StdDev, SingleAggregate::Sum, SingleAggregate::SumAbs, SingleAggregate::SumNotNull, SingleAggregate::Unique, SingleAggregate::Var]
}

/// Whether values of the type are numbers.
pub open spec fn is_numeric(t: Type) -> bool {
    t == Type::Integer || t == Type::Float
}

/// The single-column aggregates offered for a column type.
pub open spec fn type_aggregates(t: Type) -> Seq<SingleAggregate> {
    if is_numeric(t) { number_aggregates() } else { string_aggregates() }
}

/// The aggregate a column of the type gets when none is chosen.
pub open spec fn type_default_aggregate(t: Type) -> SingleAggregate {
    if is_numeric(t) { SingleAggregate::Sum } else { SingleAggregate::Count }
}

impl Type {
    /// The aggregates that may be applied to a column of this type, in the
    /// order they are offered.
    pub fn aggregates_iter(&self) -> (r: Vec<Aggregate>)
        ensures
            r@ == type_aggregates(*self).map_values(|x: SingleAggregate| Aggregate::SingleAggregate(x)),
    {
        let list: Vec<SingleAggregate> = match self {
            Type::Bool | Type::Date | Type::Datetime | Type::String => vec![SingleAggregate::Any, SingleAggregate::Count, SingleAggregate::DistinctCount, SingleAggregate::Dominant, SingleAggregate::First, SingleAggregate::Join, SingleAggregate::Last, SingleAggregate::LastByIndex, SingleAggregate::Median, SingleAggregate::Unique],
            Type::Integer | Type::Float => vec![SingleAggregate::AbsSum, SingleAggregate::Any, SingleAggregate::Avg, SingleAggregate::Count, SingleAggregate::DistinctCount, SingleAggregate::Dominant, SingleAggregate::First, SingleAggregate::High, SingleAggregate::Low, SingleAggregate::Max, SingleAggregate::Min, SingleAggregate::HighMinusLow, SingleAggregate::LastByIndex, SingleAggregate::LastMinusFirst, SingleAggregate::Last, SingleAggregate::Mean, SingleAggregate::Median, SingleAggregate::PctSumParent, SingleAggregate::PctSumGrandTotal, SingleAggregate::StdDev, SingleAggregate::Sum, SingleAggregate::SumAbs, SingleAggregate::SumNotNull, SingleAggregate::Unique, SingleAggregate::Var],
        };
        let ghost expected = type_aggregates(*self);
        assert(list@ == expected);
        let mut out: Vec<Aggregate> = Vec::new();
        let mut i: usize = 0;
        while i < list.len()
            invariant
                list@ == expected,
                0 <= i <= list.len(),
                out@ == expected.take(i as int).map_values(|x: SingleAggregate| Aggregate::SingleAggregate(x)),
            decreases list.len() - i,
        {
            out.push(Aggregate::SingleAggregate(list[i]));
            assert(expected.take(i + 1) == expected.take(i as int).push(expected[i as int]));
            i = i + 1;
        }
        assert(expected.take(list.len() as int) == expected);
        out
    }

    /// The aggregate a column of this type gets when none is chosen.
    pub fn default_aggregate(&self) -> (r: Aggregate)
        ensures
            r == Aggregate::SingleAggregate(type_default_aggregate(*self)),
    {
        match self {
            Type::Bool | Type::Date | Type::Datetime | Type::String => {
                Aggregate::SingleAggregate(SingleAggregate::Count)
            },
            Type::Integer | Type::Float => Aggregate::SingleAggregate(SingleAggregate::Sum),
        }
    }
}

/// The default aggregate of a column type is one of the aggregates offered
/// for it.
pub proof fn lemma_default_aggregate_offered(t: Type)
    ensures
        type_aggregates(t).contains(type_default_aggregate(t)),
{
    if is_numeric(t) {
        assert(number_aggregates()[20] == SingleAggregate::Sum);
    } else {
        assert(string_aggregates()[1] == SingleAggregate::Count);
    }
}

/// The order in which `cycle` steps: from no sort to ascending, from
/// ascending to descending, and from descending back to no sort, or, where
/// the view has split columns, on to ascending by column, then descending by
/// column, and then back to no sort. With the absolute-value modifier each
/// sorted direction is its `abs` form. Any other direction goes to the first
/// sorted one, ascending.
pub proof fn lemma_cycle_order(d: SortDir, split_by: bool, abs: bool)
    ensures
        ({
            let asc = if abs { SortDir::AscAbs } else { SortDir::Asc };
            let desc = if abs { SortDir::DescAbs } else { SortDir::Desc };
            let col_asc = if abs { SortDir::ColAscAbs } else { SortDir::ColAsc };
            let col_desc = if abs { SortDir::ColDescAbs } else { SortDir::ColDesc };
            &&& next_sort_dir(SortDir::Unsorted, split_by, abs) == asc
            &&& next_sort_dir(asc, split_by, abs) == desc
            &&& next_sort_dir(desc, split_by, abs) == (if split_by { col_asc } else { SortDir::Unsorted })
            &&& split_by ==> next_sort_dir(col_asc, split_by, abs) == col_desc
            &&& split_by ==> next_sort_dir(col_desc, split_by, abs) == SortDir::Unsorted
            &&& (d != SortDir::Unsorted && d != asc && d != desc && (!split_by || (d != col_asc && d != col_desc)))
                ==> next_sort_dir(d, split_by, abs) == asc
        }),
{
    broadcast use vstd::seq_lib::group_seq_properties;
    let order = sort_cycle_order(split_by, abs);
    lemma_next_in_ring(0, split_by, abs);
    lemma_next_in_ring(1, split_by, abs);
    lemma_next_in_ring(2, split_by, abs);
    if split_by {
        lemma_next_in_ring(3, split_by, abs);
        lemma_next_in_ring(4, split_by, abs);
        assert(order.len() == 5);
    } else {
        assert(order.len() == 3);
    }
    let asc = if abs { SortDir::AscAbs } else { SortDir::Asc };
    let desc = if abs { SortDir::DescAbs } else { SortDir::Desc };
    let col_asc = if abs { SortDir::ColAscAbs } else { SortDir::ColAsc };
    let col_desc = if abs { SortDir::ColDescAbs } else { SortDir::ColDesc };
    assert(order[0] == SortDir::Unsorted && order[1] == asc && order[2] == desc);
    assert(next_sort_dir(SortDir::Unsorted, split_by, abs) == asc);
    assert(next_sort_dir(asc, split_by, abs) == desc);
    assert(next_sort_dir(desc, split_by, abs) == (if split_by { col_asc } else { SortDir::Unsorted }));
    if d != SortDir::Unsorted && d != asc && d != desc && (!split_by || (d != col_asc && d != col_desc)) {
        assert(!order.contains(d));
        lemma_cycle_from_outside(d, split_by, abs);
    }
}

/// A numeric column (integer or float) is offered every single-column
/// aggregate except `join`, each once; a column of text, dates, datetimes or
/// booleans is offered exactly `any`, `count`, `distinct count`, `dominant`,
/// `first`, `join`, `last`, `last by index`, `median` and `unique`, each once.
pub proof fn lemma_offered_aggregates(t: Type)
    ensures
        (t == Type::Integer || t == Type::Float) ==> {
            &&& type_aggregates(t).len() == 25
            &&& type_aggregates(t).no_duplicates()
            &&& forall|a: SingleAggregate| #[trigger] type_aggregates(t).contains(a) <==> a != SingleAggregate::Join
        },
        !(t == Type::Integer || t == Type::Float) ==> {
            &&& type_aggregates(t).len() == 10
            &&& type_aggregates(t).no_duplicates()
            &&& forall|a: SingleAggregate| #[trigger] type_aggregates(t).contains(a) <==> (
                a == SingleAggregate::Any || a == SingleAggregate::Count || a == SingleAggregate::DistinctCount
                || a == SingleAggregate::Dominant || a == SingleAggregate::First || a == SingleAggregate::Join
                || a == SingleAggregate::Last || a == SingleAggregate::LastByIndex || a == SingleAggregate::Median
                || a == SingleAggregate::Unique)
        },
{
    broadcast use vstd::seq_lib::group_seq_properties;
    let s = type_aggregates(t);
    assert forall|i: int, j: int| 0 <= i < s.len() && 0 <= j < s.len() && i != j implies s[i] != s[j] by {
    }
}

/// Numeric columns (integer and float) are summed when no aggregate is
/// chosen, and every other column is counted.
pub proof fn lemma_default_aggregates(t: Type)
    ensures
        type_default_aggregate(t) == SingleAggregate::Sum <==> (t == Type::Integer || t == Type::Float),
        type_default_aggregate(t) == SingleAggregate::Count <==> !(t == Type::Integer || t == Type::Float),
{
}

// ---------------------------------------------------------------- cycling laws

/// The direction reached from `d` after `n` steps of `cycle`.
pub open spec fn cycle_n(d: SortDir, split_by: bool, abs: bool, n: nat) -> SortDir
    decreases n,
{
    if n == 0 {
        d
    } else {
        cycle_n(next_sort_dir(d, split_by, abs), split_by, abs, (n - 1) as nat)
    }
}

/// The first index of `x` in `s` is the first position that holds `x`, or
/// the length of `s` where no position does.
proof fn lemma_first_index_of(s: Seq<SortDir>, x: SortDir)
    ensures
        0 <= first_index_of(s, x) <= s.len(),
        first_index_of(s, x) < s.len() ==> s[first_index_of(s, x)] == x,
        forall|j: int| 0 <= j < first_index_of(s, x) ==> s[j] != x,
    decreases s.len(),
{
    if s.len() > 0 && s[0] != x {
        lemma_first_index_of(s.drop_first(), x);
        assert forall|j: int| 0 <= j < first_index_of(s, x) implies s[j] != x by {
            if j > 0 {
                assert(s[j] == s.drop_first()[j - 1]);
            }
        }
    }
}

/// No direction occurs twice in a ring.
proof fn lemma_ring_distinct(split_by: bool, abs: bool)
    ensures
        forall|i: int, j: int|
            0 <= i < sort_cycle_order(split_by, abs).len() && 0 <= j < sort_cycle_order(split_by, abs).len()
            && sort_cycle_order(split_by, abs)[i] == sort_cycle_order(split_by, abs)[j] ==> i == j,
{
    let order = sort_cycle_order(split_by, abs);
    assert forall|i: int, j: int| 0 <= i < order.len() && 0 <= j < order.len() && order[i] == order[j] implies i == j by {
        if i != j {
            assert(order[i] != order[j]);
        }
    }
}

/// Stepping from the direction at position `k` of its ring goes to the next
/// position, wrapping from the last back to the first.
proof fn lemma_next_in_ring(k: int, split_by: bool, abs: bool)
    requires
        0 <= k < sort_cycle_order(split_by, abs).len(),
    ensures
        next_sort_dir(sort_cycle_order(split_by, abs)[k], split_by, abs)
            == sort_cycle_order(split_by, abs)[(k + 1) % (sort_cycle_order(split_by, abs).len() as int)],
{
    let order = sort_cycle_order(split_by, abs);
    let x = order[k];
    lemma_first_index_of(order, x);
    lemma_ring_distinct(split_by, abs);
    let i = first_index_of(order, x);
    assert(i <= k);
    assert(i == k);
}

/// Cycling always lands in the ring of directions for the given modifiers.
pub proof fn lemma_cycle_stays_in_ring(d: SortDir, split_by: bool, abs: bool)
    ensures
        sort_cycle_order(split_by, abs).contains(next_sort_dir(d, split_by, abs)),
{
    let order = sort_cycle_order(split_by, abs);
    lemma_first_index_of(order, d);
    let i = first_index_of(order, d);
    let pos = if i < order.len() { i } else { 0 };
    assert(0 <= (pos + 1) % (order.len() as int) < order.len());
    assert(order[(pos + 1) % (order.len() as int)] == next_sort_dir(d, split_by, abs));
}

/// A direction outside the ring moves to the first sorted direction of the
/// ring.
pub proof fn lemma_cycle_from_outside(d: SortDir, split_by: bool, abs: bool)
    requires
        !sort_cycle_order(split_by, abs).contains(d),
    ensures
        next_sort_dir(d, split_by, abs) == sort_cycle_order(split_by, abs)[1],
{
    let order = sort_cycle_order(split_by, abs);
    lemma_first_index_of(order, d);
    if first_index_of(order, d) < order.len() {
        assert(order[first_index_of(order, d)] == d);
    }
    vstd::arithmetic::div_mod::lemma_small_mod(1, order.len());
}

/// After `m` steps from position `k` of its ring, a direction stands at
/// position `k + m`, counted round the ring.
proof fn lemma_cycle_n_in_ring(k: int, split_by: bool, abs: bool, m: nat)
    requires
        0 <= k < sort_cycle_order(split_by, abs).len(),
    ensures
        cycle_n(sort_cycle_order(split_by, abs)[k], split_by, abs, m)
            == sort_cycle_order(split_by, abs)[(k + m) % (sort_cycle_order(split_by, abs).len() as int)],
    decreases m,
{
    let order = sort_cycle_order(split_by, abs);
    let len = order.len() as int;
    if m == 0 {
        vstd::arithmetic::div_mod::lemma_small_mod(k as nat, len as nat);
    } else {
        lemma_next_in_ring(k, split_by, abs);
        let k2 = (k + 1) % len;
        lemma_cycle_n_in_ring(k2, split_by, abs, (m - 1) as nat);
        assert((k2 + (m - 1)) % len == (k + m) % len) by {
            vstd::arithmetic::div_mod::lemma_add_mod_noop(k + 1, m - 1, len);
            vstd::arithmetic::div_mod::lemma_mod_twice(k + 1, len);
            vstd::arithmetic::div_mod::lemma_add_mod_noop(k2, m - 1, len);
        }
    }
}

/// For `0 <= a < 2 * n`, the remainder of `a` by `n` is `a` or `a - n`.
proof fn lemma_mod_once(a: int, n: int)
    requires
        0 < n,
        0 <= a < 2 * n,
    ensures
        a % n == (if a < n { a } else { a - n }),
{
    if a < n {
        vstd::arithmetic::div_mod::lemma_small_mod(a as nat, n as nat);
    } else {
        vstd::arithmetic::div_mod::lemma_mod_add_multiples_vanish(a - n, n);
        vstd::arithmetic::div_mod::lemma_small_mod((a - n) as nat, n as nat);
    }
}

/// Cycling a direction of the ring walks the whole ring and comes back: after
/// as many steps as the ring is long it is where it started, after any fewer
/// (but at least one) steps it is not, and every direction of the ring is
/// reached within those steps.
pub proof fn lemma_cycle_returns(d: SortDir, split_by: bool, abs: bool)
    requires
        sort_cycle_order(split_by, abs).contains(d),
    ensures
        cycle_n(d, split_by, abs, sort_cycle_order(split_by, abs).len()) == d,
        forall|m: nat| 0 < m < sort_cycle_order(split_by, abs).len() ==> #[trigger] cycle_n(d, split_by, abs, m) != d,
        forall|x: SortDir| #[trigger] sort_cycle_order(split_by, abs).contains(x) ==>
            exists|m: nat| m < sort_cycle_order(split_by, abs).len() && #[trigger] cycle_n(d, split_by, abs, m) == x,
{
    let order = sort_cycle_order(split_by, abs);
    let len = order.len() as int;
    let k = choose|k: int| 0 <= k < order.len() && order[k] == d;
    lemma_ring_distinct(split_by, abs);
    lemma_cycle_n_in_ring(k, split_by, abs, order.len());
    lemma_mod_once(k + len, len);
    assert forall|m: nat| 0 < m < order.len() implies #[trigger] cycle_n(d, split_by, abs, m) != d by {
        lemma_cycle_n_in_ring(k, split_by, abs, m);
        lemma_mod_once(k + m, len);
    }
    assert forall|x: SortDir| #[trigger] order.contains(x) implies
        exists|m: nat| m < order.len() && #[trigger] cycle_n(d, split_by, abs, m) == x by {
        let j = choose|j: int| 0 <= j < order.len() && order[j] == x;
        let m: nat = if j >= k { (j - k) as nat } else { (j - k + len) as nat };
        lemma_cycle_n_in_ring(k, split_by, abs, m);
        lemma_mod_once(k + m, len);
        assert(cycle_n(d, split_by, abs, m) == x);
    }
}

} // verus!
