use perspective::view_config::{
    format_term_list, Aggregate, FilterOp, MultiAggregate, SingleAggregate, SortDir, Type,
};

const FILTER_OPS: [FilterOp; 13] = [
    FilterOp::Contains,
    FilterOp::NotIn,
    FilterOp::In,
    FilterOp::BeginsWith,
    FilterOp::EndsWith,
    FilterOp::IsNull,
    FilterOp::IsNotNull,
    FilterOp::GT,
    FilterOp::LT,
    FilterOp::EQ,
    FilterOp::GTE,
    FilterOp::LTE,
    FilterOp::NE,
];

#[test]
fn filter_op_texts() {
    assert_eq!(FilterOp::Contains.to_string(), "contains");
    assert_eq!(FilterOp::NotIn.to_string(), "not in");
    assert_eq!(FilterOp::IsNotNull.to_string(), "is not null");
    assert_eq!(FilterOp::GTE.to_string(), ">=");
    assert_eq!(FilterOp::NE.to_string(), "!=");
}

#[test]
fn filter_op_round_trip() {
    for op in FILTER_OPS {
        assert_eq!(FilterOp::from_str(&op.to_string()), Ok(op));
    }
}

#[test]
fn filter_op_unknown() {
    assert_eq!(
        FilterOp::from_str("like"),
        Err("Unknown filter operator like".to_string())
    );
    assert_eq!(FilterOp::from_str(""), Err("Unknown filter operator ".to_string()));
    assert_eq!(
        FilterOp::from_str("IN"),
        Err("Unknown filter operator IN".to_string())
    );
}

#[test]
fn filter_term_list_joins_with_commas() {
    let parts = vec!["1".to_string(), "abc".to_string(), "true".to_string()];
    assert_eq!(format_term_list(&parts), "1,abc,true");
    assert_eq!(format_term_list(&vec!["x".to_string()]), "x");
    assert_eq!(format_term_list(&vec![]), "");
}

#[test]
fn sort_dir_texts() {
    assert_eq!(SortDir::Unsorted.to_string(), "none");
    assert_eq!(SortDir::ColDescAbs.to_string(), "col desc abs");
    assert_eq!(SortDir::AscAbs.to_string(), "asc abs");
}

#[test]
fn sort_dir_cycle_plain() {
    assert_eq!(SortDir::Unsorted.cycle(false, false), SortDir::Asc);
    assert_eq!(SortDir::Asc.cycle(false, false), SortDir::Desc);
    assert_eq!(SortDir::Desc.cycle(false, false), SortDir::Unsorted);
}

#[test]
fn sort_dir_cycle_split_abs() {
    assert_eq!(SortDir::Unsorted.cycle(true, true), SortDir::AscAbs);
    assert_eq!(SortDir::AscAbs.cycle(true, true), SortDir::DescAbs);
    assert_eq!(SortDir::DescAbs.cycle(true, true), SortDir::ColAscAbs);
    assert_eq!(SortDir::ColAscAbs.cycle(true, true), SortDir::ColDescAbs);
    assert_eq!(SortDir::ColDescAbs.cycle(true, true), SortDir::Unsorted);
}

#[test]
fn sort_dir_cycle_from_outside_ring() {
    assert_eq!(SortDir::ColAsc.cycle(false, false), SortDir::Asc);
    assert_eq!(SortDir::Desc.cycle(false, true), SortDir::AscAbs);
    assert_eq!(SortDir::AscAbs.cycle(true, false), SortDir::Asc);
}

#[test]
fn sort_dir_cycle_returns_after_ring_length() {
    for (split_by, abs, len) in [(false, false, 3), (false, true, 3), (true, false, 5), (true, true, 5)] {
        let mut d = SortDir::Unsorted.cycle(split_by, abs);
        let start = d;
        for _ in 0..len {
            d = d.cycle(split_by, abs);
        }
        assert_eq!(d, start);
    }
}

#[test]
fn single_aggregate_texts() {
    assert_eq!(SingleAggregate::PctSumGrandTotal.to_string(), "pct sum grand total");
    assert_eq!(SingleAggregate::StdDev.to_string(), "stddev");
    assert_eq!(SingleAggregate::LastByIndex.to_string(), "last by index");
}

#[test]
fn single_aggregate_round_trip() {
    let all = [
        SingleAggregate::Sum,
        SingleAggregate::SumAbs,
        SingleAggregate::SumNotNull,
        SingleAggregate::AbsSum,
        SingleAggregate::PctSumParent,
        SingleAggregate::PctSumGrandTotal,
        SingleAggregate::Any,
        SingleAggregate::Unique,
        SingleAggregate::Dominant,
        SingleAggregate::Median,
        SingleAggregate::First,
        SingleAggregate::LastByIndex,
        SingleAggregate::LastMinusFirst,
        SingleAggregate::Last,
        SingleAggregate::Count,
        SingleAggregate::DistinctCount,
        SingleAggregate::Avg,
        SingleAggregate::Mean,
        SingleAggregate::Join,
        SingleAggregate::High,
        SingleAggregate::Low,
        SingleAggregate::Max,
        SingleAggregate::Min,
        SingleAggregate::HighMinusLow,
        SingleAggregate::StdDev,
        SingleAggregate::Var,
    ];
    for a in all {
        assert_eq!(SingleAggregate::from_str(&a.to_string()).unwrap(), a);
    }
}

#[test]
fn single_aggregate_unknown() {
    let err = SingleAggregate::from_str("total").unwrap_err();
    assert_eq!(err.message, "Unknown aggregate `total`");
}

#[test]
fn aggregate_weighted_mean() {
    let a = Aggregate::from_str("weighted mean by price").unwrap();
    assert_eq!(
        a,
        Aggregate::MultiAggregate(MultiAggregate::WeightedMean, "price".to_string())
    );
    assert_eq!(a.to_string(), "weighted mean by price");
    let empty = Aggregate::from_str("weighted mean by ").unwrap();
    assert_eq!(
        empty,
        Aggregate::MultiAggregate(MultiAggregate::WeightedMean, String::new())
    );
}

#[test]
fn aggregate_single_and_unknown() {
    assert_eq!(
        Aggregate::from_str("distinct count").unwrap(),
        Aggregate::SingleAggregate(SingleAggregate::DistinctCount)
    );
    let err = Aggregate::from_str("weighted mean").unwrap_err();
    assert_eq!(err.message, "Unknown aggregate `weighted mean`");
}

#[test]
fn aggregate_round_trip() {
    let all = [
        Aggregate::SingleAggregate(SingleAggregate::Var),
        Aggregate::SingleAggregate(SingleAggregate::Sum),
        Aggregate::MultiAggregate(MultiAggregate::WeightedMean, "volume".to_string()),
        Aggregate::MultiAggregate(MultiAggregate::WeightedMean, "weighted mean by x".to_string()),
    ];
    for a in all {
        assert_eq!(Aggregate::from_str(&a.to_string()).unwrap(), a);
    }
}

#[test]
fn aggregates_for_text_columns() {
    let aggs = Type::String.aggregates_iter();
    let names: Vec<String> = aggs.iter().map(|a| a.to_string()).collect();
    assert_eq!(
        names,
        vec![
            "any", "count", "distinct count", "dominant", "first", "join", "last",
            "last by index", "median", "unique"
        ]
    );
    assert_eq!(Type::Date.aggregates_iter(), aggs);
    assert_eq!(Type::Bool.aggregates_iter().len(), 10);
}

#[test]
fn aggregates_for_numeric_columns() {
    let aggs = Type::Float.aggregates_iter();
    assert_eq!(aggs.len(), 25);
    assert_eq!(aggs[0], Aggregate::SingleAggregate(SingleAggregate::AbsSum));
    assert_eq!(aggs[24], Aggregate::SingleAggregate(SingleAggregate::Var));
    assert_eq!(Type::Integer.aggregates_iter(), aggs);
}

#[test]
fn default_aggregate_is_offered() {
    for t in [Type::String, Type::Integer, Type::Float, Type::Bool, Type::Date, Type::Datetime] {
        let d = t.default_aggregate();
        assert!(t.aggregates_iter().contains(&d));
    }
    assert_eq!(
        Type::Integer.default_aggregate(),
        Aggregate::SingleAggregate(SingleAggregate::Sum)
    );
    assert_eq!(
        Type::Datetime.default_aggregate(),
        Aggregate::SingleAggregate(SingleAggregate::Count)
    );
}

#[test]
fn sort_dir_cycle_visits_whole_ring_once() {
    for (split_by, abs, len) in [(false, false, 3usize), (true, false, 5), (false, true, 3), (true, true, 5)] {
        let start = SortDir::Unsorted;
        let mut seen: Vec<SortDir> = vec![start];
        let mut d = start.cycle(split_by, abs);
        for _ in 1..len {
            assert!(!seen.contains(&d));
            seen.push(d);
            d = d.cycle(split_by, abs);
        }
        assert_eq!(d, start);
        assert_eq!(seen.len(), len);
    }
}
