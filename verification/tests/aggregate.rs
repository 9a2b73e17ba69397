use dice_roller::aggregate::{
    aggregate, greatest_of, least_of, reduce, total_of, Aggregate, Summary,
};
use dice_roller::error::{AggregateError, ParseAggregateError};

#[test]
fn names_are_read_in_any_case() {
    assert_eq!(Aggregate::from_str("sum"), Ok(Aggregate::Sum));
    assert_eq!(Aggregate::from_str("avg"), Ok(Aggregate::Avg));
    assert_eq!(Aggregate::from_str("max"), Ok(Aggregate::Max));
    assert_eq!(Aggregate::from_str("min"), Ok(Aggregate::Min));
    assert_eq!(Aggregate::from_str("SUM"), Ok(Aggregate::Sum));
    assert_eq!(Aggregate::from_str("Avg"), Ok(Aggregate::Avg));
    assert_eq!(Aggregate::from_str("mAX"), Ok(Aggregate::Max));
    assert_eq!(Aggregate::from_str("miN"), Ok(Aggregate::Min));
}

#[test]
fn names_are_put_in_upper_case_as_unicode_has_it() {
    assert_eq!(Aggregate::from_str("\u{17f}um"), Ok(Aggregate::Sum));
    assert_eq!(Aggregate::from_str("m\u{131}n"), Ok(Aggregate::Min));
}

#[test]
fn other_names_are_refused() {
    for name in ["", "su", "summ", "sum ", " sum", "average", "mean", "total", "s\u{fc}m", "none"] {
        assert_eq!(
            Aggregate::from_str(name),
            Err(ParseAggregateError::UnknownAggregate { token: name.to_string() }),
            "{:?}",
            name
        );
    }
}

#[test]
fn upper_case_names_are_taken_as_they_stand() {
    assert_eq!(Aggregate::from_uppercase(&"SUM".to_string()), Some(Aggregate::Sum));
    assert_eq!(Aggregate::from_uppercase(&"AVG".to_string()), Some(Aggregate::Avg));
    assert_eq!(Aggregate::from_uppercase(&"MAX".to_string()), Some(Aggregate::Max));
    assert_eq!(Aggregate::from_uppercase(&"MIN".to_string()), Some(Aggregate::Min));
    assert_eq!(Aggregate::from_uppercase(&"sum".to_string()), None);
    assert_eq!(Aggregate::from_uppercase(&"Sum".to_string()), None);
    assert_eq!(Aggregate::from_uppercase(&"".to_string()), None);
    assert_eq!(Aggregate::from_uppercase(&"SUMS".to_string()), None);
}

#[test]
fn letters_are_taken_for_their_capitals() {
    assert_eq!(Aggregate::from_letters("sum"), Some(Aggregate::Sum));
    assert_eq!(Aggregate::from_letters("sUm"), Some(Aggregate::Sum));
    assert_eq!(Aggregate::from_letters("AVG"), Some(Aggregate::Avg));
    assert_eq!(Aggregate::from_letters("Max"), Some(Aggregate::Max));
    assert_eq!(Aggregate::from_letters("miN"), Some(Aggregate::Min));
    assert_eq!(Aggregate::from_letters("mix"), None);
    assert_eq!(Aggregate::from_letters("man"), None);
    assert_eq!(Aggregate::from_letters("sun"), None);
    assert_eq!(Aggregate::from_letters("su"), None);
    assert_eq!(Aggregate::from_letters("sums"), None);
    assert_eq!(Aggregate::from_letters(""), None);
    assert_eq!(Aggregate::from_letters("3UM"), None);
    assert_eq!(Aggregate::from_letters("\u{17f}um"), None);
    assert_eq!(Aggregate::from_letters("m\u{131}n"), None);
}

#[test]
fn parse_names_as_from_str_does() {
    assert_eq!("sum".parse::<Aggregate>(), Ok(Aggregate::Sum));
    assert_eq!("MAX".parse::<Aggregate>(), Ok(Aggregate::Max));
    assert_eq!("mean".parse::<Aggregate>(), Aggregate::from_str("mean"));
}

#[test]
fn unknown_name_is_named() {
    assert_eq!(
        Aggregate::from_str("median").unwrap_err().to_string(),
        "unknown aggregate function 'median': expected sum, avg, max or min"
    );
}

#[test]
fn without_a_function_the_rolls_stand() {
    assert_eq!(aggregate(None, &vec![2, 3]), Ok(Summary::Rolls(vec![2, 3])));
    assert_eq!(aggregate(None, &vec![]), Ok(Summary::Rolls(vec![])));
    assert_eq!(aggregate(None, &vec![6, 1, 6, 1]), Ok(Summary::Rolls(vec![6, 1, 6, 1])));
}

#[test]
fn sum_adds_up() {
    assert_eq!(aggregate(Some(Aggregate::Sum), &vec![4, 4, 4]), Ok(Summary::Sum(12)));
    assert_eq!(aggregate(Some(Aggregate::Sum), &vec![1, 2, 3, 4, 5, 6]), Ok(Summary::Sum(21)));
    assert_eq!(aggregate(Some(Aggregate::Sum), &vec![7]), Ok(Summary::Sum(7)));
    assert_eq!(aggregate(Some(Aggregate::Sum), &vec![]), Ok(Summary::Sum(0)));
}

#[test]
fn sum_outgrows_32_and_64_bits() {
    assert_eq!(
        aggregate(Some(Aggregate::Sum), &vec![u32::MAX, u32::MAX, 2]),
        Ok(Summary::Sum(8589934592))
    );
    assert_eq!(total_of(&vec![u32::MAX; 5]), 5 * (u32::MAX as u128));
}

#[test]
fn mean_is_the_exact_fraction() {
    assert_eq!(
        aggregate(Some(Aggregate::Avg), &vec![1, 2]),
        Ok(Summary::Mean { total: 3, count: 2 })
    );
    assert_eq!(
        aggregate(Some(Aggregate::Avg), &vec![4, 4, 4]),
        Ok(Summary::Mean { total: 12, count: 3 })
    );
    assert_eq!(
        aggregate(Some(Aggregate::Avg), &vec![]),
        Ok(Summary::Mean { total: 0, count: 0 })
    );
}

#[test]
fn mean_is_not_cut_to_a_whole_number() {
    match aggregate(Some(Aggregate::Avg), &vec![1, 2, 4]).unwrap() {
        Summary::Mean { total, count } => {
            assert_eq!((total, count), (7, 3));
            let mean = total as f64 / count as f64;
            assert!(mean > 2.3 && mean < 2.4);
            assert_eq!(format!("{}", total as f32 / count as f32), "2.3333333");
        }
        other => panic!("{:?}", other),
    }
    match aggregate(Some(Aggregate::Avg), &vec![3, 4]).unwrap() {
        Summary::Mean { total, count } => {
            assert_eq!(format!("{}", total as f32 / count as f32), "3.5");
        }
        other => panic!("{:?}", other),
    }
}

#[test]
fn max_and_min_pick_the_extremes() {
    let rolls = vec![3, 9, 2, 9, 5, 2, 7];
    assert_eq!(aggregate(Some(Aggregate::Max), &rolls), Ok(Summary::Max(9)));
    assert_eq!(aggregate(Some(Aggregate::Min), &rolls), Ok(Summary::Min(2)));
    assert_eq!(aggregate(Some(Aggregate::Max), &vec![5]), Ok(Summary::Max(5)));
    assert_eq!(aggregate(Some(Aggregate::Min), &vec![5]), Ok(Summary::Min(5)));
    assert_eq!(greatest_of(&vec![1, 2, 3]), 3);
    assert_eq!(greatest_of(&vec![3, 2, 1]), 3);
    assert_eq!(least_of(&vec![1, 2, 3]), 1);
    assert_eq!(least_of(&vec![3, 2, 1]), 1);
    assert_eq!(greatest_of(&vec![0, u32::MAX, 0]), u32::MAX);
    assert_eq!(least_of(&vec![u32::MAX, 0, u32::MAX]), 0);
}

#[test]
fn max_and_min_of_nothing_are_refused() {
    assert_eq!(aggregate(Some(Aggregate::Max), &vec![]), Err(AggregateError::EmptySequence));
    assert_eq!(aggregate(Some(Aggregate::Min), &vec![]), Err(AggregateError::EmptySequence));
    assert_eq!(
        AggregateError::EmptySequence.to_string(),
        "no rolls to take the maximum or the minimum of"
    );
}

#[test]
fn reduce_agrees_with_aggregate() {
    let rolls = vec![6, 1, 3];
    for selector in [
        None,
        Some(Aggregate::Sum),
        Some(Aggregate::Avg),
        Some(Aggregate::Max),
        Some(Aggregate::Min),
    ] {
        assert_eq!(Ok(reduce(selector, &rolls)), aggregate(selector, &rolls));
    }
}
