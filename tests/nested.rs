use pi::database::{flatten, ArbitrarilyNestedArray};

#[test]
fn empty_array() {
    let empty_arr: ArbitrarilyNestedArray<u64> = ArbitrarilyNestedArray::Array(vec![]);
    assert!(flatten(&empty_arr).is_empty());
}

#[test]
fn flat_array() {
    let empty_arr = ArbitrarilyNestedArray::Array(vec![
        ArbitrarilyNestedArray::Integer(1),
        ArbitrarilyNestedArray::Integer(2),
        ArbitrarilyNestedArray::Integer(3),
    ]);
    assert_eq!(flatten(&empty_arr), vec!(1, 2, 3));
}

#[test]
fn deeply_nested_array() {
    let empty_arr = ArbitrarilyNestedArray::Array(vec![
        ArbitrarilyNestedArray::Array(vec![
            ArbitrarilyNestedArray::Integer(1),
            ArbitrarilyNestedArray::Integer(2),
            ArbitrarilyNestedArray::Array(vec![
                ArbitrarilyNestedArray::Integer(3),
                ArbitrarilyNestedArray::Array(vec![]),
            ]),
        ]),
        ArbitrarilyNestedArray::Integer(4),
    ]);
    assert_eq!(flatten(&empty_arr), vec!(1, 2, 3, 4));
}
