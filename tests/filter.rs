use frontier::filter::{
    BlockNumber, BlockNumberField, BlockNumberObject, BlockNumberParseError, FieldStep, Filter, FilteredParams, Log,
    VariadicValue,
};
use frontier::types::{H160, H256};

fn h(b: u8) -> H256 {
    H256::from_bytes([b; 32])
}

fn addr(b: u8) -> H160 {
    H160::from_bytes([b; 20])
}

fn log_with(address: H160, topics: Vec<H256>) -> Log {
    Log {
        address,
        topics,
        data: vec![],
        block_hash: None,
        block_number: None,
        transaction_hash: None,
        transaction_index: None,
        log_index: None,
        transaction_log_index: None,
        removed: false,
    }
}

fn filter_with(
    from_block: Option<BlockNumber>,
    to_block: Option<BlockNumber>,
    block_hash: Option<H256>,
    address: Option<VariadicValue<H160>>,
    topics: Option<VariadicValue<Option<VariadicValue<Option<H256>>>>>,
) -> FilteredParams {
    FilteredParams::new(Some(Filter { from_block, to_block, block_hash, address, topics }))
}

fn topic_predicate(positions: Vec<Vec<H256>>) -> VariadicValue<Option<VariadicValue<Option<H256>>>> {
    VariadicValue::Multiple(
        positions
            .into_iter()
            .map(|alts| Some(VariadicValue::Multiple(alts.into_iter().map(Some).collect())))
            .collect(),
    )
}

#[test]
fn topics_match_one_expanded_combination() {
    let (a, b, x) = (h(0xa), h(0xb), h(0x1));
    let log = log_with(addr(1), vec![a, b]);
    let params = filter_with(None, None, None, None, Some(topic_predicate(vec![vec![a, x], vec![b]])));
    assert_eq!(params.flat_topics.len(), 2);
    assert!(params.filter_topics(&log));
    let params = filter_with(None, None, None, None, Some(topic_predicate(vec![vec![x], vec![b]])));
    assert!(!params.filter_topics(&log));
}

#[test]
fn block_range_bounds() {
    let params = filter_with(Some(BlockNumber::Num(100)), Some(BlockNumber::Num(200)), None, None, None);
    assert!(params.filter_block_range(150));
    assert!(params.filter_block_range(100));
    assert!(params.filter_block_range(200));
    assert!(!params.filter_block_range(99));
    assert!(!params.filter_block_range(201));
}

#[test]
fn earliest_upper_bound_rejects_every_block() {
    let params = filter_with(None, Some(BlockNumber::Earliest), None, None, None);
    for n in [0u64, 1, 150, u64::MAX] {
        assert!(!params.filter_block_range(n));
    }
    let params = filter_with(Some(BlockNumber::Latest), Some(BlockNumber::Pending), None, None, None);
    assert!(params.filter_block_range(0));
    assert!(params.filter_block_range(u64::MAX));
}

#[test]
fn block_hash_pin() {
    let params = filter_with(None, None, Some(h(7)), None, None);
    assert!(params.filter_block_hash(h(7)));
    assert!(!params.filter_block_hash(h(8)));
    let params = filter_with(None, None, None, None, None);
    assert!(params.filter_block_hash(h(8)));
}

#[test]
fn address_predicates() {
    let log = log_with(addr(5), vec![]);
    assert!(filter_with(None, None, None, None, None).filter_address(&log));
    assert!(filter_with(None, None, None, Some(VariadicValue::Single(addr(5))), None).filter_address(&log));
    assert!(!filter_with(None, None, None, Some(VariadicValue::Single(addr(6))), None).filter_address(&log));
    let set = VariadicValue::Multiple(vec![addr(1), addr(5)]);
    assert!(filter_with(None, None, None, Some(set), None).filter_address(&log));
    let set = VariadicValue::Multiple(vec![addr(1), addr(2)]);
    assert!(!filter_with(None, None, None, Some(set), None).filter_address(&log));
    assert!(filter_with(None, None, None, Some(VariadicValue::Null), None).filter_address(&log));
}

#[test]
fn wildcards_and_trailing_nulls() {
    let (a, b, c) = (h(0xa), h(0xb), h(0xc));
    let log = log_with(addr(1), vec![a, b]);
    // [null, b] matches any first topic.
    let pred = VariadicValue::Multiple(vec![None, Some(VariadicValue::Single(Some(b)))]);
    assert!(filter_with(None, None, None, None, Some(pred)).filter_topics(&log));
    // [a, null, null] trims to [a].
    let pred = VariadicValue::Multiple(vec![Some(VariadicValue::Single(Some(a))), None, None]);
    assert!(filter_with(None, None, None, None, Some(pred)).filter_topics(&log));
    // a concrete third position is longer than the log's topics.
    let pred = VariadicValue::Multiple(vec![None, None, Some(VariadicValue::Single(Some(c)))]);
    assert!(!filter_with(None, None, None, None, Some(pred)).filter_topics(&log));
    // an empty predicate passes.
    assert!(filter_with(None, None, None, None, Some(VariadicValue::Multiple(vec![]))).filter_topics(&log));
    assert!(filter_with(None, None, None, None, None).filter_topics(&log));
    assert!(filter_with(None, None, None, None, Some(VariadicValue::Null)).filter_topics(&log));
}

#[test]
fn single_topic_predicate() {
    let (a, b) = (h(0xa), h(0xb));
    let log = log_with(addr(1), vec![a, b]);
    let pred = VariadicValue::Single(Some(VariadicValue::Single(Some(a))));
    assert!(filter_with(None, None, None, None, Some(pred)).filter_topics(&log));
    let pred = VariadicValue::Single(Some(VariadicValue::Single(Some(b))));
    assert!(!filter_with(None, None, None, None, Some(pred)).filter_topics(&log));
    let empty = log_with(addr(1), vec![]);
    let pred = VariadicValue::Single(Some(VariadicValue::Single(Some(a))));
    assert!(!filter_with(None, None, None, None, Some(pred)).filter_topics(&empty));
}

#[test]
fn cartesian_expansion_order() {
    let (a, b, c, d) = (h(1), h(2), h(3), h(4));
    let params = filter_with(None, None, None, None, Some(topic_predicate(vec![vec![a, b], vec![c, d]])));
    let combos: Vec<Vec<Option<H256>>> = params
        .flat_topics
        .iter()
        .map(|f| match f {
            VariadicValue::Multiple(v) => v.clone(),
            _ => panic!("expected a combination"),
        })
        .collect();
    assert_eq!(
        combos,
        vec![
            vec![Some(a), Some(c)],
            vec![Some(a), Some(d)],
            vec![Some(b), Some(c)],
            vec![Some(b), Some(d)],
        ]
    );
}

#[test]
fn replace_fills_wildcards_from_the_log() {
    let (a, b, c) = (h(1), h(2), h(3));
    let log = log_with(addr(1), vec![a, b]);
    let params = FilteredParams::default();
    assert_eq!(params.replace(&log, VariadicValue::Multiple(vec![None, Some(c)])), Some(vec![a, c]));
    assert_eq!(params.replace(&log, VariadicValue::Single(Some(c))), Some(vec![c]));
    assert_eq!(params.replace(&log, VariadicValue::Single(None)), None);
    assert_eq!(params.replace(&log, VariadicValue::Null), None);
    assert_eq!(params.replace(&log, VariadicValue::Multiple(vec![])), None);
    assert_eq!(
        params.replace(&log, VariadicValue::Multiple(vec![None, Some(c), Some(c)])),
        Some(vec![a, c, c])
    );
}

#[test]
fn whole_filter() {
    let (a, b) = (h(0xa), h(0xb));
    let log = log_with(addr(5), vec![a, b]);
    let params = filter_with(
        Some(BlockNumber::Num(10)),
        Some(BlockNumber::Num(20)),
        None,
        Some(VariadicValue::Single(addr(5))),
        Some(topic_predicate(vec![vec![a]])),
    );
    assert!(params.filter_log(15, h(0), &log));
    assert!(!params.filter_log(21, h(0), &log));
    let other = log_with(addr(6), vec![a, b]);
    assert!(!params.filter_log(15, h(0), &other));
}

#[test]
fn block_number_helpers() {
    assert_eq!(BlockNumber::Num(7).to_min_block_num(), Some(7));
    assert_eq!(BlockNumber::Latest.to_min_block_num(), None);
    assert!(matches!(BlockNumber::default(), BlockNumber::Latest));
}

#[test]
fn block_selector_strings() {
    assert_eq!(BlockNumber::from_rpc_str("latest"), Ok(BlockNumber::Latest));
    assert_eq!(BlockNumber::from_rpc_str("earliest"), Ok(BlockNumber::Earliest));
    assert_eq!(BlockNumber::from_rpc_str("pending"), Ok(BlockNumber::Pending));
    assert_eq!(BlockNumber::from_rpc_str("0x1f"), Ok(BlockNumber::Num(31)));
    assert_eq!(BlockNumber::from_rpc_str("0xFFFFFFFFFFFFFFFF"), Ok(BlockNumber::Num(u64::MAX)));
    assert_eq!(BlockNumber::from_rpc_str("0x10000000000000000"), Err(BlockNumberParseError::InvalidHexNumber));
    assert_eq!(BlockNumber::from_rpc_str("0x"), Err(BlockNumberParseError::InvalidHexNumber));
    assert_eq!(BlockNumber::from_rpc_str("0xzz"), Err(BlockNumberParseError::InvalidHexNumber));
    assert_eq!(BlockNumber::from_rpc_str("42"), Ok(BlockNumber::Num(42)));
    assert_eq!(BlockNumber::from_rpc_str("+7"), Ok(BlockNumber::Num(7)));
    assert_eq!(BlockNumber::from_rpc_str("Latest"), Err(BlockNumberParseError::NonDecimal));
    assert_eq!(BlockNumber::from_rpc_str(""), Err(BlockNumberParseError::NonDecimal));
    assert_eq!(BlockNumber::from_rpc_str("-1"), Err(BlockNumberParseError::NonDecimal));
}

#[test]
fn block_selector_objects() {
    let mut obj = BlockNumberObject::new();
    assert!(matches!(obj.on_field(BlockNumberField::RequireCanonical(true)), FieldStep::Continue));
    assert!(matches!(obj.on_field(BlockNumberField::BlockHash(h(3))), FieldStep::Continue));
    assert_eq!(obj.finish(), Ok(BlockNumber::Hash { hash: h(3), require_canonical: true }));
    let mut obj = BlockNumberObject::new();
    assert!(matches!(obj.on_field(BlockNumberField::BlockHash(h(3))), FieldStep::Continue));
    assert!(matches!(
        obj.on_field(BlockNumberField::BlockNumber("0x10".to_string())),
        FieldStep::Done(Ok(BlockNumber::Num(16)))
    ));
    assert!(matches!(
        obj.on_field(BlockNumberField::BlockNumber("16".to_string())),
        FieldStep::Done(Err(BlockNumberParseError::MissingHexPrefix))
    ));
    assert!(matches!(
        obj.on_field(BlockNumberField::Unknown("foo".to_string())),
        FieldStep::Done(Err(BlockNumberParseError::UnknownKey(_)))
    ));
    assert_eq!(BlockNumberObject::new().finish(), Err(BlockNumberParseError::InvalidInput));
}
