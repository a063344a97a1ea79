use frontier::dynamic_fee::DynamicFee;
use frontier::types::U256;

#[test]
fn price_moves_toward_target_within_bound() {
    let divisor = U256::from_u64(10);
    let mut fee = DynamicFee::new(U256::from_u64(1000));
    fee.on_finalize(&divisor);
    assert_eq!(fee.min_gas_price, U256::from_u64(1000));
    fee.note_min_gas_price_target(U256::from_u64(5000));
    fee.on_finalize(&divisor);
    assert_eq!(fee.min_gas_price, U256::from_u64(1101));
    assert!(fee.target_min_gas_price.is_none());
    fee.note_min_gas_price_target(U256::from_u64(0));
    fee.on_finalize(&divisor);
    assert_eq!(fee.min_gas_price, U256::from_u64(990));
    fee.note_min_gas_price_target(U256::from_u64(1000));
    fee.on_finalize(&divisor);
    assert_eq!(fee.min_gas_price, U256::from_u64(1000));
}

#[test]
fn price_floor_is_zero() {
    let mut fee = DynamicFee::new(U256::from_u64(0));
    fee.note_min_gas_price_target(U256::from_u64(0));
    fee.on_finalize(&U256::from_u64(3));
    assert_eq!(fee.min_gas_price, U256::zero());
}
