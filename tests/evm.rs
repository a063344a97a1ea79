use frontier::evm::{
    account_basic, ensure_linear_cost, is_account_empty, AccountId32, AddressMapping, BadOrigin, EnsureAddressNever,
    EnsureAddressRoot, EnsureAddressSame, EnsureAddressTruncated, ExitError, FeeCalculator, GasWeightMapping,
    IdentityAddressMapping, RawOrigin,
};
use frontier::rpc_types::{Kind, LocalTransactionStatus, Params, PendingTransaction, PubSubSyncStatus, Rich, Transaction};
use frontier::types::{H160, H256, U256};

#[test]
fn linear_cost() {
    assert_eq!(ensure_linear_cost(None, 0, 15, 3), Ok(15));
    assert_eq!(ensure_linear_cost(None, 1, 15, 3), Ok(18));
    assert_eq!(ensure_linear_cost(None, 32, 15, 3), Ok(18));
    assert_eq!(ensure_linear_cost(None, 33, 15, 3), Ok(21));
    assert_eq!(ensure_linear_cost(Some(20), 33, 15, 3), Err(ExitError::OutOfGas));
    assert_eq!(ensure_linear_cost(Some(21), 33, 15, 3), Ok(21));
    assert_eq!(ensure_linear_cost(None, u64::MAX, 0, 1), Ok(u64::MAX / 32));
    assert_eq!(ensure_linear_cost(None, 64, u64::MAX, 1), Err(ExitError::OutOfGas));
    assert_eq!(ensure_linear_cost(None, u64::MAX, 0, 64), Err(ExitError::OutOfGas));
}

#[test]
fn origins() {
    let a = H160::from_bytes([1; 20]);
    let b = H160::from_bytes([2; 20]);
    assert_eq!(EnsureAddressSame::try_address_origin(&a, RawOrigin::Signed(a)), Ok(a));
    assert_eq!(EnsureAddressSame::try_address_origin(&a, RawOrigin::Signed(b)), Err(RawOrigin::Signed(b)));
    assert_eq!(EnsureAddressSame::ensure_address_origin(&a, RawOrigin::Root), Err(BadOrigin));
    assert_eq!(EnsureAddressRoot::try_address_origin::<H160>(&a, RawOrigin::Root), Ok(()));
    assert_eq!(EnsureAddressRoot::try_address_origin(&a, RawOrigin::Signed(a)), Err(RawOrigin::Signed(a)));
    assert_eq!(EnsureAddressNever::try_address_origin::<H160>(&a, RawOrigin::Root), Err(RawOrigin::Root));
    let mut id = [1u8; 32];
    id[25] = 9;
    let who = AccountId32 { bytes: id };
    assert!(matches!(EnsureAddressTruncated::try_address_origin(&a, RawOrigin::Signed(who)), Ok(w) if w.bytes == id));
    id[3] = 0;
    let other = AccountId32 { bytes: id };
    assert!(EnsureAddressTruncated::try_address_origin(&a, RawOrigin::Signed(other)).is_err());
    assert!(EnsureAddressTruncated::try_address_origin(&a, RawOrigin::Unsigned).is_err());
    assert_eq!(IdentityAddressMapping::into_account_id(b), b);
}

#[test]
fn fee_and_weight_defaults() {
    assert_eq!(<() as FeeCalculator>::min_gas_price(), U256::zero());
    assert_eq!(<() as GasWeightMapping>::gas_to_weight(21_000), 21_000);
    assert_eq!(<() as GasWeightMapping>::weight_to_gas(7), 7);
}

#[test]
fn accounts() {
    let a = account_basic(3, u128::MAX);
    assert_eq!(a.nonce, U256::from_u64(3));
    assert_eq!(a.balance, U256::from_u128(u128::MAX));
    assert!(!is_account_empty(&a, 0));
    let empty = account_basic(0, 0);
    assert!(is_account_empty(&empty, 0));
    assert!(!is_account_empty(&empty, 1));
}

#[test]
fn rpc_values() {
    assert!(matches!(Params::default(), Params::Empty));
    assert_eq!(PubSubSyncStatus { syncing: true }, PubSubSyncStatus { syncing: true });
    assert_ne!(Kind::Logs, Kind::NewHeads);
    let rich = Rich { inner: 5u32, extra_info: Default::default() };
    assert_eq!(*rich.inner(), 5);
    let tx = Transaction {
        hash: H256::zero(),
        nonce: U256::zero(),
        block_hash: None,
        block_number: None,
        transaction_index: None,
        from: H160::zero(),
        to: None,
        value: U256::from_u64(1),
        gas_price: U256::zero(),
        gas: U256::zero(),
        input: vec![],
        creates: None,
        raw: vec![],
        public_key: None,
        chain_id: Some(1),
        standard_v: U256::zero(),
        v: U256::zero(),
        r: U256::zero(),
        s: U256::zero(),
    };
    let pending = PendingTransaction::new(tx, 42);
    assert_eq!(pending.at_block, 42);
    assert_eq!(pending.transaction.value, U256::from_u64(1));
}

fn sample_transaction() -> Transaction {
    Transaction {
        hash: H256::zero(),
        nonce: U256::zero(),
        block_hash: None,
        block_number: None,
        transaction_index: None,
        from: H160::zero(),
        to: None,
        value: U256::zero(),
        gas_price: U256::zero(),
        gas: U256::zero(),
        input: vec![],
        creates: None,
        raw: vec![],
        public_key: None,
        chain_id: None,
        standard_v: U256::zero(),
        v: U256::zero(),
        r: U256::zero(),
        s: U256::zero(),
    }
}

#[test]
fn local_transaction_status_shape() {
    use_status(LocalTransactionStatus::Pending, "pending", 1, false);
    use_status(LocalTransactionStatus::Future, "future", 1, false);
    use_status(LocalTransactionStatus::Mined(sample_transaction()), "mined", 2, true);
    use_status(LocalTransactionStatus::Canceled(sample_transaction()), "canceled", 2, true);
    use_status(LocalTransactionStatus::Rejected(sample_transaction(), "low fee".to_string()), "rejected", 3, true);
    use_status(LocalTransactionStatus::Replaced(sample_transaction(), U256::from_u64(2), H256::zero()), "replaced", 4, true);
}

fn use_status(s: LocalTransactionStatus, name: &str, fields: usize, has_tx: bool) {
    assert_eq!(s.status(), name);
    assert_eq!(s.field_count(), fields);
    assert_eq!(s.transaction().is_some(), has_tx);
}

struct Identity;

impl frontier::evm::LinearCostPrecompile for Identity {
    const BASE: u64 = 15;
    const WORD: u64 = 3;

    fn execute(input: &[u8], _cost: u64) -> Result<(frontier::evm::ExitSucceed, Vec<u8>), ExitError> {
        Ok((frontier::evm::ExitSucceed::Returned, input.to_vec()))
    }
}

#[test]
fn linear_cost_precompile_runs_within_gas() {
    let input = [1u8; 33];
    let r = frontier::evm::execute_linear_cost::<Identity>(&input, Some(21));
    assert_eq!(r, Ok((frontier::evm::ExitSucceed::Returned, input.to_vec(), 21)));
    let r = frontier::evm::execute_linear_cost::<Identity>(&input, Some(20));
    assert_eq!(r, Err(ExitError::OutOfGas));
}
