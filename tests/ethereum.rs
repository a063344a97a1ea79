use frontier::consensus::{find_frontier_log, ConsensusLog, DigestItem};
use frontier::ethereum::{
    header_hash, logs_bloom, message_hash, receipts_root, recover_signer, transaction_hash, transaction_rlp,
    validate_unsigned, BlockEnvironment, CallInfo, CallOrCreateInfo, CreateInfo, DispatchError,
    ExitReason, InvalidTransaction, Log, Module, TransactError, Transaction, TransactionAction,
    TransactionSignature, INVALID_CHAIN_ID, INVALID_SIGNATURE,
};
use frontier::evm::Account;
use frontier::types::{Bloom, H160, H256, U256};

fn unhex(s: &str) -> Vec<u8> {
    (0..s.len()).step_by(2).map(|i| u8::from_str_radix(&s[i..i + 2], 16).unwrap()).collect()
}

fn h256(s: &str) -> H256 {
    let mut b = [0u8; 32];
    b.copy_from_slice(&unhex(s));
    H256::from_bytes(b)
}

fn h160(s: &str) -> H160 {
    let mut b = [0u8; 20];
    b.copy_from_slice(&unhex(s));
    H160::from_bytes(b)
}

/// The signed transaction of the EIP-155 example.
fn eip155_transaction() -> Transaction {
    Transaction {
        nonce: U256::from_u64(9),
        gas_price: U256::from_u64(20_000_000_000),
        gas_limit: U256::from_u64(21_000),
        action: TransactionAction::Call(h160("3535353535353535353535353535353535353535")),
        value: U256::from_u64(1_000_000_000_000_000_000),
        input: vec![],
        signature: TransactionSignature {
            v: 37,
            r: h256("28ef61340bd939bc2195fe537567866003e1a15d3c71ff63e1590620aa636276"),
            s: h256("67cbe9d8997f761aecb703304b3800ccf555c9f3dc64214b297fb1966a3b6d83"),
        },
    }
}

fn sender() -> H160 {
    h160("9d8a62f656a8d1615c1294fd71e9cfb3e4855a4f")
}

fn call_outcome(reason: ExitReason, gas: u64, logs: Vec<Log>) -> Result<CallOrCreateInfo, DispatchError> {
    Ok(CallOrCreateInfo::Call(CallInfo { exit_reason: reason, value: vec![], used_gas: U256::from_u64(gas), logs }))
}

fn env() -> BlockEnvironment {
    BlockEnvironment {
        author: h160("0000000000000000000000000000000000000042"),
        state_root: H256::from_bytes([0x33; 32]),
        block_gas_limit: U256::from_u64(4_000_000),
        number: 12,
        timestamp: 1_600_000_000,
    }
}

#[test]
fn eip155_encodings_and_signer() {
    let tx = eip155_transaction();
    assert_eq!(
        message_hash(&tx),
        h256("daf5a779ae972f972197303d7b574746c7ef83eadac0f2791ad23db92e4c8e53")
    );
    assert_eq!(
        transaction_rlp(&tx).unwrap(),
        unhex("f86c098504a817c800825208943535353535353535353535353535353535353535880de0b6b3a76400008025a028ef61340bd939bc2195fe537567866003e1a15d3c71ff63e1590620aa636276a067cbe9d8997f761aecb703304b3800ccf555c9f3dc64214b297fb1966a3b6d83")
    );
    assert_ne!(transaction_hash(&tx).unwrap(), message_hash(&tx));
    assert_eq!(recover_signer(&tx), Some(sender()));
    assert_eq!(tx.signature.chain_id(), Some(1));
    assert_eq!(tx.signature.standard_v(), 0);
}

#[test]
fn tampered_signature_does_not_recover_the_sender() {
    let mut tx = eip155_transaction();
    tx.signature.v = 5;
    assert_eq!(recover_signer(&tx), None);
    let mut tx = eip155_transaction();
    tx.nonce = U256::from_u64(10);
    assert_ne!(recover_signer(&tx), Some(sender()));
}

#[test]
fn logs_bloom_sets_bits_of_address_and_topics() {
    let log = Log { address: h160("0000000000000000000000000000000000000001"), topics: vec![H256::from_bytes([2; 32])], data: vec![] };
    let mut bloom = Bloom::zero();
    logs_bloom(&vec![log.clone()], &mut bloom);
    let set: u32 = bloom.bytes.iter().map(|b| b.count_ones()).sum();
    assert!(set >= 1 && set <= 6);
    let mut again = bloom;
    logs_bloom(&vec![log], &mut again);
    assert_eq!(again.bytes, bloom.bytes);
}

#[test]
fn transact_appends_in_submission_order() {
    let mut m = Module::new();
    m.on_initialize();
    let tx = eip155_transaction();
    let event = m.transact(tx.clone(), call_outcome(ExitReason::Succeed, 21_000, vec![])).unwrap();
    assert_eq!(event.source, sender());
    assert_eq!(event.target, h160("3535353535353535353535353535353535353535"));
    assert_eq!(event.transaction_hash, transaction_hash(&tx).unwrap());
    let log = Log { address: sender(), topics: vec![H256::from_bytes([7; 32])], data: vec![1] };
    m.transact(tx.clone(), call_outcome(ExitReason::Revert, 30_000, vec![log])).unwrap();
    assert_eq!(m.pending.len(), 2);
    assert_eq!(m.pending[0].1.transaction_index, 0);
    assert_eq!(m.pending[1].1.transaction_index, 1);
    let mut ok_root = [0u8; 32];
    ok_root[31] = 1;
    assert_eq!(m.pending[0].2.state_root, H256::from_bytes(ok_root));
    assert_eq!(m.pending[1].2.state_root, H256::zero());
    assert_eq!(m.pending[1].2.logs.len(), 1);
    assert_eq!(m.pending[1].1.logs_bloom.bytes, m.pending[1].2.logs_bloom.bytes);
}

#[test]
fn transact_failures_record_nothing() {
    let mut m = Module::new();
    let mut bad = eip155_transaction();
    bad.signature.v = 5;
    assert!(matches!(m.transact(bad, call_outcome(ExitReason::Succeed, 1, vec![])), Err(TransactError::InvalidSignature)));
    let r = m.transact(eip155_transaction(), Err(DispatchError { message: b"out of funds".to_vec() }));
    assert!(matches!(r, Err(TransactError::Dispatch(_))));
    assert!(m.pending.is_empty());
}

#[test]
fn create_records_the_contract_address() {
    let mut m = Module::new();
    let mut tx = eip155_transaction();
    tx.action = TransactionAction::Create;
    let created = h160("00000000000000000000000000000000000000cc");
    let outcome = Ok(CallOrCreateInfo::Create(CreateInfo { exit_reason: ExitReason::Succeed, value: created, used_gas: U256::from_u64(5), logs: vec![] }));
    if let Ok(event) = m.transact(tx, outcome) {
        assert_eq!(event.target, created);
        assert_eq!(m.pending[0].1.contract_address, Some(created));
        assert_eq!(m.pending[0].1.to, None);
    }
}

#[test]
fn finalize_builds_the_block_and_its_digest() {
    let mut m = Module::new();
    m.on_initialize();
    let tx = eip155_transaction();
    let log = Log { address: sender(), topics: vec![H256::from_bytes([7; 32])], data: vec![] };
    m.transact(tx.clone(), call_outcome(ExitReason::Succeed, 21_000, vec![log])).unwrap();
    m.transact(tx.clone(), call_outcome(ExitReason::Error, 9_000, vec![])).unwrap();
    let receipt_bloom = m.pending[0].2.logs_bloom;
    let digest = m.on_finalize(&env());
    assert_eq!(m.pending.len(), 2);
    let block = m.current_block().as_ref().unwrap();
    assert_eq!(block.transactions.len(), 2);
    assert_eq!(block.header.gas_used, U256::from_u64(30_000));
    assert_eq!(block.header.number, U256::from_u64(12));
    assert_eq!(block.header.parent_hash, H256::zero());
    assert_eq!(block.header.logs_bloom.bytes, receipt_bloom.bytes);
    assert_eq!(block.header.receipts_root, receipts_root(m.current_receipts().as_ref().unwrap()));
    assert_eq!(block.header.ommers_hash, h256("1dcc4de8dec75d7aab85b567b6ccd41ad312451b948a7413f0a142fd40d49347"));
    let ConsensusLog::EndBlock { block_hash, transaction_hashes } = find_frontier_log(&vec![digest]).unwrap();
    assert_eq!(block_hash, header_hash(&block.header));
    assert_eq!(transaction_hashes, vec![transaction_hash(&tx).unwrap(), transaction_hash(&tx).unwrap()]);
    assert_eq!(m.current_block_hash(), Some(block_hash));
    m.on_initialize();
    assert!(m.pending.is_empty());
    m.on_finalize(&env());
    let next = m.current_block().as_ref().unwrap();
    assert_eq!(next.header.parent_hash, block_hash);
    assert_eq!(
        next.header.transactions_root,
        h256("56e81f171bcc55a6ff8345e692c0f86e5b48e01b996cadc001622fb5e363b421")
    );
    assert_eq!(next.header.receipts_root, h256("1dcc4de8dec75d7aab85b567b6ccd41ad312451b948a7413f0a142fd40d49347"));
}

#[test]
fn admission_checks() {
    let tx = eip155_transaction();
    let rich = Account { nonce: U256::from_u64(9), balance: U256::from_u64(u64::MAX) };
    assert!(matches!(validate_unsigned(&tx, 2, &rich), Err(InvalidTransaction::Custom(c)) if c == INVALID_CHAIN_ID));
    let mut bad = tx.clone();
    bad.signature.v = 5;
    assert!(matches!(validate_unsigned(&bad, 1, &rich), Err(InvalidTransaction::Custom(c)) if c == INVALID_SIGNATURE));
    let ahead = Account { nonce: U256::from_u64(10), balance: U256::from_u64(u64::MAX) };
    assert_eq!(validate_unsigned(&tx, 1, &ahead).err(), Some(InvalidTransaction::Stale));
    let poor = Account { nonce: U256::from_u64(9), balance: U256::from_u64(20_000_000_000 * 21_000 - 1) };
    assert_eq!(validate_unsigned(&tx, 1, &poor).err(), Some(InvalidTransaction::Payment));
    let exact = Account { nonce: U256::from_u64(9), balance: U256::from_u64(20_000_000_000 * 21_000) };
    let valid = validate_unsigned(&tx, 1, &exact).unwrap();
    assert_eq!(valid.provided_tags, vec![(sender(), U256::from_u64(9))]);
    assert!(valid.required_tags.is_empty());
    let behind = Account { nonce: U256::from_u64(7), balance: U256::from_u64(u64::MAX) };
    let valid = validate_unsigned(&tx, 1, &behind).unwrap();
    assert_eq!(valid.required_tags, vec![(sender(), U256::from_u64(8))]);
}

#[test]
fn runner_request_and_execution_result() {
    let mut tx = eip155_transaction();
    tx.gas_limit = U256 { limbs: [5, 1, 0, 0] };
    let req = frontier::ethereum::execution_request(sender(), &tx);
    assert_eq!(req.gas_limit, 5);
    assert_eq!(req.target, Some(h160("3535353535353535353535353535353535353535")));
    assert_eq!(req.gas_price, Some(U256::from_u64(20_000_000_000)));
    assert_eq!(req.nonce, Some(U256::from_u64(9)));
    let created = h160("00000000000000000000000000000000000000cc");
    let info = CallOrCreateInfo::Create(CreateInfo { exit_reason: ExitReason::Succeed, value: created, used_gas: U256::zero(), logs: vec![] });
    match Module::execute(TransactionAction::Create, Ok(info)) {
        Ok((to, contract, _)) => {
            assert_eq!(to, None);
            assert_eq!(contract, Some(created));
        }
        Err(_) => panic!("expected an outcome"),
    }
    let r = Module::execute(TransactionAction::Create, Err(DispatchError { message: b"no funds".to_vec() }));
    assert!(matches!(r, Err(DispatchError { message }) if message == b"no funds".to_vec()));
    let mut m = Module::new();
    let r = m.transact(eip155_transaction(), Err(DispatchError { message: b"no funds".to_vec() }));
    assert!(matches!(r, Err(TransactError::Dispatch(DispatchError { message })) if message == b"no funds".to_vec()));
}

struct FirstPreRuntime;

impl frontier::ethereum::FindAuthor for FirstPreRuntime {
    fn find_author(pre_runtime_digests: &Vec<([u8; 4], Vec<u8>)>) -> Option<H160> {
        pre_runtime_digests.first().filter(|(_, d)| d.len() == 20).map(|(_, d)| {
            let mut b = [0u8; 20];
            b.copy_from_slice(d);
            H160::from_bytes(b)
        })
    }
}

#[test]
fn author_from_pre_runtime_digests() {
    let digest = vec![
        DigestItem::Seal(*b"aura", vec![1]),
        DigestItem::PreRuntime(*b"aura", vec![7u8; 20]),
        DigestItem::Other(vec![2]),
        DigestItem::PreRuntime(*b"babe", vec![3]),
    ];
    let entries = frontier::ethereum::pre_runtime_digests(&digest);
    assert_eq!(entries, vec![(*b"aura", vec![7u8; 20]), (*b"babe", vec![3])]);
    assert_eq!(Module::find_author::<FirstPreRuntime>(&digest), H160::from_bytes([7; 20]));
    assert_eq!(Module::find_author::<FirstPreRuntime>(&vec![]), H160::zero());
    assert_eq!(frontier::ethereum::author_or_default(None), H160::zero());
}

#[test]
fn signature_outside_the_group_order_is_refused() {
    let mut tx = eip155_transaction();
    tx.signature.s = H256::from_bytes([0xff; 32]);
    assert_eq!(transaction_rlp(&tx), None);
    assert_eq!(transaction_hash(&tx), None);
    let rich = Account { nonce: U256::from_u64(9), balance: U256::from_u64(u64::MAX) };
    assert!(matches!(validate_unsigned(&tx, 1, &rich), Err(InvalidTransaction::Custom(c)) if c == INVALID_SIGNATURE));
    let mut m = Module::new();
    let r = m.transact(tx, call_outcome(ExitReason::Succeed, 1, vec![]));
    assert!(matches!(r, Err(TransactError::InvalidSignature)));
    assert!(m.pending.is_empty());
}
