//! Origin checks, address mapping and precompile costs of the EVM pallet.
use vstd::prelude::*;

use crate::types::{H160, H256, U256};

verus! {

/// An account's nonce and balance.
#[derive(Clone, Copy, Debug)]
pub struct Account {
    pub nonce: U256,
    pub balance: U256,
}

/// The account as the EVM sees it: the native nonce and free balance, widened to words.
pub fn account_basic(nonce: u128, balance: u128) -> (r: Account)
    ensures
        r.nonce.value() == nonce,
        r.balance.value() == balance,
{
    Account { nonce: U256::from_u128(nonce), balance: U256::from_u128(balance) }
}

/// An account is empty when its nonce and balance are zero and it holds no code.
pub fn is_account_empty(account: &Account, code_len: usize) -> (r: bool)
    ensures
        r == (account.nonce.value() == 0 && account.balance.value() == 0 && code_len == 0),
{
    account.nonce.is_zero() && account.balance.is_zero() && code_len == 0
}

/// An account set up at genesis: nonce, balance, storage slots and code.
#[derive(Clone, Debug)]
pub struct GenesisAccount {
    pub nonce: U256,
    pub balance: U256,
    pub storage: Vec<(H256, H256)>,
    pub code: Vec<u8>,
}

/// The origin of a dispatched call.
#[derive(Clone, Copy, Debug, PartialEq, Eq, Structural)]
pub enum RawOrigin<AccountId> {
    Root,
    Signed(AccountId),
    /// No origin: an unsigned extrinsic.
    Unsigned,
}

/// A 32-byte native account id.
#[derive(Clone, Copy, Debug)]
pub struct AccountId32 {
    pub bytes: [u8; 32],
}

/// The origin is not allowed to act for the address.
#[derive(Clone, Copy, Debug, PartialEq, Eq, Structural)]
pub struct BadOrigin;

/// Accepts a signed origin whose account is the address itself.
pub struct EnsureAddressSame;

impl EnsureAddressSame {
    pub fn try_address_origin(address: &H160, origin: RawOrigin<H160>) -> (r: Result<
        H160,
        RawOrigin<H160>,
    >)
        ensures
            match origin {
                RawOrigin::Signed(who) => if who == *address {
                    r == Ok::<H160, RawOrigin<H160>>(who)
                } else {
                    r == Err::<H160, RawOrigin<H160>>(origin)
                },
                _ => r == Err::<H160, RawOrigin<H160>>(origin),
            },
    {
        match origin {
            RawOrigin::Signed(who) => {
                if who.eq(address) {
                    Ok(who)
                } else {
                    Err(origin)
                }
            },
            _ => Err(origin),
        }
    }

    pub fn ensure_address_origin(address: &H160, origin: RawOrigin<H160>) -> (r: Result<
        H160,
        BadOrigin,
    >)
        ensures
            match Self::try_address_origin_spec(*address, origin) {
                Some(who) => r == Ok::<H160, BadOrigin>(who),
                None => r == Err::<H160, BadOrigin>(BadOrigin),
            },
    {
        match Self::try_address_origin(address, origin) {
            Ok(who) => Ok(who),
            Err(_) => Err(BadOrigin),
        }
    }

    pub open spec fn try_address_origin_spec(address: H160, origin: RawOrigin<H160>) -> Option<H160> {
        match origin {
            RawOrigin::Signed(who) => if who == address {
                Some(who)
            } else {
                None
            },
            _ => None,
        }
    }
}

/// Accepts only the root origin.
pub struct EnsureAddressRoot;

impl EnsureAddressRoot {
    pub fn try_address_origin<AccountId>(_address: &H160, origin: RawOrigin<AccountId>) -> (r:
        Result<(), RawOrigin<AccountId>>)
        ensures
            origin is Root ==> r is Ok,
            !(origin is Root) ==> r == Err::<(), RawOrigin<AccountId>>(origin),
    {
        match origin {
            RawOrigin::Root => Ok(()),
            _ => Err(origin),
        }
    }
}

/// Accepts no origin.
pub struct EnsureAddressNever;

impl EnsureAddressNever {
    pub fn try_address_origin<AccountId>(_address: &H160, origin: RawOrigin<AccountId>) -> (r:
        Result<AccountId, RawOrigin<AccountId>>)
        ensures
            r == Err::<AccountId, RawOrigin<AccountId>>(origin),
    {
        Err(origin)
    }
}

/// Accepts a signed origin whose account id starts with the address's twenty bytes.
pub struct EnsureAddressTruncated;

impl EnsureAddressTruncated {
    #[verifier::loop_isolation(false)]
    pub fn try_address_origin(address: &H160, origin: RawOrigin<AccountId32>) -> (r: Result<
        AccountId32,
        RawOrigin<AccountId32>,
    >)
        ensures
            match origin {
                RawOrigin::Signed(who) => if who.bytes@.subrange(0, 20) == address@ {
                    r == Ok::<AccountId32, RawOrigin<AccountId32>>(who)
                } else {
                    r == Err::<AccountId32, RawOrigin<AccountId32>>(origin)
                },
                _ => r == Err::<AccountId32, RawOrigin<AccountId32>>(origin),
            },
    {
        match origin {
            RawOrigin::Signed(who) => {
                let mut i: usize = 0;
                while i < 20
                    invariant
                        i <= 20,
                        who.bytes@.len() == 32,
                        address@.len() == 20,
                        forall|j: int| 0 <= j < i ==> who.bytes@[j] == address@[j],
                    decreases 20 - i,
                {
                    if who.bytes[i] != address.bytes[i] {
                        assert(who.bytes@.subrange(0, 20)[i as int] != address@[i as int]);
                        return Err(origin);
                    }
                    i = i + 1;
                }
                assert(who.bytes@.subrange(0, 20) =~= address@);
                Ok(who)
            },
            _ => Err(origin),
        }
    }
}

/// Maps an EVM address to a native account id, as the chain configures it.
pub trait AddressMapping<A> {
    fn into_account_id(address: H160) -> A;
}

/// Maps an address to itself as an account id.
pub struct IdentityAddressMapping;

impl AddressMapping<H160> for IdentityAddressMapping {
    fn into_account_id(address: H160) -> (r: H160) {
        address
    }
}

/// The minimum gas price, as the chain configures it.
pub trait FeeCalculator {
    fn min_gas_price() -> U256;
}

/// No minimum gas price.
impl FeeCalculator for () {
    fn min_gas_price() -> (r: U256) {
        U256::zero()
    }
}

/// Conversion between gas and dispatch weight, as the chain configures it.
pub trait GasWeightMapping {
    fn gas_to_weight(gas: u64) -> u64;

    fn weight_to_gas(weight: u64) -> u64;
}

/// Gas and weight are the same number.
impl GasWeightMapping for () {
    fn gas_to_weight(gas: u64) -> (r: u64) {
        gas
    }

    fn weight_to_gas(weight: u64) -> (r: u64) {
        weight
    }
}

/// Why a precompile stopped.
#[derive(Clone, Debug, PartialEq, Eq)]
pub enum ExitError {
    OutOfGas,
    Other(String),
}

/// How a precompile finished.
#[derive(Clone, Copy, Debug, PartialEq, Eq, Structural)]
pub enum ExitSucceed {
    Stopped,
    Returned,
    Suicided,
}

/// A precompiled contract: output and gas cost for an input, within the gas given.
pub trait Precompile {
    fn execute(input: &[u8], target_gas: Option<u64>) -> Result<(ExitSucceed, Vec<u8>, u64), ExitError>;
}

/// A precompiled contract that charges `BASE` plus `WORD` per 32-byte word of input.
pub trait LinearCostPrecompile {
    const BASE: u64;
    const WORD: u64;

    fn execute(input: &[u8], cost: u64) -> Result<(ExitSucceed, Vec<u8>), ExitError>;
}

/// A precompile's result with the cost it was charged: its output and the cost on success,
/// its error unchanged on failure.
pub fn with_linear_cost(cost: u64, result: Result<(ExitSucceed, Vec<u8>), ExitError>) -> (r: Result<
    (ExitSucceed, Vec<u8>, u64),
    ExitError,
>)
    ensures
        match result {
            Ok((succeed, out)) => r is Ok && r->Ok_0.0 == succeed && r->Ok_0.1@ == out@
                && r->Ok_0.2 == cost,
            Err(e) => r == Err::<(ExitSucceed, Vec<u8>, u64), ExitError>(e),
        },
{
    match result {
        Ok((succeed, out)) => Ok((succeed, out, cost)),
        Err(e) => Err(e),
    }
}

/// Runs a linear-cost precompile: out of gas when its cost exceeds the gas given; otherwise
/// the precompile runs with that cost, and `with_linear_cost` says what comes back.
pub fn execute_linear_cost<T: LinearCostPrecompile>(input: &[u8], target_gas: Option<u64>) -> (r:
    Result<(ExitSucceed, Vec<u8>, u64), ExitError>)
    ensures
        linear_cost_of(target_gas, input@.len(), T::BASE, T::WORD) is Err ==> r
            == Err::<(ExitSucceed, Vec<u8>, u64), ExitError>(ExitError::OutOfGas),
        r is Ok ==> linear_cost_of(target_gas, input@.len(), T::BASE, T::WORD) == Ok::<
            u64,
            ExitError,
        >(r->Ok_0.2),
{
    let cost = ensure_linear_cost(target_gas, input.len() as u64, T::BASE, T::WORD)?;
    with_linear_cost(cost, T::execute(input, cost))
}

/// The number of 32-byte words that `len` bytes take, the count rounded up (saturating).
pub open spec fn word_count(len: u64) -> nat {
    (if len as nat + 31 > u64::MAX as nat {
        u64::MAX as nat
    } else {
        len as nat + 31
    }) / 32
}

/// The cost of `len` bytes at `base` plus `word` per word, or out of gas.
pub open spec fn linear_cost_of(target_gas: Option<u64>, len: nat, base: u64, word: u64) -> Result<
    u64,
    ExitError,
> {
    let cost = base as nat + word as nat * word_count(len as u64);
    if cost > u64::MAX as nat {
        Err(ExitError::OutOfGas)
    } else if target_gas is Some && cost > target_gas->0 as nat {
        Err(ExitError::OutOfGas)
    } else {
        Ok(cost as u64)
    }
}

/// The cost of a precompile that charges `base` plus `word` per 32-byte word of input:
/// out of gas when that does not fit in 64 bits or exceeds the gas given.
pub fn ensure_linear_cost(target_gas: Option<u64>, len: u64, base: u64, word: u64) -> (r: Result<
    u64,
    ExitError,
>)
    ensures
        r == linear_cost_of(target_gas, len as nat, base, word),
{
    let words = len.saturating_add(31) / 32;
    let per_words = match word.checked_mul(words) {
        Some(c) => c,
        None => {
            proof {
                assert(word as nat * word_count(len) >= word as nat * words as nat);
            }
            return Err(ExitError::OutOfGas);
        },
    };
    let cost = match base.checked_add(per_words) {
        Some(c) => c,
        None => {
            return Err(ExitError::OutOfGas);
        },
    };
    if let Some(target_gas) = target_gas {
        if cost > target_gas {
            return Err(ExitError::OutOfGas);
        }
    }
    Ok(cost)
}

} // verus!
