//! The minimum gas price, moved at the end of each block toward a target that block
//! producers note, by at most a bounded step.
use vstd::prelude::*;

use crate::types::{
    U256, max_nat, min_nat, u256_checked_div, u256_max, u256_saturating_add, u256_saturating_sub,
};

verus! {

/// The step bound: the price divided by the divisor, plus one.
pub open spec fn step_bound(price: nat, divisor: nat) -> nat {
    price / divisor + 1
}

/// The next minimum gas price: without a target it stays; with one it moves to the target,
/// but no further than the step bound up or down (saturating at the word's ends).
pub open spec fn next_min_gas_price_of(price: nat, target: Option<nat>, divisor: nat) -> nat {
    match target {
        None => price,
        Some(t) => {
            let bound = step_bound(price, divisor);
            let upper = min_nat(price + bound, u256_max());
            let lower = if price >= bound {
                (price - bound) as nat
            } else {
                0
            };
            min_nat(upper, max_nat(lower, t))
        },
    }
}

/// The state of the pallet: the minimum gas price, and the target noted in this block.
#[derive(Clone, Copy, Debug)]
pub struct DynamicFee {
    pub min_gas_price: U256,
    pub target_min_gas_price: Option<U256>,
}

impl DynamicFee {
    pub fn new(min_gas_price: U256) -> (r: Self)
        ensures
            r.min_gas_price == min_gas_price,
            r.target_min_gas_price is None,
    {
        DynamicFee { min_gas_price, target_min_gas_price: None }
    }

    /// Notes the target for the current block.
    pub fn note_min_gas_price_target(&mut self, target: U256)
        ensures
            final(self).min_gas_price == old(self).min_gas_price,
            final(self).target_min_gas_price == Some(target),
    {
        self.target_min_gas_price = Some(target);
    }

    /// End of block: moves the price toward the noted target and forgets the target.
    /// The divisor is not zero, and the step bound fits in a word.
    pub fn on_finalize(&mut self, bound_divisor: &U256)
        requires
            bound_divisor.value() > 0,
            step_bound(old(self).min_gas_price.value(), bound_divisor.value()) <= u256_max(),
        ensures
            final(self).target_min_gas_price is None,
            final(self).min_gas_price.value() == next_min_gas_price_of(
                old(self).min_gas_price.value(),
                match old(self).target_min_gas_price {
                    Some(t) => Some(t.value()),
                    None => None,
                },
                bound_divisor.value(),
            ),
    {
        if let Some(target) = self.target_min_gas_price {
            let price = self.min_gas_price;
            let quotient = match u256_checked_div(&price, bound_divisor) {
                Some(q) => q,
                None => price,
            };
            let bound = u256_saturating_add(&quotient, &U256::from_u64(1));
            let upper_limit = u256_saturating_add(&price, &bound);
            let lower_limit = u256_saturating_sub(&price, &bound);
            let raised = if lower_limit.lt(&target) {
                target
            } else {
                lower_limit
            };
            self.min_gas_price = if raised.lt(&upper_limit) {
                raised
            } else {
                upper_limit
            };
        }
        self.target_min_gas_price = None;
    }
}

} // verus!
