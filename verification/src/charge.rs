//! Charge and reward arithmetic: exact integer computation of customer
//! charges from pricing, of protocol fees from fee shares, and of
//! proportional provider rewards — with every overflow an explicit error.

use vstd::prelude::*;

use crate::arith::{
    fee_parts_left_from_one, left_from_one_spec, percent_mul_spec, perquintill_from_rational,
    perquintill_from_rational_spec, perquintill_mul, perquintill_mul_spec, PERQUINTILL_ACCURACY,
};
use crate::primitives::{
    BucketUsage, ClusterFeesParams, ClusterPricingParams, CustomerCharge, NodeReward, NodeUsage,
    AVG_SECONDS_MONTH, MEBIBYTE,
};

verus! {

/// The unsigned value that a stored-bytes balance presents to the charge
/// formula: two's-complement reinterpretation of the signed count.
pub open spec fn stored_as_unsigned(stored: i64) -> int {
    if stored >= 0 {
        stored as int
    } else {
        stored + 0x1_0000_0000_0000_0000_0000_0000_0000_0000int
    }
}

/// Reinterprets a signed stored-bytes balance as the unsigned value the
/// charge formula sees.
pub fn stored_bytes_as_unsigned(stored: i64) -> (r: u128)
    ensures
        r == stored_as_unsigned(stored),
{
    if stored >= 0 {
        stored as u128
    } else {
        let offset: i64 = -(stored + 1);
        u128::MAX - (offset as u128)
    }
}

/// Streaming charge of a usage record: transferred bytes priced per mebibyte.
pub open spec fn transfer_charge_spec(price_per_mb: int, transferred: int) -> int {
    (transferred * price_per_mb) / (MEBIBYTE as int)
}

/// Storage charge of a usage record before pro-rating: stored bytes priced
/// per mebibyte.
pub open spec fn storage_charge_full_spec(price_per_mb: int, stored: int) -> int {
    (stored * price_per_mb) / (MEBIBYTE as int)
}

/// The fraction of a nominal month that the era spans, in parts per
/// quintillion.
pub open spec fn era_fraction_spec(start_era: int, end_era: int) -> int {
    perquintill_from_rational_spec(end_era - start_era, AVG_SECONDS_MONTH as int)
}

/// Whether every term of the customer charge fits the token type.
pub open spec fn charge_fits(pricing: ClusterPricingParams, usage: BucketUsage) -> bool {
    &&& usage.transferred_bytes * pricing.unit_per_mb_streamed <= u128::MAX
    &&& stored_as_unsigned(usage.stored_bytes) * pricing.unit_per_mb_stored <= u128::MAX
    &&& usage.number_of_gets * pricing.unit_per_get_request <= u128::MAX
    &&& usage.number_of_puts * pricing.unit_per_put_request <= u128::MAX
}

/// The customer charge owed for a usage record over an era: one term per
/// usage dimension, the storage term pro-rated by the era's share of a
/// nominal month.
pub open spec fn customer_charge_spec(
    pricing: ClusterPricingParams,
    usage: BucketUsage,
    start_era: int,
    end_era: int,
) -> CustomerCharge {
    CustomerCharge {
        transfer: transfer_charge_spec(
            pricing.unit_per_mb_streamed as int,
            usage.transferred_bytes as int,
        ) as u128,
        storage: perquintill_mul_spec(
            era_fraction_spec(start_era, end_era),
            storage_charge_full_spec(
                pricing.unit_per_mb_stored as int,
                stored_as_unsigned(usage.stored_bytes),
            ),
        ) as u128,
        puts: (usage.number_of_puts * pricing.unit_per_put_request) as u128,
        gets: (usage.number_of_gets * pricing.unit_per_get_request) as u128,
    }
}

/// Computes the customer charge for one usage record, or reports that a
/// term overflowed the token type. Succeeds exactly when every term fits.
pub fn get_customer_charge(
    pricing: &ClusterPricingParams,
    usage: &BucketUsage,
    start_era: i64,
    end_era: i64,
) -> (r: Option<CustomerCharge>)
    requires
        start_era <= end_era,
        end_era - start_era <= i64::MAX,
    ensures
        r is Some <==> charge_fits(*pricing, *usage),
        r is Some ==> r->Some_0 == customer_charge_spec(
            *pricing,
            *usage,
            start_era as int,
            end_era as int,
        ),
{
    let transferred: u128 = usage.transferred_bytes as u128;
    let transfer_total = match transferred.checked_mul(pricing.unit_per_mb_streamed) {
        Some(t) => t / MEBIBYTE,
        None => {
            return None;
        },
    };

    let duration_seconds: u64 = (end_era - start_era) as u64;
    let fraction_of_month: u64 = perquintill_from_rational(
        duration_seconds as u128,
        AVG_SECONDS_MONTH as u128,
    );

    let stored: u128 = stored_bytes_as_unsigned(usage.stored_bytes);
    let storage_full = match stored.checked_mul(pricing.unit_per_mb_stored) {
        Some(s) => s / MEBIBYTE,
        None => {
            return None;
        },
    };
    let storage_total = perquintill_mul(fraction_of_month, storage_full);

    let gets_total = match (usage.number_of_gets as u128).checked_mul(
        pricing.unit_per_get_request,
    ) {
        Some(g) => g,
        None => {
            return None;
        },
    };
    let puts_total = match (usage.number_of_puts as u128).checked_mul(
        pricing.unit_per_put_request,
    ) {
        Some(p) => p,
        None => {
            return None;
        },
    };

    Some(
        CustomerCharge {
            transfer: transfer_total,
            storage: storage_total,
            puts: puts_total,
            gets: gets_total,
        },
    )
}

/// Sum of the four components of a customer charge.
pub open spec fn charge_total_spec(c: CustomerCharge) -> int {
    c.transfer + c.storage + c.puts + c.gets
}

/// Adds the four components of a charge, or reports overflow. Succeeds
/// exactly when the sum fits the token type.
pub fn charge_total(c: &CustomerCharge) -> (r: Option<u128>)
    ensures
        r is Some <==> charge_total_spec(*c) <= u128::MAX,
        r is Some ==> r->Some_0 == charge_total_spec(*c),
{
    match c.transfer.checked_add(c.storage) {
        Some(tr_st) => match tr_st.checked_add(c.puts) {
            Some(tr_st_pu) => tr_st_pu.checked_add(c.gets),
            None => None,
        },
        None => None,
    }
}

/// The proportional share of one reward dimension: the node's share of the
/// cluster total of that dimension, applied to the corresponding component
/// of the post-fee customer charge. A zero cluster total means no activity
/// to share in, so the ratio — and the reward — is zero.
pub open spec fn reward_dim_spec(node_dim: int, total_dim: int, charge_dim: int) -> int {
    if total_dim == 0 {
        0
    } else {
        perquintill_mul_spec(perquintill_from_rational_spec(node_dim, total_dim), charge_dim)
    }
}

/// Computes the reward of one node: for each usage dimension, the node's
/// proportional share of the total customer charge component.
pub fn get_node_reward(
    node_usage: &NodeUsage,
    total_usage: &NodeUsage,
    total_charge: &CustomerCharge,
) -> (r: NodeReward)
    ensures
        r.transfer == reward_dim_spec(
            node_usage.transferred_bytes as int,
            total_usage.transferred_bytes as int,
            total_charge.transfer as int,
        ),
        r.storage == reward_dim_spec(
            stored_as_unsigned(node_usage.stored_bytes),
            stored_as_unsigned(total_usage.stored_bytes),
            total_charge.storage as int,
        ),
        r.puts == reward_dim_spec(
            node_usage.number_of_puts as int,
            total_usage.number_of_puts as int,
            total_charge.puts as int,
        ),
        r.gets == reward_dim_spec(
            node_usage.number_of_gets as int,
            total_usage.number_of_gets as int,
            total_charge.gets as int,
        ),
        r.transfer <= total_charge.transfer,
        r.storage <= total_charge.storage,
        r.puts <= total_charge.puts,
        r.gets <= total_charge.gets,
{
    let transfer = reward_dim(
        node_usage.transferred_bytes as u128,
        total_usage.transferred_bytes as u128,
        total_charge.transfer,
    );
    let node_stored: u128 = stored_bytes_as_unsigned(node_usage.stored_bytes);
    let total_stored: u128 = stored_bytes_as_unsigned(total_usage.stored_bytes);
    let storage = reward_dim(node_stored, total_stored, total_charge.storage);
    let puts = reward_dim(node_usage.number_of_puts as u128, total_usage.number_of_puts as u128, total_charge.puts);
    let gets = reward_dim(node_usage.number_of_gets as u128, total_usage.number_of_gets as u128, total_charge.gets);
    NodeReward { transfer, storage, puts, gets }
}

/// One dimension of the proportional reward.
fn reward_dim(node_dim: u128, total_dim: u128, charge_dim: u128) -> (r: u128)
    ensures
        r == reward_dim_spec(node_dim as int, total_dim as int, charge_dim as int),
        r <= charge_dim,
{
    if total_dim == 0 {
        0
    } else {
        let ratio = perquintill_from_rational(node_dim, total_dim);
        perquintill_mul(ratio, charge_dim)
    }
}

/// The whole reward a node's usage earns: the sum of its proportional
/// share in each charge component.
pub open spec fn reward_total_spec(
    node_usage: NodeUsage,
    total_usage: NodeUsage,
    total_charge: CustomerCharge,
) -> int {
    reward_dim_spec(
        node_usage.transferred_bytes as int,
        total_usage.transferred_bytes as int,
        total_charge.transfer as int,
    ) + reward_dim_spec(
        stored_as_unsigned(node_usage.stored_bytes),
        stored_as_unsigned(total_usage.stored_bytes),
        total_charge.storage as int,
    ) + reward_dim_spec(
        node_usage.number_of_puts as int,
        total_usage.number_of_puts as int,
        total_charge.puts as int,
    ) + reward_dim_spec(
        node_usage.number_of_gets as int,
        total_usage.number_of_gets as int,
        total_charge.gets as int,
    )
}

/// The charge components left after scaling by the fraction of one that
/// remains when the three fee shares are deducted.
pub open spec fn charge_after_fees_spec(c: CustomerCharge, fees: ClusterFeesParams) -> CustomerCharge {
    let left = left_from_one_spec(
        fees.treasury_share as int,
        fees.validators_share as int,
        fees.cluster_reserve_share as int,
    );
    if left == 0 {
        c
    } else {
        CustomerCharge {
            transfer: perquintill_mul_spec(left, c.transfer as int) as u128,
            storage: perquintill_mul_spec(left, c.storage as int) as u128,
            puts: perquintill_mul_spec(left, c.puts as int) as u128,
            gets: perquintill_mul_spec(left, c.gets as int) as u128,
        }
    }
}

/// Scales the accumulated charge by what is left after fee deduction, as
/// the ledger does at the end of the charging phase: a zero remainder
/// leaves the components untouched.
pub fn apply_fees_to_charge(c: &CustomerCharge, fees: &ClusterFeesParams) -> (r: CustomerCharge)
    requires
        fees.treasury_share <= PERQUINTILL_ACCURACY,
        fees.validators_share <= PERQUINTILL_ACCURACY,
        fees.cluster_reserve_share <= PERQUINTILL_ACCURACY,
    ensures
        r == charge_after_fees_spec(*c, *fees),
{
    let left = fee_parts_left_from_one(
        fees.treasury_share,
        fees.validators_share,
        fees.cluster_reserve_share,
    );
    if left == 0 {
        *c
    } else {
        CustomerCharge {
            transfer: perquintill_mul(left, c.transfer),
            storage: perquintill_mul(left, c.storage),
            puts: perquintill_mul(left, c.puts),
            gets: perquintill_mul(left, c.gets),
        }
    }
}

/// A charge scaled down to the fraction of it that was actually collected:
/// each component is multiplied by the collected-to-requested ratio.
pub open spec fn scaled_charge_spec(c: CustomerCharge, actually: int, total: int) -> CustomerCharge {
    let p = perquintill_from_rational_spec(actually, total);
    CustomerCharge {
        transfer: perquintill_mul_spec(p, c.transfer as int) as u128,
        storage: perquintill_mul_spec(p, c.storage as int) as u128,
        puts: perquintill_mul_spec(p, c.puts as int) as u128,
        gets: perquintill_mul_spec(p, c.gets as int) as u128,
    }
}

/// Scales a charge down to the fraction that was actually collected.
pub fn scale_charge(c: &CustomerCharge, actually: u128, total: u128) -> (r: CustomerCharge)
    ensures
        r == scaled_charge_spec(*c, actually as int, total as int),
{
    let p = perquintill_from_rational(actually, total);
    CustomerCharge {
        transfer: perquintill_mul(p, c.transfer),
        storage: perquintill_mul(p, c.storage),
        puts: perquintill_mul(p, c.puts),
        gets: perquintill_mul(p, c.gets),
    }
}

/// Law: a usage record with no activity is charged exactly zero, whatever
/// the pricing and era bounds.
pub proof fn lemma_zero_usage_zero_charge(
    pricing: ClusterPricingParams,
    start_era: int,
    end_era: int,
)
    requires
        start_era <= end_era,
    ensures
        charge_fits(pricing, BucketUsage::spec_zero()),
        charge_total_spec(
            customer_charge_spec(pricing, BucketUsage::spec_zero(), start_era, end_era),
        ) == 0,
{
    let usage = BucketUsage::spec_zero();
    assert(usage.transferred_bytes * pricing.unit_per_mb_streamed == 0) by (nonlinear_arith)
        requires
            usage.transferred_bytes == 0,
    ;
    assert(usage.number_of_puts * pricing.unit_per_put_request == 0) by (nonlinear_arith)
        requires
            usage.number_of_puts == 0,
    ;
    assert(usage.number_of_gets * pricing.unit_per_get_request == 0) by (nonlinear_arith)
        requires
            usage.number_of_gets == 0,
    ;
    assert(stored_as_unsigned(usage.stored_bytes) == 0);
    assert(stored_as_unsigned(usage.stored_bytes) * pricing.unit_per_mb_stored == 0)
        by (nonlinear_arith)
        requires
            stored_as_unsigned(usage.stored_bytes) == 0,
    ;
    let c = customer_charge_spec(pricing, usage, start_era, end_era);
    assert(c.transfer == 0);
    assert(c.puts == 0 && c.gets == 0);
    let f = era_fraction_spec(start_era, end_era);
    assert(storage_charge_full_spec(pricing.unit_per_mb_stored as int, 0) == 0);
    assert(perquintill_mul_spec(f, 0) == 0) by {
        let clamped = if f <= PERQUINTILL_ACCURACY {
            f
        } else {
            PERQUINTILL_ACCURACY as int
        };
        assert(clamped * 0 == 0) by (nonlinear_arith);
    }
}

} // verus!
