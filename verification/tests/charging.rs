//! Charge and reward arithmetic on concrete values.

use ddc_settlement::charge::{
    apply_fees_to_charge, charge_total, get_customer_charge, get_node_reward,
};
use ddc_settlement::primitives::{
    BucketUsage, ClusterFeesParams, ClusterPricingParams, CustomerCharge, NodeUsage,
    AVG_SECONDS_MONTH,
};

fn pricing() -> ClusterPricingParams {
    ClusterPricingParams {
        unit_per_mb_stored: 1_000_000,
        unit_per_mb_streamed: 1_000_000,
        unit_per_put_request: 100,
        unit_per_get_request: 10,
    }
}

/// A usage record with no activity is charged exactly zero.
#[test]
fn zero_usage_zero_charge() {
    let usage = BucketUsage {
        transferred_bytes: 0,
        stored_bytes: 0,
        number_of_puts: 0,
        number_of_gets: 0,
    };
    let charge = get_customer_charge(&pricing(), &usage, 0, 1_000_000).unwrap();
    assert_eq!(charge_total(&charge), Some(0));
}

/// A known usage and price table yields the hand-computed charge exactly.
#[test]
fn known_usage_exact_charge() {
    // exactly one nominal month, so the storage term is not pro-rated down
    let usage = BucketUsage {
        transferred_bytes: 2 * 1_048_576,
        stored_bytes: 1_048_576,
        number_of_puts: 3,
        number_of_gets: 5,
    };
    let charge = get_customer_charge(&pricing(), &usage, 0, AVG_SECONDS_MONTH).unwrap();
    // 2 MiB streamed at 1_000_000 per MiB
    assert_eq!(charge.transfer, 2_000_000);
    // 1 MiB stored at 1_000_000 per MiB for a whole month
    assert_eq!(charge.storage, 1_000_000);
    assert_eq!(charge.puts, 300);
    assert_eq!(charge.gets, 50);
    assert_eq!(charge_total(&charge), Some(3_000_350));
}

/// The storage term is pro-rated by the era's share of a nominal month.
#[test]
fn storage_charge_pro_rated() {
    let usage = BucketUsage {
        transferred_bytes: 0,
        stored_bytes: 1_048_576,
        number_of_puts: 0,
        number_of_gets: 0,
    };
    // half a month
    let charge = get_customer_charge(&pricing(), &usage, 0, AVG_SECONDS_MONTH / 2).unwrap();
    assert_eq!(charge.storage, 500_000);
    assert_eq!(charge.transfer, 0);
}

/// A term that cannot fit the token type is a hard error, not a wrap.
#[test]
fn charge_overflow_is_an_error() {
    let expensive = ClusterPricingParams {
        unit_per_mb_stored: 0,
        unit_per_mb_streamed: u128::MAX,
        unit_per_put_request: 0,
        unit_per_get_request: 0,
    };
    let usage = BucketUsage {
        transferred_bytes: u64::MAX,
        stored_bytes: 0,
        number_of_puts: 0,
        number_of_gets: 0,
    };
    assert!(get_customer_charge(&expensive, &usage, 0, 10).is_none());
}

/// A provider's reward is its proportional share of each charge component.
#[test]
fn reward_is_proportional_share() {
    let node = NodeUsage {
        transferred_bytes: 25,
        stored_bytes: 50,
        number_of_puts: 1,
        number_of_gets: 0,
    };
    let total = NodeUsage {
        transferred_bytes: 100,
        stored_bytes: 100,
        number_of_puts: 4,
        number_of_gets: 0,
    };
    let charge = CustomerCharge { transfer: 1000, storage: 2000, puts: 400, gets: 123 };
    let reward = get_node_reward(&node, &total, &charge);
    assert_eq!(reward.transfer, 250);
    assert_eq!(reward.storage, 1000);
    assert_eq!(reward.puts, 100);
    // a zero cluster total in a dimension shares nothing in it
    assert_eq!(reward.gets, 0);
}

/// Fee deduction scales the remainder by exactly one minus the shares.
#[test]
fn fee_deduction_scales_remainder() {
    let charge = CustomerCharge { transfer: 1_000_000, storage: 500_000, puts: 0, gets: 0 };
    // 10%, 5% and 5% shares in parts per quintillion
    let fees = ClusterFeesParams {
        treasury_share: 100_000_000_000_000_000,
        validators_share: 50_000_000_000_000_000,
        cluster_reserve_share: 50_000_000_000_000_000,
    };
    let after = apply_fees_to_charge(&charge, &fees);
    assert_eq!(after.transfer, 800_000);
    assert_eq!(after.storage, 400_000);
    assert_eq!(after.puts, 0);
    // a zero fee total leaves the charge untouched
    let no_fees = ClusterFeesParams {
        treasury_share: 0,
        validators_share: 0,
        cluster_reserve_share: 0,
    };
    assert_eq!(apply_fees_to_charge(&charge, &no_fees), charge);
}
