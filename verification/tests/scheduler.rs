use candidate_primitives::scheduler::{
    Perbill, SchedulerParams, ON_DEMAND_DEFAULT_QUEUE_MAX_SIZE, PERBILL_ACCURACY,
};

#[test]
fn perbill_counts_ten_million_parts_per_percent() {
    assert_eq!(Perbill::from_percent(0).deconstruct(), 0);
    assert_eq!(Perbill::from_percent(1).deconstruct(), 10_000_000);
    assert_eq!(Perbill::from_percent(25).deconstruct(), 250_000_000);
    assert_eq!(Perbill::from_percent(100).deconstruct(), 1_000_000_000);
    assert_eq!(Perbill::from_percent(101).deconstruct(), PERBILL_ACCURACY);
    assert_eq!(Perbill::from_percent(u32::MAX).deconstruct(), 1_000_000_000);
}

#[test]
fn default_scheduler_params_have_the_documented_values() {
    let params = SchedulerParams::<u32>::default();
    assert_eq!(params.group_rotation_frequency, 1);
    assert_eq!(params.paras_availability_period, 1);
    assert_eq!(params.max_validators_per_core, None);
    assert_eq!(params.lookahead, 1);
    assert_eq!(params.num_cores, 0);
    assert_eq!(params.max_availability_timeouts, 0);
    assert_eq!(params.on_demand_queue_max_size, ON_DEMAND_DEFAULT_QUEUE_MAX_SIZE);
    assert_eq!(params.on_demand_queue_max_size, 10_000);
    assert_eq!(params.on_demand_target_queue_utilization, Perbill::from_percent(25));
    assert_eq!(params.on_demand_fee_variability, Perbill::from_percent(3));
    assert_eq!(params.on_demand_base_fee, 10_000_000u128);
    assert_eq!(params.ttl, 5);
}

#[test]
fn default_scheduler_params_work_for_wider_block_numbers() {
    let params = SchedulerParams::<u64>::default();
    assert_eq!(params.group_rotation_frequency, 1u64);
    assert_eq!(params.ttl, 5u64);
}

#[test]
fn default_params_at_32_bits_are_the_defaults() {
    let params = SchedulerParams::default_params();
    assert_eq!(params, SchedulerParams::<u32>::default());
    assert_eq!(params.group_rotation_frequency, 1);
    assert_eq!(params.paras_availability_period, 1);
    assert_eq!(params.max_validators_per_core, None);
    assert_eq!(params.lookahead, 1);
    assert_eq!(params.num_cores, 0);
    assert_eq!(params.max_availability_timeouts, 0);
    assert_eq!(params.on_demand_queue_max_size, 10_000);
    assert_eq!(params.on_demand_target_queue_utilization.deconstruct(), 250_000_000);
    assert_eq!(params.on_demand_fee_variability.deconstruct(), 30_000_000);
    assert_eq!(params.on_demand_base_fee, 10_000_000u128);
    assert_eq!(params.ttl, 5);
}

#[test]
fn with_block_numbers_sets_the_three_spans() {
    let params = SchedulerParams::with_block_numbers(7u64, 8u64, 9u64);
    assert_eq!(params.group_rotation_frequency, 7);
    assert_eq!(params.paras_availability_period, 8);
    assert_eq!(params.ttl, 9);
    assert_eq!(params.lookahead, 1);
    assert_eq!(params.on_demand_queue_max_size, 10_000);
}
