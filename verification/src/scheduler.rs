//! The parameters of the scheduler that assigns parachains to cores.

use vstd::prelude::*;
use vstd::std_specs::convert::FromSpec;

verus! {

/// The size of the on-demand queue where none is configured.
pub const ON_DEMAND_DEFAULT_QUEUE_MAX_SIZE: u32 = 10_000;

/// How many parts make up the whole of a `Perbill`.
pub const PERBILL_ACCURACY: u32 = 1_000_000_000;

/// A share of a whole, in parts per billion.
#[derive(Clone, Copy, Debug, PartialEq, Eq, Structural)]
pub struct Perbill {
    parts: u32,
}

/// The parts per billion that a number of percent comes to. More than a hundred
/// percent count as a hundred.
pub open spec fn percent_parts(percent: u32) -> u32 {
    if percent > 100 {
        PERBILL_ACCURACY
    } else {
        (percent * 10_000_000) as u32
    }
}

/// Calls `sp_arithmetic::Perbill::from_percent` and takes the result apart with
/// `deconstruct`. Trusted: the parts are ten million for each percent, and a
/// billion for whatever is above a hundred percent.
#[verifier::external_body]
fn perbill_from_percent(percent: u32) -> (parts: u32)
    ensures
        parts == percent_parts(percent),
{
    sp_arithmetic::Perbill::from_percent(percent).deconstruct()
}

impl Perbill {
    /// The share that a number of percent comes to.
    pub fn from_percent(percent: u32) -> (share: Self)
        ensures
            share.deconstruct() == percent_parts(percent),
    {
        Perbill { parts: perbill_from_percent(percent) }
    }

    /// The number of parts per billion.
    #[verifier::when_used_as_spec(spec_deconstruct)]
    pub fn deconstruct(self) -> (parts: u32)
        ensures
            parts == self.deconstruct(),
    {
        self.parts
    }

    /// The number of parts per billion.
    pub closed spec fn spec_deconstruct(self) -> u32 {
        self.parts
    }
}

/// The parameters of the scheduler, among them all that concern coretime and
/// on-demand parachains.
#[derive(Clone, Copy, Debug, PartialEq)]
pub struct SchedulerParams<BlockNumber> {
    /// How often the groups of validators rotate across the cores, in blocks. Not
    /// zero.
    pub group_rotation_frequency: BlockNumber,
    /// How long validators have to make a block available after it came to
    /// occupy a core, in blocks. At least 1.
    pub paras_availability_period: BlockNumber,
    /// The largest number of validators per core, where there is a limit.
    pub max_validators_per_core: Option<u32>,
    /// How many blocks ahead parachains are scheduled.
    pub lookahead: u32,
    /// How many cores the coretime chain manages.
    pub num_cores: u32,
    /// How often a claim may time out in availability.
    pub max_availability_timeouts: u32,
    /// The largest size of the on-demand queue.
    pub on_demand_queue_max_size: u32,
    /// The share of the on-demand queue that is aimed to be in use.
    pub on_demand_target_queue_utilization: Perbill,
    /// How fast the on-demand fee rises as the queue fills.
    pub on_demand_fee_variability: Perbill,
    /// The least fee for a place in the on-demand queue.
    pub on_demand_base_fee: u128,
    /// How many blocks a claim stays in the claim queue before it is dropped.
    pub ttl: BlockNumber,
}

impl<BlockNumber> SchedulerParams<BlockNumber> {
    /// The parameters of a chain that has configured none, with the three spans
    /// of blocks as given: a lookahead of 1, no cores, no limit on validators per
    /// core, no availability timeouts, an on-demand queue of the default size
    /// that aims at a quarter in use, a fee variability of 3 percent and a base
    /// fee of ten million.
    pub fn with_block_numbers(
        group_rotation_frequency: BlockNumber,
        paras_availability_period: BlockNumber,
        ttl: BlockNumber,
    ) -> (params: Self)
        ensures
            params.group_rotation_frequency == group_rotation_frequency,
            params.paras_availability_period == paras_availability_period,
            params.ttl == ttl,
            params.max_validators_per_core is None,
            params.lookahead == 1,
            params.num_cores == 0,
            params.max_availability_timeouts == 0,
            params.on_demand_queue_max_size == ON_DEMAND_DEFAULT_QUEUE_MAX_SIZE,
            params.on_demand_target_queue_utilization.deconstruct() == 250_000_000,
            params.on_demand_fee_variability.deconstruct() == 30_000_000,
            params.on_demand_base_fee == 10_000_000,
    {
        SchedulerParams {
            group_rotation_frequency,
            paras_availability_period,
            max_validators_per_core: None,
            lookahead: 1,
            num_cores: 0,
            max_availability_timeouts: 0,
            on_demand_queue_max_size: ON_DEMAND_DEFAULT_QUEUE_MAX_SIZE,
            on_demand_target_queue_utilization: Perbill::from_percent(25),
            on_demand_fee_variability: Perbill::from_percent(3),
            on_demand_base_fee: 10_000_000u128,
            ttl,
        }
    }
}

impl SchedulerParams<u32> {
    /// The parameters of a chain that numbers its blocks with 32 bits and has
    /// configured none: the groups rotate with every block, a block has one
    /// block to become available, and a claim lives for five blocks.
    pub fn default_params() -> (params: Self)
        ensures
            params.group_rotation_frequency == 1,
            params.paras_availability_period == 1,
            params.ttl == 5,
            params.max_validators_per_core is None,
            params.lookahead == 1,
            params.num_cores == 0,
            params.max_availability_timeouts == 0,
            params.on_demand_queue_max_size == ON_DEMAND_DEFAULT_QUEUE_MAX_SIZE,
            params.on_demand_target_queue_utilization.deconstruct() == 250_000_000,
            params.on_demand_fee_variability.deconstruct() == 30_000_000,
            params.on_demand_base_fee == 10_000_000,
    {
        SchedulerParams::with_block_numbers(1u32, 1u32, 5u32)
    }
}

impl<BlockNumber: Default + From<u32>> Default for SchedulerParams<BlockNumber> {
    /// The parameters of a chain that has configured none. The three spans of
    /// blocks are what the block number makes of 1, 1 and 5.
    fn default() -> (params: Self)
        ensures
            <BlockNumber as FromSpec<u32>>::obeys_from_spec() ==> {
                &&& params.group_rotation_frequency == <BlockNumber as FromSpec<u32>>::from_spec(
                    1u32,
                )
                &&& params.paras_availability_period == <BlockNumber as FromSpec<u32>>::from_spec(
                    1u32,
                )
                &&& params.ttl == <BlockNumber as FromSpec<u32>>::from_spec(5u32)
            },
            params.max_validators_per_core is None,
            params.lookahead == 1,
            params.num_cores == 0,
            params.max_availability_timeouts == 0,
            params.on_demand_queue_max_size == ON_DEMAND_DEFAULT_QUEUE_MAX_SIZE,
            params.on_demand_target_queue_utilization.deconstruct() == 250_000_000,
            params.on_demand_fee_variability.deconstruct() == 30_000_000,
            params.on_demand_base_fee == 10_000_000,
    {
        SchedulerParams::with_block_numbers(
            BlockNumber::from(1u32),
            BlockNumber::from(1u32),
            BlockNumber::from(5u32),
        )
    }
}

} // verus!
