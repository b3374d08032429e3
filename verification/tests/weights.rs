use candidate_primitives::weights::benchmarking::{SubstrateWeight, WeightInfo};
use candidate_primitives::weights::{saturating_mul, RuntimeDbWeight, Weight};

#[test]
fn weight_arithmetic_saturates() {
    let a = Weight::from_parts(u64::MAX - 1, 5);
    let b = Weight::from_parts(7, 6);
    assert_eq!(a.saturating_add(b), Weight::from_parts(u64::MAX, 11));
    assert_eq!(b.saturating_mul(3), Weight::from_parts(21, 18));
    assert_eq!(a.saturating_mul(2), Weight::from_parts(u64::MAX, 10));
    assert_eq!(saturating_mul(0, u64::MAX), 0);
    assert_eq!(saturating_mul(u64::MAX, 0), 0);
    assert_eq!(saturating_mul(1 << 32, 1 << 32), u64::MAX);
    assert_eq!(saturating_mul(1 << 32, (1 << 32) - 1), 0xffff_ffff_0000_0000);
    assert_eq!(Weight::zero(), Weight::from_parts(0, 0));
    assert_eq!(b.ref_time(), 7);
    assert_eq!(b.proof_size(), 6);
}

#[test]
fn db_weight_counts_reads_and_writes() {
    let db = RuntimeDbWeight::rocks_db();
    assert_eq!(db.reads(3), Weight::from_parts(75_000_000, 0));
    assert_eq!(db.writes(2), Weight::from_parts(200_000_000, 0));
}

#[test]
fn benchmarking_weights_have_their_measured_values() {
    let w = SubstrateWeight;
    assert_eq!(w.addition(5), Weight::from_parts(206_618, 0));
    assert_eq!(w.subtraction(5), Weight::from_parts(206_586, 0));
    assert_eq!(w.multiplication(5), Weight::from_parts(201_568, 0));
    assert_eq!(w.division(5), Weight::from_parts(202_039, 0));
    assert_eq!(w.hashing(), Weight::from_parts(26_910_483_000, 0));
    assert_eq!(w.sr25519_verification(0), Weight::from_parts(4_118_993, 0));
    assert_eq!(w.sr25519_verification(100), Weight::from_parts(4_118_993 + 4_082_612_200, 0));
}

#[test]
fn membership_weights_follow_their_formulas() {
    let db = RuntimeDbWeight { read: 1000, write: 3000 };
    let w = candidate_primitives::weights::membership::SubstrateWeight { db };
    assert_eq!(
        candidate_primitives::weights::membership::WeightInfo::add_member(&w, 10),
        Weight::from_parts(13_647_715 + 365_670 + 2000 + 9000, 4687 + 640)
    );
    assert_eq!(
        candidate_primitives::weights::membership::WeightInfo::set_prime(&w, 0),
        Weight::from_parts(6_699_171 + 1000 + 6000, 4687)
    );
    assert_eq!(
        candidate_primitives::weights::membership::WeightInfo::clear_prime(&w),
        Weight::from_parts(2_977_000 + 6000, 0)
    );
    assert_eq!(
        candidate_primitives::weights::membership::WeightInfo::change_key(&(), 2),
        Weight::from_parts(16_880_745 + 89_706 + 75_000_000 + 400_000_000, 4687 + 128)
    );
    let dear = candidate_primitives::weights::membership::SubstrateWeight {
        db: RuntimeDbWeight { read: u64::MAX, write: 0 },
    };
    assert_eq!(
        candidate_primitives::weights::membership::WeightInfo::remove_member(&dear, 1),
        Weight::from_parts(u64::MAX, 4687 + 64)
    );
}

#[test]
fn election_weights_follow_their_formulas() {
    let db = RuntimeDbWeight { read: 10, write: 100 };
    let w = candidate_primitives::weights::election::SubstrateWeight { db };
    assert_eq!(
        candidate_primitives::weights::election::WeightInfo::create_targets_snapshot_paged(&w, 2),
        Weight::from_parts(3_209_333_333 + 2 * 86_960_937 + 30 + 20 + 200, 3510 + 5040)
    );
    assert_eq!(
        candidate_primitives::weights::election::WeightInfo::create_voters_snapshot_paged(&w, 3),
        Weight::from_parts(4_906_354_838 + 3 * 260_582_661 + 2080 + 150 + 300, 512_390 + 3 * 3566)
    );
    assert_eq!(
        candidate_primitives::weights::election::WeightInfo::on_initialize_start_signed(&w),
        Weight::from_parts(66_000_000 + 20 + 200, 1561)
    );
    assert_eq!(
        candidate_primitives::weights::election::WeightInfo::on_phase_transition(&w),
        Weight::from_parts(62_000_000 + 20 + 100, 1561)
    );
    assert_eq!(
        candidate_primitives::weights::election::WeightInfo::on_initialize_start_export(&w),
        Weight::from_parts(3_000_000, 0)
    );
    assert_eq!(
        candidate_primitives::weights::election::WeightInfo::on_initialize_do_nothing(&w),
        Weight::from_parts(111_000_000 + 50, 3481)
    );
    assert_eq!(
        candidate_primitives::weights::election::WeightInfo::on_phase_transition(&()),
        Weight::zero()
    );
}

#[test]
fn runtime_weights_follow_their_formulas() {
    let db = RuntimeDbWeight { read: 10, write: 100 };
    let proxy = candidate_primitives::weights::proxy::WeightInfo { db };
    assert_eq!(proxy.proxy(2), Weight::from_parts(14_477_141 + 2 * 51_199 + 10, 4706));
    assert_eq!(
        proxy.proxy_announced(3, 2),
        Weight::from_parts(41_941_202 + 3 * 143_574 + 2 * 39_407 + 30 + 200, 5698)
    );
    assert_eq!(
        proxy.remove_announcement(3, 1000),
        Weight::from_parts(30_083_138 + 3 * 144_890 + 20 + 200, 5698)
    );
    assert_eq!(proxy.kill_pure(0), Weight::from_parts(23_277_873 + 10 + 100, 4706));
    let mmr = candidate_primitives::weights::mmr::WeightInfo { db };
    assert_eq!(
        mmr.on_initialize(4),
        Weight::from_parts(9_780_862_657 + 10_330 + 500, 3_608_982 + 4 * 39)
    );
    let pools = candidate_primitives::weights::asset_conversion::WeightInfo { db };
    assert_eq!(pools.create_pool(), Weight::from_parts(92_983_000 + 70 + 400, 4689));
    assert_eq!(
        pools.swap_exact_tokens_for_tokens(3),
        Weight::from_parts(149_061_000 + 3 * 2_609_579 + 60 + 400, 7404 + 3 * 3157)
    );
    assert_eq!(
        pools.touch(5),
        Weight::from_parts(65_568_634 + 5 * 17_037_893 + 60 + 500, 4689)
    );
}
