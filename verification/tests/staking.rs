use candidate_primitives::staking::{staked, Config, STAKING_ID};

struct Ledger {
    locks: Vec<(u64, [u8; 8], u128)>,
}

impl Config for Ledger {
    type AccountId = u64;
    type Balance = u128;

    fn balance_locked(&self, id: [u8; 8], who: &u64) -> u128 {
        self.locks.iter().filter(|l| l.0 == *who && l.1 == id).map(|l| l.2).sum()
    }
}

#[test]
fn staked_reads_the_staking_lock() {
    let ledger = Ledger {
        locks: vec![(1, STAKING_ID, 500), (1, *b"vesting ", 70), (2, STAKING_ID, 9)],
    };
    assert_eq!(staked(&ledger, &1), 500);
    assert_eq!(staked(&ledger, &2), 9);
    assert_eq!(staked(&ledger, &3), 0);
}

#[test]
fn staking_lock_is_named_staking() {
    assert_eq!(&STAKING_ID, b"staking ");
}
