//! The face that staking shows of the currency it locks funds in.

use vstd::prelude::*;

verus! {

/// The identifier of the lock that staking holds on bonded funds.
pub const STAKING_ID: [u8; 8] = [115, 116, 97, 107, 105, 110, 103, 32];

/// What staking needs of its surroundings: a currency that can tell how much of
/// an account's balance is locked, and under which identifier.
pub trait Config {
    /// What names an account.
    type AccountId;

    /// What counts funds.
    type Balance;

    /// Reads the amount that is locked for `who` under the identifier `id`.
    fn balance_locked(&self, id: [u8; 8], who: &Self::AccountId) -> Self::Balance;
}

/// Balance that is staked and at stake: what the currency reports as locked for
/// `who` under the identifier of staking.
pub fn staked<T: Config>(currency: &T, who: &T::AccountId) -> (amount: T::Balance)
    ensures
        call_ensures(T::balance_locked, (currency, STAKING_ID, who), amount),
{
    currency.balance_locked(STAKING_ID, who)
}

} // verus!
