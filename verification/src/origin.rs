//! Who makes a call, and the check that lets one account create reward pools.

use vstd::prelude::*;

verus! {

/// The account that may create reward pools.
pub const PERMISSIONED_ACCOUNT_ID: u128 = 1;

/// Where a call comes from.
#[derive(Clone, Copy, Debug, PartialEq, Eq, Structural)]
pub enum RawOrigin {
    /// The chain itself.
    Root,
    /// An account that signed the call.
    Signed(u128),
    /// Nobody: the call is unsigned.
    Unsigned,
}

/// Lets the account with the id 1 create reward pools, and nobody else.
#[derive(Clone, Copy, Debug, PartialEq, Eq, Structural)]
pub struct MockPermissionedPoolCreator;

impl MockPermissionedPoolCreator {
    /// Whether the origin may create reward pools.
    pub open spec fn admits(origin: RawOrigin) -> bool {
        origin == RawOrigin::Signed(PERMISSIONED_ACCOUNT_ID)
    }

    /// Lets the permissioned account pass and hands every other origin back.
    pub fn try_origin(origin: RawOrigin) -> (outcome: Result<(), RawOrigin>)
        ensures
            outcome == (if Self::admits(origin) {
                Ok::<(), RawOrigin>(())
            } else {
                Err::<(), RawOrigin>(origin)
            }),
    {
        match origin {
            RawOrigin::Signed(account) => {
                if account == PERMISSIONED_ACCOUNT_ID {
                    return Ok(());
                }
            },
            _ => {},
        }
        Err(origin)
    }
}

} // verus!
