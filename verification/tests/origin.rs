use candidate_primitives::origin::{MockPermissionedPoolCreator, RawOrigin, PERMISSIONED_ACCOUNT_ID};

#[test]
fn account_one_may_create_pools() {
    assert_eq!(PERMISSIONED_ACCOUNT_ID, 1);
    assert_eq!(MockPermissionedPoolCreator::try_origin(RawOrigin::Signed(1)), Ok(()));
}

#[test]
fn other_origins_are_handed_back() {
    assert_eq!(
        MockPermissionedPoolCreator::try_origin(RawOrigin::Signed(2)),
        Err(RawOrigin::Signed(2))
    );
    assert_eq!(
        MockPermissionedPoolCreator::try_origin(RawOrigin::Signed(0)),
        Err(RawOrigin::Signed(0))
    );
    assert_eq!(MockPermissionedPoolCreator::try_origin(RawOrigin::Root), Err(RawOrigin::Root));
    assert_eq!(
        MockPermissionedPoolCreator::try_origin(RawOrigin::Unsigned),
        Err(RawOrigin::Unsigned)
    );
}
