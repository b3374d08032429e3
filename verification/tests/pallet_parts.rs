use candidate_primitives::pallet_parts::{
    default_parts, extra_parts, has_composite, CompositeKeyword, PalletDefinition, Part, PartName,
};

fn bare() -> PalletDefinition {
    PalletDefinition {
        call: false,
        task_enum: false,
        storages: 0,
        event: None,
        error: false,
        origin: None,
        genesis_config: None,
        inherent: false,
        validate_unsigned: false,
        composites: vec![],
    }
}

fn plain(name: PartName) -> Part {
    Part { name, generic: false }
}

fn generic(name: PartName) -> Part {
    Part { name, generic: true }
}

#[test]
fn bare_pallet_has_itself_only() {
    assert_eq!(default_parts(&bare()), vec![plain(PartName::Pallet)]);
    assert_eq!(extra_parts(&bare()), vec![]);
}

#[test]
fn full_pallet_has_every_part_in_the_fixed_order() {
    let def = PalletDefinition {
        call: true,
        task_enum: true,
        storages: 3,
        event: Some(true),
        error: true,
        origin: Some(false),
        genesis_config: Some(true),
        inherent: true,
        validate_unsigned: true,
        composites: vec![
            CompositeKeyword::SlashReason,
            CompositeKeyword::HoldReason,
            CompositeKeyword::FreezeReason,
            CompositeKeyword::LockId,
            CompositeKeyword::HoldReason,
        ],
    };
    assert_eq!(
        default_parts(&def),
        vec![
            plain(PartName::Pallet),
            plain(PartName::Call),
            plain(PartName::Storage),
            generic(PartName::Event),
            generic(PartName::Error),
            plain(PartName::Origin),
            generic(PartName::Config),
            plain(PartName::Inherent),
            plain(PartName::ValidateUnsigned),
            plain(PartName::FreezeReason),
            plain(PartName::Task),
            plain(PartName::HoldReason),
            plain(PartName::LockId),
            plain(PartName::SlashReason),
        ]
    );
    assert_eq!(extra_parts(&def), vec![generic(PartName::Error)]);
}

#[test]
fn parts_follow_what_the_pallet_defines() {
    let def = PalletDefinition {
        storages: 1,
        event: Some(false),
        composites: vec![CompositeKeyword::HoldReason],
        ..bare()
    };
    assert_eq!(
        default_parts(&def),
        vec![
            plain(PartName::Pallet),
            plain(PartName::Storage),
            plain(PartName::Event),
            plain(PartName::HoldReason),
        ]
    );
    assert_eq!(extra_parts(&def), vec![]);
    let def = PalletDefinition { error: true, task_enum: true, ..bare() };
    assert_eq!(
        default_parts(&def),
        vec![plain(PartName::Pallet), generic(PartName::Error), plain(PartName::Task)]
    );
}

#[test]
fn composites_are_found_by_kind() {
    let composites = [CompositeKeyword::LockId, CompositeKeyword::FreezeReason];
    assert!(has_composite(&composites, CompositeKeyword::LockId));
    assert!(has_composite(&composites, CompositeKeyword::FreezeReason));
    assert!(!has_composite(&composites, CompositeKeyword::HoldReason));
    assert!(!has_composite(&[], CompositeKeyword::SlashReason));
}
