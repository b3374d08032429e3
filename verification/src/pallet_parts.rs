//! The parts that a pallet offers to the runtime it is built into.
//!
//! A runtime lists its pallets, and for each pallet the parts it takes from it:
//! the calls, the storage, the events and so on. A pallet that is listed without
//! parts gives all it has. What it has follows from what it defines, and the
//! parts always come in one fixed order.

use vstd::prelude::*;

verus! {

/// The kind of a composite enum of a pallet.
#[derive(Clone, Copy, Debug, PartialEq, Eq, Structural)]
pub enum CompositeKeyword {
    /// Reasons to freeze funds.
    FreezeReason,
    /// Reasons to hold funds.
    HoldReason,
    /// Identifiers of locks.
    LockId,
    /// Reasons to slash funds.
    SlashReason,
}

/// What a pallet defines, as far as its parts depend on it.
#[derive(Clone, Debug, PartialEq, Eq)]
pub struct PalletDefinition {
    /// Whether the pallet has calls.
    pub call: bool,
    /// Whether the pallet has an enum of tasks.
    pub task_enum: bool,
    /// How many storage items the pallet has.
    pub storages: usize,
    /// Whether the pallet has events, and then whether they are generic.
    pub event: Option<bool>,
    /// Whether the pallet has errors.
    pub error: bool,
    /// Whether the pallet has an origin, and then whether it is generic.
    pub origin: Option<bool>,
    /// Whether the pallet has a genesis configuration, and then whether it is
    /// generic.
    pub genesis_config: Option<bool>,
    /// Whether the pallet provides inherents.
    pub inherent: bool,
    /// Whether the pallet validates unsigned transactions.
    pub validate_unsigned: bool,
    /// The composite enums of the pallet, by kind.
    pub composites: Vec<CompositeKeyword>,
}

/// The name of a part.
#[derive(Clone, Copy, Debug, PartialEq, Eq, Structural)]
pub enum PartName {
    /// The pallet itself.
    Pallet,
    /// The calls.
    Call,
    /// The storage.
    Storage,
    /// The events.
    Event,
    /// The errors.
    Error,
    /// The origin.
    Origin,
    /// The genesis configuration.
    Config,
    /// The inherents.
    Inherent,
    /// The validation of unsigned transactions.
    ValidateUnsigned,
    /// The reasons to freeze funds.
    FreezeReason,
    /// The tasks.
    Task,
    /// The reasons to hold funds.
    HoldReason,
    /// The identifiers of locks.
    LockId,
    /// The reasons to slash funds.
    SlashReason,
}

/// A part of a pallet: its name, and whether it is generic over the runtime.
#[derive(Clone, Copy, Debug, PartialEq, Eq, Structural)]
pub struct Part {
    /// The name of the part.
    pub name: PartName,
    /// Whether the part is written with the runtime as its parameter.
    pub generic: bool,
}

/// The part alone where it is present, nothing where it is not.
pub open spec fn optional(present: bool, name: PartName, generic: bool) -> Seq<Part> {
    if present {
        seq![Part { name, generic }]
    } else {
        Seq::empty()
    }
}

/// The place of a part in the fixed order.
pub open spec fn rank(name: PartName) -> int {
    match name {
        PartName::Pallet => 0,
        PartName::Call => 1,
        PartName::Storage => 2,
        PartName::Event => 3,
        PartName::Error => 4,
        PartName::Origin => 5,
        PartName::Config => 6,
        PartName::Inherent => 7,
        PartName::ValidateUnsigned => 8,
        PartName::FreezeReason => 9,
        PartName::Task => 10,
        PartName::HoldReason => 11,
        PartName::LockId => 12,
        PartName::SlashReason => 13,
    }
}

/// Whether a part is generic, where the definition says so.
pub open spec fn is_generic(definition: Option<bool>) -> bool {
    definition == Some(true)
}

/// The parts that a pallet gives where the runtime names none: the pallet
/// itself, then whatever it defines, in the fixed order. Errors are always
/// generic; events, origin and genesis configuration are where their
/// definition is.
pub open spec fn default_parts_of(def: PalletDefinition) -> Seq<Part> {
    seq![Part { name: PartName::Pallet, generic: false }] + optional(
        def.call,
        PartName::Call,
        false,
    ) + optional(def.storages > 0, PartName::Storage, false) + optional(
        def.event is Some,
        PartName::Event,
        is_generic(def.event),
    ) + optional(def.error, PartName::Error, true) + optional(
        def.origin is Some,
        PartName::Origin,
        is_generic(def.origin),
    ) + optional(def.genesis_config is Some, PartName::Config, is_generic(def.genesis_config))
        + optional(def.inherent, PartName::Inherent, false) + optional(
        def.validate_unsigned,
        PartName::ValidateUnsigned,
        false,
    ) + optional(
        def.composites@.contains(CompositeKeyword::FreezeReason),
        PartName::FreezeReason,
        false,
    ) + optional(def.task_enum, PartName::Task, false) + optional(
        def.composites@.contains(CompositeKeyword::HoldReason),
        PartName::HoldReason,
        false,
    ) + optional(def.composites@.contains(CompositeKeyword::LockId), PartName::LockId, false)
        + optional(
        def.composites@.contains(CompositeKeyword::SlashReason),
        PartName::SlashReason,
        false,
    )
}

/// The parts that a pallet adds where the runtime names the parts it takes:
/// the errors, if the pallet has any.
pub open spec fn extra_parts_of(def: PalletDefinition) -> Seq<Part> {
    optional(def.error, PartName::Error, true)
}

/// Adds the part where it is present.
fn push_if(parts: &mut Vec<Part>, present: bool, name: PartName, generic: bool)
    ensures
        final(parts)@ == old(parts)@ + optional(present, name, generic),
{
    if present {
        parts.push(Part { name, generic });
        assert(parts@ =~= old(parts)@ + optional(present, name, generic));
    } else {
        assert(parts@ =~= old(parts)@ + optional(present, name, generic));
    }
}

/// Tells whether the pallet has a composite enum of the given kind.
pub fn has_composite(composites: &[CompositeKeyword], keyword: CompositeKeyword) -> (found: bool)
    ensures
        found == composites@.contains(keyword),
{
    let mut i: usize = 0;
    while i < composites.len()
        invariant
            i <= composites@.len(),
            forall|j: int| 0 <= j < i ==> composites@[j] != keyword,
        decreases composites@.len() - i,
    {
        if composites[i] == keyword {
            return true;
        }
        i += 1;
    }
    false
}

/// Whether the definition is there and says generic.
fn generic_of(definition: Option<bool>) -> (generic: bool)
    ensures
        generic == is_generic(definition),
{
    match definition {
        Some(generic) => generic,
        None => false,
    }
}

/// The parts that a pallet gives where the runtime names none.
pub fn default_parts(def: &PalletDefinition) -> (parts: Vec<Part>)
    ensures
        parts@ == default_parts_of(*def),
{
    let composites: &[CompositeKeyword] = def.composites.as_slice();
    let mut parts: Vec<Part> = Vec::new();
    parts.push(Part { name: PartName::Pallet, generic: false });
    assert(parts@ =~= seq![Part { name: PartName::Pallet, generic: false }]);
    push_if(&mut parts, def.call, PartName::Call, false);
    push_if(&mut parts, def.storages > 0, PartName::Storage, false);
    push_if(&mut parts, def.event.is_some(), PartName::Event, generic_of(def.event));
    push_if(&mut parts, def.error, PartName::Error, true);
    push_if(&mut parts, def.origin.is_some(), PartName::Origin, generic_of(def.origin));
    push_if(
        &mut parts,
        def.genesis_config.is_some(),
        PartName::Config,
        generic_of(def.genesis_config),
    );
    push_if(&mut parts, def.inherent, PartName::Inherent, false);
    push_if(&mut parts, def.validate_unsigned, PartName::ValidateUnsigned, false);
    push_if(
        &mut parts,
        has_composite(composites, CompositeKeyword::FreezeReason),
        PartName::FreezeReason,
        false,
    );
    push_if(&mut parts, def.task_enum, PartName::Task, false);
    push_if(
        &mut parts,
        has_composite(composites, CompositeKeyword::HoldReason),
        PartName::HoldReason,
        false,
    );
    push_if(
        &mut parts,
        has_composite(composites, CompositeKeyword::LockId),
        PartName::LockId,
        false,
    );
    push_if(
        &mut parts,
        has_composite(composites, CompositeKeyword::SlashReason),
        PartName::SlashReason,
        false,
    );
    parts
}

/// The parts that a pallet adds where the runtime names the parts it takes.
pub fn extra_parts(def: &PalletDefinition) -> (parts: Vec<Part>)
    ensures
        parts@ == extra_parts_of(*def),
{
    let mut parts: Vec<Part> = Vec::new();
    push_if(&mut parts, def.error, PartName::Error, true);
    assert(parts@ =~= extra_parts_of(*def));
    parts
}

/// Whether the pallet defines what the part of this name stands for.
pub open spec fn defines(def: PalletDefinition, name: PartName) -> bool {
    match name {
        PartName::Pallet => true,
        PartName::Call => def.call,
        PartName::Storage => def.storages > 0,
        PartName::Event => def.event is Some,
        PartName::Error => def.error,
        PartName::Origin => def.origin is Some,
        PartName::Config => def.genesis_config is Some,
        PartName::Inherent => def.inherent,
        PartName::ValidateUnsigned => def.validate_unsigned,
        PartName::FreezeReason => def.composites@.contains(CompositeKeyword::FreezeReason),
        PartName::Task => def.task_enum,
        PartName::HoldReason => def.composites@.contains(CompositeKeyword::HoldReason),
        PartName::LockId => def.composites@.contains(CompositeKeyword::LockId),
        PartName::SlashReason => def.composites@.contains(CompositeKeyword::SlashReason),
    }
}

/// Whether `parts` are the parts below the rank `bound` that the pallet
/// defines, each once and in the fixed order.
pub open spec fn chosen_below(def: PalletDefinition, parts: Seq<Part>, bound: int) -> bool {
    &&& forall|i: int, j: int|
        0 <= i < j < parts.len() ==> rank(#[trigger] parts[i].name) < rank(
            #[trigger] parts[j].name,
        )
    &&& forall|i: int|
        0 <= i < parts.len() ==> rank(#[trigger] parts[i].name) < bound && defines(
            def,
            parts[i].name,
        )
    &&& forall|name: PartName|
        rank(name) < bound && #[trigger] defines(def, name) ==> exists|i: int|
            0 <= i < parts.len() && #[trigger] parts[i].name == name
}

/// Whether `parts` are chosen below `bound`, kept from unfolding on its own.
#[verifier::opaque]
pub open spec fn well_chosen(def: PalletDefinition, parts: Seq<Part>, bound: int) -> bool {
    chosen_below(def, parts, bound)
}

/// Putting the part of the next rank behind well-chosen parts, where the pallet
/// defines it, gives well-chosen parts again.
proof fn lemma_choose_next(
    def: PalletDefinition,
    parts: Seq<Part>,
    present: bool,
    name: PartName,
    generic: bool,
)
    requires
        well_chosen(def, parts, rank(name)),
        present == defines(def, name),
    ensures
        well_chosen(def, parts + optional(present, name, generic), rank(name) + 1),
{
    reveal(well_chosen);
    let next = parts + optional(present, name, generic);
    assert forall|i: int| 0 <= i < parts.len() implies next[i] == parts[i] by {}
    assert forall|other: PartName|
        rank(other) < rank(name) + 1 && #[trigger] defines(def, other) implies exists|i: int|
        0 <= i < next.len() && #[trigger] next[i].name == other by {
        if rank(other) < rank(name) {
            let i = choose|i: int| 0 <= i < parts.len() && #[trigger] parts[i].name == other;
            assert(next[i].name == other);
        } else {
            assert(other == name);
            assert(next[parts.len() as int].name == other);
        }
    }
}

/// The pallet itself, alone, is well chosen below the rank of the calls.
proof fn lemma_choose_first(def: PalletDefinition)
    ensures
        well_chosen(def, seq![Part { name: PartName::Pallet, generic: false }], 1),
{
    reveal(well_chosen);
    let s0 = seq![Part { name: PartName::Pallet, generic: false }];
    assert forall|name: PartName| rank(name) < 1 && #[trigger] defines(def, name) implies exists|
        i: int,
    | 0 <= i < s0.len() && #[trigger] s0[i].name == name by {
        assert(s0[0].name == name);
    }
}

/// The default parts are well chosen below the rank behind the last.
proof fn lemma_default_parts_chain(def: PalletDefinition)
    ensures
        well_chosen(def, default_parts_of(def), 14),
{
    let c = def.composites@;
    let s0 = seq![Part { name: PartName::Pallet, generic: false }];
    lemma_choose_first(def);
    lemma_choose_next(def, s0, def.call, PartName::Call, false);
    let s1 = s0 + optional(def.call, PartName::Call, false);
    lemma_choose_next(def, s1, def.storages > 0, PartName::Storage, false);
    let s2 = s1 + optional(def.storages > 0, PartName::Storage, false);
    lemma_choose_next(def, s2, def.event is Some, PartName::Event, is_generic(def.event));
    let s3 = s2 + optional(def.event is Some, PartName::Event, is_generic(def.event));
    lemma_choose_next(def, s3, def.error, PartName::Error, true);
    let s4 = s3 + optional(def.error, PartName::Error, true);
    lemma_choose_next(def, s4, def.origin is Some, PartName::Origin, is_generic(def.origin));
    let s5 = s4 + optional(def.origin is Some, PartName::Origin, is_generic(def.origin));
    lemma_choose_next(
        def,
        s5,
        def.genesis_config is Some,
        PartName::Config,
        is_generic(def.genesis_config),
    );
    let s6 = s5 + optional(
        def.genesis_config is Some,
        PartName::Config,
        is_generic(def.genesis_config),
    );
    lemma_choose_next(def, s6, def.inherent, PartName::Inherent, false);
    let s7 = s6 + optional(def.inherent, PartName::Inherent, false);
    lemma_choose_next(def, s7, def.validate_unsigned, PartName::ValidateUnsigned, false);
    let s8 = s7 + optional(def.validate_unsigned, PartName::ValidateUnsigned, false);
    lemma_choose_next(
        def,
        s8,
        c.contains(CompositeKeyword::FreezeReason),
        PartName::FreezeReason,
        false,
    );
    let s9 = s8 + optional(
        c.contains(CompositeKeyword::FreezeReason),
        PartName::FreezeReason,
        false,
    );
    lemma_choose_next(def, s9, def.task_enum, PartName::Task, false);
    let s10 = s9 + optional(def.task_enum, PartName::Task, false);
    lemma_choose_next(
        def,
        s10,
        c.contains(CompositeKeyword::HoldReason),
        PartName::HoldReason,
        false,
    );
    let s11 = s10 + optional(
        c.contains(CompositeKeyword::HoldReason),
        PartName::HoldReason,
        false,
    );
    lemma_choose_next(def, s11, c.contains(CompositeKeyword::LockId), PartName::LockId, false);
    let s12 = s11 + optional(c.contains(CompositeKeyword::LockId), PartName::LockId, false);
    lemma_choose_next(
        def,
        s12,
        c.contains(CompositeKeyword::SlashReason),
        PartName::SlashReason,
        false,
    );
}

/// The default parts are the parts that the pallet defines, each once and in the
/// fixed order, the pallet itself first.
pub proof fn lemma_default_parts_well_chosen(def: PalletDefinition)
    ensures
        chosen_below(def, default_parts_of(def), 14),
        default_parts_of(def).len() >= 1,
        default_parts_of(def)[0].name == PartName::Pallet,
{
    lemma_default_parts_chain(def);
    lemma_first_is_pallet(def, default_parts_of(def));
}

/// Among well-chosen parts the pallet itself comes first.
proof fn lemma_first_is_pallet(def: PalletDefinition, parts: Seq<Part>)
    requires
        well_chosen(def, parts, 14),
    ensures
        chosen_below(def, parts, 14),
        parts.len() >= 1,
        parts[0].name == PartName::Pallet,
{
    reveal(well_chosen);
    assert(defines(def, PartName::Pallet));
    let i = choose|i: int| 0 <= i < parts.len() && #[trigger] parts[i].name == PartName::Pallet;
    if i > 0 {
        assert(rank(parts[0].name) < rank(parts[i].name));
    }
}

} // verus!
