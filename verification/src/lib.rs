//! Candidate descriptors, receipts and the core-assignment rules that tie them
//! together.
//!
//! A candidate is a parachain block that waits to be backed and included by the
//! relay chain. Its descriptor has one fixed layout of 292 bytes, which is read
//! in two ways: the legacy reading finds a collator and its signature where the
//! current reading finds a version tag, a core index, a session index and
//! reserved zero bytes. The modules:
//!
//! - [`wire`]: little-endian integers, compact lengths and byte strings behind
//!   their length, written and read.
//! - [`hashing`]: BLAKE2b-256 digests.
//! - [`primitives`]: the small value types.
//! - [`descriptor`]: the descriptor, its encoding and the rule that tells the two
//!   layouts apart.
//! - [`signal`]: the signals among the upward messages.
//! - [`commitments`]: the commitments of a candidate, the core they select and
//!   their encoding; [`decoding`] reads them back.
//! - [`receipt`]: receipts, their canonical hash and the check of the core that a
//!   receipt claims; [`ordering`] orders them.
//! - [`legacy`]: descriptors and receipts in the legacy layout.
//! - [`bitfield`] and [`backing`]: backed candidates and the core index at the
//!   end of their bit field.
//! - [`core_state`]: events, core states, scraped votes and inherent data.
//! - [`scheduler`]: the parameters of the scheduler.
//! - [`pallet_parts`]: the parts that a pallet offers to a runtime.
//! - [`weights`], [`staking`] and [`origin`]: what calls cost, what an account
//!   has staked, and who may create reward pools.

pub mod backing;
pub mod bitfield;
pub mod commitments;
pub mod core_state;
pub mod decoding;
pub mod descriptor;
pub mod hashing;
pub mod legacy;
pub mod ordering;
pub mod origin;
pub mod pallet_parts;
pub mod primitives;
pub mod receipt;
pub mod scheduler;
pub mod signal;
pub mod staking;
pub mod weights;
pub mod wire;
