//! The signals a parachain places at the end of its upward messages.
//!
//! An empty message separates the ordinary upward messages from the signals. The
//! message right behind the last such separator selects the core that the candidate
//! commits to.

use vstd::prelude::*;
use crate::descriptor::DecodeError;

verus! {

/// A number that grows from block to block, as a rule the low byte of the block
/// number. Reduced modulo the number of assigned cores it picks one of them.
#[derive(Clone, Copy, Debug, PartialEq, Eq, Structural)]
pub struct CoreSelector(pub u8);

/// An offset into the claim queue of the relay chain.
#[derive(Clone, Copy, Debug, PartialEq, Eq, Structural)]
pub struct ClaimQueueOffset(pub u8);

/// The number of the claim queue offset that is used where none is given.
pub const DEFAULT_CLAIM_QUEUE_OFFSET: u8 = 1;

impl ClaimQueueOffset {
    /// The claim queue offset that is used where none is given.
    pub fn default_offset() -> (offset: Self)
        ensures
            offset == ClaimQueueOffset(DEFAULT_CLAIM_QUEUE_OFFSET),
    {
        ClaimQueueOffset(DEFAULT_CLAIM_QUEUE_OFFSET)
    }
}

/// A signal that a parachain sends to the relay chain among its upward messages.
#[derive(Clone, Copy, Debug, PartialEq, Eq, Structural)]
pub enum UMPSignal {
    /// Selects the core that the candidate is committed to.
    SelectCore(CoreSelector, ClaimQueueOffset),
}

/// The message that separates upward messages from signals is the empty one.
pub open spec fn is_separator(message: Seq<u8>) -> bool {
    message.len() == 0
}

/// The bytes of a signal: the number of its variant, then its fields.
pub open spec fn signal_encoding(signal: UMPSignal) -> Seq<u8> {
    match signal {
        UMPSignal::SelectCore(selector, offset) => seq![0u8, selector.0, offset.0],
    }
}

/// The signal that a message is. A message of another length than that of a
/// signal, or one that starts with the number of no known variant, is none.
pub open spec fn signal_of(message: Seq<u8>) -> Option<UMPSignal> {
    if message.len() == 3 && message[0] == 0 {
        Some(UMPSignal::SelectCore(CoreSelector(message[1]), ClaimQueueOffset(message[2])))
    } else {
        None
    }
}

/// A signal is read back from its own bytes.
pub proof fn lemma_signal_round_trip(signal: UMPSignal)
    ensures
        signal_of(signal_encoding(signal)) == Some(signal),
        !is_separator(signal_encoding(signal)),
{
}

/// A message that is a signal is the encoding of that signal: three bytes, no
/// more and no fewer.
pub proof fn lemma_signal_is_its_encoding(message: Seq<u8>)
    requires
        signal_of(message) is Some,
    ensures
        message.len() == 3,
        signal_encoding(signal_of(message)->0) == message,
{
    assert(signal_encoding(signal_of(message)->0) =~= message);
}

/// The separator between upward messages and signals.
pub fn ump_separator() -> (separator: Vec<u8>)
    ensures
        is_separator(separator@),
{
    Vec::new()
}

impl UMPSignal {
    /// The bytes of the signal.
    pub fn encode(&self) -> (bytes: Vec<u8>)
        ensures
            bytes@ == signal_encoding(*self),
    {
        let mut bytes: Vec<u8> = Vec::new();
        match self {
            UMPSignal::SelectCore(selector, offset) => {
                bytes.push(0u8);
                bytes.push(selector.0);
                bytes.push(offset.0);
            },
        }
        assert(bytes@ =~= signal_encoding(*self));
        bytes
    }

    /// Reads a signal from a message that holds it and nothing else.
    pub fn decode(message: &[u8]) -> (decoded: Result<UMPSignal, DecodeError>)
        ensures
            decoded is Ok <==> message@.len() == 3 && message@[0] == 0,
            decoded is Ok <==> signal_of(message@) is Some,
            decoded matches Ok(signal) ==> signal_of(message@) == Some(signal),
    {
        if message.len() == 3 && message[0] == 0 {
            Ok(UMPSignal::SelectCore(CoreSelector(message[1]), ClaimQueueOffset(message[2])))
        } else {
            Err(DecodeError)
        }
    }
}

} // verus!
