//! What a candidate commits to: the outputs of its execution.

use vstd::prelude::*;
use crate::hashing::{blake2_256, hash_bytes};
use crate::primitives::{
    BlockNumber, HeadData, OutboundHrmpMessage, ParaId, ValidationCode, H256,
};
use crate::signal::{
    is_separator, signal_encoding, signal_of, ClaimQueueOffset, CoreSelector, UMPSignal,
};
use crate::wire::{compact, length_prefixed, put_compact, put_length_prefixed, put_u32, u32_le};

verus! {

/// The commitments of a candidate.
#[derive(Clone, Debug, PartialEq, Eq)]
pub struct CandidateCommitments {
    /// Messages to the relay chain, with the signals behind a separator.
    pub upward_messages: Vec<Vec<u8>>,
    /// Messages to sibling parachains.
    pub horizontal_messages: Vec<OutboundHrmpMessage>,
    /// New validation code, where the candidate upgrades it.
    pub new_validation_code: Option<ValidationCode>,
    /// The head data that the candidate produces.
    pub head_data: HeadData,
    /// How many downward messages the candidate processed.
    pub processed_downward_messages: u32,
    /// The block up to which all inbound horizontal messages are processed.
    pub hrmp_watermark: BlockNumber,
}

/// What commitments hold, with every byte string as a sequence.
#[verifier::ext_equal]
pub struct CommitmentsView {
    /// Messages to the relay chain.
    pub upward_messages: Seq<Seq<u8>>,
    /// Messages to sibling parachains, each with its recipient.
    pub horizontal_messages: Seq<(ParaId, Seq<u8>)>,
    /// New validation code.
    pub new_validation_code: Option<Seq<u8>>,
    /// The head data.
    pub head_data: Seq<u8>,
    /// How many downward messages were processed.
    pub processed_downward_messages: u32,
    /// The watermark of the horizontal messages.
    pub hrmp_watermark: u32,
}

/// The upward messages as sequences of bytes.
pub open spec fn upward_view(messages: Seq<Vec<u8>>) -> Seq<Seq<u8>> {
    messages.map_values(|m: Vec<u8>| m@)
}

/// The horizontal messages as pairs of recipient and payload.
pub open spec fn horizontal_view(messages: Seq<OutboundHrmpMessage>) -> Seq<(ParaId, Seq<u8>)> {
    messages.map_values(|m: OutboundHrmpMessage| (m.recipient, m.data@))
}

impl View for CandidateCommitments {
    type V = CommitmentsView;

    open spec fn view(&self) -> CommitmentsView {
        CommitmentsView {
            upward_messages: upward_view(self.upward_messages@),
            horizontal_messages: horizontal_view(self.horizontal_messages@),
            new_validation_code: match self.new_validation_code {
                Some(code) => Some(code.0@),
                None => None,
            },
            head_data: self.head_data.0@,
            processed_downward_messages: self.processed_downward_messages,
            hrmp_watermark: self.hrmp_watermark,
        }
    }
}

/// Index of the last separator among the messages, or -1 where there is none.
pub open spec fn last_separator(messages: Seq<Seq<u8>>) -> int
    decreases messages.len(),
{
    if messages.len() == 0 {
        -1
    } else if is_separator(messages.last()) {
        messages.len() - 1
    } else {
        last_separator(messages.drop_last())
    }
}

/// The core selector and claim queue offset that the messages commit to: those of
/// the signal right behind the last separator.
pub open spec fn selected_core_of(messages: Seq<Seq<u8>>) -> Option<
    (CoreSelector, ClaimQueueOffset),
> {
    let at = last_separator(messages);
    if messages.len() < 2 || at < 0 || at + 1 >= messages.len() {
        None
    } else {
        match signal_of(messages[at + 1]) {
            Some(UMPSignal::SelectCore(selector, offset)) => Some((selector, offset)),
            None => None,
        }
    }
}

/// What `last_separator` finds: an index in range, a separator there, none behind it.
pub proof fn lemma_last_separator(messages: Seq<Seq<u8>>)
    ensures
        -1 <= last_separator(messages) < messages.len(),
        last_separator(messages) >= 0 ==> is_separator(messages[last_separator(messages)]),
        forall|j: int|
            last_separator(messages) < j < messages.len() ==> !is_separator(
                #[trigger] messages[j],
            ),
    decreases messages.len(),
{
    if messages.len() > 0 && !is_separator(messages.last()) {
        lemma_last_separator(messages.drop_last());
        assert forall|j: int| last_separator(messages) < j < messages.len() implies !is_separator(
            #[trigger] messages[j],
        ) by {
            if j < messages.len() - 1 {
                assert(messages.drop_last()[j] == messages[j]);
            }
        }
    }
}

/// A separator with none behind it is the last one.
pub proof fn lemma_last_separator_at(messages: Seq<Seq<u8>>, at: int)
    requires
        0 <= at < messages.len(),
        is_separator(messages[at]),
        forall|j: int| at < j < messages.len() ==> !is_separator(#[trigger] messages[j]),
    ensures
        last_separator(messages) == at,
    decreases messages.len(),
{
    if at < messages.len() - 1 {
        assert(!is_separator(messages[messages.len() - 1]));
        let shorter = messages.drop_last();
        assert forall|j: int| at < j < shorter.len() implies !is_separator(
            #[trigger] shorter[j],
        ) by {
            assert(shorter[j] == messages[j]);
        }
        lemma_last_separator_at(shorter, at);
    }
}

/// Messages without a separator have no last one.
pub proof fn lemma_no_separator(messages: Seq<Seq<u8>>)
    requires
        forall|j: int| 0 <= j < messages.len() ==> !is_separator(#[trigger] messages[j]),
    ensures
        last_separator(messages) == -1,
    decreases messages.len(),
{
    if messages.len() > 0 {
        assert(!is_separator(messages[messages.len() - 1]));
        let shorter = messages.drop_last();
        assert forall|j: int| 0 <= j < shorter.len() implies !is_separator(
            #[trigger] shorter[j],
        ) by {
            assert(shorter[j] == messages[j]);
        }
        lemma_no_separator(shorter);
    }
}

/// Whatever messages come first, a separator followed by an encoded signal commits
/// to the selector and the offset of that signal.
pub proof fn lemma_selected_core_found(
    before: Seq<Seq<u8>>,
    selector: CoreSelector,
    offset: ClaimQueueOffset,
)
    ensures
        selected_core_of(
            before.push(Seq::empty()).push(
                signal_encoding(UMPSignal::SelectCore(selector, offset)),
            ),
        ) == Some((selector, offset)),
{
    let signal = UMPSignal::SelectCore(selector, offset);
    let messages = before.push(Seq::empty()).push(signal_encoding(signal));
    let at = before.len() as int;
    assert(messages[at] == Seq::<u8>::empty());
    assert(messages[at + 1] == signal_encoding(signal));
    lemma_last_separator_at(messages, at);
}

/// Messages without a separator commit to no core.
pub proof fn lemma_selected_core_without_separator(messages: Seq<Seq<u8>>)
    requires
        forall|j: int| 0 <= j < messages.len() ==> !is_separator(#[trigger] messages[j]),
    ensures
        selected_core_of(messages) is None,
{
    lemma_no_separator(messages);
}

/// Where the message right behind the last separator is longer or shorter than a
/// signal, the messages commit to no core.
pub proof fn lemma_selected_core_needs_exact_signal(messages: Seq<Seq<u8>>)
    requires
        0 <= last_separator(messages),
        last_separator(messages) + 1 < messages.len(),
        messages[last_separator(messages) + 1].len() != 3,
    ensures
        selected_core_of(messages) is None,
{
}

/// Messages that end in a separator commit to no core.
pub proof fn lemma_selected_core_separator_last(messages: Seq<Seq<u8>>)
    requires
        messages.len() > 0,
        is_separator(messages.last()),
    ensures
        selected_core_of(messages) is None,
{
}

/// The upward messages on the wire, one behind the other, each behind its length.
pub open spec fn messages_encoding(messages: Seq<Seq<u8>>) -> Seq<u8>
    decreases messages.len(),
{
    if messages.len() == 0 {
        Seq::empty()
    } else {
        messages_encoding(messages.drop_last()) + length_prefixed(messages.last())
    }
}

/// One horizontal message on the wire: the recipient, then the payload behind its
/// length.
pub open spec fn hrmp_message_encoding(message: (ParaId, Seq<u8>)) -> Seq<u8> {
    u32_le(message.0.0) + length_prefixed(message.1)
}

/// The horizontal messages on the wire, one behind the other.
pub open spec fn hrmp_encoding(messages: Seq<(ParaId, Seq<u8>)>) -> Seq<u8>
    decreases messages.len(),
{
    if messages.len() == 0 {
        Seq::empty()
    } else {
        hrmp_encoding(messages.drop_last()) + hrmp_message_encoding(messages.last())
    }
}

/// Optional validation code on the wire: a byte 0 for none, a byte 1 and the code
/// behind its length for some.
pub open spec fn code_encoding(code: Option<Seq<u8>>) -> Seq<u8> {
    match code {
        None => seq![0u8],
        Some(bytes) => seq![1u8] + length_prefixed(bytes),
    }
}

impl CommitmentsView {
    /// Every length fits the 32 bits that a length prefix can hold.
    pub open spec fn encodable(self) -> bool {
        &&& self.upward_messages.len() <= u32::MAX
        &&& forall|i: int|
            0 <= i < self.upward_messages.len() ==> (#[trigger] self.upward_messages[i]).len()
                <= u32::MAX
        &&& self.horizontal_messages.len() <= u32::MAX
        &&& forall|i: int|
            0 <= i < self.horizontal_messages.len() ==> (
            #[trigger] self.horizontal_messages[i]).1.len() <= u32::MAX
        &&& self.new_validation_code matches Some(code) ==> code.len() <= u32::MAX
        &&& self.head_data.len() <= u32::MAX
    }

    /// The commitments on the wire: the fields in order, every collection behind
    /// the compact number of its items.
    pub open spec fn encoding(self) -> Seq<u8> {
        compact(self.upward_messages.len() as u32) + messages_encoding(self.upward_messages)
            + compact(self.horizontal_messages.len() as u32) + hrmp_encoding(
            self.horizontal_messages,
        ) + code_encoding(self.new_validation_code) + length_prefixed(self.head_data) + u32_le(
            self.processed_downward_messages,
        ) + u32_le(self.hrmp_watermark)
    }

    /// The hash of the commitments.
    pub open spec fn hash_of(self) -> Seq<u8> {
        blake2_256(self.encoding())
    }
}

/// Appends the upward messages behind their number.
fn put_upward(out: &mut Vec<u8>, messages: &Vec<Vec<u8>>)
    requires
        messages@.len() <= u32::MAX,
        forall|i: int| 0 <= i < messages@.len() ==> (#[trigger] messages@[i])@.len() <= u32::MAX,
    ensures
        final(out)@ == old(out)@ + compact(messages@.len() as u32) + messages_encoding(
            upward_view(messages@),
        ),
{
    let ghost view = upward_view(messages@);
    let n: usize = messages.len();
    put_compact(out, n as u32);
    let mut i: usize = 0;
    while i < n
        invariant
            i <= n,
            n == messages@.len(),
            view == upward_view(messages@),
            forall|i: int|
                0 <= i < messages@.len() ==> (#[trigger] messages@[i])@.len() <= u32::MAX,
            out@ == old(out)@ + compact(n as u32) + messages_encoding(view.take(i as int)),
        decreases n - i,
    {
        put_length_prefixed(out, messages[i].as_slice());
        proof {
            let next = view.take(i + 1);
            assert(next.drop_last() =~= view.take(i as int));
            assert(next.last() == messages@[i as int]@);
            assert(out@ =~= old(out)@ + compact(n as u32) + messages_encoding(next));
        }
        i += 1;
    }
    assert(view.take(n as int) =~= view);
}

/// Appends the horizontal messages behind their number.
fn put_horizontal(out: &mut Vec<u8>, messages: &Vec<OutboundHrmpMessage>)
    requires
        messages@.len() <= u32::MAX,
        forall|i: int|
            0 <= i < messages@.len() ==> (#[trigger] messages@[i]).data@.len() <= u32::MAX,
    ensures
        final(out)@ == old(out)@ + compact(messages@.len() as u32) + hrmp_encoding(
            horizontal_view(messages@),
        ),
{
    let ghost view = horizontal_view(messages@);
    let n: usize = messages.len();
    put_compact(out, n as u32);
    let mut i: usize = 0;
    while i < n
        invariant
            i <= n,
            n == messages@.len(),
            view == horizontal_view(messages@),
            forall|i: int|
                0 <= i < messages@.len() ==> (#[trigger] messages@[i]).data@.len() <= u32::MAX,
            out@ == old(out)@ + compact(n as u32) + hrmp_encoding(view.take(i as int)),
        decreases n - i,
    {
        let message: &OutboundHrmpMessage = &messages[i];
        put_u32(out, message.recipient.0);
        put_length_prefixed(out, message.data.as_slice());
        proof {
            let next = view.take(i + 1);
            assert(next.drop_last() =~= view.take(i as int));
            assert(next.last() == (message.recipient, message.data@));
            assert(out@ =~= old(out)@ + compact(n as u32) + hrmp_encoding(next));
        }
        i += 1;
    }
    assert(view.take(n as int) =~= view);
}

/// Appends the optional validation code.
fn put_code(out: &mut Vec<u8>, code: &Option<ValidationCode>)
    requires
        code matches Some(c) ==> c.0@.len() <= u32::MAX,
    ensures
        final(out)@ == old(out)@ + code_encoding(
            match *code {
                Some(c) => Some(c.0@),
                None => None,
            },
        ),
{
    match code {
        None => {
            out.push(0u8);
            assert(out@ =~= old(out)@ + seq![0u8]);
        },
        Some(c) => {
            out.push(1u8);
            put_length_prefixed(out, c.0.as_slice());
            assert(out@ =~= old(out)@ + (seq![1u8] + length_prefixed(c.0@)));
        },
    }
}

impl CandidateCommitments {
    /// The core selector and claim queue offset that the candidate has committed
    /// to, if any.
    pub fn selected_core(&self) -> (selected: Option<(CoreSelector, ClaimQueueOffset)>)
        ensures
            selected == selected_core_of(self@.upward_messages),
    {
        let ghost messages = self@.upward_messages;
        let n: usize = self.upward_messages.len();
        if n < 2 {
            return None;
        }
        let mut i: usize = n;
        while i > 0
            invariant
                i <= n,
                n == self.upward_messages@.len(),
                messages == upward_view(self.upward_messages@),
                forall|j: int| i <= j < n ==> !is_separator(#[trigger] messages[j]),
            decreases i,
        {
            i -= 1;
            if self.upward_messages[i].len() == 0 {
                proof {
                    lemma_last_separator_at(messages, i as int);
                }
                if i + 1 >= n {
                    return None;
                }
                let message: &Vec<u8> = &self.upward_messages[i + 1];
                return match UMPSignal::decode(message.as_slice()) {
                    Ok(UMPSignal::SelectCore(selector, offset)) => Some((selector, offset)),
                    Err(_) => None,
                };
            }
        }
        proof {
            lemma_no_separator(messages);
        }
        None
    }

    /// Appends the commitments as they stand on the wire.
    pub fn encode_to(&self, out: &mut Vec<u8>)
        requires
            self@.encodable(),
        ensures
            final(out)@ == old(out)@ + self@.encoding(),
    {
        proof {
            let view = self@;
            assert forall|i: int| 0 <= i < self.upward_messages@.len() implies (
            #[trigger] self.upward_messages@[i])@.len() <= u32::MAX by {
                assert(view.upward_messages[i] == self.upward_messages@[i]@);
            }
            assert forall|i: int| 0 <= i < self.horizontal_messages@.len() implies (
            #[trigger] self.horizontal_messages@[i]).data@.len() <= u32::MAX by {
                assert(view.horizontal_messages[i].1 == self.horizontal_messages@[i].data@);
            }
        }
        put_upward(out, &self.upward_messages);
        put_horizontal(out, &self.horizontal_messages);
        put_code(out, &self.new_validation_code);
        put_length_prefixed(out, self.head_data.0.as_slice());
        put_u32(out, self.processed_downward_messages);
        put_u32(out, self.hrmp_watermark);
        assert(out@ =~= old(out)@ + self@.encoding());
    }

    /// The commitments as they stand on the wire.
    pub fn encode(&self) -> (bytes: Vec<u8>)
        requires
            self@.encodable(),
        ensures
            bytes@ == self@.encoding(),
    {
        let mut bytes: Vec<u8> = Vec::new();
        self.encode_to(&mut bytes);
        assert(bytes@ =~= self@.encoding());
        bytes
    }

    /// The hash of the encoded commitments.
    pub fn hash(&self) -> (hash: H256)
        requires
            self@.encodable(),
        ensures
            hash@ == self@.hash_of(),
    {
        let bytes = self.encode();
        hash_bytes(bytes.as_slice())
    }
}

} // verus!
