//! Reading commitments back from their bytes.
//!
//! Each `parse_` function says what stands at the front of a byte string and how
//! many bytes it takes. For each there are two laws: what was written is read
//! back, whatever follows it, and what is read stands at the front exactly as it
//! would be written.

use vstd::prelude::*;
use crate::commitments::{
    code_encoding, horizontal_view, hrmp_encoding, hrmp_message_encoding, messages_encoding,
    upward_view, CandidateCommitments, CommitmentsView,
};
use crate::descriptor::DecodeError;
use crate::primitives::{HeadData, OutboundHrmpMessage, ParaId, ValidationCode};
use crate::wire::{
    compact, get_u32, lemma_parse_compact_canonical, lemma_parse_compact_written,
    lemma_parse_length_prefixed_canonical, lemma_parse_length_prefixed_written,
    lemma_u32_from_le_round_trip, lemma_u32_le_round_trip, length_prefixed, parse_compact,
    parse_length_prefixed, read_compact, read_length_prefixed, u32_from_le, u32_le,
};

verus! {

/// `count` upward messages at the front of `s`, each behind its length.
pub open spec fn parse_messages(s: Seq<u8>, count: nat) -> Option<(Seq<Seq<u8>>, int)>
    decreases count,
{
    if count == 0 {
        Some((Seq::empty(), 0))
    } else {
        match parse_length_prefixed(s) {
            None => None,
            Some((message, k)) => match parse_messages(s.skip(k), (count - 1) as nat) {
                None => None,
                Some((rest, more)) => Some((seq![message] + rest, k + more)),
            },
        }
    }
}

/// One horizontal message at the front of `s`.
pub open spec fn parse_hrmp_message(s: Seq<u8>) -> Option<((ParaId, Seq<u8>), int)> {
    if s.len() < 4 {
        None
    } else {
        match parse_length_prefixed(s.skip(4)) {
            None => None,
            Some((data, k)) => Some(((ParaId(u32_from_le(s.subrange(0, 4))), data), 4 + k)),
        }
    }
}

/// `count` horizontal messages at the front of `s`.
pub open spec fn parse_hrmp(s: Seq<u8>, count: nat) -> Option<(Seq<(ParaId, Seq<u8>)>, int)>
    decreases count,
{
    if count == 0 {
        Some((Seq::empty(), 0))
    } else {
        match parse_hrmp_message(s) {
            None => None,
            Some((message, k)) => match parse_hrmp(s.skip(k), (count - 1) as nat) {
                None => None,
                Some((rest, more)) => Some((seq![message] + rest, k + more)),
            },
        }
    }
}

/// Optional validation code at the front of `s`.
#[verifier::opaque]
pub open spec fn parse_code(s: Seq<u8>) -> Option<(Option<Seq<u8>>, int)> {
    if s.len() == 0 {
        None
    } else if s[0] == 0 {
        Some((None, 1))
    } else if s[0] == 1 {
        match parse_length_prefixed(s.skip(1)) {
            None => None,
            Some((code, k)) => Some((Some(code), 1 + k)),
        }
    } else {
        None
    }
}

/// The upward messages behind their number, at the front of `s`.
#[verifier::opaque]
pub open spec fn parse_upward(s: Seq<u8>) -> Option<(Seq<Seq<u8>>, int)> {
    match parse_compact(s) {
        None => None,
        Some((count, k)) => match parse_messages(s.skip(k), count as nat) {
            None => None,
            Some((messages, more)) => Some((messages, k + more)),
        },
    }
}

/// The horizontal messages behind their number, at the front of `s`.
#[verifier::opaque]
pub open spec fn parse_horizontal(s: Seq<u8>) -> Option<(Seq<(ParaId, Seq<u8>)>, int)> {
    match parse_compact(s) {
        None => None,
        Some((count, k)) => match parse_hrmp(s.skip(k), count as nat) {
            None => None,
            Some((messages, more)) => Some((messages, k + more)),
        },
    }
}

/// Commitments at the front of `s`.
#[verifier::opaque]
pub open spec fn parse_commitments(s: Seq<u8>) -> Option<(CommitmentsView, int)> {
    match parse_upward(s) {
        None => None,
        Some((upward_messages, a)) => match parse_horizontal(s.skip(a)) {
            None => None,
            Some((horizontal_messages, b)) => match parse_code(s.skip(a + b)) {
                None => None,
                Some((new_validation_code, c)) => match parse_length_prefixed(
                    s.skip(a + b + c),
                ) {
                    None => None,
                    Some((head_data, d)) => {
                        let e = a + b + c + d;
                        if e + 8 <= s.len() {
                            Some(
                                (
                                    CommitmentsView {
                                        upward_messages,
                                        horizontal_messages,
                                        new_validation_code,
                                        head_data,
                                        processed_downward_messages: u32_from_le(
                                            s.subrange(e, e + 4),
                                        ),
                                        hrmp_watermark: u32_from_le(s.subrange(e + 4, e + 8)),
                                    },
                                    e + 8,
                                ),
                            )
                        } else {
                            None
                        }
                    },
                },
            },
        },
    }
}

/// The commitments that `s` stands for, where it is the encoding of commitments
/// from its first byte to its last.
pub open spec fn decoded_commitments(s: Seq<u8>) -> Option<CommitmentsView> {
    match parse_commitments(s) {
        Some((commitments, k)) => if k == s.len() {
            Some(commitments)
        } else {
            None
        },
        None => None,
    }
}

/// The encoding of messages starts with the first message.
pub proof fn lemma_messages_encoding_front(first: Seq<u8>, rest: Seq<Seq<u8>>)
    ensures
        messages_encoding(seq![first] + rest) == length_prefixed(first) + messages_encoding(rest),
    decreases rest.len(),
{
    let all = seq![first] + rest;
    if rest.len() == 0 {
        assert(all.drop_last() =~= Seq::<Seq<u8>>::empty());
        assert(all.last() == first);
        assert(messages_encoding(all.drop_last()) =~= Seq::<u8>::empty());
        assert(messages_encoding(rest) =~= Seq::<u8>::empty());
        assert(messages_encoding(all) =~= length_prefixed(first) + messages_encoding(rest));
    } else {
        assert(all.drop_last() =~= seq![first] + rest.drop_last());
        assert(all.last() == rest.last());
        lemma_messages_encoding_front(first, rest.drop_last());
        assert(messages_encoding(all) =~= length_prefixed(first) + messages_encoding(rest));
    }
}

/// The encoding of horizontal messages starts with the first message.
pub proof fn lemma_hrmp_encoding_front(first: (ParaId, Seq<u8>), rest: Seq<(ParaId, Seq<u8>)>)
    ensures
        hrmp_encoding(seq![first] + rest) == hrmp_message_encoding(first) + hrmp_encoding(rest),
    decreases rest.len(),
{
    let all = seq![first] + rest;
    if rest.len() == 0 {
        assert(all.drop_last() =~= Seq::<(ParaId, Seq<u8>)>::empty());
        assert(all.last() == first);
        assert(hrmp_encoding(all.drop_last()) =~= Seq::<u8>::empty());
        assert(hrmp_encoding(rest) =~= Seq::<u8>::empty());
        assert(hrmp_encoding(all) =~= hrmp_message_encoding(first) + hrmp_encoding(rest));
    } else {
        assert(all.drop_last() =~= seq![first] + rest.drop_last());
        assert(all.last() == rest.last());
        lemma_hrmp_encoding_front(first, rest.drop_last());
        assert(hrmp_encoding(all) =~= hrmp_message_encoding(first) + hrmp_encoding(rest));
    }
}

/// Written messages are read back, whatever follows them.
pub proof fn lemma_parse_messages_written(messages: Seq<Seq<u8>>, rest: Seq<u8>)
    requires
        forall|i: int| 0 <= i < messages.len() ==> (#[trigger] messages[i]).len() <= u32::MAX,
    ensures
        parse_messages(messages_encoding(messages) + rest, messages.len()) == Some(
            (messages, messages_encoding(messages).len() as int),
        ),
    decreases messages.len(),
{
    if messages.len() > 0 {
        let first = messages[0];
        let tail = messages.skip(1);
        assert(messages =~= seq![first] + tail);
        lemma_messages_encoding_front(first, tail);
        let s = messages_encoding(messages) + rest;
        let after = messages_encoding(tail) + rest;
        assert(s =~= length_prefixed(first) + after);
        lemma_parse_length_prefixed_written(first, after);
        let k = length_prefixed(first).len() as int;
        assert(s.skip(k) =~= after);
        assert forall|i: int| 0 <= i < tail.len() implies (#[trigger] tail[i]).len()
            <= u32::MAX by {
            assert(tail[i] == messages[i + 1]);
        }
        lemma_parse_messages_written(tail, rest);
    }
}

/// Messages that are read stand at the front as they would be written.
pub proof fn lemma_parse_messages_canonical(s: Seq<u8>, count: nat)
    requires
        parse_messages(s, count) is Some,
    ensures
        ({
            let (messages, k) = parse_messages(s, count)->0;
            &&& messages.len() == count
            &&& 0 <= k <= s.len()
            &&& forall|i: int| 0 <= i < messages.len() ==> (#[trigger] messages[i]).len()
                <= u32::MAX
            &&& s.subrange(0, k) == messages_encoding(messages)
        }),
    decreases count,
{
    let (messages, k) = parse_messages(s, count)->0;
    if count == 0 {
        assert(s.subrange(0, 0) =~= messages_encoding(messages));
    } else {
        let (first, a) = parse_length_prefixed(s)->0;
        lemma_parse_length_prefixed_canonical(s);
        let (tail, b) = parse_messages(s.skip(a), (count - 1) as nat)->0;
        lemma_parse_messages_canonical(s.skip(a), (count - 1) as nat);
        lemma_messages_encoding_front(first, tail);
        assert(s.subrange(0, a + b) =~= s.subrange(0, a) + s.skip(a).subrange(0, b));
        assert forall|i: int| 0 <= i < messages.len() implies (#[trigger] messages[i]).len()
            <= u32::MAX by {
            if i > 0 {
                assert(messages[i] == tail[i - 1]);
            }
        }
    }
}

/// A written horizontal message is read back, whatever follows it.
pub proof fn lemma_parse_hrmp_message_written(message: (ParaId, Seq<u8>), rest: Seq<u8>)
    requires
        message.1.len() <= u32::MAX,
    ensures
        parse_hrmp_message(hrmp_message_encoding(message) + rest) == Some(
            (message, hrmp_message_encoding(message).len() as int),
        ),
{
    reveal(parse_length_prefixed);
    let s = hrmp_message_encoding(message) + rest;
    let after = length_prefixed(message.1) + rest;
    lemma_u32_le_round_trip(message.0.0);
    assert(s.subrange(0, 4) =~= u32_le(message.0.0));
    assert(s.skip(4) =~= after);
    lemma_parse_length_prefixed_written(message.1, rest);
}

/// A horizontal message that is read stands at the front as it would be written.
pub proof fn lemma_parse_hrmp_message_canonical(s: Seq<u8>)
    requires
        parse_hrmp_message(s) is Some,
    ensures
        ({
            let (message, k) = parse_hrmp_message(s)->0;
            &&& message.1.len() <= u32::MAX
            &&& 1 <= k <= s.len()
            &&& s.subrange(0, k) == hrmp_message_encoding(message)
        }),
{
    let (message, k) = parse_hrmp_message(s)->0;
    lemma_parse_length_prefixed_canonical(s.skip(4));
    lemma_u32_from_le_round_trip(s.subrange(0, 4));
    assert(s.subrange(0, k) =~= s.subrange(0, 4) + s.skip(4).subrange(0, k - 4));
}

/// Written horizontal messages are read back, whatever follows them.
pub proof fn lemma_parse_hrmp_written(messages: Seq<(ParaId, Seq<u8>)>, rest: Seq<u8>)
    requires
        forall|i: int| 0 <= i < messages.len() ==> (#[trigger] messages[i]).1.len() <= u32::MAX,
    ensures
        parse_hrmp(hrmp_encoding(messages) + rest, messages.len()) == Some(
            (messages, hrmp_encoding(messages).len() as int),
        ),
    decreases messages.len(),
{
    if messages.len() > 0 {
        let first = messages[0];
        let tail = messages.skip(1);
        assert(messages =~= seq![first] + tail);
        lemma_hrmp_encoding_front(first, tail);
        let s = hrmp_encoding(messages) + rest;
        let after = hrmp_encoding(tail) + rest;
        assert(s =~= hrmp_message_encoding(first) + after);
        lemma_parse_hrmp_message_written(first, after);
        let k = hrmp_message_encoding(first).len() as int;
        assert(s.skip(k) =~= after);
        assert forall|i: int| 0 <= i < tail.len() implies (#[trigger] tail[i]).1.len()
            <= u32::MAX by {
            assert(tail[i] == messages[i + 1]);
        }
        lemma_parse_hrmp_written(tail, rest);
    }
}

/// Horizontal messages that are read stand at the front as they would be
/// written.
pub proof fn lemma_parse_hrmp_canonical(s: Seq<u8>, count: nat)
    requires
        parse_hrmp(s, count) is Some,
    ensures
        ({
            let (messages, k) = parse_hrmp(s, count)->0;
            &&& messages.len() == count
            &&& 0 <= k <= s.len()
            &&& forall|i: int| 0 <= i < messages.len() ==> (#[trigger] messages[i]).1.len()
                <= u32::MAX
            &&& s.subrange(0, k) == hrmp_encoding(messages)
        }),
    decreases count,
{
    let (messages, k) = parse_hrmp(s, count)->0;
    if count == 0 {
        assert(s.subrange(0, 0) =~= hrmp_encoding(messages));
    } else {
        let (first, a) = parse_hrmp_message(s)->0;
        lemma_parse_hrmp_message_canonical(s);
        let (tail, b) = parse_hrmp(s.skip(a), (count - 1) as nat)->0;
        lemma_parse_hrmp_canonical(s.skip(a), (count - 1) as nat);
        lemma_hrmp_encoding_front(first, tail);
        assert(s.subrange(0, a + b) =~= s.subrange(0, a) + s.skip(a).subrange(0, b));
        assert forall|i: int| 0 <= i < messages.len() implies (#[trigger] messages[i]).1.len()
            <= u32::MAX by {
            if i > 0 {
                assert(messages[i] == tail[i - 1]);
            }
        }
    }
}

/// Written optional code is read back, whatever follows it.
pub proof fn lemma_parse_code_written(code: Option<Seq<u8>>, rest: Seq<u8>)
    requires
        code matches Some(bytes) ==> bytes.len() <= u32::MAX,
    ensures
        parse_code(code_encoding(code) + rest) == Some((code, code_encoding(code).len() as int)),
{
    reveal(parse_code);
    let s = code_encoding(code) + rest;
    match code {
        None => {
            assert(s[0] == 0);
        },
        Some(bytes) => {
            assert(s[0] == 1);
            assert(s.skip(1) =~= length_prefixed(bytes) + rest);
            lemma_parse_length_prefixed_written(bytes, rest);
        },
    }
}

/// Optional code that is read stands at the front as it would be written.
pub proof fn lemma_parse_code_canonical(s: Seq<u8>)
    requires
        parse_code(s) is Some,
    ensures
        ({
            let (code, k) = parse_code(s)->0;
            &&& code matches Some(bytes) ==> bytes.len() <= u32::MAX
            &&& 1 <= k <= s.len()
            &&& s.subrange(0, k) == code_encoding(code)
        }),
{
    reveal(parse_code);
    let (code, k) = parse_code(s)->0;
    if s[0] == 0 {
        assert(s.subrange(0, 1) =~= seq![0u8]);
    } else {
        lemma_parse_length_prefixed_canonical(s.skip(1));
        assert(s.subrange(0, k) =~= seq![1u8] + s.skip(1).subrange(0, k - 1));
    }
}

/// Written upward messages are read back behind their number.
pub proof fn lemma_parse_upward_written(messages: Seq<Seq<u8>>, rest: Seq<u8>)
    requires
        messages.len() <= u32::MAX,
        forall|i: int| 0 <= i < messages.len() ==> (#[trigger] messages[i]).len() <= u32::MAX,
    ensures
        parse_upward(compact(messages.len() as u32) + messages_encoding(messages) + rest) == Some(
            (messages, (compact(messages.len() as u32) + messages_encoding(messages)).len() as int),
        ),
{
    reveal(parse_upward);
    let n = messages.len() as u32;
    let s = compact(n) + messages_encoding(messages) + rest;
    let after = messages_encoding(messages) + rest;
    assert(s =~= compact(n) + after);
    lemma_parse_compact_written(n, after);
    assert(s.skip(compact(n).len() as int) =~= after);
    lemma_parse_messages_written(messages, rest);
}

/// Upward messages that are read stand at the front as they would be written.
pub proof fn lemma_parse_upward_canonical(s: Seq<u8>)
    requires
        parse_upward(s) is Some,
    ensures
        ({
            let (messages, k) = parse_upward(s)->0;
            &&& messages.len() <= u32::MAX
            &&& 1 <= k <= s.len()
            &&& forall|i: int| 0 <= i < messages.len() ==> (#[trigger] messages[i]).len()
                <= u32::MAX
            &&& s.subrange(0, k) == compact(messages.len() as u32) + messages_encoding(messages)
        }),
{
    reveal(parse_upward);
    let (count, a) = parse_compact(s)->0;
    lemma_parse_compact_canonical(s);
    lemma_parse_messages_canonical(s.skip(a), count as nat);
    let (messages, b) = parse_messages(s.skip(a), count as nat)->0;
    assert(s.subrange(0, a + b) =~= s.subrange(0, a) + s.skip(a).subrange(0, b));
}

/// Written horizontal messages are read back behind their number.
pub proof fn lemma_parse_horizontal_written(messages: Seq<(ParaId, Seq<u8>)>, rest: Seq<u8>)
    requires
        messages.len() <= u32::MAX,
        forall|i: int| 0 <= i < messages.len() ==> (#[trigger] messages[i]).1.len() <= u32::MAX,
    ensures
        parse_horizontal(compact(messages.len() as u32) + hrmp_encoding(messages) + rest) == Some(
            (messages, (compact(messages.len() as u32) + hrmp_encoding(messages)).len() as int),
        ),
{
    reveal(parse_horizontal);
    let n = messages.len() as u32;
    let s = compact(n) + hrmp_encoding(messages) + rest;
    let after = hrmp_encoding(messages) + rest;
    assert(s =~= compact(n) + after);
    lemma_parse_compact_written(n, after);
    assert(s.skip(compact(n).len() as int) =~= after);
    lemma_parse_hrmp_written(messages, rest);
}

/// Horizontal messages that are read stand at the front as they would be
/// written.
pub proof fn lemma_parse_horizontal_canonical(s: Seq<u8>)
    requires
        parse_horizontal(s) is Some,
    ensures
        ({
            let (messages, k) = parse_horizontal(s)->0;
            &&& messages.len() <= u32::MAX
            &&& 1 <= k <= s.len()
            &&& forall|i: int| 0 <= i < messages.len() ==> (#[trigger] messages[i]).1.len()
                <= u32::MAX
            &&& s.subrange(0, k) == compact(messages.len() as u32) + hrmp_encoding(messages)
        }),
{
    reveal(parse_horizontal);
    let (count, a) = parse_compact(s)->0;
    lemma_parse_compact_canonical(s);
    lemma_parse_hrmp_canonical(s.skip(a), count as nat);
    let (messages, b) = parse_hrmp(s.skip(a), count as nat)->0;
    assert(s.subrange(0, a + b) =~= s.subrange(0, a) + s.skip(a).subrange(0, b));
}

/// Where six parts and a rest stand one behind the other, each part is found
/// again by skipping those before it.
proof fn lemma_six_parts(
    up: Seq<u8>,
    hor: Seq<u8>,
    code: Seq<u8>,
    head: Seq<u8>,
    pdm: Seq<u8>,
    mark: Seq<u8>,
    rest: Seq<u8>,
)
    ensures
        ({
            let s = up + hor + code + head + pdm + mark + rest;
            let a = up.len() as int;
            let b = hor.len() as int;
            let c = code.len() as int;
            let d = head.len() as int;
            let e = a + b + c + d;
            &&& s == up + (hor + code + head + pdm + mark + rest)
            &&& s.skip(a) == hor + (code + head + pdm + mark + rest)
            &&& s.skip(a + b) == code + (head + pdm + mark + rest)
            &&& s.skip(a + b + c) == head + (pdm + mark + rest)
            &&& s.subrange(e, e + pdm.len()) == pdm
            &&& s.subrange(e + pdm.len(), e + pdm.len() + mark.len()) == mark
            &&& s.len() == e + pdm.len() + mark.len() + rest.len()
        }),
{
    let s = up + hor + code + head + pdm + mark + rest;
    let a = up.len() as int;
    let b = hor.len() as int;
    let c = code.len() as int;
    let d = head.len() as int;
    let e = a + b + c + d;
    assert(s =~= up + (hor + code + head + pdm + mark + rest));
    assert(s.skip(a) =~= hor + (code + head + pdm + mark + rest));
    assert(s.skip(a + b) =~= code + (head + pdm + mark + rest));
    assert(s.skip(a + b + c) =~= head + (pdm + mark + rest));
    assert(s.subrange(e, e + pdm.len()) =~= pdm);
    assert(s.subrange(e + pdm.len(), e + pdm.len() + mark.len()) =~= mark);
}

/// Six pieces cut from the front of `s` one behind the other make up its front.
proof fn lemma_six_pieces(s: Seq<u8>, a: int, b: int, c: int, d: int)
    requires
        0 <= a,
        0 <= b,
        0 <= c,
        0 <= d,
        a + b + c + d + 8 <= s.len(),
    ensures
        ({
            let e = a + b + c + d;
            s.subrange(0, e + 8) == s.subrange(0, a) + s.skip(a).subrange(0, b) + s.skip(
                a + b,
            ).subrange(0, c) + s.skip(a + b + c).subrange(0, d) + s.subrange(e, e + 4)
                + s.subrange(e + 4, e + 8)
        }),
{
    let e = a + b + c + d;
    assert(s.subrange(0, e + 8) =~= s.subrange(0, a) + s.skip(a).subrange(0, b) + s.skip(
        a + b,
    ).subrange(0, c) + s.skip(a + b + c).subrange(0, d) + s.subrange(e, e + 4) + s.subrange(
        e + 4,
        e + 8,
    ));
}

/// What `parse_commitments` gives where each of its parts is read.
proof fn lemma_parse_commitments_parts(
    s: Seq<u8>,
    ups: Seq<Seq<u8>>,
    a: int,
    hs: Seq<(ParaId, Seq<u8>)>,
    b: int,
    code: Option<Seq<u8>>,
    c: int,
    head: Seq<u8>,
    d: int,
)
    requires
        parse_upward(s) == Some((ups, a)),
        parse_horizontal(s.skip(a)) == Some((hs, b)),
        parse_code(s.skip(a + b)) == Some((code, c)),
        parse_length_prefixed(s.skip(a + b + c)) == Some((head, d)),
        a + b + c + d + 8 <= s.len(),
    ensures
        parse_commitments(s) == Some(
            (
                CommitmentsView {
                    upward_messages: ups,
                    horizontal_messages: hs,
                    new_validation_code: code,
                    head_data: head,
                    processed_downward_messages: u32_from_le(
                        s.subrange(a + b + c + d, a + b + c + d + 4),
                    ),
                    hrmp_watermark: u32_from_le(
                        s.subrange(a + b + c + d + 4, a + b + c + d + 8),
                    ),
                },
                a + b + c + d + 8,
            ),
        ),
{
    reveal(parse_commitments);
}

/// Where a part cannot be read, the commitments cannot.
proof fn lemma_parse_commitments_fails(s: Seq<u8>)
    ensures
        parse_upward(s) is None ==> parse_commitments(s) is None,
        parse_upward(s) matches Some((_, a)) ==> {
            &&& parse_horizontal(s.skip(a)) is None ==> parse_commitments(s) is None
            &&& parse_horizontal(s.skip(a)) matches Some((_, b)) ==> {
                &&& parse_code(s.skip(a + b)) is None ==> parse_commitments(s) is None
                &&& parse_code(s.skip(a + b)) matches Some((_, c)) ==> {
                    &&& parse_length_prefixed(s.skip(a + b + c)) is None ==> parse_commitments(s)
                        is None
                    &&& parse_length_prefixed(s.skip(a + b + c)) matches Some((_, d)) ==> (a + b
                        + c + d + 8 > s.len() ==> parse_commitments(s) is None)
                }
            }
        },
{
    reveal(parse_commitments);
}

/// The parts of the encoding of commitments.
proof fn lemma_encoding_parts(commitments: CommitmentsView)
    ensures
        commitments.encoding() == (compact(commitments.upward_messages.len() as u32)
            + messages_encoding(commitments.upward_messages)) + (compact(
            commitments.horizontal_messages.len() as u32,
        ) + hrmp_encoding(commitments.horizontal_messages)) + code_encoding(
            commitments.new_validation_code,
        ) + length_prefixed(commitments.head_data) + u32_le(
            commitments.processed_downward_messages,
        ) + u32_le(commitments.hrmp_watermark),
{
    assert(commitments.encoding() =~= (compact(commitments.upward_messages.len() as u32)
        + messages_encoding(commitments.upward_messages)) + (compact(
        commitments.horizontal_messages.len() as u32,
    ) + hrmp_encoding(commitments.horizontal_messages)) + code_encoding(
        commitments.new_validation_code,
    ) + length_prefixed(commitments.head_data) + u32_le(commitments.processed_downward_messages)
        + u32_le(commitments.hrmp_watermark));
}

/// Written commitments are read back, whatever follows them.
pub proof fn lemma_parse_commitments_written(commitments: CommitmentsView, rest: Seq<u8>)
    requires
        commitments.encodable(),
    ensures
        parse_commitments(commitments.encoding() + rest) == Some(
            (commitments, commitments.encoding().len() as int),
        ),
{
    let ups = commitments.upward_messages;
    let hs = commitments.horizontal_messages;
    let up = compact(ups.len() as u32) + messages_encoding(ups);
    let hor = compact(hs.len() as u32) + hrmp_encoding(hs);
    let code = code_encoding(commitments.new_validation_code);
    let head = length_prefixed(commitments.head_data);
    let pdm = u32_le(commitments.processed_downward_messages);
    let mark = u32_le(commitments.hrmp_watermark);
    let s = up + hor + code + head + pdm + mark + rest;
    let a = up.len() as int;
    let b = hor.len() as int;
    let c = code.len() as int;
    let d = head.len() as int;
    let e = a + b + c + d;
    lemma_encoding_parts(commitments);
    lemma_six_parts(up, hor, code, head, pdm, mark, rest);
    lemma_parse_upward_written(ups, hor + code + head + pdm + mark + rest);
    lemma_parse_horizontal_written(hs, code + head + pdm + mark + rest);
    lemma_parse_code_written(commitments.new_validation_code, head + pdm + mark + rest);
    lemma_parse_length_prefixed_written(commitments.head_data, pdm + mark + rest);
    lemma_u32_le_round_trip(commitments.processed_downward_messages);
    lemma_u32_le_round_trip(commitments.hrmp_watermark);
    lemma_parse_commitments_parts(
        s,
        ups,
        a,
        hs,
        b,
        commitments.new_validation_code,
        c,
        commitments.head_data,
        d,
    );
    let (parsed, _) = parse_commitments(s)->0;
    assert(parsed =~= commitments);
}

/// Commitments that are read stand at the front as they would be written.
pub proof fn lemma_parse_commitments_canonical(s: Seq<u8>)
    requires
        parse_commitments(s) is Some,
    ensures
        ({
            let (commitments, k) = parse_commitments(s)->0;
            &&& commitments.encodable()
            &&& 0 <= k <= s.len()
            &&& s.subrange(0, k) == commitments.encoding()
        }),
{
    lemma_parse_commitments_fails(s);
    let (commitments, k) = parse_commitments(s)->0;
    let (ups, a) = parse_upward(s)->0;
    lemma_parse_upward_canonical(s);
    let (hs, b) = parse_horizontal(s.skip(a))->0;
    lemma_parse_horizontal_canonical(s.skip(a));
    let (code, c) = parse_code(s.skip(a + b))->0;
    lemma_parse_code_canonical(s.skip(a + b));
    let (head, d) = parse_length_prefixed(s.skip(a + b + c))->0;
    lemma_parse_length_prefixed_canonical(s.skip(a + b + c));
    let e = a + b + c + d;
    lemma_parse_commitments_parts(s, ups, a, hs, b, code, c, head, d);
    lemma_u32_from_le_round_trip(s.subrange(e, e + 4));
    lemma_u32_from_le_round_trip(s.subrange(e + 4, e + 8));
    lemma_six_pieces(s, a, b, c, d);
    lemma_encoding_parts(commitments);
}

/// Encoding commitments and decoding the bytes gives the same commitments again.
pub proof fn lemma_decode_encoded_commitments(commitments: CommitmentsView)
    requires
        commitments.encodable(),
    ensures
        decoded_commitments(commitments.encoding()) == Some(commitments),
{
    lemma_parse_commitments_written(commitments, Seq::empty());
    assert(commitments.encoding() + Seq::<u8>::empty() =~= commitments.encoding());
}

/// Bytes that decode to commitments are the encoding of those commitments.
pub proof fn lemma_encode_decoded_commitments(s: Seq<u8>)
    requires
        decoded_commitments(s) is Some,
    ensures
        decoded_commitments(s)->0.encodable(),
        decoded_commitments(s)->0.encoding() == s,
{
    lemma_parse_commitments_canonical(s);
    assert(s.subrange(0, s.len() as int) =~= s);
}

/// What reading comes to where some items are read and the rest gives `remaining`.
pub open spec fn and_then<T>(read: Seq<T>, used: int, remaining: Option<(Seq<T>, int)>) -> Option<
    (Seq<T>, int),
> {
    match remaining {
        Some((rest, more)) => Some((read + rest, used + more)),
        None => None,
    }
}

/// Reads `count` upward messages that start at `at`. Gives them with the place
/// right behind them.
fn read_messages(bytes: &[u8], at: usize, count: u32) -> (read: Option<(Vec<Vec<u8>>, usize)>)
    requires
        at <= bytes@.len(),
    ensures
        match read {
            Some((messages, end)) => {
                &&& at <= end <= bytes@.len()
                &&& parse_messages(bytes@.skip(at as int), count as nat) == Some(
                    (upward_view(messages@), end - at),
                )
            },
            None => parse_messages(bytes@.skip(at as int), count as nat) is None,
        },
{
    let ghost whole = parse_messages(bytes@.skip(at as int), count as nat);
    let mut messages: Vec<Vec<u8>> = Vec::new();
    let mut pos: usize = at;
    let mut i: u32 = 0;
    proof {
        if whole is Some {
            let (rest, more) = whole->0;
            assert(upward_view(messages@) + rest =~= rest);
        }
    }
    while i < count
        invariant
            i <= count,
            at <= pos <= bytes@.len(),
            whole == parse_messages(bytes@.skip(at as int), count as nat),
            whole == and_then(
                upward_view(messages@),
                pos - at,
                parse_messages(bytes@.skip(pos as int), (count - i) as nat),
            ),
        decreases count - i,
    {
        let ghost here = bytes@.skip(pos as int);
        match read_length_prefixed(bytes, pos) {
            None => {
                return None;
            },
            Some((message, end)) => {
                proof {
                    let k = end - pos;
                    assert(here.skip(k) =~= bytes@.skip(end as int));
                    let after = parse_messages(bytes@.skip(end as int), (count - i - 1) as nat);
                    if after is Some {
                        let (rest, more) = after->0;
                        assert(upward_view(messages@.push(message)) + rest =~= upward_view(
                            messages@,
                        ) + (seq![message@] + rest));
                    }
                }
                messages.push(message);
                pos = end;
                i += 1;
            },
        }
    }
    assert(upward_view(messages@) + Seq::<Seq<u8>>::empty() =~= upward_view(messages@));
    Some((messages, pos))
}

/// Reads `count` horizontal messages that start at `at`. Gives them with the
/// place right behind them.
fn read_hrmp(bytes: &[u8], at: usize, count: u32) -> (read: Option<
    (Vec<OutboundHrmpMessage>, usize),
>)
    requires
        at <= bytes@.len(),
    ensures
        match read {
            Some((messages, end)) => {
                &&& at <= end <= bytes@.len()
                &&& parse_hrmp(bytes@.skip(at as int), count as nat) == Some(
                    (horizontal_view(messages@), end - at),
                )
            },
            None => parse_hrmp(bytes@.skip(at as int), count as nat) is None,
        },
{
    let total: usize = bytes.len();
    let ghost whole = parse_hrmp(bytes@.skip(at as int), count as nat);
    let mut messages: Vec<OutboundHrmpMessage> = Vec::new();
    let mut pos: usize = at;
    let mut i: u32 = 0;
    proof {
        if whole is Some {
            let (rest, more) = whole->0;
            assert(horizontal_view(messages@) + rest =~= rest);
        }
    }
    while i < count
        invariant
            i <= count,
            at <= pos <= total,
            total == bytes@.len(),
            whole == parse_hrmp(bytes@.skip(at as int), count as nat),
            whole == and_then(
                horizontal_view(messages@),
                pos - at,
                parse_hrmp(bytes@.skip(pos as int), (count - i) as nat),
            ),
        decreases count - i,
    {
        let ghost here = bytes@.skip(pos as int);
        if total - pos < 4 {
            return None;
        }
        let recipient: u32 = get_u32(bytes, pos);
        assert(here.subrange(0, 4) =~= bytes@.subrange(pos as int, pos + 4));
        assert(here.skip(4) =~= bytes@.skip(pos + 4));
        match read_length_prefixed(bytes, pos + 4) {
            None => {
                return None;
            },
            Some((data, end)) => {
                let message = OutboundHrmpMessage { recipient: ParaId(recipient), data };
                proof {
                    let k = end - pos;
                    assert(here.skip(k) =~= bytes@.skip(end as int));
                    let after = parse_hrmp(bytes@.skip(end as int), (count - i - 1) as nat);
                    if after is Some {
                        let (rest, more) = after->0;
                        assert(horizontal_view(messages@.push(message)) + rest =~= horizontal_view(
                            messages@,
                        ) + (seq![(message.recipient, message.data@)] + rest));
                    }
                }
                messages.push(message);
                pos = end;
                i += 1;
            },
        }
    }
    assert(horizontal_view(messages@) + Seq::<(ParaId, Seq<u8>)>::empty() =~= horizontal_view(
        messages@,
    ));
    Some((messages, pos))
}

/// Reads the upward messages behind their number.
fn read_upward(bytes: &[u8], at: usize) -> (read: Option<(Vec<Vec<u8>>, usize)>)
    requires
        at <= bytes@.len(),
    ensures
        match read {
            Some((messages, end)) => {
                &&& at <= end <= bytes@.len()
                &&& parse_upward(bytes@.skip(at as int)) == Some(
                    (upward_view(messages@), end - at),
                )
            },
            None => parse_upward(bytes@.skip(at as int)) is None,
        },
{
    proof {
        reveal(parse_upward);
    }
    let total: usize = bytes.len();
    match read_compact(bytes, at) {
        None => None,
        Some((count, k)) => {
            proof {
                lemma_parse_compact_canonical(bytes@.skip(at as int));
                assert(bytes@.skip(at as int).skip(k as int) =~= bytes@.skip(at + k));
            }
            read_messages(bytes, at + k, count)
        },
    }
}

/// Reads the horizontal messages behind their number.
fn read_horizontal(bytes: &[u8], at: usize) -> (read: Option<(Vec<OutboundHrmpMessage>, usize)>)
    requires
        at <= bytes@.len(),
    ensures
        match read {
            Some((messages, end)) => {
                &&& at <= end <= bytes@.len()
                &&& parse_horizontal(bytes@.skip(at as int)) == Some(
                    (horizontal_view(messages@), end - at),
                )
            },
            None => parse_horizontal(bytes@.skip(at as int)) is None,
        },
{
    proof {
        reveal(parse_horizontal);
    }
    let total: usize = bytes.len();
    match read_compact(bytes, at) {
        None => None,
        Some((count, k)) => {
            proof {
                lemma_parse_compact_canonical(bytes@.skip(at as int));
                assert(bytes@.skip(at as int).skip(k as int) =~= bytes@.skip(at + k));
            }
            read_hrmp(bytes, at + k, count)
        },
    }
}

/// The validation code as a sequence of bytes, where there is one.
pub open spec fn code_view(code: Option<ValidationCode>) -> Option<Seq<u8>> {
    match code {
        Some(c) => Some(c.0@),
        None => None,
    }
}

/// Reads the optional validation code.
fn read_code(bytes: &[u8], at: usize) -> (read: Option<(Option<ValidationCode>, usize)>)
    requires
        at <= bytes@.len(),
    ensures
        match read {
            Some((code, end)) => {
                &&& at <= end <= bytes@.len()
                &&& parse_code(bytes@.skip(at as int)) == Some((code_view(code), end - at))
            },
            None => parse_code(bytes@.skip(at as int)) is None,
        },
{
    proof {
        reveal(parse_code);
    }
    let total: usize = bytes.len();
    let ghost here = bytes@.skip(at as int);
    if at >= total {
        return None;
    }
    let tag: u8 = bytes[at];
    assert(here[0] == tag);
    if tag == 0 {
        Some((None, at + 1))
    } else if tag == 1 {
        assert(here.skip(1) =~= bytes@.skip(at + 1));
        match read_length_prefixed(bytes, at + 1) {
            None => None,
            Some((code, end)) => Some((Some(ValidationCode(code)), end)),
        }
    } else {
        None
    }
}

impl CandidateCommitments {
    /// Reads the commitments that start at `at`. Gives them with the place right
    /// behind them.
    pub(crate) fn read(bytes: &[u8], at: usize) -> (read: Option<(Self, usize)>)
        requires
            at <= bytes@.len(),
        ensures
            match read {
                Some((commitments, end)) => {
                    &&& at <= end <= bytes@.len()
                    &&& parse_commitments(bytes@.skip(at as int)) == Some(
                        (commitments@, end - at),
                    )
                },
                None => parse_commitments(bytes@.skip(at as int)) is None,
            },
    {
        let total: usize = bytes.len();
        let ghost s = bytes@.skip(at as int);
        proof {
            lemma_parse_commitments_fails(s);
        }
        let (upward_messages, after_upward) = match read_upward(bytes, at) {
            Some(read) => read,
            None => {
                return None;
            },
        };
        let ghost a = after_upward - at;
        assert(s.skip(a) =~= bytes@.skip(after_upward as int));
        let (horizontal_messages, after_horizontal) = match read_horizontal(bytes, after_upward) {
            Some(read) => read,
            None => {
                return None;
            },
        };
        let ghost b = after_horizontal - after_upward;
        assert(s.skip(a + b) =~= bytes@.skip(after_horizontal as int));
        let (new_validation_code, after_code) = match read_code(bytes, after_horizontal) {
            Some(read) => read,
            None => {
                return None;
            },
        };
        let ghost c = after_code - after_horizontal;
        assert(s.skip(a + b + c) =~= bytes@.skip(after_code as int));
        let (head_data, after_head) = match read_length_prefixed(bytes, after_code) {
            Some(read) => read,
            None => {
                return None;
            },
        };
        let ghost d = after_head - after_code;
        if total - after_head < 8 {
            return None;
        }
        let processed_downward_messages: u32 = get_u32(bytes, after_head);
        let hrmp_watermark: u32 = get_u32(bytes, after_head + 4);
        let ghost ups = upward_view(upward_messages@);
        let ghost hs = horizontal_view(horizontal_messages@);
        let ghost code = code_view(new_validation_code);
        let ghost head = head_data@;
        proof {
            let e = a + b + c + d;
            assert(s.subrange(e, e + 4) =~= bytes@.subrange(after_head as int, after_head + 4));
            assert(s.subrange(e + 4, e + 8) =~= bytes@.subrange(after_head + 4, after_head + 4 + 4));
            lemma_parse_commitments_parts(s, ups, a, hs, b, code, c, head, d);
        }
        let commitments = CandidateCommitments {
            upward_messages,
            horizontal_messages,
            new_validation_code,
            head_data: HeadData(head_data),
            processed_downward_messages,
            hrmp_watermark,
        };
        assert(commitments@ =~= (CommitmentsView {
            upward_messages: ups,
            horizontal_messages: hs,
            new_validation_code: code,
            head_data: head,
            processed_downward_messages,
            hrmp_watermark,
        }));
        Some((commitments, after_head + 8))
    }

    /// Reads commitments from bytes that hold them and nothing else.
    pub fn decode(bytes: &[u8]) -> (decoded: Result<Self, DecodeError>)
        ensures
            decoded is Ok <==> decoded_commitments(bytes@) is Some,
            decoded matches Ok(commitments) ==> decoded_commitments(bytes@) == Some(
                commitments@,
            ),
    {
        assert(bytes@.skip(0) =~= bytes@);
        match Self::read(bytes, 0) {
            Some((commitments, end)) => {
                if end == bytes.len() {
                    Ok(commitments)
                } else {
                    Err(DecodeError)
                }
            },
            None => Err(DecodeError),
        }
    }
}

} // verus!
