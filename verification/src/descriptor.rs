//! The candidate descriptor: one fixed byte layout that is read in two ways.
//!
//! The legacy layout carried a collator's public key and signature. The current
//! layout keeps the length and puts a version tag, a core index, a session index
//! and reserved zero bytes where the key and the signature used to be. Which of the
//! two a descriptor is follows from its bytes alone, see
//! [`DescriptorView::is_current`].

use vstd::prelude::*;
use crate::primitives::{
    CollatorId, CollatorSignature, CoreIndex, ParaId, SessionIndex, ValidationCodeHash, H256,
};
use crate::wire::{
    all_zero, get_array, get_u16, get_u32, put_bytes, put_u16, put_u32, same_bytes, u16_from_le,
    u16_le, u32_from_le, u32_le, zeros,
};

verus! {

/// Number of bytes in an encoded descriptor, in either layout.
pub const DESCRIPTOR_SIZE: usize = 292;

/// The raw version tag of a descriptor.
#[derive(Clone, Copy, Debug, PartialEq, Eq, Structural, Hash)]
pub struct InternalVersion(pub u8);

/// The layout a descriptor was written in.
#[derive(Clone, Copy, Debug, PartialEq, Eq, Structural, Hash)]
pub enum CandidateDescriptorVersion {
    /// The legacy layout, with a collator id and a collator signature.
    V1,
    /// The current layout, with a core index and a session index.
    V2,
}

/// Why bytes could not be read: their number does not fit the layout.
#[derive(Clone, Copy, Debug, PartialEq, Eq, Structural)]
pub struct DecodeError;

/// A unique descriptor of a candidate.
#[derive(Clone, Copy, Debug)]
pub struct CandidateDescriptorV2 {
    para_id: ParaId,
    relay_parent: H256,
    version: InternalVersion,
    core_index: u16,
    session_index: SessionIndex,
    reserved25b: [u8; 25],
    persisted_validation_data_hash: H256,
    pov_hash: H256,
    erasure_root: H256,
    reserved64b: [u8; 64],
    para_head: H256,
    validation_code_hash: ValidationCodeHash,
}

/// What a descriptor holds, field by field, with every byte string as a sequence.
#[verifier::ext_equal]
pub struct DescriptorView {
    /// The parachain the candidate belongs to.
    pub para_id: ParaId,
    /// Hash of the relay-chain block the candidate is executed against, 32 bytes.
    pub relay_parent: Seq<u8>,
    /// The raw version tag.
    pub version: u8,
    /// The core the candidate claims.
    pub core_index: u16,
    /// The session of the relay parent.
    pub session_index: SessionIndex,
    /// 25 reserved bytes.
    pub reserved25b: Seq<u8>,
    /// Hash of the persisted validation data, 32 bytes.
    pub persisted_validation_data_hash: Seq<u8>,
    /// Hash of the proof of validity, 32 bytes.
    pub pov_hash: Seq<u8>,
    /// Root of the erasure coding, 32 bytes.
    pub erasure_root: Seq<u8>,
    /// 64 reserved bytes.
    pub reserved64b: Seq<u8>,
    /// Hash of the parachain head the candidate produces, 32 bytes.
    pub para_head: Seq<u8>,
    /// Hash of the validation code, 32 bytes.
    pub validation_code_hash: Seq<u8>,
}

impl DescriptorView {
    /// Every byte string has the length its field has.
    pub open spec fn well_formed(self) -> bool {
        &&& self.relay_parent.len() == 32
        &&& self.reserved25b.len() == 25
        &&& self.persisted_validation_data_hash.len() == 32
        &&& self.pov_hash.len() == 32
        &&& self.erasure_root.len() == 32
        &&& self.reserved64b.len() == 64
        &&& self.para_head.len() == 32
        &&& self.validation_code_hash.len() == 32
    }

    /// The rule that tells the two layouts apart: a descriptor is in the current
    /// layout exactly when both reserved regions are zero and the version tag is 0.
    pub open spec fn is_current(self) -> bool {
        &&& self.reserved64b == zeros(64)
        &&& self.reserved25b == zeros(25)
        &&& self.version == 0
    }

    /// The layout of the descriptor.
    pub open spec fn version_of(self) -> CandidateDescriptorVersion {
        if self.is_current() {
            CandidateDescriptorVersion::V2
        } else {
            CandidateDescriptorVersion::V1
        }
    }

    /// The 32 bytes that held the collator id in the legacy layout: the version
    /// tag, the core index, the session index and the first reserved region.
    pub open spec fn collator_bytes(self) -> Seq<u8> {
        seq![self.version] + u16_le(self.core_index) + u32_le(self.session_index)
            + self.reserved25b
    }

    /// The collator id of a legacy descriptor.
    pub open spec fn collator_of(self) -> Option<Seq<u8>> {
        if self.is_current() {
            None
        } else {
            Some(self.collator_bytes())
        }
    }

    /// The collator signature of a legacy descriptor.
    pub open spec fn signature_of(self) -> Option<Seq<u8>> {
        if self.is_current() {
            None
        } else {
            Some(self.reserved64b)
        }
    }

    /// The core index of a descriptor in the current layout.
    pub open spec fn core_index_of(self) -> Option<CoreIndex> {
        if self.is_current() {
            Some(CoreIndex(self.core_index as u32))
        } else {
            None
        }
    }

    /// The session index of a descriptor in the current layout.
    pub open spec fn session_index_of(self) -> Option<SessionIndex> {
        if self.is_current() {
            Some(self.session_index)
        } else {
            None
        }
    }

    /// The bytes of the descriptor on the wire: every field in order, integers
    /// little-endian, nothing between the fields.
    pub open spec fn encoding(self) -> Seq<u8> {
        u32_le(self.para_id.0) + self.relay_parent + seq![self.version] + u16_le(self.core_index)
            + u32_le(self.session_index) + self.reserved25b
            + self.persisted_validation_data_hash + self.pov_hash + self.erasure_root
            + self.reserved64b + self.para_head + self.validation_code_hash
    }

    /// The descriptor that 292 bytes stand for.
    pub open spec fn decoded(bytes: Seq<u8>) -> DescriptorView
        recommends
            bytes.len() == DESCRIPTOR_SIZE,
    {
        DescriptorView {
            para_id: ParaId(u32_from_le(bytes.subrange(0, 4))),
            relay_parent: bytes.subrange(4, 36),
            version: bytes[36],
            core_index: u16_from_le(bytes.subrange(37, 39)),
            session_index: u32_from_le(bytes.subrange(39, 43)),
            reserved25b: bytes.subrange(43, 68),
            persisted_validation_data_hash: bytes.subrange(68, 100),
            pov_hash: bytes.subrange(100, 132),
            erasure_root: bytes.subrange(132, 164),
            reserved64b: bytes.subrange(164, 228),
            para_head: bytes.subrange(228, 260),
            validation_code_hash: bytes.subrange(260, 292),
        }
    }
}

/// An encoded descriptor has 292 bytes.
pub proof fn lemma_encoding_length(descriptor: DescriptorView)
    requires
        descriptor.well_formed(),
    ensures
        descriptor.encoding().len() == DESCRIPTOR_SIZE,
{
}

/// Decoding 292 bytes and encoding the result gives the same bytes again,
/// whichever layout they were written in.
pub proof fn lemma_encode_decoded(bytes: Seq<u8>)
    requires
        bytes.len() == DESCRIPTOR_SIZE,
    ensures
        DescriptorView::decoded(bytes).well_formed(),
        DescriptorView::decoded(bytes).encoding() == bytes,
{
    let d = DescriptorView::decoded(bytes);
    crate::wire::lemma_u32_from_le_round_trip(bytes.subrange(0, 4));
    crate::wire::lemma_u16_from_le_round_trip(bytes.subrange(37, 39));
    crate::wire::lemma_u32_from_le_round_trip(bytes.subrange(39, 43));
    assert(d.encoding() =~= bytes);
}

/// Encoding a descriptor and decoding the bytes gives the same descriptor again.
pub proof fn lemma_decode_encoded(descriptor: DescriptorView)
    requires
        descriptor.well_formed(),
    ensures
        DescriptorView::decoded(descriptor.encoding()) == descriptor,
{
    let bytes = descriptor.encoding();
    let d = DescriptorView::decoded(bytes);
    crate::wire::lemma_u32_le_round_trip(descriptor.para_id.0);
    crate::wire::lemma_u16_le_round_trip(descriptor.core_index);
    crate::wire::lemma_u32_le_round_trip(descriptor.session_index);
    assert(bytes.subrange(0, 4) =~= u32_le(descriptor.para_id.0));
    assert(bytes.subrange(37, 39) =~= u16_le(descriptor.core_index));
    assert(bytes.subrange(39, 43) =~= u32_le(descriptor.session_index));
    assert(d.relay_parent =~= descriptor.relay_parent);
    assert(d.reserved25b =~= descriptor.reserved25b);
    assert(d.persisted_validation_data_hash =~= descriptor.persisted_validation_data_hash);
    assert(d.pov_hash =~= descriptor.pov_hash);
    assert(d.erasure_root =~= descriptor.erasure_root);
    assert(d.reserved64b =~= descriptor.reserved64b);
    assert(d.para_head =~= descriptor.para_head);
    assert(d.validation_code_hash =~= descriptor.validation_code_hash);
    assert(d =~= descriptor);
}

/// Two descriptors with the same bytes on the wire are the same descriptor.
pub proof fn lemma_encoding_injective(a: DescriptorView, b: DescriptorView)
    requires
        a.well_formed(),
        b.well_formed(),
        a.encoding() == b.encoding(),
    ensures
        a == b,
{
    lemma_decode_encoded(a);
    lemma_decode_encoded(b);
}

/// Bytes with a byte other than zero in either reserved region stand for a
/// descriptor in the legacy layout.
pub proof fn lemma_reserved_byte_set_is_legacy(bytes: Seq<u8>, at: int)
    requires
        bytes.len() == DESCRIPTOR_SIZE,
        43 <= at < 68 || 164 <= at < 228,
        bytes[at] != 0,
    ensures
        DescriptorView::decoded(bytes).version_of() == CandidateDescriptorVersion::V1,
{
    let d = DescriptorView::decoded(bytes);
    if 43 <= at < 68 {
        assert(d.reserved25b[at - 43] == bytes[at]);
        assert(zeros(25)[at - 43] == 0);
    } else {
        assert(d.reserved64b[at - 164] == bytes[at]);
        assert(zeros(64)[at - 164] == 0);
    }
}

/// Bytes whose reserved regions and version tag are all zero stand for a
/// descriptor in the current layout, also where a legacy producer wrote them.
pub proof fn lemma_reserved_zero_is_current(bytes: Seq<u8>)
    requires
        bytes.len() == DESCRIPTOR_SIZE,
        bytes[36] == 0,
        forall|at: int| 43 <= at < 68 || 164 <= at < 228 ==> bytes[at] == 0,
    ensures
        DescriptorView::decoded(bytes).version_of() == CandidateDescriptorVersion::V2,
{
    let d = DescriptorView::decoded(bytes);
    assert(d.reserved25b =~= zeros(25));
    assert(d.reserved64b =~= zeros(64));
}

impl View for CandidateDescriptorV2 {
    type V = DescriptorView;

    closed spec fn view(&self) -> DescriptorView {
        DescriptorView {
            para_id: self.para_id,
            relay_parent: self.relay_parent@,
            version: self.version.0,
            core_index: self.core_index,
            session_index: self.session_index,
            reserved25b: self.reserved25b@,
            persisted_validation_data_hash: self.persisted_validation_data_hash@,
            pov_hash: self.pov_hash@,
            erasure_root: self.erasure_root@,
            reserved64b: self.reserved64b@,
            para_head: self.para_head@,
            validation_code_hash: self.validation_code_hash.0@,
        }
    }
}

impl CandidateDescriptorV2 {
    /// Builds a descriptor in the current layout: version tag 0, both reserved
    /// regions zero. Of the core index only the low 16 bits are kept.
    pub fn new(
        para_id: ParaId,
        relay_parent: H256,
        core_index: CoreIndex,
        session_index: SessionIndex,
        persisted_validation_data_hash: H256,
        pov_hash: H256,
        erasure_root: H256,
        para_head: H256,
        validation_code_hash: ValidationCodeHash,
    ) -> (descriptor: Self)
        ensures
            descriptor@ == (DescriptorView {
                para_id,
                relay_parent: relay_parent@,
                version: 0,
                core_index: (core_index.0 % 65536) as u16,
                session_index,
                reserved25b: zeros(25),
                persisted_validation_data_hash: persisted_validation_data_hash@,
                pov_hash: pov_hash@,
                erasure_root: erasure_root@,
                reserved64b: zeros(64),
                para_head: para_head@,
                validation_code_hash: validation_code_hash.0@,
            }),
            descriptor@.version_of() == CandidateDescriptorVersion::V2,
    {
        let descriptor = Self {
            para_id,
            relay_parent,
            version: InternalVersion(0),
            core_index: (core_index.0 % 65536) as u16,
            session_index,
            reserved25b: [0u8; 25],
            persisted_validation_data_hash,
            pov_hash,
            erasure_root,
            reserved64b: [0u8; 64],
            para_head,
            validation_code_hash,
        };
        assert(descriptor.reserved25b@ =~= zeros(25));
        assert(descriptor.reserved64b@ =~= zeros(64));
        descriptor
    }

    /// Replaces the hash of the proof of validity.
    pub fn set_pov_hash(&mut self, pov_hash: H256)
        ensures
            final(self)@ == (DescriptorView { pov_hash: pov_hash@, ..old(self)@ }),
    {
        self.pov_hash = pov_hash;
    }

    /// The root of the erasure coding.
    pub fn erasure_root(&self) -> (hash: H256)
        ensures
            hash@ == self@.erasure_root,
    {
        self.erasure_root
    }

    /// The hash of the parachain head that the candidate produces.
    pub fn para_head(&self) -> (hash: H256)
        ensures
            hash@ == self@.para_head,
    {
        self.para_head
    }

    /// The hash of the relay-chain block the candidate is executed against.
    pub fn relay_parent(&self) -> (hash: H256)
        ensures
            hash@ == self@.relay_parent,
    {
        self.relay_parent
    }

    /// The parachain the candidate belongs to.
    pub fn para_id(&self) -> (para: ParaId)
        ensures
            para == self@.para_id,
    {
        self.para_id
    }

    /// The hash of the persisted validation data.
    pub fn persisted_validation_data_hash(&self) -> (hash: H256)
        ensures
            hash@ == self@.persisted_validation_data_hash,
    {
        self.persisted_validation_data_hash
    }

    /// The hash of the proof of validity.
    pub fn pov_hash(&self) -> (hash: H256)
        ensures
            hash@ == self@.pov_hash,
    {
        self.pov_hash
    }

    /// The hash of the validation code.
    pub fn validation_code_hash(&self) -> (hash: ValidationCodeHash)
        ensures
            hash.0@ == self@.validation_code_hash,
    {
        self.validation_code_hash
    }

    /// The layout the descriptor is in.
    pub fn version(&self) -> (version: CandidateDescriptorVersion)
        ensures
            version == self@.version_of(),
    {
        if !all_zero(&self.reserved64b) || !all_zero(&self.reserved25b) {
            return CandidateDescriptorVersion::V1;
        }
        if self.version.0 == 0 {
            CandidateDescriptorVersion::V2
        } else {
            CandidateDescriptorVersion::V1
        }
    }

    /// The bytes in the place of the legacy collator id, whatever the layout.
    pub(crate) fn rebuild_collator_field(&self) -> (collator: CollatorId)
        ensures
            collator@ == self@.collator_bytes(),
    {
        let mut bytes: Vec<u8> = Vec::new();
        bytes.push(self.version.0);
        put_u16(&mut bytes, self.core_index);
        put_u32(&mut bytes, self.session_index);
        put_bytes(&mut bytes, self.reserved25b.as_slice());
        assert(bytes@ =~= self@.collator_bytes());
        let id: [u8; 32] = get_array::<32>(bytes.as_slice(), 0);
        assert(bytes@.subrange(0, 32) =~= bytes@);
        CollatorId(id)
    }

    /// The collator id, which only a legacy descriptor has.
    pub fn collator(&self) -> (collator: Option<CollatorId>)
        ensures
            collator is Some <==> self@.version_of() == CandidateDescriptorVersion::V1,
            collator matches Some(id) ==> Some(id@) == self@.collator_of(),
            collator is None ==> self@.collator_of() is None,
    {
        match self.version() {
            CandidateDescriptorVersion::V1 => Some(self.rebuild_collator_field()),
            CandidateDescriptorVersion::V2 => None,
        }
    }

    /// The bytes in the place of the legacy collator signature, whatever the layout.
    pub(crate) fn rebuild_signature_field(&self) -> (signature: CollatorSignature)
        ensures
            signature@ == self@.reserved64b,
    {
        CollatorSignature(self.reserved64b)
    }

    /// The collator signature, which only a legacy descriptor has.
    pub fn signature(&self) -> (signature: Option<CollatorSignature>)
        ensures
            signature is Some <==> self@.version_of() == CandidateDescriptorVersion::V1,
            signature matches Some(s) ==> Some(s@) == self@.signature_of(),
            signature is None ==> self@.signature_of() is None,
    {
        match self.version() {
            CandidateDescriptorVersion::V1 => Some(self.rebuild_signature_field()),
            CandidateDescriptorVersion::V2 => None,
        }
    }

    /// The core index, which only a descriptor in the current layout has.
    pub fn core_index(&self) -> (core: Option<CoreIndex>)
        ensures
            core == self@.core_index_of(),
    {
        match self.version() {
            CandidateDescriptorVersion::V1 => None,
            CandidateDescriptorVersion::V2 => Some(CoreIndex(self.core_index as u32)),
        }
    }

    /// The session index, which only a descriptor in the current layout has.
    pub fn session_index(&self) -> (session: Option<SessionIndex>)
        ensures
            session == self@.session_index_of(),
    {
        match self.version() {
            CandidateDescriptorVersion::V1 => None,
            CandidateDescriptorVersion::V2 => Some(self.session_index),
        }
    }

    /// Appends the 292 bytes of the descriptor.
    pub fn encode_to(&self, out: &mut Vec<u8>)
        ensures
            final(out)@ == old(out)@ + self@.encoding(),
    {
        put_u32(out, self.para_id.0);
        put_bytes(out, self.relay_parent.0.as_slice());
        out.push(self.version.0);
        put_u16(out, self.core_index);
        put_u32(out, self.session_index);
        put_bytes(out, self.reserved25b.as_slice());
        put_bytes(out, self.persisted_validation_data_hash.0.as_slice());
        put_bytes(out, self.pov_hash.0.as_slice());
        put_bytes(out, self.erasure_root.0.as_slice());
        put_bytes(out, self.reserved64b.as_slice());
        put_bytes(out, self.para_head.0.as_slice());
        put_bytes(out, self.validation_code_hash.0.0.as_slice());
        assert(out@ =~= old(out)@ + self@.encoding());
    }

    /// The 292 bytes of the descriptor.
    pub fn encode(&self) -> (bytes: Vec<u8>)
        ensures
            bytes@ == self@.encoding(),
            bytes@.len() == DESCRIPTOR_SIZE,
    {
        let mut bytes: Vec<u8> = Vec::new();
        self.encode_to(&mut bytes);
        assert(bytes@ =~= self@.encoding());
        bytes
    }

    /// Reads the descriptor that starts at `at`.
    pub(crate) fn read(bytes: &[u8], at: usize) -> (descriptor: Self)
        requires
            at + DESCRIPTOR_SIZE <= bytes@.len(),
        ensures
            descriptor@ == DescriptorView::decoded(
                bytes@.subrange(at as int, at + DESCRIPTOR_SIZE),
            ),
    {
        let total: usize = bytes.len();
        let ghost part = bytes@.subrange(at as int, at + DESCRIPTOR_SIZE);
        let para_id: u32 = get_u32(bytes, at);
        let relay_parent: [u8; 32] = get_array::<32>(bytes, at + 4);
        let version: u8 = bytes[at + 36];
        let core_index: u16 = get_u16(bytes, at + 37);
        let session_index: u32 = get_u32(bytes, at + 39);
        let reserved25b: [u8; 25] = get_array::<25>(bytes, at + 43);
        let persisted_validation_data_hash: [u8; 32] = get_array::<32>(bytes, at + 68);
        let pov_hash: [u8; 32] = get_array::<32>(bytes, at + 100);
        let erasure_root: [u8; 32] = get_array::<32>(bytes, at + 132);
        let reserved64b: [u8; 64] = get_array::<64>(bytes, at + 164);
        let para_head: [u8; 32] = get_array::<32>(bytes, at + 228);
        let validation_code_hash: [u8; 32] = get_array::<32>(bytes, at + 260);
        let descriptor = Self {
            para_id: ParaId(para_id),
            relay_parent: H256(relay_parent),
            version: InternalVersion(version),
            core_index,
            session_index,
            reserved25b,
            persisted_validation_data_hash: H256(persisted_validation_data_hash),
            pov_hash: H256(pov_hash),
            erasure_root: H256(erasure_root),
            reserved64b,
            para_head: H256(para_head),
            validation_code_hash: ValidationCodeHash(H256(validation_code_hash)),
        };
        proof {
            assert(part.subrange(0, 4) =~= bytes@.subrange(at as int, at + 4));
            assert(part.subrange(4, 36) =~= bytes@.subrange(at + 4, at + 4 + 32));
            assert(part.subrange(37, 39) =~= bytes@.subrange(at + 37, at + 37 + 2));
            assert(part.subrange(39, 43) =~= bytes@.subrange(at + 39, at + 39 + 4));
            assert(part.subrange(43, 68) =~= bytes@.subrange(at + 43, at + 43 + 25));
            assert(part.subrange(68, 100) =~= bytes@.subrange(at + 68, at + 68 + 32));
            assert(part.subrange(100, 132) =~= bytes@.subrange(at + 100, at + 100 + 32));
            assert(part.subrange(132, 164) =~= bytes@.subrange(at + 132, at + 132 + 32));
            assert(part.subrange(164, 228) =~= bytes@.subrange(at + 164, at + 164 + 64));
            assert(part.subrange(228, 260) =~= bytes@.subrange(at + 228, at + 228 + 32));
            assert(part.subrange(260, 292) =~= bytes@.subrange(at + 260, at + 260 + 32));
        }
        descriptor
    }

    /// Reads a descriptor from exactly 292 bytes.
    pub fn decode(bytes: &[u8]) -> (decoded: Result<Self, DecodeError>)
        ensures
            decoded is Ok <==> bytes@.len() == DESCRIPTOR_SIZE,
            decoded matches Ok(descriptor) ==> descriptor@ == DescriptorView::decoded(bytes@),
    {
        if bytes.len() != DESCRIPTOR_SIZE {
            return Err(DecodeError);
        }
        assert(bytes@.subrange(0, 0 + DESCRIPTOR_SIZE) =~= bytes@);
        Ok(Self::read(bytes, 0))
    }

    /// The view of a descriptor has every field at its length.
    pub proof fn lemma_view_well_formed(self)
        ensures
            self@.well_formed(),
    {
    }

    /// Descriptors with the same view are the same descriptor.
    pub proof fn lemma_view_injective(self, other: Self)
        requires
            self@ == other@,
        ensures
            self == other,
    {
        assert(self.relay_parent.0 =~= other.relay_parent.0);
        assert(self.reserved25b =~= other.reserved25b);
        assert(self.persisted_validation_data_hash.0 =~= other.persisted_validation_data_hash.0);
        assert(self.pov_hash.0 =~= other.pov_hash.0);
        assert(self.erasure_root.0 =~= other.erasure_root.0);
        assert(self.reserved64b =~= other.reserved64b);
        assert(self.para_head.0 =~= other.para_head.0);
        assert(self.validation_code_hash.0.0 =~= other.validation_code_hash.0.0);
    }
}

impl PartialEq for CandidateDescriptorV2 {
    fn eq(&self, other: &Self) -> (same: bool) {
        let same = self.para_id.0 == other.para_id.0
            && same_bytes(&self.relay_parent.0, &other.relay_parent.0)
            && self.version.0 == other.version.0
            && self.core_index == other.core_index
            && self.session_index == other.session_index
            && same_bytes(&self.reserved25b, &other.reserved25b)
            && same_bytes(
            &self.persisted_validation_data_hash.0,
            &other.persisted_validation_data_hash.0,
        ) && same_bytes(&self.pov_hash.0, &other.pov_hash.0)
            && same_bytes(&self.erasure_root.0, &other.erasure_root.0)
            && same_bytes(&self.reserved64b, &other.reserved64b)
            && same_bytes(&self.para_head.0, &other.para_head.0)
            && same_bytes(&self.validation_code_hash.0.0, &other.validation_code_hash.0.0);
        same
    }
}

impl Eq for CandidateDescriptorV2 {}

impl vstd::std_specs::cmp::PartialEqSpecImpl for CandidateDescriptorV2 {
    open spec fn obeys_eq_spec() -> bool {
        true
    }

    open spec fn eq_spec(&self, other: &Self) -> bool {
        self@ == other@
    }
}

} // verus!
