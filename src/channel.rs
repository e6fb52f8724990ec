//! The artifact channel: seven buffers, each a tagged envelope (kind byte,
//! little-endian `u64` payload length, payload), written and read in one
//! fixed order, so that a buffer out of place fails to open.

use vstd::prelude::*;
use crate::codec::{deserialize_u64, le_bytes, le_value, serialize_u64, lemma_le_round_trip, lemma_le_value_prefix};

verus! {

/// Number of artifacts that cross the channel.
pub const ARTIFACT_COUNT: usize = 7;

/// Bytes before an envelope's payload: the kind byte and the length.
pub const ENVELOPE_HEADER: usize = 9;

/// The artifacts that cross the channel, in their canonical order.
#[derive(Debug, Clone, Copy, PartialEq, Eq, Structural)]
pub enum ArtifactKind {
    StandardBootstrapKey,
    FourierBootstrapKey,
    SourceCiphertext,
    CleartextResult,
    Accumulator,
    PbsCiphertext,
    LargeSecretKey,
}

/// The kind of the artifact at position `i` of the canonical order.
pub open spec fn canonical_kind(i: int) -> ArtifactKind {
    if i == 0 {
        ArtifactKind::StandardBootstrapKey
    } else if i == 1 {
        ArtifactKind::FourierBootstrapKey
    } else if i == 2 {
        ArtifactKind::SourceCiphertext
    } else if i == 3 {
        ArtifactKind::CleartextResult
    } else if i == 4 {
        ArtifactKind::Accumulator
    } else if i == 5 {
        ArtifactKind::PbsCiphertext
    } else {
        ArtifactKind::LargeSecretKey
    }
}

impl ArtifactKind {
    /// The kind byte of an envelope: the artifact's canonical position.
    pub open spec fn spec_tag(self) -> u8 {
        match self {
            ArtifactKind::StandardBootstrapKey => 0,
            ArtifactKind::FourierBootstrapKey => 1,
            ArtifactKind::SourceCiphertext => 2,
            ArtifactKind::CleartextResult => 3,
            ArtifactKind::Accumulator => 4,
            ArtifactKind::PbsCiphertext => 5,
            ArtifactKind::LargeSecretKey => 6,
        }
    }

    pub fn tag(&self) -> (r: u8)
        ensures
            r == self.spec_tag(),
    {
        match self {
            ArtifactKind::StandardBootstrapKey => 0,
            ArtifactKind::FourierBootstrapKey => 1,
            ArtifactKind::SourceCiphertext => 2,
            ArtifactKind::CleartextResult => 3,
            ArtifactKind::Accumulator => 4,
            ArtifactKind::PbsCiphertext => 5,
            ArtifactKind::LargeSecretKey => 6,
        }
    }

    /// The kind at position `i` of the canonical order.
    pub fn at_position(i: usize) -> (r: ArtifactKind)
        requires
            i < ARTIFACT_COUNT,
        ensures
            r == canonical_kind(i as int),
            r.spec_tag() == i,
    {
        if i == 0 {
            ArtifactKind::StandardBootstrapKey
        } else if i == 1 {
            ArtifactKind::FourierBootstrapKey
        } else if i == 2 {
            ArtifactKind::SourceCiphertext
        } else if i == 3 {
            ArtifactKind::CleartextResult
        } else if i == 4 {
            ArtifactKind::Accumulator
        } else if i == 5 {
            ArtifactKind::PbsCiphertext
        } else {
            ArtifactKind::LargeSecretKey
        }
    }
}

/// Two kinds with the same tag are the same kind.
pub proof fn lemma_tag_injective(a: ArtifactKind, b: ArtifactKind)
    ensures
        a.spec_tag() == b.spec_tag() <==> a == b,
{
}

/// The envelope of `payload` as an artifact of kind `kind`.
pub open spec fn envelope(kind: ArtifactKind, payload: Seq<u8>) -> Seq<u8> {
    seq![kind.spec_tag()] + le_bytes(payload.len() as u64) + payload
}

/// The length that the header of `b` announces.
pub open spec fn announced_len(b: Seq<u8>) -> u64 {
    le_value(b.subrange(1, 9))
}

/// Whether `b` is a complete envelope of kind `kind`.
pub open spec fn opens_as(b: Seq<u8>, kind: ArtifactKind) -> bool {
    &&& b.len() >= ENVELOPE_HEADER
    &&& b[0] == kind.spec_tag()
    &&& announced_len(b) == b.len() - ENVELOPE_HEADER
}

/// The payload of an envelope.
pub open spec fn payload_of(b: Seq<u8>) -> Seq<u8> {
    b.subrange(ENVELOPE_HEADER as int, b.len() as int)
}

/// Why an envelope did not open.
#[derive(Debug, Clone, Copy, PartialEq, Eq, Structural)]
pub enum EnvelopeError {
    /// Shorter than the header.
    Truncated,
    /// The kind byte names another artifact than the one expected here.
    KindMismatch { found: u8 },
    /// The announced length differs from the bytes that follow the header.
    LengthMismatch { announced: u64 },
}

/// Copies `b[lo..hi]`.
fn copy_range(b: &Vec<u8>, lo: usize, hi: usize) -> (r: Vec<u8>)
    requires
        lo <= hi <= b@.len(),
    ensures
        r@ == b@.subrange(lo as int, hi as int),
{
    let mut r: Vec<u8> = Vec::new();
    let mut i: usize = lo;
    while i < hi
        invariant
            lo <= i <= hi <= b@.len(),
            r@ == b@.subrange(lo as int, i as int),
        decreases hi - i,
    {
        r.push(b[i]);
        i = i + 1;
        assert(r@ =~= b@.subrange(lo as int, i as int));
    }
    r
}

/// Wraps `payload` in an envelope of kind `kind`.
pub fn seal(kind: ArtifactKind, payload: &Vec<u8>) -> (r: Vec<u8>)
    ensures
        r@ == envelope(kind, payload@),
{
    let mut r: Vec<u8> = Vec::new();
    r.push(kind.tag());
    let mut len_bytes: Vec<u8> = serialize_u64(payload.len() as u64);
    r.append(&mut len_bytes);
    let mut body: Vec<u8> = copy_range(payload, 0, payload.len());
    r.append(&mut body);
    assert(payload@.subrange(0, payload@.len() as int) =~= payload@);
    assert(r@ =~= envelope(kind, payload@));
    r
}

/// Opens an envelope that must hold an artifact of kind `expected`.
pub fn open(expected: ArtifactKind, b: &Vec<u8>) -> (r: Result<Vec<u8>, EnvelopeError>)
    ensures
        r is Ok <==> opens_as(b@, expected),
        r matches Ok(p) ==> p@ == payload_of(b@),
        r == Err::<Vec<u8>, _>(EnvelopeError::Truncated) <==> b@.len() < ENVELOPE_HEADER,
        r == Err::<Vec<u8>, _>(EnvelopeError::KindMismatch { found: b@[0] }) <==> (b@.len()
            >= ENVELOPE_HEADER && b@[0] != expected.spec_tag()),
        r == Err::<Vec<u8>, _>(EnvelopeError::LengthMismatch { announced: announced_len(b@) })
            <==> (b@.len() >= ENVELOPE_HEADER && b@[0] == expected.spec_tag() && announced_len(b@)
            != b@.len() - ENVELOPE_HEADER),
{
    if b.len() < ENVELOPE_HEADER {
        return Err(EnvelopeError::Truncated);
    }
    if b[0] != expected.tag() {
        return Err(EnvelopeError::KindMismatch { found: b[0] });
    }
    let header: Vec<u8> = copy_range(b, 1, ENVELOPE_HEADER);
    let announced: u64 = match deserialize_u64(header.as_slice()) {
        Ok(v) => v,
        Err(_) => {
            return Err(EnvelopeError::Truncated);
        },
    };
    let rest: usize = b.len() - ENVELOPE_HEADER;
    if announced != rest as u64 {
        return Err(EnvelopeError::LengthMismatch { announced });
    }
    Ok(copy_range(b, ENVELOPE_HEADER, b.len()))
}

/// An envelope opens as its own kind, with its payload, and as no other kind.
pub proof fn lemma_envelope_round_trip(kind: ArtifactKind, expected: ArtifactKind, p: Seq<u8>)
    requires
        p.len() <= u64::MAX - ENVELOPE_HEADER,
    ensures
        opens_as(envelope(kind, p), expected) <==> kind == expected,
        payload_of(envelope(kind, p)) == p,
        envelope(kind, p)[0] == kind.spec_tag(),
        envelope(kind, p).len() >= ENVELOPE_HEADER,
{
    let e = envelope(kind, p);
    let lb = le_bytes(p.len() as u64);
    lemma_le_round_trip(p.len() as u64);
    assert(e.subrange(1, 9) =~= lb);
    assert(lb.subrange(0, 8) =~= lb);
    assert(e.subrange(1, 9).subrange(0, 8) =~= lb);
    lemma_le_value_prefix(e.subrange(1, 9), lb);
    assert(payload_of(e) =~= p);
    lemma_tag_injective(kind, expected);
}

/// The writing side of the channel: accepts the artifacts only in canonical order.
pub struct ChannelWriter {
    buffers: Vec<Vec<u8>>,
}

/// The write was refused: the artifact is not the one due at this position.
#[derive(Debug, Clone, Copy, PartialEq, Eq, Structural)]
pub enum WriteError {
    OutOfOrder { position: usize, offered: ArtifactKind },
    Full,
}

impl ChannelWriter {
    /// The envelopes written so far.
    pub closed spec fn written(&self) -> Seq<Seq<u8>> {
        self.buffers@.map_values(|b: Vec<u8>| b@)
    }

    pub open spec fn wf(&self) -> bool {
        self.written().len() <= ARTIFACT_COUNT
    }

    pub fn new() -> (r: ChannelWriter)
        ensures
            r.wf(),
            r.written() == Seq::<Seq<u8>>::empty(),
    {
        let r = ChannelWriter { buffers: Vec::new() };
        assert(r.written() =~= Seq::<Seq<u8>>::empty());
        r
    }

    /// How many artifacts have been written.
    pub fn position(&self) -> (r: usize)
        ensures
            r == self.written().len(),
    {
        self.buffers.len()
    }

    /// Appends the envelope of `payload` if `kind` is the artifact due next.
    pub fn write(&mut self, kind: ArtifactKind, payload: &Vec<u8>) -> (r: Result<(), WriteError>)
        requires
            old(self).wf(),
        ensures
            final(self).wf(),
            r is Ok <==> (old(self).written().len() < ARTIFACT_COUNT && kind == canonical_kind(
                old(self).written().len() as int,
            )),
            r is Ok ==> final(self).written() == old(self).written().push(envelope(kind, payload@)),
            r is Err ==> final(self).written() == old(self).written(),
            r == Err::<(), _>(WriteError::Full) <==> old(self).written().len() == ARTIFACT_COUNT,
    {
        let pos: usize = self.buffers.len();
        if pos >= ARTIFACT_COUNT {
            return Err(WriteError::Full);
        }
        let due: ArtifactKind = ArtifactKind::at_position(pos);
        if kind != due {
            return Err(WriteError::OutOfOrder { position: pos, offered: kind });
        }
        let e: Vec<u8> = seal(kind, payload);
        let ghost before = self.written();
        self.buffers.push(e);
        assert(self.written() =~= before.push(envelope(kind, payload@)));
        Ok(())
    }

    /// Whether all seven artifacts have been written.
    pub fn is_complete(&self) -> (r: bool)
        ensures
            r == (self.written().len() == ARTIFACT_COUNT),
    {
        self.buffers.len() == ARTIFACT_COUNT
    }

    /// The buffers, in the order they were written.
    pub fn into_buffers(self) -> (r: Vec<Vec<u8>>)
        ensures
            r@.map_values(|b: Vec<u8>| b@) == self.written(),
    {
        self.buffers
    }
}

} // verus!
