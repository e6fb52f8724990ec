//! The guest verifier: reads the seven envelopes in canonical order, decodes
//! them, decrypts the bootstrapped ciphertext with the large key, and accepts
//! only when it decodes to the claimed cleartext-multiplication result. On
//! acceptance the bootstrapped ciphertext, and nothing else, is committed.

use vstd::prelude::*;
use crate::channel::{canonical_kind, open, opens_as, payload_of, ArtifactKind, EnvelopeError, ARTIFACT_COUNT};
use crate::codec::{deserialize_u64, holds_words, le_value, seq_bytes, words_of, CodecError};
use crate::encoding::{decode, decoded};
use crate::lwe::{decodes_ciphertext, decrypt_lwe_ciphertext, decrypted, LweCiphertext, LweSecretKey};

verus! {

/// Why the guest refused to commit.
#[derive(Debug, Clone, Copy, PartialEq, Eq, Structural)]
pub enum GuestError {
    /// The channel does not hold exactly seven buffers.
    ChannelLength { count: usize },
    /// The envelope at the position of `kind` did not open as `kind`.
    Envelope { kind: ArtifactKind, cause: EnvelopeError },
    /// The payload of `kind` did not decode.
    Codec { kind: ArtifactKind, reason: CodecError },
    /// The large key and the bootstrapped ciphertext disagree on the dimension.
    DimensionMismatch { key: usize, ciphertext: usize },
    /// The bootstrapped ciphertext decodes to `recomputed`, not the claimed `expected`.
    EquivalenceFailed { expected: u64, recomputed: u64 },
}

/// The byte contents of the channel's buffers.
pub open spec fn buffers_view(bufs: &Vec<Vec<u8>>) -> Seq<Seq<u8>> {
    bufs@.map_values(|b: Vec<u8>| b@)
}

/// The payload at position `i`.
pub open spec fn payload_at(bufs: Seq<Seq<u8>>, i: int) -> Seq<u8> {
    payload_of(bufs[i])
}

/// Seven buffers, each a complete envelope of the kind due at its position.
pub open spec fn envelopes_open(bufs: Seq<Seq<u8>>) -> bool {
    &&& bufs.len() == ARTIFACT_COUNT
    &&& forall|i: int| 0 <= i < ARTIFACT_COUNT ==> opens_as(#[trigger] bufs[i], canonical_kind(i))
}

/// The source ciphertext, the claimed result, the bootstrapped ciphertext and
/// the large key all decode.
pub open spec fn payloads_decode(bufs: Seq<Seq<u8>>) -> bool {
    &&& decodes_ciphertext(payload_at(bufs, 2))
    &&& payload_at(bufs, 3).len() >= 8
    &&& decodes_ciphertext(payload_at(bufs, 5))
    &&& holds_words(payload_at(bufs, 6))
}

/// The claimed cleartext-multiplication result.
pub open spec fn claimed_result(bufs: Seq<Seq<u8>>) -> u64 {
    le_value(payload_at(bufs, 3))
}

/// The bootstrapped ciphertext's coefficients.
pub open spec fn committed_ciphertext(bufs: Seq<Seq<u8>>) -> Seq<u64> {
    words_of(payload_at(bufs, 5))
}

/// The large key's coefficients.
pub open spec fn large_key(bufs: Seq<Seq<u8>>) -> Seq<u64> {
    words_of(payload_at(bufs, 6))
}

/// The large key fits the bootstrapped ciphertext.
pub open spec fn dimensions_agree(bufs: Seq<Seq<u8>>) -> bool {
    large_key(bufs).len() + 1 == committed_ciphertext(bufs).len()
}

/// Every artifact opens and decodes, and the dimensions agree.
pub open spec fn channel_consistent(bufs: Seq<Seq<u8>>) -> bool {
    envelopes_open(bufs) && payloads_decode(bufs) && dimensions_agree(bufs)
}

/// The message that the bootstrapped ciphertext decrypts and decodes to.
pub open spec fn recomputed_result(bufs: Seq<Seq<u8>>) -> int {
    decoded(decrypted(large_key(bufs), committed_ciphertext(bufs)))
}

/// Whether the guest commits on this channel.
pub open spec fn guest_accepts(bufs: Seq<Seq<u8>>) -> bool {
    channel_consistent(bufs) && claimed_result(bufs) == recomputed_result(bufs)
}

/// Opens the seven envelopes in canonical order.
fn open_all(bufs: &Vec<Vec<u8>>) -> (r: Result<Vec<Vec<u8>>, GuestError>)
    requires
        bufs@.len() == ARTIFACT_COUNT,
    ensures
        r is Ok <==> envelopes_open(buffers_view(bufs)),
        r matches Ok(ps) ==> ps@.len() == ARTIFACT_COUNT && forall|i: int|
            0 <= i < ARTIFACT_COUNT ==> (#[trigger] ps@[i])@ == payload_at(buffers_view(bufs), i),
        r matches Err(e) ==> e is Envelope,
{
    let ghost v = buffers_view(bufs);
    let mut payloads: Vec<Vec<u8>> = Vec::new();
    let mut i: usize = 0;
    while i < ARTIFACT_COUNT
        invariant
            i <= ARTIFACT_COUNT,
            bufs@.len() == ARTIFACT_COUNT,
            v == buffers_view(bufs),
            payloads@.len() == i,
            forall|j: int| 0 <= j < i ==> opens_as(#[trigger] v[j], canonical_kind(j)),
            forall|j: int| 0 <= j < i ==> (#[trigger] payloads@[j])@ == payload_at(v, j),
        decreases ARTIFACT_COUNT - i,
    {
        let kind: ArtifactKind = ArtifactKind::at_position(i);
        assert(v[i as int] == bufs@[i as int]@);
        match open(kind, &bufs[i]) {
            Ok(p) => {
                payloads.push(p);
            },
            Err(error) => {
                assert(!opens_as(v[i as int], canonical_kind(i as int)));
                return Err(GuestError::Envelope { kind, cause: error });
            },
        }
        i = i + 1;
    }
    Ok(payloads)
}

/// Runs the guest on the channel's buffers. Returns the journal, the encoding
/// of the bootstrapped ciphertext, when the recomputed result equals the
/// claimed one; otherwise the first failure, with nothing committed.
pub fn run_guest(bufs: &Vec<Vec<u8>>) -> (r: Result<Vec<u8>, GuestError>)
    ensures
        r is Ok <==> guest_accepts(buffers_view(bufs)),
        r matches Ok(j) ==> j@ == seq_bytes(committed_ciphertext(buffers_view(bufs))),
        r matches Err(GuestError::ChannelLength { .. }) <==> bufs@.len() != ARTIFACT_COUNT,
        r matches Err(GuestError::Envelope { .. }) <==> (bufs@.len() == ARTIFACT_COUNT
            && !envelopes_open(buffers_view(bufs))),
        r matches Err(GuestError::Codec { .. }) <==> (envelopes_open(buffers_view(bufs))
            && !payloads_decode(buffers_view(bufs))),
        r matches Err(GuestError::DimensionMismatch { .. }) <==> (envelopes_open(
            buffers_view(bufs),
        ) && payloads_decode(buffers_view(bufs)) && !dimensions_agree(buffers_view(bufs))),
        r matches Err(GuestError::EquivalenceFailed { expected, recomputed }) <==> (channel_consistent(
            buffers_view(bufs),
        ) && claimed_result(buffers_view(bufs)) != recomputed_result(buffers_view(bufs))),
        r matches Err(GuestError::EquivalenceFailed { expected, recomputed }) ==> expected
            == claimed_result(buffers_view(bufs)) && recomputed == recomputed_result(
            buffers_view(bufs),
        ),
{
    let ghost v = buffers_view(bufs);
    if bufs.len() != ARTIFACT_COUNT {
        return Err(GuestError::ChannelLength { count: bufs.len() });
    }
    let payloads: Vec<Vec<u8>> = match open_all(bufs) {
        Ok(ps) => ps,
        Err(e) => {
            return Err(e);
        },
    };
    assert(payloads@[2]@ == payload_at(v, 2));
    assert(payloads@[3]@ == payload_at(v, 3));
    assert(payloads@[5]@ == payload_at(v, 5));
    assert(payloads@[6]@ == payload_at(v, 6));
    // Reading: every artifact is decoded before anything is checked.
    let source: LweCiphertext = match LweCiphertext::from_bytes(payloads[2].as_slice()) {
        Ok(c) => c,
        Err(error) => {
            return Err(GuestError::Codec { kind: ArtifactKind::SourceCiphertext, reason: error });
        },
    };
    let claimed: u64 = match deserialize_u64(payloads[3].as_slice()) {
        Ok(x) => x,
        Err(error) => {
            return Err(GuestError::Codec { kind: ArtifactKind::CleartextResult, reason: error });
        },
    };
    let pbs: LweCiphertext = match LweCiphertext::from_bytes(payloads[5].as_slice()) {
        Ok(c) => c,
        Err(error) => {
            return Err(GuestError::Codec { kind: ArtifactKind::PbsCiphertext, reason: error });
        },
    };
    let key: LweSecretKey = match LweSecretKey::from_bytes(payloads[6].as_slice()) {
        Ok(k) => k,
        Err(error) => {
            return Err(GuestError::Codec { kind: ArtifactKind::LargeSecretKey, reason: error });
        },
    };
    // Verifying: the bootstrapped ciphertext must decode to the claimed result.
    if key.data.len() != pbs.data.len() - 1 {
        return Err(GuestError::DimensionMismatch { key: key.data.len(), ciphertext: pbs.data.len() });
    }
    let found: u64 = decode(decrypt_lwe_ciphertext(&key, &pbs));
    if found != claimed {
        return Err(GuestError::EquivalenceFailed { expected: claimed, recomputed: found });
    }
    // Committed: the journal holds the bootstrapped ciphertext alone.
    Ok(pbs.to_bytes())
}

} // verus!
