//! Laws of the protocol as a whole: what the guest reads back from an honest
//! host's channel, that it refuses a reordered channel, that it commits exactly
//! when the claimed result is the bootstrapped ciphertext's message, and that
//! the cleartext path doubles a message under small noise.

use vstd::prelude::*;
use vstd::arithmetic::div_mod::lemma_mul_mod_noop_right;
use crate::channel::{canonical_kind, lemma_envelope_round_trip, opens_as, ENVELOPE_HEADER};
use crate::codec::{holds_words, le_value, lemma_le_round_trip, lemma_words_bytes_len, lemma_words_round_trip, words_of};
use crate::encoding::{decoded, encoded, torus_modulus, DELTA, HALF_DELTA};
use crate::guest::{
    channel_consistent,
    claimed_result,
    committed_ciphertext,
    dimensions_agree,
    envelopes_open,
    guest_accepts,
    large_key,
    payload_at,
    payloads_decode,
    recomputed_result,
};
use crate::host::HostArtifacts;
use crate::lwe::{decodes_ciphertext, decrypted, scaled};

verus! {

/// The artifacts fit the channel's length fields.
pub open spec fn fits_channel(a: HostArtifacts) -> bool {
    &&& a.standard_bootstrap_key@.len() <= u64::MAX - ENVELOPE_HEADER
    &&& a.fourier_bootstrap_key@.len() <= u64::MAX - ENVELOPE_HEADER
    &&& a.accumulator@.len() <= u64::MAX - ENVELOPE_HEADER
    &&& 8 * a.source_ciphertext.data@.len() <= u64::MAX - ENVELOPE_HEADER - 8
    &&& 8 * a.pbs_ciphertext.data@.len() <= u64::MAX - ENVELOPE_HEADER - 8
    &&& 8 * a.large_secret_key.data@.len() <= u64::MAX - ENVELOPE_HEADER - 8
}

proof fn lemma_payload_lengths(a: HostArtifacts)
    requires
        fits_channel(a),
    ensures
        forall|i: int| 0 <= i < 7 ==> (#[trigger] a.payload(i)).len() <= u64::MAX - ENVELOPE_HEADER,
{
    lemma_words_bytes_len(a.source_ciphertext.data@);
    lemma_words_bytes_len(a.pbs_ciphertext.data@);
    lemma_words_bytes_len(a.large_secret_key.data@);
    lemma_le_round_trip(a.cleartext_result);
}

/// Round trip: every envelope of an honest host's channel opens as the kind
/// due at its position, with the payload that was written, and each decoded
/// artifact equals the host's.
pub proof fn lemma_channel_round_trip(a: HostArtifacts)
    requires
        fits_channel(a),
    ensures
        envelopes_open(a.channel()),
        forall|i: int| 0 <= i < 7 ==> #[trigger] payload_at(a.channel(), i) == a.payload(i),
        holds_words(payload_at(a.channel(), 2)),
        holds_words(payload_at(a.channel(), 5)),
        holds_words(payload_at(a.channel(), 6)),
        words_of(payload_at(a.channel(), 2)) == a.source_ciphertext.data@,
        payload_at(a.channel(), 3).len() >= 8,
        claimed_result(a.channel()) == a.cleartext_result,
        committed_ciphertext(a.channel()) == a.pbs_ciphertext.data@,
        large_key(a.channel()) == a.large_secret_key.data@,
{
    let ch = a.channel();
    lemma_payload_lengths(a);
    assert forall|i: int| 0 <= i < 7 implies opens_as(#[trigger] ch[i], canonical_kind(i))
        && payload_at(ch, i) == a.payload(i) by {
        lemma_envelope_round_trip(canonical_kind(i), canonical_kind(i), a.payload(i));
    }
    assert(payload_at(ch, 2) == a.payload(2));
    assert(payload_at(ch, 3) == a.payload(3));
    assert(payload_at(ch, 5) == a.payload(5));
    assert(payload_at(ch, 6) == a.payload(6));
    lemma_words_round_trip(a.source_ciphertext.data@);
    lemma_words_round_trip(a.pbs_ciphertext.data@);
    lemma_words_round_trip(a.large_secret_key.data@);
    lemma_le_round_trip(a.cleartext_result);
}

/// Soundness: on an honest host's channel the guest commits if and only if
/// the claimed cleartext-multiplication result equals the message that the
/// bootstrapped ciphertext decrypts to under the large key; a corrupted claim
/// is refused at the equivalence check. What it commits is the bootstrapped
/// ciphertext.
pub proof fn lemma_guest_commits_iff_consistent(a: HostArtifacts)
    requires
        fits_channel(a),
        a.source_ciphertext.wf(),
        a.pbs_ciphertext.wf(),
        a.large_secret_key.data@.len() + 1 == a.pbs_ciphertext.data@.len(),
    ensures
        channel_consistent(a.channel()),
        recomputed_result(a.channel()) == decoded(
            decrypted(a.large_secret_key.data@, a.pbs_ciphertext.data@),
        ),
        guest_accepts(a.channel()) <==> a.cleartext_result == decoded(
            decrypted(a.large_secret_key.data@, a.pbs_ciphertext.data@),
        ),
        committed_ciphertext(a.channel()) == a.pbs_ciphertext.data@,
{
    let ch = a.channel();
    lemma_channel_round_trip(a);
    assert(decodes_ciphertext(payload_at(ch, 2)));
    assert(decodes_ciphertext(payload_at(ch, 5)));
    assert(payloads_decode(ch));
    assert(dimensions_agree(ch));
}

/// Order sensitivity: a channel whose buffers are an honest channel's taken in
/// any other order (`bufs[i]` is the host's buffer at position `order[i]`, and
/// some `order[j] != j`) does not open: some envelope names another artifact
/// than the one due at its position.
pub proof fn lemma_reordered_channel_refused(a: HostArtifacts, order: Seq<int>, bufs: Seq<Seq<u8>>)
    requires
        fits_channel(a),
        order.len() == 7,
        forall|i: int| 0 <= i < 7 ==> 0 <= #[trigger] order[i] < 7,
        exists|j: int| 0 <= j < 7 && order[j] != j,
        bufs == Seq::new(7, |i: int| a.channel()[order[i]]),
    ensures
        !envelopes_open(bufs),
{
    let j = choose|j: int| 0 <= j < 7 && order[j] != j;
    let k = order[j];
    lemma_payload_lengths(a);
    lemma_envelope_round_trip(canonical_kind(k), canonical_kind(j), a.payload(k));
    assert(canonical_kind(k) != canonical_kind(j));
    assert(!opens_as(bufs[j], canonical_kind(j)));
}

/// A plaintext within half a `DELTA` of `m * DELTA` decodes to `m`.
pub proof fn lemma_decode_noisy(m: int, e: int)
    requires
        0 <= m < 32,
        -(HALF_DELTA as int) <= e < HALF_DELTA,
    ensures
        decoded((encoded(m) + e) % torus_modulus()) == m,
{
    let md = torus_modulus();
    let d = DELTA as int;
    let h = HALF_DELTA as int;
    let x = m * d + e;
    if e >= 0 || m >= 1 {
        assert(0 <= x < md) by (nonlinear_arith)
            requires
                x == m * d + e,
                0 <= m < 32,
                -h <= e < h,
                e >= 0 || m >= 1,
                d == 0x0800_0000_0000_0000,
                h == 0x0400_0000_0000_0000,
                md == 0x1_0000_0000_0000_0000,
        ;
        assert(x % md == x);
        assert((x + h) / d == m) by (nonlinear_arith)
            requires
                x == m * d + e,
                -h <= e < h,
                d == 0x0800_0000_0000_0000,
                h == 0x0400_0000_0000_0000,
        ;
        assert((m * d) % md == m * d) by (nonlinear_arith)
            requires
                0 <= m < 32,
                d == 0x0800_0000_0000_0000,
                md == 0x1_0000_0000_0000_0000,
        ;
        assert((m * d) / d == m) by (nonlinear_arith)
            requires
                d == 0x0800_0000_0000_0000,
        ;
    } else {
        assert(m == 0);
        assert(x % md == md + e);
        assert((md + e + h) / d == 32);
        assert((32 * d) % md == 0);
    }
}

/// The cleartext path doubles: a ciphertext whose phase is `m * DELTA` plus
/// noise smaller than a quarter of `DELTA`, multiplied by two, decrypts and
/// decodes to `2 * m`. For the message 3 this is 6.
pub proof fn lemma_cleartext_path_doubles(sk: Seq<u64>, ct: Seq<u64>, m: int, e: int)
    requires
        ct.len() == sk.len() + 1,
        0 <= m < 16,
        -(HALF_DELTA as int) / 2 <= e < (HALF_DELTA as int) / 2,
        decrypted(sk, ct) == (encoded(m) + e) % torus_modulus(),
    ensures
        decoded((2 * decrypted(sk, ct)) % torus_modulus()) == 2 * m,
        decoded(decrypted(sk, scaled(ct, 2))) == 2 * m,
{
    let md = torus_modulus();
    crate::lwe::lemma_cleartext_mul_decrypts(sk, ct, 2);
    lemma_mul_mod_noop_right(2, encoded(m) + e, md);
    assert(2 * (encoded(m) + e) == encoded(2 * m) + 2 * e);
    lemma_decode_noisy(2 * m, 2 * e);
}

} // verus!
