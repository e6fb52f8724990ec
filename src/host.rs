//! The host: the cleartext-multiplication path, the decoding of the
//! bootstrapped result, the artifacts it places on the channel in canonical
//! order, and the acceptance of a proof's journal.

use vstd::prelude::*;
use crate::channel::{canonical_kind, envelope, ArtifactKind, ChannelWriter};
use crate::codec::{le_bytes, seq_bytes, serialize_u64, words_of, CodecError};
use crate::encoding::{decode, decoded, torus_modulus};
use crate::lwe::{
    decodes_ciphertext,
    decrypt_lwe_ciphertext,
    decrypted,
    lemma_cleartext_mul_decrypts,
    lwe_ciphertext_cleartext_mul,
    LweCiphertext,
    LweSecretKey,
};

verus! {

/// The scalar of the cleartext multiplication.
pub const CLEARTEXT_SCALAR: u64 = 2;

/// The seven artifacts that the host hands to the guest. The bootstrapping
/// keys and the accumulator are carried as the bytes that the FHE library
/// encoded them to.
pub struct HostArtifacts {
    pub standard_bootstrap_key: Vec<u8>,
    pub fourier_bootstrap_key: Vec<u8>,
    pub source_ciphertext: LweCiphertext,
    pub cleartext_result: u64,
    pub accumulator: Vec<u8>,
    pub pbs_ciphertext: LweCiphertext,
    pub large_secret_key: LweSecretKey,
}

impl HostArtifacts {
    /// The payload of the artifact at canonical position `i`.
    pub open spec fn payload(&self, i: int) -> Seq<u8> {
        if i == 0 {
            self.standard_bootstrap_key@
        } else if i == 1 {
            self.fourier_bootstrap_key@
        } else if i == 2 {
            seq_bytes(self.source_ciphertext.data@)
        } else if i == 3 {
            le_bytes(self.cleartext_result)
        } else if i == 4 {
            self.accumulator@
        } else if i == 5 {
            seq_bytes(self.pbs_ciphertext.data@)
        } else {
            seq_bytes(self.large_secret_key.data@)
        }
    }

    /// The channel's buffers: each artifact's envelope, in canonical order.
    pub open spec fn channel(&self) -> Seq<Seq<u8>> {
        Seq::new(7, |i: int| envelope(canonical_kind(i), self.payload(i)))
    }
}

/// Writes the seven artifacts to a channel in canonical order.
pub fn build_channel(a: &HostArtifacts) -> (r: Vec<Vec<u8>>)
    ensures
        r@.map_values(|b: Vec<u8>| b@) == a.channel(),
{
    let mut w = ChannelWriter::new();
    let source_bytes: Vec<u8> = a.source_ciphertext.to_bytes();
    let claim_bytes: Vec<u8> = serialize_u64(a.cleartext_result);
    let pbs_bytes: Vec<u8> = a.pbs_ciphertext.to_bytes();
    let key_bytes: Vec<u8> = a.large_secret_key.to_bytes();
    let _ = w.write(ArtifactKind::StandardBootstrapKey, &a.standard_bootstrap_key);
    let _ = w.write(ArtifactKind::FourierBootstrapKey, &a.fourier_bootstrap_key);
    let _ = w.write(ArtifactKind::SourceCiphertext, &source_bytes);
    let _ = w.write(ArtifactKind::CleartextResult, &claim_bytes);
    let _ = w.write(ArtifactKind::Accumulator, &a.accumulator);
    let _ = w.write(ArtifactKind::PbsCiphertext, &pbs_bytes);
    let _ = w.write(ArtifactKind::LargeSecretKey, &key_bytes);
    assert(w.written() =~= a.channel());
    w.into_buffers()
}

/// The cleartext path: multiplies `source` by `scalar`, decrypts the product
/// under `sk` and decodes it.
pub fn cleartext_multiplication_result(sk: &LweSecretKey, source: &LweCiphertext, scalar: u64) -> (r: u64)
    requires
        source.wf(),
        sk.data@.len() + 1 == source.data@.len(),
    ensures
        r == decoded((scalar * decrypted(sk.data@, source.data@)) % torus_modulus()),
{
    let mut product: LweCiphertext = LweCiphertext::new(0, source.data.len());
    lwe_ciphertext_cleartext_mul(&mut product, source, scalar);
    proof {
        lemma_cleartext_mul_decrypts(sk.data@, source.data@, scalar);
    }
    decode(decrypt_lwe_ciphertext(sk, &product))
}

/// Decrypts `ct` under `sk` and decodes the message: how the bootstrapped
/// result is read.
pub fn decrypt_and_decode(sk: &LweSecretKey, ct: &LweCiphertext) -> (r: u64)
    requires
        ct.wf(),
        sk.data@.len() + 1 == ct.data@.len(),
    ensures
        r == decoded(decrypted(sk.data@, ct.data@)),
{
    decode(decrypt_lwe_ciphertext(sk, ct))
}

/// The two evaluation paths decoded to different messages.
#[derive(Debug, Clone, Copy, PartialEq, Eq, Structural)]
pub struct EquivalenceError {
    pub cleartext: u64,
    pub bootstrapped: u64,
}

/// Compares the cleartext path on `source` (under the small key) with the
/// bootstrapped ciphertext `pbs` (under the large key). Returns the common
/// message when both decode to it.
pub fn check_equivalence(
    small_sk: &LweSecretKey,
    source: &LweCiphertext,
    large_sk: &LweSecretKey,
    pbs: &LweCiphertext,
) -> (r: Result<u64, EquivalenceError>)
    requires
        source.wf(),
        small_sk.data@.len() + 1 == source.data@.len(),
        pbs.wf(),
        large_sk.data@.len() + 1 == pbs.data@.len(),
    ensures
        ({
            let c = decoded((CLEARTEXT_SCALAR * decrypted(small_sk.data@, source.data@)) % torus_modulus());
            let b = decoded(decrypted(large_sk.data@, pbs.data@));
            &&& r is Ok <==> c == b
            &&& r matches Ok(m) ==> m == c
            &&& r matches Err(e) ==> e.cleartext == c && e.bootstrapped == b
        }),
{
    let cleartext: u64 = cleartext_multiplication_result(small_sk, source, CLEARTEXT_SCALAR);
    let bootstrapped: u64 = decrypt_and_decode(large_sk, pbs);
    if cleartext == bootstrapped {
        Ok(cleartext)
    } else {
        Err(EquivalenceError { cleartext, bootstrapped })
    }
}

/// Why a proof's public output was not accepted.
#[derive(Debug, Clone, Copy, PartialEq, Eq, Structural)]
pub enum ProofError {
    /// The journal does not decode as a ciphertext.
    Journal { reason: CodecError },
    /// The receipt did not verify against the program identifier.
    Rejected,
}

/// Accepts a proof's public output: the journal must decode as a ciphertext,
/// and the receipt must have verified against the program identifier.
pub fn accept_proof(journal: &Vec<u8>, receipt_verified: bool) -> (r: Result<LweCiphertext, ProofError>)
    ensures
        r is Ok <==> decodes_ciphertext(journal@) && receipt_verified,
        r matches Ok(c) ==> c.wf() && c.data@ == words_of(journal@),
        r matches Err(ProofError::Journal { .. }) <==> !decodes_ciphertext(journal@),
        r == Err::<LweCiphertext, _>(ProofError::Rejected) <==> decodes_ciphertext(journal@)
            && !receipt_verified,
{
    let output: LweCiphertext = match LweCiphertext::from_bytes(journal.as_slice()) {
        Ok(c) => c,
        Err(reason) => {
            return Err(ProofError::Journal { reason });
        },
    };
    if !receipt_verified {
        return Err(ProofError::Rejected);
    }
    Ok(output)
}

#[verifier::external_type_specification]
#[verifier::external_body]
pub struct ExReceipt(risc0_zkvm::Receipt);

/// Relies on risc0_zkvm::Receipt::verify: whether the receipt proves a
/// successful run of the program with identifier `image_id` and an untampered
/// journal. Nothing is stated of the outcome.
#[verifier::external_body]
fn receipt_verifies(receipt: &risc0_zkvm::Receipt, image_id: [u32; 8]) -> (r: bool) {
    receipt.verify(image_id).is_ok()
}

/// Relies on the public field risc0_zkvm::Receipt::journal: the bytes that the
/// guest committed, read as they are.
#[verifier::external_body]
fn journal_bytes(receipt: &risc0_zkvm::Receipt) -> (r: Vec<u8>) {
    receipt.journal.bytes.clone()
}

/// Verifies `receipt` against the program identifier `image_id` and accepts
/// its journal as `accept_proof` does, with the verification's outcome.
pub fn finish_proof(receipt: &risc0_zkvm::Receipt, image_id: [u32; 8]) -> (r: Result<
    LweCiphertext,
    ProofError,
>)
    ensures
        r matches Ok(c) ==> c.wf(),
{
    let journal: Vec<u8> = journal_bytes(receipt);
    let verified: bool = receipt_verifies(receipt, image_id);
    accept_proof(&journal, verified)
}

} // verus!
