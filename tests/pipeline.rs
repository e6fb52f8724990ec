use decryption_proof::channel::{ArtifactKind, EnvelopeError};
use decryption_proof::encoding::{decode, encode};
use decryption_proof::guest::{run_guest, GuestError};
use decryption_proof::host::{accept_proof, build_channel, cleartext_multiplication_result, HostArtifacts, ProofError};
use decryption_proof::lwe::{decrypt_lwe_ciphertext, encrypt_lwe_ciphertext_with, LweCiphertext, LweSecretKey};

/// Artifacts of a run on message 3; the bootstrapped ciphertext is an
/// encryption of 6 under the large key, as a bootstrap would produce.
fn artifacts(claim: Option<u64>) -> (HostArtifacts, LweSecretKey) {
    let small = LweSecretKey { data: vec![1, 0, 1, 1] };
    let large = LweSecretKey { data: vec![0, 1, 1, 0, 1, 1] };
    let source = encrypt_lwe_ciphertext_with(&small, vec![11, 1 << 62, 3, u64::MAX], 1 << 50, encode(3));
    let result = cleartext_multiplication_result(&small, &source, 2);
    assert_eq!(result, 6);
    let pbs = encrypt_lwe_ciphertext_with(&large, vec![5, 4, 3, 2, 1, 0], 0u64.wrapping_sub(1 << 49), encode(6));
    let a = HostArtifacts {
        standard_bootstrap_key: vec![1, 2, 3],
        fourier_bootstrap_key: vec![4, 5],
        source_ciphertext: source,
        cleartext_result: claim.unwrap_or(result),
        accumulator: vec![6],
        pbs_ciphertext: pbs,
        large_secret_key: LweSecretKey { data: large.data.clone() },
    };
    (a, large)
}

#[test]
fn end_to_end_commits_the_bootstrapped_ciphertext() {
    let (a, large) = artifacts(None);
    let bufs = build_channel(&a);
    assert_eq!(bufs.len(), 7);
    let journal = run_guest(&bufs).unwrap();
    assert_eq!(journal, a.pbs_ciphertext.to_bytes());
    let output = accept_proof(&journal, true).unwrap();
    assert_eq!(output.data, a.pbs_ciphertext.data);
    assert_eq!(decode(decrypt_lwe_ciphertext(&large, &output)), 6);
}

#[test]
fn corrupted_claim_is_refused() {
    let (a, _) = artifacts(Some(7));
    let bufs = build_channel(&a);
    assert_eq!(run_guest(&bufs), Err(GuestError::EquivalenceFailed { expected: 7, recomputed: 6 }));
}

#[test]
fn reordered_channel_is_refused() {
    let (a, _) = artifacts(None);
    let mut bufs = build_channel(&a);
    bufs.swap(2, 5);
    assert_eq!(
        run_guest(&bufs),
        Err(GuestError::Envelope {
            kind: ArtifactKind::SourceCiphertext,
            cause: EnvelopeError::KindMismatch { found: 5 },
        })
    );
    let mut reversed = build_channel(&a);
    reversed.reverse();
    assert!(matches!(run_guest(&reversed), Err(GuestError::Envelope { .. })));
}

#[test]
fn short_channel_is_refused() {
    let (a, _) = artifacts(None);
    let mut bufs = build_channel(&a);
    bufs.pop();
    assert_eq!(run_guest(&bufs), Err(GuestError::ChannelLength { count: 6 }));
}

#[test]
fn mismatched_key_dimension_is_refused() {
    let (mut a, _) = artifacts(None);
    a.large_secret_key.data.push(1);
    let bufs = build_channel(&a);
    assert_eq!(run_guest(&bufs), Err(GuestError::DimensionMismatch { key: 7, ciphertext: 7 }));
}

#[test]
fn empty_ciphertext_payload_is_refused() {
    let (mut a, _) = artifacts(None);
    a.source_ciphertext = LweCiphertext { data: vec![] };
    let bufs = build_channel(&a);
    assert!(matches!(
        run_guest(&bufs),
        Err(GuestError::Codec { kind: ArtifactKind::SourceCiphertext, .. })
    ));
}

#[test]
fn unverified_receipt_is_rejected() {
    let (a, _) = artifacts(None);
    let journal = run_guest(&build_channel(&a)).unwrap();
    assert!(matches!(accept_proof(&journal, false), Err(ProofError::Rejected)));
    assert!(matches!(accept_proof(&vec![1, 2], true), Err(ProofError::Journal { .. })));
}
