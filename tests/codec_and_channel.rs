use decryption_proof::channel::{open, seal, ArtifactKind, ChannelWriter, EnvelopeError, WriteError};
use decryption_proof::codec::{deserialize_u64, deserialize_words, serialize_u64, serialize_words, CodecError};
use decryption_proof::lwe::{LweCiphertext, LweSecretKey};

#[test]
fn u64_encoding_is_little_endian() {
    let b = serialize_u64(0x0102_0304_0506_0708);
    assert_eq!(b, vec![8, 7, 6, 5, 4, 3, 2, 1]);
    assert_eq!(deserialize_u64(&b), Ok(0x0102_0304_0506_0708));
    assert_eq!(deserialize_u64(&[1, 2, 3]), Err(CodecError::Truncated));
}

#[test]
fn words_encoding_round_trips() {
    let v = vec![1u64, u64::MAX, 0];
    let b = serialize_words(&v);
    assert_eq!(b.len(), 8 + 24);
    assert_eq!(&b[..8], &[3, 0, 0, 0, 0, 0, 0, 0]);
    assert_eq!(deserialize_words(&b), Ok(v));
    assert_eq!(deserialize_words(&b[..20]), Err(CodecError::Truncated));
}

#[test]
fn ciphertext_and_key_round_trip() {
    let ct = LweCiphertext { data: vec![4, 5, 6] };
    assert_eq!(LweCiphertext::from_bytes(&ct.to_bytes()).unwrap().data, ct.data);
    let sk = LweSecretKey { data: vec![1, 0, 1, 1] };
    assert_eq!(LweSecretKey::from_bytes(&sk.to_bytes()).unwrap().data, sk.data);
    let empty = serialize_words(&vec![]);
    assert_eq!(LweCiphertext::from_bytes(&empty).err(), Some(CodecError::Malformed));
}

#[test]
fn envelope_opens_only_as_its_kind() {
    let e = seal(ArtifactKind::CleartextResult, &vec![9, 9]);
    assert_eq!(e, vec![3, 2, 0, 0, 0, 0, 0, 0, 0, 9, 9]);
    assert_eq!(open(ArtifactKind::CleartextResult, &e), Ok(vec![9, 9]));
    assert_eq!(open(ArtifactKind::Accumulator, &e), Err(EnvelopeError::KindMismatch { found: 3 }));
    assert_eq!(open(ArtifactKind::CleartextResult, &e[..5].to_vec()), Err(EnvelopeError::Truncated));
    let mut longer = e.clone();
    longer.push(0);
    assert_eq!(
        open(ArtifactKind::CleartextResult, &longer),
        Err(EnvelopeError::LengthMismatch { announced: 2 })
    );
}

#[test]
fn writer_accepts_only_the_canonical_order() {
    let mut w = ChannelWriter::new();
    assert_eq!(
        w.write(ArtifactKind::FourierBootstrapKey, &vec![]),
        Err(WriteError::OutOfOrder { position: 0, offered: ArtifactKind::FourierBootstrapKey })
    );
    let order = [
        ArtifactKind::StandardBootstrapKey,
        ArtifactKind::FourierBootstrapKey,
        ArtifactKind::SourceCiphertext,
        ArtifactKind::CleartextResult,
        ArtifactKind::Accumulator,
        ArtifactKind::PbsCiphertext,
        ArtifactKind::LargeSecretKey,
    ];
    for k in order {
        assert_eq!(w.write(k, &vec![1]), Ok(()));
    }
    assert!(w.is_complete());
    assert_eq!(w.write(ArtifactKind::LargeSecretKey, &vec![]), Err(WriteError::Full));
    let bufs = w.into_buffers();
    assert_eq!(bufs.len(), 7);
    for (i, b) in bufs.iter().enumerate() {
        assert_eq!(b[0] as usize, i);
    }
}

#[test]
fn positions_tags_and_dimensions() {
    assert_eq!(ArtifactKind::at_position(0), ArtifactKind::StandardBootstrapKey);
    assert_eq!(ArtifactKind::at_position(6), ArtifactKind::LargeSecretKey);
    assert_eq!(ArtifactKind::PbsCiphertext.tag(), 5);
    let mut w = ChannelWriter::new();
    assert_eq!(w.position(), 0);
    w.write(ArtifactKind::StandardBootstrapKey, &vec![]).unwrap();
    assert_eq!(w.position(), 1);
    assert!(!w.is_complete());
    assert_eq!(LweCiphertext::new(7, 4).lwe_dimension(), 3);
    assert_eq!(LweCiphertext::new(7, 4).data, vec![7, 7, 7, 7]);
    assert_eq!(LweSecretKey { data: vec![1, 0] }.lwe_dimension(), 2);
}
