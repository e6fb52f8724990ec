use decryption_proof::server_key::{
    integer_radix_max_degree, ClientKeyParameters, CompressedBootstrappingKey, CompressedServerKey,
    CudaBootstrappingKey, CudaServerKey, EncryptionKeyChoice, PBSOrder, PbsKind, ServerKeyMaterial,
};

fn params(kind: PbsKind) -> ClientKeyParameters {
    ClientKeyParameters {
        message_modulus: 4,
        carry_modulus: 4,
        max_noise_level: 5,
        ciphertext_modulus: 0,
        encryption_key_choice: EncryptionKeyChoice::Big,
        pbs_kind: kind,
    }
}

fn material() -> ServerKeyMaterial {
    ServerKeyMaterial { key_switching_key: vec![1, 2], bootstrapping_key: vec![3, 4, 5] }
}

#[test]
fn radix_max_degree_leaves_room_for_a_carry() {
    assert_eq!(integer_radix_max_degree(4, 4), 12);
    assert_eq!(integer_radix_max_degree(2, 1), 1);
}

#[test]
fn new_server_key_from_classic_parameters() {
    let sk = CudaServerKey::new(&params(PbsKind::Classic), material());
    assert_eq!(sk.max_degree, 12);
    assert_eq!(sk.pbs_order, PBSOrder::KeyswitchBootstrap);
    assert_eq!((sk.message_modulus, sk.carry_modulus, sk.max_noise_level), (4, 4, 5));
    assert_eq!(sk.key_switching_key, vec![1, 2]);
    assert!(matches!(sk.bootstrapping_key, CudaBootstrappingKey::Classic(ref k) if *k == vec![3, 4, 5]));
}

#[test]
fn new_server_key_from_multi_bit_parameters() {
    let sk = CudaServerKey::new(&params(PbsKind::MultiBit { grouping_factor: 3 }), material());
    assert!(matches!(sk.bootstrapping_key, CudaBootstrappingKey::MultiBit { grouping_factor: 3, .. }));
}

#[test]
fn decompress_from_cpu_keeps_fields() {
    let cpu = CompressedServerKey {
        key_switching_key: vec![9],
        bootstrapping_key: CompressedBootstrappingKey::MultiBit {
            grouping_factor: 2,
            seeded_key: vec![8],
            deterministic_execution: true,
        },
        message_modulus: 4,
        carry_modulus: 4,
        max_degree: 15,
        max_noise_level: 5,
        ciphertext_modulus: 0,
        pbs_order: PBSOrder::KeyswitchBootstrap,
    };
    let sk = CudaServerKey::decompress_from_cpu(&cpu, material());
    assert_eq!(sk.max_degree, 15);
    assert_eq!(sk.key_switching_key, vec![1, 2]);
    assert!(matches!(sk.bootstrapping_key, CudaBootstrappingKey::MultiBit { grouping_factor: 2, ref key } if *key == vec![3, 4, 5]));
    let classic = CompressedServerKey { bootstrapping_key: CompressedBootstrappingKey::Classic(vec![7]), ..cpu };
    let sk = CudaServerKey::decompress_from_cpu(&classic, material());
    assert!(matches!(sk.bootstrapping_key, CudaBootstrappingKey::Classic(_)));
}
