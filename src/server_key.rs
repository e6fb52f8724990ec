//! The server key as the device holds it: key-switching and bootstrapping key
//! buffers with the moduli and bounds that homomorphic operations check. The
//! buffers themselves are produced by the FHE library (generation from a client
//! key, or decompression of a seeded key) and handed in.

use vstd::prelude::*;

verus! {

/// Which key encrypts the ciphertexts that a server key operates on.
#[derive(Debug, Clone, Copy, PartialEq, Eq, Structural)]
pub enum EncryptionKeyChoice {
    Big,
    Small,
}

/// The order of key switching and bootstrapping in a programmable bootstrap.
#[derive(Debug, Clone, Copy, PartialEq, Eq, Structural)]
pub enum PBSOrder {
    KeyswitchBootstrap,
    BootstrapKeyswitch,
}

/// The order that ciphertexts encrypted under `choice` are processed in.
pub open spec fn pbs_order_of(choice: EncryptionKeyChoice) -> PBSOrder {
    match choice {
        EncryptionKeyChoice::Big => PBSOrder::KeyswitchBootstrap,
        EncryptionKeyChoice::Small => PBSOrder::BootstrapKeyswitch,
    }
}

/// The bootstrapping flavour that the parameters select.
#[derive(Debug, Clone, Copy, PartialEq, Eq, Structural)]
pub enum PbsKind {
    Classic,
    MultiBit { grouping_factor: usize },
}

/// What a server key reads of a client key's parameters.
#[derive(Debug, Clone, Copy, PartialEq, Eq, Structural)]
pub struct ClientKeyParameters {
    pub message_modulus: u64,
    pub carry_modulus: u64,
    pub max_noise_level: u64,
    /// `0` stands for the native modulus `2^64`.
    pub ciphertext_modulus: u64,
    pub encryption_key_choice: EncryptionKeyChoice,
    pub pbs_kind: PbsKind,
}

/// Key buffers that the FHE library produced for a server key.
pub struct ServerKeyMaterial {
    pub key_switching_key: Vec<u64>,
    pub bootstrapping_key: Vec<u64>,
}

/// A bootstrapping key on the device.
pub enum CudaBootstrappingKey {
    Classic(Vec<u64>),
    MultiBit { grouping_factor: usize, key: Vec<u64> },
}

/// A bootstrapping key in seeded (compressed) form.
pub enum CompressedBootstrappingKey {
    Classic(Vec<u64>),
    MultiBit { grouping_factor: usize, seeded_key: Vec<u64>, deterministic_execution: bool },
}

/// A server key in seeded (compressed) form, as the CPU holds it.
pub struct CompressedServerKey {
    pub key_switching_key: Vec<u64>,
    pub bootstrapping_key: CompressedBootstrappingKey,
    pub message_modulus: u64,
    pub carry_modulus: u64,
    pub max_degree: u64,
    pub max_noise_level: u64,
    pub ciphertext_modulus: u64,
    pub pbs_order: PBSOrder,
}

/// The server public key, stored in device memory.
pub struct CudaServerKey {
    pub key_switching_key: Vec<u64>,
    pub bootstrapping_key: CudaBootstrappingKey,
    /// Size of the message buffer.
    pub message_modulus: u64,
    /// Size of the carry buffer.
    pub carry_modulus: u64,
    /// Largest degree a block may reach before its carries are emptied.
    pub max_degree: u64,
    pub max_noise_level: u64,
    pub ciphertext_modulus: u64,
    pub pbs_order: PBSOrder,
}

/// The largest degree of a radix block that still leaves room for one carry
/// from a neighbouring block: `message * carry - 1 - (carry - 1)`.
pub open spec fn radix_max_degree(message_modulus: int, carry_modulus: int) -> int {
    message_modulus * carry_modulus - 1 - (carry_modulus - 1)
}

/// The moduli are positive and their product fits a `u64`.
pub open spec fn valid_moduli(message_modulus: u64, carry_modulus: u64) -> bool {
    message_modulus >= 1 && carry_modulus >= 1 && message_modulus * carry_modulus <= u64::MAX
}

/// Computes `radix_max_degree`.
pub fn integer_radix_max_degree(message_modulus: u64, carry_modulus: u64) -> (r: u64)
    requires
        valid_moduli(message_modulus, carry_modulus),
    ensures
        r == radix_max_degree(message_modulus as int, carry_modulus as int),
{
    proof {
        assert(message_modulus * carry_modulus >= carry_modulus) by (nonlinear_arith)
            requires
                message_modulus >= 1,
                carry_modulus >= 1,
        ;
    }
    let full_max_degree: u64 = message_modulus * carry_modulus - 1;
    let carry_max_degree: u64 = carry_modulus - 1;
    full_max_degree - carry_max_degree
}

impl CudaBootstrappingKey {
    /// The key's coefficient buffer.
    pub open spec fn buffer(&self) -> Seq<u64> {
        match self {
            CudaBootstrappingKey::Classic(k) => k@,
            CudaBootstrappingKey::MultiBit { key, .. } => key@,
        }
    }
}

impl CudaServerKey {
    /// Whether the key's fields are those of a server key built from `cks`
    /// with `keys` and the given maximal degree.
    pub open spec fn built_from(
        &self,
        cks: ClientKeyParameters,
        keys: &ServerKeyMaterial,
        max_degree: u64,
    ) -> bool {
        &&& self.key_switching_key@ == keys.key_switching_key@
        &&& self.bootstrapping_key.buffer() == keys.bootstrapping_key@
        &&& match cks.pbs_kind {
            PbsKind::Classic => self.bootstrapping_key is Classic,
            PbsKind::MultiBit { grouping_factor } => self.bootstrapping_key matches CudaBootstrappingKey::MultiBit { grouping_factor: g, .. } && g == grouping_factor,
        }
        &&& self.message_modulus == cks.message_modulus
        &&& self.carry_modulus == cks.carry_modulus
        &&& self.max_degree == max_degree
        &&& self.max_noise_level == cks.max_noise_level
        &&& self.ciphertext_modulus == cks.ciphertext_modulus
        &&& self.pbs_order == pbs_order_of(cks.encryption_key_choice)
    }

    /// Builds a server key from a client key's parameters and the key buffers
    /// generated for it, leaving room for one carry in each radix block.
    pub fn new(cks: &ClientKeyParameters, keys: ServerKeyMaterial) -> (r: CudaServerKey)
        requires
            valid_moduli(cks.message_modulus, cks.carry_modulus),
            cks.encryption_key_choice == EncryptionKeyChoice::Big,
        ensures
            r.built_from(
                *cks,
                &keys,
                radix_max_degree(cks.message_modulus as int, cks.carry_modulus as int) as u64,
            ),
            r.pbs_order == PBSOrder::KeyswitchBootstrap,
    {
        let max_degree: u64 = integer_radix_max_degree(cks.message_modulus, cks.carry_modulus);
        Self::new_server_key_with_max_degree(cks, keys, max_degree)
    }

    pub(crate) fn new_server_key_with_max_degree(
        cks: &ClientKeyParameters,
        keys: ServerKeyMaterial,
        max_degree: u64,
    ) -> (r: CudaServerKey)
        requires
            cks.encryption_key_choice == EncryptionKeyChoice::Big,
        ensures
            r.built_from(*cks, &keys, max_degree),
    {
        let ghost key_buffers = (keys.key_switching_key@, keys.bootstrapping_key@);
        let ServerKeyMaterial { key_switching_key, bootstrapping_key } = keys;
        let bootstrapping_key = match cks.pbs_kind {
            PbsKind::Classic => CudaBootstrappingKey::Classic(bootstrapping_key),
            PbsKind::MultiBit { grouping_factor } => CudaBootstrappingKey::MultiBit {
                grouping_factor,
                key: bootstrapping_key,
            },
        };
        let pbs_order: PBSOrder = match cks.encryption_key_choice {
            EncryptionKeyChoice::Big => PBSOrder::KeyswitchBootstrap,
            EncryptionKeyChoice::Small => PBSOrder::BootstrapKeyswitch,
        };
        CudaServerKey {
            key_switching_key,
            bootstrapping_key,
            message_modulus: cks.message_modulus,
            carry_modulus: cks.carry_modulus,
            max_degree,
            max_noise_level: cks.max_noise_level,
            ciphertext_modulus: cks.ciphertext_modulus,
            pbs_order,
        }
    }

    /// Moves a compressed CPU server key to the device, given its key buffers
    /// as the FHE library decompressed them: moduli, bounds and order are kept,
    /// and the bootstrapping key keeps its flavour (and grouping factor).
    pub fn decompress_from_cpu(cpu_key: &CompressedServerKey, decompressed: ServerKeyMaterial) -> (r: CudaServerKey)
        ensures
            r.key_switching_key@ == decompressed.key_switching_key@,
            r.bootstrapping_key.buffer() == decompressed.bootstrapping_key@,
            match cpu_key.bootstrapping_key {
                CompressedBootstrappingKey::Classic(_) => r.bootstrapping_key is Classic,
                CompressedBootstrappingKey::MultiBit { grouping_factor, .. } => r.bootstrapping_key matches CudaBootstrappingKey::MultiBit { grouping_factor: g, .. } && g == grouping_factor,
            },
            r.message_modulus == cpu_key.message_modulus,
            r.carry_modulus == cpu_key.carry_modulus,
            r.max_degree == cpu_key.max_degree,
            r.max_noise_level == cpu_key.max_noise_level,
            r.ciphertext_modulus == cpu_key.ciphertext_modulus,
            r.pbs_order == cpu_key.pbs_order,
    {
        let ServerKeyMaterial { key_switching_key, bootstrapping_key } = decompressed;
        let bootstrapping_key = match &cpu_key.bootstrapping_key {
            CompressedBootstrappingKey::Classic(_) => CudaBootstrappingKey::Classic(bootstrapping_key),
            CompressedBootstrappingKey::MultiBit { grouping_factor, .. } => CudaBootstrappingKey::MultiBit {
                grouping_factor: *grouping_factor,
                key: bootstrapping_key,
            },
        };
        CudaServerKey {
            key_switching_key,
            bootstrapping_key,
            message_modulus: cpu_key.message_modulus,
            carry_modulus: cpu_key.carry_modulus,
            max_degree: cpu_key.max_degree,
            max_noise_level: cpu_key.max_noise_level,
            ciphertext_modulus: cpu_key.ciphertext_modulus,
            pbs_order: cpu_key.pbs_order,
        }
    }
}

} // verus!
