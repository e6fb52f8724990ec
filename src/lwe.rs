//! LWE secret keys and ciphertexts over the native `u64` torus: decryption,
//! encryption from given randomness, and multiplication by a cleartext.

use vstd::prelude::*;
use vstd::arithmetic::div_mod::{
    lemma_add_mod_noop,
    lemma_sub_mod_noop,
    lemma_mul_mod_noop_left,
    lemma_mul_mod_noop_right,
};
use vstd::arithmetic::mul::{lemma_mul_is_distributive_add, lemma_mul_is_distributive_sub};
use crate::encoding::torus_modulus;
use crate::codec::{CodecError, deserialize_words, holds_words, seq_bytes, serialize_words, words_of};

verus! {

/// `sum_{i < n} a[i] * b[i]` over the integers.
pub open spec fn dot_upto(a: Seq<u64>, b: Seq<u64>, n: nat) -> int
    decreases n,
{
    if n == 0 {
        0
    } else {
        dot_upto(a, b, (n - 1) as nat) + (a[n - 1] as int) * (b[n - 1] as int)
    }
}

/// The phase of ciphertext `ct` (mask followed by body) under key `sk`:
/// `body - <mask, sk>` modulo `2^64`.
pub open spec fn decrypted(sk: Seq<u64>, ct: Seq<u64>) -> int {
    (ct.last() as int - dot_upto(ct, sk, sk.len())) % torus_modulus()
}

/// Every coefficient of `s` multiplied by `c`, modulo `2^64`.
pub open spec fn scaled(s: Seq<u64>, c: u64) -> Seq<u64> {
    s.map_values(|x: u64| ((x as int * c as int) % torus_modulus()) as u64)
}

/// An LWE secret key: its coefficient vector, whose length is the LWE dimension.
pub struct LweSecretKey {
    pub data: Vec<u64>,
}

/// An LWE ciphertext: the mask coefficients followed by the body.
pub struct LweCiphertext {
    pub data: Vec<u64>,
}

/// Whether `b` decodes to a ciphertext: a coefficient vector holding at least the body.
pub open spec fn decodes_ciphertext(b: Seq<u8>) -> bool {
    holds_words(b) && words_of(b).len() >= 1
}

impl LweSecretKey {
    /// Encodes the coefficients.
    pub fn to_bytes(&self) -> (r: Vec<u8>)
        ensures
            r@ == seq_bytes(self.data@),
    {
        serialize_words(&self.data)
    }

    /// Decodes a key written by `to_bytes`.
    pub fn from_bytes(b: &[u8]) -> (r: Result<LweSecretKey, CodecError>)
        ensures
            r is Ok <==> holds_words(b@),
            r matches Ok(k) ==> k.data@ == words_of(b@),
    {
        match deserialize_words(b) {
            Ok(data) => Ok(LweSecretKey { data }),
            Err(e) => Err(e),
        }
    }

    pub fn lwe_dimension(&self) -> (r: usize)
        ensures
            r == self.data@.len(),
    {
        self.data.len()
    }
}

impl LweCiphertext {
    /// A ciphertext holds at least its body.
    pub open spec fn wf(&self) -> bool {
        self.data@.len() >= 1
    }

    /// A ciphertext of `lwe_size` coefficients, each equal to `fill`.
    pub fn new(fill: u64, lwe_size: usize) -> (r: LweCiphertext)
        requires
            lwe_size >= 1,
        ensures
            r.wf(),
            r.data@ == Seq::new(lwe_size as nat, |i: int| fill),
    {
        let mut data: Vec<u64> = Vec::new();
        let mut i: usize = 0;
        while i < lwe_size
            invariant
                i <= lwe_size,
                data@ == Seq::new(i as nat, |j: int| fill),
            decreases lwe_size - i,
        {
            data.push(fill);
            i = i + 1;
        }
        LweCiphertext { data }
    }

    /// Encodes the coefficients, mask then body.
    pub fn to_bytes(&self) -> (r: Vec<u8>)
        ensures
            r@ == seq_bytes(self.data@),
    {
        serialize_words(&self.data)
    }

    /// Decodes a ciphertext written by `to_bytes`; one without a body is malformed.
    pub fn from_bytes(b: &[u8]) -> (r: Result<LweCiphertext, CodecError>)
        ensures
            r is Ok <==> decodes_ciphertext(b@),
            r matches Ok(c) ==> c.wf() && c.data@ == words_of(b@),
            r == Err::<LweCiphertext, _>(CodecError::Truncated) <==> !holds_words(b@),
            r == Err::<LweCiphertext, _>(CodecError::Malformed) <==> holds_words(b@) && words_of(
                b@,
            ).len() == 0,
    {
        match deserialize_words(b) {
            Ok(data) => {
                if data.len() == 0 {
                    Err(CodecError::Malformed)
                } else {
                    Ok(LweCiphertext { data })
                }
            },
            Err(e) => Err(e),
        }
    }

    /// The number of mask coefficients.
    pub fn lwe_dimension(&self) -> (r: usize)
        requires
            self.wf(),
        ensures
            r == self.data@.len() - 1,
    {
        self.data.len() - 1
    }
}

proof fn lemma_wrapping_add(x: u64, y: u64)
    ensures
        vstd::wrapping::u64_specs::wrapping_add(x, y) == (x as int + y as int) % torus_modulus(),
{
}

proof fn lemma_wrapping_sub(x: u64, y: u64)
    ensures
        vstd::wrapping::u64_specs::wrapping_sub(x, y) == (x as int - y as int) % torus_modulus(),
{
}

/// `<a[..n], b[..n]>` modulo `2^64`, computed with wrapping arithmetic.
fn wrapping_dot(a: &Vec<u64>, b: &Vec<u64>, n: usize) -> (r: u64)
    requires
        n <= a@.len(),
        n <= b@.len(),
    ensures
        r == dot_upto(a@, b@, n as nat) % torus_modulus(),
{
    let mut acc: u64 = 0;
    let mut i: usize = 0;
    while i < n
        invariant
            i <= n,
            n <= a@.len(),
            n <= b@.len(),
            acc == dot_upto(a@, b@, i as nat) % torus_modulus(),
        decreases n - i,
    {
        let p: u64 = a[i].wrapping_mul(b[i]);
        let next: u64 = acc.wrapping_add(p);
        proof {
            let m = torus_modulus();
            let d = dot_upto(a@, b@, i as nat);
            let t = (a@[i as int] as int) * (b@[i as int] as int);
            lemma_wrapping_add(acc, p);
            lemma_add_mod_noop(d, t, m);
            assert(dot_upto(a@, b@, (i + 1) as nat) == d + t);
        }
        acc = next;
        i = i + 1;
    }
    acc
}

/// Decrypts `ct` under `sk`: `body - <mask, sk>` with wrapping arithmetic.
pub fn decrypt_lwe_ciphertext(sk: &LweSecretKey, ct: &LweCiphertext) -> (r: u64)
    requires
        ct.wf(),
        sk.data@.len() + 1 == ct.data@.len(),
    ensures
        r == decrypted(sk.data@, ct.data@),
{
    let n: usize = sk.data.len();
    let d: u64 = wrapping_dot(&ct.data, &sk.data, n);
    let body: u64 = ct.data[n];
    proof {
        let m = torus_modulus();
        lemma_wrapping_sub(body, d);
        lemma_sub_mod_noop(body as int, dot_upto(ct.data@, sk.data@, n as nat), m);
        assert((body as int) % m == body as int);
    }
    body.wrapping_sub(d)
}

/// Encrypts `plaintext` under `sk` with the given mask and noise: the body is
/// `<mask, sk> + plaintext + noise` modulo `2^64`.
pub fn encrypt_lwe_ciphertext_with(
    sk: &LweSecretKey,
    mask: Vec<u64>,
    noise: u64,
    plaintext: u64,
) -> (r: LweCiphertext)
    requires
        mask@.len() == sk.data@.len(),
    ensures
        r.wf(),
        r.data@.len() == mask@.len() + 1,
        r.data@.drop_last() == mask@,
        decrypted(sk.data@, r.data@) == (plaintext as int + noise as int) % torus_modulus(),
{
    let n: usize = sk.data.len();
    let d: u64 = wrapping_dot(&mask, &sk.data, n);
    let body: u64 = d.wrapping_add(plaintext).wrapping_add(noise);
    let mut data: Vec<u64> = mask;
    let ghost mask_s = data@;
    data.push(body);
    proof {
        let m = torus_modulus();
        let dd = dot_upto(mask_s, sk.data@, n as nat);
        lemma_dot_prefix(mask_s, data@, sk.data@, n as nat);
        lemma_wrapping_add(d, plaintext);
        lemma_wrapping_add(d.wrapping_add(plaintext), noise);
        lemma_add_mod_noop(dd, plaintext as int, m);
        assert((plaintext as int) % m == plaintext as int);
        assert((noise as int) % m == noise as int);
        lemma_add_mod_noop(dd + plaintext, noise as int, m);
        lemma_sub_mod_noop(body as int, dd, m);
        lemma_sub_mod_noop(dd + plaintext + noise, dd, m);
        assert(data@.drop_last() =~= mask_s);
    }
    LweCiphertext { data }
}

proof fn lemma_dot_prefix(a: Seq<u64>, a2: Seq<u64>, b: Seq<u64>, n: nat)
    requires
        n <= a.len(),
        n <= a2.len(),
        forall|i: int| 0 <= i < n ==> a[i] == a2[i],
    ensures
        dot_upto(a, b, n) == dot_upto(a2, b, n),
    decreases n,
{
    if n > 0 {
        lemma_dot_prefix(a, a2, b, (n - 1) as nat);
    }
}

/// Multiplies every coefficient of `input` by `cleartext` (wrapping) into `output`.
pub fn lwe_ciphertext_cleartext_mul(output: &mut LweCiphertext, input: &LweCiphertext, cleartext: u64)
    requires
        old(output).data@.len() == input.data@.len(),
    ensures
        final(output).data@ == scaled(input.data@, cleartext),
{
    let n: usize = input.data.len();
    let mut i: usize = 0;
    while i < n
        invariant
            i <= n,
            n == input.data@.len(),
            output.data@.len() == n,
            forall|j: int| 0 <= j < i ==> output.data@[j] == scaled(input.data@, cleartext)[j],
        decreases n - i,
    {
        let v: u64 = input.data[i].wrapping_mul(cleartext);
        output.data.set(i, v);
        i = i + 1;
    }
    assert(output.data@ =~= scaled(input.data@, cleartext));
}

proof fn lemma_dot_scaled(ct: Seq<u64>, sk: Seq<u64>, c: u64, n: nat)
    requires
        n <= ct.len(),
        n <= sk.len(),
    ensures
        dot_upto(scaled(ct, c), sk, n) % torus_modulus() == (c * dot_upto(ct, sk, n)) % torus_modulus(),
    decreases n,
{
    let m = torus_modulus();
    if n > 0 {
        let k = (n - 1) as nat;
        lemma_dot_scaled(ct, sk, c, k);
        let d = dot_upto(ct, sk, k);
        let d2 = dot_upto(scaled(ct, c), sk, k);
        let x = ct[k as int] as int;
        let s = sk[k as int] as int;
        let x2 = scaled(ct, c)[k as int] as int;
        assert(x * c == c * x) by (nonlinear_arith);
        assert(0 <= (x * c) % m < m);
        assert(x2 == (c * x) % m);
        lemma_add_mod_noop(d2, x2 * s, m);
        lemma_mul_mod_noop_left(c * x, s, m);
        lemma_add_mod_noop(c * d, c * x * s, m);
        lemma_mul_is_distributive_add(c as int, d, x * s);
        assert(c * x * s == c * (x * s)) by (nonlinear_arith);
    }
}

/// Multiplying a ciphertext by a cleartext multiplies its phase by that cleartext,
/// modulo `2^64`.
pub proof fn lemma_cleartext_mul_decrypts(sk: Seq<u64>, ct: Seq<u64>, c: u64)
    requires
        ct.len() == sk.len() + 1,
    ensures
        decrypted(sk, scaled(ct, c)) == (c * decrypted(sk, ct)) % torus_modulus(),
{
    let m = torus_modulus();
    let n = sk.len();
    let body = ct.last() as int;
    let body2 = scaled(ct, c).last() as int;
    let d = dot_upto(ct, sk, n);
    let d2 = dot_upto(scaled(ct, c), sk, n);
    lemma_dot_scaled(ct, sk, c, n);
    assert(body2 == (c * body) % m);
    lemma_sub_mod_noop(body2, d2, m);
    lemma_sub_mod_noop(c * body, c * d, m);
    assert(body2 % m == body2);
    lemma_mul_is_distributive_sub(c as int, body, d);
    lemma_mul_mod_noop_right(c as int, body - d, m);
}

} // verus!
