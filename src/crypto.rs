use vstd::prelude::*;
use crate::hashing::{from_le, le_bytes, lemma_from_le_bytes, pow256, push_u64_le, u64_le};
use chacha20poly1305::{AeadCore, AeadInPlace, KeyInit};
use tari_crypto::commitment::{ExtensionDegree, HomomorphicCommitmentFactory};
use tari_crypto::extended_range_proof::ExtendedRangeProofService;
use tari_crypto::keys::{PublicKey, SecretKey};
use tari_crypto::ristretto::bulletproofs_plus::{BulletproofsPlusService, RistrettoExtendedMask, RistrettoExtendedWitness};
use tari_crypto::ristretto::pedersen::extended_commitment_factory::ExtendedPedersenCommitmentFactory;
use tari_crypto::ristretto::pedersen::PedersenCommitment;
use tari_crypto::ristretto::{RistrettoPublicKey, RistrettoSecretKey};
use tari_crypto::tari_utilities::ByteArray;
use zeroize::Zeroize;

verus! {

#[verifier::external_type_specification]
#[verifier::external_body]
pub struct ExRistrettoSecretKey(tari_crypto::ristretto::RistrettoSecretKey);

#[verifier::external_type_specification]
#[verifier::external_body]
pub struct ExRistrettoPublicKey(tari_crypto::ristretto::RistrettoPublicKey);

#[verifier::external_type_specification]
#[verifier::external_body]
#[verifier::reject_recursive_types(P)]
pub struct ExHomomorphicCommitment<P>(tari_crypto::commitment::HomomorphicCommitment<P>);

/// The Blake2b-512 digest of a byte string.
pub uninterp spec fn blake2b_512_of(data: Seq<u8>) -> Seq<u8>;

/// XChaCha20-Poly1305 ciphertext of `plaintext` under `key`, `nonce` and
/// associated data `aad`.
pub uninterp spec fn aead_ciphertext_of(key: Seq<u8>, nonce: Seq<u8>, aad: Seq<u8>, plaintext: Seq<u8>) -> Seq<u8>;

/// XChaCha20-Poly1305 authentication tag of `plaintext` under `key`, `nonce`
/// and associated data `aad`.
pub uninterp spec fn aead_tag_of(key: Seq<u8>, nonce: Seq<u8>, aad: Seq<u8>, plaintext: Seq<u8>) -> Seq<u8>;

/// XChaCha20-Poly1305 plaintext of an authenticated `ciphertext`.
pub uninterp spec fn aead_plaintext_of(
    key: Seq<u8>,
    nonce: Seq<u8>,
    aad: Seq<u8>,
    ciphertext: Seq<u8>,
    tag: Seq<u8>,
) -> Seq<u8>;

/// Relies on `blake2::Blake2b<U64>` (via `digest::Digest::digest`): a 64-byte
/// digest that depends on the input bytes alone.
#[verifier::external_body]
pub(crate) fn blake2b_512(data: &Vec<u8>) -> (r: Vec<u8>)
    ensures
        r@ == blake2b_512_of(data@),
        r@.len() == 64,
{
    <blake2::Blake2b<digest::consts::U64> as digest::Digest>::digest(data.as_slice()).to_vec()
}


/// Relies on `ByteArray::as_bytes` for a commitment: its 32-byte compressed
/// point.
#[verifier::external_body]
pub(crate) fn commitment_bytes(c: &PedersenCommitment) -> (r: Vec<u8>)
    ensures
        r@.len() == 32,
        canonical_point_of(r@),
{
    c.as_bytes().to_vec()
}

/// Relies on `ByteArray::as_bytes` for a public key: its 32-byte compressed
/// point.
#[verifier::external_body]
pub(crate) fn public_key_bytes(p: &RistrettoPublicKey) -> (r: Vec<u8>)
    ensures
        r@.len() == 32,
        canonical_point_of(r@),
{
    p.as_bytes().to_vec()
}

/// Relies on `ByteArray::as_bytes` for a secret key: its 32-byte canonical
/// scalar.
#[verifier::external_body]
pub(crate) fn secret_key_bytes(k: &RistrettoSecretKey) -> (r: Vec<u8>)
    ensures
        r@.len() == 32,
        canonical_scalar_of(r@),
{
    k.as_bytes().to_vec()
}

/// Relies on `RistrettoSecretKey::from_canonical_bytes`: the scalar whose
/// canonical encoding is `bytes`, if it is one.
#[verifier::external_body]
pub(crate) fn secret_key_from_bytes(bytes: &Vec<u8>) -> (r: Option<RistrettoSecretKey>)
    ensures
        r is Some <==> canonical_scalar_of(bytes@),
{
    RistrettoSecretKey::from_canonical_bytes(bytes.as_slice()).ok()
}

/// Whether `bytes` is the canonical encoding of a Ristretto point.
pub uninterp spec fn canonical_point_of(bytes: Seq<u8>) -> bool;

/// Relies on `RistrettoPublicKey::from_canonical_bytes`: the point whose
/// canonical encoding is `bytes`, if it is one; never one of another length
/// than 32. Whether it is one depends on the bytes alone.
#[verifier::external_body]
pub(crate) fn public_key_from_bytes(bytes: &Vec<u8>) -> (r: Option<RistrettoPublicKey>)
    ensures
        r is Some <==> canonical_point_of(bytes@),
        bytes@.len() != 32 ==> r is None,
{
    RistrettoPublicKey::from_canonical_bytes(bytes.as_slice()).ok()
}

/// The order of the Ristretto group, `2^252 + 27742317777372353535851937790883648493`.
pub open spec fn group_order() -> nat {
    16 * pow256(31) + 27742317777372353535851937790883648493
}

/// Whether `bytes` is the canonical encoding of a Ristretto scalar: 32
/// little-endian bytes of a number below the group order.
pub open spec fn canonical_scalar_of(bytes: Seq<u8>) -> bool {
    bytes.len() == 32 && from_le(bytes) < group_order()
}

/// The encoding of `k·G`.
pub uninterp spec fn base_mul_of(k: Seq<u8>) -> Seq<u8>;

/// The encoding of `k·P`.
pub uninterp spec fn point_mul_of(k: Seq<u8>, p: Seq<u8>) -> Seq<u8>;

/// The encoding of `A + B`.
pub uninterp spec fn point_add_of(a: Seq<u8>, b: Seq<u8>) -> Seq<u8>;

/// The encoding of the Pedersen commitment `mask·G + value·H`.
pub uninterp spec fn commit_of(mask: Seq<u8>, value: Seq<u8>) -> Seq<u8>;

/// The encoding of the scalar `v`: its eight little-endian bytes, then zeros.
pub open spec fn scalar_of_u64(v: u64) -> Seq<u8> {
    u64_le(v) + Seq::new(24, |i: int| 0u8)
}

/// The encoding of the Schnorr response `e·secret + nonce` modulo the group
/// order, with `e` the 64-byte `challenge` read little-endian.
pub open spec fn schnorr_response_of(secret: Seq<u8>, nonce: Seq<u8>, challenge: Seq<u8>) -> Seq<u8> {
    le_bytes((from_le(challenge) * from_le(secret) + from_le(nonce)) % group_order(), 32)
}

/// Relies on `SecretKey::random` with the thread's generator: a uniformly
/// drawn scalar, as its canonical encoding.
#[verifier::external_body]
pub(crate) fn random_scalar() -> (r: Vec<u8>)
    ensures
        canonical_scalar_of(r@),
        r@.len() == 32,
{
    RistrettoSecretKey::random(&mut rand::rng()).as_bytes().to_vec()
}

/// The scalar `v`, as its canonical encoding.
pub(crate) fn scalar_from_u64(v: u64) -> (r: Vec<u8>)
    ensures
        r@ == scalar_of_u64(v),
        canonical_scalar_of(r@),
        r@.len() == 32,
{
    let mut out: Vec<u8> = Vec::new();
    push_u64_le(&mut out, v);
    let mut i: usize = 0;
    while i < 24
        invariant
            i <= 24,
            out@ == u64_le(v) + Seq::new(i as nat, |j: int| 0u8),
        decreases 24 - i,
    {
        out.push(0u8);
        assert(out@ =~= u64_le(v) + Seq::new((i + 1) as nat, |j: int| 0u8));
        i = i + 1;
    }
    proof {
        reveal_with_fuel(pow256, 9);
        lemma_from_le_bytes(v as nat, 8);
        lemma_from_le_zeros(u64_le(v), 24);
        assert(out@ =~= scalar_of_u64(v));
    }
    out
}

/// Trailing zero bytes do not change a little-endian number.
proof fn lemma_from_le_zeros(a: Seq<u8>, k: nat)
    ensures
        from_le(a + Seq::new(k, |i: int| 0u8)) == from_le(a),
    decreases a.len() + k,
{
    let z = Seq::new(k, |i: int| 0u8);
    if a.len() == 0 {
        assert(a + z =~= z);
        if k > 0 {
            assert(z.drop_first() =~= Seq::new((k - 1) as nat, |i: int| 0u8));
            lemma_from_le_zeros(a, (k - 1) as nat);
            assert(a + Seq::new((k - 1) as nat, |i: int| 0u8) =~= Seq::new((k - 1) as nat, |i: int| 0u8));
        }
    } else {
        assert((a + z).drop_first() =~= a.drop_first() + z);
        lemma_from_le_zeros(a.drop_first(), k);
    }
}

/// Relies on `PublicKey::from_secret_key`: the point `k·G`.
#[verifier::external_body]
pub(crate) fn base_mul(k: &Vec<u8>) -> (r: Vec<u8>)
    requires
        canonical_scalar_of(k@),
    ensures
        r@ == base_mul_of(k@),
        canonical_point_of(r@),
        r@.len() == 32,
{
    let k = RistrettoSecretKey::from_canonical_bytes(k).expect("a canonical scalar");
    RistrettoPublicKey::from_secret_key(&k).as_bytes().to_vec()
}

/// Relies on `Mul<&RistrettoPublicKey> for &RistrettoSecretKey`: the point `k·p`.
#[verifier::external_body]
pub(crate) fn point_mul(k: &Vec<u8>, p: &Vec<u8>) -> (r: Vec<u8>)
    requires
        canonical_scalar_of(k@),
        canonical_point_of(p@),
    ensures
        r@ == point_mul_of(k@, p@),
        canonical_point_of(r@),
        r@.len() == 32,
{
    let k = RistrettoSecretKey::from_canonical_bytes(k).expect("a canonical scalar");
    let p = RistrettoPublicKey::from_canonical_bytes(p).expect("a canonical point");
    (&k * &p).as_bytes().to_vec()
}

/// Relies on `Add for &RistrettoPublicKey`: the point `a + b`.
#[verifier::external_body]
pub(crate) fn point_add(a: &Vec<u8>, b: &Vec<u8>) -> (r: Vec<u8>)
    requires
        canonical_point_of(a@),
        canonical_point_of(b@),
    ensures
        r@ == point_add_of(a@, b@),
        canonical_point_of(r@),
        r@.len() == 32,
{
    let a = RistrettoPublicKey::from_canonical_bytes(a).expect("a canonical point");
    let b = RistrettoPublicKey::from_canonical_bytes(b).expect("a canonical point");
    (&a + &b).as_bytes().to_vec()
}

/// Relies on `PedersenCommitmentFactory::commit`: the commitment
/// `mask·G + value·H` for a value given as a scalar.
#[verifier::external_body]
pub(crate) fn commit_scalar(mask: &Vec<u8>, value: &Vec<u8>) -> (r: Vec<u8>)
    requires
        canonical_scalar_of(mask@),
        canonical_scalar_of(value@),
    ensures
        r@ == commit_of(mask@, value@),
        r@.len() == 32,
{
    let m = RistrettoSecretKey::from_canonical_bytes(mask).expect("a canonical scalar");
    let v = RistrettoSecretKey::from_canonical_bytes(value).expect("a canonical scalar");
    tari_crypto::ristretto::pedersen::commitment_factory::PedersenCommitmentFactory::default().commit(&m, &v).as_bytes().to_vec()
}

/// Relies on `RistrettoSchnorr::sign_raw_uniform`, which fails only on a
/// challenge that is not 64 bytes: the 32-byte response `e·secret + nonce`.
#[verifier::external_body]
pub(crate) fn schnorr_response(secret: &Vec<u8>, nonce: &Vec<u8>, challenge: &Vec<u8>) -> (r: Vec<u8>)
    requires
        canonical_scalar_of(secret@),
        canonical_scalar_of(nonce@),
        challenge@.len() == 64,
    ensures
        r@ == schnorr_response_of(secret@, nonce@, challenge@),
        r@.len() == 32,
{
    let k = RistrettoSecretKey::from_canonical_bytes(secret).expect("a canonical scalar");
    let n = RistrettoSecretKey::from_canonical_bytes(nonce).expect("a canonical scalar");
    let sig = tari_crypto::ristretto::RistrettoSchnorr::sign_raw_uniform(&k, n, challenge.as_slice()).expect("a 64-byte challenge");
    sig.get_signature().as_bytes().to_vec()
}

/// One opening that a range proof proves: mask, value, and the least value
/// promised.
pub struct RangeWitness {
    /// The canonical encoding of the mask.
    pub mask: Vec<u8>,
    pub value: u64,
    pub minimum_value_promise: u64,
}

/// Relies on `BulletproofsPlusService::construct_extended_proof` with 64-bit
/// ranges, aggregated over all the witnesses, each with a one-scalar mask. A
/// value below its promised minimum is refused (`RangeProof::prove`); the proof
/// is randomised and may fail on a degenerate challenge, so success and the
/// proof's bytes are not stated.
#[verifier::external_body]
pub(crate) fn construct_range_proof(witnesses: &Vec<RangeWitness>) -> (r: Result<Vec<u8>, ()>)
    requires
        witnesses@.len() > 0,
        forall|i: int| 0 <= i < witnesses@.len() ==> canonical_scalar_of(#[trigger] witnesses@[i].mask@),
    ensures
        (exists|i: int| 0 <= i < witnesses@.len() && #[trigger] witnesses@[i].value < witnesses@[i].minimum_value_promise)
            ==> r is Err,
{
    let service = BulletproofsPlusService::init(64, witnesses.len(), ExtendedPedersenCommitmentFactory::default()).map_err(|_| ())?;
    let mut extended = Vec::new();
    for w in witnesses.iter() {
        let k = RistrettoSecretKey::from_canonical_bytes(&w.mask).expect("a canonical scalar");
        let mask = RistrettoExtendedMask::assign(ExtensionDegree::DefaultPedersen, vec![k]).map_err(|_| ())?;
        extended.push(RistrettoExtendedWitness { mask, value: w.value, minimum_value_promise: w.minimum_value_promise });
    }
    service.construct_extended_proof(extended, None).map_err(|_| ())
}


/// Relies on `AeadCore::generate_nonce` for XChaCha20-Poly1305 with the
/// operating system's generator: 24 random bytes.
#[verifier::external_body]
pub(crate) fn random_nonce() -> (r: Vec<u8>)
    ensures
        r@.len() == 24,
{
    chacha20poly1305::XChaCha20Poly1305::generate_nonce(&mut chacha20poly1305::aead::OsRng).to_vec()
}

/// Relies on `XChaCha20Poly1305::encrypt_in_place_detached`: encrypts `buffer`
/// in place and returns the 16-byte tag.
#[verifier::external_body]
pub(crate) fn aead_encrypt(key: &Vec<u8>, nonce: &Vec<u8>, aad: &Vec<u8>, buffer: &mut Vec<u8>) -> (r: Result<Vec<u8>, ()>)
    requires
        key@.len() == 32,
        nonce@.len() == 24,
    ensures
        r is Ok ==> r->Ok_0@ == aead_tag_of(key@, nonce@, aad@, old(buffer)@),
        r is Ok ==> r->Ok_0@.len() == 16,
        r is Ok ==> final(buffer)@ == aead_ciphertext_of(key@, nonce@, aad@, old(buffer)@),
        old(buffer)@.len() < 0x1_0000 ==> r is Ok,
        final(buffer)@.len() == old(buffer)@.len(),
{
    let cipher = chacha20poly1305::XChaCha20Poly1305::new(chacha20poly1305::Key::from_slice(key.as_slice()));
    cipher.encrypt_in_place_detached(chacha20poly1305::XNonce::from_slice(nonce.as_slice()), aad.as_slice(), buffer.as_mut_slice())
        .map(|tag| tag.to_vec())
        .map_err(|_| ())
}

/// Relies on `XChaCha20Poly1305::decrypt_in_place_detached`: checks `tag` and,
/// where it authenticates the data, decrypts `buffer` in place. Data that the
/// same key, nonce and associated data encrypted (below the cipher's length
/// limit) always opens to its plaintext: the AEAD's correctness.
#[verifier::external_body]
pub(crate) fn aead_decrypt(key: &Vec<u8>, nonce: &Vec<u8>, aad: &Vec<u8>, buffer: &mut Vec<u8>, tag: &Vec<u8>) -> (r: Result<(), ()>)
    requires
        key@.len() == 32,
        nonce@.len() == 24,
        tag@.len() == 16,
    ensures
        r is Ok ==> final(buffer)@ == aead_plaintext_of(key@, nonce@, aad@, old(buffer)@, tag@),
        forall|p: Seq<u8>|
            p.len() < 0x1_0000 && old(buffer)@ == #[trigger] aead_ciphertext_of(key@, nonce@, aad@, p) && tag@
                == aead_tag_of(key@, nonce@, aad@, p) ==> r is Ok && final(buffer)@ == p,
        final(buffer)@.len() == old(buffer)@.len(),
{
    let cipher = chacha20poly1305::XChaCha20Poly1305::new(chacha20poly1305::Key::from_slice(key.as_slice()));
    cipher.decrypt_in_place_detached(chacha20poly1305::XNonce::from_slice(nonce.as_slice()), aad.as_slice(), buffer.as_mut_slice(),
        chacha20poly1305::Tag::from_slice(tag.as_slice()))
        .map_err(|_| ())
}

/// Relies on `Zeroize for Vec<u8>`: overwrites the bytes with zeros, then
/// empties the vector.
#[verifier::external_body]
pub(crate) fn zeroize_bytes(buffer: &mut Vec<u8>)
    ensures
        final(buffer)@.len() == 0,
{
    buffer.zeroize()
}

} // verus!
