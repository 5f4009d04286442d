use vstd::prelude::*;
use crate::block::{framed, push_framed};
use crate::crypto::{
    public_key_from_bytes,
    aead_ciphertext_of, aead_decrypt, aead_encrypt, aead_plaintext_of, aead_tag_of, blake2b_512,
    base_mul, base_mul_of, blake2b_512_of, canonical_point_of, canonical_scalar_of, commit_of,
    commit_scalar, commitment_bytes, construct_range_proof, point_add, point_add_of,
    point_mul, point_mul_of, public_key_bytes, random_nonce, random_scalar, scalar_from_u64,
    scalar_of_u64, schnorr_response, schnorr_response_of, secret_key_bytes, secret_key_from_bytes,
    zeroize_bytes,
    RangeWitness,
};
use crate::hashing::{
    blake2b_256, blake2b_256_of, copy_range, from_le, le_bytes, lemma_from_le_bytes, pow256,
    push_bytes, push_slice, push_u64_le, read_u64_le, u64_le,
};
use tari_crypto::ristretto::pedersen::PedersenCommitment;
use vstd::string::StringSliceAdditionalSpecFns;
use tari_crypto::ristretto::{RistrettoPublicKey, RistrettoSecretKey};

verus! {

pub const SIZE_TAG: usize = 16;
pub const SIZE_NONCE: usize = 24;
pub const SIZE_VALUE: usize = 8;
pub const SIZE_MASK: usize = 32;
/// Tag, nonce, value and mask.
pub const ENCRYPTED_DATA_MIN_SIZE: usize = 80;

/// Associated data of the encrypted value and mask.
pub const ENCRYPTED_DATA_TAG: &'static str = "TARI_AAD_VALUE_AND_MASK_EXTEND_NONCE_VARIANT";

/// Domain separation tag of the key that encrypts the value and mask.
pub const ENCRYPTED_DATA_KDF_TAG: &'static str = "com.tari.base_layer.core.transactions.secure_nonce_kdf.v0.encrypted_value_and_mask";

/// Domain separation tag of the viewable-balance challenge.
pub const VIEWABLE_BALANCE_CHALLENGE_TAG: &'static str = "com.tari.dan.confidential.viewable_balance_proof.v0.challenge";

/// Errors of building or opening confidential outputs.
#[derive(Debug, Clone, Copy, PartialEq, Eq)]
pub enum ConfidentialProofError {
    /// An amount is below zero.
    NegativeAmount,
    /// The range proof could not be built.
    RangeProofError,
    /// Encryption failed, or decryption did not authenticate.
    AeadError,
    /// A mask is not the canonical encoding of a scalar.
    InvalidMask,
    /// A view key is not the canonical encoding of a point.
    InvalidViewKey,
}

/// An encrypted value and mask: `tag(16) || nonce(24) || ciphertext`.
#[derive(Debug)]
pub struct EncryptedData {
    pub bytes: Vec<u8>,
}

impl Clone for EncryptedData {
    fn clone(&self) -> (r: Self)
        ensures
            r.bytes@ == self.bytes@,
    {
        EncryptedData { bytes: self.bytes.clone() }
    }
}

impl EncryptedData {
    pub open spec fn wf(&self) -> bool {
        self.bytes@.len() >= ENCRYPTED_DATA_MIN_SIZE
    }

    /// The encrypted data held in `bytes`, if it is long enough to hold a tag,
    /// a nonce, a value and a mask.
    pub fn from_bytes(bytes: Vec<u8>) -> (r: Option<Self>)
        ensures
            r is Some <==> bytes@.len() >= ENCRYPTED_DATA_MIN_SIZE,
            r is Some ==> r->Some_0.bytes@ == bytes@,
    {
        if bytes.len() >= ENCRYPTED_DATA_MIN_SIZE {
            Some(EncryptedData { bytes })
        } else {
            None
        }
    }

    pub fn tag_bytes(&self) -> (r: Vec<u8>)
        requires
            self.wf(),
        ensures
            r@ == self.bytes@.subrange(0, 16),
    {
        copy_range(&self.bytes, 0, SIZE_TAG)
    }

    pub fn nonce_bytes(&self) -> (r: Vec<u8>)
        requires
            self.wf(),
        ensures
            r@ == self.bytes@.subrange(16, 40),
    {
        copy_range(&self.bytes, SIZE_TAG, SIZE_TAG + SIZE_NONCE)
    }

    pub fn payload_bytes(&self) -> (r: Vec<u8>)
        requires
            self.wf(),
        ensures
            r@ == self.bytes@.subrange(40, self.bytes@.len() as int),
    {
        copy_range(&self.bytes, SIZE_TAG + SIZE_NONCE, self.bytes.len())
    }
}

/// The plaintext of the encrypted data: the value's eight little-endian bytes,
/// then the mask.
pub open spec fn value_and_mask_bytes(value: u64, mask: Seq<u8>) -> Seq<u8> {
    u64_le(value) + mask
}

pub fn encode_value_and_mask(value: u64, mask: &Vec<u8>) -> (r: Vec<u8>)
    ensures
        r@ == value_and_mask_bytes(value, mask@),
{
    let mut out: Vec<u8> = Vec::new();
    push_u64_le(&mut out, value);
    push_bytes(&mut out, mask);
    assert(out@ =~= value_and_mask_bytes(value, mask@));
    out
}

/// The value and mask held in a plaintext, if it is long enough.
pub fn decode_value_and_mask(payload: &Vec<u8>) -> (r: Option<(u64, Vec<u8>)>)
    ensures
        r is Some <==> payload@.len() >= 40,
        r is Some ==> r->Some_0.0 as nat == from_le(payload@.subrange(0, 8)) && r->Some_0.1@
            == payload@.subrange(8, 40),
{
    if payload.len() < SIZE_VALUE + SIZE_MASK {
        return None;
    }
    let value = read_u64_le(payload, 0);
    let mask = copy_range(payload, SIZE_VALUE, SIZE_VALUE + SIZE_MASK);
    Some((value, mask))
}

/// Decoding an encoded value and 32-byte mask gives them back.
pub proof fn lemma_value_and_mask_round_trip(value: u64, mask: Seq<u8>)
    requires
        mask.len() == 32,
    ensures
        from_le(value_and_mask_bytes(value, mask).subrange(0, 8)) == value,
        value_and_mask_bytes(value, mask).subrange(8, 40) == mask,
{
    reveal_with_fuel(pow256, 9);
    assert(pow256(8) == 0x1_0000_0000_0000_0000);
    lemma_from_le_bytes(value as nat, 8);
    assert(value_and_mask_bytes(value, mask).subrange(0, 8) =~= u64_le(value));
    assert(value_and_mask_bytes(value, mask).subrange(8, 40) =~= mask);
}

/// Encrypted data laid out as tag, nonce and ciphertext.
pub fn assemble_encrypted_data(tag: &Vec<u8>, nonce: &Vec<u8>, ciphertext: &Vec<u8>) -> (r: EncryptedData)
    ensures
        r.bytes@ == tag@ + nonce@ + ciphertext@,
{
    let mut out: Vec<u8> = Vec::new();
    push_bytes(&mut out, tag);
    push_bytes(&mut out, nonce);
    push_bytes(&mut out, ciphertext);
    assert(out@ =~= tag@ + nonce@ + ciphertext@);
    EncryptedData { bytes: out }
}

/// Splitting assembled encrypted data gives back its tag, nonce and
/// ciphertext.
pub proof fn lemma_layout_round_trip(tag: Seq<u8>, nonce: Seq<u8>, ciphertext: Seq<u8>)
    requires
        tag.len() == 16,
        nonce.len() == 24,
    ensures
        (tag + nonce + ciphertext).subrange(0, 16) == tag,
        (tag + nonce + ciphertext).subrange(16, 40) == nonce,
        (tag + nonce + ciphertext).subrange(40, (tag + nonce + ciphertext).len() as int) == ciphertext,
{
    assert((tag + nonce + ciphertext).subrange(0, 16) =~= tag);
    assert((tag + nonce + ciphertext).subrange(16, 40) =~= nonce);
    assert((tag + nonce + ciphertext).subrange(40, (tag + nonce + ciphertext).len() as int) =~= ciphertext);
}

/// The bytes the encryption key is derived from: the domain tag, the owner's
/// key and the commitment, each preceded by its length.
pub open spec fn kdf_preimage(key: Seq<u8>, commitment: Seq<u8>) -> Seq<u8> {
    framed(ENCRYPTED_DATA_KDF_TAG.spec_bytes()) + framed(key) + framed(commitment)
}

/// The 32-byte key that encrypts the value and mask of `commitment` for the
/// owner of `key`.
pub fn encrypted_data_key(key: &Vec<u8>, commitment: &Vec<u8>) -> (r: Vec<u8>)
    ensures
        r@ == blake2b_256_of(kdf_preimage(key@, commitment@)),
        r@.len() == 32,
{
    let mut out: Vec<u8> = Vec::new();
    let tag = ENCRYPTED_DATA_KDF_TAG.as_bytes();
    push_u64_le(&mut out, tag.len() as u64);
    push_slice(&mut out, tag);
    push_u64_le(&mut out, key.len() as u64);
    push_bytes(&mut out, key);
    push_u64_le(&mut out, commitment.len() as u64);
    push_bytes(&mut out, commitment);
    assert(out@ =~= kdf_preimage(key@, commitment@));
    blake2b_256(&out)
}

fn aad_bytes() -> (r: Vec<u8>)
    ensures
        r@ == ENCRYPTED_DATA_TAG.spec_bytes(),
{
    let mut out: Vec<u8> = Vec::new();
    push_slice(&mut out, ENCRYPTED_DATA_TAG.as_bytes());
    assert(out@ =~= ENCRYPTED_DATA_TAG.spec_bytes());
    out
}

/// `b` holds `value` and `mask` encrypted under `key`: its tag and ciphertext
/// are those of the plaintext under the nonce it carries.
pub open spec fn sealed(b: Seq<u8>, key: Seq<u8>, value: u64, mask: Seq<u8>) -> bool {
    let pt = value_and_mask_bytes(value, mask);
    let n = b.subrange(16, 40);
    let aad = ENCRYPTED_DATA_TAG.spec_bytes();
    &&& b.len() >= 40
    &&& b.subrange(0, 16) == aead_tag_of(key, n, aad, pt)
    &&& b.subrange(40, b.len() as int) == aead_ciphertext_of(key, n, aad, pt)
}

/// Encrypts `value` and the mask bytes under `aead_key` and `nonce`. The
/// buffer holding the plaintext is zeroed where encryption fails.
pub fn encrypt_with_key(aead_key: &Vec<u8>, nonce: &Vec<u8>, value: u64, mask: &Vec<u8>) -> (r: Result<
    EncryptedData,
    ConfidentialProofError,
>)
    requires
        aead_key@.len() == 32,
        nonce@.len() == 24,
    ensures
        r is Err ==> r == Err::<EncryptedData, _>(ConfidentialProofError::AeadError),
        mask@.len() == 32 ==> r is Ok,
        r is Ok ==> r->Ok_0.bytes@.len() == 16 + 24 + 8 + mask@.len(),
        r is Ok ==> sealed(r->Ok_0.bytes@, aead_key@, value, mask@) && r->Ok_0.bytes@.subrange(16, 40)
            == nonce@,
        r is Ok ==> ({
            let pt = value_and_mask_bytes(value, mask@);
            let aad = ENCRYPTED_DATA_TAG.spec_bytes();
            r->Ok_0.bytes@ == aead_tag_of(aead_key@, nonce@, aad, pt) + nonce@ + aead_ciphertext_of(
                aead_key@,
                nonce@,
                aad,
                pt,
            )
        }),
{
    let mut payload = encode_value_and_mask(value, mask);
    proof {
        reveal_with_fuel(le_bytes, 9);
    }
    let aad = aad_bytes();
    let ghost pt = payload@;
    match aead_encrypt(aead_key, nonce, &aad, &mut payload) {
        Ok(tag) => {
            let e = assemble_encrypted_data(&tag, nonce, &payload);
            proof {
                lemma_layout_round_trip(tag@, nonce@, payload@);
            }
            Ok(e)
        },
        Err(()) => {
            zeroize_bytes(&mut payload);
            Err(ConfidentialProofError::AeadError)
        },
    }
}

/// Encrypts `value` and the mask encoding for the owner of `encryption_key`
/// (a secret key's 32-byte encoding), under a key bound to the commitment's
/// encoding and a fresh random nonce.
pub fn encrypt_data(
    encryption_key: &Vec<u8>,
    commitment: &Vec<u8>,
    value: u64,
    mask: &Vec<u8>,
) -> (r: Result<EncryptedData, ConfidentialProofError>)
    ensures
        mask@.len() == 32 ==> r is Ok,
        r is Err ==> r == Err::<EncryptedData, _>(ConfidentialProofError::AeadError),
        r is Ok ==> sealed(r->Ok_0.bytes@, data_key_of(encryption_key@, commitment@), value, mask@),
        r is Ok ==> r->Ok_0.bytes@.len() == 16 + 24 + 8 + mask@.len(),
{
    let nonce = random_nonce();
    let aead_key = encrypted_data_key(encryption_key, commitment);
    encrypt_with_key(&aead_key, &nonce, value, mask)
}

/// The key that encrypts the value and mask of `commitment` for the owner of
/// `key`.
pub open spec fn data_key_of(key: Seq<u8>, commitment: Seq<u8>) -> Seq<u8> {
    blake2b_256_of(kdf_preimage(key, commitment))
}

/// Opens encrypted data with `aead_key`: the value and the mask bytes of the
/// authenticated plaintext.
pub fn decrypt_with_key(aead_key: &Vec<u8>, encrypted_data: &EncryptedData) -> (r: Result<
    (u64, Vec<u8>),
    ConfidentialProofError,
>)
    requires
        aead_key@.len() == 32,
        encrypted_data.wf(),
    ensures
        r is Err ==> r == Err::<(u64, Vec<u8>), _>(ConfidentialProofError::AeadError),
        r is Ok ==> ({
            let b = encrypted_data.bytes@;
            let pt = aead_plaintext_of(
                aead_key@,
                b.subrange(16, 40),
                ENCRYPTED_DATA_TAG.spec_bytes(),
                b.subrange(40, b.len() as int),
                b.subrange(0, 16),
            );
            &&& r->Ok_0.0 as nat == from_le(pt.subrange(0, 8))
            &&& r->Ok_0.1@ == pt.subrange(8, 40)
        }),
        forall|value: u64, mask: Seq<u8>|
            mask.len() == 32 && #[trigger] sealed(encrypted_data.bytes@, aead_key@, value, mask) ==> r is Ok
                && r->Ok_0.0 == value && r->Ok_0.1@ == mask,
{
    let tag = encrypted_data.tag_bytes();
    let nonce = encrypted_data.nonce_bytes();
    let mut payload = encrypted_data.payload_bytes();
    let aad = aad_bytes();
    let ghost ct = payload@;
    let aead_result = aead_decrypt(aead_key, &nonce, &aad, &mut payload, &tag);
    proof {
        assert forall|value: u64, mask: Seq<u8>|
            mask.len() == 32 && #[trigger] sealed(encrypted_data.bytes@, aead_key@, value, mask) implies aead_result is Ok
                && payload@ == value_and_mask_bytes(value, mask) by {
            reveal_with_fuel(le_bytes, 9);
            let p = value_and_mask_bytes(value, mask);
            assert(p.len() == 40);
            assert(ct == aead_ciphertext_of(aead_key@, nonce@, aad@, p));
        }
    }
    match aead_result {
        Ok(()) => {},
        Err(()) => {
            zeroize_bytes(&mut payload);
            return Err(ConfidentialProofError::AeadError);
        },
    }
    let r = decode_value_and_mask(&payload);
    proof {
        assert forall|value: u64, mask: Seq<u8>|
            mask.len() == 32 && #[trigger] sealed(encrypted_data.bytes@, aead_key@, value, mask) implies r is Some
                && r->Some_0.0 == value && r->Some_0.1@ == mask by {
            lemma_value_and_mask_round_trip(value, mask);
        }
    }
    zeroize_bytes(&mut payload);
    match r {
        Some(vm) => Ok(vm),
        None => Err(ConfidentialProofError::AeadError),
    }
}

/// Opens encrypted data for the owner of `encryption_key`: the value and the
/// mask encoding that were encrypted for `commitment`. A mask that is not a
/// canonical scalar is refused.
pub fn decrypt_data_and_mask(
    encryption_key: &Vec<u8>,
    commitment: &Vec<u8>,
    encrypted_data: &EncryptedData,
) -> (r: Result<(u64, Vec<u8>), ConfidentialProofError>)
    requires
        encrypted_data.wf(),
    ensures
        r is Err ==> r == Err::<(u64, Vec<u8>), _>(ConfidentialProofError::AeadError) || r == Err::<
            (u64, Vec<u8>),
            _,
        >(ConfidentialProofError::InvalidMask),
        r is Ok ==> canonical_scalar_of(r->Ok_0.1@),
        forall|value: u64, mask: Seq<u8>|
            mask.len() == 32 && canonical_scalar_of(mask) && #[trigger] sealed(
                encrypted_data.bytes@,
                data_key_of(encryption_key@, commitment@),
                value,
                mask,
            ) ==> r is Ok && r->Ok_0.0 == value && r->Ok_0.1@ == mask,
{
    let aead_key = encrypted_data_key(encryption_key, commitment);
    let (value, mut mask_bytes) = match decrypt_with_key(&aead_key, encrypted_data) {
        Ok(vm) => vm,
        Err(e) => {
            return Err(e);
        },
    };
    if secret_key_from_bytes(&mask_bytes).is_none() {
        zeroize_bytes(&mut mask_bytes);
        return Err(ConfidentialProofError::InvalidMask);
    }
    Ok((value, mask_bytes))
}

/// A proof that lets the holder of a view key read the amount of a commitment.
#[derive(Debug)]
pub struct ViewableBalanceProof {
    pub elgamal_encrypted: Vec<u8>,
    pub elgamal_public_nonce: Vec<u8>,
    pub c_prime: Vec<u8>,
    pub e_prime: Vec<u8>,
    pub r_prime: Vec<u8>,
    pub s_v: Vec<u8>,
    pub s_m: Vec<u8>,
    pub s_r: Vec<u8>,
}

impl ViewableBalanceProof {
    /// Every point and scalar is 32 bytes.
    pub open spec fn wf(&self) -> bool {
        &&& self.elgamal_encrypted@.len() == 32
        &&& self.elgamal_public_nonce@.len() == 32
        &&& self.c_prime@.len() == 32
        &&& self.e_prime@.len() == 32
        &&& self.r_prime@.len() == 32
        &&& self.s_v@.len() == 32
        &&& self.s_m@.len() == 32
        &&& self.s_r@.len() == 32
    }
}

/// The bytes the viewable-balance challenge hashes: the domain tag, then the
/// commitment, the view key, `E`, `R`, `C'`, `E'` and `R'`, each preceded by
/// its length.
pub open spec fn challenge_preimage(
    commitment: Seq<u8>,
    view_key: Seq<u8>,
    elgamal_encrypted: Seq<u8>,
    elgamal_public_nonce: Seq<u8>,
    c_prime: Seq<u8>,
    e_prime: Seq<u8>,
    r_prime: Seq<u8>,
) -> Seq<u8> {
    framed(VIEWABLE_BALANCE_CHALLENGE_TAG.spec_bytes()) + framed(commitment) + framed(view_key)
        + framed(elgamal_encrypted) + framed(elgamal_public_nonce) + framed(c_prime) + framed(e_prime)
        + framed(r_prime)
}

/// The 64-byte Fiat-Shamir challenge of a viewable-balance proof.
pub fn viewable_balance_proof_challenge64(
    commitment: &Vec<u8>,
    view_key: &Vec<u8>,
    elgamal_encrypted: &Vec<u8>,
    elgamal_public_nonce: &Vec<u8>,
    c_prime: &Vec<u8>,
    e_prime: &Vec<u8>,
    r_prime: &Vec<u8>,
) -> (r: Vec<u8>)
    ensures
        r@ == blake2b_512_of(
            challenge_preimage(
                commitment@,
                view_key@,
                elgamal_encrypted@,
                elgamal_public_nonce@,
                c_prime@,
                e_prime@,
                r_prime@,
            ),
        ),
        r@.len() == 64,
{
    let mut out: Vec<u8> = Vec::new();
    let tag = VIEWABLE_BALANCE_CHALLENGE_TAG.as_bytes();
    push_u64_le(&mut out, tag.len() as u64);
    push_slice(&mut out, tag);
    push_framed(&mut out, commitment);
    push_framed(&mut out, view_key);
    push_framed(&mut out, elgamal_encrypted);
    push_framed(&mut out, elgamal_public_nonce);
    push_framed(&mut out, c_prime);
    push_framed(&mut out, e_prime);
    push_framed(&mut out, r_prime);
    assert(out@ =~= challenge_preimage(
        commitment@,
        view_key@,
        elgamal_encrypted@,
        elgamal_public_nonce@,
        c_prime@,
        e_prime@,
        r_prime@,
    ));
    blake2b_512(&out)
}

/// `p` is the viewable-balance proof of a commitment `c` to `amount` with
/// mask `mask`, for view key `view_key`, built from the ElGamal nonce `r` and
/// the Sigma nonces `x_v`, `x_m`, `x_r`: `E = v·G + r·P`, `R = r·G`,
/// `C' = x_m·G + x_v·H`, `E' = x_v·G + x_r·P`, `R' = x_r·G`, the challenge `e`
/// over all of them, and the responses `s = e·secret + nonce`.
pub open spec fn is_viewable_proof(
    p: ViewableBalanceProof,
    mask: Seq<u8>,
    amount: u64,
    c: Seq<u8>,
    view_key: Seq<u8>,
    r: Seq<u8>,
    x_v: Seq<u8>,
    x_m: Seq<u8>,
    x_r: Seq<u8>,
) -> bool {
    let v = scalar_of_u64(amount);
    let e_point = point_add_of(base_mul_of(v), point_mul_of(r, view_key));
    let r_point = base_mul_of(r);
    let c_prime = commit_of(x_m, x_v);
    let e_prime = point_add_of(base_mul_of(x_v), point_mul_of(x_r, view_key));
    let r_prime = base_mul_of(x_r);
    let e = blake2b_512_of(challenge_preimage(c, view_key, e_point, r_point, c_prime, e_prime, r_prime));
    &&& p.elgamal_encrypted@ == e_point
    &&& p.elgamal_public_nonce@ == r_point
    &&& p.c_prime@ == c_prime
    &&& p.e_prime@ == e_prime
    &&& p.r_prime@ == r_prime
    &&& p.s_v@ == schnorr_response_of(v, x_v, e)
    &&& p.s_m@ == schnorr_response_of(mask, x_m, e)
    &&& p.s_r@ == schnorr_response_of(r, x_r, e)
}

/// The viewable-balance proof built from the given nonces.
pub fn viewable_balance_proof_from(
    mask: &Vec<u8>,
    output_amount: u64,
    commitment: &Vec<u8>,
    view_key: &Vec<u8>,
    r: &Vec<u8>,
    x_v: &Vec<u8>,
    x_m: &Vec<u8>,
    x_r: &Vec<u8>,
) -> (p: ViewableBalanceProof)
    requires
        canonical_scalar_of(mask@),
        canonical_point_of(view_key@),
        canonical_scalar_of(r@),
        canonical_scalar_of(x_v@),
        canonical_scalar_of(x_m@),
        canonical_scalar_of(x_r@),
    ensures
        p.wf(),
        is_viewable_proof(p, mask@, output_amount, commitment@, view_key@, r@, x_v@, x_m@, x_r@),
{
    let v = scalar_from_u64(output_amount);
    // E = v.G + r.P
    let elgamal_encrypted = point_add(&base_mul(&v), &point_mul(r, view_key));
    // R = r.G
    let elgamal_public_nonce = base_mul(r);
    // C' = x_m.G + x_v.H
    let c_prime = commit_scalar(x_m, x_v);
    // E' = x_v.G + x_r.P
    let e_prime = point_add(&base_mul(x_v), &point_mul(x_r, view_key));
    // R' = x_r.G
    let r_prime = base_mul(x_r);
    let e = viewable_balance_proof_challenge64(
        commitment,
        view_key,
        &elgamal_encrypted,
        &elgamal_public_nonce,
        &c_prime,
        &e_prime,
        &r_prime,
    );
    let s_v = schnorr_response(&v, x_v, &e);
    let s_m = schnorr_response(mask, x_m, &e);
    let s_r = schnorr_response(r, x_r, &e);
    ViewableBalanceProof { elgamal_encrypted, elgamal_public_nonce, c_prime, e_prime, r_prime, s_v, s_m, s_r }
}

/// Proves to the holder of `view_key` that `commitment` opens to
/// `output_amount`, with freshly drawn nonces.
pub fn create_viewable_balance_proof(
    mask: &RistrettoSecretKey,
    output_amount: u64,
    commitment: &PedersenCommitment,
    view_key: &RistrettoPublicKey,
) -> (p: ViewableBalanceProof)
    ensures
        p.wf(),
        exists|m: Seq<u8>, c: Seq<u8>, k: Seq<u8>, r: Seq<u8>, x_v: Seq<u8>, x_m: Seq<u8>, x_r: Seq<u8>|
            #[trigger] is_viewable_proof(p, m, output_amount, c, k, r, x_v, x_m, x_r),
{
    let r = random_scalar();
    let x_v = random_scalar();
    let x_m = random_scalar();
    let x_r = random_scalar();
    let mask_bytes = secret_key_bytes(mask);
    let view_key_bytes = public_key_bytes(view_key);
    let commitment_b = commitment_bytes(commitment);
    viewable_balance_proof_from(&mask_bytes, output_amount, &commitment_b, &view_key_bytes, &r, &x_v, &x_m, &x_r)
}

/// What the sender states of one confidential output.
pub struct ConfidentialProofStatement {
    pub amount: i64,
    pub minimum_value_promise: u64,
    /// The canonical encoding of the commitment's mask.
    pub mask: Vec<u8>,
    pub sender_public_nonce: RistrettoPublicKey,
    pub encrypted_data: EncryptedData,
    /// The canonical encoding of the resource's view key, if it has one.
    pub resource_view_key: Option<Vec<u8>>,
}

/// The statement's mask and view key are canonical encodings.
pub open spec fn keys_valid(s: Option<&ConfidentialProofStatement>) -> bool {
    s is Some ==> {
        &&& canonical_scalar_of(s->Some_0.mask@)
        &&& s->Some_0.resource_view_key is Some ==> canonical_point_of(s->Some_0.resource_view_key->Some_0@)
    }
}

/// The statement promises more than its amount.
pub open spec fn below_promise(s: Option<&ConfidentialProofStatement>) -> bool {
    s is Some && (s->Some_0.amount as u64) < s->Some_0.minimum_value_promise
}

fn check_keys(s: Option<&ConfidentialProofStatement>) -> (r: Result<(), ConfidentialProofError>)
    ensures
        r is Ok <==> keys_valid(s),
        r is Err ==> r == Err::<(), _>(ConfidentialProofError::InvalidMask) || r == Err::<(), _>(
            ConfidentialProofError::InvalidViewKey,
        ),
{
    match s {
        Some(stmt) => {
            if secret_key_from_bytes(&stmt.mask).is_none() {
                return Err(ConfidentialProofError::InvalidMask);
            }
            match &stmt.resource_view_key {
                Some(k) => {
                    if public_key_from_bytes(k).is_none() {
                        return Err(ConfidentialProofError::InvalidViewKey);
                    }
                },
                None => {},
            }
            Ok(())
        },
        None => Ok(()),
    }
}

/// One committed output as published.
#[derive(Debug)]
pub struct ConfidentialStatement {
    pub commitment: Vec<u8>,
    pub sender_public_nonce: Vec<u8>,
    pub encrypted_data: EncryptedData,
    pub minimum_value_promise: u64,
    pub viewable_balance_proof: Option<ViewableBalanceProof>,
}

/// The published outputs of a transfer with their aggregated range proof.
#[derive(Debug)]
pub struct ConfidentialOutputStatement {
    pub output_statement: Option<ConfidentialStatement>,
    pub change_statement: Option<ConfidentialStatement>,
    pub range_proof: Vec<u8>,
    pub output_revealed_amount: i64,
    pub change_revealed_amount: i64,
}

/// `out` publishes `stmt`: its 32-byte commitment and nonce, its encrypted
/// data and promise, and a viewable-balance proof exactly where it names a
/// view key.
pub open spec fn publishes(out: ConfidentialStatement, stmt: ConfidentialProofStatement) -> bool {
    &&& out.commitment@ == commit_of(stmt.mask@, scalar_of_u64(stmt.amount as u64))
    &&& out.sender_public_nonce@.len() == 32
    &&& out.encrypted_data.bytes@ == stmt.encrypted_data.bytes@
    &&& out.minimum_value_promise == stmt.minimum_value_promise
    &&& out.viewable_balance_proof is Some == stmt.resource_view_key is Some
    &&& out.viewable_balance_proof is Some ==> out.viewable_balance_proof->Some_0.wf()
    &&& out.viewable_balance_proof is Some ==> exists|r: Seq<u8>, x_v: Seq<u8>, x_m: Seq<u8>, x_r: Seq<u8>|
        #[trigger] is_viewable_proof(
            out.viewable_balance_proof->Some_0,
            stmt.mask@,
            stmt.amount as u64,
            out.commitment@,
            stmt.resource_view_key->Some_0@,
            r,
            x_v,
            x_m,
            x_r,
        )
}

pub open spec fn negative(s: Option<&ConfidentialProofStatement>) -> bool {
    s is Some && s->Some_0.amount < 0
}

fn publish(stmt: &ConfidentialProofStatement) -> (r: ConfidentialStatement)
    requires
        stmt.amount >= 0,
        keys_valid(Some(stmt)),
    ensures
        publishes(r, *stmt),
{
    let value = scalar_from_u64(stmt.amount as u64);
    let commitment = commit_scalar(&stmt.mask, &value);
    let viewable_balance_proof = match &stmt.resource_view_key {
        Some(view_key) => {
            let r = random_scalar();
            let x_v = random_scalar();
            let x_m = random_scalar();
            let x_r = random_scalar();
            Some(viewable_balance_proof_from(&stmt.mask, stmt.amount as u64, &commitment, view_key, &r, &x_v, &x_m, &x_r))
        },
        None => None,
    };
    ConfidentialStatement {
        commitment,
        sender_public_nonce: public_key_bytes(&stmt.sender_public_nonce),
        encrypted_data: stmt.encrypted_data.clone(),
        minimum_value_promise: stmt.minimum_value_promise,
        viewable_balance_proof,
    }
}

/// Builds the published form of an output and a change statement, each
/// optional, with one range proof aggregated over those present. A negative
/// amount is refused. With neither statement present the range proof is empty
/// and the call succeeds.
pub fn create_confidential_output_statement(
    output_statement: Option<&ConfidentialProofStatement>,
    output_revealed_amount: i64,
    change_statement: Option<&ConfidentialProofStatement>,
    change_revealed_amount: i64,
) -> (r: Result<ConfidentialOutputStatement, ConfidentialProofError>)
    ensures
        (negative(output_statement) || negative(change_statement)) <==> r == Err::<
            ConfidentialOutputStatement,
            _,
        >(ConfidentialProofError::NegativeAmount),
        !(negative(output_statement) || negative(change_statement)) ==> ((!keys_valid(output_statement)
            || !keys_valid(change_statement)) <==> (r == Err::<ConfidentialOutputStatement, _>(
            ConfidentialProofError::InvalidMask,
        ) || r == Err::<ConfidentialOutputStatement, _>(ConfidentialProofError::InvalidViewKey))),
        !(negative(output_statement) || negative(change_statement)) && keys_valid(output_statement)
            && keys_valid(change_statement) && (below_promise(output_statement) || below_promise(
            change_statement,
        )) ==> r == Err::<ConfidentialOutputStatement, _>(ConfidentialProofError::RangeProofError),
        r is Err ==> r == Err::<ConfidentialOutputStatement, _>(ConfidentialProofError::NegativeAmount)
            || r == Err::<ConfidentialOutputStatement, _>(ConfidentialProofError::InvalidMask) || r == Err::<
            ConfidentialOutputStatement,
            _,
        >(ConfidentialProofError::InvalidViewKey) || (r == Err::<ConfidentialOutputStatement, _>(
            ConfidentialProofError::RangeProofError,
        ) && (output_statement is Some || change_statement is Some)),
        (output_statement is None && change_statement is None) ==> r is Ok,
        r is Ok ==> ({
            let o = r->Ok_0;
            &&& o.output_statement is Some == output_statement is Some
            &&& o.change_statement is Some == change_statement is Some
            &&& output_statement is Some ==> publishes(o.output_statement->Some_0, *output_statement->Some_0)
            &&& change_statement is Some ==> publishes(o.change_statement->Some_0, *change_statement->Some_0)
            &&& (o.range_proof@.len() == 0 <== (output_statement is None && change_statement is None))
            &&& o.output_revealed_amount == output_revealed_amount
            &&& o.change_revealed_amount == change_revealed_amount
        }),
{
    let out_negative = match output_statement {
        Some(s) => s.amount < 0,
        None => false,
    };
    let change_negative = match change_statement {
        Some(s) => s.amount < 0,
        None => false,
    };
    if out_negative || change_negative {
        return Err(ConfidentialProofError::NegativeAmount);
    }
    match check_keys(output_statement) {
        Ok(()) => {},
        Err(e) => {
            return Err(e);
        },
    }
    match check_keys(change_statement) {
        Ok(()) => {},
        Err(e) => {
            return Err(e);
        },
    }
    let proof_output_statement = match output_statement {
        Some(s) => Some(publish(s)),
        None => None,
    };
    let proof_change_statement = match change_statement {
        Some(s) => Some(publish(s)),
        None => None,
    };
    let range_proof = match generate_extended_bullet_proof(output_statement, change_statement) {
        Ok(p) => p,
        Err(e) => {
            return Err(e);
        },
    };
    Ok(ConfidentialOutputStatement {
        output_statement: proof_output_statement,
        change_statement: proof_change_statement,
        range_proof,
        output_revealed_amount,
        change_revealed_amount,
    })
}

/// The aggregated range proof over the statements present, in the order
/// output then change: empty where neither is present.
fn generate_extended_bullet_proof(
    output_statement: Option<&ConfidentialProofStatement>,
    change_statement: Option<&ConfidentialProofStatement>,
) -> (r: Result<Vec<u8>, ConfidentialProofError>)
    requires
        !negative(output_statement),
        !negative(change_statement),
        keys_valid(output_statement),
        keys_valid(change_statement),
    ensures
        (output_statement is None && change_statement is None) ==> r is Ok && r->Ok_0@.len() == 0,
        (below_promise(output_statement) || below_promise(change_statement)) ==> r is Err,
        r is Err ==> r == Err::<Vec<u8>, _>(ConfidentialProofError::RangeProofError),
{
    if output_statement.is_none() && change_statement.is_none() {
        return Ok(Vec::new());
    }
    let witnesses = range_witnesses(output_statement, change_statement);
    proof {
        if below_promise(output_statement) {
            assert(witnesses@[0].value < witnesses@[0].minimum_value_promise);
        }
        if below_promise(change_statement) {
            let last = witnesses@.len() - 1;
            assert(witnesses@[last].value < witnesses@[last].minimum_value_promise);
        }
    }
    match construct_range_proof(&witnesses) {
        Ok(p) => Ok(p),
        Err(()) => Err(ConfidentialProofError::RangeProofError),
    }
}

/// `w` is what the range proof proves of `s`: its mask, amount and promise.
pub open spec fn witness_for(w: RangeWitness, s: ConfidentialProofStatement) -> bool {
    w.mask@ == s.mask@ && w.value == s.amount as u64 && w.minimum_value_promise == s.minimum_value_promise
}

/// The witnesses a range proof is built over: one for each statement
/// present, the output's first, then the change's.
pub fn range_witnesses(
    output_statement: Option<&ConfidentialProofStatement>,
    change_statement: Option<&ConfidentialProofStatement>,
) -> (r: Vec<RangeWitness>)
    requires
        !negative(output_statement),
        !negative(change_statement),
        keys_valid(output_statement),
        keys_valid(change_statement),
    ensures
        forall|i: int| 0 <= i < r@.len() ==> canonical_scalar_of(#[trigger] r@[i].mask@),
        r@.len() == (if output_statement is Some { 1int } else { 0int }) + (if change_statement is Some {
            1int
        } else {
            0int
        }),
        output_statement is Some ==> witness_for(r@[0], *output_statement->Some_0),
        change_statement is Some ==> witness_for(r@[r@.len() - 1], *change_statement->Some_0),
{
    let mut witnesses: Vec<RangeWitness> = Vec::new();
    match output_statement {
        Some(s) => witnesses.push(witness_of(s)),
        None => {},
    }
    match change_statement {
        Some(s) => witnesses.push(witness_of(s)),
        None => {},
    }
    witnesses
}

/// What the range proof proves of a statement.
fn witness_of(s: &ConfidentialProofStatement) -> (r: RangeWitness)
    requires
        s.amount >= 0,
    ensures
        witness_for(r, *s),
{
    RangeWitness { mask: s.mask.clone(), value: s.amount as u64, minimum_value_promise: s.minimum_value_promise }
}

} // verus!
