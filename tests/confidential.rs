use tari_crypto::hashing::{DomainSeparatedHasher, DomainSeparation};
use tari_crypto::commitment::{HomomorphicCommitment, HomomorphicCommitmentFactory};
use tari_crypto::extended_range_proof::{AggregatedPublicStatement, ExtendedRangeProofService, Statement};
use tari_crypto::keys::{PublicKey, SecretKey};
use tari_crypto::ristretto::bulletproofs_plus::BulletproofsPlusService;
use tari_crypto::ristretto::pedersen::commitment_factory::PedersenCommitmentFactory;
use tari_crypto::ristretto::pedersen::extended_commitment_factory::ExtendedPedersenCommitmentFactory;
use tari_crypto::ristretto::pedersen::PedersenCommitment;
use tari_crypto::ristretto::{RistrettoPublicKey, RistrettoSecretKey};
use tari_crypto::tari_utilities::ByteArray;
use tari_dan_core::confidential::{
    assemble_encrypted_data, create_confidential_output_statement, create_viewable_balance_proof,
    decode_value_and_mask, decrypt_data_and_mask, decrypt_with_key, encode_value_and_mask, encrypt_data,
    encrypt_with_key, encrypted_data_key, viewable_balance_proof_challenge64, viewable_balance_proof_from, ConfidentialOutputStatement,
    ConfidentialProofError, ConfidentialProofStatement, EncryptedData,
};

fn random_key() -> RistrettoSecretKey {
    RistrettoSecretKey::random(&mut rand::rng())
}

fn statement(amount: i64, minimum_value_promise: u64, mask: RistrettoSecretKey) -> ConfidentialProofStatement {
    ConfidentialProofStatement {
        amount,
        minimum_value_promise,
        mask: mask.as_bytes().to_vec(),
        sender_public_nonce: RistrettoPublicKey::default(),
        encrypted_data: EncryptedData::from_bytes(vec![0; 80]).unwrap(),
        resource_view_key: None,
    }
}

fn create_valid_proof(amount: i64, minimum_value_promise: u64) -> ConfidentialOutputStatement {
    let mask = random_key();
    create_confidential_output_statement(Some(&statement(amount, minimum_value_promise, mask)), 0, None, 0).unwrap()
}

fn validate_confidential_proof(proof: &ConfidentialOutputStatement) -> Result<(), String> {
    let mut statements = Vec::new();
    for s in [&proof.output_statement, &proof.change_statement].into_iter().flatten() {
        statements.push(Statement {
            commitment: HomomorphicCommitment::from_canonical_bytes(&s.commitment).map_err(|e| e.to_string())?,
            minimum_value_promise: s.minimum_value_promise,
        });
    }
    if statements.is_empty() {
        return if proof.range_proof.is_empty() { Ok(()) } else { Err("unexpected proof".to_string()) };
    }
    let service = BulletproofsPlusService::init(64, statements.len(), ExtendedPedersenCommitmentFactory::default())
        .map_err(|e| e.to_string())?;
    let aggregated = AggregatedPublicStatement::init(statements).map_err(|e| e.to_string())?;
    service.verify_batch(vec![&proof.range_proof], vec![&aggregated]).map_err(|e| e.to_string())
}

fn commit(mask: &RistrettoSecretKey, value: u64) -> PedersenCommitment {
    PedersenCommitmentFactory::default().commit_value(mask, value)
}

#[test]
fn it_is_valid_if_proof_is_valid() {
    let proof = create_valid_proof(100, 0);
    validate_confidential_proof(&proof).unwrap();
}

#[test]
fn it_is_invalid_if_minimum_value_changed() {
    let mut proof = create_valid_proof(100, 100);
    proof.output_statement.as_mut().unwrap().minimum_value_promise = 99;
    validate_confidential_proof(&proof).unwrap_err();
    proof.output_statement.as_mut().unwrap().minimum_value_promise = 1000;
    validate_confidential_proof(&proof).unwrap_err();
}

#[test]
fn it_encrypts_and_decrypts() {
    let key = random_key();
    let amount = 100;
    let commitment = commit(&key, amount);
    let mask = random_key();
    let encrypted = encrypt_data(&bytes(&key), &bytes(&commitment), amount, &bytes(&mask)).unwrap();

    let val = decrypt_data_and_mask(&bytes(&key), &bytes(&commitment), &encrypted).unwrap();
    assert_eq!(val.0, 100);
}

fn bytes<T: ByteArray>(x: &T) -> Vec<u8> {
    x.as_bytes().to_vec()
}

#[test]
fn commitment_opens_to_amount_and_range_proof_verifies() {
    let mask = random_key();
    let change_mask = random_key();
    let out = create_confidential_output_statement(
        Some(&statement(250, 10, mask.clone())),
        5,
        Some(&statement(40, 0, change_mask.clone())),
        6,
    )
    .unwrap();
    let o = out.output_statement.as_ref().unwrap();
    let c = out.change_statement.as_ref().unwrap();
    assert_eq!(o.commitment, commit(&mask, 250).as_bytes().to_vec());
    assert_eq!(c.commitment, commit(&change_mask, 40).as_bytes().to_vec());
    assert_ne!(o.commitment, commit(&mask, 251).as_bytes().to_vec());
    assert_eq!(o.minimum_value_promise, 10);
    assert_eq!(out.output_revealed_amount, 5);
    assert_eq!(out.change_revealed_amount, 6);
    assert!(o.viewable_balance_proof.is_none());
    assert!(!out.range_proof.is_empty());
    validate_confidential_proof(&out).unwrap();
}

#[test]
fn zero_statements_give_an_empty_range_proof() {
    let out = create_confidential_output_statement(None, 7, None, 8).unwrap();
    assert!(out.range_proof.is_empty());
    assert!(out.output_statement.is_none());
    assert!(out.change_statement.is_none());
    assert_eq!(out.output_revealed_amount, 7);
    assert_eq!(out.change_revealed_amount, 8);
}

#[test]
fn negative_amount_is_refused() {
    let r = create_confidential_output_statement(Some(&statement(-1, 0, random_key())), 0, None, 0);
    assert!(matches!(r, Err(ConfidentialProofError::NegativeAmount)));
    let r = create_confidential_output_statement(None, 0, Some(&statement(-5, 0, random_key())), 0);
    assert!(matches!(r, Err(ConfidentialProofError::NegativeAmount)));
}

#[test]
fn encrypted_value_and_mask_round_trip_and_tamper() {
    let key = bytes(&random_key());
    let mask = random_key();
    let commitment = bytes(&commit(&mask, 100));
    let encrypted = encrypt_data(&key, &commitment, 100, &bytes(&mask)).unwrap();
    assert_eq!(encrypted.bytes.len(), 80);

    let (value, recovered) = decrypt_data_and_mask(&key, &commitment, &encrypted).unwrap();
    assert_eq!(value, 100);
    assert_eq!(recovered, bytes(&mask));

    // Flip the first byte of the ciphertext.
    let mut tampered = encrypted.bytes.clone();
    tampered[40] ^= 1;
    let tampered = EncryptedData::from_bytes(tampered).unwrap();
    assert!(matches!(
        decrypt_data_and_mask(&key, &commitment, &tampered),
        Err(ConfidentialProofError::AeadError)
    ));

    // A flipped bit in the tag or the nonce fails too.
    for at in [0usize, 20, 79] {
        let mut b = encrypted.bytes.clone();
        b[at] ^= 0x80;
        let b = EncryptedData::from_bytes(b).unwrap();
        assert!(decrypt_data_and_mask(&key, &commitment, &b).is_err());
    }

    // Another key, or another commitment, does not open it.
    assert!(decrypt_data_and_mask(&bytes(&random_key()), &commitment, &encrypted).is_err());
    assert!(decrypt_data_and_mask(&key, &bytes(&commit(&mask, 101)), &encrypted).is_err());

    // A mask that is not a canonical scalar is refused after decryption.
    let bad = encrypt_data(&key, &commitment, 5, &vec![0xFF; 32]).unwrap();
    assert!(matches!(decrypt_data_and_mask(&key, &commitment, &bad), Err(ConfidentialProofError::InvalidMask)));
}

#[test]
fn encryption_with_given_key_and_nonce_lays_out_tag_nonce_ciphertext() {
    let aead_key = vec![7u8; 32];
    let nonce: Vec<u8> = (0..24).collect();
    let mask = vec![9u8; 32];
    let e = encrypt_with_key(&aead_key, &nonce, 0x0102030405060708, &mask).unwrap();
    assert_eq!(e.bytes.len(), 80);
    assert_eq!(&e.bytes[16..40], nonce.as_slice());
    // The payload is encrypted: it is not the plaintext.
    assert_ne!(e.bytes[40..].to_vec(), encode_value_and_mask(0x0102030405060708, &mask));
    let (v, m) = decrypt_with_key(&aead_key, &e).unwrap();
    assert_eq!(v, 0x0102030405060708);
    assert_eq!(m, mask);
    assert!(matches!(decrypt_with_key(&vec![8u8; 32], &e), Err(ConfidentialProofError::AeadError)));
}

#[test]
fn value_and_mask_encoding() {
    let mask: Vec<u8> = (100..132).collect();
    let bytes = encode_value_and_mask(0x1122334455667788, &mask);
    assert_eq!(&bytes[..8], &[0x88, 0x77, 0x66, 0x55, 0x44, 0x33, 0x22, 0x11]);
    assert_eq!(&bytes[8..], mask.as_slice());
    assert_eq!(decode_value_and_mask(&bytes), Some((0x1122334455667788, mask.clone())));
    assert_eq!(decode_value_and_mask(&bytes[..39].to_vec()), None);
}

#[test]
fn encrypted_data_layout() {
    let e = assemble_encrypted_data(&vec![1; 16], &vec![2; 24], &vec![3; 40]);
    assert_eq!(e.bytes.len(), 80);
    assert_eq!(e.tag_bytes(), vec![1; 16]);
    assert_eq!(e.nonce_bytes(), vec![2; 24]);
    assert_eq!(e.payload_bytes(), vec![3; 40]);
    assert!(EncryptedData::from_bytes(vec![0; 79]).is_none());
}

struct SecureNonceKdfDomain;

impl DomainSeparation for SecureNonceKdfDomain {
    fn version() -> u8 {
        0
    }

    fn domain() -> &'static str {
        "com.tari.base_layer.core.transactions.secure_nonce_kdf"
    }
}

#[test]
fn kdf_is_domain_separated_blake2b() {
    let key = vec![1u8; 32];
    let commitment = vec![2u8; 32];
    let expected = DomainSeparatedHasher::<blake2::Blake2b<digest::consts::U32>, SecureNonceKdfDomain>::new_with_label(
        "encrypted_value_and_mask",
    )
    .chain(&key)
    .chain(&commitment)
    .finalize();
    assert_eq!(encrypted_data_key(&key, &commitment), AsRef::<[u8]>::as_ref(&expected).to_vec());
    assert_ne!(encrypted_data_key(&key, &vec![3u8; 32]), encrypted_data_key(&key, &commitment));
}

fn point(bytes: &[u8]) -> RistrettoPublicKey {
    RistrettoPublicKey::from_canonical_bytes(bytes).unwrap()
}

fn scalar(bytes: &[u8]) -> RistrettoSecretKey {
    RistrettoSecretKey::from_canonical_bytes(bytes).unwrap()
}

fn recover_amount(view_secret: &RistrettoSecretKey, e: &RistrettoPublicKey, r: &RistrettoPublicKey) -> Option<u64> {
    let k_r = view_secret * r;
    (0u64..100).find(|v| &RistrettoPublicKey::from_secret_key(&RistrettoSecretKey::from(*v)) + &k_r == *e)
}

#[test]
fn viewable_balance_proof_reveals_amount_to_view_key() {
    let mask = RistrettoSecretKey::from(123456u64);
    let amount = 7u64;
    let (view_secret, view_public) = RistrettoPublicKey::random_keypair(&mut rand::rng());
    let commitment = commit(&mask, amount);
    let proof = create_viewable_balance_proof(&mask, amount, &commitment, &view_public);

    let e_point = point(&proof.elgamal_encrypted);
    let r_point = point(&proof.elgamal_public_nonce);
    assert_eq!(recover_amount(&view_secret, &e_point, &r_point), Some(7));
    assert_eq!(recover_amount(&random_key(), &e_point, &r_point), None);

    // The Sigma equations hold for the challenge over the proof's points.
    let challenge = viewable_balance_proof_challenge64(
        &commitment.as_bytes().to_vec(),
        &view_public.as_bytes().to_vec(),
        &proof.elgamal_encrypted,
        &proof.elgamal_public_nonce,
        &proof.c_prime,
        &proof.e_prime,
        &proof.r_prime,
    );
    assert_eq!(challenge.len(), 64);
    let e = RistrettoSecretKey::from_uniform_bytes(&challenge).unwrap();
    let s_v = scalar(&proof.s_v);
    let s_m = scalar(&proof.s_m);
    let s_r = scalar(&proof.s_r);
    let c = point(commitment.as_bytes());
    // s_m.G + s_v.H == C' + e.C
    let lhs = PedersenCommitmentFactory::default().commit(&s_m, &s_v);
    assert_eq!(lhs.as_bytes(), (&point(&proof.c_prime) + &(&e * &c)).as_bytes());
    // s_v.G + s_r.P == E' + e.E
    let lhs = &RistrettoPublicKey::from_secret_key(&s_v) + &(&s_r * &view_public);
    assert_eq!(lhs, &point(&proof.e_prime) + &(&e * &e_point));
    // s_r.G == R' + e.R
    assert_eq!(RistrettoPublicKey::from_secret_key(&s_r), &point(&proof.r_prime) + &(&e * &r_point));
}

#[test]
fn view_key_gives_statement_a_viewable_balance_proof() {
    let (_, view_public) = RistrettoPublicKey::random_keypair(&mut rand::rng());
    let mut stmt = statement(12, 0, random_key());
    stmt.resource_view_key = Some(view_public.as_bytes().to_vec());
    let out = create_confidential_output_statement(Some(&stmt), 0, None, 0).unwrap();
    let p = out.output_statement.unwrap().viewable_balance_proof.unwrap();
    assert_eq!(p.s_v.len(), 32);
    assert_eq!(p.elgamal_encrypted.len(), 32);
}

#[test]
fn viewable_balance_proof_from_given_nonces() {
    let mask = RistrettoSecretKey::from(99u64);
    let (_, view_public) = RistrettoPublicKey::random_keypair(&mut rand::rng());
    let nonces: Vec<RistrettoSecretKey> = (0..4).map(|_| random_key()).collect();
    let b = |k: &RistrettoSecretKey| k.as_bytes().to_vec();
    let commitment = commit(&mask, 7).as_bytes().to_vec();
    let build = || {
        viewable_balance_proof_from(
            &b(&mask),
            7,
            &commitment,
            &view_public.as_bytes().to_vec(),
            &b(&nonces[0]),
            &b(&nonces[1]),
            &b(&nonces[2]),
            &b(&nonces[3]),
        )
    };
    let p = build();
    let q = build();
    assert_eq!(p.s_v, q.s_v);
    let r = &nonces[0];
    let e_expected = &RistrettoPublicKey::from_secret_key(&RistrettoSecretKey::from(7u64)) + &(r * &view_public);
    assert_eq!(p.elgamal_encrypted, e_expected.as_bytes().to_vec());
    assert_eq!(p.elgamal_public_nonce, RistrettoPublicKey::from_secret_key(r).as_bytes().to_vec());
    assert_eq!(p.r_prime, RistrettoPublicKey::from_secret_key(&nonces[3]).as_bytes().to_vec());
    let c_prime = PedersenCommitmentFactory::default().commit(&nonces[2], &nonces[1]);
    assert_eq!(p.c_prime, c_prime.as_bytes().to_vec());
    let challenge = viewable_balance_proof_challenge64(
        &commitment,
        &view_public.as_bytes().to_vec(),
        &p.elgamal_encrypted,
        &p.elgamal_public_nonce,
        &p.c_prime,
        &p.e_prime,
        &p.r_prime,
    );
    let e = RistrettoSecretKey::from_uniform_bytes(&challenge).unwrap();
    let s_m = &(&e * &mask) + &nonces[2];
    assert_eq!(p.s_m, s_m.as_bytes().to_vec());
}

#[test]
fn amount_below_promise_is_refused_by_the_range_proof() {
    let r = create_confidential_output_statement(Some(&statement(10, 11, random_key())), 0, None, 0);
    assert!(matches!(r, Err(ConfidentialProofError::RangeProofError)));
}

#[test]
fn invalid_mask_or_view_key_is_refused() {
    let mut stmt = statement(10, 0, random_key());
    stmt.mask = vec![0xFF; 32];
    let r = create_confidential_output_statement(Some(&stmt), 0, None, 0);
    assert!(matches!(r, Err(ConfidentialProofError::InvalidMask)));
    let mut stmt = statement(10, 0, random_key());
    stmt.resource_view_key = Some(vec![0xFF; 32]);
    let r = create_confidential_output_statement(None, 0, Some(&stmt), 0);
    assert!(matches!(r, Err(ConfidentialProofError::InvalidViewKey)));
}
