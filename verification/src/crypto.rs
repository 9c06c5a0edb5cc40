//! Hashing, key handling and ECDSA signing, provided by outside crates
//! behind trusted wrappers. Each digest or signature is named as a function
//! of its inputs; the logic that consumes the bytes is verified against
//! those names.

use vstd::prelude::*;

verus! {

/// The double SHA-256 digest of `data` (32 bytes).
pub uninterp spec fn sha256d_of(data: Seq<u8>) -> Seq<u8>;

/// The SHA-256-then-RIPEMD-160 digest of `data` (20 bytes).
pub uninterp spec fn hash160_of(data: Seq<u8>) -> Seq<u8>;

/// Whether `sk` is the 32-byte encoding of a valid secp256k1 scalar.
pub uninterp spec fn is_valid_secret_key(sk: Seq<u8>) -> bool;

/// The 33-byte compressed encoding of the public key derived from `sk`.
pub uninterp spec fn compressed_pubkey_of(sk: Seq<u8>) -> Seq<u8>;

/// The DER encoding of the RFC6979-deterministic ECDSA signature of the
/// 32-byte message `msg` under the secret key `sk`.
pub uninterp spec fn ecdsa_sig_of(msg: Seq<u8>, sk: Seq<u8>) -> Seq<u8>;

/// Whether the DER signature `sig_der` verifies for the 32-byte message
/// `msg` under the compressed public key `pk`.
pub uninterp spec fn ecdsa_verifies(msg: Seq<u8>, sig_der: Seq<u8>, pk: Seq<u8>) -> bool;

/// The lowercase hexadecimal digit for a value below 16.
pub open spec fn hex_digit(n: u8) -> char {
    if n < 10 {
        (n + 48) as char
    } else {
        (n + 87) as char
    }
}

/// The lowercase hexadecimal encoding of a byte string: two digits per
/// byte, high nibble first, in byte order.
pub open spec fn hex_of(b: Seq<u8>) -> Seq<char> {
    b.flat_map(|x: u8| seq![hex_digit(x / 16), hex_digit(x % 16)])
}

/// An explicit elliptic-curve operation context, threaded through every
/// call that performs curve arithmetic. It wraps an all-capabilities
/// secp256k1::Secp256k1 context, which Verus treats as opaque (the
/// secp256k1::Context bound on that type cannot be declared here).
#[verifier::external_body]
pub struct SigningContext {
    secp: secp256k1::Secp256k1<secp256k1::All>,
}

impl SigningContext {
    /// Relies on secp256k1::Secp256k1::new: a fresh context capable of
    /// signing and verification.
    #[verifier::external_body]
    pub fn new() -> SigningContext {
        SigningContext { secp: secp256k1::Secp256k1::new() }
    }
}

/// Relies on bitcoin::hashes::sha256d::Hash::hash: the 32-byte double
/// SHA-256 digest depends on the input bytes alone.
#[verifier::external_body]
pub(crate) fn sha256d(data: &Vec<u8>) -> (r: Vec<u8>)
    ensures
        r@ == sha256d_of(data@),
        r@.len() == 32,
{
    let h = <bitcoin::hashes::sha256d::Hash as bitcoin::hashes::Hash>::hash(data.as_slice());
    <bitcoin::hashes::sha256d::Hash as bitcoin::hashes::Hash>::to_byte_array(h).to_vec()
}

/// Relies on bitcoin::hashes::hash160::Hash::hash: the 20-byte
/// SHA-256-then-RIPEMD-160 digest depends on the input bytes alone.
#[verifier::external_body]
pub(crate) fn hash160(data: &Vec<u8>) -> (r: Vec<u8>)
    ensures
        r@ == hash160_of(data@),
        r@.len() == 20,
{
    let h = <bitcoin::hashes::hash160::Hash as bitcoin::hashes::Hash>::hash(data.as_slice());
    <bitcoin::hashes::hash160::Hash as bitcoin::hashes::Hash>::to_byte_array(h).to_vec()
}

/// Relies on secp256k1::SecretKey::from_slice: it accepts exactly the
/// 32-byte encodings of valid curve scalars.
#[verifier::external_body]
pub(crate) fn check_secret_key(sk: &Vec<u8>) -> (r: bool)
    ensures
        r == is_valid_secret_key(sk@),
{
    secp256k1::SecretKey::from_slice(sk.as_slice()).is_ok()
}

/// Relies on secp256k1::SecretKey::new: the key is freshly drawn at random,
/// but every outcome is 32 bytes long and passes the same scalar check that
/// SecretKey::from_slice applies.
#[verifier::external_body]
pub(crate) fn generate_secret_key() -> (r: Vec<u8>)
    ensures
        r@.len() == 32,
        is_valid_secret_key(r@),
{
    secp256k1::SecretKey::new(&mut rand::thread_rng()).secret_bytes().to_vec()
}

/// Relies on secp256k1::PublicKey::from_secret_key and PublicKey::serialize:
/// the compressed encoding is a function of the secret key alone, is 33
/// bytes long, and its first byte is the parity tag 0x02 or 0x03.
#[verifier::external_body]
pub(crate) fn derive_compressed_pubkey(
    secp: &SigningContext,
    sk: &Vec<u8>,
) -> (r: Vec<u8>)
    requires
        is_valid_secret_key(sk@),
    ensures
        r@ == compressed_pubkey_of(sk@),
        r@.len() == 33,
        r@[0] == 2 || r@[0] == 3,
{
    let key = secp256k1::SecretKey::from_slice(sk.as_slice()).unwrap();
    secp256k1::PublicKey::from_secret_key(&secp.secp, &key).serialize().to_vec()
}

/// Relies on secp256k1::Secp256k1::sign_ecdsa: ECDSA with RFC6979 nonce
/// derivation, so the DER signature is a deterministic function of the
/// 32-byte message and the secret key; serialize_der yields at most 72
/// bytes (the size of its backing buffer).
#[verifier::external_body]
pub(crate) fn ecdsa_sign_der(
    secp: &SigningContext,
    msg: &Vec<u8>,
    sk: &Vec<u8>,
) -> (r: Vec<u8>)
    requires
        msg@.len() == 32,
        is_valid_secret_key(sk@),
    ensures
        r@ == ecdsa_sig_of(msg@, sk@),
        r@.len() <= 72,
{
    let key = secp256k1::SecretKey::from_slice(sk.as_slice()).unwrap();
    let m = secp256k1::Message::from_slice(msg.as_slice()).unwrap();
    secp.secp.sign_ecdsa(&m, &key).serialize_der().to_vec()
}

/// Relies on secp256k1::Secp256k1::verify_ecdsa (and the DER and public-key
/// parsers feeding it): acceptance is a function of message, signature and
/// public key alone; an unparseable signature or key never verifies.
#[verifier::external_body]
pub(crate) fn ecdsa_verify(
    secp: &SigningContext,
    msg: &Vec<u8>,
    sig_der: &Vec<u8>,
    pk: &Vec<u8>,
) -> (r: bool)
    requires
        msg@.len() == 32,
    ensures
        r == ecdsa_verifies(msg@, sig_der@, pk@),
{
    let m = secp256k1::Message::from_slice(msg.as_slice()).unwrap();
    let sig = match secp256k1::ecdsa::Signature::from_der(sig_der.as_slice()) {
        Ok(s) => s,
        Err(_) => return false,
    };
    let key = match secp256k1::PublicKey::from_slice(pk.as_slice()) {
        Ok(k) => k,
        Err(_) => return false,
    };
    secp.secp.verify_ecdsa(&m, &sig, &key).is_ok()
}

/// Relies on hex::encode: two lowercase hexadecimal digits per byte, in
/// byte order.
#[verifier::external_body]
pub(crate) fn to_hex(b: &Vec<u8>) -> (r: String)
    ensures
        r@ == hex_of(b@),
{
    hex::encode(b.as_slice())
}

/// Generates a fresh secret key and the hash of its compressed public key,
/// the pair a P2WPKH sender controls.
pub fn senders_keys(secp: &SigningContext) -> (r: (Vec<u8>, Vec<u8>))
    ensures
        r.0@.len() == 32,
        is_valid_secret_key(r.0@),
        r.1@ == hash160_of(compressed_pubkey_of(r.0@)),
        r.1@.len() == 20,
{
    let sk = generate_secret_key();
    let pk = derive_compressed_pubkey(secp, &sk);
    let wpkh = hash160(&pk);
    (sk, wpkh)
}

/// Checks a DER-encoded ECDSA signature over a 32-byte message against a
/// compressed public key. Returns false when the message is not 32 bytes.
pub fn verify_signature(
    secp: &SigningContext,
    msg: &Vec<u8>,
    sig_der: &Vec<u8>,
    pk: &Vec<u8>,
) -> (r: bool)
    ensures
        r == (msg@.len() == 32 && ecdsa_verifies(msg@, sig_der@, pk@)),
{
    if msg.len() != 32 {
        return false;
    }
    ecdsa_verify(secp, msg, sig_der, pk)
}

} // verus!
