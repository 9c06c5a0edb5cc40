use sign_segwit_v0::builder::{
    build_unsigned_transaction, dummy_unspent_transaction_output, p2wpkh_script_pubkey,
    CHANGE_AMOUNT, DUMMY_UTXO_AMOUNT, SPEND_AMOUNT,
};
use sign_segwit_v0::crypto::{senders_keys, verify_signature, SigningContext};
use sign_segwit_v0::sighash::{segwit_sighash, sighash_preimage};
use sign_segwit_v0::sign::sign_p2wpkh_input;
use sign_segwit_v0::tx::{is_signed, script_code_for_p2wpkh};
use sign_segwit_v0::Error;

fn demo_setup() -> (SigningContext, Vec<u8>, Vec<u8>, sign_segwit_v0::tx::Transaction, Vec<u8>) {
    let secp = SigningContext::new();
    let (sk, wpkh) = senders_keys(&secp);
    let (out_point, utxo) = dummy_unspent_transaction_output(&wpkh);
    let script_code = script_code_for_p2wpkh(&utxo.script_pubkey).expect("p2wpkh script pubkey");
    let receiver_script: Vec<u8> = {
        let mut s = vec![0x00u8, 0x14u8];
        s.extend_from_slice(&[0xabu8; 20]);
        s
    };
    let change_script = p2wpkh_script_pubkey(&wpkh);
    let tx = build_unsigned_transaction(
        &out_point,
        DUMMY_UTXO_AMOUNT,
        &receiver_script,
        SPEND_AMOUNT,
        &change_script,
        CHANGE_AMOUNT,
    )
    .expect("conserving amounts");
    (secp, sk, wpkh, tx, script_code)
}

#[test]
fn signing_is_deterministic() {
    let (secp, sk, _wpkh, tx, script_code) = demo_setup();
    let mut tx1 = tx.clone();
    let mut tx2 = tx.clone();
    let h1 = segwit_sighash(&tx1, 0, &script_code, SPEND_AMOUNT).unwrap();
    let h2 = segwit_sighash(&tx2, 0, &script_code, SPEND_AMOUNT).unwrap();
    assert_eq!(h1, h2);
    sign_p2wpkh_input(&secp, &mut tx1, 0, &script_code, SPEND_AMOUNT, &sk).unwrap();
    sign_p2wpkh_input(&secp, &mut tx2, 0, &script_code, SPEND_AMOUNT, &sk).unwrap();
    assert_eq!(tx1.input[0].witness, tx2.input[0].witness);
    assert_eq!(tx1, tx2);
}

#[test]
fn witness_shape_after_signing() {
    let (secp, sk, _wpkh, mut tx, script_code) = demo_setup();
    assert!(!is_signed(&tx, 0));
    sign_p2wpkh_input(&secp, &mut tx, 0, &script_code, SPEND_AMOUNT, &sk).unwrap();
    assert!(is_signed(&tx, 0));
    let witness = &tx.input[0].witness;
    assert_eq!(witness.len(), 2);
    assert_eq!(witness[1].len(), 33);
    assert!(witness[1][0] == 0x02 || witness[1][0] == 0x03);
    assert_eq!(*witness[0].last().unwrap(), 0x01u8);
    let key = secp256k1::SecretKey::from_slice(&sk).unwrap();
    let ctx = secp256k1::Secp256k1::new();
    let pk = secp256k1::PublicKey::from_secret_key(&ctx, &key);
    assert_eq!(witness[1], pk.serialize().to_vec());
}

#[test]
fn signature_verifies_against_real_pubkey() {
    let (secp, sk, _wpkh, mut tx, script_code) = demo_setup();
    let sighash = segwit_sighash(&tx, 0, &script_code, SPEND_AMOUNT).unwrap();
    sign_p2wpkh_input(&secp, &mut tx, 0, &script_code, SPEND_AMOUNT, &sk).unwrap();
    let witness = &tx.input[0].witness;
    let der: Vec<u8> = witness[0][..witness[0].len() - 1].to_vec();
    let pubkey = witness[1].clone();
    assert!(verify_signature(&secp, &sighash, &der, &pubkey));
}

#[test]
fn signature_verifies_with_secp256k1_directly() {
    let (secp, sk, _wpkh, mut tx, script_code) = demo_setup();
    let sighash = segwit_sighash(&tx, 0, &script_code, SPEND_AMOUNT).unwrap();
    sign_p2wpkh_input(&secp, &mut tx, 0, &script_code, SPEND_AMOUNT, &sk).unwrap();
    let witness = &tx.input[0].witness;
    let der = &witness[0][..witness[0].len() - 1];
    let ctx = secp256k1::Secp256k1::new();
    let key = secp256k1::SecretKey::from_slice(&sk).unwrap();
    let pk = secp256k1::PublicKey::from_secret_key(&ctx, &key);
    let sig = secp256k1::ecdsa::Signature::from_der(der).unwrap();
    let msg = secp256k1::Message::from_slice(&sighash).unwrap();
    ctx.verify_ecdsa(&msg, &sig, &pk).unwrap();
}

#[test]
fn script_code_mismatch_still_signs_but_fails_verification() {
    let (secp, sk, _wpkh, mut tx, script_code) = demo_setup();
    // A script code for a different public-key hash.
    let mut wrong_script = vec![0x00u8, 0x14u8];
    wrong_script.extend_from_slice(&[0x11u8; 20]);
    let wrong_code = script_code_for_p2wpkh(&wrong_script).unwrap();
    assert_ne!(wrong_code, script_code);
    // Signing is oblivious to the mismatch: it still succeeds.
    let r = sign_p2wpkh_input(&secp, &mut tx, 0, &wrong_code, SPEND_AMOUNT, &sk);
    assert!(r.is_ok());
    let witness = &tx.input[0].witness;
    let der: Vec<u8> = witness[0][..witness[0].len() - 1].to_vec();
    let pubkey = witness[1].clone();
    // Downstream verification over the correct sighash catches it.
    let right_sighash = segwit_sighash(&tx, 0, &script_code, SPEND_AMOUNT).unwrap();
    assert!(!verify_signature(&secp, &right_sighash, &der, &pubkey));
    // Over the mismatched sighash the signature is internally consistent.
    let wrong_sighash = segwit_sighash(&tx, 0, &wrong_code, SPEND_AMOUNT).unwrap();
    assert!(verify_signature(&secp, &wrong_sighash, &der, &pubkey));
}

#[test]
fn sighash_index_out_of_range() {
    let (_secp, _sk, _wpkh, tx, script_code) = demo_setup();
    assert_eq!(
        segwit_sighash(&tx, 1, &script_code, SPEND_AMOUNT),
        Err(Error::SighashComputationError)
    );
    assert_eq!(
        sighash_preimage(&tx, 7, &script_code, SPEND_AMOUNT),
        Err(Error::SighashComputationError)
    );
}

#[test]
fn invalid_secret_key_is_rejected() {
    let (secp, _sk, _wpkh, mut tx, script_code) = demo_setup();
    let zero_key = vec![0u8; 32];
    assert_eq!(
        sign_p2wpkh_input(&secp, &mut tx, 0, &script_code, SPEND_AMOUNT, &zero_key),
        Err(Error::SigningError)
    );
    // The transaction is untouched on failure.
    assert!(tx.input[0].witness.is_empty());
    let short_key = vec![1u8; 16];
    assert_eq!(
        sign_p2wpkh_input(&secp, &mut tx, 0, &script_code, SPEND_AMOUNT, &short_key),
        Err(Error::SigningError)
    );
}

#[test]
fn sender_keys_match_hash160_of_pubkey() {
    let secp = SigningContext::new();
    let (sk, wpkh) = senders_keys(&secp);
    assert_eq!(sk.len(), 32);
    assert_eq!(wpkh.len(), 20);
    let ctx = secp256k1::Secp256k1::new();
    let key = secp256k1::SecretKey::from_slice(&sk).unwrap();
    let pk = secp256k1::PublicKey::from_secret_key(&ctx, &key);
    let sha = <bitcoin::hashes::sha256::Hash as bitcoin::hashes::Hash>::hash(&pk.serialize());
    let rip = <bitcoin::hashes::ripemd160::Hash as bitcoin::hashes::Hash>::hash(&<bitcoin::hashes::sha256::Hash as bitcoin::hashes::Hash>::to_byte_array(sha));
    assert_eq!(wpkh, <bitcoin::hashes::ripemd160::Hash as bitcoin::hashes::Hash>::to_byte_array(rip).to_vec());
}
