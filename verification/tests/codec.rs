use sign_segwit_v0::builder::{
    build_unsigned_transaction, dummy_unspent_transaction_output, p2wpkh_script_pubkey,
    CHANGE_AMOUNT, DUMMY_UTXO_AMOUNT, SPEND_AMOUNT,
};
use sign_segwit_v0::crypto::{senders_keys, SigningContext};
use sign_segwit_v0::decode::deserialize_transaction;
use sign_segwit_v0::encode::{serialize_transaction, serialize_transaction_hex, txid};
use sign_segwit_v0::sighash::{segwit_sighash, sighash_preimage};
use sign_segwit_v0::sign::sign_p2wpkh_input;
use sign_segwit_v0::tx::{script_code_for_p2wpkh, OutPoint, Transaction, TxIn, TxOut};
use sign_segwit_v0::Error;

fn demo_tx() -> (SigningContext, Vec<u8>, Transaction, Vec<u8>) {
    let secp = SigningContext::new();
    let (sk, wpkh) = senders_keys(&secp);
    let (out_point, utxo) = dummy_unspent_transaction_output(&wpkh);
    let script_code = script_code_for_p2wpkh(&utxo.script_pubkey).unwrap();
    let mut receiver_script = vec![0x00u8, 0x14u8];
    receiver_script.extend_from_slice(&[0xcdu8; 20]);
    let change_script = p2wpkh_script_pubkey(&wpkh);
    let tx = build_unsigned_transaction(
        &out_point,
        DUMMY_UTXO_AMOUNT,
        &receiver_script,
        SPEND_AMOUNT,
        &change_script,
        CHANGE_AMOUNT,
    )
    .unwrap();
    (secp, sk, tx, script_code)
}

#[test]
fn conservation_holds_and_shortfall_is_rejected() {
    let (_secp, _sk, tx, _sc) = demo_tx();
    // 20,000,000 in, 5,000,000 spend, 14,999,000 change: fee 1,000.
    assert_eq!(tx.output[0].value, 5_000_000);
    assert_eq!(tx.output[1].value, 14_999_000);
    let (out_point, _utxo) = {
        let secp = SigningContext::new();
        let (_sk, wpkh) = senders_keys(&secp);
        dummy_unspent_transaction_output(&wpkh)
    };
    let script = vec![0x00u8, 0x14u8];
    let r = build_unsigned_transaction(&out_point, 20_000_000, &script, 15_000_001, &script, 5_000_000);
    assert_eq!(r, Err(Error::InvalidAmount));
    let r2 = build_unsigned_transaction(&out_point, 20_000_000, &script, 15_000_000, &script, 5_000_000);
    assert!(r2.is_ok());
}

#[test]
fn unsigned_transaction_structure() {
    let (_secp, _sk, tx, _sc) = demo_tx();
    assert_eq!(tx.version, 2);
    assert_eq!(tx.lock_time, 0);
    assert_eq!(tx.input.len(), 1);
    assert_eq!(tx.input[0].sequence, 0xffff_ffff);
    assert!(tx.input[0].script_sig.is_empty());
    assert!(tx.input[0].witness.is_empty());
    assert_eq!(tx.output.len(), 2);
}

#[test]
fn preimage_length_one_input_two_outputs() {
    let (_secp, _sk, tx, script_code) = demo_tx();
    // 4+32+32+36+(1+len)+8+4+32+4+4 bytes; the P2WPKH script code is 25
    // bytes, so 182 in total.
    assert_eq!(script_code.len(), 25);
    let p = sighash_preimage(&tx, 0, &script_code, SPEND_AMOUNT).unwrap();
    assert_eq!(p.len(), 182);
    // With a 22-byte script code the same formula gives 179.
    let sc22 = tx.output[1].script_pubkey.clone();
    assert_eq!(sc22.len(), 22);
    let p22 = sighash_preimage(&tx, 0, &sc22, SPEND_AMOUNT).unwrap();
    assert_eq!(p22.len(), 179);
}

#[test]
fn round_trip_preserves_structure_and_txid() {
    let (secp, sk, mut tx, script_code) = demo_tx();
    sign_p2wpkh_input(&secp, &mut tx, 0, &script_code, SPEND_AMOUNT, &sk).unwrap();
    let bytes = serialize_transaction(&tx);
    let back = deserialize_transaction(&bytes).expect("well-formed encoding");
    assert_eq!(back, tx);
    assert_eq!(txid(&back), txid(&tx));
    // A second trip through the wire bytes is stable.
    assert_eq!(serialize_transaction(&back), bytes);
}

#[test]
fn round_trip_of_unsigned_transaction() {
    let (_secp, _sk, tx, _sc) = demo_tx();
    let bytes = serialize_transaction(&tx);
    let back = deserialize_transaction(&bytes).unwrap();
    assert_eq!(back, tx);
    assert_eq!(txid(&back), txid(&tx));
}

#[test]
fn truncated_and_garbled_encodings_are_rejected() {
    let (_secp, _sk, tx, _sc) = demo_tx();
    let bytes = serialize_transaction(&tx);
    let truncated: Vec<u8> = bytes[..bytes.len() - 1].to_vec();
    assert!(deserialize_transaction(&truncated).is_none());
    let mut no_marker = bytes.clone();
    no_marker[4] = 0x02;
    assert!(deserialize_transaction(&no_marker).is_none());
    let mut trailing = bytes.clone();
    trailing.push(0x00);
    assert!(deserialize_transaction(&trailing).is_none());
    assert!(deserialize_transaction(&Vec::new()).is_none());
}

#[test]
fn serialization_of_fixed_transaction_matches_expected_hex() {
    let tx = Transaction {
        version: 2,
        lock_time: 0,
        input: vec![TxIn {
            previous_output: OutPoint { txid: vec![0u8; 32], vout: 0 },
            script_sig: Vec::new(),
            sequence: 0xffff_ffff,
            witness: Vec::new(),
        }],
        output: Vec::new(),
    };
    let expected = "0200000000010100000000000000000000000000000000000000000000000000000000000000000000000000ffffffff000000000000";
    assert_eq!(serialize_transaction_hex(&tx), expected);
    assert_eq!(hex::encode(serialize_transaction(&tx)), expected);
}

#[test]
fn txid_is_double_sha256_of_legacy_form() {
    let (_secp, _sk, tx, _sc) = demo_tx();
    let id = txid(&tx);
    assert_eq!(id.len(), 32);
    // Recompute independently: two single SHA-256 passes over the legacy
    // serialization (the extended bytes without marker, flag, witnesses).
    let ext = serialize_transaction(&tx);
    let mut legacy: Vec<u8> = Vec::new();
    legacy.extend_from_slice(&ext[..4]);
    // One empty witness stack byte per input precedes the lock time.
    legacy.extend_from_slice(&ext[6..ext.len() - 5]);
    legacy.extend_from_slice(&ext[ext.len() - 4..]);
    let once = <bitcoin::hashes::sha256::Hash as bitcoin::hashes::Hash>::hash(&legacy);
    let twice = <bitcoin::hashes::sha256::Hash as bitcoin::hashes::Hash>::hash(&<bitcoin::hashes::sha256::Hash as bitcoin::hashes::Hash>::to_byte_array(once));
    assert_eq!(id, <bitcoin::hashes::sha256::Hash as bitcoin::hashes::Hash>::to_byte_array(twice).to_vec());
}

#[test]
fn bip143_native_p2wpkh_sighash_vector() {
    let tx = Transaction {
        version: 1,
        lock_time: 17,
        input: vec![
            TxIn {
                previous_output: OutPoint {
                    txid: hex::decode(
                        "fff7f7881a8099afa6940d42d1e7f6362bec38171ea3edf433541db4e4ad969f",
                    )
                    .unwrap(),
                    vout: 0,
                },
                script_sig: Vec::new(),
                sequence: 0xffffffee,
                witness: Vec::new(),
            },
            TxIn {
                previous_output: OutPoint {
                    txid: hex::decode(
                        "ef51e1b804cc89d182d279655c3aa89e815b1b309fe287d9b2b55d57b90ec68a",
                    )
                    .unwrap(),
                    vout: 1,
                },
                script_sig: Vec::new(),
                sequence: 0xffffffff,
                witness: Vec::new(),
            },
        ],
        output: vec![
            TxOut {
                value: 112_340_000,
                script_pubkey: hex::decode(
                    "76a9148280b37df378db99f66f85c95a783a76ac7a6d5988ac",
                )
                .unwrap(),
            },
            TxOut {
                value: 223_450_000,
                script_pubkey: hex::decode(
                    "76a9143bde42dbee7e4dbe6a21b2d50ce2f0167faa815988ac",
                )
                .unwrap(),
            },
        ],
    };
    let script_code =
        hex::decode("76a9141d0f172a0ecb48aee1be1f2687d2963ae33f71a188ac").unwrap();
    let sighash = segwit_sighash(&tx, 1, &script_code, 600_000_000).unwrap();
    assert_eq!(
        hex::encode(sighash),
        "c37af31116d1b27caf68aae9e3ac82f1477929014d5b917657d0eb49478cb670"
    );
}

#[test]
fn script_code_derivation() {
    let mut script = vec![0x00u8, 0x14u8];
    script.extend_from_slice(&[0x42u8; 20]);
    let code = script_code_for_p2wpkh(&script).unwrap();
    assert_eq!(code.len(), 25);
    assert_eq!(&code[..3], &[0x76u8, 0xa9, 0x14]);
    assert_eq!(&code[3..23], &[0x42u8; 20]);
    assert_eq!(&code[23..], &[0x88u8, 0xac]);
    // Not the P2WPKH pattern: wrong version byte, wrong push, wrong length.
    let mut wrong_version = script.clone();
    wrong_version[0] = 0x01;
    assert_eq!(script_code_for_p2wpkh(&wrong_version), Err(Error::MalformedScript));
    let mut wrong_push = script.clone();
    wrong_push[1] = 0x15;
    assert_eq!(script_code_for_p2wpkh(&wrong_push), Err(Error::MalformedScript));
    let short = vec![0x00u8, 0x14, 0x01];
    assert_eq!(script_code_for_p2wpkh(&short), Err(Error::MalformedScript));
}
