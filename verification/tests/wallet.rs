use sign_segwit_v0::builder::{
    build_unsigned_transaction, dummy_unspent_transaction_output, p2wpkh_script_pubkey,
    CHANGE_AMOUNT, DUMMY_UTXO_AMOUNT, SPEND_AMOUNT,
};
use sign_segwit_v0::crypto::{senders_keys, SigningContext};
use sign_segwit_v0::encode::txid;
use sign_segwit_v0::scan::{balance, scan};

#[test]
fn scan_finds_outputs_locked_to_the_wallet() {
    let secp = SigningContext::new();
    let (_sk, wpkh) = senders_keys(&secp);
    let wallet_script = p2wpkh_script_pubkey(&wpkh);
    let (out_point, _utxo) = dummy_unspent_transaction_output(&wpkh);
    let mut other_script = vec![0x00u8, 0x14u8];
    other_script.extend_from_slice(&[0x77u8; 20]);
    // Spend to someone else, change back to the wallet: the change output
    // (index 1) is the only relevant one.
    let tx = build_unsigned_transaction(
        &out_point,
        DUMMY_UTXO_AMOUNT,
        &other_script,
        SPEND_AMOUNT,
        &wallet_script,
        CHANGE_AMOUNT,
    )
    .unwrap();
    // A second transaction paying the wallet twice.
    let tx2 = build_unsigned_transaction(
        &out_point,
        DUMMY_UTXO_AMOUNT,
        &wallet_script,
        1_000,
        &wallet_script,
        2_000,
    )
    .unwrap();
    let txs = vec![tx, tx2];
    let found = scan(&txs, &wallet_script);
    assert_eq!(found.len(), 3);
    assert_eq!(found[0].0.txid, txid(&txs[0]));
    assert_eq!(found[0].0.vout, 1);
    assert_eq!(found[0].1, CHANGE_AMOUNT);
    assert_eq!(found[1].0.txid, txid(&txs[1]));
    assert_eq!(found[1].0.vout, 0);
    assert_eq!(found[1].1, 1_000);
    assert_eq!(found[2].0.vout, 1);
    assert_eq!(found[2].1, 2_000);
    // A script nothing pays to yields nothing.
    let mut unused = vec![0x00u8, 0x14u8];
    unused.extend_from_slice(&[0x01u8; 20]);
    assert!(scan(&txs, &unused).is_empty());
}

#[test]
fn balance_sums_amounts() {
    assert_eq!(balance(&Vec::new()), Some(0));
    assert_eq!(balance(&vec![14_999_000, 1_000, 2_000]), Some(15_002_000));
    assert_eq!(balance(&vec![u64::MAX, 1]), None);
    assert_eq!(balance(&vec![u64::MAX]), Some(u64::MAX));
    assert_eq!(balance(&vec![u64::MAX - 1, 1]), Some(u64::MAX));
}
