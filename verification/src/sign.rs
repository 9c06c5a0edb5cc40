//! Signing a P2WPKH input: compute the BIP143 sighash, sign it with
//! RFC6979-deterministic ECDSA, and splice signature and public key into
//! that input's witness.

use vstd::prelude::*;
use crate::tx::{Transaction, TxInV, TxV};
use crate::crypto::{
    check_secret_key, compressed_pubkey_of, derive_compressed_pubkey, ecdsa_sig_of,
    ecdsa_sign_der, is_valid_secret_key, SigningContext,
};
use crate::sighash::{segwit_sighash, sighash_of};
use crate::Error;

verus! {

/// The two witness elements a signed P2WPKH input carries: the DER
/// signature with the SIGHASH_ALL byte appended, then the compressed
/// public key.
pub open spec fn witness_after_signing(
    t: TxV,
    idx: int,
    script_code: Seq<u8>,
    value: u64,
    sk: Seq<u8>,
) -> Seq<Seq<u8>> {
    seq![
        ecdsa_sig_of(sighash_of(t, idx, script_code, value), sk) + seq![1u8],
        compressed_pubkey_of(sk),
    ]
}

/// The transaction after signing input `idx`: identical but for that
/// input's witness.
pub open spec fn tx_after_signing(
    t: TxV,
    idx: int,
    script_code: Seq<u8>,
    value: u64,
    sk: Seq<u8>,
) -> TxV {
    TxV {
        inputs: t.inputs.update(
            idx,
            TxInV { witness: witness_after_signing(t, idx, script_code, value, sk), ..t.inputs[idx] },
        ),
        ..t
    }
}

/// Signs the input at `input_index` and installs its witness.
///
/// Fails with `SighashComputationError` exactly when the index is out of
/// range and with `SigningError` exactly when the secret key is not a
/// valid scalar; the transaction is untouched on failure. On success the
/// only change is the signed input's witness: the deterministic signature
/// (ending in the SIGHASH_ALL byte 0x01) and the 33-byte compressed
/// public key.
pub fn sign_p2wpkh_input(
    secp: &SigningContext,
    tx: &mut Transaction,
    input_index: usize,
    script_code: &Vec<u8>,
    value: u64,
    sk: &Vec<u8>,
) -> (r: Result<(), Error>)
    ensures
        (input_index as int) >= old(tx)@.inputs.len() ==> (r matches Err(e) && e
            == Error::SighashComputationError && final(tx)@ == old(tx)@),
        (input_index as int) < old(tx)@.inputs.len() && !is_valid_secret_key(sk@) ==> (r matches
            Err(e) && e == Error::SigningError && final(tx)@ == old(tx)@),
        (input_index as int) < old(tx)@.inputs.len() && is_valid_secret_key(sk@) ==> (r matches Ok(u)
            && final(tx)@ == tx_after_signing(old(tx)@, input_index as int, script_code@, value, sk@)
            && final(tx)@.inputs[input_index as int].witness.len() == 2
            && final(tx)@.inputs[input_index as int].witness[1].len() == 33
            && (final(tx)@.inputs[input_index as int].witness[1][0] == 2
                || final(tx)@.inputs[input_index as int].witness[1][0] == 3)
            && final(tx)@.inputs[input_index as int].witness[0].len() >= 1
            && final(tx)@.inputs[input_index as int].witness[0].len() <= 73
            && final(tx)@.inputs[input_index as int].witness[0].last() == 1u8),
{
    if input_index >= tx.input.len() {
        return Err(Error::SighashComputationError);
    }
    if !check_secret_key(sk) {
        return Err(Error::SigningError);
    }
    let sighash = match segwit_sighash(tx, input_index, script_code, value) {
        Ok(h) => h,
        Err(e) => {
            return Err(e);
        },
    };
    let mut sig_with_type = ecdsa_sign_der(secp, &sighash, sk);
    sig_with_type.push(0x01u8);
    let pubkey = derive_compressed_pubkey(secp, sk);
    let mut witness: Vec<Vec<u8>> = Vec::new();
    witness.push(sig_with_type);
    witness.push(pubkey);
    let ghost wv: Seq<Seq<u8>> = witness@.map_values(|w: Vec<u8>| w@);
    let mut signed_input = tx.input.remove(input_index);
    signed_input.witness = witness;
    tx.input.insert(input_index, signed_input);
    proof {
        let idx = input_index as int;
        let t0 = old(tx)@;
        assert(wv.len() == 2);
        assert(wv[0] == sig_with_type@);
        assert(wv[1] == pubkey@);
        assert(sig_with_type@ =~= ecdsa_sig_of(sighash_of(t0, idx, script_code@, value), sk@)
            + seq![1u8]);
        assert(wv =~~= witness_after_signing(t0, idx, script_code@, value, sk@));
        assert(tx.input@ =~= old(tx).input@.update(idx, tx.input@[idx]));
        assert(tx@.inputs[idx] == tx.input@[idx]@);
        assert(tx@.inputs[idx] =~~= (TxInV { witness: wv, ..t0.inputs[idx] }));
        assert(tx@.inputs =~~= t0.inputs.update(
            idx,
            TxInV { witness: witness_after_signing(t0, idx, script_code@, value, sk@), ..t0.inputs[idx] },
        ));
        assert(tx@ =~~= tx_after_signing(t0, idx, script_code@, value, sk@));
    }
    Ok(())
}

/// Law: signing is deterministic. The sighash and the witness produced by
/// signing are functions of the transaction, input index, script code,
/// spent value and secret key alone, so two signing passes over the same
/// data yield byte-identical signatures and sighashes.
pub proof fn lemma_signing_deterministic(
    t1: TxV,
    t2: TxV,
    idx: int,
    sc1: Seq<u8>,
    sc2: Seq<u8>,
    value: u64,
    sk1: Seq<u8>,
    sk2: Seq<u8>,
)
    requires
        t1 == t2,
        sc1 == sc2,
        sk1 == sk2,
    ensures
        sighash_of(t1, idx, sc1, value) == sighash_of(t2, idx, sc2, value),
        witness_after_signing(t1, idx, sc1, value, sk1) == witness_after_signing(
            t2,
            idx,
            sc2,
            value,
            sk2,
        ),
{
}

} // verus!
