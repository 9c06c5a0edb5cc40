//! Assembling the unsigned transaction skeleton: one input spending a
//! known unspent output, a spend output and a change output, with value
//! conservation enforced.

use vstd::prelude::*;
use crate::tx::{OutPoint, Transaction, TxIn, TxOut, TxOutV};
use crate::encode::copy_bytes;
use crate::Error;

verus! {

/// The value of the placeholder unspent output a demonstration spend uses.
pub const DUMMY_UTXO_AMOUNT: u64 = 20_000_000;

/// The amount such a demonstration sends to the receiver.
pub const SPEND_AMOUNT: u64 = 5_000_000;

/// The change such a demonstration returns to the sender (1000 sat fee).
pub const CHANGE_AMOUNT: u64 = 14_999_000;

/// The sequence value that enables no relative timelock.
pub const SEQUENCE_MAX: u32 = 0xffff_ffff;

/// Builds the P2WPKH locking script for a 20-byte public-key hash:
/// witness version 0 and a push of the hash.
pub fn p2wpkh_script_pubkey(wpkh: &Vec<u8>) -> (r: Vec<u8>)
    ensures
        r@ == seq![0x00u8, 0x14u8] + wpkh@,
        wpkh@.len() == 20 ==> crate::tx::is_p2wpkh_script_pubkey(r@),
{
    let mut s: Vec<u8> = Vec::new();
    s.push(0x00u8);
    s.push(0x14u8);
    crate::encode::push_bytes(&mut s, wpkh);
    proof {
        assert(s@ =~= seq![0x00u8, 0x14u8] + wpkh@);
    }
    s
}

/// A placeholder unspent output locked to the key whose public-key hash is
/// `wpkh`: an all-zero outpoint and a fixed value, standing in for an
/// output read from the chain.
pub fn dummy_unspent_transaction_output(wpkh: &Vec<u8>) -> (r: (OutPoint, TxOut))
    ensures
        r.0@.txid == Seq::new(32, |i: int| 0u8),
        r.0@.vout == 0,
        r.0@.wf(),
        r.1@.value == DUMMY_UTXO_AMOUNT,
        r.1@.script_pubkey == seq![0x00u8, 0x14u8] + wpkh@,
{
    let mut txid: Vec<u8> = Vec::new();
    let mut i: usize = 0;
    while i < 32
        invariant
            0 <= i <= 32,
            txid@ == Seq::new(i as nat, |k: int| 0u8),
        decreases 32 - i,
    {
        txid.push(0u8);
        proof {
            assert(txid@ =~= Seq::new((i + 1) as nat, |k: int| 0u8));
        }
        i = i + 1;
    }
    let out_point = OutPoint { txid, vout: 0 };
    let script_pubkey = p2wpkh_script_pubkey(wpkh);
    let utxo = TxOut { value: DUMMY_UTXO_AMOUNT, script_pubkey };
    (out_point, utxo)
}

/// Builds the unsigned transaction: version 2, lock time 0, one input
/// spending `prev_out` with maximum sequence, empty signature script and
/// empty witness, and exactly two outputs, spend first, change second.
///
/// Fails with `InvalidAmount` exactly when spend plus change exceeds the
/// input value (the difference, when it succeeds, is the implicit fee).
pub fn build_unsigned_transaction(
    prev_out: &OutPoint,
    input_value: u64,
    spend_script: &Vec<u8>,
    spend_amount: u64,
    change_script: &Vec<u8>,
    change_amount: u64,
) -> (r: Result<Transaction, Error>)
    ensures
        spend_amount + change_amount > input_value ==> (r matches Err(e) && e
            == Error::InvalidAmount),
        spend_amount + change_amount <= input_value ==> (r matches Ok(t) && t@.version == 2
            && t@.lock_time == 0 && t@.inputs.len() == 1 && t@.inputs[0].previous_output
            == prev_out@ && t@.inputs[0].sequence == SEQUENCE_MAX && t@.inputs[0].script_sig
            == Seq::<u8>::empty() && t@.inputs[0].witness == Seq::<Seq<u8>>::empty()
            && t@.outputs.len() == 2 && t@.outputs[0] == (TxOutV {
            value: spend_amount,
            script_pubkey: spend_script@,
        }) && t@.outputs[1] == (TxOutV { value: change_amount, script_pubkey: change_script@ })
            && (prev_out@.wf() ==> t@.wf())),
{
    if change_amount > input_value || spend_amount > input_value - change_amount {
        return Err(Error::InvalidAmount);
    }
    let input = TxIn {
        previous_output: OutPoint { txid: copy_bytes(&prev_out.txid), vout: prev_out.vout },
        script_sig: Vec::new(),
        sequence: SEQUENCE_MAX,
        witness: Vec::new(),
    };
    let spend = TxOut { value: spend_amount, script_pubkey: copy_bytes(spend_script) };
    let change = TxOut { value: change_amount, script_pubkey: copy_bytes(change_script) };
    let mut inputs: Vec<TxIn> = Vec::new();
    inputs.push(input);
    let mut outputs: Vec<TxOut> = Vec::new();
    outputs.push(spend);
    outputs.push(change);
    let t = Transaction { version: 2, lock_time: 0, input: inputs, output: outputs };
    proof {
        assert(t@.inputs.len() == 1);
        assert(t@.inputs[0] == t.input@[0]@);
        assert(t@.inputs[0].previous_output =~= prev_out@);
        assert(t@.inputs[0].script_sig =~= Seq::<u8>::empty());
        assert(t@.inputs[0].witness =~= Seq::<Seq<u8>>::empty());
        assert(t@.outputs[0] == t.output@[0]@);
        assert(t@.outputs[1] == t.output@[1]@);
        assert(t@.outputs[0] =~= (TxOutV { value: spend_amount, script_pubkey: spend_script@ }));
        assert(t@.outputs[1] =~= (TxOutV { value: change_amount, script_pubkey: change_script@ }));
    }
    Ok(t)
}

} // verus!
