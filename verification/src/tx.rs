//! Transaction data model: outpoints, outputs, inputs, transactions, and the
//! P2WPKH script forms (locking script and script code).

use vstd::prelude::*;
use crate::Error;

verus! {

/// Mathematical model of an [`OutPoint`].
#[verifier::ext_equal]
pub ghost struct OutPointV {
    pub txid: Seq<u8>,
    pub vout: u32,
}

/// Mathematical model of a [`TxOut`].
#[verifier::ext_equal]
pub ghost struct TxOutV {
    pub value: u64,
    pub script_pubkey: Seq<u8>,
}

/// Mathematical model of a [`TxIn`].
#[verifier::ext_equal]
pub ghost struct TxInV {
    pub previous_output: OutPointV,
    pub script_sig: Seq<u8>,
    pub sequence: u32,
    pub witness: Seq<Seq<u8>>,
}

/// Mathematical model of a [`Transaction`].
#[verifier::ext_equal]
pub ghost struct TxV {
    pub version: i32,
    pub lock_time: u32,
    pub inputs: Seq<TxInV>,
    pub outputs: Seq<TxOutV>,
}

/// Reference to one output of a previous transaction: the hash of that
/// transaction and the index of the output within it.
#[derive(Clone, Debug, PartialEq, Eq)]
pub struct OutPoint {
    pub txid: Vec<u8>,
    pub vout: u32,
}

/// One transaction output: an amount in satoshis and the locking script
/// that encumbers it.
#[derive(Clone, Debug, PartialEq, Eq)]
pub struct TxOut {
    pub value: u64,
    pub script_pubkey: Vec<u8>,
}

/// One transaction input: the outpoint it spends, the legacy signature
/// script (empty for segwit spends), the sequence number, and the witness
/// stack (empty before signing; signature and public key after).
#[derive(Clone, Debug, PartialEq, Eq)]
pub struct TxIn {
    pub previous_output: OutPoint,
    pub script_sig: Vec<u8>,
    pub sequence: u32,
    pub witness: Vec<Vec<u8>>,
}

/// A transaction: version, inputs, outputs and lock time. The witness slot
/// of each input progresses from empty (unsigned) to populated (signed).
#[derive(Clone, Debug, PartialEq, Eq)]
pub struct Transaction {
    pub version: i32,
    pub lock_time: u32,
    pub input: Vec<TxIn>,
    pub output: Vec<TxOut>,
}

impl View for OutPoint {
    type V = OutPointV;

    open spec fn view(&self) -> OutPointV {
        OutPointV { txid: self.txid@, vout: self.vout }
    }
}

impl View for TxOut {
    type V = TxOutV;

    open spec fn view(&self) -> TxOutV {
        TxOutV { value: self.value, script_pubkey: self.script_pubkey@ }
    }
}

impl View for TxIn {
    type V = TxInV;

    open spec fn view(&self) -> TxInV {
        TxInV {
            previous_output: self.previous_output@,
            script_sig: self.script_sig@,
            sequence: self.sequence,
            witness: self.witness@.map_values(|w: Vec<u8>| w@),
        }
    }
}

impl View for Transaction {
    type V = TxV;

    open spec fn view(&self) -> TxV {
        TxV {
            version: self.version,
            lock_time: self.lock_time,
            inputs: self.input@.map_values(|i: TxIn| i@),
            outputs: self.output@.map_values(|o: TxOut| o@),
        }
    }
}

impl OutPointV {
    /// A well-formed outpoint carries a 32-byte transaction hash.
    pub open spec fn wf(self) -> bool {
        self.txid.len() == 32
    }
}

impl TxInV {
    pub open spec fn wf(self) -> bool {
        self.previous_output.wf()
    }
}

impl TxV {
    /// Every input refers to its previous output by a 32-byte hash.
    pub open spec fn wf(self) -> bool {
        forall|i: int| 0 <= i < self.inputs.len() ==> (#[trigger] self.inputs[i]).wf()
    }

    /// Every count and byte-string length fits the wire format's 64-bit
    /// length prefixes. Holds of any transaction built from in-memory
    /// vectors; stated separately because the model's sequences are
    /// unbounded.
    pub open spec fn wire_sized(self) -> bool {
        &&& self.inputs.len() <= u64::MAX
        &&& self.outputs.len() <= u64::MAX
        &&& forall|i: int|
            0 <= i < self.inputs.len() ==> {
                &&& (#[trigger] self.inputs[i]).script_sig.len() <= u64::MAX
                &&& self.inputs[i].witness.len() <= u64::MAX
                &&& forall|j: int|
                    0 <= j < self.inputs[i].witness.len()
                        ==> (#[trigger] self.inputs[i].witness[j]).len() <= u64::MAX
            }
        &&& forall|o: int|
            0 <= o < self.outputs.len() ==> (#[trigger] self.outputs[o]).script_pubkey.len()
                <= u64::MAX
    }
}

/// The locking-script pattern of a P2WPKH output: witness version 0 and a
/// push of the 20-byte public-key hash.
pub open spec fn is_p2wpkh_script_pubkey(s: Seq<u8>) -> bool {
    s.len() == 22 && s[0] == 0x00u8 && s[1] == 0x14u8
}

/// The canonical P2WPKH script code substituted into the BIP143 preimage:
/// `OP_DUP OP_HASH160 <20-byte hash> OP_EQUALVERIFY OP_CHECKSIG`.
pub open spec fn p2wpkh_script_code_of(pkh: Seq<u8>) -> Seq<u8> {
    seq![0x76u8, 0xa9u8, 0x14u8] + pkh + seq![0x88u8, 0xacu8]
}

/// Derives the BIP143 script code from a P2WPKH locking script.
///
/// Returns `MalformedScript` exactly when the input is not the P2WPKH
/// pattern (version byte `0x00`, push of a 20-byte hash).
pub fn script_code_for_p2wpkh(locking_script: &Vec<u8>) -> (r: Result<Vec<u8>, Error>)
    ensures
        is_p2wpkh_script_pubkey(locking_script@) ==> (r matches Ok(sc)
            && sc@ == p2wpkh_script_code_of(locking_script@.subrange(2, 22))
            && sc@.len() == 25),
        !is_p2wpkh_script_pubkey(locking_script@) ==> (r matches Err(e) && e == Error::MalformedScript),
{
    if locking_script.len() != 22 || locking_script[0] != 0x00u8 || locking_script[1] != 0x14u8 {
        return Err(Error::MalformedScript);
    }
    let mut sc: Vec<u8> = Vec::new();
    sc.push(0x76u8);
    sc.push(0xa9u8);
    sc.push(0x14u8);
    let mut j: usize = 2;
    while j < 22
        invariant
            2 <= j <= 22,
            locking_script@.len() == 22,
            sc@ == seq![0x76u8, 0xa9u8, 0x14u8] + locking_script@.subrange(2, j as int),
        decreases 22 - j,
    {
        sc.push(locking_script[j]);
        assert(locking_script@.subrange(2, j + 1 as int)
            == locking_script@.subrange(2, j as int) + seq![locking_script@[j as int]]);
        j = j + 1;
    }
    sc.push(0x88u8);
    sc.push(0xacu8);
    proof {
        assert(sc@ =~= p2wpkh_script_code_of(locking_script@.subrange(2, 22)));
    }
    Ok(sc)
}

/// An input is signed when its witness holds the two P2WPKH elements:
/// the signature with its sighash-type byte, and the compressed public key.
pub open spec fn input_is_signed(t: TxV, i: int) -> bool {
    0 <= i < t.inputs.len() && t.inputs[i].witness.len() == 2
}

/// Whether the input at `input_index` carries a complete witness stack.
/// Broadcast-bound serialization should be gated on this holding for
/// every input.
pub fn is_signed(tx: &Transaction, input_index: usize) -> (r: bool)
    ensures
        r == input_is_signed(tx@, input_index as int),
{
    input_index < tx.input.len() && tx.input[input_index].witness.len() == 2
}

} // verus!
