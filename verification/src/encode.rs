//! Canonical wire serialization: little-endian integers, compact-size
//! length prefixes, the legacy transaction form (hashed for the txid) and
//! the extended form with marker, flag and witness data.

use vstd::prelude::*;
use crate::tx::{OutPointV, TxInV, TxOutV, TxV, Transaction, TxIn, TxOut};
use crate::crypto::{sha256d, sha256d_of, hex_of, to_hex};

verus! {

pub open spec fn le16(v: u16) -> Seq<u8> {
    seq![(v & 0xff) as u8, ((v >> 8) & 0xff) as u8]
}

pub open spec fn le32(v: u32) -> Seq<u8> {
    seq![
        (v & 0xff) as u8,
        ((v >> 8) & 0xff) as u8,
        ((v >> 16) & 0xff) as u8,
        ((v >> 24) & 0xff) as u8,
    ]
}

pub open spec fn le64(v: u64) -> Seq<u8> {
    seq![
        (v & 0xff) as u8,
        ((v >> 8) & 0xff) as u8,
        ((v >> 16) & 0xff) as u8,
        ((v >> 24) & 0xff) as u8,
        ((v >> 32) & 0xff) as u8,
        ((v >> 40) & 0xff) as u8,
        ((v >> 48) & 0xff) as u8,
        ((v >> 56) & 0xff) as u8,
    ]
}

/// Bitcoin's variable-length integer: one byte below 0xfd, otherwise a tag
/// byte followed by the value in 2, 4 or 8 little-endian bytes.
pub open spec fn compact_size(n: u64) -> Seq<u8> {
    if n < 0xfd {
        seq![n as u8]
    } else if n <= 0xffff {
        seq![0xfdu8] + le16(n as u16)
    } else if n <= 0xffffffff {
        seq![0xfeu8] + le32(n as u32)
    } else {
        seq![0xffu8] + le64(n)
    }
}

/// A byte string on the wire: its length as a compact size, then the bytes.
pub open spec fn ser_bytes(b: Seq<u8>) -> Seq<u8> {
    compact_size(b.len() as u64) + b
}

pub open spec fn ser_outpoint(o: OutPointV) -> Seq<u8> {
    o.txid + le32(o.vout)
}

pub open spec fn ser_txout(o: TxOutV) -> Seq<u8> {
    le64(o.value) + ser_bytes(o.script_pubkey)
}

pub open spec fn ser_txin(i: TxInV) -> Seq<u8> {
    ser_outpoint(i.previous_output) + ser_bytes(i.script_sig) + le32(i.sequence)
}

pub open spec fn ser_inputs(s: Seq<TxInV>) -> Seq<u8> {
    s.flat_map(|i: TxInV| ser_txin(i))
}

pub open spec fn ser_outputs(s: Seq<TxOutV>) -> Seq<u8> {
    s.flat_map(|o: TxOutV| ser_txout(o))
}

/// One input's witness stack: the item count, then each item
/// length-prefixed.
pub open spec fn ser_witness_stack(items: Seq<Seq<u8>>) -> Seq<u8> {
    compact_size(items.len() as u64) + items.flat_map(|w: Seq<u8>| ser_bytes(w))
}

pub open spec fn ser_witnesses(inputs: Seq<TxInV>) -> Seq<u8> {
    inputs.flat_map(|i: TxInV| ser_witness_stack(i.witness))
}

/// The legacy (pre-witness) serialization; its double SHA-256 is the txid.
pub open spec fn ser_tx_legacy(t: TxV) -> Seq<u8> {
    le32(t.version as u32) + compact_size(t.inputs.len() as u64) + ser_inputs(t.inputs)
        + compact_size(t.outputs.len() as u64) + ser_outputs(t.outputs) + le32(t.lock_time)
}

/// The extended serialization: version, marker 0x00, flag 0x01, inputs,
/// outputs, one witness stack per input, lock time.
pub open spec fn ser_tx(t: TxV) -> Seq<u8> {
    le32(t.version as u32) + seq![0x00u8, 0x01u8]
        + compact_size(t.inputs.len() as u64) + ser_inputs(t.inputs)
        + compact_size(t.outputs.len() as u64) + ser_outputs(t.outputs)
        + ser_witnesses(t.inputs) + le32(t.lock_time)
}

/// The transaction id: double SHA-256 of the legacy serialization.
pub open spec fn txid_of(t: TxV) -> Seq<u8> {
    sha256d_of(ser_tx_legacy(t))
}

pub(crate) fn push_u16_le(out: &mut Vec<u8>, v: u16)
    ensures
        final(out)@ == old(out)@ + le16(v),
{
    out.push((v & 0xff) as u8);
    out.push(((v >> 8) & 0xff) as u8);
    proof {
        assert(out@ =~= old(out)@ + le16(v));
    }
}

pub(crate) fn push_u32_le(out: &mut Vec<u8>, v: u32)
    ensures
        final(out)@ == old(out)@ + le32(v),
{
    out.push((v & 0xff) as u8);
    out.push(((v >> 8) & 0xff) as u8);
    out.push(((v >> 16) & 0xff) as u8);
    out.push(((v >> 24) & 0xff) as u8);
    proof {
        assert(out@ =~= old(out)@ + le32(v));
    }
}

pub(crate) fn push_u64_le(out: &mut Vec<u8>, v: u64)
    ensures
        final(out)@ == old(out)@ + le64(v),
{
    out.push((v & 0xff) as u8);
    out.push(((v >> 8) & 0xff) as u8);
    out.push(((v >> 16) & 0xff) as u8);
    out.push(((v >> 24) & 0xff) as u8);
    out.push(((v >> 32) & 0xff) as u8);
    out.push(((v >> 40) & 0xff) as u8);
    out.push(((v >> 48) & 0xff) as u8);
    out.push(((v >> 56) & 0xff) as u8);
    proof {
        assert(out@ =~= old(out)@ + le64(v));
    }
}

pub(crate) fn push_compact_size(out: &mut Vec<u8>, n: u64)
    ensures
        final(out)@ == old(out)@ + compact_size(n),
{
    if n < 0xfd {
        out.push(n as u8);
        proof {
            assert(out@ =~= old(out)@ + compact_size(n));
        }
    } else if n <= 0xffff {
        out.push(0xfdu8);
        push_u16_le(out, n as u16);
        proof {
            assert(out@ =~= old(out)@ + compact_size(n));
        }
    } else if n <= 0xffffffff {
        out.push(0xfeu8);
        push_u32_le(out, n as u32);
        proof {
            assert(out@ =~= old(out)@ + compact_size(n));
        }
    } else {
        out.push(0xffu8);
        push_u64_le(out, n);
        proof {
            assert(out@ =~= old(out)@ + compact_size(n));
        }
    }
}

pub(crate) fn push_bytes(out: &mut Vec<u8>, b: &Vec<u8>)
    ensures
        final(out)@ == old(out)@ + b@,
{
    let mut i: usize = 0;
    while i < b.len()
        invariant
            0 <= i <= b.len(),
            out@ == old(out)@ + b@.take(i as int),
        decreases b.len() - i,
    {
        out.push(b[i]);
        proof {
            assert(b@.take(i + 1 as int) =~= b@.take(i as int) + seq![b@[i as int]]);
            assert(out@ =~= old(out)@ + b@.take(i + 1 as int));
        }
        i = i + 1;
    }
    proof {
        assert(b@.take(b@.len() as int) =~= b@);
    }
}

pub(crate) fn push_var_bytes(out: &mut Vec<u8>, b: &Vec<u8>)
    ensures
        final(out)@ == old(out)@ + ser_bytes(b@),
{
    let n: usize = b.len();
    push_compact_size(out, n as u64);
    push_bytes(out, b);
    proof {
        assert(out@ =~= old(out)@ + ser_bytes(b@));
    }
}

pub(crate) fn push_txin(out: &mut Vec<u8>, i: &TxIn)
    ensures
        final(out)@ == old(out)@ + ser_txin(i@),
{
    push_bytes(out, &i.previous_output.txid);
    push_u32_le(out, i.previous_output.vout);
    push_var_bytes(out, &i.script_sig);
    push_u32_le(out, i.sequence);
    proof {
        assert(out@ =~= old(out)@ + ser_txin(i@));
    }
}

pub(crate) fn push_txout(out: &mut Vec<u8>, o: &TxOut)
    ensures
        final(out)@ == old(out)@ + ser_txout(o@),
{
    push_u64_le(out, o.value);
    push_var_bytes(out, &o.script_pubkey);
    proof {
        assert(out@ =~= old(out)@ + ser_txout(o@));
    }
}

pub(crate) fn push_witness_stack(out: &mut Vec<u8>, items: &Vec<Vec<u8>>)
    ensures
        final(out)@ == old(out)@ + ser_witness_stack(items@.map_values(|w: Vec<u8>| w@)),
{
    let ghost itemsv: Seq<Seq<u8>> = items@.map_values(|w: Vec<u8>| w@);
    let n: usize = items.len();
    push_compact_size(out, n as u64);
    let ghost mid: Seq<u8> = out@;
    let mut j: usize = 0;
    while j < items.len()
        invariant
            0 <= j <= items.len(),
            itemsv == items@.map_values(|w: Vec<u8>| w@),
            out@ == mid + itemsv.take(j as int).flat_map(|w: Seq<u8>| ser_bytes(w)),
        decreases items.len() - j,
    {
        push_var_bytes(out, &items[j]);
        proof {
            broadcast use vstd::prelude::Seq::lemma_flat_map_take_append;
            assert(itemsv[j as int] == items@[j as int]@);
        }
        j = j + 1;
    }
    proof {
        assert(itemsv.take(itemsv.len() as int) =~= itemsv);
        assert(out@ =~= old(out)@ + ser_witness_stack(itemsv));
    }
}

pub(crate) fn copy_bytes(src: &Vec<u8>) -> (r: Vec<u8>)
    ensures
        r@ == src@,
{
    let mut out: Vec<u8> = Vec::new();
    push_bytes(&mut out, src);
    proof {
        assert(out@ =~= src@);
    }
    out
}

/// Serializes a transaction in the legacy (witness-free) form whose double
/// SHA-256 is the transaction id.
pub fn serialize_transaction_legacy(tx: &Transaction) -> (r: Vec<u8>)
    ensures
        r@ == ser_tx_legacy(tx@),
{
    let mut out: Vec<u8> = Vec::new();
    push_u32_le(&mut out, tx.version as u32);
    let n_in: usize = tx.input.len();
    push_compact_size(&mut out, n_in as u64);
    let ghost pre_in: Seq<u8> = out@;
    let mut i: usize = 0;
    while i < tx.input.len()
        invariant
            0 <= i <= tx.input.len(),
            out@ == pre_in + ser_inputs(tx@.inputs.take(i as int)),
            tx@.inputs == tx.input@.map_values(|x: TxIn| x@),
            tx@.inputs.len() == tx.input@.len(),
        decreases tx.input.len() - i,
    {
        push_txin(&mut out, &tx.input[i]);
        proof {
            broadcast use vstd::prelude::Seq::lemma_flat_map_take_append;
            assert(tx@.inputs[i as int] == tx.input@[i as int]@);
        }
        i = i + 1;
    }
    proof {
        assert(tx@.inputs.take(tx@.inputs.len() as int) =~= tx@.inputs);
    }
    let n_out: usize = tx.output.len();
    push_compact_size(&mut out, n_out as u64);
    let ghost pre_out: Seq<u8> = out@;
    let mut j: usize = 0;
    while j < tx.output.len()
        invariant
            0 <= j <= tx.output.len(),
            out@ == pre_out + ser_outputs(tx@.outputs.take(j as int)),
            tx@.outputs == tx.output@.map_values(|x: TxOut| x@),
            tx@.outputs.len() == tx.output@.len(),
        decreases tx.output.len() - j,
    {
        push_txout(&mut out, &tx.output[j]);
        proof {
            broadcast use vstd::prelude::Seq::lemma_flat_map_take_append;
            assert(tx@.outputs[j as int] == tx.output@[j as int]@);
        }
        j = j + 1;
    }
    proof {
        assert(tx@.outputs.take(tx@.outputs.len() as int) =~= tx@.outputs);
    }
    push_u32_le(&mut out, tx.lock_time);
    proof {
        assert(out@ =~= ser_tx_legacy(tx@));
    }
    out
}

/// Serializes a transaction in the extended (BIP144) wire form: version,
/// marker and flag, inputs, outputs, witness stacks, lock time.
pub fn serialize_transaction(tx: &Transaction) -> (r: Vec<u8>)
    ensures
        r@ == ser_tx(tx@),
{
    let mut out: Vec<u8> = Vec::new();
    push_u32_le(&mut out, tx.version as u32);
    out.push(0x00u8);
    out.push(0x01u8);
    let n_in: usize = tx.input.len();
    push_compact_size(&mut out, n_in as u64);
    let ghost pre_in: Seq<u8> = out@;
    let mut i: usize = 0;
    while i < tx.input.len()
        invariant
            0 <= i <= tx.input.len(),
            out@ == pre_in + ser_inputs(tx@.inputs.take(i as int)),
            tx@.inputs == tx.input@.map_values(|x: TxIn| x@),
            tx@.inputs.len() == tx.input@.len(),
        decreases tx.input.len() - i,
    {
        push_txin(&mut out, &tx.input[i]);
        proof {
            broadcast use vstd::prelude::Seq::lemma_flat_map_take_append;
            assert(tx@.inputs[i as int] == tx.input@[i as int]@);
        }
        i = i + 1;
    }
    proof {
        assert(tx@.inputs.take(tx@.inputs.len() as int) =~= tx@.inputs);
    }
    let n_out: usize = tx.output.len();
    push_compact_size(&mut out, n_out as u64);
    let ghost pre_out: Seq<u8> = out@;
    let mut j: usize = 0;
    while j < tx.output.len()
        invariant
            0 <= j <= tx.output.len(),
            out@ == pre_out + ser_outputs(tx@.outputs.take(j as int)),
            tx@.outputs == tx.output@.map_values(|x: TxOut| x@),
            tx@.outputs.len() == tx.output@.len(),
        decreases tx.output.len() - j,
    {
        push_txout(&mut out, &tx.output[j]);
        proof {
            broadcast use vstd::prelude::Seq::lemma_flat_map_take_append;
            assert(tx@.outputs[j as int] == tx.output@[j as int]@);
        }
        j = j + 1;
    }
    proof {
        assert(tx@.outputs.take(tx@.outputs.len() as int) =~= tx@.outputs);
    }
    let ghost pre_wit: Seq<u8> = out@;
    let mut k: usize = 0;
    while k < tx.input.len()
        invariant
            0 <= k <= tx.input.len(),
            out@ == pre_wit + ser_witnesses(tx@.inputs.take(k as int)),
            tx@.inputs == tx.input@.map_values(|x: TxIn| x@),
            tx@.inputs.len() == tx.input@.len(),
        decreases tx.input.len() - k,
    {
        push_witness_stack(&mut out, &tx.input[k].witness);
        proof {
            broadcast use vstd::prelude::Seq::lemma_flat_map_take_append;
            assert(tx@.inputs[k as int] == tx.input@[k as int]@);
        }
        k = k + 1;
    }
    proof {
        assert(tx@.inputs.take(tx@.inputs.len() as int) =~= tx@.inputs);
    }
    push_u32_le(&mut out, tx.lock_time);
    proof {
        assert(out@ =~= ser_tx(tx@));
    }
    out
}

/// Computes the transaction id: double SHA-256 over the legacy
/// serialization, so witness data never affects it.
pub fn txid(tx: &Transaction) -> (r: Vec<u8>)
    ensures
        r@ == txid_of(tx@),
        r@.len() == 32,
{
    let bytes = serialize_transaction_legacy(tx);
    sha256d(&bytes)
}

/// Serializes a transaction in the extended wire form and hex-encodes the
/// bytes for display or transport.
pub fn serialize_transaction_hex(tx: &Transaction) -> (r: String)
    ensures
        r@ == hex_of(ser_tx(tx@)),
{
    let bytes = serialize_transaction(tx);
    to_hex(&bytes)
}

} // verus!
