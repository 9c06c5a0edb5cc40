//! Parsing the extended wire form back into a transaction, and the proof
//! that parsing inverts serialization.

use vstd::prelude::*;
use crate::tx::{OutPoint, OutPointV, Transaction, TxIn, TxInV, TxOut, TxOutV, TxV};
use crate::encode::{
    compact_size, le16, le32, le64, ser_bytes, ser_inputs, ser_outpoint, ser_outputs, ser_tx,
    ser_txin, ser_txout, ser_witness_stack, ser_witnesses,
};

verus! {

pub open spec fn u16_from(b0: u8, b1: u8) -> u16 {
    (b0 as u16) | ((b1 as u16) << 8)
}

pub open spec fn u32_from(b0: u8, b1: u8, b2: u8, b3: u8) -> u32 {
    (b0 as u32) | ((b1 as u32) << 8) | ((b2 as u32) << 16) | ((b3 as u32) << 24)
}

pub open spec fn u64_from(b0: u8, b1: u8, b2: u8, b3: u8, b4: u8, b5: u8, b6: u8, b7: u8) -> u64 {
    (b0 as u64) | ((b1 as u64) << 8) | ((b2 as u64) << 16) | ((b3 as u64) << 24) | ((b4 as u64)
        << 32) | ((b5 as u64) << 40) | ((b6 as u64) << 48) | ((b7 as u64) << 56)
}

/// Parses two little-endian bytes at `p`: the value and the next position.
pub open spec fn parse_u16_at(b: Seq<u8>, p: int) -> Option<(u16, int)> {
    if 0 <= p && p + 2 <= b.len() {
        Some((u16_from(b[p], b[p + 1]), p + 2))
    } else {
        None
    }
}

pub open spec fn parse_u32_at(b: Seq<u8>, p: int) -> Option<(u32, int)> {
    if 0 <= p && p + 4 <= b.len() {
        Some((u32_from(b[p], b[p + 1], b[p + 2], b[p + 3]), p + 4))
    } else {
        None
    }
}

pub open spec fn parse_u64_at(b: Seq<u8>, p: int) -> Option<(u64, int)> {
    if 0 <= p && p + 8 <= b.len() {
        Some(
            (u64_from(b[p], b[p + 1], b[p + 2], b[p + 3], b[p + 4], b[p + 5], b[p + 6], b[p + 7]),
            p + 8),
        )
    } else {
        None
    }
}

/// Parses a compact-size integer at `p`.
pub open spec fn parse_compact_at(b: Seq<u8>, p: int) -> Option<(u64, int)> {
    if 0 <= p && p < b.len() {
        let tag = b[p];
        if tag < 0xfd {
            Some((tag as u64, p + 1))
        } else if tag == 0xfd {
            match parse_u16_at(b, p + 1) {
                Some((v, q)) => Some((v as u64, q)),
                None => None,
            }
        } else if tag == 0xfe {
            match parse_u32_at(b, p + 1) {
                Some((v, q)) => Some((v as u64, q)),
                None => None,
            }
        } else {
            parse_u64_at(b, p + 1)
        }
    } else {
        None
    }
}

/// Parses a length-prefixed byte string at `p`.
pub open spec fn parse_varbytes_at(b: Seq<u8>, p: int) -> Option<(Seq<u8>, int)> {
    match parse_compact_at(b, p) {
        Some((n, q)) => if q + n <= b.len() {
            Some((b.subrange(q, q + n), q + n))
        } else {
            None
        },
        None => None,
    }
}

/// Parses one input's legacy fields at `p`; the witness is attached later.
pub open spec fn parse_txin_at(b: Seq<u8>, p: int) -> Option<(TxInV, int)> {
    if 0 <= p && p + 32 <= b.len() {
        let txid = b.subrange(p, p + 32);
        match parse_u32_at(b, p + 32) {
            Some((vout, q)) => match parse_varbytes_at(b, q) {
                Some((script_sig, q2)) => match parse_u32_at(b, q2) {
                    Some((sequence, q3)) => Some(
                        (TxInV {
                            previous_output: OutPointV { txid, vout },
                            script_sig,
                            sequence,
                            witness: Seq::empty(),
                        }, q3),
                    ),
                    None => None,
                },
                None => None,
            },
            None => None,
        }
    } else {
        None
    }
}

pub open spec fn parse_txout_at(b: Seq<u8>, p: int) -> Option<(TxOutV, int)> {
    match parse_u64_at(b, p) {
        Some((value, q)) => match parse_varbytes_at(b, q) {
            Some((script_pubkey, q2)) => Some((TxOutV { value, script_pubkey }, q2)),
            None => None,
        },
        None => None,
    }
}

pub open spec fn parse_inputs_at(b: Seq<u8>, p: int, n: nat) -> Option<(Seq<TxInV>, int)>
    decreases n,
{
    if n == 0 {
        Some((Seq::empty(), p))
    } else {
        match parse_txin_at(b, p) {
            Some((i, q)) => match parse_inputs_at(b, q, (n - 1) as nat) {
                Some((rest, r)) => Some((seq![i] + rest, r)),
                None => None,
            },
            None => None,
        }
    }
}

pub open spec fn parse_outputs_at(b: Seq<u8>, p: int, n: nat) -> Option<(Seq<TxOutV>, int)>
    decreases n,
{
    if n == 0 {
        Some((Seq::empty(), p))
    } else {
        match parse_txout_at(b, p) {
            Some((o, q)) => match parse_outputs_at(b, q, (n - 1) as nat) {
                Some((rest, r)) => Some((seq![o] + rest, r)),
                None => None,
            },
            None => None,
        }
    }
}

/// Parses `n` length-prefixed witness items at `p`.
pub open spec fn parse_witness_items_at(b: Seq<u8>, p: int, n: nat) -> Option<(Seq<Seq<u8>>, int)>
    decreases n,
{
    if n == 0 {
        Some((Seq::empty(), p))
    } else {
        match parse_varbytes_at(b, p) {
            Some((w, q)) => match parse_witness_items_at(b, q, (n - 1) as nat) {
                Some((rest, r)) => Some((seq![w] + rest, r)),
                None => None,
            },
            None => None,
        }
    }
}

/// Parses one witness stack: the item count, then that many items.
pub open spec fn parse_stack_at(b: Seq<u8>, p: int) -> Option<(Seq<Seq<u8>>, int)> {
    match parse_compact_at(b, p) {
        Some((n, q)) => parse_witness_items_at(b, q, n as nat),
        None => None,
    }
}

/// Parses `n` witness stacks, one per input.
pub open spec fn parse_stacks_at(b: Seq<u8>, p: int, n: nat) -> Option<(Seq<Seq<Seq<u8>>>, int)>
    decreases n,
{
    if n == 0 {
        Some((Seq::empty(), p))
    } else {
        match parse_stack_at(b, p) {
            Some((s, q)) => match parse_stacks_at(b, q, (n - 1) as nat) {
                Some((rest, r)) => Some((seq![s] + rest, r)),
                None => None,
            },
            None => None,
        }
    }
}

/// Each input with its parsed witness stack installed.
pub open spec fn attach_witnesses(ins: Seq<TxInV>, stacks: Seq<Seq<Seq<u8>>>) -> Seq<TxInV> {
    Seq::new(ins.len(), |k: int| TxInV { witness: stacks[k], ..ins[k] })
}

/// Parses a whole transaction in the extended wire form, requiring the
/// marker and flag bytes and exact consumption of the input.
pub open spec fn parse_tx(b: Seq<u8>) -> Option<TxV> {
    match parse_u32_at(b, 0) {
        Some((ver, p)) => if p + 2 <= b.len() && b[p] == 0x00u8 && b[p + 1] == 0x01u8 {
            match parse_compact_at(b, p + 2) {
                Some((n_in, p2)) => match parse_inputs_at(b, p2, n_in as nat) {
                    Some((ins, p3)) => match parse_compact_at(b, p3) {
                        Some((n_out, p4)) => match parse_outputs_at(b, p4, n_out as nat) {
                            Some((outs, p5)) => match parse_stacks_at(b, p5, n_in as nat) {
                                Some((stacks, p6)) => match parse_u32_at(b, p6) {
                                    Some((lock_time, p7)) => if p7 == b.len() {
                                        Some(
                                            TxV {
                                                version: ver as i32,
                                                lock_time,
                                                inputs: attach_witnesses(ins, stacks),
                                                outputs: outs,
                                            },
                                        )
                                    } else {
                                        None
                                    },
                                    None => None,
                                },
                                None => None,
                            },
                            None => None,
                        },
                        None => None,
                    },
                    None => None,
                },
                None => None,
            }
        } else {
            None
        },
        None => None,
    }
}

/// A sequence flat-mapped over a non-empty sequence splits into the image
/// of the first element and the flat map of the rest.
proof fn lemma_flat_map_first<A, B>(s: Seq<A>, f: spec_fn(A) -> Seq<B>)
    requires
        s.len() > 0,
    ensures
        s.flat_map(f) == f(s[0]) + s.drop_first().flat_map(f),
{
    let m = s.map_values(f);
    assert(m.drop_first() =~= s.drop_first().map_values(f));
    assert(m.flatten() == m.first() + m.drop_first().flatten());
    assert(s.flat_map(f) =~= f(s[0]) + s.drop_first().flat_map(f));
}
proof fn lemma_prefix_index(b: Seq<u8>, p: int, w: Seq<u8>, k: int)
    requires
        0 <= p,
        p + w.len() <= b.len(),
        b.subrange(p, p + w.len() as int) == w,
        0 <= k < w.len(),
    ensures
        b[p + k] == w[k],
{
    assert(b.subrange(p, p + w.len() as int)[k] == b[p + k]);
}

proof fn lemma_sub_prefix(b: Seq<u8>, p: int, w: Seq<u8>, off: int, l: int)
    requires
        0 <= p,
        p + w.len() <= b.len(),
        b.subrange(p, p + w.len() as int) == w,
        0 <= off,
        0 <= l,
        off + l <= w.len(),
    ensures
        b.subrange(p + off, p + off + l) == w.subrange(off, off + l),
{
    assert forall|k: int| 0 <= k < l implies #[trigger] b.subrange(p + off, p + off + l)[k]
        == w.subrange(off, off + l)[k] by {
        assert(b.subrange(p, p + w.len() as int)[off + k] == b[p + off + k]);
    }
    assert(b.subrange(p + off, p + off + l) =~= w.subrange(off, off + l));
}

proof fn lemma_parse_u16_prefix(b: Seq<u8>, p: int, v: u16)
    requires
        0 <= p,
        p + 2 <= b.len(),
        b.subrange(p, p + 2) == le16(v),
    ensures
        parse_u16_at(b, p) == Some((v, p + 2)),
{
    let w = le16(v);
    lemma_prefix_index(b, p, w, 0);
    lemma_prefix_index(b, p, w, 1);
    assert(b[p] == (v & 0xff) as u8);
    assert(b[p + 1] == ((v >> 8) & 0xff) as u8);
    assert(((((v & 0xff) as u8) as u16) | ((((v >> 8) & 0xff) as u8) as u16) << 8) == v)
        by (bit_vector);
}

proof fn lemma_parse_u32_prefix(b: Seq<u8>, p: int, v: u32)
    requires
        0 <= p,
        p + 4 <= b.len(),
        b.subrange(p, p + 4) == le32(v),
    ensures
        parse_u32_at(b, p) == Some((v, p + 4)),
{
    let w = le32(v);
    lemma_prefix_index(b, p, w, 0);
    lemma_prefix_index(b, p, w, 1);
    lemma_prefix_index(b, p, w, 2);
    lemma_prefix_index(b, p, w, 3);
    assert(b[p] == (v & 0xff) as u8);
    assert(b[p + 1] == ((v >> 8) & 0xff) as u8);
    assert(b[p + 2] == ((v >> 16) & 0xff) as u8);
    assert(b[p + 3] == ((v >> 24) & 0xff) as u8);
    assert(((((v & 0xff) as u8) as u32) | ((((v >> 8) & 0xff) as u8) as u32) << 8 | ((((v >> 16)
        & 0xff) as u8) as u32) << 16 | ((((v >> 24) & 0xff) as u8) as u32) << 24) == v)
        by (bit_vector);
}

proof fn lemma_parse_u64_prefix(b: Seq<u8>, p: int, v: u64)
    requires
        0 <= p,
        p + 8 <= b.len(),
        b.subrange(p, p + 8) == le64(v),
    ensures
        parse_u64_at(b, p) == Some((v, p + 8)),
{
    let w = le64(v);
    lemma_prefix_index(b, p, w, 0);
    lemma_prefix_index(b, p, w, 1);
    lemma_prefix_index(b, p, w, 2);
    lemma_prefix_index(b, p, w, 3);
    lemma_prefix_index(b, p, w, 4);
    lemma_prefix_index(b, p, w, 5);
    lemma_prefix_index(b, p, w, 6);
    lemma_prefix_index(b, p, w, 7);
    assert(b[p] == (v & 0xff) as u8);
    assert(b[p + 1] == ((v >> 8) & 0xff) as u8);
    assert(b[p + 2] == ((v >> 16) & 0xff) as u8);
    assert(b[p + 3] == ((v >> 24) & 0xff) as u8);
    assert(b[p + 4] == ((v >> 32) & 0xff) as u8);
    assert(b[p + 5] == ((v >> 40) & 0xff) as u8);
    assert(b[p + 6] == ((v >> 48) & 0xff) as u8);
    assert(b[p + 7] == ((v >> 56) & 0xff) as u8);
    assert(((((v & 0xff) as u8) as u64) | ((((v >> 8) & 0xff) as u8) as u64) << 8 | ((((v >> 16)
        & 0xff) as u8) as u64) << 16 | ((((v >> 24) & 0xff) as u8) as u64) << 24 | ((((v >> 32)
        & 0xff) as u8) as u64) << 32 | ((((v >> 40) & 0xff) as u8) as u64) << 40 | ((((v >> 48)
        & 0xff) as u8) as u64) << 48 | ((((v >> 56) & 0xff) as u8) as u64) << 56) == v)
        by (bit_vector);
}

proof fn lemma_parse_compact_prefix(b: Seq<u8>, p: int, n: u64)
    requires
        0 <= p,
        p + compact_size(n).len() <= b.len(),
        b.subrange(p, p + compact_size(n).len() as int) == compact_size(n),
    ensures
        parse_compact_at(b, p) == Some((n, p + compact_size(n).len())),
{
    let w = compact_size(n);
    lemma_prefix_index(b, p, w, 0);
    if n < 0xfd {
        assert(w == seq![n as u8]);
        assert(b[p] == n as u8);
        assert((n as u8) < 0xfd && ((n as u8) as u64) == n) by (bit_vector)
            requires
                n < 0xfd,
        ;
    } else if n <= 0xffff {
        assert(w == seq![0xfdu8] + le16(n as u16));
        assert(b[p] == 0xfdu8);
        lemma_sub_prefix(b, p, w, 1, 2);
        assert(w.subrange(1, 3) =~= le16(n as u16));
        lemma_parse_u16_prefix(b, p + 1, n as u16);
        assert(((n as u16) as u64) == n) by (bit_vector)
            requires
                0xfd <= n <= 0xffff,
        ;
    } else if n <= 0xffffffff {
        assert(w == seq![0xfeu8] + le32(n as u32));
        assert(b[p] == 0xfeu8);
        lemma_sub_prefix(b, p, w, 1, 4);
        assert(w.subrange(1, 5) =~= le32(n as u32));
        lemma_parse_u32_prefix(b, p + 1, n as u32);
        assert(((n as u32) as u64) == n) by (bit_vector)
            requires
                0xffff < n <= 0xffffffff,
        ;
    } else {
        assert(w == seq![0xffu8] + le64(n));
        assert(b[p] == 0xffu8);
        lemma_sub_prefix(b, p, w, 1, 8);
        assert(w.subrange(1, 9) =~= le64(n));
        lemma_parse_u64_prefix(b, p + 1, n);
    }
}

proof fn lemma_parse_varbytes_prefix(b: Seq<u8>, p: int, s: Seq<u8>)
    requires
        0 <= p,
        s.len() <= u64::MAX,
        p + ser_bytes(s).len() <= b.len(),
        b.subrange(p, p + ser_bytes(s).len() as int) == ser_bytes(s),
    ensures
        parse_varbytes_at(b, p) == Some((s, p + ser_bytes(s).len())),
{
    let n = s.len() as u64;
    let w = ser_bytes(s);
    let cs = compact_size(n);
    assert(w == cs + s);
    lemma_sub_prefix(b, p, w, 0, cs.len() as int);
    assert(w.subrange(0, cs.len() as int) =~= cs);
    lemma_parse_compact_prefix(b, p, n);
    let q = p + cs.len() as int;
    lemma_sub_prefix(b, p, w, cs.len() as int, s.len() as int);
    assert(w.subrange(cs.len() as int, w.len() as int) =~= s);
    assert(n as int == s.len() as int);
    assert(b.subrange(q, q + n as int) == s);
}

proof fn lemma_parse_txin_prefix(b: Seq<u8>, p: int, i: TxInV)
    requires
        0 <= p,
        i.wf(),
        i.script_sig.len() <= u64::MAX,
        p + ser_txin(i).len() <= b.len(),
        b.subrange(p, p + ser_txin(i).len() as int) == ser_txin(i),
    ensures
        parse_txin_at(b, p) == Some((TxInV { witness: Seq::empty(), ..i }, p + ser_txin(i).len())),
{
    let w = ser_txin(i);
    assert(w == ser_outpoint(i.previous_output) + ser_bytes(i.script_sig) + le32(i.sequence));
    assert(ser_outpoint(i.previous_output) == i.previous_output.txid + le32(i.previous_output.vout));
    lemma_sub_prefix(b, p, w, 0, 32);
    assert(w.subrange(0, 32) =~= i.previous_output.txid);
    assert(b.subrange(p, p + 32) == i.previous_output.txid);
    lemma_sub_prefix(b, p, w, 32, 4);
    assert(w.subrange(32, 36) =~= le32(i.previous_output.vout));
    lemma_parse_u32_prefix(b, p + 32, i.previous_output.vout);
    let lss = ser_bytes(i.script_sig).len() as int;
    lemma_sub_prefix(b, p, w, 36, lss);
    assert(w.subrange(36, 36 + lss) =~= ser_bytes(i.script_sig));
    lemma_parse_varbytes_prefix(b, p + 36, i.script_sig);
    let q2 = p + 36 + lss;
    lemma_sub_prefix(b, p, w, 36 + lss, 4);
    assert(w.subrange(36 + lss, 36 + lss + 4) =~= le32(i.sequence));
    lemma_parse_u32_prefix(b, q2, i.sequence);
    assert(parse_txin_at(b, p) matches Some(r) && r.0 =~~= (TxInV { witness: Seq::empty(), ..i })
        && r.1 == p + ser_txin(i).len());
}

proof fn lemma_parse_txout_prefix(b: Seq<u8>, p: int, o: TxOutV)
    requires
        0 <= p,
        o.script_pubkey.len() <= u64::MAX,
        p + ser_txout(o).len() <= b.len(),
        b.subrange(p, p + ser_txout(o).len() as int) == ser_txout(o),
    ensures
        parse_txout_at(b, p) == Some((o, p + ser_txout(o).len())),
{
    let w = ser_txout(o);
    assert(w == le64(o.value) + ser_bytes(o.script_pubkey));
    lemma_sub_prefix(b, p, w, 0, 8);
    assert(w.subrange(0, 8) =~= le64(o.value));
    lemma_parse_u64_prefix(b, p, o.value);
    let lsp = ser_bytes(o.script_pubkey).len() as int;
    lemma_sub_prefix(b, p, w, 8, lsp);
    assert(w.subrange(8, 8 + lsp) =~= ser_bytes(o.script_pubkey));
    lemma_parse_varbytes_prefix(b, p + 8, o.script_pubkey);
}

/// The witness-free image of an input, as the legacy section encodes it.
pub open spec fn strip_witness(i: TxInV) -> TxInV {
    TxInV { witness: Seq::empty(), ..i }
}

proof fn lemma_parse_inputs_prefix(b: Seq<u8>, p: int, inputs: Seq<TxInV>)
    requires
        0 <= p,
        forall|k: int|
            0 <= k < inputs.len() ==> (#[trigger] inputs[k]).wf() && inputs[k].script_sig.len()
                <= u64::MAX,
        p + ser_inputs(inputs).len() <= b.len(),
        b.subrange(p, p + ser_inputs(inputs).len() as int) == ser_inputs(inputs),
    ensures
        parse_inputs_at(b, p, inputs.len()) == Some(
            (inputs.map_values(|i: TxInV| strip_witness(i)), p + ser_inputs(inputs).len()),
        ),
    decreases inputs.len(),
{
    let f = |i: TxInV| ser_txin(i);
    let w = ser_inputs(inputs);
    if inputs.len() == 0 {
        assert(w =~= Seq::<u8>::empty());
        assert(inputs.map_values(|i: TxInV| strip_witness(i)) =~= Seq::<TxInV>::empty());
    } else {
        lemma_flat_map_first(inputs, f);
        let first = inputs[0];
        let rest = inputs.drop_first();
        let l0 = ser_txin(first).len() as int;
        let lr = ser_inputs(rest).len() as int;
        assert(w == ser_txin(first) + ser_inputs(rest));
        lemma_sub_prefix(b, p, w, 0, l0);
        assert(w.subrange(0, l0) =~= ser_txin(first));
        lemma_parse_txin_prefix(b, p, first);
        let q = p + l0;
        lemma_sub_prefix(b, p, w, l0, lr);
        assert(w.subrange(l0, l0 + lr) =~= ser_inputs(rest));
        lemma_parse_inputs_prefix(b, q, rest);
        assert(seq![strip_witness(first)] + rest.map_values(|i: TxInV| strip_witness(i))
            =~= inputs.map_values(|i: TxInV| strip_witness(i)));
    }
}

proof fn lemma_parse_outputs_prefix(b: Seq<u8>, p: int, outputs: Seq<TxOutV>)
    requires
        0 <= p,
        forall|k: int|
            0 <= k < outputs.len() ==> (#[trigger] outputs[k]).script_pubkey.len() <= u64::MAX,
        p + ser_outputs(outputs).len() <= b.len(),
        b.subrange(p, p + ser_outputs(outputs).len() as int) == ser_outputs(outputs),
    ensures
        parse_outputs_at(b, p, outputs.len()) == Some(
            (outputs, p + ser_outputs(outputs).len()),
        ),
    decreases outputs.len(),
{
    let f = |o: TxOutV| ser_txout(o);
    let w = ser_outputs(outputs);
    if outputs.len() == 0 {
        assert(w =~= Seq::<u8>::empty());
    } else {
        lemma_flat_map_first(outputs, f);
        let first = outputs[0];
        let rest = outputs.drop_first();
        let l0 = ser_txout(first).len() as int;
        let lr = ser_outputs(rest).len() as int;
        assert(w == ser_txout(first) + ser_outputs(rest));
        lemma_sub_prefix(b, p, w, 0, l0);
        assert(w.subrange(0, l0) =~= ser_txout(first));
        lemma_parse_txout_prefix(b, p, first);
        let q = p + l0;
        lemma_sub_prefix(b, p, w, l0, lr);
        assert(w.subrange(l0, l0 + lr) =~= ser_outputs(rest));
        lemma_parse_outputs_prefix(b, q, rest);
        assert(seq![first] + rest =~= outputs);
    }
}

proof fn lemma_parse_witness_items_prefix(b: Seq<u8>, p: int, items: Seq<Seq<u8>>)
    requires
        0 <= p,
        forall|k: int| 0 <= k < items.len() ==> (#[trigger] items[k]).len() <= u64::MAX,
        p + items.flat_map(|w: Seq<u8>| ser_bytes(w)).len() <= b.len(),
        b.subrange(p, p + items.flat_map(|w: Seq<u8>| ser_bytes(w)).len() as int) == items.flat_map(
            |w: Seq<u8>| ser_bytes(w),
        ),
    ensures
        parse_witness_items_at(b, p, items.len()) == Some(
            (items, p + items.flat_map(|w: Seq<u8>| ser_bytes(w)).len()),
        ),
    decreases items.len(),
{
    let f = |w: Seq<u8>| ser_bytes(w);
    let w = items.flat_map(f);
    if items.len() == 0 {
        assert(w =~= Seq::<u8>::empty());
    } else {
        lemma_flat_map_first(items, f);
        let first = items[0];
        let rest = items.drop_first();
        let l0 = ser_bytes(first).len() as int;
        let lr = rest.flat_map(f).len() as int;
        assert(w == ser_bytes(first) + rest.flat_map(f));
        lemma_sub_prefix(b, p, w, 0, l0);
        assert(w.subrange(0, l0) =~= ser_bytes(first));
        lemma_parse_varbytes_prefix(b, p, first);
        let q = p + l0;
        lemma_sub_prefix(b, p, w, l0, lr);
        assert(w.subrange(l0, l0 + lr) =~= rest.flat_map(f));
        lemma_parse_witness_items_prefix(b, q, rest);
        assert(seq![first] + rest =~= items);
    }
}

proof fn lemma_parse_stack_prefix(b: Seq<u8>, p: int, items: Seq<Seq<u8>>)
    requires
        0 <= p,
        items.len() <= u64::MAX,
        forall|k: int| 0 <= k < items.len() ==> (#[trigger] items[k]).len() <= u64::MAX,
        p + ser_witness_stack(items).len() <= b.len(),
        b.subrange(p, p + ser_witness_stack(items).len() as int) == ser_witness_stack(items),
    ensures
        parse_stack_at(b, p) == Some((items, p + ser_witness_stack(items).len())),
{
    let n = items.len() as u64;
    let w = ser_witness_stack(items);
    let cs = compact_size(n);
    let body = items.flat_map(|x: Seq<u8>| ser_bytes(x));
    assert(w == cs + body);
    lemma_sub_prefix(b, p, w, 0, cs.len() as int);
    assert(w.subrange(0, cs.len() as int) =~= cs);
    lemma_parse_compact_prefix(b, p, n);
    let q = p + cs.len() as int;
    lemma_sub_prefix(b, p, w, cs.len() as int, body.len() as int);
    assert(w.subrange(cs.len() as int, w.len() as int) =~= body);
    assert(n as nat == items.len());
    lemma_parse_witness_items_prefix(b, q, items);
}

proof fn lemma_parse_stacks_prefix(b: Seq<u8>, p: int, inputs: Seq<TxInV>)
    requires
        0 <= p,
        forall|k: int|
            0 <= k < inputs.len() ==> (#[trigger] inputs[k]).witness.len() <= u64::MAX && (forall|
                j: int,
            |
                0 <= j < inputs[k].witness.len() ==> (#[trigger] inputs[k].witness[j]).len()
                    <= u64::MAX),
        p + ser_witnesses(inputs).len() <= b.len(),
        b.subrange(p, p + ser_witnesses(inputs).len() as int) == ser_witnesses(inputs),
    ensures
        parse_stacks_at(b, p, inputs.len()) == Some(
            (inputs.map_values(|i: TxInV| i.witness), p + ser_witnesses(inputs).len()),
        ),
    decreases inputs.len(),
{
    let f = |i: TxInV| ser_witness_stack(i.witness);
    let w = ser_witnesses(inputs);
    if inputs.len() == 0 {
        assert(w =~= Seq::<u8>::empty());
        assert(inputs.map_values(|i: TxInV| i.witness) =~= Seq::<Seq<Seq<u8>>>::empty());
    } else {
        lemma_flat_map_first(inputs, f);
        let first = inputs[0];
        let rest = inputs.drop_first();
        let l0 = ser_witness_stack(first.witness).len() as int;
        let lr = ser_witnesses(rest).len() as int;
        assert(w == ser_witness_stack(first.witness) + ser_witnesses(rest));
        lemma_sub_prefix(b, p, w, 0, l0);
        assert(w.subrange(0, l0) =~= ser_witness_stack(first.witness));
        lemma_parse_stack_prefix(b, p, first.witness);
        let q = p + l0;
        lemma_sub_prefix(b, p, w, l0, lr);
        assert(w.subrange(l0, l0 + lr) =~= ser_witnesses(rest));
        lemma_parse_stacks_prefix(b, q, rest);
        assert(seq![first.witness] + rest.map_values(|i: TxInV| i.witness) =~= inputs.map_values(
            |i: TxInV| i.witness,
        ));
    }
}

proof fn lemma_map_values_push<A, B>(s: Seq<A>, f: spec_fn(A) -> B, x: A)
    ensures
        s.push(x).map_values(f) == s.map_values(f).push(f(x)),
{
    assert(s.push(x).map_values(f) =~= s.map_values(f).push(f(x)));
}

proof fn lemma_map_values_remove0<A, B>(s: Seq<A>, f: spec_fn(A) -> B)
    requires
        s.len() > 0,
    ensures
        s.remove(0).map_values(f) == s.map_values(f).remove(0),
{
    assert forall|j: int| 0 <= j < s.len() - 1 implies #[trigger] s.remove(0).map_values(f)[j]
        == s.map_values(f).remove(0)[j] by {
        assert(s.remove(0)[j] == s[j + 1]);
        assert(s.map_values(f).remove(0)[j] == s.map_values(f)[j + 1]);
    }
    assert(s.remove(0).map_values(f) =~= s.map_values(f).remove(0));
}

/// Splitting a known concatenation at `p` into its two parts.
proof fn lemma_peel(b: Seq<u8>, p: int, x: Seq<u8>, y: Seq<u8>)
    requires
        0 <= p,
        p + x.len() + y.len() <= b.len(),
        b.subrange(p, p + x.len() + y.len()) == x + y,
    ensures
        b.subrange(p, p + x.len() as int) == x,
        b.subrange(p + x.len() as int, p + x.len() + y.len()) == y,
{
    lemma_sub_prefix(b, p, x + y, 0, x.len() as int);
    assert((x + y).subrange(0, x.len() as int) =~= x);
    lemma_sub_prefix(b, p, x + y, x.len() as int, y.len() as int);
    assert((x + y).subrange(x.len() as int, (x + y).len() as int) =~= y);
}

/// Law: parsing inverts serialization. Any well-formed transaction whose
/// counts and lengths fit the wire format's prefixes is reproduced, field
/// for field, by parsing its own extended serialization; in particular the
/// transaction id computed after the round trip is unchanged.
#[verifier::rlimit(100)]
#[verifier::spinoff_prover]
pub proof fn lemma_round_trip(t: TxV)
    requires
        t.wf(),
        t.wire_sized(),
    ensures
        parse_tx(ser_tx(t)) == Some(t),
        parse_tx(ser_tx(t)) matches Some(u) && crate::encode::txid_of(u) == crate::encode::txid_of(
            t,
        ),
{
    let b = ser_tx(t);
    let a1 = le32(t.version as u32);
    let a2 = seq![0x00u8, 0x01u8];
    let a3 = compact_size(t.inputs.len() as u64);
    let a4 = ser_inputs(t.inputs);
    let a5 = compact_size(t.outputs.len() as u64);
    let a6 = ser_outputs(t.outputs);
    let a7 = ser_witnesses(t.inputs);
    let a8 = le32(t.lock_time);
    let c2 = a1 + a2;
    let c3 = c2 + a3;
    let c4 = c3 + a4;
    let c5 = c4 + a5;
    let c6 = c5 + a6;
    let c7 = c6 + a7;
    assert(b == c7 + a8);
    let p1 = a1.len() as int;
    let p2 = p1 + a2.len() as int;
    let p3 = p2 + a3.len() as int;
    let p4 = p3 + a4.len() as int;
    let p5 = p4 + a5.len() as int;
    let p6 = p5 + a6.len() as int;
    let p7 = p6 + a7.len() as int;
    let p8 = p7 + a8.len() as int;
    assert(b.len() == p8);
    assert(b.subrange(0, p8) =~= b);
    lemma_peel(b, 0, c7, a8);
    lemma_peel(b, 0, c6, a7);
    lemma_peel(b, 0, c5, a6);
    lemma_peel(b, 0, c4, a5);
    lemma_peel(b, 0, c3, a4);
    lemma_peel(b, 0, c2, a3);
    lemma_peel(b, 0, a1, a2);
    lemma_parse_u32_prefix(b, 0, t.version as u32);
    lemma_prefix_index(b, p1, a2, 0);
    lemma_prefix_index(b, p1, a2, 1);
    assert(b[p1] == 0x00u8 && b[p1 + 1] == 0x01u8);
    lemma_parse_compact_prefix(b, p2, t.inputs.len() as u64);
    assert((t.inputs.len() as u64) as nat == t.inputs.len());
    lemma_parse_inputs_prefix(b, p3, t.inputs);
    lemma_parse_compact_prefix(b, p4, t.outputs.len() as u64);
    assert((t.outputs.len() as u64) as nat == t.outputs.len());
    lemma_parse_outputs_prefix(b, p5, t.outputs);
    lemma_parse_stacks_prefix(b, p6, t.inputs);
    lemma_parse_u32_prefix(b, p7, t.lock_time);
    let stripped = t.inputs.map_values(|i: TxInV| strip_witness(i));
    let stacks = t.inputs.map_values(|i: TxInV| i.witness);
    assert(parse_tx(b) == Some(
        TxV {
            version: (t.version as u32) as i32,
            lock_time: t.lock_time,
            inputs: attach_witnesses(stripped, stacks),
            outputs: t.outputs,
        },
    ));
    let v = t.version;
    assert(((v as u32) as i32) == v) by (bit_vector);
    assert forall|k: int| 0 <= k < t.inputs.len() implies #[trigger] attach_witnesses(
        stripped,
        stacks,
    )[k] == t.inputs[k] by {
        assert(stripped[k] == strip_witness(t.inputs[k]));
        assert(stacks[k] == t.inputs[k].witness);
    }
    assert(attach_witnesses(stripped, stacks) =~= t.inputs);
    assert(parse_tx(b) == Some(t));
}

fn read_u16(b: &Vec<u8>, pos: usize) -> (r: Option<(u16, usize)>)
    ensures
        parse_u16_at(b@, pos as int) matches Some(vq) ==> (r matches Some(rr) && rr.0 == vq.0
            && rr.1 as int == vq.1),
        parse_u16_at(b@, pos as int) is None ==> r is None,
{
    if b.len() >= 2 && pos <= b.len() - 2 {
        let v = (b[pos] as u16) | ((b[pos + 1] as u16) << 8);
        Some((v, pos + 2))
    } else {
        None
    }
}

fn read_u32(b: &Vec<u8>, pos: usize) -> (r: Option<(u32, usize)>)
    ensures
        parse_u32_at(b@, pos as int) matches Some(vq) ==> (r matches Some(rr) && rr.0 == vq.0
            && rr.1 as int == vq.1),
        parse_u32_at(b@, pos as int) is None ==> r is None,
{
    if b.len() >= 4 && pos <= b.len() - 4 {
        let v = (b[pos] as u32) | ((b[pos + 1] as u32) << 8) | ((b[pos + 2] as u32) << 16) | ((b[pos
            + 3] as u32) << 24);
        Some((v, pos + 4))
    } else {
        None
    }
}

fn read_u64(b: &Vec<u8>, pos: usize) -> (r: Option<(u64, usize)>)
    ensures
        parse_u64_at(b@, pos as int) matches Some(vq) ==> (r matches Some(rr) && rr.0 == vq.0
            && rr.1 as int == vq.1),
        parse_u64_at(b@, pos as int) is None ==> r is None,
{
    if b.len() >= 8 && pos <= b.len() - 8 {
        let v = (b[pos] as u64) | ((b[pos + 1] as u64) << 8) | ((b[pos + 2] as u64) << 16) | ((b[pos
            + 3] as u64) << 24) | ((b[pos + 4] as u64) << 32) | ((b[pos + 5] as u64) << 40) | ((
        b[pos + 6] as u64) << 48) | ((b[pos + 7] as u64) << 56);
        Some((v, pos + 8))
    } else {
        None
    }
}

fn read_compact(b: &Vec<u8>, pos: usize) -> (r: Option<(u64, usize)>)
    ensures
        parse_compact_at(b@, pos as int) matches Some(vq) ==> (r matches Some(rr) && rr.0 == vq.0
            && rr.1 as int == vq.1),
        parse_compact_at(b@, pos as int) is None ==> r is None,
{
    if pos >= b.len() {
        return None;
    }
    let tag = b[pos];
    if tag < 0xfd {
        Some((tag as u64, pos + 1))
    } else if tag == 0xfd {
        match read_u16(b, pos + 1) {
            Some((v, q)) => Some((v as u64, q)),
            None => None,
        }
    } else if tag == 0xfe {
        match read_u32(b, pos + 1) {
            Some((v, q)) => Some((v as u64, q)),
            None => None,
        }
    } else {
        read_u64(b, pos + 1)
    }
}

fn read_exact(b: &Vec<u8>, pos: usize, n: usize) -> (r: Option<(Vec<u8>, usize)>)
    ensures
        pos + n <= b@.len() ==> (r matches Some(rr) && rr.0@ == b@.subrange(
            pos as int,
            pos + n as int,
        ) && rr.1 == pos + n),
        pos + n > b@.len() ==> r is None,
{
    if n > b.len() || pos > b.len() - n {
        return None;
    }
    let end: usize = pos + n;
    let mut out: Vec<u8> = Vec::new();
    let mut k: usize = 0;
    while k < n
        invariant
            0 <= k <= n,
            pos + n <= b@.len(),
            end == pos + n,
            out@ == b@.subrange(pos as int, pos + k as int),
        decreases n - k,
    {
        out.push(b[pos + k]);
        proof {
            assert(out@ =~= b@.subrange(pos as int, pos + (k + 1) as int));
        }
        k = k + 1;
    }
    Some((out, pos + n))
}

fn read_varbytes(b: &Vec<u8>, pos: usize) -> (r: Option<(Vec<u8>, usize)>)
    ensures
        parse_varbytes_at(b@, pos as int) matches Some(vq) ==> (r matches Some(rr) && rr.0@ == vq.0
            && rr.1 as int == vq.1),
        parse_varbytes_at(b@, pos as int) is None ==> r is None,
{
    let (n, q) = match read_compact(b, pos) {
        Some(nq) => nq,
        None => {
            return None;
        },
    };
    let rem: u64 = (b.len() - q) as u64;
    if n > rem {
        return None;
    }
    read_exact(b, q, n as usize)
}

fn read_txin(b: &Vec<u8>, pos: usize) -> (r: Option<(TxIn, usize)>)
    ensures
        parse_txin_at(b@, pos as int) matches Some(vq) ==> (r matches Some(rr) && rr.0@ == vq.0
            && rr.1 as int == vq.1),
        parse_txin_at(b@, pos as int) is None ==> r is None,
{
    if b.len() < 32 || pos > b.len() - 32 {
        return None;
    }
    let (txid, q0) = match read_exact(b, pos, 32) {
        Some(t) => t,
        None => {
            return None;
        },
    };
    let (vout, q) = match read_u32(b, q0) {
        Some(v) => v,
        None => {
            return None;
        },
    };
    let (script_sig, q2) = match read_varbytes(b, q) {
        Some(s) => s,
        None => {
            return None;
        },
    };
    let (sequence, q3) = match read_u32(b, q2) {
        Some(s) => s,
        None => {
            return None;
        },
    };
    let i = TxIn {
        previous_output: OutPoint { txid, vout },
        script_sig,
        sequence,
        witness: Vec::new(),
    };
    proof {
        assert(i@.witness =~= Seq::<Seq<u8>>::empty());
        assert(parse_txin_at(b@, pos as int) matches Some(vq) && i@ =~~= vq.0);
    }
    Some((i, q3))
}

fn read_txout(b: &Vec<u8>, pos: usize) -> (r: Option<(TxOut, usize)>)
    ensures
        parse_txout_at(b@, pos as int) matches Some(vq) ==> (r matches Some(rr) && rr.0@ == vq.0
            && rr.1 as int == vq.1),
        parse_txout_at(b@, pos as int) is None ==> r is None,
{
    let (value, q) = match read_u64(b, pos) {
        Some(v) => v,
        None => {
            return None;
        },
    };
    let (script_pubkey, q2) = match read_varbytes(b, q) {
        Some(s) => s,
        None => {
            return None;
        },
    };
    Some((TxOut { value, script_pubkey }, q2))
}

fn read_inputs(b: &Vec<u8>, pos: usize, n: u64) -> (r: Option<(Vec<TxIn>, usize)>)
    ensures
        parse_inputs_at(b@, pos as int, n as nat) matches Some(vq) ==> (r matches Some(rr)
            && rr.0@.map_values(|x: TxIn| x@) == vq.0 && rr.0@.len() == n && rr.1 as int == vq.1),
        parse_inputs_at(b@, pos as int, n as nat) is None ==> r is None,
    decreases n,
{
    if n == 0 {
        let empty: Vec<TxIn> = Vec::new();
        proof {
            assert(empty@.map_values(|x: TxIn| x@) =~= Seq::<TxInV>::empty());
        }
        return Some((empty, pos));
    }
    let (first, q) = match read_txin(b, pos) {
        Some(f) => f,
        None => {
            return None;
        },
    };
    let (mut rest, end) = match read_inputs(b, q, n - 1) {
        Some(rr) => rr,
        None => {
            return None;
        },
    };
    rest.insert(0, first);
    proof {
        let sp = parse_inputs_at(b@, pos as int, n as nat);
        if sp is Some {
            assert(rest@.map_values(|x: TxIn| x@) =~= sp.unwrap().0);
        }
    }
    Some((rest, end))
}

fn read_outputs(b: &Vec<u8>, pos: usize, n: u64) -> (r: Option<(Vec<TxOut>, usize)>)
    ensures
        parse_outputs_at(b@, pos as int, n as nat) matches Some(vq) ==> (r matches Some(rr)
            && rr.0@.map_values(|x: TxOut| x@) == vq.0 && rr.0@.len() == n && rr.1 as int == vq.1),
        parse_outputs_at(b@, pos as int, n as nat) is None ==> r is None,
    decreases n,
{
    if n == 0 {
        let empty: Vec<TxOut> = Vec::new();
        proof {
            assert(empty@.map_values(|x: TxOut| x@) =~= Seq::<TxOutV>::empty());
        }
        return Some((empty, pos));
    }
    let (first, q) = match read_txout(b, pos) {
        Some(f) => f,
        None => {
            return None;
        },
    };
    let (mut rest, end) = match read_outputs(b, q, n - 1) {
        Some(rr) => rr,
        None => {
            return None;
        },
    };
    rest.insert(0, first);
    proof {
        let sp = parse_outputs_at(b@, pos as int, n as nat);
        if sp is Some {
            assert(rest@.map_values(|x: TxOut| x@) =~= sp.unwrap().0);
        }
    }
    Some((rest, end))
}

fn read_witness_items(b: &Vec<u8>, pos: usize, n: u64) -> (r: Option<(Vec<Vec<u8>>, usize)>)
    ensures
        parse_witness_items_at(b@, pos as int, n as nat) matches Some(vq) ==> (r matches Some(rr)
            && rr.0@.map_values(|x: Vec<u8>| x@) == vq.0 && rr.1 as int == vq.1),
        parse_witness_items_at(b@, pos as int, n as nat) is None ==> r is None,
    decreases n,
{
    if n == 0 {
        let empty: Vec<Vec<u8>> = Vec::new();
        proof {
            assert(empty@.map_values(|x: Vec<u8>| x@) =~= Seq::<Seq<u8>>::empty());
        }
        return Some((empty, pos));
    }
    let (first, q) = match read_varbytes(b, pos) {
        Some(f) => f,
        None => {
            return None;
        },
    };
    let (mut rest, end) = match read_witness_items(b, q, n - 1) {
        Some(rr) => rr,
        None => {
            return None;
        },
    };
    rest.insert(0, first);
    proof {
        let sp = parse_witness_items_at(b@, pos as int, n as nat);
        if sp is Some {
            assert(rest@.map_values(|x: Vec<u8>| x@) =~= sp.unwrap().0);
        }
    }
    Some((rest, end))
}

fn read_stack(b: &Vec<u8>, pos: usize) -> (r: Option<(Vec<Vec<u8>>, usize)>)
    ensures
        parse_stack_at(b@, pos as int) matches Some(vq) ==> (r matches Some(rr)
            && rr.0@.map_values(|x: Vec<u8>| x@) == vq.0 && rr.1 as int == vq.1),
        parse_stack_at(b@, pos as int) is None ==> r is None,
{
    let (n, q) = match read_compact(b, pos) {
        Some(nq) => nq,
        None => {
            return None;
        },
    };
    read_witness_items(b, q, n)
}

fn read_stacks(b: &Vec<u8>, pos: usize, n: u64) -> (r: Option<(Vec<Vec<Vec<u8>>>, usize)>)
    ensures
        parse_stacks_at(b@, pos as int, n as nat) matches Some(vq) ==> (r matches Some(rr)
            && rr.0@.map_values(|x: Vec<Vec<u8>>| x@.map_values(|y: Vec<u8>| y@)) == vq.0
            && rr.0@.len() == n && rr.1 as int == vq.1),
        parse_stacks_at(b@, pos as int, n as nat) is None ==> r is None,
    decreases n,
{
    if n == 0 {
        let empty: Vec<Vec<Vec<u8>>> = Vec::new();
        proof {
            assert(empty@.map_values(|x: Vec<Vec<u8>>| x@.map_values(|y: Vec<u8>| y@))
                =~= Seq::<Seq<Seq<u8>>>::empty());
        }
        return Some((empty, pos));
    }
    let (first, q) = match read_stack(b, pos) {
        Some(f) => f,
        None => {
            return None;
        },
    };
    let (mut rest, end) = match read_stacks(b, q, n - 1) {
        Some(rr) => rr,
        None => {
            return None;
        },
    };
    rest.insert(0, first);
    proof {
        let sp = parse_stacks_at(b@, pos as int, n as nat);
        if sp is Some {
            assert(rest@.map_values(|x: Vec<Vec<u8>>| x@.map_values(|y: Vec<u8>| y@))
                =~= sp.unwrap().0);
        }
    }
    Some((rest, end))
}

/// Parses a transaction from the extended wire form. Returns the parsed
/// transaction exactly when the bytes are a complete, well-delimited
/// encoding with the segwit marker and flag, and nothing otherwise.
pub fn deserialize_transaction(bytes: &Vec<u8>) -> (r: Option<Transaction>)
    ensures
        parse_tx(bytes@) matches Some(t) ==> (r matches Some(rt) && rt@ == t),
        parse_tx(bytes@) is None ==> r is None,
{
    let (ver, p1) = match read_u32(bytes, 0) {
        Some(v) => v,
        None => {
            return None;
        },
    };
    if bytes.len() < p1 + 2 || bytes[p1] != 0x00u8 || bytes[p1 + 1] != 0x01u8 {
        return None;
    }
    let (n_in, p2) = match read_compact(bytes, p1 + 2) {
        Some(v) => v,
        None => {
            return None;
        },
    };
    let (mut ins, p3) = match read_inputs(bytes, p2, n_in) {
        Some(v) => v,
        None => {
            return None;
        },
    };
    let (n_out, p4) = match read_compact(bytes, p3) {
        Some(v) => v,
        None => {
            return None;
        },
    };
    let (outs, p5) = match read_outputs(bytes, p4, n_out) {
        Some(v) => v,
        None => {
            return None;
        },
    };
    let (mut stacks, p6) = match read_stacks(bytes, p5, n_in) {
        Some(v) => v,
        None => {
            return None;
        },
    };
    let (lock_time, p7) = match read_u32(bytes, p6) {
        Some(v) => v,
        None => {
            return None;
        },
    };
    if p7 != bytes.len() {
        return None;
    }
    let ghost insv: Seq<TxInV> = ins@.map_values(|x: TxIn| x@);
    let ghost stacksv: Seq<Seq<Seq<u8>>> = stacks@.map_values(
        |x: Vec<Vec<u8>>| x@.map_values(|y: Vec<u8>| y@),
    );
    let mut ins2: Vec<TxIn> = Vec::new();
    let ghost total: int = ins@.len() as int;
    let ins_len_now: usize = ins.len();
    proof {
        assert(total == ins_len_now as int);
    }
    let mut k: usize = 0;
    while ins.len() > 0
        invariant
            0 <= k,
            k + ins.len() == total,
            insv.len() == total,
            stacksv.len() == total,
            total <= usize::MAX,
            stacks.len() == ins.len(),
            ins@.map_values(|x: TxIn| x@) =~= insv.skip(k as int),
            stacks@.map_values(|x: Vec<Vec<u8>>| x@.map_values(|y: Vec<u8>| y@)) =~= stacksv.skip(
                k as int,
            ),
            ins2@.map_values(|x: TxIn| x@) =~= attach_witnesses(insv, stacksv).take(k as int),
        decreases ins.len(),
    {
        let ghost ins_before: Seq<TxIn> = ins@;
        let ghost stacks_before: Seq<Vec<Vec<u8>>> = stacks@;
        let ghost ins2_before: Seq<TxIn> = ins2@;
        let mut i = ins.remove(0);
        i.witness = stacks.remove(0);
        ins2.push(i);
        proof {
            let fin = |x: TxIn| x@;
            let fst = |x: Vec<Vec<u8>>| x@.map_values(|y: Vec<u8>| y@);
            lemma_map_values_push(ins2_before, fin, i);
            lemma_map_values_remove0(ins_before, fin);
            lemma_map_values_remove0(stacks_before, fst);
            assert(insv.len() == total);
            assert(stacksv.len() == total);
            assert(k < total);
            assert(insv.skip(k as int) == insv.subrange(k as int, insv.len() as int));
            assert(insv.skip(k as int)[0] == insv[k as int]);
            assert(stacksv.skip(k as int) == stacksv.subrange(k as int, stacksv.len() as int));
            assert(stacksv.skip(k as int)[0] == stacksv[k as int]);
            assert(i@ == (TxInV {
                witness: stacksv.skip(k as int)[0],
                ..insv.skip(k as int)[0]
            }));
            assert(i@ == attach_witnesses(insv, stacksv)[k as int]);
            assert(ins2@.map_values(|x: TxIn| x@) =~= attach_witnesses(insv, stacksv).take(
                k as int + 1,
            ));
            assert(insv.skip(k as int).remove(0) =~= insv.skip(k as int + 1));
            assert(stacksv.skip(k as int).remove(0) =~= stacksv.skip(k as int + 1));
            assert(ins@.map_values(|x: TxIn| x@) =~= insv.skip(k as int + 1));
            assert(stacks@.map_values(|x: Vec<Vec<u8>>| x@.map_values(|y: Vec<u8>| y@))
                =~= stacksv.skip(k as int + 1));
        }
        k = k + 1;
    }
    let t = Transaction { version: ver as i32, lock_time, input: ins2, output: outs };
    proof {
        assert(attach_witnesses(insv, stacksv).take(total) =~= attach_witnesses(insv, stacksv));
        assert(parse_tx(bytes@) matches Some(tv) && t@ =~~= tv);
    }
    Some(t)
}

} // verus!
