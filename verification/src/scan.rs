//! Scanning transactions for outputs locked to the wallet's script, and
//! summing the amounts found: the decision core of chain scanning and
//! balance reporting; fetching blocks and storing results stay with the
//! caller.

use vstd::prelude::*;
use crate::tx::{OutPoint, OutPointV, Transaction, TxV};
use crate::encode::{copy_bytes, txid, txid_of};

verus! {

/// The wallet-relevant entries among the first `j` outputs of `t`: the
/// outpoint (transaction id and output index) and value of each output
/// whose locking script is `script`, in output order.
pub open spec fn unspent_upto(t: TxV, script: Seq<u8>, j: int) -> Seq<(OutPointV, u64)>
    decreases j,
{
    if j <= 0 {
        Seq::empty()
    } else {
        unspent_upto(t, script, j - 1) + if t.outputs[j - 1].script_pubkey == script {
            seq![(OutPointV { txid: txid_of(t), vout: (j - 1) as u32 }, t.outputs[j - 1].value)]
        } else {
            Seq::empty()
        }
    }
}

/// All wallet-relevant entries of one transaction.
pub open spec fn unspent_of_tx(t: TxV, script: Seq<u8>) -> Seq<(OutPointV, u64)> {
    unspent_upto(t, script, t.outputs.len() as int)
}

/// The wallet-relevant entries of the first `i` transactions, in
/// transaction order.
pub open spec fn scan_upto(txs: Seq<TxV>, script: Seq<u8>, i: int) -> Seq<(OutPointV, u64)>
    decreases i,
{
    if i <= 0 {
        Seq::empty()
    } else {
        scan_upto(txs, script, i - 1) + unspent_of_tx(txs[i - 1], script)
    }
}

/// All wallet-relevant entries of a list of transactions.
pub open spec fn scan_result(txs: Seq<TxV>, script: Seq<u8>) -> Seq<(OutPointV, u64)> {
    scan_upto(txs, script, txs.len() as int)
}

/// Byte-for-byte equality of two byte vectors.
pub fn bytes_eq(a: &Vec<u8>, b: &Vec<u8>) -> (r: bool)
    ensures
        r == (a@ == b@),
{
    if a.len() != b.len() {
        proof {
            assert(a@ != b@);
        }
        return false;
    }
    let mut i: usize = 0;
    while i < a.len()
        invariant
            0 <= i <= a.len(),
            a@.len() == b@.len(),
            forall|k: int| 0 <= k < i ==> a@[k] == b@[k],
        decreases a.len() - i,
    {
        if a[i] != b[i] {
            proof {
                assert(a@[i as int] != b@[i as int]);
            }
            return false;
        }
        i = i + 1;
    }
    proof {
        assert(a@ =~= b@);
    }
    true
}

/// Scans transactions for outputs locked to `script_pubkey` and returns,
/// in order, the outpoint and value of each: what a wallet records as its
/// unspent outputs.
pub fn scan(txs: &Vec<Transaction>, script_pubkey: &Vec<u8>) -> (r: Vec<(OutPoint, u64)>)
    requires
        forall|k: int|
            0 <= k < txs@.len() ==> (#[trigger] txs@[k])@.outputs.len() <= u32::MAX,
    ensures
        r@.map_values(|e: (OutPoint, u64)| (e.0@, e.1)) == scan_result(
            txs@.map_values(|t: Transaction| t@),
            script_pubkey@,
        ),
{
    let ghost txsv: Seq<TxV> = txs@.map_values(|t: Transaction| t@);
    let ghost s: Seq<u8> = script_pubkey@;
    let mut r: Vec<(OutPoint, u64)> = Vec::new();
    let mut i: usize = 0;
    while i < txs.len()
        invariant
            0 <= i <= txs.len(),
            txsv == txs@.map_values(|t: Transaction| t@),
            txsv.len() == txs@.len(),
            s == script_pubkey@,
            forall|k: int| 0 <= k < txs@.len() ==> (#[trigger] txs@[k])@.outputs.len() <= u32::MAX,
            r@.map_values(|e: (OutPoint, u64)| (e.0@, e.1)) == scan_upto(txsv, s, i as int),
        decreases txs.len() - i,
    {
        let t = &txs[i];
        let ghost tv: TxV = t@;
        let id = txid(t);
        let mut j: usize = 0;
        while j < t.output.len()
            invariant
                0 <= j <= t.output.len(),
                tv.outputs.len() == t.output@.len(),
                tv == t@,
                id@ == txid_of(tv),
                tv.outputs.len() <= u32::MAX,
                s == script_pubkey@,
                r@.map_values(|e: (OutPoint, u64)| (e.0@, e.1)) == scan_upto(txsv, s, i as int)
                    + unspent_upto(tv, s, j as int),
            decreases t.output.len() - j,
        {
            let ghost r_pre: Seq<(OutPoint, u64)> = r@;
            if bytes_eq(&t.output[j].script_pubkey, script_pubkey) {
                let entry = (OutPoint { txid: copy_bytes(&id), vout: j as u32 }, t.output[j].value);
                r.push(entry);
                proof {
                    let f = |e: (OutPoint, u64)| (e.0@, e.1);
                    assert(tv.outputs[j as int] == t.output@[j as int]@);
                    assert(tv.outputs[j as int].script_pubkey == s);
                    assert(r@ == r_pre.push(entry));
                    assert(r@.map_values(f) =~= r_pre.map_values(f) + seq![
                        (OutPointV { txid: txid_of(tv), vout: j as u32 }, tv.outputs[j as int].value),
                    ]);
                    assert(r@.map_values(f) =~= scan_upto(txsv, s, i as int) + unspent_upto(
                        tv,
                        s,
                        j as int + 1,
                    ));
                }
            } else {
                proof {
                    let f = |e: (OutPoint, u64)| (e.0@, e.1);
                    assert(tv.outputs[j as int] == t.output@[j as int]@);
                    assert(tv.outputs[j as int].script_pubkey != s);
                    assert(r@.map_values(f) =~= scan_upto(txsv, s, i as int) + unspent_upto(
                        tv,
                        s,
                        j as int + 1,
                    ));
                }
            }
            j = j + 1;
        }
        proof {
            assert(tv == txsv[i as int]);
            assert(unspent_upto(tv, s, tv.outputs.len() as int) == unspent_of_tx(tv, s));
            assert(r@.map_values(|e: (OutPoint, u64)| (e.0@, e.1)) =~= scan_upto(
                txsv,
                s,
                i as int + 1,
            ));
        }
        i = i + 1;
    }
    proof {
        assert(scan_upto(txsv, s, txsv.len() as int) == scan_result(txsv, s));
    }
    r
}

/// The exact sum of a sequence of amounts, as an unbounded integer.
pub open spec fn sum_upto(s: Seq<u64>, i: int) -> int
    decreases i,
{
    if i <= 0 {
        0
    } else {
        sum_upto(s, i - 1) + s[i - 1]
    }
}

/// Sums unspent amounts into a balance. Returns the exact total when it
/// fits a u64 and nothing when it would overflow.
pub fn balance(amounts: &Vec<u64>) -> (r: Option<u64>)
    ensures
        sum_upto(amounts@, amounts@.len() as int) <= u64::MAX ==> (r matches Some(total)
            && total as int == sum_upto(amounts@, amounts@.len() as int)),
        sum_upto(amounts@, amounts@.len() as int) > u64::MAX ==> r is None,
{
    let mut total: u64 = 0;
    let mut i: usize = 0;
    while i < amounts.len()
        invariant
            0 <= i <= amounts.len(),
            total as int == sum_upto(amounts@, i as int),
        decreases amounts.len() - i,
    {
        let a = amounts[i];
        if a > u64::MAX - total {
            proof {
                lemma_sum_monotonic(amounts@, i as int + 1, amounts@.len() as int);
            }
            return None;
        }
        total = total + a;
        i = i + 1;
    }
    Some(total)
}

/// Partial sums of non-negative amounts grow with the index.
proof fn lemma_sum_monotonic(s: Seq<u64>, i: int, j: int)
    requires
        0 <= i <= j <= s.len(),
    ensures
        sum_upto(s, i) <= sum_upto(s, j),
    decreases j - i,
{
    if i < j {
        lemma_sum_monotonic(s, i, j - 1);
    }
}

} // verus!
