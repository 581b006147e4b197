//! Which pending transactions go into the next block: in order of sender,
//! nonce and hash, each taken while the block's resource budget allows.
use crate::sorted::{lemma_lt_irreflexive, lemma_lt_total, lemma_lt_transitive, seq_lt, str_lt};
use crate::text::str_eq;
use vstd::prelude::*;

verus! {

/// What block assembly reads of a pending transaction.
#[derive(Debug)]
pub struct PendingTxSummary {
    pub sender: String,
    pub nonce: u64,
    pub tx_hash: String,
    pub resource_units: u64,
}

/// `a` orders strictly before `b` by sender, then nonce, then hash.
pub open spec fn key_lt(a: PendingTxSummary, b: PendingTxSummary) -> bool {
    ||| seq_lt(a.sender@, b.sender@)
    ||| (a.sender@ == b.sender@ && a.nonce < b.nonce)
    ||| (a.sender@ == b.sender@ && a.nonce == b.nonce && seq_lt(a.tx_hash@, b.tx_hash@))
}

/// `a` and `b` have the same sender, nonce and hash.
pub open spec fn key_eq(a: PendingTxSummary, b: PendingTxSummary) -> bool {
    a.sender@ == b.sender@ && a.nonce == b.nonce && a.tx_hash@ == b.tx_hash@
}

/// The transaction at `i` comes before the one at `j` in the block: by
/// key, and equal keys in their pending order.
pub open spec fn comes_before(txs: Seq<PendingTxSummary>, i: int, j: int) -> bool {
    key_lt(txs[i], txs[j]) || (key_eq(txs[i], txs[j]) && i < j)
}

/// `order` lists every pending position once, in block order.
pub open spec fn is_block_order(txs: Seq<PendingTxSummary>, order: Seq<usize>) -> bool {
    &&& order.len() == txs.len()
    &&& forall|k: int| 0 <= k < order.len() ==> (#[trigger] order[k]) < txs.len()
    &&& forall|a: int, b: int|
        0 <= a < b < order.len() ==> comes_before(txs, #[trigger] order[a] as int, #[trigger] order[b] as int)
}

/// The budget used after adding `units` to `used`, saturating.
pub open spec fn sat_add(used: u64, units: u64) -> u64 {
    if used + units > u64::MAX {
        u64::MAX
    } else {
        (used + units) as u64
    }
}

/// Walking the first `k` positions of `order`: the positions taken and the
/// budget used. A transaction is taken when the budget used with it stays
/// within `limit`.
pub open spec fn greedy(txs: Seq<PendingTxSummary>, order: Seq<usize>, limit: u64, k: int) -> (
    Seq<usize>,
    u64,
)
    decreases k,
{
    if k <= 0 {
        (Seq::empty(), 0)
    } else {
        let (taken, used) = greedy(txs, order, limit, k - 1);
        let next = sat_add(used, txs[order[k - 1] as int].resource_units);
        if next <= limit {
            (taken.push(order[k - 1]), next)
        } else {
            (taken, used)
        }
    }
}

proof fn lemma_key_lt_irreflexive(a: PendingTxSummary)
    ensures
        !key_lt(a, a),
{
    lemma_lt_irreflexive(a.sender@);
    lemma_lt_irreflexive(a.tx_hash@);
}

proof fn lemma_key_lt_transitive(a: PendingTxSummary, b: PendingTxSummary, c: PendingTxSummary)
    requires
        key_lt(a, b) || key_eq(a, b),
        key_lt(b, c) || key_eq(b, c),
        key_lt(a, b) || key_lt(b, c),
    ensures
        key_lt(a, c),
{
    if seq_lt(a.sender@, b.sender@) && seq_lt(b.sender@, c.sender@) {
        lemma_lt_transitive(a.sender@, b.sender@, c.sender@);
    }
    if a.sender@ == b.sender@ && b.sender@ == c.sender@ && a.nonce == b.nonce && b.nonce == c.nonce {
        if seq_lt(a.tx_hash@, b.tx_hash@) && seq_lt(b.tx_hash@, c.tx_hash@) {
            lemma_lt_transitive(a.tx_hash@, b.tx_hash@, c.tx_hash@);
        }
    }
}

proof fn lemma_key_total(a: PendingTxSummary, b: PendingTxSummary)
    ensures
        key_lt(a, b) || key_eq(a, b) || key_lt(b, a),
{
    if a.sender@ != b.sender@ {
        lemma_lt_total(a.sender@, b.sender@);
    } else if a.nonce == b.nonce && a.tx_hash@ != b.tx_hash@ {
        lemma_lt_total(a.tx_hash@, b.tx_hash@);
    }
}

fn key_less(a: &PendingTxSummary, b: &PendingTxSummary) -> (lt: bool)
    ensures
        lt == key_lt(*a, *b),
{
    if str_lt(a.sender.as_str(), b.sender.as_str()) {
        return true;
    }
    if !str_eq(a.sender.as_str(), b.sender.as_str()) {
        return false;
    }
    if a.nonce != b.nonce {
        return a.nonce < b.nonce;
    }
    str_lt(a.tx_hash.as_str(), b.tx_hash.as_str())
}

/// The pending transactions in block order: by sender, nonce and hash,
/// equal keys in their pending order.
pub fn block_order(txs: &Vec<PendingTxSummary>) -> (order: Vec<usize>)
    ensures
        is_block_order(txs@, order@),
{
    let mut order: Vec<usize> = Vec::new();
    let mut i: usize = 0;
    while i < txs.len()
        invariant
            i <= txs@.len(),
            order@.len() == i,
            forall|k: int| 0 <= k < order@.len() ==> (#[trigger] order@[k]) < i,
            forall|a: int, b: int|
                0 <= a < b < order@.len() ==> comes_before(
                    txs@,
                    #[trigger] order@[a] as int,
                    #[trigger] order@[b] as int,
                ),
        decreases txs@.len() - i,
    {
        let mut p: usize = 0;
        while p < order.len() && !key_less(&txs[i], &txs[order[p]])
            invariant
                i < txs@.len(),
                p <= order@.len(),
                forall|k: int| 0 <= k < order@.len() ==> (#[trigger] order@[k]) < i,
                forall|k: int| 0 <= k < p ==> comes_before(txs@, #[trigger] order@[k] as int, i as int),
            decreases order@.len() - p,
        {
            proof {
                let o = order@[p as int] as int;
                lemma_key_total(txs@[i as int], txs@[o]);
                if key_eq(txs@[i as int], txs@[o]) {
                    assert(key_eq(txs@[o], txs@[i as int]));
                }
            }
            p = p + 1;
        }
        proof {
            if p < order@.len() {
                let op = order@[p as int] as int;
                assert forall|k: int| p <= k < order@.len() implies comes_before(
                    txs@,
                    i as int,
                    #[trigger] order@[k] as int,
                ) by {
                    if k > p {
                        let ok = order@[k] as int;
                        assert(comes_before(txs@, op, ok));
                        lemma_key_lt_transitive(txs@[i as int], txs@[op], txs@[ok]);
                    }
                }
            }
        }
        let ghost before_insert = order@;
        order.insert(p, i);
        proof {
            assert forall|a: int, b: int|
                0 <= a < b < order@.len() implies comes_before(
                txs@,
                #[trigger] order@[a] as int,
                #[trigger] order@[b] as int,
            ) by {
                if b < p {
                    assert(order@[a] == before_insert[a] && order@[b] == before_insert[b]);
                } else if b == p {
                    assert(order@[a] == before_insert[a]);
                } else if a < p {
                    assert(order@[a] == before_insert[a] && order@[b] == before_insert[b - 1]);
                    let oa = before_insert[a] as int;
                    let ob = before_insert[b - 1] as int;
                    assert(comes_before(txs@, oa, i as int));
                    assert(comes_before(txs@, i as int, ob));
                    if key_lt(txs@[oa], txs@[i as int]) || key_lt(txs@[i as int], txs@[ob]) {
                        lemma_key_lt_transitive(txs@[oa], txs@[i as int], txs@[ob]);
                    } else {
                        assert(oa < i && i < ob);
                        assert(ob < i);
                    }
                } else if a == p {
                    assert(order@[b] == before_insert[b - 1]);
                } else {
                    assert(order@[a] == before_insert[a - 1] && order@[b] == before_insert[b - 1]);
                }
            }
            assert forall|k: int| 0 <= k < order@.len() implies (#[trigger] order@[k]) < i + 1 by {
                if k < p {
                    assert(order@[k] == before_insert[k]);
                } else if k > p {
                    assert(order@[k] == before_insert[k - 1]);
                }
            }
        }
        i = i + 1;
    }
    order
}

/// The positions of the pending transactions that go into the next block,
/// in block order: walking them in block order, each is taken when the
/// resource units used so far plus its own (saturating) stay within
/// `resource_limit`.
pub fn select_block_transactions(txs: &Vec<PendingTxSummary>, resource_limit: u64) -> (selected: (
    Vec<usize>,
    Vec<usize>,
))
    ensures
        is_block_order(txs@, selected.0@),
        selected.1@ == greedy(txs@, selected.0@, resource_limit, txs@.len() as int).0,
{
    let order = block_order(txs);
    let mut taken: Vec<usize> = Vec::new();
    let mut used: u64 = 0;
    let mut k: usize = 0;
    while k < order.len()
        invariant
            is_block_order(txs@, order@),
            k <= order@.len(),
            (taken@, used) == greedy(txs@, order@, resource_limit, k as int),
        decreases order@.len() - k,
    {
        let position = order[k];
        let next = used.saturating_add(txs[position].resource_units);
        if next <= resource_limit {
            used = next;
            taken.push(position);
        }
        k = k + 1;
    }
    (order, taken)
}


/// The resource units of the transactions at `positions`, added up.
pub open spec fn units_of(txs: Seq<PendingTxSummary>, positions: Seq<usize>) -> int
    decreases positions.len(),
{
    if positions.len() == 0 {
        0
    } else {
        units_of(txs, positions.drop_last()) + txs[positions.last() as int].resource_units
    }
}

/// Block order lists each pending transaction exactly once.
pub proof fn lemma_block_order_is_permutation(txs: Seq<PendingTxSummary>, order: Seq<usize>)
    requires
        is_block_order(txs, order),
    ensures
        order.no_duplicates(),
        forall|i: usize| (i as int) < txs.len() ==> #[trigger] order.contains(i),
{
    assert forall|a: int, b: int| 0 <= a < order.len() && 0 <= b < order.len() && a != b implies order[a]
        != order[b] by {
        let (x, y) = if a < b { (a, b) } else { (b, a) };
        assert(comes_before(txs, order[x] as int, order[y] as int));
        if order[x] == order[y] {
            lemma_key_lt_irreflexive(txs[order[x] as int]);
        }
    }
    let ints = order.map_values(|u: usize| u as int);
    assert(ints.no_duplicates()) by {
        assert forall|a: int, b: int| 0 <= a < ints.len() && 0 <= b < ints.len() && a != b implies ints[a]
            != ints[b] by {
            assert(order[a] != order[b]);
        }
    }
    ints.unique_seq_to_set();
    vstd::set_lib::lemma_int_range(0, txs.len() as int);
    assert forall|i: usize| (i as int) < txs.len() implies #[trigger] order.contains(i) by {
        if !order.contains(i) {
            let range = vstd::set_lib::set_int_range(0, txs.len() as int).remove(i as int);
            assert forall|v: int| ints.to_set().contains(v) implies range.contains(v) by {
                let k = choose|k: int| 0 <= k < ints.len() && ints[k] == v;
                assert(order[k] < txs.len());
                assert(order[k] != i);
            }
            vstd::set_lib::lemma_len_subset(ints.to_set(), range);
        }
    }
}

/// The transactions taken never use more than the resource limit: the
/// budget used is the sum of their units (saturated at `u64::MAX`), and it
/// stays within the limit.
pub proof fn lemma_greedy_within_budget(
    txs: Seq<PendingTxSummary>,
    order: Seq<usize>,
    limit: u64,
    k: int,
)
    requires
        0 <= k <= order.len(),
        forall|j: int| 0 <= j < order.len() ==> (#[trigger] order[j]) < txs.len(),
    ensures
        greedy(txs, order, limit, k).1 <= limit,
        greedy(txs, order, limit, k).1 == vstd::math::min(
            units_of(txs, greedy(txs, order, limit, k).0),
            u64::MAX as int,
        ),
        units_of(txs, greedy(txs, order, limit, k).0) <= limit || limit == u64::MAX,
    decreases k,
{
    if k > 0 {
        lemma_greedy_within_budget(txs, order, limit, k - 1);
        let (taken, used) = greedy(txs, order, limit, k - 1);
        let u = txs[order[k - 1] as int].resource_units;
        if sat_add(used, u) <= limit {
            assert(taken.push(order[k - 1]).drop_last() =~= taken);
        }
    }
}

} // verus!
