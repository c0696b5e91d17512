use vstd::prelude::*;

use crate::blockchain::{tx_signature_ok, tx_views, Block, Blockchain, Transaction, TxView};
use crate::crypto::KeyPair;
use crate::mempool::{drain_count, Mempool};
use crate::state::spec_stage_block;

verus! {

/// How many transactions the authority packs into one block at most.
pub const MAX_TRANSACTIONS_PER_BLOCK: usize = 10;

/// The transactions stand in ascending nonce order.
pub open spec fn nonce_sorted(s: Seq<TxView>) -> bool {
    forall|i: int, j: int| 0 <= i <= j < s.len() ==> s[i].nonce <= s[j].nonce
}

/// Stable insertion of one transaction into a sequence: the new transaction
/// moves left past every strictly larger nonce and no further.
pub open spec fn spec_insert_by_nonce(s: Seq<TxView>, t: TxView) -> Seq<TxView>
    decreases s.len(),
{
    if s.len() == 0 {
        seq![t]
    } else if t.nonce < s.last().nonce {
        spec_insert_by_nonce(s.drop_last(), t).push(s.last())
    } else {
        s.push(t)
    }
}

/// Stable insertion sort by ascending nonce: transactions of equal nonce
/// keep their relative order.
pub open spec fn spec_sort_by_nonce(s: Seq<TxView>) -> Seq<TxView>
    decreases s.len(),
{
    if s.len() == 0 {
        Seq::empty()
    } else {
        spec_insert_by_nonce(spec_sort_by_nonce(s.drop_last()), s.last())
    }
}

proof fn lemma_push_contains(s: Seq<TxView>, a: TxView, x: TxView)
    ensures
        s.push(a).contains(x) <==> (s.contains(x) || x == a),
{
    if s.push(a).contains(x) {
        let k = choose|k: int| 0 <= k < s.push(a).len() && s.push(a)[k] == x;
        if k < s.len() {
            assert(s[k] == x);
        }
    }
    if s.contains(x) {
        let k = choose|k: int| 0 <= k < s.len() && s[k] == x;
        assert(s.push(a)[k] == x);
    }
    if x == a {
        assert(s.push(a)[s.len() as int] == x);
    }
}

proof fn lemma_insert_by_nonce(s: Seq<TxView>, t: TxView)
    requires
        nonce_sorted(s),
    ensures
        nonce_sorted(spec_insert_by_nonce(s, t)),
        spec_insert_by_nonce(s, t).len() == s.len() + 1,
        forall|x: TxView| #[trigger]
            spec_insert_by_nonce(s, t).contains(x) <==> (s.contains(x) || x == t),
        spec_insert_by_nonce(s, t).to_multiset() == s.to_multiset().insert(t),
    decreases s.len(),
{
    broadcast use vstd::seq_lib::group_to_multiset_ensures;

    let r = spec_insert_by_nonce(s, t);
    if s.len() == 0 {
        assert(r =~= Seq::<TxView>::empty().push(t));
        assert forall|x: TxView| #[trigger] r.contains(x) <==> (s.contains(x) || x == t) by {
            lemma_push_contains(Seq::<TxView>::empty(), t, x);
        }
        assert(r.to_multiset() =~= s.to_multiset().insert(t));
    } else if t.nonce < s.last().nonce {
        let dl = s.drop_last();
        assert(nonce_sorted(dl)) by {
            assert(forall|i: int, j: int|
                0 <= i <= j < dl.len() ==> s[i].nonce <= s[j].nonce);
        }
        lemma_insert_by_nonce(dl, t);
        let inner = spec_insert_by_nonce(dl, t);
        assert(r == inner.push(s.last()));
        assert forall|x: TxView| #[trigger] r.contains(x) <==> (s.contains(x) || x == t) by {
            lemma_push_contains(inner, s.last(), x);
            lemma_push_contains(dl, s.last(), x);
            assert(s =~= dl.push(s.last()));
        }
        assert forall|i: int, j: int| 0 <= i <= j < r.len() implies r[i].nonce <= r[j].nonce by {
            if j < inner.len() {
                assert(inner[i].nonce <= inner[j].nonce);
            } else {
                assert(r[j] == s.last());
                if i < inner.len() {
                    let x = inner[i];
                    assert(inner.contains(x));
                    if dl.contains(x) {
                        let k = choose|k: int| 0 <= k < dl.len() && dl[k] == x;
                        assert(s[k].nonce <= s[s.len() - 1].nonce);
                    }
                }
            }
        }
        assert(s =~= dl.push(s.last()));
        assert(s.to_multiset() == dl.to_multiset().insert(s.last()));
        assert(r.to_multiset() == dl.to_multiset().insert(t).insert(s.last()));
        assert(dl.to_multiset().insert(t).insert(s.last()) =~= dl.to_multiset().insert(
            s.last(),
        ).insert(t));
    } else {
        assert(r == s.push(t));
        assert forall|x: TxView| #[trigger] r.contains(x) <==> (s.contains(x) || x == t) by {
            lemma_push_contains(s, t, x);
        }
        assert forall|i: int, j: int| 0 <= i <= j < r.len() implies r[i].nonce <= r[j].nonce by {
            if j == s.len() {
                assert(r[j] == t);
                if i < s.len() {
                    assert(s[i].nonce <= s[s.len() - 1].nonce);
                }
            }
        }
    }
}

/// Sorting keeps exactly the given transactions and orders them by
/// ascending nonce, so every sender's transfers end up in ascending nonce
/// order, as block validation demands of a drained batch.
pub proof fn lemma_sort_by_nonce_ensures(s: Seq<TxView>)
    ensures
        nonce_sorted(spec_sort_by_nonce(s)),
        spec_sort_by_nonce(s).to_multiset() == s.to_multiset(),
        spec_sort_by_nonce(s).len() == s.len(),
    decreases s.len(),
{
    broadcast use vstd::seq_lib::group_to_multiset_ensures;

    if s.len() > 0 {
        let dl = s.drop_last();
        lemma_sort_by_nonce_ensures(dl);
        lemma_insert_by_nonce(spec_sort_by_nonce(dl), s.last());
        assert(s =~= dl.push(s.last()));
        assert(s.to_multiset() == dl.to_multiset().insert(s.last()));
    }
}

proof fn lemma_insert_by_nonce_at(s: Seq<TxView>, t: TxView, j: int)
    requires
        0 <= j <= s.len(),
        forall|k: int| j <= k < s.len() ==> s[k].nonce > t.nonce,
        j > 0 ==> s[j - 1].nonce <= t.nonce,
    ensures
        spec_insert_by_nonce(s, t) == s.insert(j, t),
    decreases s.len(),
{
    if s.len() == 0 {
        assert(s.insert(0, t) =~= seq![t]);
    } else if t.nonce < s.last().nonce {
        assert(j < s.len());
        let dl = s.drop_last();
        lemma_insert_by_nonce_at(dl, t, j);
        assert(spec_insert_by_nonce(s, t) == dl.insert(j, t).push(s.last()));
        assert(dl.insert(j, t).push(s.last()) =~= s.insert(j, t));
    } else {
        assert(j == s.len());
        assert(s.insert(j, t) =~= s.push(t));
    }
}

proof fn lemma_tx_views_insert(s: Seq<Transaction>, j: int, t: Transaction)
    requires
        0 <= j <= s.len(),
    ensures
        tx_views(s.insert(j, t)) == tx_views(s).insert(j, t@),
{
    s.insert_ensures(j, t);
    tx_views(s).insert_ensures(j, t@);
    assert forall|k: int| 0 <= k < s.insert(j, t).len() implies tx_views(s.insert(j, t))[k]
        == tx_views(s).insert(j, t@)[k] by {
        if k < j {
            assert(s.insert(j, t)[k] == s[k]);
            assert(tx_views(s).insert(j, t@)[k] == tx_views(s)[k]);
        } else if k == j {
            assert(s.insert(j, t)[k] == t);
            assert(tx_views(s).insert(j, t@)[k] == t@);
        } else {
            assert(s.insert(j, t)[k] == s[k - 1]);
            assert(tx_views(s).insert(j, t@)[k] == tx_views(s)[k - 1]);
        }
    }
    assert(tx_views(s.insert(j, t)) =~= tx_views(s).insert(j, t@));
}

/// Orders a batch by ascending nonce with a stable insertion sort, so that
/// several transfers from one sender apply in nonce order.
fn sort_by_nonce(txs: Vec<Transaction>) -> (r: Vec<Transaction>)
    ensures
        tx_views(r@) == spec_sort_by_nonce(tx_views(txs@)),
{
    let ghost all = tx_views(txs@);
    let mut r: Vec<Transaction> = Vec::new();
    let n = txs.len();
    let mut i: usize = 0;
    proof {
        assert(all.take(0) =~= Seq::<TxView>::empty());
        assert(tx_views(r@) =~= Seq::<TxView>::empty());
    }
    while i < n
        invariant
            n == txs@.len(),
            all == tx_views(txs@),
            0 <= i <= n,
            tx_views(r@) == spec_sort_by_nonce(all.take(i as int)),
        decreases n - i,
    {
        let c = txs[i].clone();
        let mut j: usize = r.len();
        while j > 0 && r[j - 1].nonce > c.nonce
            invariant
                0 <= j <= r@.len(),
                c@ == txs@[i as int]@,
                forall|k: int| j <= k < r@.len() ==> tx_views(r@)[k].nonce > c@.nonce,
            decreases j,
        {
            proof {
                assert(tx_views(r@)[j - 1] == r@[j - 1]@);
            }
            j = j - 1;
        }
        proof {
            if j > 0 {
                assert(tx_views(r@)[j - 1] == r@[j - 1]@);
            }
            lemma_insert_by_nonce_at(tx_views(r@), c@, j as int);
            lemma_tx_views_insert(r@, j as int, c);
            assert(all.take(i + 1).drop_last() =~= all.take(i as int));
            assert(all.take(i + 1).last() == txs@[i as int]@);
        }
        r.insert(j, c);
        i = i + 1;
    }
    proof {
        assert(all.take(n as int) =~= all);
    }
    r
}

/// One tick of the authority loop: drains up to `max_transactions` pending
/// transactions and, when any were drained, orders them by ascending nonce,
/// builds their block on the current tip, commits it locally through the
/// validation pipeline, and hands it back for publication. No block is
/// produced from an empty drain, and a block the pipeline rejects is not
/// handed back (the drained transactions are dropped either way).
pub fn authority_tick(
    chain: &mut Blockchain,
    mempool: &mut Mempool,
    authority_keypair: &KeyPair,
    max_transactions: usize,
    timestamp: u128,
) -> (r: Option<Block>)
    requires
        old(chain).wf(),
        old(mempool).wf(),
    ensures
        final(chain).wf(),
        final(mempool).wf(),
        final(mempool)@ == old(mempool)@.skip(
            drain_count(old(mempool)@.len(), max_transactions),
        ),
        ({
            let drained = old(mempool)@.take(drain_count(old(mempool)@.len(), max_transactions));
            let ordered = spec_sort_by_nonce(drained);
            let tip = old(chain).tip_view();
            let store = old(chain).state_view();
            &&& (r is Some <==> drained.len() > 0 && tip.index < u64::MAX && (forall|j: int|
                0 <= j < ordered.len() ==> tx_signature_ok(#[trigger] ordered[j]))
                && spec_stage_block(store, ordered) is Ok)
            &&& (r matches Some(b) ==> {
                &&& b@.index == tip.index + 1
                &&& b@.timestamp == timestamp
                &&& b@.prev_hash == tip.hash
                &&& b@.authority == authority_keypair.spec_public_key()
                &&& b@.transactions == ordered
                &&& final(chain).chain_view() == old(chain).chain_view().push(b@)
                &&& (spec_stage_block(store, ordered) matches Ok(st) && final(chain).state_view()
                    == store.union_prefer_right(st))
            })
            &&& (r is None ==> final(chain).chain_view() == old(chain).chain_view()
                && final(chain).state_view() == store)
        }),
{
    let transactions = mempool.get_transactions(max_transactions);
    if transactions.len() == 0 {
        return None;
    }
    let tip_index = chain.tip().index;
    if tip_index == u64::MAX {
        // The tip has no representable successor index; drop the batch.
        return None;
    }
    let ordered = sort_by_nonce(transactions);
    let block = chain.create_block(authority_keypair, ordered, timestamp);
    let published = block.clone();
    if chain.add_block(block) {
        Some(published)
    } else {
        None
    }
}

} // verus!
