use vstd::prelude::*;

use crate::blockchain::{lemma_tx_views_push, tx_signature_ok, tx_views, Transaction, TxView};
use crate::state::StateMachine;

verus! {

/// Why the mempool turns a submitted transaction away.
#[derive(Clone, Copy, Debug, PartialEq, Eq, Structural)]
pub enum MempoolError {
    BadSignature,
    UnknownSender,
    StaleNonce,
    InsufficientBalance,
    Duplicate,
}

impl MempoolError {
    /// The operator-facing description of the rejection.
    pub fn text(&self) -> (r: &'static str)
        ensures
            r@ == match self {
                MempoolError::BadSignature => "Tanda tangan tidak valid"@,
                MempoolError::UnknownSender => "Akun pengirim tidak ditemukan"@,
                MempoolError::StaleNonce => "Nonce sudah usang (replay attack?)"@,
                MempoolError::InsufficientBalance => "Saldo tidak cukup"@,
                MempoolError::Duplicate => "Transaksi sudah ada di mempool"@,
            },
    {
        match self {
            MempoolError::BadSignature => "Tanda tangan tidak valid",
            MempoolError::UnknownSender => "Akun pengirim tidak ditemukan",
            MempoolError::StaleNonce => "Nonce sudah usang (replay attack?)",
            MempoolError::InsufficientBalance => "Saldo tidak cukup",
            MempoolError::Duplicate => "Transaksi sudah ada di mempool",
        }
    }
}

/// How many transactions a drain of up to `count` removes from a pool of
/// `len` pending ones.
pub open spec fn drain_count(len: nat, count: usize) -> int {
    if count as int <= len {
        count as int
    } else {
        len as int
    }
}

/// The set of admitted but not yet included transactions. Duplicates, by
/// full-field equality, are never held twice.
pub struct Mempool {
    transactions: Vec<Transaction>,
}

impl View for Mempool {
    type V = Seq<TxView>;

    closed spec fn view(&self) -> Seq<TxView> {
        tx_views(self.transactions@)
    }
}

impl Mempool {
    /// No two held transactions are equal in all fields.
    pub closed spec fn wf(&self) -> bool {
        forall|i: int, j: int| 0 <= i < j < self@.len() ==> self@[i] != self@[j]
    }

    /// An empty pool.
    pub fn new() -> (r: Mempool)
        ensures
            r.wf(),
            r@ == Seq::<TxView>::empty(),
    {
        let r = Mempool { transactions: Vec::new() };
        proof {
            assert(r@ =~= Seq::<TxView>::empty());
        }
        r
    }

    /// How many transactions are pending.
    pub fn len(&self) -> (r: usize)
        ensures
            r == self@.len(),
    {
        self.transactions.len()
    }

    /// Whether a transaction equal to `tx` in all fields is pending.
    pub fn contains(&self, tx: &Transaction) -> (r: bool)
        ensures
            r == self@.contains(tx@),
    {
        let n = self.transactions.len();
        let mut i: usize = 0;
        while i < n
            invariant
                n == self.transactions@.len(),
                0 <= i <= n,
                forall|j: int| 0 <= j < i ==> self@[j] != tx@,
            decreases n - i,
        {
            proof {
                assert(self@[i as int] == self.transactions@[i as int]@);
            }
            if self.transactions[i] == *tx {
                return true;
            }
            i = i + 1;
        }
        proof {
            assert(forall|j: int| 0 <= j < self@.len() ==> self@[j] != tx@);
        }
        false
    }

    /// Admission control for operator-submitted transactions: the signature
    /// must verify, the sender must exist in the store, the nonce must not be
    /// stale (future nonces are admitted; the block validator demands exact
    /// equality), the balance must pre-screen, and the transaction must be
    /// new. Exactly one entry results from an accepted submission.
    pub fn add_transaction(&mut self, tx: Transaction, state: &StateMachine) -> (r: Result<
        (),
        MempoolError,
    >)
        requires
            old(self).wf(),
            state.wf(),
        ensures
            final(self).wf(),
            match r {
                Ok(()) => {
                    &&& tx_signature_ok(tx@)
                    &&& state@.contains_key(tx@.sender)
                    &&& state@[tx@.sender].nonce <= tx@.nonce
                    &&& state@[tx@.sender].balance >= tx@.amount
                    &&& !old(self)@.contains(tx@)
                    &&& final(self)@ == old(self)@.push(tx@)
                },
                Err(MempoolError::BadSignature) => !tx_signature_ok(tx@) && final(self)@ == old(
                    self,
                )@,
                Err(MempoolError::UnknownSender) => tx_signature_ok(tx@)
                    && !state@.contains_key(tx@.sender) && final(self)@ == old(self)@,
                Err(MempoolError::StaleNonce) => tx_signature_ok(tx@) && state@.contains_key(
                    tx@.sender,
                ) && tx@.nonce < state@[tx@.sender].nonce && final(self)@ == old(self)@,
                Err(MempoolError::InsufficientBalance) => tx_signature_ok(tx@)
                    && state@.contains_key(tx@.sender) && tx@.nonce >= state@[tx@.sender].nonce
                    && state@[tx@.sender].balance < tx@.amount && final(self)@ == old(self)@,
                Err(MempoolError::Duplicate) => tx_signature_ok(tx@) && state@.contains_key(
                    tx@.sender,
                ) && tx@.nonce >= state@[tx@.sender].nonce && state@[tx@.sender].balance
                    >= tx@.amount && old(self)@.contains(tx@) && final(self)@ == old(self)@,
            },
    {
        if !tx.verify() {
            return Err(MempoolError::BadSignature);
        }
        let sender_account = match state.get_account(&tx.sender) {
            Some(acc) => acc,
            None => { return Err(MempoolError::UnknownSender) },
        };
        if tx.nonce < sender_account.nonce {
            return Err(MempoolError::StaleNonce);
        }
        if sender_account.balance < tx.amount {
            return Err(MempoolError::InsufficientBalance);
        }
        if self.contains(&tx) {
            return Err(MempoolError::Duplicate);
        }
        proof {
            lemma_tx_views_push(self.transactions@, tx);
        }
        self.transactions.push(tx);
        proof {
            assert(forall|j: int| 0 <= j < old(self)@.len() ==> self@[j] == old(self)@[j]);
        }
        Ok(())
    }

    /// The lighter admission path for gossiped transactions: verify the
    /// signature only and insert if new. Invalid nonces and balances are left
    /// for the block validator.
    pub fn add_from_p2p(&mut self, tx: Transaction)
        requires
            old(self).wf(),
        ensures
            final(self).wf(),
            (tx_signature_ok(tx@) && !old(self)@.contains(tx@)) ==> final(self)@ == old(
                self,
            )@.push(tx@),
            !(tx_signature_ok(tx@) && !old(self)@.contains(tx@)) ==> final(self)@ == old(self)@,
    {
        if tx.verify() {
            if !self.contains(&tx) {
                proof {
                    lemma_tx_views_push(self.transactions@, tx);
                }
                self.transactions.push(tx);
                proof {
                    assert(forall|j: int| 0 <= j < old(self)@.len() ==> self@[j] == old(self)@[j]);
                }
            }
        }
    }

    /// Removes and returns up to `count` pending transactions, oldest first.
    pub fn get_transactions(&mut self, count: usize) -> (r: Vec<Transaction>)
        requires
            old(self).wf(),
        ensures
            final(self).wf(),
            tx_views(r@) == old(self)@.take(drain_count(old(self)@.len(), count)),
            final(self)@ == old(self)@.skip(drain_count(old(self)@.len(), count)),
    {
        let ghost all = old(self)@;
        let mut taken: Vec<Transaction> = Vec::new();
        proof {
            assert(tx_views(taken@) =~= all.take(0));
            assert(self@ =~= all.skip(0));
        }
        while taken.len() < count && self.transactions.len() > 0
            invariant
                taken@.len() <= count,
                taken@.len() + self.transactions@.len() == all.len(),
                tx_views(taken@) == all.take(taken@.len() as int),
                self@ == all.skip(taken@.len() as int),
                self.wf(),
                old(self).wf(),
                all == old(self)@,
            decreases count - taken@.len(),
        {
            let ghost k = taken@.len() as int;
            let ghost pre_txs = self.transactions@;
            proof {
                assert(self@[0] == pre_txs[0]@);
                assert(self@[0] == all[k]);
            }
            let t = self.transactions.remove(0);
            proof {
                assert(t == pre_txs[0]);
                assert(t@ == all[k]);
                lemma_tx_views_push(taken@, t);
            }
            taken.push(t);
            proof {
                assert(tx_views(taken@) =~= all.take(k + 1));
                assert(self.transactions@ =~= pre_txs.skip(1));
                assert forall|j: int| 0 <= j < self.transactions@.len() implies self@[j] == all.skip(
                    k + 1,
                )[j] by {
                    assert(self@[j] == self.transactions@[j]@);
                    assert(self.transactions@[j] == pre_txs[j + 1]);
                    assert(tx_views(pre_txs)[j + 1] == pre_txs[j + 1]@);
                    assert(tx_views(pre_txs)[j + 1] == all.skip(k as int)[j + 1]);
                }
                assert(self@ =~= all.skip(k + 1));
                assert forall|a: int, b: int| 0 <= a < b < self@.len() implies self@[a]
                    != self@[b] by {
                    assert(self@[a] == all[k + 1 + a]);
                    assert(self@[b] == all[k + 1 + b]);
                    assert(old(self)@[k + 1 + a] != old(self)@[k + 1 + b]);
                }
            }
        }
        proof {
            assert(taken@.len() == drain_count(all.len(), count));
        }
        taken
    }
}

/// Mempool deduplication: a well-formed pool never holds two transactions
/// equal in all fields.
pub proof fn lemma_mempool_no_duplicates(pool: Mempool, i: int, j: int)
    requires
        pool.wf(),
        0 <= i < j < pool@.len(),
    ensures
        pool@[i] != pool@[j],
{
}

} // verus!
