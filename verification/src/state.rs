use vstd::prelude::*;

use crate::blockchain::{Transaction, TxView};
use crate::bytes::{lemma_u64_be_bytes_roundtrip, spec_u64_from_be_bytes, spec_u64_to_be_bytes,
    u64_from_be_bytes, u64_to_be_bytes};
use crate::crypto::KeyPair;

verus! {

/// Why a transaction is rejected during block-scoped validation.
#[derive(Clone, Copy, Debug, PartialEq, Eq, Structural)]
pub enum TxError {
    UnknownSender,
    BadNonce,
    InsufficientBalance,
    NonceOverflow,
    BalanceOverflow,
}

/// An account address: the raw bytes of the owner's public key.
pub type Address = Vec<u8>;

/// An account: the spendable balance and the count of transactions already
/// applied from it, which is also the next acceptable transaction nonce.
#[derive(Clone, Copy, Debug, PartialEq, Eq, Structural)]
pub struct Account {
    pub balance: u64,
    pub nonce: u64,
}

impl Account {
    /// A fresh account holding `balance` with no transactions applied yet.
    pub fn new(balance: u64) -> (r: Account)
        ensures
            r == (Account { balance, nonce: 0 }),
    {
        Account { balance, nonce: 0 }
    }
}

/// The fixed-endian binary encoding an account is persisted under: balance
/// then nonce, each 8 bytes big-endian.
pub open spec fn spec_encode_account(a: Account) -> Seq<u8> {
    spec_u64_to_be_bytes(a.balance) + spec_u64_to_be_bytes(a.nonce)
}

/// The account read back from its binary encoding, or nothing if the bytes
/// are not an encoding.
pub open spec fn spec_decode_account(s: Seq<u8>) -> Option<Account> {
    if s.len() == 16 {
        Some(
            Account {
                balance: spec_u64_from_be_bytes(s.take(8)),
                nonce: spec_u64_from_be_bytes(s.skip(8)),
            },
        )
    } else {
        None
    }
}

/// Writes an account in its on-disk binary form.
pub fn encode_account(account: &Account) -> (r: Vec<u8>)
    ensures
        r@ == spec_encode_account(*account),
        r@.len() == 16,
{
    let mut r = u64_to_be_bytes(account.balance);
    let mut nonce_bytes = u64_to_be_bytes(account.nonce);
    r.append(&mut nonce_bytes);
    r
}

/// Reads an account back from its on-disk binary form.
pub fn decode_account(bytes: &[u8]) -> (r: Option<Account>)
    ensures
        r == spec_decode_account(bytes@),
{
    if bytes.len() != 16 {
        return None;
    }
    let balance_bytes = vstd::slice::slice_subrange(bytes, 0, 8);
    let nonce_bytes = vstd::slice::slice_subrange(bytes, 8, 16);
    proof {
        assert(balance_bytes@ =~= bytes@.take(8));
        assert(nonce_bytes@ =~= bytes@.skip(8));
    }
    Some(Account { balance: u64_from_be_bytes(balance_bytes), nonce: u64_from_be_bytes(nonce_bytes) })
}

/// Round trip: decoding an encoded account yields the account back, so
/// persisted reads reproduce what was written.
pub proof fn lemma_account_codec_roundtrip(a: Account)
    ensures
        spec_decode_account(spec_encode_account(a)) == Some(a),
{
    let enc = spec_encode_account(a);
    assert(enc.take(8) =~= spec_u64_to_be_bytes(a.balance));
    assert(enc.skip(8) =~= spec_u64_to_be_bytes(a.nonce));
    lemma_u64_be_bytes_roundtrip(a.balance);
    lemma_u64_be_bytes_roundtrip(a.nonce);
}

/// Nonce strict equality at block time: a transaction whose nonce differs
/// from its sender's current effective account nonce is rejected with
/// `BadNonce`, however leniently the mempool admitted it.
pub proof fn lemma_nonce_strict_equality(
    store: Map<Seq<u8>, Account>,
    staging: Map<Seq<u8>, Account>,
    t: TxView,
    sender: Account,
)
    requires
        spec_lookup(store, staging, t.sender) == Some(sender),
        t.nonce != sender.nonce,
    ensures
        spec_validate_and_stage(store, staging, t) == Err::<Map<Seq<u8>, Account>, TxError>(
            TxError::BadNonce,
        ),
{
}

/// One address-to-account binding inside an `AccountMap`.
struct Entry {
    addr: Address,
    account: Account,
}

/// The map that a sequence of bindings denotes; a later binding for the same
/// address wins.
spec fn map_of(s: Seq<Entry>) -> Map<Seq<u8>, Account>
    decreases s.len(),
{
    if s.len() == 0 {
        Map::empty()
    } else {
        map_of(s.drop_last()).insert(s.last().addr@, s.last().account)
    }
}

/// No two bindings share an address.
spec fn unique_keys(s: Seq<Entry>) -> bool {
    forall|i: int, j: int| 0 <= i < j < s.len() ==> s[i].addr@ != s[j].addr@
}

proof fn lemma_map_of_absent(s: Seq<Entry>, k: Seq<u8>)
    requires
        forall|i: int| 0 <= i < s.len() ==> s[i].addr@ != k,
    ensures
        !map_of(s).contains_key(k),
    decreases s.len(),
{
    if s.len() > 0 {
        lemma_map_of_absent(s.drop_last(), k);
    }
}

proof fn lemma_map_of_found(s: Seq<Entry>, k: Seq<u8>, i: int)
    requires
        unique_keys(s),
        0 <= i < s.len(),
        s[i].addr@ == k,
    ensures
        map_of(s).contains_key(k),
        map_of(s)[k] == s[i].account,
    decreases s.len(),
{
    if i == s.len() - 1 {
    } else {
        lemma_map_of_found(s.drop_last(), k, i);
    }
}

proof fn lemma_map_of_update(s: Seq<Entry>, i: int, e: Entry)
    requires
        unique_keys(s),
        0 <= i < s.len(),
        e.addr@ == s[i].addr@,
    ensures
        map_of(s.update(i, e)) == map_of(s).insert(e.addr@, e.account),
    decreases s.len(),
{
    if i == s.len() - 1 {
        assert(s.update(i, e).drop_last() =~= s.drop_last());
        assert(map_of(s.update(i, e)) =~= map_of(s).insert(e.addr@, e.account));
    } else {
        lemma_map_of_update(s.drop_last(), i, e);
        assert(s.update(i, e).drop_last() =~= s.drop_last().update(i, e));
        assert(s.update(i, e).last() == s.last());
        assert(map_of(s.update(i, e)) == map_of(s.drop_last().update(i, e)).insert(
            s.last().addr@,
            s.last().account,
        ));
        assert(map_of(s.update(i, e)) =~= map_of(s).insert(e.addr@, e.account));
    }
}

/// An in-memory address-to-account map with unique keys: the storage shape
/// used both for the durable account store and for block-scoped staging.
pub struct AccountMap {
    entries: Vec<Entry>,
}

impl View for AccountMap {
    type V = Map<Seq<u8>, Account>;

    closed spec fn view(&self) -> Map<Seq<u8>, Account> {
        map_of(self.entries@)
    }
}

impl AccountMap {
    /// Each address is bound at most once.
    pub closed spec fn wf(&self) -> bool {
        unique_keys(self.entries@)
    }

    /// An empty map.
    pub fn new() -> (r: AccountMap)
        ensures
            r.wf(),
            r@ == Map::<Seq<u8>, Account>::empty(),
    {
        AccountMap { entries: Vec::new() }
    }

    /// The account bound to `addr`, if any.
    pub fn get(&self, addr: &Address) -> (r: Option<Account>)
        requires
            self.wf(),
        ensures
            r == (if self@.contains_key(addr@) {
                Some(self@[addr@])
            } else {
                None::<Account>
            }),
    {
        let n = self.entries.len();
        let mut i: usize = 0;
        while i < n
            invariant
                n == self.entries.len(),
                0 <= i <= n,
                self.wf(),
                forall|j: int| 0 <= j < i ==> self.entries@[j].addr@ != addr@,
            decreases n - i,
        {
            if self.entries[i].addr == *addr {
                proof {
                    assert(self.entries@[i as int].addr@ =~= addr@);
                    lemma_map_of_found(self.entries@, addr@, i as int);
                }
                return Some(self.entries[i].account);
            }
            proof {
                assert(!(self.entries@[i as int].addr@ =~= addr@));
            }
            i = i + 1;
        }
        proof {
            lemma_map_of_absent(self.entries@, addr@);
        }
        None
    }

    /// Binds `addr` to `account`, replacing any earlier binding.
    pub fn insert(&mut self, addr: Address, account: Account)
        requires
            old(self).wf(),
        ensures
            final(self).wf(),
            final(self)@ == old(self)@.insert(addr@, account),
    {
        let n = self.entries.len();
        let mut i: usize = 0;
        while i < n
            invariant
                n == self.entries.len(),
                0 <= i <= n,
                self.wf(),
                *self == *old(self),
                forall|j: int| 0 <= j < i ==> self.entries@[j].addr@ != addr@,
            decreases n - i,
        {
            if self.entries[i].addr == *(&addr) {
                proof {
                    assert(self.entries@[i as int].addr@ =~= addr@);
                }
                let e = Entry { addr, account };
                proof {
                    lemma_map_of_update(self.entries@, i as int, e);
                }
                self.entries.set(i, e);
                return ;
            }
            proof {
                assert(!(self.entries@[i as int].addr@ =~= addr@));
            }
            i = i + 1;
        }
        let e = Entry { addr, account };
        self.entries.push(e);
        proof {
            assert(self.entries@.drop_last() =~= old(self).entries@);
            assert(forall|j: int|
                0 <= j < old(self).entries@.len() ==> old(self).entries@[j].addr@
                    != self.entries@.last().addr@);
        }
    }

    /// How many addresses are bound.
    pub fn len(&self) -> (r: usize)
        requires
            self.wf(),
        ensures
            r == self@.dom().len(),
    {
        proof {
            lemma_map_of_len(self.entries@);
        }
        self.entries.len()
    }
}

proof fn lemma_map_of_len(s: Seq<Entry>)
    requires
        unique_keys(s),
    ensures
        map_of(s).dom().finite(),
        map_of(s).dom().len() == s.len(),
    decreases s.len(),
{
    if s.len() == 0 {
        assert(map_of(s).dom() =~= Set::<Seq<u8>>::empty());
    } else {
        lemma_map_of_len(s.drop_last());
        lemma_map_of_absent(s.drop_last(), s.last().addr@);
        assert(map_of(s).dom() =~= map_of(s.drop_last()).dom().insert(s.last().addr@));
    }
}

/// The account an address currently denotes while a block is being staged:
/// the staged copy if one exists, else the stored one.
pub open spec fn spec_lookup(
    store: Map<Seq<u8>, Account>,
    staging: Map<Seq<u8>, Account>,
    addr: Seq<u8>,
) -> Option<Account> {
    if staging.contains_key(addr) {
        Some(staging[addr])
    } else if store.contains_key(addr) {
        Some(store[addr])
    } else {
        None
    }
}

/// Block-scoped validation of one transaction, and the staging map it leaves
/// behind on success. The sender must exist (staged or stored), carry exactly
/// the transaction's nonce, and cover the amount. The debit and the credit
/// are sequenced: the debited, nonce-bumped sender is staged first, and the
/// recipient (defaulting to an empty account) is then read through that
/// updated staging, so a self-transfer nets to an unchanged balance with the
/// nonce bumped. The credit must not overflow, nor the nonce increment.
pub open spec fn spec_validate_and_stage(
    store: Map<Seq<u8>, Account>,
    staging: Map<Seq<u8>, Account>,
    t: TxView,
) -> Result<Map<Seq<u8>, Account>, TxError> {
    match spec_lookup(store, staging, t.sender) {
        None => Err(TxError::UnknownSender),
        Some(sender) => if t.nonce != sender.nonce {
            Err(TxError::BadNonce)
        } else if sender.balance < t.amount {
            Err(TxError::InsufficientBalance)
        } else if sender.nonce == u64::MAX {
            Err(TxError::NonceOverflow)
        } else {
            let new_sender = Account {
                balance: (sender.balance - t.amount) as u64,
                nonce: (sender.nonce + 1) as u64,
            };
            let debited = staging.insert(t.sender, new_sender);
            let recipient = match spec_lookup(store, debited, t.recipient) {
                Some(acc) => acc,
                None => Account { balance: 0, nonce: 0 },
            };
            if recipient.balance + t.amount > u64::MAX {
                Err(TxError::BalanceOverflow)
            } else {
                let new_recipient = Account {
                    balance: (recipient.balance + t.amount) as u64,
                    nonce: recipient.nonce,
                };
                Ok(debited.insert(t.recipient, new_recipient))
            }
        },
    }
}

/// Folds `spec_validate_and_stage` over the transactions in block order,
/// starting from the given staging map: the first broken rule rejects the
/// whole batch.
pub open spec fn spec_stage_from(
    store: Map<Seq<u8>, Account>,
    staging: Map<Seq<u8>, Account>,
    txs: Seq<TxView>,
) -> Result<Map<Seq<u8>, Account>, TxError>
    decreases txs.len(),
{
    if txs.len() == 0 {
        Ok(staging)
    } else {
        match spec_validate_and_stage(store, staging, txs.first()) {
            Ok(st) => spec_stage_from(store, st, txs.drop_first()),
            Err(e) => Err(e),
        }
    }
}

/// The staging map a block's transactions produce against `store`, starting
/// from an empty staging map, or the first error if any transaction breaks a
/// rule.
pub open spec fn spec_stage_block(store: Map<Seq<u8>, Account>, txs: Seq<TxView>) -> Result<
    Map<Seq<u8>, Account>,
    TxError,
> {
    spec_stage_from(store, Map::empty(), txs)
}

/// The durable account store: the persistent address-to-account mapping that
/// blocks commit into.
pub struct StateMachine {
    accounts: AccountMap,
}

impl View for StateMachine {
    type V = Map<Seq<u8>, Account>;

    closed spec fn view(&self) -> Map<Seq<u8>, Account> {
        self.accounts@
    }
}

impl StateMachine {
    pub closed spec fn wf(&self) -> bool {
        self.accounts.wf()
    }

    /// An empty store.
    pub fn new() -> (r: StateMachine)
        ensures
            r.wf(),
            r@ == Map::<Seq<u8>, Account>::empty(),
    {
        StateMachine { accounts: AccountMap::new() }
    }

    /// The account stored under `address`, if any.
    pub fn get_account(&self, address: &Address) -> (r: Option<Account>)
        requires
            self.wf(),
        ensures
            r == (if self@.contains_key(address@) {
                Some(self@[address@])
            } else {
                None::<Account>
            }),
    {
        self.accounts.get(address)
    }

    /// Unconditionally overwrites the account stored under `address`.
    pub fn set_account(&mut self, address: &Address, account: &Account)
        requires
            old(self).wf(),
        ensures
            final(self).wf(),
            final(self)@ == old(self)@.insert(address@, *account),
    {
        self.accounts.insert(address.clone(), *account);
    }

    /// Atomically persists every staged account write: afterwards the store
    /// holds the staged value wherever one was staged and is untouched
    /// everywhere else.
    pub fn commit_batch(&mut self, staging: &AccountMap)
        requires
            old(self).wf(),
        ensures
            final(self).wf(),
            final(self)@ == old(self)@.union_prefer_right(staging@),
    {
        let n = staging.entries.len();
        let mut i: usize = 0;
        while i < n
            invariant
                n == staging.entries.len(),
                0 <= i <= n,
                self.wf(),
                self@ == old(self)@.union_prefer_right(map_of(staging.entries@.take(i as int))),
            decreases n - i,
        {
            let e = &staging.entries[i];
            self.accounts.insert(e.addr.clone(), e.account);
            proof {
                let t1 = staging.entries@.take(i + 1);
                assert(t1.drop_last() =~= staging.entries@.take(i as int));
                assert(t1.last() == staging.entries@[i as int]);
                assert(self@ =~= old(self)@.union_prefer_right(map_of(t1)));
            }
            i = i + 1;
        }
        proof {
            assert(staging.entries@.take(n as int) =~= staging.entries@);
        }
    }

    /// Validates `tx` against the store overlaid with the block's staged
    /// writes and, on success, stages the transfer's sequenced account
    /// updates: the debited sender first, then the credited recipient read
    /// through the debited staging. Exactly the algorithm that
    /// `spec_validate_and_stage` states: on `Ok` the staging map has moved
    /// to the staged successor, on `Err` it is untouched and the error names
    /// the first rule the transaction broke.
    pub fn validate_transaction_in_block(
        &self,
        tx: &Transaction,
        temp_block_state: &mut AccountMap,
    ) -> (r: Result<(), TxError>)
        requires
            self.wf(),
            old(temp_block_state).wf(),
        ensures
            final(temp_block_state).wf(),
            match r {
                Ok(()) => spec_validate_and_stage(self@, old(temp_block_state)@, tx@) == Ok::<
                    Map<Seq<u8>, Account>,
                    TxError,
                >(final(temp_block_state)@),
                Err(e) => spec_validate_and_stage(self@, old(temp_block_state)@, tx@) == Err::<
                    Map<Seq<u8>, Account>,
                    TxError,
                >(e) && final(temp_block_state)@ == old(temp_block_state)@,
            },
    {
        let sender_account = match temp_block_state.get(&tx.sender) {
            Some(acc) => acc,
            None => {
                match self.get_account(&tx.sender) {
                    Some(acc) => acc,
                    None => { return Err(TxError::UnknownSender) },
                }
            },
        };
        if tx.nonce != sender_account.nonce {
            return Err(TxError::BadNonce);
        }
        if sender_account.balance < tx.amount {
            return Err(TxError::InsufficientBalance);
        }
        if sender_account.nonce == u64::MAX {
            return Err(TxError::NonceOverflow);
        }
        let new_sender = Account {
            balance: sender_account.balance - tx.amount,
            nonce: sender_account.nonce + 1,
        };
        let ghost debited = old(temp_block_state)@.insert(tx.sender@, new_sender);
        let self_transfer = tx.recipient == tx.sender;
        proof {
            if self_transfer {
                assert(tx.recipient@ =~= tx.sender@);
            } else {
                assert(!(tx.recipient@ =~= tx.sender@));
            }
        }
        let recipient_account = if self_transfer {
            new_sender
        } else {
            match temp_block_state.get(&tx.recipient) {
                Some(acc) => acc,
                None => {
                    match self.get_account(&tx.recipient) {
                        Some(acc) => acc,
                        None => Account::new(0),
                    }
                },
            }
        };
        proof {
            assert(spec_lookup(self@, debited, tx.recipient@) == (if debited.contains_key(
                tx.recipient@,
            ) {
                Some(debited[tx.recipient@])
            } else if self@.contains_key(tx.recipient@) {
                Some(self@[tx.recipient@])
            } else {
                None::<Account>
            }));
        }
        if recipient_account.balance > u64::MAX - tx.amount {
            return Err(TxError::BalanceOverflow);
        }
        let new_recipient = Account {
            balance: recipient_account.balance + tx.amount,
            nonce: recipient_account.nonce,
        };
        temp_block_state.insert(tx.sender.clone(), new_sender);
        temp_block_state.insert(tx.recipient.clone(), new_recipient);
        Ok(())
    }

    /// Funds a freshly generated primary account and a freshly generated
    /// secondary account, returning their keypairs so the operator can record
    /// them.
    pub fn bootstrap_accounts(&mut self) -> (r: (KeyPair, KeyPair))
        requires
            old(self).wf(),
        ensures
            final(self).wf(),
            final(self)@ == old(self)@.insert(
                r.0.spec_public_key(),
                Account { balance: 1_000_000_000, nonce: 0 },
            ).insert(r.1.spec_public_key(), Account { balance: 500, nonce: 0 }),
    {
        let genesis_keypair = KeyPair::new();
        let voter_keypair = KeyPair::new();
        let genesis_account = Account::new(1_000_000_000);
        self.set_account(&genesis_keypair.public_key_bytes(), &genesis_account);
        let voter_account = Account::new(500);
        self.set_account(&voter_keypair.public_key_bytes(), &voter_account);
        (genesis_keypair, voter_keypair)
    }
}

} // verus!


