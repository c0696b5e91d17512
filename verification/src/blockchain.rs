use vstd::prelude::*;

use crate::bytes::{append_bytes, spec_u128_to_be_bytes, spec_u64_to_be_bytes, u128_to_be_bytes,
    u64_to_be_bytes, zero_bytes};
use crate::crypto::{sha256, sha256_of, verifies, KeyPair, PUBLIC_KEY_SIZE, SIGNATURE_SIZE};
use crate::state::{Account, AccountMap, Address, StateMachine};
use crate::state::{spec_stage_block, spec_stage_from};

verus! {

/// A transfer order: `amount` moves from `sender` to `recipient` once the
/// sender's signature over the canonical payload checks out.
#[derive(Debug)]
pub struct Transaction {
    pub sender: Address,
    pub recipient: Address,
    pub amount: u64,
    pub nonce: u64,
    pub signature: Vec<u8>,
}

/// The mathematical image of a `Transaction`: the same fields with byte
/// strings as sequences.
#[verifier::ext_equal]
pub ghost struct TxView {
    pub sender: Seq<u8>,
    pub recipient: Seq<u8>,
    pub amount: u64,
    pub nonce: u64,
    pub signature: Seq<u8>,
}

impl View for Transaction {
    type V = TxView;

    open spec fn view(&self) -> TxView {
        TxView {
            sender: self.sender@,
            recipient: self.recipient@,
            amount: self.amount,
            nonce: self.nonce,
            signature: self.signature@,
        }
    }
}

/// The canonical signed payload of a transaction:
/// `sender || recipient || amount (8 bytes big-endian) || nonce (8 bytes
/// big-endian)`. The signature field is excluded.
pub open spec fn tx_message_bytes(t: TxView) -> Seq<u8> {
    t.sender + t.recipient + spec_u64_to_be_bytes(t.amount) + spec_u64_to_be_bytes(t.nonce)
}

/// The hash the sender signs: SHA-256 of the canonical payload.
pub open spec fn tx_message_hash(t: TxView) -> Seq<u8> {
    sha256_of(tx_message_bytes(t))
}

/// Whether the transaction's signature is a valid signature by its sender
/// over its message hash.
pub open spec fn tx_signature_ok(t: TxView) -> bool {
    verifies(t.sender, tx_message_hash(t), t.signature)
}

impl Transaction {
    /// SHA-256 of the canonical signed payload.
    pub fn message_hash(&self) -> (r: Vec<u8>)
        ensures
            r@ == tx_message_hash(self@),
            r@.len() == 32,
    {
        let mut data: Vec<u8> = Vec::new();
        append_bytes(&mut data, self.sender.as_slice());
        append_bytes(&mut data, self.recipient.as_slice());
        let amount_bytes = u64_to_be_bytes(self.amount);
        append_bytes(&mut data, amount_bytes.as_slice());
        let nonce_bytes = u64_to_be_bytes(self.nonce);
        append_bytes(&mut data, nonce_bytes.as_slice());
        proof {
            assert(data@ =~= tx_message_bytes(self@));
        }
        sha256(data.as_slice())
    }

    /// Whether the signature is a valid signature by the sender over this
    /// transaction's message hash.
    pub fn verify(&self) -> (r: bool)
        ensures
            r == tx_signature_ok(self@),
    {
        let hash = self.message_hash();
        crate::crypto::verify(self.sender.as_slice(), hash.as_slice(), self.signature.as_slice())
    }

    /// Builds a transfer and signs its canonical payload with `keypair`:
    /// the result always passes `verify`, the signature round-trip.
    pub fn new_signed(keypair: &KeyPair, recipient: Address, amount: u64, nonce: u64) -> (r:
        Transaction)
        ensures
            r@.sender == keypair.spec_public_key(),
            r@.recipient == recipient@,
            r@.amount == amount,
            r@.nonce == nonce,
            tx_signature_ok(r@),
    {
        let mut tx = Transaction {
            sender: keypair.public_key_bytes(),
            recipient,
            amount,
            nonce,
            signature: Vec::new(),
        };
        let ghost unsigned = tx@;
        let hash = tx.message_hash();
        tx.signature = keypair.sign(hash.as_slice());
        proof {
            assert(tx_message_bytes(tx@) =~= tx_message_bytes(unsigned));
        }
        tx
    }
}

impl Clone for Transaction {
    /// Cloning preserves every field.
    fn clone(&self) -> (r: Self)
        ensures
            r@ == self@,
    {
        let r = Transaction {
            sender: self.sender.clone(),
            recipient: self.recipient.clone(),
            amount: self.amount,
            nonce: self.nonce,
            signature: self.signature.clone(),
        };
        proof {
            assert(r@ =~= self@);
        }
        r
    }
}

impl PartialEq for Transaction {
    /// Full-field equality, the signature included: two different signed
    /// forms of the same logical transfer are distinct.
    fn eq(&self, other: &Transaction) -> (r: bool) {
        let r1 = self.sender == other.sender;
        let r2 = self.recipient == other.recipient;
        let r3 = self.signature == other.signature;
        let r = r1 && r2 && self.amount == other.amount && self.nonce == other.nonce && r3;
        proof {
            if r1 {
                assert(self.sender@ =~= other.sender@);
            }
            if r2 {
                assert(self.recipient@ =~= other.recipient@);
            }
            if r3 {
                assert(self.signature@ =~= other.signature@);
            }
            if r {
                assert(self@ =~= other@);
            }
        }
        r
    }
}

impl vstd::std_specs::cmp::PartialEqSpecImpl for Transaction {
    open spec fn obeys_eq_spec() -> bool {
        true
    }

    open spec fn eq_spec(&self, other: &Transaction) -> bool {
        self@ == other@
    }
}

/// A block: a signed batch of transactions linked to its predecessor by hash.
#[derive(Debug)]
pub struct Block {
    pub index: u64,
    pub timestamp: u128,
    pub prev_hash: Vec<u8>,
    pub hash: Vec<u8>,
    pub transactions: Vec<Transaction>,
    pub signature: Vec<u8>,
    pub authority: Vec<u8>,
}

/// The mathematical image of a `Block`.
#[verifier::ext_equal]
pub ghost struct BlockView {
    pub index: u64,
    pub timestamp: u128,
    pub prev_hash: Seq<u8>,
    pub hash: Seq<u8>,
    pub transactions: Seq<TxView>,
    pub signature: Seq<u8>,
    pub authority: Seq<u8>,
}

impl View for Block {
    type V = BlockView;

    open spec fn view(&self) -> BlockView {
        BlockView {
            index: self.index,
            timestamp: self.timestamp,
            prev_hash: self.prev_hash@,
            hash: self.hash@,
            transactions: tx_views(self.transactions@),
            signature: self.signature@,
            authority: self.authority@,
        }
    }
}

/// The views of a sequence of transactions, in order.
pub open spec fn tx_views(s: Seq<Transaction>) -> Seq<TxView> {
    s.map_values(|t: Transaction| t@)
}

/// The views of a sequence of blocks, in order.
pub open spec fn block_views(s: Seq<Block>) -> Seq<BlockView> {
    s.map_values(|b: Block| b@)
}

/// The concatenation of the message hashes of the transactions, in block
/// order.
pub open spec fn tx_hashes_concat(ts: Seq<TxView>) -> Seq<u8>
    decreases ts.len(),
{
    if ts.len() == 0 {
        Seq::empty()
    } else {
        tx_hashes_concat(ts.drop_last()) + tx_message_hash(ts.last())
    }
}

/// The canonical block-hash payload:
/// `index (8 bytes BE) || timestamp (16 bytes BE) || prev_hash || authority
/// || SHA-256(concatenated transaction message hashes)`. Neither the stored
/// `hash` nor the `signature` participate.
pub open spec fn block_payload(b: BlockView) -> Seq<u8> {
    spec_u64_to_be_bytes(b.index) + spec_u128_to_be_bytes(b.timestamp) + b.prev_hash + b.authority
        + sha256_of(tx_hashes_concat(b.transactions))
}

/// The block hash: SHA-256 of the canonical block-hash payload.
pub open spec fn spec_block_hash(b: BlockView) -> Seq<u8> {
    sha256_of(block_payload(b))
}

/// The one genesis block every node must compute byte for byte identically:
/// index 0, a fixed constant timestamp, 32 zero bytes of previous hash, no
/// transactions, zero-filled signature and authority, and the hash computed
/// by the canonical rule.
pub open spec fn spec_genesis() -> BlockView {
    let base = BlockView {
        index: 0,
        timestamp: 1704067200000,
        prev_hash: Seq::new(32, |i: int| 0u8),
        hash: Seq::empty(),
        transactions: Seq::empty(),
        signature: Seq::new(SIGNATURE_SIZE as nat, |i: int| 0u8),
        authority: Seq::new(PUBLIC_KEY_SIZE as nat, |i: int| 0u8),
    };
    BlockView { hash: spec_block_hash(base), ..base }
}

impl Block {
    /// Recomputes the block hash from the canonical payload; the stored
    /// `hash` and `signature` fields play no part.
    pub fn calculate_hash(block: &Block) -> (r: Vec<u8>)
        ensures
            r@ == spec_block_hash(block@),
            r@.len() == 32,
    {
        let ghost views = block@.transactions;
        let mut tx_hashes: Vec<u8> = Vec::new();
        let n = block.transactions.len();
        let mut i: usize = 0;
        while i < n
            invariant
                n == block.transactions.len(),
                views == block@.transactions,
                0 <= i <= n,
                tx_hashes@ == tx_hashes_concat(views.take(i as int)),
            decreases n - i,
        {
            let h = block.transactions[i].message_hash();
            append_bytes(&mut tx_hashes, h.as_slice());
            proof {
                assert(views.take(i + 1).drop_last() =~= views.take(i as int));
                assert(views.take(i + 1).last() == block.transactions@[i as int]@);
            }
            i = i + 1;
        }
        proof {
            assert(views.take(n as int) =~= views);
        }
        let inner = sha256(tx_hashes.as_slice());

        let mut data: Vec<u8> = Vec::new();
        let index_bytes = u64_to_be_bytes(block.index);
        append_bytes(&mut data, index_bytes.as_slice());
        let timestamp_bytes = u128_to_be_bytes(block.timestamp);
        append_bytes(&mut data, timestamp_bytes.as_slice());
        append_bytes(&mut data, block.prev_hash.as_slice());
        append_bytes(&mut data, block.authority.as_slice());
        append_bytes(&mut data, inner.as_slice());
        proof {
            assert(data@ =~= block_payload(block@));
        }
        sha256(data.as_slice())
    }

    /// Constructs the genesis block.
    pub fn genesis() -> (r: Block)
        ensures
            r@ == spec_genesis(),
    {
        let mut block = Block {
            index: 0,
            timestamp: 1704067200000,
            prev_hash: zero_bytes(32),
            hash: Vec::new(),
            transactions: Vec::new(),
            signature: zero_bytes(SIGNATURE_SIZE),
            authority: zero_bytes(PUBLIC_KEY_SIZE),
        };
        proof {
            let base = BlockView {
                index: 0,
                timestamp: 1704067200000,
                prev_hash: Seq::new(32, |i: int| 0u8),
                hash: Seq::empty(),
                transactions: Seq::empty(),
                signature: Seq::new(SIGNATURE_SIZE as nat, |i: int| 0u8),
                authority: Seq::new(PUBLIC_KEY_SIZE as nat, |i: int| 0u8),
            };
            assert(block@ =~= base);
        }
        let h = Block::calculate_hash(&block);
        block.hash = h;
        proof {
            assert(block@ =~= spec_genesis());
        }
        block
    }
}

/// Chain monotonicity: within a well-formed chain every block past the
/// genesis carries its predecessor's index plus one and links to its
/// predecessor's hash.
pub proof fn lemma_chain_monotonic(chain: Blockchain, i: int)
    requires
        chain.wf(),
        1 <= i < chain.chain_view().len(),
    ensures
        chain.chain_view()[i].index == chain.chain_view()[i - 1].index + 1,
        chain.chain_view()[i].prev_hash == chain.chain_view()[i - 1].hash,
{
    assert(chain.chain_view()[i].index == i);
    assert(chain.chain_view()[i - 1].index == i - 1);
}

/// Two independently constructed genesis blocks are identical in every
/// field, the hash included.
pub proof fn lemma_genesis_deterministic(a: BlockView, b: BlockView)
    requires
        a == spec_genesis(),
        b == spec_genesis(),
    ensures
        a == b,
{
}

/// Clones every transaction, preserving the views.
pub(crate) fn clone_transactions(ts: &Vec<Transaction>) -> (r: Vec<Transaction>)
    ensures
        tx_views(r@) == tx_views(ts@),
{
    let mut r: Vec<Transaction> = Vec::new();
    let n = ts.len();
    let mut i: usize = 0;
    while i < n
        invariant
            n == ts@.len(),
            0 <= i <= n,
            tx_views(r@) == tx_views(ts@).take(i as int),
        decreases n - i,
    {
        let c = ts[i].clone();
        proof {
            lemma_tx_views_push(r@, c);
            assert(tx_views(ts@)[i as int] == ts@[i as int]@);
        }
        r.push(c);
        proof {
            assert(tx_views(r@) =~= tx_views(ts@).take(i + 1));
        }
        i = i + 1;
    }
    proof {
        assert(tx_views(ts@).take(n as int) =~= tx_views(ts@));
    }
    r
}

impl Clone for Block {
    /// Cloning preserves every field.
    fn clone(&self) -> (r: Self)
        ensures
            r@ == self@,
    {
        let r = Block {
            index: self.index,
            timestamp: self.timestamp,
            prev_hash: self.prev_hash.clone(),
            hash: self.hash.clone(),
            transactions: clone_transactions(&self.transactions),
            signature: self.signature.clone(),
            authority: self.authority.clone(),
        };
        proof {
            assert(r@ =~= self@);
        }
        r
    }
}

/// Mapping to views commutes with appending one transaction.
pub(crate) proof fn lemma_tx_views_push(s: Seq<Transaction>, t: Transaction)
    ensures
        tx_views(s.push(t)) == tx_views(s).push(t@),
{
    let f = |x: Transaction| x@;
    assert forall|k: int| 0 <= k < s.push(t).len() implies tx_views(s.push(t))[k] == tx_views(
        s,
    ).push(t@)[k] by {
        if k < s.len() {
            assert(s.push(t)[k] == s[k]);
        } else {
            assert(s.push(t)[k] == t);
        }
    }
    assert(tx_views(s.push(t)) =~= tx_views(s).push(t@));
}

/// Mapping to views commutes with appending one block.
pub(crate) proof fn lemma_block_views_push(s: Seq<Block>, b: Block)
    ensures
        block_views(s.push(b)) == block_views(s).push(b@),
{
    assert forall|k: int| 0 <= k < s.push(b).len() implies block_views(s.push(b))[k]
        == block_views(s).push(b@)[k] by {
        if k < s.len() {
            assert(s.push(b)[k] == s[k]);
        } else {
            assert(s.push(b)[k] == b);
        }
    }
    assert(block_views(s.push(b)) =~= block_views(s).push(b@));
}

/// A message gossiped between peers: a freshly produced block or a freshly
/// admitted transaction.
pub enum ChainMessage {
    NewBlock(Block),
    NewTransaction(Transaction),
}

/// Every rule a block must pass to be appended after `tip` with account
/// store `store`: linkage, continuity, hash integrity, a valid authority
/// signature over the block hash, a valid sender signature on every
/// transaction, and a staging run in which every transaction validates.
pub open spec fn spec_block_valid(
    b: BlockView,
    tip: BlockView,
    store: Map<Seq<u8>, Account>,
) -> bool {
    &&& b.index == tip.index + 1
    &&& b.prev_hash == tip.hash
    &&& b.hash == spec_block_hash(b)
    &&& verifies(b.authority, b.hash, b.signature)
    &&& (forall|i: int| 0 <= i < b.transactions.len() ==> tx_signature_ok(#[trigger] b.transactions[i]))
    &&& spec_stage_block(store, b.transactions) is Ok
}

/// The in-memory chain of validated blocks together with the account store
/// they have been committed into.
pub struct Blockchain {
    chain: Vec<Block>,
    state: StateMachine,
}

impl Blockchain {
    /// The chain as a sequence of block images.
    pub closed spec fn chain_view(self) -> Seq<BlockView> {
        block_views(self.chain@)
    }

    /// The account store as a map.
    pub closed spec fn state_view(self) -> Map<Seq<u8>, Account> {
        self.state@
    }

    /// The tip: the last block of the chain.
    pub open spec fn tip_view(self) -> BlockView {
        self.chain_view().last()
    }

    /// The chain is never empty, block `i` carries index `i`, and every
    /// block's `prev_hash` is its predecessor's `hash`.
    pub closed spec fn wf(self) -> bool {
        &&& self.state.wf()
        &&& self.chain_view().len() >= 1
        &&& (forall|i: int|
            0 <= i < self.chain_view().len() ==> #[trigger] self.chain_view()[i].index == i)
        &&& (forall|i: int|
            1 <= i < self.chain_view().len() ==> #[trigger] self.chain_view()[i].prev_hash
                == self.chain_view()[i - 1].hash)
    }

    /// A chain holding exactly the genesis block over an empty account store.
    pub fn new() -> (r: Blockchain)
        ensures
            r.wf(),
            r.chain_view() =~= seq![spec_genesis()],
            r.state_view() =~= Map::<Seq<u8>, Account>::empty(),
    {
        let mut chain: Vec<Block> = Vec::new();
        chain.push(Block::genesis());
        let r = Blockchain { chain, state: StateMachine::new() };
        proof {
            assert(r.chain_view() =~= seq![spec_genesis()]);
        }
        r
    }

    /// How many blocks the chain holds, the genesis included.
    pub fn chain_len(&self) -> (r: usize)
        ensures
            r == self.chain_view().len(),
    {
        self.chain.len()
    }

    /// The block at position `index`, if the chain reaches that far.
    pub fn get_block(&self, index: usize) -> (r: Option<&Block>)
        ensures
            match r {
                Some(b) => index < self.chain_view().len() && b@ == self.chain_view()[index as int],
                None => index >= self.chain_view().len(),
            },
    {
        if index < self.chain.len() {
            Some(&self.chain[index])
        } else {
            None
        }
    }

    /// The tip of the chain.
    pub fn tip(&self) -> (r: &Block)
        requires
            self.wf(),
        ensures
            r@ == self.tip_view(),
    {
        &self.chain[self.chain.len() - 1]
    }

    /// The account store, for admission checks against the current state.
    pub fn state(&self) -> (r: &StateMachine)
        requires
            self.wf(),
        ensures
            r.wf(),
            r@ == self.state_view(),
    {
        &self.state
    }

    /// The account stored under `address`, if any.
    pub fn get_account(&self, address: &Address) -> (r: Option<Account>)
        requires
            self.wf(),
        ensures
            r == (if self.state_view().contains_key(address@) {
                Some(self.state_view()[address@])
            } else {
                None::<Account>
            }),
    {
        self.state.get_account(address)
    }

    /// Unconditionally overwrites the account stored under `address`.
    pub fn set_account(&mut self, address: &Address, account: &Account)
        requires
            old(self).wf(),
        ensures
            final(self).wf(),
            final(self).state_view() == old(self).state_view().insert(address@, *account),
            final(self).chain_view() == old(self).chain_view(),
    {
        self.state.set_account(address, account);
    }

    /// Funds a freshly generated primary account and a freshly generated
    /// secondary account in the store, returning their keypairs so the
    /// operator can record them.
    pub fn bootstrap_accounts(&mut self) -> (r: (KeyPair, KeyPair))
        requires
            old(self).wf(),
        ensures
            final(self).wf(),
            final(self).chain_view() == old(self).chain_view(),
            final(self).state_view() == old(self).state_view().insert(
                r.0.spec_public_key(),
                Account { balance: 1_000_000_000, nonce: 0 },
            ).insert(r.1.spec_public_key(), Account { balance: 500, nonce: 0 }),
    {
        self.state.bootstrap_accounts()
    }

    /// Every block with index strictly greater than `since_index`, in
    /// ascending order: the chain suffix a catch-up reply carries.
    pub fn blocks_since(&self, since_index: u64) -> (r: Vec<Block>)
        requires
            self.wf(),
        ensures
            block_views(r@) == self.chain_view().skip(
                if since_index + 1 <= self.chain_view().len() {
                    (since_index + 1) as int
                } else {
                    self.chain_view().len() as int
                },
            ),
    {
        let len = self.chain.len();
        let mut r: Vec<Block> = Vec::new();
        let mut i: usize = if since_index >= len as u64 {
            len
        } else {
            (since_index as usize) + 1
        };
        let ghost start = i as int;
        proof {
            assert(block_views(r@) =~= self.chain_view().subrange(start, start));
        }
        while i < len
            invariant
                len == self.chain@.len(),
                0 <= start <= i <= len,
                block_views(r@) == self.chain_view().subrange(start, i as int),
            decreases len - i,
        {
            let c = self.chain[i].clone();
            proof {
                lemma_block_views_push(r@, c);
                assert(self.chain_view()[i as int] == self.chain@[i as int]@);
            }
            r.push(c);
            proof {
                assert(block_views(r@) =~= self.chain_view().subrange(start, i + 1));
            }
            i = i + 1;
        }
        proof {
            assert(self.chain_view().subrange(start, len as int) =~= self.chain_view().skip(start));
        }
        r
    }

    /// Builds the successor block of the current tip: linked to the tip by
    /// index and hash, carrying the given transactions and timestamp, hashed
    /// by the canonical rule and signed by the authority keypair over that
    /// hash. The block is not yet appended.
    pub fn create_block(
        &self,
        authority_keypair: &KeyPair,
        transactions: Vec<Transaction>,
        timestamp: u128,
    ) -> (r: Block)
        requires
            self.wf(),
            self.tip_view().index < u64::MAX,
        ensures
            r@.index == self.tip_view().index + 1,
            r@.timestamp == timestamp,
            r@.prev_hash == self.tip_view().hash,
            r@.authority == authority_keypair.spec_public_key(),
            r@.transactions == tx_views(transactions@),
            r@.hash == spec_block_hash(r@),
            verifies(r@.authority, r@.hash, r@.signature),
    {
        let last_block = &self.chain[self.chain.len() - 1];
        let new_index = last_block.index + 1;
        let mut new_block = Block {
            index: new_index,
            timestamp,
            prev_hash: last_block.hash.clone(),
            hash: Vec::new(),
            transactions,
            signature: Vec::new(),
            authority: authority_keypair.public_key_bytes(),
        };
        let ghost before = new_block@;
        let hash = Block::calculate_hash(&new_block);
        let signature = authority_keypair.sign(hash.as_slice());
        new_block.hash = hash;
        new_block.signature = signature;
        proof {
            assert(block_payload(new_block@) =~= block_payload(before));
        }
        new_block
    }

    /// The validation pipeline. Returns true exactly when the block passes
    /// every rule of `spec_block_valid` against the current tip and store;
    /// then the staged account writes are committed atomically and the block
    /// is appended. On any failure chain and store are left untouched.
    pub fn add_block(&mut self, block: Block) -> (r: bool)
        requires
            old(self).wf(),
        ensures
            final(self).wf(),
            r == spec_block_valid(block@, old(self).tip_view(), old(self).state_view()),
            r ==> final(self).chain_view() == old(self).chain_view().push(block@)
                && (spec_stage_block(old(self).state_view(), block@.transactions) matches Ok(st)
                && final(self).state_view() == old(self).state_view().union_prefer_right(st)),
            !r ==> final(self).chain_view() == old(self).chain_view() && final(self).state_view()
                == old(self).state_view(),
    {
        let last_index = self.chain[self.chain.len() - 1].index;
        if last_index == u64::MAX {
            // The tip has no representable successor index.
            return false;
        }
        if block.index != last_index + 1 {
            return false;
        }
        let prev_hash_matches = block.prev_hash == self.chain[self.chain.len() - 1].hash;
        proof {
            if prev_hash_matches {
                assert(block.prev_hash@ =~= old(self).tip_view().hash);
            }
        }
        if !prev_hash_matches {
            return false;
        }
        let calculated_hash = Block::calculate_hash(&block);
        let hash_matches = block.hash == calculated_hash;
        proof {
            if hash_matches {
                assert(block.hash@ =~= spec_block_hash(block@));
            }
        }
        if !hash_matches {
            return false;
        }
        if !crate::crypto::verify(
            block.authority.as_slice(),
            block.hash.as_slice(),
            block.signature.as_slice(),
        ) {
            return false;
        }
        let ghost store = self.state_view();
        let ghost views = block@.transactions;
        let mut temp_block_state = AccountMap::new();
        proof {
            assert(views.skip(0) =~= views);
            assert(temp_block_state@ =~= Map::<Seq<u8>, Account>::empty());
        }
        let n = block.transactions.len();
        let mut i: usize = 0;
        while i < n
            invariant
                n == block.transactions.len(),
                views == block@.transactions,
                store == self.state_view(),
                *self == *old(self),
                self.wf(),
                0 <= i <= n,
                temp_block_state.wf(),
                forall|j: int| 0 <= j < i ==> tx_signature_ok(#[trigger] views[j]),
                spec_stage_from(store, temp_block_state@, views.skip(i as int))
                    == spec_stage_block(store, views),
            decreases n - i,
        {
            proof {
                assert(views.skip(i as int).first() == views[i as int]);
                assert(views.skip(i as int).drop_first() =~= views.skip(i + 1));
            }
            if !block.transactions[i].verify() {
                return false;
            }
            if let Err(_) = self.state.validate_transaction_in_block(
                &block.transactions[i],
                &mut temp_block_state,
            ) {
                return false;
            }
            i = i + 1;
        }
        proof {
            assert(views.skip(n as int) =~= Seq::<TxView>::empty());
        }
        self.state.commit_batch(&temp_block_state);
        let ghost chain_before = self.chain@;
        self.chain.push(block);
        proof {
            lemma_block_views_push(chain_before, self.chain@.last());
            assert(self.chain_view() == old(self).chain_view().push(self.chain@.last()@));
            let old_len = old(self).chain_view().len() as int;
            assert(old(self).chain_view()[old_len - 1].index == old_len - 1);
            assert forall|k: int| 0 <= k < self.chain_view().len() implies #[trigger] self
                .chain_view()[k].index == k by {
                if k < old_len {
                    assert(old(self).chain_view()[k].index == k);
                }
            }
            assert forall|k: int| 1 <= k < self.chain_view().len() implies #[trigger] self
                .chain_view()[k].prev_hash == self.chain_view()[k - 1].hash by {
                if k < old_len {
                    assert(old(self).chain_view()[k].prev_hash == old(self).chain_view()[k
                        - 1].hash);
                }
            }
        }
        true
    }
}

} // verus!
