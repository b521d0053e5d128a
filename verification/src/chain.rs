//! The blockchain container: the accepted blocks in order, the live world
//! state, block admission and whole-chain validity checking.

use vstd::prelude::*;
use crate::account::Account;
use crate::account::AccountType;
use crate::account::AccountV;
use crate::block::Block;
use crate::block::BlockV;
use crate::block::content_fingerprint;
use crate::block::spec_verify_own_hash;
use crate::errors::ChainError;
use crate::errors::ExecError;
use crate::errors::ValidityError;
use crate::errors::ValidityIssue;
use crate::transaction::Transaction;
use crate::transaction::TransactionV;
use crate::transaction::opt_string_view;
use crate::transaction::spec_check_signature;
use crate::transaction::spec_execute;
use crate::world::AccountMap;
use crate::world::WorldState;

verus! {

/// Mathematical image of a `Blockchain`.
#[verifier::ext_equal]
pub ghost struct BlockchainV {
    pub blocks: Seq<BlockV>,
    pub accounts: Map<Seq<char>, AccountV>,
    pub pending_transactions: Seq<TransactionV>,
}

/// The actual blockchain container: all accepted blocks, and the account
/// mapping that is the live world state. The blocks stay freely readable
/// and writable so that tampering with an accepted block, and its later
/// detection, can be demonstrated.
#[derive(Debug)]
pub struct Blockchain {
    /// All blocks accepted into the chain so far, in order.
    pub blocks: Vec<Block>,
    /// The live world state: account id to account.
    pub accounts: AccountMap,
    /// Transactions waiting for a block; reserved, never populated by the
    /// core.
    pending_transactions: Vec<Transaction>,
}

impl View for Blockchain {
    type V = BlockchainV;

    closed spec fn view(&self) -> BlockchainV {
        BlockchainV {
            blocks: self.blocks@.map_values(|b: Block| b@),
            accounts: self.accounts@,
            pending_transactions: self.pending_transactions@.map_values(|t: Transaction| t@),
        }
    }
}

/// The stored fingerprint of the last block, or nothing on an empty chain.
pub open spec fn spec_last_hash(blocks: Seq<BlockV>) -> Option<Seq<char>> {
    if blocks.len() == 0 {
        None
    } else {
        blocks.last().hash
    }
}

/// What executing the transactions from position `i` on, in order, does
/// to a world state: the final world, or the 0-based position of the
/// first failure and its cause.
pub open spec fn spec_execute_from(
    w: Map<Seq<char>, AccountV>,
    txs: Seq<TransactionV>,
    is_initial: bool,
    i: int,
) -> Result<Map<Seq<char>, AccountV>, (int, ExecError)>
    decreases txs.len() - i,
{
    if i < 0 || i >= txs.len() {
        Ok(w)
    } else {
        match spec_execute(w, txs[i], is_initial) {
            Err(e) => Err((i, e)),
            Ok(w2) => spec_execute_from(w2, txs, is_initial, i + 1),
        }
    }
}

/// What a whole block's transaction sequence does to a world state.
pub open spec fn spec_execute_seq(
    w: Map<Seq<char>, AccountV>,
    txs: Seq<TransactionV>,
    is_initial: bool,
) -> Result<Map<Seq<char>, AccountV>, (int, ExecError)> {
    spec_execute_from(w, txs, is_initial, 0)
}

/// What admitting a block does to a chain: the checks in order, then
/// all-or-nothing execution. `TransactionFailed` carries the 1-based
/// position of the failing transaction.
pub open spec fn spec_admission(c: BlockchainV, b: BlockV) -> Result<BlockchainV, ChainError> {
    if !spec_verify_own_hash(b) {
        Err(ChainError::HashMismatch)
    } else if b.prev_hash != spec_last_hash(c.blocks) {
        Err(ChainError::BrokenLink)
    } else if b.transactions.len() == 0 {
        Err(ChainError::EmptyBlock)
    } else {
        match spec_execute_seq(c.accounts, b.transactions, c.blocks.len() == 0) {
            Ok(w) => Ok(
                BlockchainV {
                    blocks: c.blocks.push(b),
                    accounts: w,
                    pending_transactions: c.pending_transactions,
                },
            ),
            Err((i, e)) => Err(ChainError::TransactionFailed { index: (i + 1) as usize, cause: e }),
        }
    }
}

/// The first invalid signature among a block's transactions from position
/// `j` on, as a validity issue; indices are reported 1-based.
pub open spec fn spec_sig_issue(
    txs: Seq<TransactionV>,
    block_index: int,
    j: int,
) -> Option<ValidityIssue>
    decreases txs.len() - j,
{
    if j < 0 || j >= txs.len() {
        None
    } else if txs[j].signature is Some && !spec_check_signature(txs[j]) {
        Some(
            ValidityIssue::InvalidSignature {
                block_index: (block_index + 1) as usize,
                tx_index: (j + 1) as usize,
            },
        )
    } else {
        spec_sig_issue(txs, block_index, j + 1)
    }
}

/// The first violation that block `i` contributes, given that the blocks
/// before it were found clean: its own-hash check, then its linkage,
/// then its transactions' signatures.
pub open spec fn spec_block_issue(blocks: Seq<BlockV>, i: int) -> Option<ValidityIssue> {
    if !spec_verify_own_hash(blocks[i]) {
        Some(ValidityIssue::StoredHashMismatch { block_index: (i + 1) as usize })
    } else if i == 0 && blocks[0].prev_hash is Some {
        Some(ValidityIssue::GenesisHasParent)
    } else if i > 0 && blocks[i].prev_hash != blocks[i - 1].hash {
        Some(
            ValidityIssue::BrokenLink {
                block_index: (i + 1) as usize,
                expected: match blocks[i - 1].hash {
                    Some(h) => h,
                    None => Seq::empty(),
                },
                actual: blocks[i].prev_hash,
            },
        )
    } else {
        spec_sig_issue(blocks[i].transactions, i, 0)
    }
}

/// The first violation in the chain from block `i` on.
pub open spec fn spec_validity_from(blocks: Seq<BlockV>, i: int) -> Option<ValidityIssue>
    decreases blocks.len() - i,
{
    if i < 0 || i >= blocks.len() {
        None
    } else {
        match spec_block_issue(blocks, i) {
            Some(v) => Some(v),
            None => spec_validity_from(blocks, i + 1),
        }
    }
}

/// The first violation in the whole chain, or nothing when it is valid.
pub open spec fn spec_validity(blocks: Seq<BlockV>) -> Option<ValidityIssue> {
    spec_validity_from(blocks, 0)
}

/// When the first `n` blocks are clean, the chain's first violation is
/// the first violation from block `n` on.
pub proof fn lemma_validity_skip_clean(blocks: Seq<BlockV>, n: int)
    requires
        0 <= n <= blocks.len(),
        forall|k: int| 0 <= k < n ==> spec_block_issue(blocks, k) is None,
    ensures
        spec_validity(blocks) == spec_validity_from(blocks, n),
    decreases n,
{
    if n > 0 {
        lemma_validity_skip_clean(blocks, n - 1);
    }
}

/// Tampering is reported: when the blocks before `i` are clean and block
/// `i` no longer verifies against its stored fingerprint, the validity
/// check reports the stored-hash mismatch at block `i` (1-based).
pub proof fn lemma_mismatch_reported(blocks: Seq<BlockV>, i: int)
    requires
        0 <= i < blocks.len(),
        forall|k: int| 0 <= k < i ==> spec_block_issue(blocks, k) is None,
        !spec_verify_own_hash(blocks[i]),
    ensures
        spec_validity(blocks) == Some(
            ValidityIssue::StoredHashMismatch { block_index: (i + 1) as usize },
        ),
{
    lemma_validity_skip_clean(blocks, i);
}

/// Tampering followed by rehashing moves detection to the next block:
/// when the blocks up to and including `i` are clean on their own, the
/// next block verifies against itself but no longer points at block `i`'s
/// stored fingerprint, the validity check reports the broken link at that
/// next block.
#[verifier::rlimit(60)]
pub proof fn lemma_rehash_breaks_link(blocks: Seq<BlockV>, i: int)
    requires
        0 <= i,
        i + 1 < blocks.len(),
        forall|k: int| 0 <= k <= i ==> spec_block_issue(blocks, k) is None,
        spec_verify_own_hash(blocks[i + 1]),
        blocks[i + 1].prev_hash != blocks[i].hash,
    ensures
        spec_validity(blocks) == Some(
            ValidityIssue::BrokenLink {
                block_index: (i + 2) as usize,
                expected: content_fingerprint(blocks[i]),
                actual: blocks[i + 1].prev_hash,
            },
        ),
{
    lemma_validity_skip_clean(blocks, i + 1);
    assert(spec_block_issue(blocks, i) is None);
    assert(spec_verify_own_hash(blocks[i]));
    assert(blocks[i].hash == Some(content_fingerprint(blocks[i])));
    let v = ValidityIssue::BrokenLink {
        block_index: (i + 2) as usize,
        expected: content_fingerprint(blocks[i]),
        actual: blocks[i + 1].prev_hash,
    };
    assert(spec_block_issue(blocks, i + 1) == Some(v));
    assert(spec_validity_from(blocks, i + 1) == Some(v));
}

fn opt_string_eq(a: &Option<String>, b: &Option<String>) -> (r: bool)
    ensures
        r == (opt_string_view(*a) == opt_string_view(*b)),
{
    match (a, b) {
        (None, None) => true,
        (Some(x), Some(y)) => {
            let e = *x == *y;
            e
        },
        _ => false,
    }
}

fn opt_string_clone(o: &Option<String>) -> (r: Option<String>)
    ensures
        opt_string_view(r) == opt_string_view(*o),
{
    match o {
        None => None,
        Some(s) => Some(s.clone()),
    }
}

impl Blockchain {
    /// An empty chain with an empty world state.
    pub fn new() -> (r: Blockchain)
        ensures
            r@.blocks == Seq::<BlockV>::empty(),
            r@.accounts == Map::<Seq<char>, AccountV>::empty(),
            r@.pending_transactions == Seq::<TransactionV>::empty(),
    {
        let r = Blockchain {
            blocks: Vec::new(),
            accounts: AccountMap::new(),
            pending_transactions: Vec::new(),
        };
        proof {
            assert(r@.blocks =~= Seq::<BlockV>::empty());
            assert(r@.pending_transactions =~= Seq::<TransactionV>::empty());
        }
        r
    }

    /// The number of blocks currently stored.
    pub fn len(&self) -> (n: usize)
        ensures
            n == self@.blocks.len(),
    {
        self.blocks.len()
    }

    /// The stored fingerprint of the last block, or nothing on an empty
    /// chain.
    pub fn get_last_block_hash(&self) -> (r: Option<String>)
        ensures
            opt_string_view(r) == spec_last_hash(self@.blocks),
    {
        if self.blocks.len() == 0 {
            return None;
        }
        let b = &self.blocks[self.blocks.len() - 1];
        opt_string_clone(&b.hash)
    }

    /// Validates and applies a candidate block: its stored fingerprint
    /// must match its content, it must point at the chain's last stored
    /// fingerprint, it must carry at least one transaction, and all of
    /// its transactions must execute; on the first failing transaction
    /// the world state is restored to its pre-call value and the block is
    /// rejected. Only a fully successful block is appended.
    pub fn append_block(&mut self, block: Block) -> (r: Result<(), ChainError>)
        ensures
            match spec_admission(old(self)@, block@) {
                Ok(c2) => r is Ok && final(self)@ == c2,
                Err(e) => r == Result::<(), ChainError>::Err(e) && final(self)@ == old(self)@,
            },
    {
        let is_genesis = self.len() == 0;
        if !block.verify_own_hash() {
            return Err(ChainError::HashMismatch);
        }
        let last = self.get_last_block_hash();
        if !opt_string_eq(&block.prev_hash, &last) {
            return Err(ChainError::BrokenLink);
        }
        if block.get_transaction_count() == 0 {
            return Err(ChainError::EmptyBlock);
        }
        let old_state = self.accounts.duplicate();
        let ghost w0 = self.accounts@;
        let ghost txs = block@.transactions;
        let mut i: usize = 0;
        while i < block.transactions.len()
            invariant
                i <= block.transactions.len(),
                txs == block.transactions@.map_values(|t: Transaction| t@),
                txs.len() == block.transactions@.len(),
                is_genesis == (old(self)@.blocks.len() == 0),
                w0 == old(self)@.accounts,
                old_state@ == w0,
                self.blocks@ == old(self).blocks@,
                self.pending_transactions@ == old(self).pending_transactions@,
                spec_execute_from(w0, txs, is_genesis, 0) == spec_execute_from(
                    self.accounts@,
                    txs,
                    is_genesis,
                    i as int,
                ),
                txs == block@.transactions,
                txs.len() > 0,
                spec_verify_own_hash(block@),
                block@.prev_hash == spec_last_hash(old(self)@.blocks),
            decreases block.transactions.len() - i,
        {
            let ghost w_before = self.accounts@;
            let res = block.transactions[i].execute(&mut self.accounts, &is_genesis);
            match res {
                Ok(()) => {
                },
                Err(e) => {
                    proof {
                        assert(block.transactions@[i as int]@ == txs[i as int]);
                        assert(spec_execute(w_before, txs[i as int], is_genesis) == Result::<
                            Map<Seq<char>, AccountV>,
                            ExecError,
                        >::Err(e));
                        assert(spec_execute_from(w_before, txs, is_genesis, i as int) == Result::<
                            Map<Seq<char>, AccountV>,
                            (int, ExecError),
                        >::Err((i as int, e)));
                        assert(spec_admission(old(self)@, block@) == Result::<
                            BlockchainV,
                            ChainError,
                        >::Err(ChainError::TransactionFailed { index: (i + 1) as usize, cause: e }));
                    }
                    self.accounts = old_state;
                    proof {
                        assert(self@ =~= old(self)@);
                    }
                    return Err(ChainError::TransactionFailed { index: i + 1, cause: e });
                },
            }
            i += 1;
        }
        let ghost bv = block@;
        self.blocks.push(block);
        proof {
            assert(self@.blocks =~= old(self)@.blocks.push(bv));
            let c2 = spec_admission(old(self)@, bv)->Ok_0;
            assert(self@ =~= c2);
        }
        Ok(())
    }

    /// Checks whether the chain was tampered with, re-deriving each
    /// block's fingerprint and re-checking linkage and signatures in
    /// order; reports the first violation found, if any.
    pub fn check_validity(&self) -> (r: Result<(), ValidityError>)
        ensures
            match spec_validity(self@.blocks) {
                None => r is Ok,
                Some(v) => r matches Err(e) && e@ == v,
            },
    {
        let ghost bv = self@.blocks;
        let mut i: usize = 0;
        while i < self.blocks.len()
            invariant
                i <= self.blocks.len(),
                bv == self.blocks@.map_values(|b: Block| b@),
                bv.len() == self.blocks@.len(),
                spec_validity(bv) == spec_validity_from(bv, i as int),
                forall|k: int| 0 <= k < i ==> spec_block_issue(bv, k) is None,
            decreases self.blocks.len() - i,
        {
            let block = &self.blocks[i];
            let block_number = i + 1;
            if !block.verify_own_hash() {
                return Err(ValidityError::StoredHashMismatch { block_index: block_number });
            }
            if i == 0 {
                if block.prev_hash.is_some() {
                    return Err(ValidityError::GenesisHasParent);
                }
            } else {
                let prev_is_linked = opt_string_eq(&block.prev_hash, &self.blocks[i - 1].hash);
                if !prev_is_linked {
                    let expected = match &self.blocks[i - 1].hash {
                        Some(h) => h.clone(),
                        None => {
                            proof {
                                assert(spec_block_issue(bv, i as int - 1) is None);
                                assert(false);
                            }
                            String::new()
                        },
                    };
                    let actual = opt_string_clone(&block.prev_hash);
                    return Err(
                        ValidityError::BrokenLink { block_index: block_number, expected, actual },
                    );
                }
            }
            let ghost txs = bv[i as int].transactions;
            let mut j: usize = 0;
            while j < block.transactions.len()
                invariant
                    j <= block.transactions.len(),
                    bv == self.blocks@.map_values(|b: Block| b@),
                    bv.len() == self.blocks@.len(),
                    i < self.blocks@.len(),
                    block@ == bv[i as int],
                    txs == bv[i as int].transactions,
                    txs.len() == block.transactions@.len(),
                    block_number == i + 1,
                    spec_validity(bv) == spec_validity_from(bv, i as int),
                    forall|k: int| 0 <= k < i ==> spec_block_issue(bv, k) is None,
                    spec_verify_own_hash(bv[i as int]),
                    i == 0 ==> bv[0].prev_hash is None,
                    i > 0 ==> bv[i as int].prev_hash == bv[i as int - 1].hash,
                    spec_sig_issue(txs, i as int, 0) == spec_sig_issue(txs, i as int, j as int),
                decreases block.transactions.len() - j,
            {
                let tx = &block.transactions[j];
                if tx.is_signed() && !tx.check_signature() {
                    proof {
                        assert(spec_block_issue(bv, i as int) == spec_sig_issue(
                            txs,
                            i as int,
                            j as int,
                        ));
                    }
                    return Err(
                        ValidityError::InvalidSignature {
                            block_index: block_number,
                            tx_index: j + 1,
                        },
                    );
                }
                j += 1;
            }
            proof {
                assert(spec_sig_issue(txs, i as int, txs.len() as int) is None);
                assert(spec_block_issue(bv, i as int) is None);
            }
            i += 1;
        }
        proof {
            assert(spec_validity_from(bv, bv.len() as int) is None);
        }
        Ok(())
    }
}

impl WorldState for Blockchain {
    /// The chain's live world state is its account mapping.
    open spec fn world(&self) -> Map<Seq<char>, AccountV> {
        self@.accounts
    }

    fn get_user_ids(&self) -> (ids: Vec<String>) {
        let ids = self.accounts.get_user_ids();
        proof {
            assert(self.world() == self.accounts.world());
        }
        ids
    }

    fn get_account_by_id(&self, id: &String) -> (r: Option<&Account>) {
        self.accounts.get_account_by_id(id)
    }

    fn set_account_tokens(&mut self, id: &String, tokens: u128) -> (ok: bool) {
        self.accounts.set_account_tokens(id, tokens)
    }

    fn create_account(&mut self, id: String, account_type: AccountType) -> (r: Result<
        (),
        ExecError,
    >) {
        self.accounts.create_account(id, account_type)
    }
}

} // verus!
