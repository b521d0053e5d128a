//! Blocks: an ordered bundle of transactions, linkage to the previous
//! block's fingerprint, and the block's own cached fingerprint.

use vstd::prelude::*;
use crate::hashing::blake2b_digest;
use crate::hashing::blake2b_hash;
use crate::hashing::byte_vector_to_string;
use crate::hashing::bytes_to_hex;
use crate::hashing::opt_str_bytes;
use crate::hashing::push_bytes;
use crate::hashing::push_str_bytes;
use crate::hashing::push_u128;
use crate::hashing::u128_bytes;
use crate::transaction::Transaction;
use crate::transaction::TransactionV;
use crate::transaction::opt_string_view;
use crate::transaction::tx_hash_input;

verus! {

/// Mathematical image of a `Block`.
#[verifier::ext_equal]
pub ghost struct BlockV {
    pub transactions: Seq<TransactionV>,
    pub prev_hash: Option<Seq<char>>,
    pub hash: Option<Seq<char>>,
    pub nonce: u128,
}

/// One single part of the blockchain: transactions plus linkage. The
/// transactions stay freely mutable while the cached fingerprint is only
/// rewritten by an explicit `update_hash` call; that asymmetry is what
/// lets a caller demonstrate tampering and its detection.
#[derive(Debug)]
pub struct Block {
    /// Actions that this block includes; admission demands at least one.
    pub transactions: Vec<Transaction>,
    /// The stored fingerprint of the previous block; `None` only for a
    /// genesis block.
    pub prev_hash: Option<String>,
    /// The block's own cached fingerprint; kept consistent with content
    /// only by explicit `update_hash` calls.
    pub hash: Option<String>,
    /// An arbitrary number, reserved for proof of work; hashed input with
    /// no further role.
    pub nonce: u128,
}

impl View for Block {
    type V = BlockV;

    open spec fn view(&self) -> BlockV {
        BlockV {
            transactions: self.transactions@.map_values(|t: Transaction| t@),
            prev_hash: opt_string_view(self.prev_hash),
            hash: opt_string_view(self.hash),
            nonce: self.nonce,
        }
    }
}

/// The concatenation of the transactions' fingerprints, in order.
pub open spec fn tx_digests(ts: Seq<TransactionV>) -> Seq<u8>
    decreases ts.len(),
{
    if ts.len() == 0 {
        Seq::empty()
    } else {
        tx_digests(ts.drop_last()) + blake2b_digest(tx_hash_input(ts.last()))
    }
}

/// The fingerprint input of a block: each contained transaction's
/// fingerprint in order, then the previous fingerprint and the nonce.
/// The stored fingerprint itself is no part of it.
pub open spec fn block_hash_input(b: BlockV) -> Seq<u8> {
    tx_digests(b.transactions) + opt_str_bytes(b.prev_hash) + u128_bytes(b.nonce)
}

/// The string a block with this content would store as fingerprint.
pub open spec fn content_fingerprint(b: BlockV) -> Seq<char> {
    bytes_to_hex(blake2b_digest(block_hash_input(b)))
}

/// Whether the stored fingerprint exists and matches the content.
pub open spec fn spec_verify_own_hash(b: BlockV) -> bool {
    b.hash == Some(content_fingerprint(b))
}

impl Block {
    /// An empty block pointing at the given predecessor fingerprint; its
    /// own fingerprint is not yet set.
    pub fn new(prev_hash: Option<String>) -> (r: Block)
        ensures
            r@.transactions == Seq::<TransactionV>::empty(),
            r@.prev_hash == opt_string_view(prev_hash),
            r@.hash is None,
            r@.nonce == 0,
    {
        let r = Block { nonce: 0, hash: None, prev_hash, transactions: Vec::new() };
        proof {
            assert(r@.transactions =~= Seq::<TransactionV>::empty());
        }
        r
    }

    /// The block's fingerprint, freshly derived from its content.
    pub fn calculate_hash(&self) -> (r: Vec<u8>)
        ensures
            r@ == blake2b_digest(block_hash_input(self@)),
    {
        let mut input: Vec<u8> = Vec::new();
        let ghost txs = self@.transactions;
        let mut i: usize = 0;
        while i < self.transactions.len()
            invariant
                i <= self.transactions.len(),
                txs == self.transactions@.map_values(|t: Transaction| t@),
                input@ == tx_digests(txs.subrange(0, i as int)),
            decreases self.transactions.len() - i,
        {
            let d = self.transactions[i].calculate_hash();
            push_bytes(&mut input, &d);
            proof {
                let cur = txs.subrange(0, (i + 1) as int);
                assert(cur.drop_last() =~= txs.subrange(0, i as int));
                assert(cur.last() == txs[i as int]);
                assert(input@ =~= tx_digests(cur));
            }
            i += 1;
        }
        proof {
            assert(txs.subrange(0, txs.len() as int) =~= txs);
        }
        match &self.prev_hash {
            None => {
                input.push(0u8);
            },
            Some(s) => {
                input.push(1u8);
                push_str_bytes(&mut input, s);
            },
        }
        push_u128(&mut input, self.nonce);
        proof {
            assert(input@ =~= block_hash_input(self@));
        }
        blake2b_hash(&input)
    }

    /// Recomputes the fingerprint from the current content and overwrites
    /// the stored one; afterwards the block verifies against itself.
    pub fn update_hash(&mut self)
        ensures
            final(self)@.transactions == old(self)@.transactions,
            final(self)@.prev_hash == old(self)@.prev_hash,
            final(self)@.nonce == old(self)@.nonce,
            final(self)@.hash == Some(content_fingerprint(old(self)@)),
            spec_verify_own_hash(final(self)@),
    {
        let digest = self.calculate_hash();
        self.hash = Some(byte_vector_to_string(&digest));
        proof {
            assert(block_hash_input(self@) == block_hash_input(old(self)@));
        }
    }

    /// Changes the nonce and refreshes the stored fingerprint.
    pub fn set_nonce(&mut self, nonce: u128)
        ensures
            final(self)@.transactions == old(self)@.transactions,
            final(self)@.prev_hash == old(self)@.prev_hash,
            final(self)@.nonce == nonce,
            spec_verify_own_hash(final(self)@),
    {
        self.nonce = nonce;
        self.update_hash();
    }

    /// Appends a transaction and refreshes the stored fingerprint.
    pub fn add_transaction(&mut self, transaction: Transaction)
        ensures
            final(self)@.transactions == old(self)@.transactions.push(transaction@),
            final(self)@.prev_hash == old(self)@.prev_hash,
            final(self)@.nonce == old(self)@.nonce,
            spec_verify_own_hash(final(self)@),
    {
        let ghost tv = transaction@;
        self.transactions.push(transaction);
        proof {
            assert(self@.transactions =~= old(self)@.transactions.push(tv));
        }
        self.update_hash();
    }

    /// The number of transactions inside the block.
    pub fn get_transaction_count(&self) -> (n: usize)
        ensures
            n == self@.transactions.len(),
    {
        self.transactions.len()
    }

    /// Whether a stored fingerprint exists and equals one freshly
    /// recomputed from the block's current content.
    pub fn verify_own_hash(&self) -> (r: bool)
        ensures
            r == spec_verify_own_hash(self@),
    {
        match &self.hash {
            None => false,
            Some(stored) => {
                let digest = self.calculate_hash();
                let computed = byte_vector_to_string(&digest);
                let same = *stored == computed;
                proof {
                    if same {
                        assert(self@.hash == Some(content_fingerprint(self@)));
                    }
                }
                same
            },
        }
    }
}

/// Hash determinism: a block's fingerprint input, and so its content
/// fingerprint, is a function of its semantic content alone — the
/// transactions, the predecessor fingerprint and the nonce. The stored
/// fingerprint has no part in it.
pub proof fn lemma_fingerprint_content_only(b1: BlockV, b2: BlockV)
    requires
        b1.transactions == b2.transactions,
        b1.prev_hash == b2.prev_hash,
        b1.nonce == b2.nonce,
    ensures
        content_fingerprint(b1) == content_fingerprint(b2),
{
}

/// Tamper detection, up to digest collisions: when a block's content is
/// changed while the stored fingerprint stays what it was, and the digest
/// of the new content differs from the digest of the old, the changed
/// block no longer verifies against itself.
pub proof fn lemma_tamper_detection(b1: BlockV, b2: BlockV)
    requires
        spec_verify_own_hash(b1),
        b2.hash == b1.hash,
    ensures
        blake2b_digest(block_hash_input(b2)) != blake2b_digest(block_hash_input(b1))
            ==> !spec_verify_own_hash(b2),
{
    if blake2b_digest(block_hash_input(b2)) != blake2b_digest(block_hash_input(b1))
        && spec_verify_own_hash(b2) {
        crate::hashing::lemma_bytes_to_hex_injective(
            blake2b_digest(block_hash_input(b1)),
            blake2b_digest(block_hash_input(b2)),
        );
    }
}

} // verus!
