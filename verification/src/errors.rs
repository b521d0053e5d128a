//! Error types for transaction execution, block admission and chain
//! validity checking.

use vstd::prelude::*;

verus! {

/// Why a single transaction failed to execute against the world state.
#[derive(Clone, Copy, Debug, PartialEq, Eq, Structural)]
pub enum ExecError {
    /// The sending account does not exist (and the block is not genesis).
    UnknownSender,
    /// The receiving account does not exist.
    UnknownReceiver,
    /// An account with the requested id already exists.
    AccountExists,
    /// Token creation was attempted outside the genesis block.
    NotInitialPhase,
    /// A token computation would overflow or underflow.
    ArithmeticFault,
    /// The transaction variant has no executor.
    UnsupportedTransactionType,
}

/// Why a candidate block was refused by block admission.
#[derive(Clone, Copy, Debug, PartialEq, Eq, Structural)]
pub enum ChainError {
    /// The block's stored fingerprint does not match its content.
    HashMismatch,
    /// The block does not point at the chain's current last fingerprint.
    BrokenLink,
    /// The block carries no transaction.
    EmptyBlock,
    /// Transaction number `index` (1-based) failed with `cause`;
    /// the world state was rolled back.
    TransactionFailed { index: usize, cause: ExecError },
}

/// The first violation found by the whole-chain validity check.
/// Block and transaction indices are 1-based.
#[derive(Debug)]
pub enum ValidityError {
    /// The stored fingerprint of block `block_index` does not match a
    /// freshly recomputed one.
    StoredHashMismatch { block_index: usize },
    /// The first block has a predecessor fingerprint set.
    GenesisHasParent,
    /// Block `block_index` does not point at the stored fingerprint of the
    /// block before it: `expected` is that stored fingerprint, `actual` is
    /// what the block carries.
    BrokenLink { block_index: usize, expected: String, actual: Option<String> },
    /// Transaction `tx_index` of block `block_index` carries a signature
    /// that does not check out.
    InvalidSignature { block_index: usize, tx_index: usize },
}

/// Mathematical image of `ValidityError`: strings become character
/// sequences.
pub ghost enum ValidityIssue {
    StoredHashMismatch { block_index: usize },
    GenesisHasParent,
    BrokenLink { block_index: usize, expected: Seq<char>, actual: Option<Seq<char>> },
    InvalidSignature { block_index: usize, tx_index: usize },
}

impl View for ValidityError {
    type V = ValidityIssue;

    open spec fn view(&self) -> ValidityIssue {
        match self {
            ValidityError::StoredHashMismatch { block_index } => ValidityIssue::StoredHashMismatch {
                block_index: *block_index,
            },
            ValidityError::GenesisHasParent => ValidityIssue::GenesisHasParent,
            ValidityError::BrokenLink { block_index, expected, actual } => ValidityIssue::BrokenLink {
                block_index: *block_index,
                expected: expected@,
                actual: match actual {
                    Some(s) => Some(s@),
                    None => None,
                },
            },
            ValidityError::InvalidSignature { block_index, tx_index } => ValidityIssue::InvalidSignature {
                block_index: *block_index,
                tx_index: *tx_index,
            },
        }
    }
}

} // verus!
