//! Transactions: an immutable intent record, its fingerprint, and the
//! state-transition function that executes it against a world state.

use vstd::prelude::*;
use crate::account::AccountType;
use crate::account::AccountV;
use crate::account::fresh_account;
use crate::errors::ExecError;
use crate::hashing::blake2b_digest;
use crate::hashing::blake2b_hash;
use crate::hashing::push_str_bytes;
use crate::hashing::push_u128;
use crate::hashing::push_u64;
use crate::hashing::str_bytes;
use crate::hashing::u128_bytes;
use crate::hashing::u64_bytes;
use crate::world::WorldState;

verus! {

/// The image of an optional string.
pub open spec fn opt_string_view(o: Option<String>) -> Option<Seq<char>> {
    match o {
        Some(s) => Some(s@),
        None => None,
    }
}

/// A single operation to be stored on the chain.
#[derive(Clone, Debug)]
pub enum TransactionData {
    /// Store a new user account under the given id.
    CreateUserAccount(String),
    /// Change or create an arbitrary value in an account's store.
    /// Recognized shape, but no executor is implemented for it.
    ChangeStoreValue { key: String, value: String },
    /// Move tokens from the sender to another owner.
    TransferTokens { to: String, amount: u128 },
    /// Create tokens out of nowhere; genesis only.
    CreateTokens { receiver: String, amount: u128 },
}

/// Mathematical image of `TransactionData`.
pub ghost enum TransactionDataV {
    CreateUserAccount(Seq<char>),
    ChangeStoreValue { key: Seq<char>, value: Seq<char> },
    TransferTokens { to: Seq<char>, amount: u128 },
    CreateTokens { receiver: Seq<char>, amount: u128 },
}

impl View for TransactionData {
    type V = TransactionDataV;

    open spec fn view(&self) -> TransactionDataV {
        match self {
            TransactionData::CreateUserAccount(id) => TransactionDataV::CreateUserAccount(id@),
            TransactionData::ChangeStoreValue { key, value } => TransactionDataV::ChangeStoreValue {
                key: key@,
                value: value@,
            },
            TransactionData::TransferTokens { to, amount } => TransactionDataV::TransferTokens {
                to: to@,
                amount: *amount,
            },
            TransactionData::CreateTokens { receiver, amount } => TransactionDataV::CreateTokens {
                receiver: receiver@,
                amount: *amount,
            },
        }
    }
}

/// Mathematical image of a `Transaction`.
#[verifier::ext_equal]
pub ghost struct TransactionV {
    pub nonce: u128,
    pub from: Seq<char>,
    pub created_at: u64,
    pub record: TransactionDataV,
    pub signature: Option<Seq<char>>,
}

/// A request to the blockchain: who asks for what, when, under which
/// replay nonce, optionally signed. The `record` field stays freely
/// mutable on purpose: the fingerprint of an enclosing block is *not*
/// recomputed automatically, which is what makes tampering demonstrable.
#[derive(Debug)]
pub struct Transaction {
    nonce: u128,
    from: String,
    created_at: u64,
    pub record: TransactionData,
    signature: Option<String>,
}

impl View for Transaction {
    type V = TransactionV;

    closed spec fn view(&self) -> TransactionV {
        TransactionV {
            nonce: self.nonce,
            from: self.from@,
            created_at: self.created_at,
            record: self.record@,
            signature: opt_string_view(self.signature),
        }
    }
}

/// The canonical serialization of a transaction record: a tag byte, then
/// the variant's fields.
pub open spec fn data_bytes(d: TransactionDataV) -> Seq<u8> {
    match d {
        TransactionDataV::CreateUserAccount(id) => seq![0u8] + str_bytes(id),
        TransactionDataV::ChangeStoreValue { key, value } => seq![1u8] + str_bytes(key)
            + str_bytes(value),
        TransactionDataV::TransferTokens { to, amount } => seq![2u8] + str_bytes(to) + u128_bytes(
            amount,
        ),
        TransactionDataV::CreateTokens { receiver, amount } => seq![3u8] + str_bytes(receiver)
            + u128_bytes(amount),
    }
}

/// The fingerprint input of a transaction: `(created_at, record, from,
/// nonce)`, serialized in that fixed order.
pub open spec fn tx_hash_input(t: TransactionV) -> Seq<u8> {
    u64_bytes(t.created_at) + data_bytes(t.record) + str_bytes(t.from) + u128_bytes(t.nonce)
}

/// Signature verification is a stub: it reports every carried signature
/// as invalid, and an unsigned transaction as unsigned.
pub open spec fn spec_check_signature(t: TransactionV) -> bool {
    false
}

/// What executing one transaction does to a world state, or why it fails.
/// The dispatch follows the executor exactly: an absent sender is only
/// tolerated while `is_initial` (the genesis block) holds; token transfers
/// read both balances before writing either; token arithmetic that would
/// leave the representable range is rejected, never wrapped.
pub open spec fn spec_execute(
    w: Map<Seq<char>, AccountV>,
    tx: TransactionV,
    is_initial: bool,
) -> Result<Map<Seq<char>, AccountV>, ExecError> {
    if !w.dom().contains(tx.from) && !is_initial {
        Err(ExecError::UnknownSender)
    } else {
        match tx.record {
            TransactionDataV::CreateUserAccount(id) => if w.dom().contains(id) {
                Err(ExecError::AccountExists)
            } else {
                Ok(w.insert(id, fresh_account(AccountType::User)))
            },
            TransactionDataV::CreateTokens { receiver, amount } => if !is_initial {
                Err(ExecError::NotInitialPhase)
            } else if !w.dom().contains(receiver) {
                Err(ExecError::UnknownReceiver)
            } else if w[receiver].tokens + amount > u128::MAX {
                Err(ExecError::ArithmeticFault)
            } else {
                Ok(
                    w.insert(
                        receiver,
                        (AccountV { tokens: (w[receiver].tokens + amount) as u128, ..w[receiver] }),
                    ),
                )
            },
            TransactionDataV::TransferTokens { to, amount } => if !w.dom().contains(to) {
                Err(ExecError::UnknownReceiver)
            } else if !w.dom().contains(tx.from) {
                Err(ExecError::UnknownSender)
            } else if w[to].tokens + amount > u128::MAX || w[tx.from].tokens < amount {
                Err(ExecError::ArithmeticFault)
            } else {
                Ok(
                    w.insert(
                        tx.from,
                        (AccountV { tokens: (w[tx.from].tokens - amount) as u128, ..w[tx.from] }),
                    ).insert(
                        to,
                        (AccountV { tokens: (w[to].tokens + amount) as u128, ..w[to] }),
                    ),
                )
            },
            TransactionDataV::ChangeStoreValue { key, value } => Err(
                ExecError::UnsupportedTransactionType,
            ),
        }
    }
}

/// The replay-protection gap, documented rather than fixed: execution
/// never reads the nonce, so two transactions that agree on sender and
/// record execute identically whatever their nonces — a repeated nonce is
/// not rejected.
pub proof fn lemma_replay_gap(
    w: Map<Seq<char>, AccountV>,
    t1: TransactionV,
    t2: TransactionV,
    is_initial: bool,
)
    requires
        t1.from == t2.from,
        t1.record == t2.record,
    ensures
        spec_execute(w, t1, is_initial) == spec_execute(w, t2, is_initial),
{
}

/// Relies on std::time::SystemTime::now for a wall-clock reading in
/// milliseconds; nothing is assumed of the value.
#[verifier::external_body]
fn now_millis() -> u64 {
    match std::time::SystemTime::now().duration_since(std::time::UNIX_EPOCH) {
        Ok(d) => d.as_millis() as u64,
        Err(_) => 0,
    }
}

impl Transaction {
    /// A fresh, unsigned transaction stamped with the current time.
    pub fn new(from: String, transaction_data: TransactionData, nonce: u128) -> (r: Transaction)
        ensures
            r@.from == from@,
            r@.record == transaction_data@,
            r@.nonce == nonce,
            r@.signature is None,
    {
        Transaction {
            from,
            nonce,
            record: transaction_data,
            created_at: now_millis(),
            signature: None,
        }
    }

    /// Changes the world state according to the transaction's record, or
    /// reports why it cannot; a failing execution leaves the world exactly
    /// as it was.
    pub fn execute<T: WorldState>(&self, world_state: &mut T, is_initial: &bool) -> (r: Result<
        (),
        ExecError,
    >)
        ensures
            match spec_execute(old(world_state).world(), self@, *is_initial) {
                Ok(w) => r is Ok && final(world_state).world() == w,
                Err(e) => r == Result::<(), ExecError>::Err(e) && final(world_state).world() == old(
                    world_state,
                ).world(),
            },
    {
        let sender_exists = match world_state.get_account_by_id(&self.from) {
            Some(_) => true,
            None => false,
        };
        if !sender_exists && !*is_initial {
            return Err(ExecError::UnknownSender);
        }
        match &self.record {
            TransactionData::CreateUserAccount(account) => {
                world_state.create_account(account.clone(), AccountType::User)
            },
            TransactionData::CreateTokens { receiver, amount } => {
                if !*is_initial {
                    return Err(ExecError::NotInitialPhase);
                }
                let current = match world_state.get_account_by_id(receiver) {
                    Some(acc) => acc.tokens(),
                    None => {
                        return Err(ExecError::UnknownReceiver);
                    },
                };
                if *amount > u128::MAX - current {
                    return Err(ExecError::ArithmeticFault);
                }
                let ok = world_state.set_account_tokens(receiver, current + *amount);
                proof {
                    assert(ok);
                }
                Ok(())
            },
            TransactionData::TransferTokens { to, amount } => {
                let recv_tokens = match world_state.get_account_by_id(to) {
                    Some(recv) => recv.tokens(),
                    None => {
                        return Err(ExecError::UnknownReceiver);
                    },
                };
                let sender_tokens = match world_state.get_account_by_id(&self.from) {
                    Some(sender) => sender.tokens(),
                    None => {
                        return Err(ExecError::UnknownSender);
                    },
                };
                if *amount > u128::MAX - recv_tokens || sender_tokens < *amount {
                    return Err(ExecError::ArithmeticFault);
                }
                let ghost w0 = old(world_state).world();
                let ok_sender = world_state.set_account_tokens(&self.from, sender_tokens - *amount);
                let ok_recv = world_state.set_account_tokens(to, recv_tokens + *amount);
                proof {
                    assert(ok_sender);
                    assert(ok_recv);
                    let spec_w = spec_execute(w0, self@, *is_initial)->Ok_0;
                    assert(world_state.world() =~= spec_w);
                }
                Ok(())
            },
            TransactionData::ChangeStoreValue { key, value } => Err(
                ExecError::UnsupportedTransactionType,
            ),
        }
    }

    /// The transaction's fingerprint: a BLAKE2b digest of its canonical
    /// serialization. Deterministic: a function of the content alone.
    pub fn calculate_hash(&self) -> (r: Vec<u8>)
        ensures
            r@ == blake2b_digest(tx_hash_input(self@)),
    {
        let mut input: Vec<u8> = Vec::new();
        push_u64(&mut input, self.created_at);
        match &self.record {
            TransactionData::CreateUserAccount(id) => {
                input.push(0u8);
                push_str_bytes(&mut input, id);
            },
            TransactionData::ChangeStoreValue { key, value } => {
                input.push(1u8);
                push_str_bytes(&mut input, key);
                push_str_bytes(&mut input, value);
            },
            TransactionData::TransferTokens { to, amount } => {
                input.push(2u8);
                push_str_bytes(&mut input, to);
                push_u128(&mut input, *amount);
            },
            TransactionData::CreateTokens { receiver, amount } => {
                input.push(3u8);
                push_str_bytes(&mut input, receiver);
                push_u128(&mut input, *amount);
            },
        }
        proof {
            assert(input@ =~= u64_bytes(self@.created_at) + data_bytes(self@.record));
        }
        push_str_bytes(&mut input, &self.from);
        push_u128(&mut input, self.nonce);
        proof {
            assert(input@ =~= tx_hash_input(self@));
        }
        blake2b_hash(&input)
    }

    /// Hashes the transaction and checks the signature against it. The
    /// verification service is a stub: a carried signature never checks
    /// out, and an unsigned transaction reports false outright.
    pub fn check_signature(&self) -> (r: bool)
        ensures
            r == spec_check_signature(self@),
    {
        if !self.is_signed() {
            return false;
        }
        false
    }

    /// Whether the transaction carries a signature.
    pub fn is_signed(&self) -> (r: bool)
        ensures
            r == (self@.signature is Some),
    {
        self.signature.is_some()
    }
}

} // verus!
