pub mod account;
pub mod block;
pub mod chain;
pub mod errors;
pub mod hashing;
pub mod transaction;
pub mod world;

pub use account::Account;
pub use account::AccountType;
pub use block::Block;
pub use chain::Blockchain;
pub use errors::ChainError;
pub use errors::ExecError;
pub use errors::ValidityError;
pub use hashing::byte_vector_to_string;
pub use transaction::Transaction;
pub use transaction::TransactionData;
pub use world::AccountMap;
pub use world::WorldState;
