//! Transaction actions: what a transaction does with its target, the
//! canonical byte encoding of that choice, and the address it implies.

pub mod endian;
pub mod error;
pub mod fixed;
pub mod keccak;
pub mod reader;
pub mod stream;
pub mod theorems;
pub mod transaction;
pub mod uint;
pub mod wire;

pub use crate::error::DecodeError;
pub use crate::fixed::{Address, H256};
pub use crate::transaction::{ActionView, TransactionAction, CREATE2_TAG};
pub use crate::uint::{M256, U256};
