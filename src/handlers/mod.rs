//! The storage backends and the transaction model they share.

pub mod transaction;

pub use transaction::{Transaction, TransactionFiles};
pub mod staging;
pub mod memory;

pub use memory::{CacheKey, MemoryDatabase, MemoryHandler};
pub mod nop;

pub use nop::NopHandler;
pub mod fs;

pub use fs::FileSystemHandler;
