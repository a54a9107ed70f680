//! Account loading and instruction dispatch for on-chain programs, with the borrow
//! discipline of account data verified.

pub mod account_view;
pub mod accounts;
pub mod address;
pub mod context;
pub mod cursor;
pub mod dispatch;
pub mod dup_mut;
pub mod error;
pub mod laws;
pub mod le;
pub mod memory;
pub mod schema;
pub mod system_program;
pub mod updates;

pub use crate::accounts::AnchorAccount;
pub use crate::address::Address;
pub use crate::context::{Bumps, Context};
pub use crate::cursor::AccountCursor;
pub use crate::dispatch::{run_handler, TryAccounts};
pub use crate::error::ErrorCode;
pub use crate::memory::{AccountMemory, AccountView};
