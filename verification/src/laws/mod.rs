//! What the operations of the library come to, in terms of bytes, flags and borrow states.

pub mod beside;
pub mod borrows;
pub mod bytes;
pub mod dispatching;
pub mod encoded;
pub mod records;
pub mod wrappers;
