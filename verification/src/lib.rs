//! Reading and writing the memory of another running process.
//!
//! The crate holds the decisions of a cross-process memory accessor: which
//! line of a process listing names the target, what a transfer count
//! reported by the operating system means, and how a null-terminated string
//! is put together from fixed-size chunks. The system calls themselves are
//! made by the caller, who hands their plain results to the functions here.

pub mod error;
pub mod memory;
pub mod scan;
pub mod listing;
pub mod miner;
pub mod numeral;
