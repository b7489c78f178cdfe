//! # CKB Virtual Tx (VTx)
//!
//! A virtual transaction (VTx) is a subset of a complete CKB transaction.
//! Several VTxs are composed into one transaction; scripts that verify a VTx
//! read its data through a mock syscall layer.
//!
//! The CKB transaction components are held as plain values (see [`cell`]).
//! Their molecule encodings, hashes and the final `TransactionView` come from
//! `ckb-types`, behind the small wrappers at the end of [`cell`]. Each
//! function states in its `ensures` what it returns; laws that relate
//! several functions are the public `lemma_*` proof functions.

pub mod cell;
pub mod compose;
pub mod constants;
pub mod error;
pub mod intent;
pub mod mock_syscalls;
pub mod spec;
pub mod types;

pub use error::VtxError;
pub use intent::Intent;
pub use mock_syscalls::VtxSyscallContext;
pub use spec::VtxSpec;
pub use types::VirtualTx;
