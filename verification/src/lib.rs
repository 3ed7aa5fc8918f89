//! Core of an encrypted tabular-document editor.
//!
//! The library covers the row/document text codec, the encrypted store
//! (authenticated encryption of the serialized document), the in-memory
//! document with its registration/save state, and the two small state
//! machines that coordinate a background save with a pending request to
//! close the document.  File and window handling live outside, in the
//! unverified application layer.

pub mod amount;
pub mod attempt;
pub mod coordinator;
pub mod crypt;
pub mod csv;
pub mod file;
pub mod focus;
pub mod text;

pub use amount::Amount;
pub use attempt::{CloseAction, CloseAttempt};
pub use coordinator::SaveCoordinator;
pub use crypt::StoreError;
pub use csv::{Csv, CsvRow, ParseError};
pub use file::{File, FileError};
pub use focus::RowElement;

use vstd::prelude::*;

verus! {

/// Cryption key which every file of this application uses.
///
/// A single compiled-in passphrase: this hides the file contents from casual
/// inspection only, and is deliberately visible at every call site that
/// encrypts or decrypts.
pub const KEY: &'static str = "super-secure-encryption-key";

} // verus!
