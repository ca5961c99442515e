//! A multi-leg escrow for atomic asset swaps on an account-based ledger.
//!
//! Two parties agree on up to nine asset lots in each direction and an
//! optional native-currency leg. The initiator commits the trade, which
//! stores every key and amount in an escrow record; the trade is then either
//! cancelled by the initiator or settled by the counterparty, and both are
//! accepted only when they repeat the committed terms exactly.
//!
//! The crate decides and the host carries out:
//!
//! - `instruction` decodes the bytes of an instruction into its terms;
//! - `record` lays the escrow record out in the storage of the escrow
//!   account and reads it back;
//! - `validator` holds a cancellation or settlement against the record;
//! - `processor` runs the three operations and answers each accepted one
//!   with a `plan` of calls on the asset program and the system program,
//!   which `invocation` has the crates of those programs build;
//! - `commitment` and `ledger` prove what the operations guarantee together:
//!   that a commitment pins the terms, and what a commitment followed by a
//!   cancellation or a settlement does to the balances.
//!
//! Every function is verified against its contract. The calls into the
//! crates of the host (`solana_program`, `spl_token`,
//! `solana_system_interface`) stand in `invocation`, each behind a contract
//! that is taken on trust.

pub mod account;
pub mod commitment;
pub mod error;
pub mod instruction;
pub mod invocation;
pub mod key;
pub mod ledger;
pub mod plan;
pub mod processor;
pub mod record;
pub mod validator;
pub mod wire;
