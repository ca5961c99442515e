//! The accounts that a caller supplies with an instruction.

use crate::key::Key;
use vstd::prelude::*;

verus! {

/// What the escrow reads of a supplied account: its key, and whether its
/// holder signed the call.
#[derive(Clone, Copy, Debug, PartialEq, Eq)]
pub struct Account {
    pub key: Key,
    pub is_signer: bool,
}

/// Position of the initiator in the supplied list.
pub const INITIATOR: usize = 0;

/// Position of the counterparty.
pub const COUNTERPARTY: usize = 1;

/// Position of the escrow account, which stores the record.
pub const ESCROW: usize = 2;

/// Position of the account from which the host reads its rent parameters.
pub const RENT: usize = 3;

/// Position of the asset program.
pub const TOKEN_PROGRAM: usize = 4;

/// Position of the derived authority, supplied with a cancellation or a
/// settlement.
pub const AUTHORITY: usize = 5;

/// Position of the first leg account when a trade is committed.
pub const FIRST_LEG_AT_COMMIT: usize = 5;

/// Position of the first leg account when a trade is cancelled or settled.
pub const FIRST_LEG: usize = 6;

/// Accounts that each leg of side A takes: the initiator's asset account,
/// the counterparty's, and the custody account.
pub const ACCOUNTS_PER_LEG_A: usize = 3;

/// Accounts that each leg of side B takes: the initiator's asset account and
/// the counterparty's.
pub const ACCOUNTS_PER_LEG_B: usize = 2;

/// Position of account `k` of leg `i` of side A, with the legs starting at
/// `first`.
pub open spec fn leg_a_position(first: int, i: int, k: int) -> int {
    first + ACCOUNTS_PER_LEG_A * i + k
}

/// Position of account `k` of leg `j` of side B, behind `count_a` legs of
/// side A.
pub open spec fn leg_b_position(first: int, count_a: int, j: int, k: int) -> int {
    first + ACCOUNTS_PER_LEG_A * count_a + ACCOUNTS_PER_LEG_B * j + k
}

/// Number of accounts up to and including the last leg account.
pub open spec fn accounts_through_legs(first: int, count_a: int, count_b: int) -> int {
    first + ACCOUNTS_PER_LEG_A * count_a + ACCOUNTS_PER_LEG_B * count_b
}

} // verus!
