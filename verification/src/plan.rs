//! What an accepted operation asks of the host.
//!
//! The escrow decides; the host carries out. An accepted operation answers
//! with a plan: the calls on the collaborators, in order, and what becomes
//! of the escrow account once they have all succeeded. A call that fails
//! ends the operation, and the host discards what the operation did so far.

use crate::account::{
    leg_a_position, leg_b_position, Account, AUTHORITY, COUNTERPARTY, ESCROW, FIRST_LEG,
    FIRST_LEG_AT_COMMIT, INITIATOR, TOKEN_PROGRAM,
};
use crate::instruction::TermsView;
use crate::invocation::{
    close_account_call, set_authority_call, system_transfer_call, token_transfer_call, Action,
    ProgramCall, ProgramCallView,
};
use crate::key::Key;
use vstd::prelude::*;

verus! {

/// Direction byte of a native leg that the initiator deposits at commitment
/// and the counterparty receives at settlement.
pub const NATIVE_FROM_INITIATOR: u8 = 1;

/// Direction byte of a native leg that the counterparty pays at settlement.
pub const NATIVE_FROM_COUNTERPARTY: u8 = 2;

/// One call on a collaborator.
#[derive(Debug, PartialEq, Eq)]
pub struct Step {
    /// What is asked.
    pub action: Action,
    /// How the host is asked.
    pub call: ProgramCall,
    /// Positions, in the supplied list, of the accounts that the host hands
    /// to the callee.
    pub accounts: Vec<usize>,
    /// Whether the escrow signs the call as the derived authority.
    pub signed: bool,
}

/// The mathematical content of a `Step`.
pub struct StepView {
    pub action: Action,
    pub call: ProgramCallView,
    pub accounts: Seq<usize>,
    pub signed: bool,
}

impl View for Step {
    type V = StepView;

    open spec fn view(&self) -> StepView {
        StepView {
            action: self.action,
            call: self.call@,
            accounts: self.accounts@,
            signed: self.signed,
        }
    }
}

/// What becomes of the escrow account after the steps.
#[derive(Clone, Copy, Debug, PartialEq, Eq, Structural)]
pub enum Closing {
    /// The record stays; no native balance moves.
    Open,
    /// `release` of the escrow's native balance goes to the counterparty,
    /// all the rest to the initiator, and the record is erased.
    Swept { release: u64 },
}

/// The answer to an accepted operation.
#[derive(Debug, PartialEq, Eq)]
pub struct Plan {
    /// The bump byte that completes the seed of the derived authority.
    pub bump: u8,
    /// The calls to make, in order.
    pub steps: Vec<Step>,
    /// What to do with the escrow account once every call has succeeded.
    pub closing: Closing,
}

/// The mathematical content of a `Plan`.
pub struct PlanView {
    pub bump: u8,
    pub steps: Seq<StepView>,
    pub closing: Closing,
}

/// The views of a sequence of steps.
pub open spec fn step_views(steps: Seq<Step>) -> Seq<StepView> {
    steps.map_values(|s: Step| s@)
}

impl View for Plan {
    type V = PlanView;

    open spec fn view(&self) -> PlanView {
        PlanView { bump: self.bump, steps: step_views(self.steps@), closing: self.closing }
    }
}

/// The actions of a sequence of steps.
pub open spec fn actions_of(steps: Seq<StepView>) -> Seq<Action> {
    steps.map_values(|s: StepView| s.action)
}

/// The views of steps with one more step are the views with one more view.
pub proof fn lemma_step_views_push(steps: Seq<Step>, step: Step)
    ensures
        step_views(steps.push(step)) == step_views(steps).push(step@),
{
    assert(step_views(steps.push(step)) =~= step_views(steps).push(step@));
}

/// At commitment, leg `i` of side A leaves the initiator's asset account for
/// the custody account. The initiator authorises and signs.
pub open spec fn deposit_step(accounts: Seq<Account>, terms: TermsView, i: int) -> StepView {
    let first = FIRST_LEG_AT_COMMIT as int;
    let initiator = accounts[INITIATOR as int].key;
    let source = accounts[leg_a_position(first, i, 0)].key;
    let custody = accounts[leg_a_position(first, i, 2)].key;
    StepView {
        action: Action::Transfer {
            source,
            destination: custody,
            authority: initiator,
            amount: terms.lamports_x[i],
        },
        call: token_transfer_call(
            accounts[TOKEN_PROGRAM as int].key,
            source,
            custody,
            initiator,
            initiator,
            terms.lamports_x[i],
        ),
        accounts: seq![
            INITIATOR,
            leg_a_position(first, i, 0) as usize,
            leg_a_position(first, i, 2) as usize,
            TOKEN_PROGRAM,
        ],
        signed: false,
    }
}

/// At commitment, the custody account of leg `i` passes under the derived
/// authority. The escrow account is named as its owner so far, and signs.
pub open spec fn handover_step(
    accounts: Seq<Account>,
    terms: TermsView,
    authority: Key,
    i: int,
) -> StepView {
    let first = FIRST_LEG_AT_COMMIT as int;
    let escrow = accounts[ESCROW as int].key;
    let custody = accounts[leg_a_position(first, i, 2)].key;
    StepView {
        action: Action::SetAuthority {
            account: custody,
            new_authority: authority,
            current_authority: escrow,
        },
        call: set_authority_call(
            accounts[TOKEN_PROGRAM as int].key,
            custody,
            authority,
            escrow,
            escrow,
        ),
        accounts: seq![TOKEN_PROGRAM, leg_a_position(first, i, 2) as usize, ESCROW],
        signed: false,
    }
}

/// The native leg moves from `payer` to the escrow account. The system
/// program account stands at position `system`.
pub open spec fn native_step(
    accounts: Seq<Account>,
    terms: TermsView,
    payer: int,
    system: int,
) -> StepView {
    StepView {
        action: Action::TransferNative {
            from: accounts[payer].key,
            to: accounts[ESCROW as int].key,
            amount: terms.lamports,
        },
        call: system_transfer_call(
            accounts[payer].key,
            accounts[ESCROW as int].key,
            terms.lamports,
        ),
        accounts: seq![payer as usize, ESCROW, system as usize],
        signed: false,
    }
}

/// Leg `i` of side A leaves custody for the account at place `to` of the leg
/// (0 the initiator's asset account, 1 the counterparty's). The derived
/// authority authorises, and the escrow signs for it.
pub open spec fn release_step(
    accounts: Seq<Account>,
    terms: TermsView,
    authority: Key,
    i: int,
    to: int,
) -> StepView {
    let first = FIRST_LEG as int;
    let custody = accounts[leg_a_position(first, i, 2)].key;
    let destination = accounts[leg_a_position(first, i, to)].key;
    StepView {
        action: Action::Transfer {
            source: custody,
            destination,
            authority,
            amount: terms.lamports_x[i],
        },
        call: token_transfer_call(
            accounts[TOKEN_PROGRAM as int].key,
            custody,
            destination,
            authority,
            authority,
            terms.lamports_x[i],
        ),
        accounts: seq![
            AUTHORITY,
            TOKEN_PROGRAM,
            leg_a_position(first, i, 2) as usize,
            leg_a_position(first, i, to) as usize,
        ],
        signed: true,
    }
}

/// The custody account of leg `i` is closed and refunded to the initiator's
/// asset account of that leg. The escrow signs for the derived authority.
pub open spec fn close_step(
    accounts: Seq<Account>,
    terms: TermsView,
    authority: Key,
    i: int,
) -> StepView {
    let first = FIRST_LEG as int;
    let custody = accounts[leg_a_position(first, i, 2)].key;
    let destination = accounts[leg_a_position(first, i, 0)].key;
    StepView {
        action: Action::CloseAccount { account: custody, destination, authority },
        call: close_account_call(
            accounts[TOKEN_PROGRAM as int].key,
            custody,
            destination,
            authority,
            authority,
        ),
        accounts: seq![
            AUTHORITY,
            TOKEN_PROGRAM,
            leg_a_position(first, i, 2) as usize,
            leg_a_position(first, i, 0) as usize,
        ],
        signed: true,
    }
}

/// At settlement, leg `j` of side B goes straight from the counterparty's
/// asset account to the initiator's. The counterparty authorises and signs.
pub open spec fn payment_step(accounts: Seq<Account>, terms: TermsView, j: int) -> StepView {
    let first = FIRST_LEG as int;
    let count_a = terms.amount_x as int;
    let counterparty = accounts[COUNTERPARTY as int].key;
    let source = accounts[leg_b_position(first, count_a, j, 1)].key;
    let destination = accounts[leg_b_position(first, count_a, j, 0)].key;
    StepView {
        action: Action::Transfer {
            source,
            destination,
            authority: counterparty,
            amount: terms.lamports_y[j],
        },
        call: token_transfer_call(
            accounts[TOKEN_PROGRAM as int].key,
            source,
            destination,
            counterparty,
            counterparty,
            terms.lamports_y[j],
        ),
        accounts: seq![
            COUNTERPARTY,
            leg_b_position(first, count_a, j, 1) as usize,
            leg_b_position(first, count_a, j, 0) as usize,
            TOKEN_PROGRAM,
        ],
        signed: false,
    }
}

/// The steps that take the first `n` legs of side A into custody: for each
/// leg its deposit, then the handover of its custody account.
pub open spec fn custody_steps(
    accounts: Seq<Account>,
    terms: TermsView,
    authority: Key,
    n: int,
) -> Seq<StepView>
    decreases n,
{
    if n <= 0 {
        Seq::empty()
    } else {
        custody_steps(accounts, terms, authority, n - 1).push(
            deposit_step(accounts, terms, n - 1),
        ).push(handover_step(accounts, terms, authority, n - 1))
    }
}

/// The steps that empty the custody of the first `n` legs of side A towards
/// place `to` of each leg: for each leg its release, then the closing of its
/// custody account.
pub open spec fn release_steps(
    accounts: Seq<Account>,
    terms: TermsView,
    authority: Key,
    to: int,
    n: int,
) -> Seq<StepView>
    decreases n,
{
    if n <= 0 {
        Seq::empty()
    } else {
        release_steps(accounts, terms, authority, to, n - 1).push(
            release_step(accounts, terms, authority, n - 1, to),
        ).push(close_step(accounts, terms, authority, n - 1))
    }
}

/// The payments of the first `n` legs of side B.
pub open spec fn payment_steps(accounts: Seq<Account>, terms: TermsView, n: int) -> Seq<StepView>
    decreases n,
{
    if n <= 0 {
        Seq::empty()
    } else {
        payment_steps(accounts, terms, n - 1).push(payment_step(accounts, terms, n - 1))
    }
}

/// Whether these terms have a native leg that `direction` names.
pub open spec fn has_native_leg(terms: TermsView, direction: u8) -> bool {
    terms.sol_dir == direction && terms.lamports > 0
}

/// The native leg as a step, if `payer` owes one under `direction`.
pub open spec fn native_steps(
    accounts: Seq<Account>,
    terms: TermsView,
    direction: u8,
    payer: int,
    system: int,
) -> Seq<StepView> {
    if has_native_leg(terms, direction) {
        seq![native_step(accounts, terms, payer, system)]
    } else {
        Seq::empty()
    }
}

} // verus!
