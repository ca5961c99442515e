//! What the plans do to the balances of the ledger.
//!
//! The escrow never holds a balance; it asks the asset program and the
//! system program to move them. This module states what a run of actions
//! adds to the balance of an account once every action has been carried out,
//! and proves what a commitment followed by a cancellation, or by a
//! settlement, adds up to. What an asset account holds in native currency
//! for its own storage is the ledger's business and is left out.

use crate::account::{
    accounts_through_legs, leg_a_position, leg_b_position, Account, COUNTERPARTY, ESCROW,
    FIRST_LEG, FIRST_LEG_AT_COMMIT, INITIATOR,
};
use crate::commitment::{
    lemma_cancellation_states_the_commitment, lemma_same_legs,
    lemma_settlement_states_the_commitment, same_commitment,
};
use crate::error::EscrowError;
use crate::instruction::TermsView;
use crate::invocation::Action;
use crate::key::Key;
use crate::plan::{
    actions_of, close_step, custody_steps, deposit_step, handover_step, has_native_leg,
    native_step, native_steps, payment_step, payment_steps, release_step, release_steps,
    StepView, NATIVE_FROM_COUNTERPARTY, NATIVE_FROM_INITIATOR,
};
use crate::processor::{
    cancel_plan, cancel_refusal, commit_plan, commit_refusal, commit_storage, exchange_plan,
    exchange_refusal, settled, NativeBalances,
};
use crate::record::MAX_RECORD_LEN;
use vstd::prelude::*;

verus! {

/// What an action adds to the asset balance of the account `key`.
pub open spec fn asset_change(action: Action, key: Key) -> int {
    match action {
        Action::Transfer { source, destination, authority, amount } => (if destination == key {
            amount as int
        } else {
            0
        }) - (if source == key {
            amount as int
        } else {
            0
        }),
        _ => 0,
    }
}

/// What an action adds to the native balance of the account `key`.
pub open spec fn native_change(action: Action, key: Key) -> int {
    match action {
        Action::TransferNative { from, to, amount } => (if to == key {
            amount as int
        } else {
            0
        }) - (if from == key {
            amount as int
        } else {
            0
        }),
        _ => 0,
    }
}

/// What a run of actions adds to the asset balance of the account `key`.
pub open spec fn asset_changes(actions: Seq<Action>, key: Key) -> int
    decreases actions.len(),
{
    if actions.len() == 0 {
        0
    } else {
        asset_changes(actions.drop_last(), key) + asset_change(actions.last(), key)
    }
}

/// What a run of actions adds to the native balance of the account `key`.
pub open spec fn native_changes(actions: Seq<Action>, key: Key) -> int
    decreases actions.len(),
{
    if actions.len() == 0 {
        0
    } else {
        native_changes(actions.drop_last(), key) + native_change(actions.last(), key)
    }
}

/// What the settlement of leg `i` of side A owes the account `key`: the
/// amount of the leg if it is the counterparty's asset account of that leg,
/// less the amount if it is the initiator's.
pub open spec fn side_a_due(accounts: Seq<Account>, terms: TermsView, i: int, key: Key) -> int {
    asset_change(
        Action::Transfer {
            source: accounts[leg_a_position(FIRST_LEG as int, i, 0)].key,
            destination: accounts[leg_a_position(FIRST_LEG as int, i, 1)].key,
            authority: accounts[INITIATOR as int].key,
            amount: terms.lamports_x[i],
        },
        key,
    )
}

/// What the settlement of leg `j` of side B owes the account `key`: the
/// amount of the leg if it is the initiator's asset account of that leg,
/// less the amount if it is the counterparty's.
pub open spec fn side_b_due(accounts: Seq<Account>, terms: TermsView, j: int, key: Key) -> int {
    asset_change(
        Action::Transfer {
            source: accounts[leg_b_position(FIRST_LEG as int, terms.amount_x as int, j, 1)].key,
            destination: accounts[leg_b_position(FIRST_LEG as int, terms.amount_x as int, j, 0)].key,
            authority: accounts[COUNTERPARTY as int].key,
            amount: terms.lamports_y[j],
        },
        key,
    )
}

/// What the first `n` legs of side A owe the account `key`.
pub open spec fn side_a_dues(accounts: Seq<Account>, terms: TermsView, n: int, key: Key) -> int
    decreases n,
{
    if n <= 0 {
        0
    } else {
        side_a_dues(accounts, terms, n - 1, key) + side_a_due(accounts, terms, n - 1, key)
    }
}

/// What the first `n` legs of side B owe the account `key`.
pub open spec fn side_b_dues(accounts: Seq<Account>, terms: TermsView, n: int, key: Key) -> int
    decreases n,
{
    if n <= 0 {
        0
    } else {
        side_b_dues(accounts, terms, n - 1, key) + side_b_due(accounts, terms, n - 1, key)
    }
}

/// The host carried the actions out: each of the three native balances is
/// what it was, plus what the actions add to it.
pub open spec fn carried_out(
    before: NativeBalances,
    after: NativeBalances,
    accounts: Seq<Account>,
    actions: Seq<Action>,
) -> bool {
    &&& after.initiator == before.initiator + native_changes(
        actions,
        accounts[INITIATOR as int].key,
    )
    &&& after.counterparty == before.counterparty + native_changes(
        actions,
        accounts[COUNTERPARTY as int].key,
    )
    &&& after.escrow == before.escrow + native_changes(actions, accounts[ESCROW as int].key)
}

/// The initiator, the counterparty and the escrow account are three
/// accounts.
pub open spec fn distinct_principals(accounts: Seq<Account>) -> bool {
    &&& accounts[INITIATOR as int].key != accounts[COUNTERPARTY as int].key
    &&& accounts[INITIATOR as int].key != accounts[ESCROW as int].key
    &&& accounts[COUNTERPARTY as int].key != accounts[ESCROW as int].key
}

/// One more action adds its change.
proof fn lemma_asset_changes_push(actions: Seq<Action>, action: Action, key: Key)
    ensures
        asset_changes(actions.push(action), key) == asset_changes(actions, key) + asset_change(
            action,
            key,
        ),
{
    assert(actions.push(action).drop_last() =~= actions);
}

/// One more action adds its change.
proof fn lemma_native_changes_push(actions: Seq<Action>, action: Action, key: Key)
    ensures
        native_changes(actions.push(action), key) == native_changes(actions, key) + native_change(
            action,
            key,
        ),
{
    assert(actions.push(action).drop_last() =~= actions);
}

/// The changes of two runs, one after the other, add up.
pub proof fn lemma_asset_changes_add(first: Seq<Action>, second: Seq<Action>, key: Key)
    ensures
        asset_changes(first + second, key) == asset_changes(first, key) + asset_changes(
            second,
            key,
        ),
    decreases second.len(),
{
    if second.len() == 0 {
        assert(first + second =~= first);
    } else {
        lemma_asset_changes_add(first, second.drop_last(), key);
        assert((first + second).drop_last() =~= first + second.drop_last());
    }
}

/// The changes of two runs, one after the other, add up.
pub proof fn lemma_native_changes_add(first: Seq<Action>, second: Seq<Action>, key: Key)
    ensures
        native_changes(first + second, key) == native_changes(first, key) + native_changes(
            second,
            key,
        ),
    decreases second.len(),
{
    if second.len() == 0 {
        assert(first + second =~= first);
    } else {
        lemma_native_changes_add(first, second.drop_last(), key);
        assert((first + second).drop_last() =~= first + second.drop_last());
    }
}

/// The actions of steps with one more step are the actions with one more.
proof fn lemma_actions_of_push(steps: Seq<StepView>, step: StepView)
    ensures
        actions_of(steps.push(step)) == actions_of(steps).push(step.action),
{
    assert(actions_of(steps.push(step)) =~= actions_of(steps).push(step.action));
}

/// The actions of two runs of steps are the actions of the one, then of the
/// other.
proof fn lemma_actions_of_add(first: Seq<StepView>, second: Seq<StepView>)
    ensures
        actions_of(first + second) == actions_of(first) + actions_of(second),
{
    assert(actions_of(first + second) =~= actions_of(first) + actions_of(second));
}

/// Taking `n` legs into custody and releasing them towards place `to`
/// leaves, on every account, what a direct transfer of each leg from the
/// initiator's asset account to the account at that place would leave.
proof fn lemma_custody_then_release(
    taking: Key,
    releasing: Key,
    committed_terms: TermsView,
    committing: Seq<Account>,
    terms: TermsView,
    closing: Seq<Account>,
    to: int,
    n: int,
    key: Key,
)
    requires
        same_commitment(committed_terms, committing, terms, closing),
        0 <= to <= 1,
        0 <= n <= terms.amount_x,
    ensures
        asset_changes(actions_of(custody_steps(committing, committed_terms, taking, n)), key)
            + asset_changes(actions_of(release_steps(closing, terms, releasing, to, n)), key)
            == if to == 1 {
            side_a_dues(closing, terms, n, key)
        } else {
            0
        },
    decreases n,
{
    if n > 0 {
        lemma_custody_then_release(
            taking,
            releasing,
            committed_terms,
            committing,
            terms,
            closing,
            to,
            n - 1,
            key,
        );
        lemma_same_legs(committed_terms, committing, terms, closing);
        let taken = custody_steps(committing, committed_terms, taking, n - 1);
        let deposit = deposit_step(committing, committed_terms, n - 1);
        let handover = handover_step(committing, committed_terms, taking, n - 1);
        lemma_actions_of_push(taken, deposit);
        lemma_actions_of_push(taken.push(deposit), handover);
        lemma_asset_changes_push(actions_of(taken), deposit.action, key);
        lemma_asset_changes_push(actions_of(taken).push(deposit.action), handover.action, key);
        let given = release_steps(closing, terms, releasing, to, n - 1);
        let release = release_step(closing, terms, releasing, n - 1, to);
        let close = close_step(closing, terms, releasing, n - 1);
        lemma_actions_of_push(given, release);
        lemma_actions_of_push(given.push(release), close);
        lemma_asset_changes_push(actions_of(given), release.action, key);
        lemma_asset_changes_push(actions_of(given).push(release.action), close.action, key);
        assert(terms.lamports_x[n - 1] == committed_terms.lamports_x[n - 1]);
        assert(closing[leg_a_position(FIRST_LEG as int, n - 1, 0)].key == committing[leg_a_position(
            FIRST_LEG_AT_COMMIT as int,
            n - 1,
            0,
        )].key);
        assert(closing[leg_a_position(FIRST_LEG as int, n - 1, 2)].key == committing[leg_a_position(
            FIRST_LEG_AT_COMMIT as int,
            n - 1,
            2,
        )].key);
    }
}

/// The payments of `n` legs of side B leave, on every account, what those
/// legs owe it, and move no native currency.
proof fn lemma_payments(accounts: Seq<Account>, terms: TermsView, n: int, key: Key)
    requires
        0 <= n <= terms.amount_y,
    ensures
        asset_changes(actions_of(payment_steps(accounts, terms, n)), key) == side_b_dues(
            accounts,
            terms,
            n,
            key,
        ),
        native_changes(actions_of(payment_steps(accounts, terms, n)), key) == 0,
    decreases n,
{
    if n > 0 {
        lemma_payments(accounts, terms, n - 1, key);
        let paid = payment_steps(accounts, terms, n - 1);
        let payment = payment_step(accounts, terms, n - 1);
        lemma_actions_of_push(paid, payment);
        lemma_asset_changes_push(actions_of(paid), payment.action, key);
        lemma_native_changes_push(actions_of(paid), payment.action, key);
    }
}

/// The native leg, as a step, moves no asset; it moves the reserve amount
/// from the payer to the escrow account if the terms have a native leg in
/// that direction.
proof fn lemma_native_steps(
    accounts: Seq<Account>,
    terms: TermsView,
    direction: u8,
    payer: int,
    system: int,
    key: Key,
)
    ensures
        asset_changes(actions_of(native_steps(accounts, terms, direction, payer, system)), key)
            == 0,
        native_changes(actions_of(native_steps(accounts, terms, direction, payer, system)), key)
            == if has_native_leg(terms, direction) {
            native_change(native_step(accounts, terms, payer, system).action, key)
        } else {
            0
        },
{
    let steps = native_steps(accounts, terms, direction, payer, system);
    if has_native_leg(terms, direction) {
        let step = native_step(accounts, terms, payer, system);
        assert(steps =~= Seq::<StepView>::empty().push(step));
        lemma_actions_of_push(Seq::<StepView>::empty(), step);
        lemma_asset_changes_push(actions_of(Seq::<StepView>::empty()), step.action, key);
        lemma_native_changes_push(actions_of(Seq::<StepView>::empty()), step.action, key);
    }
}

/// A commitment followed by its cancellation changes the asset balance of
/// no account: what went into custody comes back.
///
/// This holds of every commitment that is accepted and every cancellation
/// that is then accepted on the storage it wrote, once the asset program has
/// carried out the steps of both plans.
pub proof fn lemma_commit_then_cancel_assets(
    taking: Option<(Key, u8)>,
    committing: Seq<Account>,
    committed_terms: TermsView,
    exempt_then: bool,
    storage: Seq<u8>,
    releasing: Option<(Key, u8)>,
    cancelling: Seq<Account>,
    terms: TermsView,
    exempt_now: bool,
    key: Key,
)
    requires
        committed_terms.in_range(),
        terms.in_range(),
        storage.len() >= MAX_RECORD_LEN,
        commit_refusal(taking, committing, committed_terms, exempt_then, storage) is None,
        cancel_refusal(
            releasing,
            cancelling,
            terms,
            exempt_now,
            commit_storage(committing, committed_terms, storage),
        ) is None,
    ensures
        asset_changes(
            actions_of(
                commit_plan(taking->Some_0, committing, committed_terms).steps + cancel_plan(
                    releasing->Some_0,
                    cancelling,
                    terms,
                ).steps,
            ),
            key,
        ) == 0,
{
    lemma_cancellation_states_the_commitment(
        taking,
        committing,
        committed_terms,
        exempt_then,
        storage,
        releasing,
        cancelling,
        terms,
        exempt_now,
    );
    lemma_same_legs(committed_terms, committing, terms, cancelling);
    let count_a = terms.amount_x as int;
    let custody = custody_steps(committing, committed_terms, taking->Some_0.0, count_a);
    let system = accounts_through_legs(
        FIRST_LEG_AT_COMMIT as int,
        count_a,
        terms.amount_y as int,
    );
    let native = native_steps(
        committing,
        committed_terms,
        NATIVE_FROM_INITIATOR,
        INITIATOR as int,
        system,
    );
    let release = release_steps(cancelling, terms, releasing->Some_0.0, 0, count_a);
    lemma_custody_then_release(
        taking->Some_0.0,
        releasing->Some_0.0,
        committed_terms,
        committing,
        terms,
        cancelling,
        0,
        count_a,
        key,
    );
    lemma_native_steps(
        committing,
        committed_terms,
        NATIVE_FROM_INITIATOR,
        INITIATOR as int,
        system,
        key,
    );
    lemma_actions_of_add(custody, native);
    lemma_actions_of_add(custody + native, release);
    lemma_asset_changes_add(actions_of(custody), actions_of(native), key);
    lemma_asset_changes_add(actions_of(custody + native), actions_of(release), key);
}

/// A commitment followed by its settlement changes the asset balance of
/// every account by exactly what the legs owe it: each amount of side A
/// leaves the initiator's asset account of its leg for the counterparty's,
/// each amount of side B leaves the counterparty's for the initiator's, and
/// custody keeps nothing.
///
/// This holds of every commitment that is accepted and every settlement
/// that is then accepted on the storage it wrote, once the asset program has
/// carried out the steps of both plans.
pub proof fn lemma_commit_then_settle_assets(
    taking: Option<(Key, u8)>,
    committing: Seq<Account>,
    committed_terms: TermsView,
    exempt_then: bool,
    storage: Seq<u8>,
    releasing: Option<(Key, u8)>,
    settling: Seq<Account>,
    terms: TermsView,
    exempt_now: bool,
    key: Key,
)
    requires
        committed_terms.in_range(),
        terms.in_range(),
        storage.len() >= MAX_RECORD_LEN,
        commit_refusal(taking, committing, committed_terms, exempt_then, storage) is None,
        exchange_refusal(
            releasing,
            settling,
            terms,
            exempt_now,
            commit_storage(committing, committed_terms, storage),
        ) is None,
    ensures
        asset_changes(
            actions_of(
                commit_plan(taking->Some_0, committing, committed_terms).steps + exchange_plan(
                    releasing->Some_0,
                    settling,
                    terms,
                ).steps,
            ),
            key,
        ) == side_a_dues(settling, terms, terms.amount_x as int, key) + side_b_dues(
            settling,
            terms,
            terms.amount_y as int,
            key,
        ),
{
    lemma_settlement_states_the_commitment(
        taking,
        committing,
        committed_terms,
        exempt_then,
        storage,
        releasing,
        settling,
        terms,
        exempt_now,
    );
    lemma_same_legs(committed_terms, committing, terms, settling);
    let count_a = terms.amount_x as int;
    let count_b = terms.amount_y as int;
    let custody = custody_steps(committing, committed_terms, taking->Some_0.0, count_a);
    let system = accounts_through_legs(FIRST_LEG_AT_COMMIT as int, count_a, count_b);
    let deposit = native_steps(
        committing,
        committed_terms,
        NATIVE_FROM_INITIATOR,
        INITIATOR as int,
        system,
    );
    let release = release_steps(settling, terms, releasing->Some_0.0, 1, count_a);
    let payments = payment_steps(settling, terms, count_b);
    let behind = accounts_through_legs(FIRST_LEG as int, count_a, count_b);
    let payment = native_steps(
        settling,
        terms,
        NATIVE_FROM_COUNTERPARTY,
        COUNTERPARTY as int,
        behind,
    );
    lemma_custody_then_release(
        taking->Some_0.0,
        releasing->Some_0.0,
        committed_terms,
        committing,
        terms,
        settling,
        1,
        count_a,
        key,
    );
    lemma_payments(settling, terms, count_b, key);
    lemma_native_steps(
        committing,
        committed_terms,
        NATIVE_FROM_INITIATOR,
        INITIATOR as int,
        system,
        key,
    );
    lemma_native_steps(settling, terms, NATIVE_FROM_COUNTERPARTY, COUNTERPARTY as int, behind, key);
    lemma_actions_of_add(custody, deposit);
    lemma_actions_of_add(release, payments);
    lemma_actions_of_add(release + payments, payment);
    lemma_actions_of_add(custody + deposit, release + payments + payment);
    lemma_asset_changes_add(actions_of(custody), actions_of(deposit), key);
    lemma_asset_changes_add(actions_of(release), actions_of(payments), key);
    lemma_asset_changes_add(actions_of(release + payments), actions_of(payment), key);
    lemma_asset_changes_add(
        actions_of(custody + deposit),
        actions_of(release + payments + payment),
        key,
    );
}

/// What the steps of a commitment add to the native balance of `key`: the
/// initiator's native leg leaves the initiator for the escrow account.
pub proof fn lemma_commit_native(
    authority: (Key, u8),
    terms: TermsView,
    accounts: Seq<Account>,
    key: Key,
)
    requires
        terms.in_range(),
    ensures
        native_changes(actions_of(commit_plan(authority, accounts, terms).steps), key) == if
            has_native_leg(terms, NATIVE_FROM_INITIATOR) {
            native_change(
                Action::TransferNative {
                    from: accounts[INITIATOR as int].key,
                    to: accounts[ESCROW as int].key,
                    amount: terms.lamports,
                },
                key,
            )
        } else {
            0
        },
{
    let count_a = terms.amount_x as int;
    let custody = custody_steps(accounts, terms, authority.0, count_a);
    let system = accounts_through_legs(
        FIRST_LEG_AT_COMMIT as int,
        count_a,
        terms.amount_y as int,
    );
    let native = native_steps(accounts, terms, NATIVE_FROM_INITIATOR, INITIATOR as int, system);
    lemma_custody_native(authority.0, terms, accounts, count_a, key);
    lemma_native_steps(accounts, terms, NATIVE_FROM_INITIATOR, INITIATOR as int, system, key);
    lemma_actions_of_add(custody, native);
    lemma_native_changes_add(actions_of(custody), actions_of(native), key);
}

/// Taking legs into custody moves no native currency.
proof fn lemma_custody_native(
    authority: Key,
    terms: TermsView,
    accounts: Seq<Account>,
    n: int,
    key: Key,
)
    requires
        0 <= n,
    ensures
        native_changes(actions_of(custody_steps(accounts, terms, authority, n)), key) == 0,
    decreases n,
{
    if n > 0 {
        lemma_custody_native(authority, terms, accounts, n - 1, key);
        let taken = custody_steps(accounts, terms, authority, n - 1);
        let deposit = deposit_step(accounts, terms, n - 1);
        let handover = handover_step(accounts, terms, authority, n - 1);
        lemma_actions_of_push(taken, deposit);
        lemma_actions_of_push(taken.push(deposit), handover);
        lemma_native_changes_push(actions_of(taken), deposit.action, key);
        lemma_native_changes_push(actions_of(taken).push(deposit.action), handover.action, key);
    }
}

/// Releasing legs from custody moves no native currency.
proof fn lemma_release_native(
    authority: Key,
    terms: TermsView,
    accounts: Seq<Account>,
    to: int,
    n: int,
    key: Key,
)
    requires
        0 <= n,
    ensures
        native_changes(actions_of(release_steps(accounts, terms, authority, to, n)), key) == 0,
    decreases n,
{
    if n > 0 {
        lemma_release_native(authority, terms, accounts, to, n - 1, key);
        let given = release_steps(accounts, terms, authority, to, n - 1);
        let release = release_step(accounts, terms, authority, n - 1, to);
        let close = close_step(accounts, terms, authority, n - 1);
        lemma_actions_of_push(given, release);
        lemma_actions_of_push(given.push(release), close);
        lemma_native_changes_push(actions_of(given), release.action, key);
        lemma_native_changes_push(actions_of(given).push(release.action), close.action, key);
    }
}

/// What the steps of a cancellation add to the native balance of `key`:
/// nothing. The native balances move only when the escrow account is closed.
pub proof fn lemma_cancel_native(
    authority: (Key, u8),
    terms: TermsView,
    accounts: Seq<Account>,
    key: Key,
)
    requires
        terms.in_range(),
    ensures
        native_changes(actions_of(cancel_plan(authority, accounts, terms).steps), key) == 0,
{
    lemma_release_native(authority.0, terms, accounts, 0, terms.amount_x as int, key);
}

/// What the steps of a settlement add to the native balance of `key`: the
/// counterparty's native leg leaves the counterparty for the escrow account.
pub proof fn lemma_settle_native(
    authority: (Key, u8),
    terms: TermsView,
    accounts: Seq<Account>,
    key: Key,
)
    requires
        terms.in_range(),
    ensures
        native_changes(actions_of(exchange_plan(authority, accounts, terms).steps), key) == if
            has_native_leg(terms, NATIVE_FROM_COUNTERPARTY) {
            native_change(
                Action::TransferNative {
                    from: accounts[COUNTERPARTY as int].key,
                    to: accounts[ESCROW as int].key,
                    amount: terms.lamports,
                },
                key,
            )
        } else {
            0
        },
{
    let count_a = terms.amount_x as int;
    let count_b = terms.amount_y as int;
    let release = release_steps(accounts, terms, authority.0, 1, count_a);
    let payments = payment_steps(accounts, terms, count_b);
    let behind = accounts_through_legs(FIRST_LEG as int, count_a, count_b);
    let payment = native_steps(
        accounts,
        terms,
        NATIVE_FROM_COUNTERPARTY,
        COUNTERPARTY as int,
        behind,
    );
    lemma_release_native(authority.0, terms, accounts, 1, count_a, key);
    lemma_payments(accounts, terms, count_b, key);
    lemma_native_steps(accounts, terms, NATIVE_FROM_COUNTERPARTY, COUNTERPARTY as int, behind, key);
    lemma_actions_of_add(release, payments);
    lemma_actions_of_add(release + payments, payment);
    lemma_native_changes_add(actions_of(release), actions_of(payments), key);
    lemma_native_changes_add(actions_of(release + payments), actions_of(payment), key);
}

/// A commitment followed by its cancellation returns the native leg: once
/// both plans have been carried out and the escrow account is closed, the
/// initiator holds what the initiator and the escrow account held before the
/// commitment, the counterparty holds what it held, and the escrow account
/// holds nothing. Where the escrow account held nothing before the
/// commitment, no native balance has changed.
///
/// This holds of every commitment that is accepted and every cancellation
/// that is then accepted on the storage it wrote, for the same escrow
/// account, where the initiator, the counterparty and the escrow account
/// are three accounts. The closing is refused, and changes nothing, only
/// where the initiator's new balance would leave the range of `u64`.
pub proof fn lemma_commit_then_cancel_native(
    taking: Option<(Key, u8)>,
    committing: Seq<Account>,
    committed_terms: TermsView,
    exempt_then: bool,
    storage: Seq<u8>,
    releasing: Option<(Key, u8)>,
    cancelling: Seq<Account>,
    terms: TermsView,
    exempt_now: bool,
    before: NativeBalances,
    committed: NativeBalances,
    carried: NativeBalances,
)
    requires
        committed_terms.in_range(),
        terms.in_range(),
        storage.len() >= MAX_RECORD_LEN,
        commit_refusal(taking, committing, committed_terms, exempt_then, storage) is None,
        cancel_refusal(
            releasing,
            cancelling,
            terms,
            exempt_now,
            commit_storage(committing, committed_terms, storage),
        ) is None,
        cancelling[ESCROW as int].key == committing[ESCROW as int].key,
        distinct_principals(committing),
        carried_out(
            before,
            committed,
            committing,
            actions_of(commit_plan(taking->Some_0, committing, committed_terms).steps),
        ),
        carried_out(
            committed,
            carried,
            cancelling,
            actions_of(cancel_plan(releasing->Some_0, cancelling, terms).steps),
        ),
    ensures
        settled(cancel_plan(releasing->Some_0, cancelling, terms).closing, carried) == if
            before.initiator + before.escrow > u64::MAX {
            Err::<NativeBalances, EscrowError>(EscrowError::AmountOverflow)
        } else {
            Ok(
                NativeBalances {
                    initiator: (before.initiator + before.escrow) as u64,
                    counterparty: before.counterparty,
                    escrow: 0,
                },
            )
        },
        before.escrow == 0 ==> settled(
            cancel_plan(releasing->Some_0, cancelling, terms).closing,
            carried,
        ) == Ok::<NativeBalances, EscrowError>(before),
{
    let taken = taking->Some_0;
    let released = releasing->Some_0;
    lemma_commit_native(taken, committed_terms, committing, committing[INITIATOR as int].key);
    lemma_commit_native(taken, committed_terms, committing, committing[COUNTERPARTY as int].key);
    lemma_commit_native(taken, committed_terms, committing, committing[ESCROW as int].key);
    lemma_cancel_native(released, terms, cancelling, cancelling[INITIATOR as int].key);
    lemma_cancel_native(released, terms, cancelling, cancelling[COUNTERPARTY as int].key);
    lemma_cancel_native(released, terms, cancelling, cancelling[ESCROW as int].key);
}

/// What the native leg gives the initiator at settlement: the reserve
/// amount if the counterparty pays it, less the reserve amount if the
/// initiator does, nothing if there is no native leg.
pub open spec fn native_due_to_initiator(terms: TermsView) -> int {
    if has_native_leg(terms, NATIVE_FROM_COUNTERPARTY) {
        terms.lamports as int
    } else if has_native_leg(terms, NATIVE_FROM_INITIATOR) {
        -(terms.lamports as int)
    } else {
        0
    }
}

/// A commitment followed by its settlement moves the native leg in its
/// direction: once both plans have been carried out and the escrow account
/// is closed, the counterparty holds what it held less what the native leg
/// gives the initiator, the initiator holds what the initiator and the
/// escrow account held before the commitment plus what the native leg gives
/// the initiator, and the escrow account holds nothing.
///
/// This holds of every commitment that is accepted and every settlement
/// that is then accepted on the storage it wrote, for the same escrow
/// account, where the initiator, the counterparty and the escrow account
/// are three accounts. The closing is refused, and changes nothing, only
/// where a new balance would leave the range of `u64`.
pub proof fn lemma_commit_then_settle_native(
    taking: Option<(Key, u8)>,
    committing: Seq<Account>,
    committed_terms: TermsView,
    exempt_then: bool,
    storage: Seq<u8>,
    releasing: Option<(Key, u8)>,
    settling: Seq<Account>,
    terms: TermsView,
    exempt_now: bool,
    before: NativeBalances,
    committed: NativeBalances,
    carried: NativeBalances,
)
    requires
        committed_terms.in_range(),
        terms.in_range(),
        storage.len() >= MAX_RECORD_LEN,
        commit_refusal(taking, committing, committed_terms, exempt_then, storage) is None,
        exchange_refusal(
            releasing,
            settling,
            terms,
            exempt_now,
            commit_storage(committing, committed_terms, storage),
        ) is None,
        settling[ESCROW as int].key == committing[ESCROW as int].key,
        distinct_principals(committing),
        carried_out(
            before,
            committed,
            committing,
            actions_of(commit_plan(taking->Some_0, committing, committed_terms).steps),
        ),
        carried_out(
            committed,
            carried,
            settling,
            actions_of(exchange_plan(releasing->Some_0, settling, terms).steps),
        ),
    ensures
        settled(exchange_plan(releasing->Some_0, settling, terms).closing, carried) == if
            before.counterparty - native_due_to_initiator(terms) > u64::MAX || before.initiator
            + before.escrow + native_due_to_initiator(terms) > u64::MAX {
            Err::<NativeBalances, EscrowError>(EscrowError::AmountOverflow)
        } else {
            Ok(
                NativeBalances {
                    initiator: (before.initiator + before.escrow + native_due_to_initiator(
                        terms,
                    )) as u64,
                    counterparty: (before.counterparty - native_due_to_initiator(terms)) as u64,
                    escrow: 0,
                },
            )
        },
{
    let taken = taking->Some_0;
    let released = releasing->Some_0;
    lemma_settlement_states_the_commitment(
        taking,
        committing,
        committed_terms,
        exempt_then,
        storage,
        releasing,
        settling,
        terms,
        exempt_now,
    );
    lemma_same_legs(committed_terms, committing, terms, settling);
    lemma_commit_native(taken, committed_terms, committing, committing[INITIATOR as int].key);
    lemma_commit_native(taken, committed_terms, committing, committing[COUNTERPARTY as int].key);
    lemma_commit_native(taken, committed_terms, committing, committing[ESCROW as int].key);
    lemma_settle_native(released, terms, settling, settling[INITIATOR as int].key);
    lemma_settle_native(released, terms, settling, settling[COUNTERPARTY as int].key);
    lemma_settle_native(released, terms, settling, settling[ESCROW as int].key);
}

} // verus!
