//! What a commitment pins down.
//!
//! The record that a commitment writes is all that a later cancellation or
//! settlement is held against. This module proves that it is enough: what
//! the validator accepts on that record is the commitment itself.

use crate::account::{
    accounts_through_legs, leg_a_position, leg_b_position, Account, COUNTERPARTY, FIRST_LEG,
    FIRST_LEG_AT_COMMIT, INITIATOR,
};
use crate::error::ErrorKind;
use crate::instruction::TermsView;
use crate::key::{lemma_key_by_bytes, Key};
use crate::processor::{cancel_refusal, commit_refusal, commit_storage, exchange_refusal};
use crate::record::{lemma_stored_record_of_bytes, MAX_RECORD_LEN, STATUS_COMMITTED};
use crate::validator::{
    committed_record, lemma_refusal_is_mismatch, lemma_validation_accepts, validation,
};
use vstd::prelude::*;

verus! {

/// A cancellation or settlement states the very commitment that was made:
/// its terms and accounts state, field by field, the record that the terms
/// and accounts of the commitment stated. The leg accounts stand one
/// position further back than at commitment.
pub open spec fn same_commitment(
    committed_terms: TermsView,
    committing: Seq<Account>,
    terms: TermsView,
    closing: Seq<Account>,
) -> bool {
    &&& committed_terms.in_range()
    &&& terms.in_range()
    &&& committing.len() > accounts_through_legs(
        FIRST_LEG_AT_COMMIT as int,
        committed_terms.amount_x as int,
        committed_terms.amount_y as int,
    )
    &&& closing.len() >= accounts_through_legs(
        FIRST_LEG as int,
        terms.amount_x as int,
        terms.amount_y as int,
    )
    &&& committed_record(terms, closing, FIRST_LEG as int) == committed_record(
        committed_terms,
        committing,
        FIRST_LEG_AT_COMMIT as int,
    )
}

/// Once a trade is committed, the validator accepts exactly the
/// resubmissions that state the commitment itself: the same counts, the same
/// direction and reserve amount, and byte for byte the same keys and leg
/// amounts. Where every account of the resubmitted legs is supplied and
/// anything differs, the refusal is a mismatch of terms.
pub proof fn lemma_validator_accepts_only_the_commitment(
    committed_terms: TermsView,
    committing: Seq<Account>,
    storage: Seq<u8>,
    terms: TermsView,
    accounts: Seq<Account>,
)
    requires
        committed_terms.in_range(),
        terms.in_range(),
        committing.len() > accounts_through_legs(
            FIRST_LEG_AT_COMMIT as int,
            committed_terms.amount_x as int,
            committed_terms.amount_y as int,
        ),
        storage.len() >= MAX_RECORD_LEN,
    ensures
        ({
            let record = commit_storage(committing, committed_terms, storage);
            let supplied = accounts.len() >= accounts_through_legs(
                FIRST_LEG as int,
                terms.amount_x as int,
                terms.amount_y as int,
            );
            &&& validation(terms, accounts, record) is Ok <==> supplied && committed_record(
                terms,
                accounts,
                FIRST_LEG as int,
            ) == committed_record(committed_terms, committing, FIRST_LEG_AT_COMMIT as int)
            &&& supplied && validation(terms, accounts, record) is Err ==> validation(
                terms,
                accounts,
                record,
            )->Err_0.spec_kind() == ErrorKind::TermsMismatch
        }),
{
    let stated = committed_record(committed_terms, committing, FIRST_LEG_AT_COMMIT as int);
    let record = commit_storage(committing, committed_terms, storage);
    let resubmitted = committed_record(terms, accounts, FIRST_LEG as int);
    lemma_stored_record_of_bytes(stated, storage);
    lemma_validation_accepts(terms, accounts, record);
    assert(record[0] == STATUS_COMMITTED);
    assert(record[1] == committed_terms.amount_x && record[2] == committed_terms.amount_y);
    if accounts.len() >= accounts_through_legs(
        FIRST_LEG as int,
        terms.amount_x as int,
        terms.amount_y as int,
    ) && validation(terms, accounts, record) is Err {
        lemma_refusal_is_mismatch(terms, accounts, record);
    }
}

/// A cancellation that is accepted on the storage that an accepted
/// commitment wrote states that very commitment.
pub proof fn lemma_cancellation_states_the_commitment(
    taking: Option<(Key, u8)>,
    committing: Seq<Account>,
    committed_terms: TermsView,
    exempt_then: bool,
    storage: Seq<u8>,
    releasing: Option<(Key, u8)>,
    cancelling: Seq<Account>,
    terms: TermsView,
    exempt_now: bool,
)
    requires
        committed_terms.in_range(),
        terms.in_range(),
        storage.len() >= MAX_RECORD_LEN,
        commit_refusal(taking, committing, committed_terms, exempt_then, storage) is None,
        cancel_refusal(
            releasing,
            cancelling,
            terms,
            exempt_now,
            commit_storage(committing, committed_terms, storage),
        ) is None,
    ensures
        same_commitment(committed_terms, committing, terms, cancelling),
{
    lemma_validator_accepts_only_the_commitment(
        committed_terms,
        committing,
        storage,
        terms,
        cancelling,
    );
}

/// A settlement that is accepted on the storage that an accepted commitment
/// wrote states that very commitment.
pub proof fn lemma_settlement_states_the_commitment(
    taking: Option<(Key, u8)>,
    committing: Seq<Account>,
    committed_terms: TermsView,
    exempt_then: bool,
    storage: Seq<u8>,
    releasing: Option<(Key, u8)>,
    settling: Seq<Account>,
    terms: TermsView,
    exempt_now: bool,
)
    requires
        committed_terms.in_range(),
        terms.in_range(),
        storage.len() >= MAX_RECORD_LEN,
        commit_refusal(taking, committing, committed_terms, exempt_then, storage) is None,
        exchange_refusal(
            releasing,
            settling,
            terms,
            exempt_now,
            commit_storage(committing, committed_terms, storage),
        ) is None,
    ensures
        same_commitment(committed_terms, committing, terms, settling),
{
    lemma_validator_accepts_only_the_commitment(
        committed_terms,
        committing,
        storage,
        terms,
        settling,
    );
}

/// Where the same commitment is stated, the counts, the native leg, the
/// principals and, leg by leg, the accounts and amounts are the same.
pub proof fn lemma_same_legs(
    committed_terms: TermsView,
    committing: Seq<Account>,
    terms: TermsView,
    closing: Seq<Account>,
)
    requires
        same_commitment(committed_terms, committing, terms, closing),
    ensures
        terms.amount_x == committed_terms.amount_x,
        terms.amount_y == committed_terms.amount_y,
        terms.sol_dir == committed_terms.sol_dir,
        terms.lamports == committed_terms.lamports,
        closing[INITIATOR as int].key == committing[INITIATOR as int].key,
        closing[COUNTERPARTY as int].key == committing[COUNTERPARTY as int].key,
        forall|i: int|
            0 <= i < terms.amount_x ==> #[trigger] terms.lamports_x[i]
                == committed_terms.lamports_x[i],
        forall|j: int|
            0 <= j < terms.amount_y ==> #[trigger] terms.lamports_y[j]
                == committed_terms.lamports_y[j],
        forall|i: int, k: int|
            0 <= i < terms.amount_x && 0 <= k < 3 ==> (#[trigger] closing[leg_a_position(
                FIRST_LEG as int,
                i,
                k,
            )]).key == committing[leg_a_position(FIRST_LEG_AT_COMMIT as int, i, k)].key,
        forall|j: int, k: int|
            0 <= j < terms.amount_y && 0 <= k < 2 ==> (#[trigger] closing[leg_b_position(
                FIRST_LEG as int,
                terms.amount_x as int,
                j,
                k,
            )]).key == committing[leg_b_position(
                FIRST_LEG_AT_COMMIT as int,
                terms.amount_x as int,
                j,
                k,
            )].key,
{
    let here = committed_record(terms, closing, FIRST_LEG as int);
    let there = committed_record(committed_terms, committing, FIRST_LEG_AT_COMMIT as int);
    assert(here.legs_a.len() == there.legs_a.len());
    assert(here.legs_b.len() == there.legs_b.len());
    lemma_key_by_bytes(closing[INITIATOR as int].key, committing[INITIATOR as int].key);
    lemma_key_by_bytes(closing[COUNTERPARTY as int].key, committing[COUNTERPARTY as int].key);
    assert forall|i: int| 0 <= i < terms.amount_x implies #[trigger] terms.lamports_x[i]
        == committed_terms.lamports_x[i] by {
        assert(here.legs_a[i] == there.legs_a[i]);
    }
    assert forall|j: int| 0 <= j < terms.amount_y implies #[trigger] terms.lamports_y[j]
        == committed_terms.lamports_y[j] by {
        assert(here.legs_b[j] == there.legs_b[j]);
    }
    assert forall|i: int, k: int| 0 <= i < terms.amount_x && 0 <= k < 3 implies (
    #[trigger] closing[leg_a_position(FIRST_LEG as int, i, k)]).key == committing[leg_a_position(
        FIRST_LEG_AT_COMMIT as int,
        i,
        k,
    )].key by {
        assert(here.legs_a[i] == there.legs_a[i]);
        lemma_key_by_bytes(
            closing[leg_a_position(FIRST_LEG as int, i, k)].key,
            committing[leg_a_position(FIRST_LEG_AT_COMMIT as int, i, k)].key,
        );
    }
    assert forall|j: int, k: int| 0 <= j < terms.amount_y && 0 <= k < 2 implies (
    #[trigger] closing[leg_b_position(FIRST_LEG as int, terms.amount_x as int, j, k)]).key
        == committing[leg_b_position(
        FIRST_LEG_AT_COMMIT as int,
        terms.amount_x as int,
        j,
        k,
    )].key by {
        assert(here.legs_b[j] == there.legs_b[j]);
        lemma_key_by_bytes(
            closing[leg_b_position(FIRST_LEG as int, terms.amount_x as int, j, k)].key,
            committing[leg_b_position(
                FIRST_LEG_AT_COMMIT as int,
                terms.amount_x as int,
                j,
                k,
            )].key,
        );
    }
}

} // verus!
