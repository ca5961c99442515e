//! The commitment validator.
//!
//! A cancellation or a settlement repeats the terms of the trade and
//! supplies every account again. The validator holds both against the
//! stored record, field by field and byte for byte. It is the only thing
//! that keeps a party from changing the terms after the commitment, so a
//! single mismatch refuses the whole operation.

use crate::account::{
    accounts_through_legs, leg_a_position, leg_b_position, Account, ACCOUNTS_PER_LEG_A,
    ACCOUNTS_PER_LEG_B, COUNTERPARTY, FIRST_LEG, INITIATOR,
};
use crate::error::{ErrorKind, EscrowError};
use crate::instruction::{TermsView, TradeTerms};
use crate::key::KEY_LEN;
use crate::record::{
    leg_a_offset, leg_b_offset, lemma_bytes_of_stored_record, record_len, stored_record,
    LegAView, LegBView, RecordReader, RecordView, HEADER_LEN, LEG_A_LEN, LEG_B_LEN,
    STATUS_COMMITTED,
};
use crate::wire::be_u64;
use vstd::prelude::*;

verus! {

/// Leg `i` of side A as these terms and accounts state it.
pub open spec fn stated_leg_a(
    terms: TermsView,
    accounts: Seq<Account>,
    first: int,
    i: int,
) -> LegAView {
    LegAView {
        initiator_account: accounts[leg_a_position(first, i, 0)].key@,
        counterparty_account: accounts[leg_a_position(first, i, 1)].key@,
        custody_account: accounts[leg_a_position(first, i, 2)].key@,
        amount: terms.lamports_x[i],
    }
}

/// Leg `j` of side B as these terms and accounts state it.
pub open spec fn stated_leg_b(
    terms: TermsView,
    accounts: Seq<Account>,
    first: int,
    j: int,
) -> LegBView {
    LegBView {
        initiator_account: accounts[leg_b_position(first, terms.amount_x as int, j, 0)].key@,
        counterparty_account: accounts[leg_b_position(first, terms.amount_x as int, j, 1)].key@,
        amount: terms.lamports_y[j],
    }
}

/// The record of the commitment that these terms and accounts state, with
/// the leg accounts starting at position `first`.
pub open spec fn committed_record(terms: TermsView, accounts: Seq<Account>, first: int) -> RecordView
    recommends
        terms.in_range(),
        accounts.len() >= accounts_through_legs(first, terms.amount_x as int, terms.amount_y as int),
{
    RecordView {
        status: STATUS_COMMITTED,
        native_leg_direction: terms.sol_dir,
        reserve_amount: terms.lamports,
        initiator_key: accounts[INITIATOR as int].key@,
        counterparty_key: accounts[COUNTERPARTY as int].key@,
        legs_a: Seq::new(terms.amount_x as nat, |i: int| stated_leg_a(terms, accounts, first, i)),
        legs_b: Seq::new(terms.amount_y as nat, |j: int| stated_leg_b(terms, accounts, first, j)),
    }
}

/// Every leg account is supplied, and the stored record is the record that
/// the resubmitted terms and accounts state.
pub open spec fn matches_commitment(
    terms: TermsView,
    accounts: Seq<Account>,
    record: Seq<u8>,
) -> bool {
    &&& accounts.len() >= accounts_through_legs(
        FIRST_LEG as int,
        terms.amount_x as int,
        terms.amount_y as int,
    )
    &&& stored_record(record) == committed_record(terms, accounts, FIRST_LEG as int)
}

/// The checks on the header of the record, in the order in which they are
/// made.
pub open spec fn check_header(
    terms: TermsView,
    accounts: Seq<Account>,
    record: Seq<u8>,
) -> Result<(), EscrowError> {
    if record[0] != STATUS_COMMITTED {
        Err(EscrowError::UninitializedAccount)
    } else if record[1] != terms.amount_x || record[2] != terms.amount_y || record[3]
        != terms.sol_dir || be_u64(record.subrange(4, 12)) != terms.lamports {
        Err(EscrowError::InvalidAmount)
    } else if record.subrange(12, 44) != accounts[INITIATOR as int].key@ || record.subrange(44, 76)
        != accounts[COUNTERPARTY as int].key@ {
        Err(EscrowError::InvalidAccount)
    } else {
        Ok(())
    }
}

/// The checks on leg `i` of side A: each of its three accounts must be
/// supplied and be the stored one, and its amount must be the stored one.
pub open spec fn check_leg_a(
    terms: TermsView,
    accounts: Seq<Account>,
    record: Seq<u8>,
    i: int,
) -> Result<(), EscrowError> {
    let at = leg_a_offset(i);
    let first = FIRST_LEG as int;
    if accounts.len() <= leg_a_position(first, i, 0) {
        Err(EscrowError::NotEnoughAccountKeys)
    } else if accounts[leg_a_position(first, i, 0)].key@ != record.subrange(at, at + 32) {
        Err(EscrowError::InvalidAccount)
    } else if accounts.len() <= leg_a_position(first, i, 1) {
        Err(EscrowError::NotEnoughAccountKeys)
    } else if accounts[leg_a_position(first, i, 1)].key@ != record.subrange(at + 32, at + 64) {
        Err(EscrowError::InvalidAccount)
    } else if accounts.len() <= leg_a_position(first, i, 2) {
        Err(EscrowError::NotEnoughAccountKeys)
    } else if accounts[leg_a_position(first, i, 2)].key@ != record.subrange(at + 64, at + 96) {
        Err(EscrowError::InvalidAccount)
    } else if terms.lamports_x[i] != be_u64(record.subrange(at + 96, at + 104)) {
        Err(EscrowError::InvalidAccount)
    } else {
        Ok(())
    }
}

/// The checks on leg `j` of side B. No custody account stands on this side.
pub open spec fn check_leg_b(
    terms: TermsView,
    accounts: Seq<Account>,
    record: Seq<u8>,
    j: int,
) -> Result<(), EscrowError> {
    let count_a = terms.amount_x as int;
    let at = leg_b_offset(count_a, j);
    let first = FIRST_LEG as int;
    if accounts.len() <= leg_b_position(first, count_a, j, 0) {
        Err(EscrowError::NotEnoughAccountKeys)
    } else if accounts[leg_b_position(first, count_a, j, 0)].key@ != record.subrange(at, at + 32) {
        Err(EscrowError::InvalidAccount)
    } else if accounts.len() <= leg_b_position(first, count_a, j, 1) {
        Err(EscrowError::NotEnoughAccountKeys)
    } else if accounts[leg_b_position(first, count_a, j, 1)].key@ != record.subrange(
        at + 32,
        at + 64,
    ) {
        Err(EscrowError::InvalidAccount)
    } else if terms.lamports_y[j] != be_u64(record.subrange(at + 64, at + 72)) {
        Err(EscrowError::InvalidAccount)
    } else {
        Ok(())
    }
}

/// The checks on the legs of side A from leg `from` on: the first that fails
/// decides.
pub open spec fn check_legs_a(
    terms: TermsView,
    accounts: Seq<Account>,
    record: Seq<u8>,
    from: int,
) -> Result<(), EscrowError>
    decreases terms.amount_x - from,
{
    if from >= terms.amount_x {
        Ok(())
    } else {
        match check_leg_a(terms, accounts, record, from) {
            Err(e) => Err(e),
            Ok(_) => check_legs_a(terms, accounts, record, from + 1),
        }
    }
}

/// The checks on the legs of side B from leg `from` on: the first that fails
/// decides.
pub open spec fn check_legs_b(
    terms: TermsView,
    accounts: Seq<Account>,
    record: Seq<u8>,
    from: int,
) -> Result<(), EscrowError>
    decreases terms.amount_y - from,
{
    if from >= terms.amount_y {
        Ok(())
    } else {
        match check_leg_b(terms, accounts, record, from) {
            Err(e) => Err(e),
            Ok(_) => check_legs_b(terms, accounts, record, from + 1),
        }
    }
}

/// What the validator answers: the first check that fails decides the error.
/// The header comes first, then the legs of side A, then those of side B.
pub open spec fn validation(
    terms: TermsView,
    accounts: Seq<Account>,
    record: Seq<u8>,
) -> Result<(), EscrowError> {
    if accounts.len() < FIRST_LEG {
        Err(EscrowError::NotEnoughAccountKeys)
    } else {
        match check_header(terms, accounts, record) {
            Err(e) => Err(e),
            Ok(_) => match check_legs_a(terms, accounts, record, 0) {
                Err(e) => Err(e),
                Ok(_) => check_legs_b(terms, accounts, record, 0),
            },
        }
    }
}

/// The legs of side A from `from` on pass exactly when each of them is
/// supplied in full and is the stored leg.
pub proof fn lemma_legs_a_pass(
    terms: TermsView,
    accounts: Seq<Account>,
    record: Seq<u8>,
    from: int,
)
    requires
        0 <= from <= terms.amount_x,
    ensures
        check_legs_a(terms, accounts, record, from) is Ok <==> forall|i: int|
            from <= i < terms.amount_x ==> #[trigger] check_leg_a(terms, accounts, record, i) is Ok,
    decreases terms.amount_x - from,
{
    if from < terms.amount_x {
        lemma_legs_a_pass(terms, accounts, record, from + 1);
    }
}

/// The legs of side B from `from` on pass exactly when each of them is
/// supplied in full and is the stored leg.
pub proof fn lemma_legs_b_pass(
    terms: TermsView,
    accounts: Seq<Account>,
    record: Seq<u8>,
    from: int,
)
    requires
        0 <= from <= terms.amount_y,
    ensures
        check_legs_b(terms, accounts, record, from) is Ok <==> forall|j: int|
            from <= j < terms.amount_y ==> #[trigger] check_leg_b(terms, accounts, record, j) is Ok,
    decreases terms.amount_y - from,
{
    if from < terms.amount_y {
        lemma_legs_b_pass(terms, accounts, record, from + 1);
    }
}

/// The validator accepts exactly when every leg account is supplied and the
/// stored record equals, field by field, what the resubmitted terms and
/// accounts state.
pub proof fn lemma_validation_accepts(terms: TermsView, accounts: Seq<Account>, record: Seq<u8>)
    requires
        terms.in_range(),
        record.len() >= record_len(terms.amount_x as int, terms.amount_y as int),
    ensures
        validation(terms, accounts, record) is Ok <==> matches_commitment(terms, accounts, record),
{
    let count_a = terms.amount_x as int;
    let count_b = terms.amount_y as int;
    let first = FIRST_LEG as int;
    let stated = committed_record(terms, accounts, first);
    let stored = stored_record(record);
    lemma_legs_a_pass(terms, accounts, record, 0);
    lemma_legs_b_pass(terms, accounts, record, 0);
    if validation(terms, accounts, record) is Ok {
        assert forall|i: int| 0 <= i < count_a implies stored.legs_a[i] == stated.legs_a[i] by {
            assert(check_leg_a(terms, accounts, record, i) is Ok);
        }
        assert forall|j: int| 0 <= j < count_b implies stored.legs_b[j] == stated.legs_b[j] by {
            assert(check_leg_b(terms, accounts, record, j) is Ok);
        }
        assert(stored.legs_a =~= stated.legs_a);
        assert(stored.legs_b =~= stated.legs_b);
        if count_b > 0 {
            assert(check_leg_b(terms, accounts, record, count_b - 1) is Ok);
        } else if count_a > 0 {
            assert(check_leg_a(terms, accounts, record, count_a - 1) is Ok);
        }
    }
    if matches_commitment(terms, accounts, record) {
        assert(stored == stated);
        assert(stored.legs_a.len() == stated.legs_a.len());
        assert(stored.legs_b.len() == stated.legs_b.len());
        assert forall|i: int| 0 <= i < count_a implies #[trigger] check_leg_a(
            terms,
            accounts,
            record,
            i,
        ) is Ok by {
            assert(stored.legs_a[i] == stated.legs_a[i]);
        }
        assert forall|j: int| 0 <= j < count_b implies #[trigger] check_leg_b(
            terms,
            accounts,
            record,
            j,
        ) is Ok by {
            assert(stored.legs_b[j] == stated.legs_b[j]);
        }
    }
}

/// Where every leg account is supplied, a leg of side A can only be refused
/// as a mismatch.
pub proof fn lemma_legs_a_refusal(
    terms: TermsView,
    accounts: Seq<Account>,
    record: Seq<u8>,
    from: int,
)
    requires
        0 <= from <= terms.amount_x,
        accounts.len() >= accounts_through_legs(
            FIRST_LEG as int,
            terms.amount_x as int,
            terms.amount_y as int,
        ),
    ensures
        check_legs_a(terms, accounts, record, from) is Err ==> check_legs_a(
            terms,
            accounts,
            record,
            from,
        )->Err_0 == EscrowError::InvalidAccount,
    decreases terms.amount_x - from,
{
    if from < terms.amount_x {
        lemma_legs_a_refusal(terms, accounts, record, from + 1);
    }
}

/// Where every leg account is supplied, a leg of side B can only be refused
/// as a mismatch.
pub proof fn lemma_legs_b_refusal(
    terms: TermsView,
    accounts: Seq<Account>,
    record: Seq<u8>,
    from: int,
)
    requires
        0 <= from <= terms.amount_y,
        accounts.len() >= accounts_through_legs(
            FIRST_LEG as int,
            terms.amount_x as int,
            terms.amount_y as int,
        ),
    ensures
        check_legs_b(terms, accounts, record, from) is Err ==> check_legs_b(
            terms,
            accounts,
            record,
            from,
        )->Err_0 == EscrowError::InvalidAccount,
    decreases terms.amount_y - from,
{
    if from < terms.amount_y {
        lemma_legs_b_refusal(terms, accounts, record, from + 1);
    }
}

/// Where the record is committed and every account of the resubmitted legs
/// is supplied, the validator refuses only for a mismatch of terms.
pub proof fn lemma_refusal_is_mismatch(terms: TermsView, accounts: Seq<Account>, record: Seq<u8>)
    requires
        record[0] == STATUS_COMMITTED,
        accounts.len() >= accounts_through_legs(
            FIRST_LEG as int,
            terms.amount_x as int,
            terms.amount_y as int,
        ),
    ensures
        validation(terms, accounts, record) is Err ==> validation(
            terms,
            accounts,
            record,
        )->Err_0.spec_kind() == ErrorKind::TermsMismatch,
{
    lemma_legs_a_refusal(terms, accounts, record, 0);
    lemma_legs_b_refusal(terms, accounts, record, 0);
}

/// The terms and accounts that the validator accepts pin every byte of the
/// record: two buffers that it accepts for the same terms and accounts hold
/// the same bytes as far as the record reaches. So whatever single byte of a
/// committed record is changed, the validator refuses the changed record.
pub proof fn lemma_accepted_record_is_unique(
    terms: TermsView,
    accounts: Seq<Account>,
    record: Seq<u8>,
    other: Seq<u8>,
)
    requires
        terms.in_range(),
        record.len() >= record_len(terms.amount_x as int, terms.amount_y as int),
        other.len() >= record_len(terms.amount_x as int, terms.amount_y as int),
        validation(terms, accounts, record) is Ok,
        validation(terms, accounts, other) is Ok,
    ensures
        record.subrange(0, record_len(terms.amount_x as int, terms.amount_y as int))
            == other.subrange(0, record_len(terms.amount_x as int, terms.amount_y as int)),
{
    lemma_validation_accepts(terms, accounts, record);
    lemma_validation_accepts(terms, accounts, other);
    lemma_bytes_of_stored_record(record);
    lemma_bytes_of_stored_record(other);
}

/// Reads the next key of the record and holds the account supplied at
/// `position` against it. Nothing is read where the account is missing.
fn expect_account(reader: &mut RecordReader, accounts: &[Account], position: usize) -> (r: Result<
    (),
    EscrowError,
>)
    requires
        old(reader).position + KEY_LEN <= old(reader).buffer@.len(),
    ensures
        final(reader).buffer@ == old(reader).buffer@,
        r == if position >= accounts@.len() {
            Err::<(), EscrowError>(EscrowError::NotEnoughAccountKeys)
        } else if accounts@[position as int].key@ != old(reader).buffer@.subrange(
            old(reader).position as int,
            old(reader).position + KEY_LEN,
        ) {
            Err(EscrowError::InvalidAccount)
        } else {
            Ok(())
        },
        r is Ok ==> final(reader).position == old(reader).position + KEY_LEN,
{
    if position >= accounts.len() {
        return Err(EscrowError::NotEnoughAccountKeys);
    }
    if !reader.read_pubkey().same_as(&accounts[position].key) {
        return Err(EscrowError::InvalidAccount);
    }
    Ok(())
}

/// Holds the resubmitted terms and the supplied accounts against the stored
/// record.
///
/// The accounts are read at the positions of a cancellation or settlement:
/// initiator and counterparty first, the leg accounts from `FIRST_LEG` on.
/// The answer is `Ok` exactly when the record is committed and every count,
/// amount and key in it is the one resubmitted; otherwise the first failing
/// check decides the error. Storage whose status byte is not that of a
/// commitment holds none.
#[verifier::loop_isolation(false)]
pub fn validate_commitment(terms: &TradeTerms, accounts: &[Account], record: &[u8]) -> (r: Result<
    (),
    EscrowError,
>)
    requires
        terms@.in_range(),
        record@.len() >= record_len(terms.amount_x as int, terms.amount_y as int),
    ensures
        r == validation(terms@, accounts@, record@),
        r is Ok <==> matches_commitment(terms@, accounts@, record@),
{
    proof {
        lemma_validation_accepts(terms@, accounts@, record@);
    }
    if accounts.len() < FIRST_LEG {
        return Err(EscrowError::NotEnoughAccountKeys);
    }
    let mut reader = RecordReader::new(record);
    if reader.read_u8() != STATUS_COMMITTED {
        return Err(EscrowError::UninitializedAccount);
    }
    if reader.read_u8() != terms.amount_x {
        return Err(EscrowError::InvalidAmount);
    }
    if reader.read_u8() != terms.amount_y {
        return Err(EscrowError::InvalidAmount);
    }
    if reader.read_u8() != terms.sol_dir {
        return Err(EscrowError::InvalidAmount);
    }
    if reader.read_u64_be() != terms.lamports {
        return Err(EscrowError::InvalidAmount);
    }
    expect_account(&mut reader, accounts, INITIATOR)?;
    expect_account(&mut reader, accounts, COUNTERPARTY)?;
    let count_a = terms.amount_x as usize;
    let count_b = terms.amount_y as usize;

    let mut i: usize = 0;
    while i < count_a
        invariant
            i <= count_a,
            reader.buffer@ == record@,
            reader.position == HEADER_LEN + LEG_A_LEN * i,
            check_legs_a(terms@, accounts@, record@, 0) == check_legs_a(
                terms@,
                accounts@,
                record@,
                i as int,
            ),
        decreases count_a - i,
    {
        let first = FIRST_LEG + ACCOUNTS_PER_LEG_A * i;
        expect_account(&mut reader, accounts, first)?;
        expect_account(&mut reader, accounts, first + 1)?;
        expect_account(&mut reader, accounts, first + 2)?;
        if reader.read_u64_be() != terms.lamports_x[i] {
            return Err(EscrowError::InvalidAccount);
        }
        assert(check_leg_a(terms@, accounts@, record@, i as int) is Ok);
        i += 1;
    }

    let mut j: usize = 0;
    while j < count_b
        invariant
            j <= count_b,
            reader.buffer@ == record@,
            reader.position == HEADER_LEN + LEG_A_LEN * count_a + LEG_B_LEN * j,
            check_legs_b(terms@, accounts@, record@, 0) == check_legs_b(
                terms@,
                accounts@,
                record@,
                j as int,
            ),
        decreases count_b - j,
    {
        let first = FIRST_LEG + ACCOUNTS_PER_LEG_A * count_a + ACCOUNTS_PER_LEG_B * j;
        expect_account(&mut reader, accounts, first)?;
        expect_account(&mut reader, accounts, first + 1)?;
        if reader.read_u64_be() != terms.lamports_y[j] {
            return Err(EscrowError::InvalidAccount);
        }
        assert(check_leg_b(terms@, accounts@, record@, j as int) is Ok);
        j += 1;
    }
    Ok(())
}

} // verus!
