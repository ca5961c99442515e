//! The lifecycle of an escrow: commit, then cancel or settle.
//!
//! Storage starts uninitialized. A commitment by the initiator writes the
//! record and takes the legs of side A into custody. From then on the record
//! does not change until it is erased: by a cancellation, which the
//! initiator authorises and which returns the custody, or by a settlement,
//! which the counterparty authorises and which moves every leg.
//!
//! Each operation first decides, from the accounts supplied, the stored
//! record and the instruction, whether it is accepted. If it is, it answers
//! with a `Plan` for the host. A refused operation changes nothing.

use crate::account::{
    accounts_through_legs, Account, AUTHORITY, COUNTERPARTY, ESCROW, FIRST_LEG,
    FIRST_LEG_AT_COMMIT, INITIATOR, RENT, TOKEN_PROGRAM,
};
use crate::error::EscrowError;
use crate::instruction::{
    decode, EscrowInstruction, TermsView, TradeTerms, MAX_LEGS, TAG_EXCHANGE, TAG_INIT_ESCROW,
};
use crate::invocation::{
    close_account_call, find_program_address, program_address, set_authority_call,
    system_transfer, token_close_account, token_program_id, token_set_authority, token_transfer,
    token_transfer_call, Action,
};
use crate::key::{lemma_key_by_bytes, Key};
use crate::plan::{
    close_step, custody_steps, deposit_step, handover_step, has_native_leg,
    lemma_step_views_push, native_step, native_steps, payment_step, payment_steps, release_step,
    release_steps, step_views, Closing, Plan, PlanView, Step, StepView, NATIVE_FROM_COUNTERPARTY,
    NATIVE_FROM_INITIATOR,
};
use crate::record::{
    overwrite, record_bytes, record_len, write_record, EscrowRecord, LegA, LegB,
    MAX_RECORD_LEN, STATUS_COMMITTED, STATUS_UNINITIALIZED,
};
use crate::validator::{committed_record, validate_commitment, validation};
use vstd::prelude::*;

verus! {

/// The native balances that an operation can move: those of the initiator,
/// of the counterparty and of the escrow account.
#[derive(Clone, Copy, Debug, PartialEq, Eq, Structural)]
pub struct NativeBalances {
    pub initiator: u64,
    pub counterparty: u64,
    pub escrow: u64,
}

/// The escrow, configured with the seed from which its authority over
/// custody accounts is derived.
#[derive(Debug, PartialEq, Eq)]
pub struct Processor {
    pub seed: Vec<u8>,
}

/// The key whose bytes are `bytes`.
pub open spec fn key_of(bytes: Seq<u8>) -> Key {
    choose|key: Key| key@ == bytes
}

/// The derived authority as the host derives it from `seed` for
/// `program_id`: its key and the bump byte.
pub open spec fn derived_authority(seed: Seq<u8>, program_id: Seq<u8>) -> Option<(Key, u8)> {
    match program_address(seed, program_id) {
        Some((address, bump)) => Some((key_of(address), bump)),
        None => None,
    }
}

/// Why a commitment is refused, if it is. The checks are made in this order.
pub open spec fn commit_refusal(
    authority: Option<(Key, u8)>,
    accounts: Seq<Account>,
    terms: TermsView,
    rent_exempt: bool,
    record: Seq<u8>,
) -> Option<EscrowError> {
    if accounts.len() <= INITIATOR {
        Some(EscrowError::NotEnoughAccountKeys)
    } else if !accounts[INITIATOR as int].is_signer {
        Some(EscrowError::MissingRequiredSignature)
    } else if accounts.len() <= RENT {
        Some(EscrowError::NotEnoughAccountKeys)
    } else if !rent_exempt {
        Some(EscrowError::NotRentExempt)
    } else if authority is None {
        Some(EscrowError::InvalidSeeds)
    } else if accounts.len() <= TOKEN_PROGRAM {
        Some(EscrowError::NotEnoughAccountKeys)
    } else if record[0] != STATUS_UNINITIALIZED {
        Some(EscrowError::AccountAlreadyInitialized)
    } else if accounts.len() <= accounts_through_legs(
        FIRST_LEG_AT_COMMIT as int,
        terms.amount_x as int,
        terms.amount_y as int,
    ) {
        Some(EscrowError::NotEnoughAccountKeys)
    } else if terms.amount_x > 0 && accounts[TOKEN_PROGRAM as int].key@ != token_program_id() {
        Some(EscrowError::IncorrectProgramId)
    } else {
        None
    }
}

/// The plan of an accepted commitment: every leg of side A goes into
/// custody, then the initiator deposits the native leg if there is one for
/// the initiator to deposit. The record stays.
pub open spec fn commit_plan(authority: (Key, u8), accounts: Seq<Account>, terms: TermsView) -> PlanView {
    PlanView {
        bump: authority.1,
        steps: custody_steps(accounts, terms, authority.0, terms.amount_x as int) + native_steps(
            accounts,
            terms,
            NATIVE_FROM_INITIATOR,
            INITIATOR as int,
            accounts_through_legs(
                FIRST_LEG_AT_COMMIT as int,
                terms.amount_x as int,
                terms.amount_y as int,
            ),
        ),
        closing: Closing::Open,
    }
}

/// The storage after an accepted commitment: the record of the commitment,
/// written over the start of what was there.
pub open spec fn commit_storage(accounts: Seq<Account>, terms: TermsView, record: Seq<u8>) -> Seq<u8> {
    overwrite(
        record,
        0,
        record_bytes(committed_record(terms, accounts, FIRST_LEG_AT_COMMIT as int)),
    )
}

/// Why a cancellation is refused, if it is. The checks are made in this
/// order; the validator stands in the middle of them.
pub open spec fn cancel_refusal(
    authority: Option<(Key, u8)>,
    accounts: Seq<Account>,
    terms: TermsView,
    rent_exempt: bool,
    record: Seq<u8>,
) -> Option<EscrowError> {
    if accounts.len() <= INITIATOR {
        Some(EscrowError::NotEnoughAccountKeys)
    } else if !accounts[INITIATOR as int].is_signer {
        Some(EscrowError::MissingRequiredSignature)
    } else if accounts.len() <= RENT {
        Some(EscrowError::NotEnoughAccountKeys)
    } else if !rent_exempt {
        Some(EscrowError::NotRentExempt)
    } else if accounts.len() <= AUTHORITY {
        Some(EscrowError::NotEnoughAccountKeys)
    } else if authority is None {
        Some(EscrowError::InvalidSeeds)
    } else if validation(terms, accounts, record) is Err {
        Some(validation(terms, accounts, record)->Err_0)
    } else if terms.amount_x > 0 && accounts[TOKEN_PROGRAM as int].key@ != token_program_id() {
        Some(EscrowError::IncorrectProgramId)
    } else {
        None
    }
}

/// The plan of an accepted cancellation: every leg of side A returns from
/// custody to the initiator, and the escrow account is swept to the
/// initiator. Side B was never funded, so nothing moves there.
pub open spec fn cancel_plan(authority: (Key, u8), accounts: Seq<Account>, terms: TermsView) -> PlanView {
    PlanView {
        bump: authority.1,
        steps: release_steps(accounts, terms, authority.0, 0, terms.amount_x as int),
        closing: Closing::Swept { release: 0 },
    }
}

/// Why a settlement is refused, if it is. The checks are made in this order.
pub open spec fn exchange_refusal(
    authority: Option<(Key, u8)>,
    accounts: Seq<Account>,
    terms: TermsView,
    rent_exempt: bool,
    record: Seq<u8>,
) -> Option<EscrowError> {
    if accounts.len() <= COUNTERPARTY {
        Some(EscrowError::NotEnoughAccountKeys)
    } else if !accounts[COUNTERPARTY as int].is_signer {
        Some(EscrowError::MissingRequiredSignature)
    } else if accounts.len() <= RENT {
        Some(EscrowError::NotEnoughAccountKeys)
    } else if !rent_exempt {
        Some(EscrowError::NotRentExempt)
    } else if accounts.len() <= AUTHORITY {
        Some(EscrowError::NotEnoughAccountKeys)
    } else if authority is None {
        Some(EscrowError::InvalidSeeds)
    } else if validation(terms, accounts, record) is Err {
        Some(validation(terms, accounts, record)->Err_0)
    } else if accounts.len() <= accounts_through_legs(
        FIRST_LEG as int,
        terms.amount_x as int,
        terms.amount_y as int,
    ) {
        Some(EscrowError::NotEnoughAccountKeys)
    } else if (terms.amount_x > 0 || terms.amount_y > 0) && accounts[TOKEN_PROGRAM as int].key@
        != token_program_id() {
        Some(EscrowError::IncorrectProgramId)
    } else {
        None
    }
}

/// What the escrow releases to the counterparty at settlement, from its own
/// balance: the native leg that the initiator deposited.
pub open spec fn settlement_release(terms: TermsView) -> u64 {
    if has_native_leg(terms, NATIVE_FROM_INITIATOR) {
        terms.lamports
    } else {
        0
    }
}

/// The plan of an accepted settlement: every leg of side A goes from
/// custody to the counterparty, every leg of side B from the counterparty to
/// the initiator, then the counterparty pays the native leg into the escrow
/// account if there is one for the counterparty to pay. At the end the
/// escrow releases the initiator's native leg to the counterparty and is
/// swept to the initiator.
pub open spec fn exchange_plan(authority: (Key, u8), accounts: Seq<Account>, terms: TermsView) -> PlanView {
    PlanView {
        bump: authority.1,
        steps: release_steps(accounts, terms, authority.0, 1, terms.amount_x as int)
            + payment_steps(accounts, terms, terms.amount_y as int) + native_steps(
            accounts,
            terms,
            NATIVE_FROM_COUNTERPARTY,
            COUNTERPARTY as int,
            accounts_through_legs(FIRST_LEG as int, terms.amount_x as int, terms.amount_y as int),
        ),
        closing: Closing::Swept { release: settlement_release(terms) },
    }
}

/// The answer to an operation: the refusal, or the plan.
pub open spec fn answer(
    refusal: Option<EscrowError>,
    plan: PlanView,
) -> Result<PlanView, EscrowError> {
    match refusal {
        Some(e) => Err(e),
        None => Ok(plan),
    }
}

/// The answer to instruction bytes, given what the host derived as the
/// authority.
pub open spec fn process_answer(
    authority: Option<(Key, u8)>,
    accounts: Seq<Account>,
    rent_exempt: bool,
    record: Seq<u8>,
    instruction_data: Seq<u8>,
) -> Result<PlanView, EscrowError> {
    match decode(instruction_data) {
        None => Err(EscrowError::InvalidInstruction),
        Some(instruction) => {
            let terms = instruction.terms;
            if instruction.tag == TAG_INIT_ESCROW {
                answer(
                    commit_refusal(authority, accounts, terms, rent_exempt, record),
                    commit_plan(authority->Some_0, accounts, terms),
                )
            } else if instruction.tag == TAG_EXCHANGE {
                answer(
                    exchange_refusal(authority, accounts, terms, rent_exempt, record),
                    exchange_plan(authority->Some_0, accounts, terms),
                )
            } else {
                answer(
                    cancel_refusal(authority, accounts, terms, rent_exempt, record),
                    cancel_plan(authority->Some_0, accounts, terms),
                )
            }
        },
    }
}

/// The storage after instruction bytes were processed: an accepted
/// commitment writes its record; everything else leaves the storage as it
/// was.
pub open spec fn process_storage(
    authority: Option<(Key, u8)>,
    accounts: Seq<Account>,
    rent_exempt: bool,
    record: Seq<u8>,
    instruction_data: Seq<u8>,
) -> Seq<u8> {
    match decode(instruction_data) {
        Some(instruction) => if instruction.tag == TAG_INIT_ESCROW && commit_refusal(
            authority,
            accounts,
            instruction.terms,
            rent_exempt,
            record,
        ) is None {
            commit_storage(accounts, instruction.terms, record)
        } else {
            record
        },
        None => record,
    }
}

/// What the closing makes of the native balances: the release leaves the
/// escrow for the counterparty, the rest of the escrow's balance goes to the
/// initiator. A balance that would leave the range of `u64` refuses it.
pub open spec fn settled(closing: Closing, balances: NativeBalances) -> Result<
    NativeBalances,
    EscrowError,
> {
    match closing {
        Closing::Open => Ok(balances),
        Closing::Swept { release } => if release > balances.escrow || balances.counterparty
            + release > u64::MAX || balances.initiator + balances.escrow - release > u64::MAX {
            Err(EscrowError::AmountOverflow)
        } else {
            Ok(
                NativeBalances {
                    initiator: (balances.initiator + balances.escrow - release) as u64,
                    counterparty: (balances.counterparty + release) as u64,
                    escrow: 0,
                },
            )
        },
    }
}

impl Closing {
    /// Closes the escrow account once every step of the plan has succeeded.
    ///
    /// `balances` are the native balances as the steps left them. An open
    /// closing changes nothing. A sweep gives the new balances and erases
    /// the record; if it is refused, the record stays as it was.
    pub fn close(&self, balances: NativeBalances, record: &mut Vec<u8>) -> (r: Result<
        NativeBalances,
        EscrowError,
    >)
        ensures
            r == settled(*self, balances),
            final(record)@ == if r is Ok && *self is Swept {
                Seq::<u8>::empty()
            } else {
                old(record)@
            },
    {
        match *self {
            Closing::Open => Ok(balances),
            Closing::Swept { release } => {
                if release > balances.escrow {
                    return Err(EscrowError::AmountOverflow);
                }
                let rest = balances.escrow - release;
                let counterparty = match balances.counterparty.checked_add(release) {
                    Some(sum) => sum,
                    None => {
                        return Err(EscrowError::AmountOverflow);
                    },
                };
                let initiator = match balances.initiator.checked_add(rest) {
                    Some(sum) => sum,
                    None => {
                        return Err(EscrowError::AmountOverflow);
                    },
                };
                record.clear();
                Ok(NativeBalances { initiator, counterparty, escrow: 0 })
            },
        }
    }
}

/// Asks the asset program's crate for a transfer between two supplied
/// accounts, authorised and signed by `authority`.
fn transfer_step(
    accounts: &[Account],
    source: usize,
    destination: usize,
    authority: Key,
    amount: u64,
    handed: Vec<usize>,
    signed: bool,
) -> (r: Result<Step, EscrowError>)
    requires
        TOKEN_PROGRAM < accounts@.len(),
        source < accounts@.len(),
        destination < accounts@.len(),
    ensures
        r is Ok <==> accounts@[TOKEN_PROGRAM as int].key@ == token_program_id(),
        r is Err ==> r->Err_0 == EscrowError::IncorrectProgramId,
        r is Ok ==> r->Ok_0@ == (StepView {
            action: Action::Transfer {
                source: accounts@[source as int].key,
                destination: accounts@[destination as int].key,
                authority,
                amount,
            },
            call: token_transfer_call(
                accounts@[TOKEN_PROGRAM as int].key,
                accounts@[source as int].key,
                accounts@[destination as int].key,
                authority,
                authority,
                amount,
            ),
            accounts: handed@,
            signed,
        }),
{
    let from = accounts[source].key;
    let to = accounts[destination].key;
    match token_transfer(&accounts[TOKEN_PROGRAM].key, &from, &to, &authority, &authority, amount) {
        Ok(call) => Ok(
            Step {
                action: Action::Transfer { source: from, destination: to, authority, amount },
                call,
                accounts: handed,
                signed,
            },
        ),
        Err(_) => Err(EscrowError::IncorrectProgramId),
    }
}

/// Asks the asset program's crate for the handover of a custody account to
/// the derived authority.
fn authority_step(accounts: &[Account], custody: usize, authority: Key) -> (r: Result<
    Step,
    EscrowError,
>)
    requires
        TOKEN_PROGRAM < accounts@.len(),
        custody < accounts@.len(),
    ensures
        r is Ok <==> accounts@[TOKEN_PROGRAM as int].key@ == token_program_id(),
        r is Err ==> r->Err_0 == EscrowError::IncorrectProgramId,
        r is Ok ==> r->Ok_0@ == (StepView {
            action: Action::SetAuthority {
                account: accounts@[custody as int].key,
                new_authority: authority,
                current_authority: accounts@[ESCROW as int].key,
            },
            call: set_authority_call(
                accounts@[TOKEN_PROGRAM as int].key,
                accounts@[custody as int].key,
                authority,
                accounts@[ESCROW as int].key,
                accounts@[ESCROW as int].key,
            ),
            accounts: seq![TOKEN_PROGRAM, custody, ESCROW],
            signed: false,
        }),
{
    let account = accounts[custody].key;
    let escrow = accounts[ESCROW].key;
    match token_set_authority(&accounts[TOKEN_PROGRAM].key, &account, &authority, &escrow, &escrow) {
        Ok(call) => {
            let handed = vec![TOKEN_PROGRAM, custody, ESCROW];
            assert(handed@ =~= seq![TOKEN_PROGRAM, custody, ESCROW]);
            Ok(
                Step {
                    action: Action::SetAuthority {
                        account,
                        new_authority: authority,
                        current_authority: escrow,
                    },
                    call,
                    accounts: handed,
                    signed: false,
                },
            )
        },
        Err(_) => Err(EscrowError::IncorrectProgramId),
    }
}

/// Asks the asset program's crate for the closing of a custody account.
fn closing_step(accounts: &[Account], custody: usize, destination: usize, authority: Key) -> (r:
    Result<Step, EscrowError>)
    requires
        AUTHORITY < accounts@.len(),
        custody < accounts@.len(),
        destination < accounts@.len(),
    ensures
        r is Ok <==> accounts@[TOKEN_PROGRAM as int].key@ == token_program_id(),
        r is Err ==> r->Err_0 == EscrowError::IncorrectProgramId,
        r is Ok ==> r->Ok_0@ == (StepView {
            action: Action::CloseAccount {
                account: accounts@[custody as int].key,
                destination: accounts@[destination as int].key,
                authority,
            },
            call: close_account_call(
                accounts@[TOKEN_PROGRAM as int].key,
                accounts@[custody as int].key,
                accounts@[destination as int].key,
                authority,
                authority,
            ),
            accounts: seq![AUTHORITY, TOKEN_PROGRAM, custody, destination],
            signed: true,
        }),
{
    let account = accounts[custody].key;
    let to = accounts[destination].key;
    match token_close_account(&accounts[TOKEN_PROGRAM].key, &account, &to, &authority, &authority) {
        Ok(call) => {
            let handed = vec![AUTHORITY, TOKEN_PROGRAM, custody, destination];
            assert(handed@ =~= seq![AUTHORITY, TOKEN_PROGRAM, custody, destination]);
            Ok(
                Step {
                    action: Action::CloseAccount { account, destination: to, authority },
                    call,
                    accounts: handed,
                    signed: true,
                },
            )
        },
        Err(_) => Err(EscrowError::IncorrectProgramId),
    }
}

/// Asks the system program's crate for the native leg, paid into the escrow
/// account by the supplied account at `payer`.
fn native_leg_step(accounts: &[Account], terms: &TradeTerms, payer: usize, system: usize) -> (step:
    Step)
    requires
        payer < accounts@.len(),
        ESCROW < accounts@.len(),
    ensures
        step@ == native_step(accounts@, terms@, payer as int, system as int),
{
    let from = accounts[payer].key;
    let to = accounts[ESCROW].key;
    let call = system_transfer(&from, &to, terms.lamports);
    let handed = vec![payer, ESCROW, system];
    assert(handed@ =~= seq![payer, ESCROW, system]);
    Step {
        action: Action::TransferNative { from, to, amount: terms.lamports },
        call,
        accounts: handed,
        signed: false,
    }
}

/// Appends the steps that empty the custody of every leg of side A towards
/// place `to` of each leg.
fn push_release_steps(
    steps: &mut Vec<Step>,
    accounts: &[Account],
    terms: &TradeTerms,
    authority: Key,
    to: usize,
) -> (r: Result<(), EscrowError>)
    requires
        terms@.in_range(),
        to <= 1,
        accounts@.len() >= accounts_through_legs(
            FIRST_LEG as int,
            terms.amount_x as int,
            terms.amount_y as int,
        ),
        old(steps)@.len() == 0,
    ensures
        r is Ok <==> (terms.amount_x > 0 ==> accounts@[TOKEN_PROGRAM as int].key@
            == token_program_id()),
        r is Err ==> r->Err_0 == EscrowError::IncorrectProgramId,
        r is Ok ==> step_views(final(steps)@) == release_steps(
            accounts@,
            terms@,
            authority,
            to as int,
            terms.amount_x as int,
        ),
{
    let count_a = terms.amount_x as usize;
    assert(step_views(steps@) =~= release_steps(accounts@, terms@, authority, to as int, 0));
    let mut i: usize = 0;
    while i < count_a
        invariant
            i <= count_a <= MAX_LEGS,
            count_a == terms.amount_x,
            terms@.in_range(),
            to <= 1,
            accounts@.len() >= accounts_through_legs(
                FIRST_LEG as int,
                terms.amount_x as int,
                terms.amount_y as int,
            ),
            i > 0 ==> accounts@[TOKEN_PROGRAM as int].key@ == token_program_id(),
            step_views(steps@) == release_steps(accounts@, terms@, authority, to as int, i as int),
        decreases count_a - i,
    {
        let custody = FIRST_LEG + 3 * i + 2;
        let destination = FIRST_LEG + 3 * i + to;
        let refund = FIRST_LEG + 3 * i;
        let handed = vec![AUTHORITY, TOKEN_PROGRAM, custody, destination];
        assert(handed@ =~= seq![AUTHORITY, TOKEN_PROGRAM, custody, destination]);
        let release = transfer_step(
            accounts,
            custody,
            destination,
            authority,
            terms.lamports_x[i],
            handed,
            true,
        )?;
        let close = closing_step(accounts, custody, refund, authority)?;
        proof {
            lemma_step_views_push(steps@, release);
            lemma_step_views_push(steps@.push(release), close);
            assert(release@ == release_step(accounts@, terms@, authority, i as int, to as int));
            assert(close@ == close_step(accounts@, terms@, authority, i as int));
        }
        steps.push(release);
        steps.push(close);
        i += 1;
    }
    Ok(())
}

impl Processor {
    /// An escrow that derives its authority from `seed`.
    pub fn new(seed: Vec<u8>) -> (processor: Processor)
        ensures
            processor.seed@ == seed@,
    {
        Processor { seed }
    }

    /// Processes one instruction.
    ///
    /// `accounts` are the accounts supplied with it, `rent_exempt` is the
    /// host's word on whether the escrow account is funded for rent
    /// exemption, and `record` is the storage of the escrow account, which
    /// must have room for the largest record.
    ///
    /// The authority over custody accounts is derived from the seed for
    /// `program_id`. The answer is then the one that `process_derived` gives
    /// for that authority.
    pub fn process(
        &self,
        program_id: &Key,
        accounts: &[Account],
        rent_exempt: bool,
        record: &mut Vec<u8>,
        instruction_data: &[u8],
    ) -> (r: Result<Plan, EscrowError>)
        requires
            old(record)@.len() >= MAX_RECORD_LEN,
        ensures
            match r {
                Ok(plan) => Ok::<PlanView, EscrowError>(plan@),
                Err(e) => Err(e),
            } == process_answer(
                derived_authority(self.seed@, program_id@),
                accounts@,
                rent_exempt,
                old(record)@,
                instruction_data@,
            ),
            final(record)@ == process_storage(
                derived_authority(self.seed@, program_id@),
                accounts@,
                rent_exempt,
                old(record)@,
                instruction_data@,
            ),
            decode(instruction_data@) is None ==> r == Err::<Plan, EscrowError>(
                EscrowError::InvalidInstruction,
            ),
            r is Err ==> final(record)@ == old(record)@,
    {
        let authority = find_program_address(self.seed.as_slice(), program_id);
        proof {
            if let Some((address, bump)) = authority {
                lemma_key_by_bytes(key_of(address@), address);
            }
        }
        Self::process_derived(authority, accounts, rent_exempt, record, instruction_data)
    }

    /// Processes one instruction, given what the host derived as the
    /// authority over custody accounts: its key and bump byte, or `None` if
    /// it derived none.
    ///
    /// Bytes that do not decode are refused with `InvalidInstruction` before
    /// anything else is looked at. Otherwise the tag selects the operation.
    pub fn process_derived(
        authority: Option<(Key, u8)>,
        accounts: &[Account],
        rent_exempt: bool,
        record: &mut Vec<u8>,
        instruction_data: &[u8],
    ) -> (r: Result<Plan, EscrowError>)
        requires
            old(record)@.len() >= MAX_RECORD_LEN,
        ensures
            match r {
                Ok(plan) => Ok::<PlanView, EscrowError>(plan@),
                Err(e) => Err(e),
            } == process_answer(
                authority,
                accounts@,
                rent_exempt,
                old(record)@,
                instruction_data@,
            ),
            final(record)@ == process_storage(
                authority,
                accounts@,
                rent_exempt,
                old(record)@,
                instruction_data@,
            ),
            r is Err ==> final(record)@ == old(record)@,
    {
        let instruction = EscrowInstruction::unpack(instruction_data)?;
        let terms = instruction.terms();
        match instruction {
            EscrowInstruction::InitEscrow { .. } => Self::process_init_escrow(
                authority,
                accounts,
                &terms,
                rent_exempt,
                record,
            ),
            EscrowInstruction::Exchange { .. } => Self::process_exchange(
                authority,
                accounts,
                &terms,
                rent_exempt,
                record.as_slice(),
            ),
            EscrowInstruction::CancelEscrow { .. } => Self::process_cancel_escrow(
                authority,
                accounts,
                &terms,
                rent_exempt,
                record.as_slice(),
            ),
        }
    }

    /// Commits a trade.
    ///
    /// The initiator must have signed, the storage must be rent exempt and
    /// uninitialized, and every leg account and the system program account
    /// must be supplied. The record is then written in full, and the plan
    /// takes every leg of side A into custody and the initiator's native leg
    /// into the escrow account. Side B is recorded and not funded.
    pub fn process_init_escrow(
        authority: Option<(Key, u8)>,
        accounts: &[Account],
        terms: &TradeTerms,
        rent_exempt: bool,
        record: &mut Vec<u8>,
    ) -> (r: Result<Plan, EscrowError>)
        requires
            terms@.in_range(),
            old(record)@.len() >= record_len(terms.amount_x as int, terms.amount_y as int),
        ensures
            match r {
                Ok(plan) => {
                    &&& commit_refusal(authority, accounts@, terms@, rent_exempt, old(record)@)
                        is None
                    &&& plan@ == commit_plan(authority->Some_0, accounts@, terms@)
                    &&& final(record)@ == commit_storage(accounts@, terms@, old(record)@)
                },
                Err(e) => {
                    &&& commit_refusal(authority, accounts@, terms@, rent_exempt, old(record)@)
                        == Some(e)
                    &&& final(record)@ == old(record)@
                },
            },
    {
        if accounts.len() <= INITIATOR {
            return Err(EscrowError::NotEnoughAccountKeys);
        }
        if !accounts[INITIATOR].is_signer {
            return Err(EscrowError::MissingRequiredSignature);
        }
        if accounts.len() <= RENT {
            return Err(EscrowError::NotEnoughAccountKeys);
        }
        if !rent_exempt {
            return Err(EscrowError::NotRentExempt);
        }
        let (authority_key, bump) = match authority {
            Some(derived) => derived,
            None => {
                return Err(EscrowError::InvalidSeeds);
            },
        };
        if accounts.len() <= TOKEN_PROGRAM {
            return Err(EscrowError::NotEnoughAccountKeys);
        }
        if record[0] != STATUS_UNINITIALIZED {
            return Err(EscrowError::AccountAlreadyInitialized);
        }
        let count_a = terms.amount_x as usize;
        let count_b = terms.amount_y as usize;
        let system = FIRST_LEG_AT_COMMIT + 3 * count_a + 2 * count_b;
        if accounts.len() <= system {
            return Err(EscrowError::NotEnoughAccountKeys);
        }
        let ghost stated = committed_record(terms@, accounts@, FIRST_LEG_AT_COMMIT as int);

        let mut steps: Vec<Step> = Vec::new();
        let mut legs_a: Vec<LegA> = Vec::new();
        assert(step_views(steps@) =~= custody_steps(accounts@, terms@, authority_key, 0));
        let mut i: usize = 0;
        while i < count_a
            invariant
                i <= count_a <= MAX_LEGS,
                count_b <= MAX_LEGS,
                count_a == terms.amount_x,
                count_b == terms.amount_y,
                terms@.in_range(),
                system == FIRST_LEG_AT_COMMIT + 3 * count_a + 2 * count_b,
                accounts@.len() > system,
                stated == committed_record(terms@, accounts@, FIRST_LEG_AT_COMMIT as int),
                i > 0 ==> accounts@[TOKEN_PROGRAM as int].key@ == token_program_id(),
                step_views(steps@) == custody_steps(accounts@, terms@, authority_key, i as int),
                legs_a@.len() == i,
                forall|k: int| 0 <= k < i ==> legs_a@[k]@ == stated.legs_a[k],
                record@ == old(record)@,
                commit_refusal(authority, accounts@, terms@, rent_exempt, old(record)@) == if
                    terms.amount_x > 0 && accounts@[TOKEN_PROGRAM as int].key@
                    != token_program_id() {
                    Some(EscrowError::IncorrectProgramId)
                } else {
                    None
                },
            decreases count_a - i,
        {
            let source = FIRST_LEG_AT_COMMIT + 3 * i;
            let custody = source + 2;
            let amount = terms.lamports_x[i];
            let handed = vec![INITIATOR, source, custody, TOKEN_PROGRAM];
            assert(handed@ =~= seq![INITIATOR, source, custody, TOKEN_PROGRAM]);
            let deposit = transfer_step(
                accounts,
                source,
                custody,
                accounts[INITIATOR].key,
                amount,
                handed,
                false,
            )?;
            let handover = authority_step(accounts, custody, authority_key)?;
            proof {
                lemma_step_views_push(steps@, deposit);
                lemma_step_views_push(steps@.push(deposit), handover);
                assert(deposit@ == deposit_step(accounts@, terms@, i as int));
                assert(handover@ == handover_step(accounts@, terms@, authority_key, i as int));
            }
            steps.push(deposit);
            steps.push(handover);
            legs_a.push(
                LegA {
                    initiator_account: accounts[source].key,
                    counterparty_account: accounts[source + 1].key,
                    custody_account: accounts[custody].key,
                    amount,
                },
            );
            i += 1;
        }

        let mut legs_b: Vec<LegB> = Vec::new();
        let mut j: usize = 0;
        while j < count_b
            invariant
                j <= count_b <= MAX_LEGS,
                count_a <= MAX_LEGS,
                count_a == terms.amount_x,
                count_b == terms.amount_y,
                terms@.in_range(),
                system == FIRST_LEG_AT_COMMIT + 3 * count_a + 2 * count_b,
                accounts@.len() > system,
                stated == committed_record(terms@, accounts@, FIRST_LEG_AT_COMMIT as int),
                legs_b@.len() == j,
                forall|k: int| 0 <= k < j ==> legs_b@[k]@ == stated.legs_b[k],
            decreases count_b - j,
        {
            let first = FIRST_LEG_AT_COMMIT + 3 * count_a + 2 * j;
            legs_b.push(
                LegB {
                    initiator_account: accounts[first].key,
                    counterparty_account: accounts[first + 1].key,
                    amount: terms.lamports_y[j],
                },
            );
            j += 1;
        }

        let ghost legs = step_views(steps@);
        if terms.sol_dir == NATIVE_FROM_INITIATOR && terms.lamports > 0 {
            let native = native_leg_step(accounts, terms, INITIATOR, system);
            proof {
                lemma_step_views_push(steps@, native);
            }
            steps.push(native);
        }
        let committed = EscrowRecord {
            status: STATUS_COMMITTED,
            native_leg_direction: terms.sol_dir,
            reserve_amount: terms.lamports,
            initiator_key: accounts[INITIATOR].key,
            counterparty_key: accounts[COUNTERPARTY].key,
            legs_a,
            legs_b,
        };
        proof {
            assert(committed@.legs_a =~= stated.legs_a);
            assert(committed@.legs_b =~= stated.legs_b);
            assert(committed@ == stated);
            assert(step_views(steps@) =~= legs + native_steps(
                accounts@,
                terms@,
                NATIVE_FROM_INITIATOR,
                INITIATOR as int,
                system as int,
            ));
        }
        write_record(record, &committed);
        Ok(Plan { bump, steps, closing: Closing::Open })
    }

    /// Cancels a committed trade.
    ///
    /// The initiator must have signed and the storage must be rent exempt.
    /// The validator then holds the terms and the accounts against the
    /// record. The plan returns every leg of side A from custody to the
    /// initiator, closes the custody accounts, and sweeps the escrow account
    /// to the initiator.
    pub fn process_cancel_escrow(
        authority: Option<(Key, u8)>,
        accounts: &[Account],
        terms: &TradeTerms,
        rent_exempt: bool,
        record: &[u8],
    ) -> (r: Result<Plan, EscrowError>)
        requires
            terms@.in_range(),
            record@.len() >= record_len(terms.amount_x as int, terms.amount_y as int),
        ensures
            match r {
                Ok(plan) => {
                    &&& cancel_refusal(authority, accounts@, terms@, rent_exempt, record@) is None
                    &&& plan@ == cancel_plan(authority->Some_0, accounts@, terms@)
                },
                Err(e) => cancel_refusal(authority, accounts@, terms@, rent_exempt, record@)
                    == Some(e),
            },
    {
        if accounts.len() <= INITIATOR {
            return Err(EscrowError::NotEnoughAccountKeys);
        }
        if !accounts[INITIATOR].is_signer {
            return Err(EscrowError::MissingRequiredSignature);
        }
        if accounts.len() <= RENT {
            return Err(EscrowError::NotEnoughAccountKeys);
        }
        if !rent_exempt {
            return Err(EscrowError::NotRentExempt);
        }
        if accounts.len() <= AUTHORITY {
            return Err(EscrowError::NotEnoughAccountKeys);
        }
        let (authority_key, bump) = match authority {
            Some(derived) => derived,
            None => {
                return Err(EscrowError::InvalidSeeds);
            },
        };
        validate_commitment(terms, accounts, record)?;
        let mut steps: Vec<Step> = Vec::new();
        push_release_steps(&mut steps, accounts, terms, authority_key, 0)?;
        Ok(Plan { bump, steps, closing: Closing::Swept { release: 0 } })
    }

    /// Settles a committed trade.
    ///
    /// The counterparty must have signed; the initiator's word was given at
    /// commitment. The storage must be rent exempt, the validator must
    /// accept, and the system program account must be supplied behind the
    /// legs. The plan moves every leg of side A from custody to the
    /// counterparty and closes the custody accounts, moves every leg of side
    /// B from the counterparty to the initiator, and takes the
    /// counterparty's native leg into the escrow account. The closing
    /// releases the initiator's native leg to the counterparty and sweeps
    /// the escrow account to the initiator.
    pub fn process_exchange(
        authority: Option<(Key, u8)>,
        accounts: &[Account],
        terms: &TradeTerms,
        rent_exempt: bool,
        record: &[u8],
    ) -> (r: Result<Plan, EscrowError>)
        requires
            terms@.in_range(),
            record@.len() >= record_len(terms.amount_x as int, terms.amount_y as int),
        ensures
            match r {
                Ok(plan) => {
                    &&& exchange_refusal(authority, accounts@, terms@, rent_exempt, record@)
                        is None
                    &&& plan@ == exchange_plan(authority->Some_0, accounts@, terms@)
                },
                Err(e) => exchange_refusal(authority, accounts@, terms@, rent_exempt, record@)
                    == Some(e),
            },
    {
        if accounts.len() <= COUNTERPARTY {
            return Err(EscrowError::NotEnoughAccountKeys);
        }
        if !accounts[COUNTERPARTY].is_signer {
            return Err(EscrowError::MissingRequiredSignature);
        }
        if accounts.len() <= RENT {
            return Err(EscrowError::NotEnoughAccountKeys);
        }
        if !rent_exempt {
            return Err(EscrowError::NotRentExempt);
        }
        if accounts.len() <= AUTHORITY {
            return Err(EscrowError::NotEnoughAccountKeys);
        }
        let (authority_key, bump) = match authority {
            Some(derived) => derived,
            None => {
                return Err(EscrowError::InvalidSeeds);
            },
        };
        validate_commitment(terms, accounts, record)?;
        let count_a = terms.amount_x as usize;
        let count_b = terms.amount_y as usize;
        let system = FIRST_LEG + 3 * count_a + 2 * count_b;
        if accounts.len() <= system {
            return Err(EscrowError::NotEnoughAccountKeys);
        }
        let mut steps: Vec<Step> = Vec::new();
        push_release_steps(&mut steps, accounts, terms, authority_key, 1)?;
        let ghost released = step_views(steps@);
        assert(released + payment_steps(accounts@, terms@, 0) =~= released);
        let mut j: usize = 0;
        while j < count_b
            invariant
                j <= count_b <= MAX_LEGS,
                count_a <= MAX_LEGS,
                count_a == terms.amount_x,
                count_b == terms.amount_y,
                terms@.in_range(),
                system == FIRST_LEG + 3 * count_a + 2 * count_b,
                accounts@.len() > system,
                count_a > 0 || j > 0 ==> accounts@[TOKEN_PROGRAM as int].key@ == token_program_id(),
                step_views(steps@) == released + payment_steps(accounts@, terms@, j as int),
                exchange_refusal(authority, accounts@, terms@, rent_exempt, record@) == if (
                terms.amount_x > 0 || terms.amount_y > 0) && accounts@[TOKEN_PROGRAM as int].key@
                    != token_program_id() {
                    Some(EscrowError::IncorrectProgramId)
                } else {
                    None
                },
            decreases count_b - j,
        {
            let destination = FIRST_LEG + 3 * count_a + 2 * j;
            let source = destination + 1;
            let handed = vec![COUNTERPARTY, source, destination, TOKEN_PROGRAM];
            assert(handed@ =~= seq![COUNTERPARTY, source, destination, TOKEN_PROGRAM]);
            let payment = transfer_step(
                accounts,
                source,
                destination,
                accounts[COUNTERPARTY].key,
                terms.lamports_y[j],
                handed,
                false,
            )?;
            proof {
                lemma_step_views_push(steps@, payment);
                assert(payment@ == payment_step(accounts@, terms@, j as int));
                assert((released + payment_steps(accounts@, terms@, j as int)).push(payment@)
                    =~= released + payment_steps(accounts@, terms@, j + 1));
            }
            steps.push(payment);
            j += 1;
        }
        let ghost legs = step_views(steps@);
        if terms.sol_dir == NATIVE_FROM_COUNTERPARTY && terms.lamports > 0 {
            let native = native_leg_step(accounts, terms, COUNTERPARTY, system);
            proof {
                lemma_step_views_push(steps@, native);
            }
            steps.push(native);
        }
        assert(step_views(steps@) =~= legs + native_steps(
            accounts@,
            terms@,
            NATIVE_FROM_COUNTERPARTY,
            COUNTERPARTY as int,
            system as int,
        ));
        let release = if terms.sol_dir == NATIVE_FROM_INITIATOR && terms.lamports > 0 {
            terms.lamports
        } else {
            0
        };
        Ok(Plan { bump, steps, closing: Closing::Swept { release } })
    }
}

} // verus!
