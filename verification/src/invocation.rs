//! Calls on the collaborators of the escrow.
//!
//! The escrow moves nothing itself. Assets move when the asset program is
//! asked to move them, native currency when the system program is, and the
//! escrow authorises what leaves custody through an address derived from a
//! seed. This module names what is asked (`Action`), holds how the host is
//! asked (`ProgramCall`), and lets the crates of those programs build the
//! requests.

use crate::key::Key;
use crate::wire::u64_le_bytes;
use vstd::prelude::*;

verus! {

/// One request to a collaborator.
#[derive(Clone, Copy, Debug, PartialEq, Eq)]
pub enum Action {
    /// Move `amount` of an asset from `source` to `destination`.
    Transfer { source: Key, destination: Key, authority: Key, amount: u64 },
    /// Hand the control of an asset account to `new_authority`.
    SetAuthority { account: Key, new_authority: Key, current_authority: Key },
    /// Close an asset account and refund what it holds to `destination`.
    CloseAccount { account: Key, destination: Key, authority: Key },
    /// Move `amount` of native currency from `from` to `to`.
    TransferNative { from: Key, to: Key, amount: u64 },
}

/// An account as a program call names it.
#[derive(Clone, Copy, Debug, PartialEq, Eq)]
pub struct AccountMeta {
    pub pubkey: Key,
    pub is_signer: bool,
    pub is_writable: bool,
}

/// A call on another program: the program, the accounts it may touch, and
/// the bytes it is handed.
#[derive(Debug, PartialEq, Eq)]
pub struct ProgramCall {
    pub program_id: Key,
    pub accounts: Vec<AccountMeta>,
    pub data: Vec<u8>,
}

/// The mathematical content of a `ProgramCall`.
pub struct ProgramCallView {
    pub program_id: Seq<u8>,
    pub accounts: Seq<AccountMeta>,
    pub data: Seq<u8>,
}

impl View for ProgramCall {
    type V = ProgramCallView;

    open spec fn view(&self) -> ProgramCallView {
        ProgramCallView {
            program_id: self.program_id@,
            accounts: self.accounts@,
            data: self.data@,
        }
    }
}

/// The key of the asset program.
pub open spec fn token_program_id() -> Seq<u8> {
    seq![
        6u8, 221, 246, 225, 215, 101, 161, 147, 217, 203, 225, 70, 206, 235, 121, 172,
        28, 180, 133, 237, 95, 91, 55, 145, 58, 140, 245, 133, 126, 255, 0, 169,
    ]
}

/// The key of the system program, which moves native currency.
pub open spec fn system_program_id() -> Seq<u8> {
    Seq::new(32, |i: int| 0u8)
}

/// An account that the callee may write.
pub open spec fn writable(key: Key, is_signer: bool) -> AccountMeta {
    AccountMeta { pubkey: key, is_signer, is_writable: true }
}

/// An account that the callee may only read.
pub open spec fn readonly(key: Key, is_signer: bool) -> AccountMeta {
    AccountMeta { pubkey: key, is_signer, is_writable: false }
}

/// The call that asks the asset program to move `amount` from `source` to
/// `destination` on the word of `authority`, with `signer` signing.
pub open spec fn token_transfer_call(
    program: Key,
    source: Key,
    destination: Key,
    authority: Key,
    signer: Key,
    amount: u64,
) -> ProgramCallView {
    ProgramCallView {
        program_id: program@,
        accounts: seq![
            writable(source, false),
            writable(destination, false),
            readonly(authority, false),
            readonly(signer, true),
        ],
        data: seq![3u8] + u64_le_bytes(amount),
    }
}

/// The call that asks the asset program to make `new_authority` the owner of
/// the asset account `account`, on the word of its owner, with `signer`
/// signing.
pub open spec fn set_authority_call(
    program: Key,
    account: Key,
    new_authority: Key,
    owner: Key,
    signer: Key,
) -> ProgramCallView {
    ProgramCallView {
        program_id: program@,
        accounts: seq![writable(account, false), readonly(owner, false), readonly(signer, true)],
        data: seq![6u8, 2u8, 1u8] + new_authority@,
    }
}

/// The call that asks the asset program to close `account` and refund it to
/// `destination`, on the word of its owner, with `signer` signing.
pub open spec fn close_account_call(
    program: Key,
    account: Key,
    destination: Key,
    owner: Key,
    signer: Key,
) -> ProgramCallView {
    ProgramCallView {
        program_id: program@,
        accounts: seq![
            writable(account, false),
            writable(destination, false),
            readonly(owner, false),
            readonly(signer, true),
        ],
        data: seq![9u8],
    }
}

/// The bytes that the crate of the system program hands over with a
/// transfer of `lamports`: its encoding of the transfer instruction.
pub uninterp spec fn system_transfer_data(lamports: u64) -> Seq<u8>;

/// The call that asks the system program to move `lamports` of native
/// currency from `from`, who signs, to `to`.
pub open spec fn system_transfer_call(from: Key, to: Key, lamports: u64) -> ProgramCallView {
    ProgramCallView {
        program_id: system_program_id(),
        accounts: seq![writable(from, true), writable(to, false)],
        data: system_transfer_data(lamports),
    }
}

/// The error with which the crates of the host's programs refuse to build a
/// call. The escrow never looks inside one.
#[verifier::external_type_specification]
#[verifier::external_body]
pub struct ExProgramError(solana_program::program_error::ProgramError);

/// The address that the host derives for a program from a seed, and the bump
/// byte that completes the seed; `None` where the host derives none.
pub uninterp spec fn program_address(seed: Seq<u8>, program_id: Seq<u8>) -> Option<(Seq<u8>, u8)>;

/// `Pubkey::try_find_program_address` of `solana_program`, with the one seed
/// given. The result is a function of the seed and the program id alone and
/// is named `program_address`; nothing more is claimed of it.
#[verifier::external_body]
pub(crate) fn find_program_address(seed: &[u8], program_id: &Key) -> (r: Option<(Key, u8)>)
    ensures
        match r {
            Some((address, bump)) => program_address(seed@, program_id@) == Some((address@, bump)),
            None => program_address(seed@, program_id@) is None,
        },
{
    let id = solana_program::pubkey::Pubkey::new_from_array(program_id.bytes);
    match solana_program::pubkey::Pubkey::try_find_program_address(&[seed], &id) {
        Some((address, bump)) => Some((Key { bytes: address.to_bytes() }, bump)),
        None => None,
    }
}

/// `spl_token::instruction::transfer` with a single signer. It refuses a
/// program id other than that of the asset program; otherwise it names the
/// source and the destination writable, the authority read-only, the signer
/// read-only and signing, and hands over the byte 3 and the amount in
/// little-endian.
#[verifier::external_body]
#[allow(deprecated)]
pub(crate) fn token_transfer(
    program: &Key,
    source: &Key,
    destination: &Key,
    authority: &Key,
    signer: &Key,
    amount: u64,
) -> (r: Result<ProgramCall, solana_program::program_error::ProgramError>)
    ensures
        r is Ok <==> program@ == token_program_id(),
        r is Ok ==> r->Ok_0@ == token_transfer_call(
            *program,
            *source,
            *destination,
            *authority,
            *signer,
            amount,
        ),
{
    let [p, s, d, a, g] = [program, source, destination, authority, signer].map(
        |k| spl_token::solana_program::pubkey::Pubkey::new_from_array(k.bytes),
    );
    let ix = spl_token::instruction::transfer(&p, &s, &d, &a, &[&g], amount)?;
    let accounts = ix.accounts.iter().map(
        |m| AccountMeta {
            pubkey: Key { bytes: m.pubkey.to_bytes() },
            is_signer: m.is_signer,
            is_writable: m.is_writable,
        },
    ).collect();
    Ok(ProgramCall { program_id: Key { bytes: ix.program_id.to_bytes() }, accounts, data: ix.data })
}

/// `spl_token::instruction::set_authority` for the owner of an asset
/// account, with a new owner and a single signer. It refuses a program id
/// other than that of the asset program; otherwise it names the account
/// writable, its owner read-only, the signer read-only and signing, and
/// hands over the bytes 6, 2 (the authority that owns the account) and 1 (a
/// new authority follows), then the new owner's key.
#[verifier::external_body]
#[allow(deprecated)]
pub(crate) fn token_set_authority(
    program: &Key,
    account: &Key,
    new_authority: &Key,
    owner: &Key,
    signer: &Key,
) -> (r: Result<ProgramCall, solana_program::program_error::ProgramError>)
    ensures
        r is Ok <==> program@ == token_program_id(),
        r is Ok ==> r->Ok_0@ == set_authority_call(
            *program,
            *account,
            *new_authority,
            *owner,
            *signer,
        ),
{
    let [p, t, n, o, g] = [program, account, new_authority, owner, signer].map(
        |k| spl_token::solana_program::pubkey::Pubkey::new_from_array(k.bytes),
    );
    let kind = spl_token::instruction::AuthorityType::AccountOwner;
    let ix = spl_token::instruction::set_authority(&p, &t, Some(&n), kind, &o, &[&g])?;
    let accounts = ix.accounts.iter().map(
        |m| AccountMeta {
            pubkey: Key { bytes: m.pubkey.to_bytes() },
            is_signer: m.is_signer,
            is_writable: m.is_writable,
        },
    ).collect();
    Ok(ProgramCall { program_id: Key { bytes: ix.program_id.to_bytes() }, accounts, data: ix.data })
}

/// `spl_token::instruction::close_account` with a single signer. It refuses
/// a program id other than that of the asset program; otherwise it names the
/// account and the destination writable, the owner read-only, the signer
/// read-only and signing, and hands over the byte 9.
#[verifier::external_body]
#[allow(deprecated)]
pub(crate) fn token_close_account(
    program: &Key,
    account: &Key,
    destination: &Key,
    owner: &Key,
    signer: &Key,
) -> (r: Result<ProgramCall, solana_program::program_error::ProgramError>)
    ensures
        r is Ok <==> program@ == token_program_id(),
        r is Ok ==> r->Ok_0@ == close_account_call(
            *program,
            *account,
            *destination,
            *owner,
            *signer,
        ),
{
    let [p, t, d, o, g] = [program, account, destination, owner, signer].map(
        |k| spl_token::solana_program::pubkey::Pubkey::new_from_array(k.bytes),
    );
    let ix = spl_token::instruction::close_account(&p, &t, &d, &o, &[&g])?;
    let accounts = ix.accounts.iter().map(
        |m| AccountMeta {
            pubkey: Key { bytes: m.pubkey.to_bytes() },
            is_signer: m.is_signer,
            is_writable: m.is_writable,
        },
    ).collect();
    Ok(ProgramCall { program_id: Key { bytes: ix.program_id.to_bytes() }, accounts, data: ix.data })
}

/// `solana_system_interface::instruction::transfer`. It addresses the
/// system program and names the payer writable and signing and the payee
/// writable. The bytes it hands over are its serialization of the transfer
/// instruction; they depend on the amount alone and are named
/// `system_transfer_data`.
#[verifier::external_body]
pub(crate) fn system_transfer(from: &Key, to: &Key, lamports: u64) -> (call: ProgramCall)
    ensures
        call@.program_id == system_program_id(),
        call@.accounts == seq![writable(*from, true), writable(*to, false)],
        call@.data == system_transfer_data(lamports),
{
    let [f, t] = [from, to].map(|k| solana_program::pubkey::Pubkey::new_from_array(k.bytes));
    let ix = solana_system_interface::instruction::transfer(&f, &t, lamports);
    let accounts = ix.accounts.iter().map(
        |m| AccountMeta {
            pubkey: Key { bytes: m.pubkey.to_bytes() },
            is_signer: m.is_signer,
            is_writable: m.is_writable,
        },
    ).collect();
    ProgramCall { program_id: Key { bytes: ix.program_id.to_bytes() }, accounts, data: ix.data }
}

} // verus!
