use escrow::account::Account;
use escrow::error::{ErrorKind, EscrowError};
use escrow::instruction::{EscrowInstruction, TradeTerms};
use escrow::invocation::{AccountMeta, Action, ProgramCall};
use escrow::key::Key;
use escrow::plan::{Closing, Plan, Step};
use escrow::processor::{NativeBalances, Processor};
use escrow::record::{read_record, LegA, LegB, MAX_RECORD_LEN, STATUS_COMMITTED};
use std::collections::HashMap;

const PROGRAM_ID: [u8; 32] = [7; 32];

const INITIATOR: u8 = 1;
const COUNTERPARTY: u8 = 2;
const ESCROW: u8 = 3;
const RENT: u8 = 4;
const AUTHORITY_ACCOUNT: u8 = 6;

fn key(tag: u8) -> Key {
    let mut bytes = [tag; 32];
    bytes[5] = 0xC3;
    Key::new(bytes)
}

fn token_program() -> Key {
    Key::new(spl_token::id().to_bytes())
}

fn system_program() -> Key {
    Key::new([0; 32])
}

fn supplied(key: Key) -> Account {
    Account { key, is_signer: false }
}

fn signer(key: Key) -> Account {
    Account { key, is_signer: true }
}

/// The asset accounts of leg `i` of side A: the initiator's, the
/// counterparty's and the custody account.
fn leg_a(i: u8) -> [Key; 3] {
    [key(100 + 3 * i), key(101 + 3 * i), key(102 + 3 * i)]
}

/// The asset accounts of leg `j` of side B: the initiator's and the
/// counterparty's.
fn leg_b(j: u8) -> [Key; 2] {
    [key(200 + 2 * j), key(201 + 2 * j)]
}

fn terms(sol_dir: u8, lamports: u64, xs: &[u64], ys: &[u64]) -> TradeTerms {
    let mut lamports_x = [0u64; 9];
    lamports_x[..xs.len()].copy_from_slice(xs);
    let mut lamports_y = [0u64; 9];
    lamports_y[..ys.len()].copy_from_slice(ys);
    TradeTerms {
        lamports,
        sol_dir,
        amount_x: xs.len() as u8,
        amount_y: ys.len() as u8,
        lamports_x,
        lamports_y,
    }
}

fn instruction(tag: u8, terms: &TradeTerms) -> Vec<u8> {
    let fields = *terms;
    let instruction = match tag {
        0 => EscrowInstruction::InitEscrow {
            lamports: fields.lamports,
            sol_dir: fields.sol_dir,
            amount_x: fields.amount_x,
            amount_y: fields.amount_y,
            lamports_x: fields.lamports_x,
            lamports_y: fields.lamports_y,
        },
        1 => EscrowInstruction::Exchange {
            lamports: fields.lamports,
            sol_dir: fields.sol_dir,
            amount_x: fields.amount_x,
            amount_y: fields.amount_y,
            lamports_x: fields.lamports_x,
            lamports_y: fields.lamports_y,
        },
        _ => EscrowInstruction::CancelEscrow {
            lamports: fields.lamports,
            sol_dir: fields.sol_dir,
            amount_x: fields.amount_x,
            amount_y: fields.amount_y,
            lamports_x: fields.lamports_x,
            lamports_y: fields.lamports_y,
        },
    };
    instruction.pack().unwrap()
}

fn leg_accounts(terms: &TradeTerms) -> Vec<Account> {
    let mut list = Vec::new();
    for i in 0..terms.amount_x {
        for k in leg_a(i) {
            list.push(supplied(k));
        }
    }
    for j in 0..terms.amount_y {
        for k in leg_b(j) {
            list.push(supplied(k));
        }
    }
    list
}

fn commit_accounts(terms: &TradeTerms) -> Vec<Account> {
    let mut list = vec![
        signer(key(INITIATOR)),
        supplied(key(COUNTERPARTY)),
        supplied(key(ESCROW)),
        supplied(key(RENT)),
        supplied(token_program()),
    ];
    list.extend(leg_accounts(terms));
    list.push(supplied(system_program()));
    list
}

fn cancel_accounts(terms: &TradeTerms) -> Vec<Account> {
    let mut list = vec![
        signer(key(INITIATOR)),
        supplied(key(COUNTERPARTY)),
        supplied(key(ESCROW)),
        supplied(key(RENT)),
        supplied(token_program()),
        supplied(key(AUTHORITY_ACCOUNT)),
    ];
    list.extend(leg_accounts(terms));
    list
}

fn settle_accounts(terms: &TradeTerms) -> Vec<Account> {
    let mut list = vec![
        supplied(key(INITIATOR)),
        signer(key(COUNTERPARTY)),
        supplied(key(ESCROW)),
        supplied(key(RENT)),
        supplied(token_program()),
        supplied(key(AUTHORITY_ACCOUNT)),
    ];
    list.extend(leg_accounts(terms));
    list.push(supplied(system_program()));
    list
}

fn processor() -> Processor {
    Processor::new(b"escrow".to_vec())
}

fn derived() -> (Key, u8) {
    let id = solana_program::pubkey::Pubkey::new_from_array(PROGRAM_ID);
    let (address, bump) = solana_program::pubkey::Pubkey::find_program_address(&[b"escrow"], &id);
    (Key::new(address.to_bytes()), bump)
}

/// A ledger as the collaborators keep it, for carrying plans out.
struct Ledger {
    assets: HashMap<Key, u64>,
    owners: HashMap<Key, Key>,
    closed: Vec<Key>,
    native: HashMap<Key, u64>,
}

impl Ledger {
    fn new() -> Ledger {
        Ledger {
            assets: HashMap::new(),
            owners: HashMap::new(),
            closed: Vec::new(),
            native: HashMap::new(),
        }
    }

    fn asset(&self, key: Key) -> u64 {
        *self.assets.get(&key).unwrap_or(&0)
    }

    fn native(&self, key: Key) -> u64 {
        *self.native.get(&key).unwrap_or(&0)
    }

    fn act(&mut self, action: &Action) -> bool {
        match *action {
            Action::Transfer { source, destination, amount, .. } => {
                if self.asset(source) < amount || self.closed.contains(&source) {
                    return false;
                }
                *self.assets.entry(source).or_insert(0) -= amount;
                *self.assets.entry(destination).or_insert(0) += amount;
                true
            }
            Action::SetAuthority { account, new_authority, .. } => {
                self.owners.insert(account, new_authority);
                true
            }
            Action::CloseAccount { account, .. } => {
                if self.asset(account) != 0 {
                    return false;
                }
                self.closed.push(account);
                true
            }
            Action::TransferNative { from, to, amount } => {
                if self.native(from) < amount {
                    return false;
                }
                *self.native.entry(from).or_insert(0) -= amount;
                *self.native.entry(to).or_insert(0) += amount;
                true
            }
        }
    }

    /// Carries a plan out as the host does: every step, then the closing.
    fn carry_out(&mut self, plan: &Plan, record: &mut Vec<u8>) -> Result<(), EscrowError> {
        for step in &plan.steps {
            assert!(self.act(&step.action), "the collaborator refused {:?}", step.action);
        }
        let before = NativeBalances {
            initiator: self.native(key(INITIATOR)),
            counterparty: self.native(key(COUNTERPARTY)),
            escrow: self.native(key(ESCROW)),
        };
        let after = plan.closing.close(before, record)?;
        self.native.insert(key(INITIATOR), after.initiator);
        self.native.insert(key(COUNTERPARTY), after.counterparty);
        self.native.insert(key(ESCROW), after.escrow);
        Ok(())
    }
}

fn meta(key: Key, is_signer: bool, is_writable: bool) -> AccountMeta {
    AccountMeta { pubkey: key, is_signer, is_writable }
}

fn transfer_call(source: Key, destination: Key, authority: Key, amount: u64) -> ProgramCall {
    let mut data = vec![3u8];
    data.extend_from_slice(&amount.to_le_bytes());
    ProgramCall {
        program_id: token_program(),
        accounts: vec![
            meta(source, false, true),
            meta(destination, false, true),
            meta(authority, false, false),
            meta(authority, true, false),
        ],
        data,
    }
}

fn close_call(account: Key, destination: Key, authority: Key) -> ProgramCall {
    ProgramCall {
        program_id: token_program(),
        accounts: vec![
            meta(account, false, true),
            meta(destination, false, true),
            meta(authority, false, false),
            meta(authority, true, false),
        ],
        data: vec![9],
    }
}

fn handover_call(account: Key, new_authority: Key, owner: Key) -> ProgramCall {
    let mut data = vec![6u8, 2, 1];
    data.extend_from_slice(&new_authority.bytes);
    ProgramCall {
        program_id: token_program(),
        accounts: vec![
            meta(account, false, true),
            meta(owner, false, false),
            meta(owner, true, false),
        ],
        data,
    }
}

fn native_call(from: Key, to: Key, amount: u64) -> ProgramCall {
    let mut data = vec![2u8, 0, 0, 0];
    data.extend_from_slice(&amount.to_le_bytes());
    ProgramCall {
        program_id: system_program(),
        accounts: vec![meta(from, true, true), meta(to, false, true)],
        data,
    }
}

fn commit(terms: &TradeTerms, record: &mut Vec<u8>) -> Plan {
    processor()
        .process(&Key::new(PROGRAM_ID), &commit_accounts(terms), true, record, &instruction(0, terms))
        .unwrap()
}

#[test]
fn the_asset_program_id_is_the_one_of_its_crate() {
    assert_eq!(
        spl_token::id().to_bytes(),
        [
            6u8, 221, 246, 225, 215, 101, 161, 147, 217, 203, 225, 70, 206, 235, 121, 172, 28,
            180, 133, 237, 95, 91, 55, 145, 58, 140, 245, 133, 126, 255, 0, 169,
        ]
    );
}

#[test]
fn a_commitment_writes_the_record_and_plans_the_custody() {
    let terms = terms(0, 0, &[1000], &[2000]);
    let mut record = vec![0u8; MAX_RECORD_LEN];
    let plan = commit(&terms, &mut record);
    let (authority, bump) = derived();

    let stored = read_record(&record).unwrap();
    assert_eq!(stored.status, STATUS_COMMITTED);
    assert_eq!(stored.native_leg_direction, 0);
    assert_eq!(stored.reserve_amount, 0);
    assert_eq!(stored.initiator_key, key(INITIATOR));
    assert_eq!(stored.counterparty_key, key(COUNTERPARTY));
    assert_eq!(
        stored.legs_a,
        vec![LegA {
            initiator_account: leg_a(0)[0],
            counterparty_account: leg_a(0)[1],
            custody_account: leg_a(0)[2],
            amount: 1000,
        }]
    );
    assert_eq!(
        stored.legs_b,
        vec![LegB {
            initiator_account: leg_b(0)[0],
            counterparty_account: leg_b(0)[1],
            amount: 2000,
        }]
    );
    assert!(record[76 + 104 + 72..].iter().all(|b| *b == 0));

    assert_eq!(
        plan,
        Plan {
            bump,
            steps: vec![
                Step {
                    action: Action::Transfer {
                        source: leg_a(0)[0],
                        destination: leg_a(0)[2],
                        authority: key(INITIATOR),
                        amount: 1000,
                    },
                    call: transfer_call(leg_a(0)[0], leg_a(0)[2], key(INITIATOR), 1000),
                    accounts: vec![0, 5, 7, 4],
                    signed: false,
                },
                Step {
                    action: Action::SetAuthority {
                        account: leg_a(0)[2],
                        new_authority: authority,
                        current_authority: key(ESCROW),
                    },
                    call: handover_call(leg_a(0)[2], authority, key(ESCROW)),
                    accounts: vec![4, 7, 2],
                    signed: false,
                },
            ],
            closing: Closing::Open,
        }
    );
}

#[test]
fn commit_then_settle_swaps_the_legs() {
    let terms = terms(0, 0, &[1000], &[2000]);
    let (authority, bump) = derived();
    let mut ledger = Ledger::new();
    ledger.assets.insert(leg_a(0)[0], 1500);
    ledger.assets.insert(leg_b(0)[1], 2500);
    ledger.native.insert(key(INITIATOR), 10);
    ledger.native.insert(key(COUNTERPARTY), 20);
    ledger.native.insert(key(ESCROW), 12_000);

    let mut record = vec![0u8; MAX_RECORD_LEN];
    let plan = commit(&terms, &mut record);
    ledger.carry_out(&plan, &mut record).unwrap();
    assert_eq!(record[0], STATUS_COMMITTED);
    assert_eq!(ledger.asset(leg_a(0)[2]), 1000);
    assert_eq!(ledger.asset(leg_a(0)[0]), 500);
    assert_eq!(ledger.owners.get(&leg_a(0)[2]), Some(&authority));
    assert_eq!(ledger.native(key(ESCROW)), 12_000);

    let plan = processor()
        .process(
            &Key::new(PROGRAM_ID),
            &settle_accounts(&terms),
            true,
            &mut record,
            &instruction(1, &terms),
        )
        .unwrap();
    assert_eq!(record[0], STATUS_COMMITTED);
    assert_eq!(
        plan,
        Plan {
            bump,
            steps: vec![
                Step {
                    action: Action::Transfer {
                        source: leg_a(0)[2],
                        destination: leg_a(0)[1],
                        authority,
                        amount: 1000,
                    },
                    call: transfer_call(leg_a(0)[2], leg_a(0)[1], authority, 1000),
                    accounts: vec![5, 4, 8, 7],
                    signed: true,
                },
                Step {
                    action: Action::CloseAccount {
                        account: leg_a(0)[2],
                        destination: leg_a(0)[0],
                        authority,
                    },
                    call: close_call(leg_a(0)[2], leg_a(0)[0], authority),
                    accounts: vec![5, 4, 8, 6],
                    signed: true,
                },
                Step {
                    action: Action::Transfer {
                        source: leg_b(0)[1],
                        destination: leg_b(0)[0],
                        authority: key(COUNTERPARTY),
                        amount: 2000,
                    },
                    call: transfer_call(leg_b(0)[1], leg_b(0)[0], key(COUNTERPARTY), 2000),
                    accounts: vec![1, 10, 9, 4],
                    signed: false,
                },
            ],
            closing: Closing::Swept { release: 0 },
        }
    );
    ledger.carry_out(&plan, &mut record).unwrap();
    assert_eq!(ledger.asset(leg_a(0)[1]), 1000);
    assert_eq!(ledger.asset(leg_a(0)[0]), 500);
    assert_eq!(ledger.asset(leg_a(0)[2]), 0);
    assert!(ledger.closed.contains(&leg_a(0)[2]));
    assert_eq!(ledger.asset(leg_b(0)[0]), 2000);
    assert_eq!(ledger.asset(leg_b(0)[1]), 500);
    assert!(record.is_empty());
    assert_eq!(ledger.native(key(ESCROW)), 0);
    assert_eq!(ledger.native(key(INITIATOR)), 12_010);
    assert_eq!(ledger.native(key(COUNTERPARTY)), 20);
}

#[test]
fn commit_then_cancel_returns_the_native_leg() {
    let terms = terms(1, 500, &[], &[]);
    let mut ledger = Ledger::new();
    ledger.native.insert(key(INITIATOR), 800);
    ledger.native.insert(key(ESCROW), 40);

    let mut record = vec![0u8; MAX_RECORD_LEN];
    let plan = commit(&terms, &mut record);
    assert_eq!(
        plan.steps,
        vec![Step {
            action: Action::TransferNative {
                from: key(INITIATOR),
                to: key(ESCROW),
                amount: 500,
            },
            call: native_call(key(INITIATOR), key(ESCROW), 500),
            accounts: vec![0, 2, 5],
            signed: false,
        }]
    );
    assert_eq!(plan.closing, Closing::Open);
    ledger.carry_out(&plan, &mut record).unwrap();
    assert_eq!(ledger.native(key(INITIATOR)), 300);
    assert_eq!(ledger.native(key(ESCROW)), 540);
    assert_eq!(record[0], STATUS_COMMITTED);

    let plan = processor()
        .process(
            &Key::new(PROGRAM_ID),
            &cancel_accounts(&terms),
            true,
            &mut record,
            &instruction(2, &terms),
        )
        .unwrap();
    assert!(plan.steps.is_empty());
    assert_eq!(plan.closing, Closing::Swept { release: 0 });
    ledger.carry_out(&plan, &mut record).unwrap();
    assert_eq!(ledger.native(key(INITIATOR)), 840);
    assert_eq!(ledger.native(key(ESCROW)), 0);
    assert!(record.is_empty());
}

#[test]
fn a_substituted_asset_account_is_refused_at_settlement() {
    let terms = terms(0, 0, &[1000], &[2000]);
    let mut ledger = Ledger::new();
    ledger.assets.insert(leg_a(0)[0], 1000);
    ledger.assets.insert(leg_b(0)[1], 2000);
    ledger.assets.insert(key(250), 5000);
    let mut record = vec![0u8; MAX_RECORD_LEN];
    let plan = commit(&terms, &mut record);
    ledger.carry_out(&plan, &mut record).unwrap();
    let committed = record.clone();

    // The counterparty's asset account of the leg of side A, and then the one
    // of the leg of side B, is replaced by another account.
    for position in [7usize, 10] {
        let mut accounts = settle_accounts(&terms);
        accounts[position] = supplied(key(250));
        let refused = processor().process(
            &Key::new(PROGRAM_ID),
            &accounts,
            true,
            &mut record,
            &instruction(1, &terms),
        );
        assert_eq!(refused, Err(EscrowError::InvalidAccount));
        assert_eq!(refused.unwrap_err().kind(), ErrorKind::TermsMismatch);
        assert_eq!(record, committed);
    }
    assert_eq!(ledger.asset(leg_a(0)[2]), 1000);
    assert_eq!(ledger.asset(leg_b(0)[1]), 2000);
    assert_eq!(ledger.asset(key(250)), 5000);
}

#[test]
fn commit_then_cancel_leaves_every_asset_balance() {
    let terms = terms(1, 70, &[11, 22, 33], &[44, 55]);
    let mut ledger = Ledger::new();
    for i in 0..3 {
        ledger.assets.insert(leg_a(i)[0], 100 + i as u64);
        ledger.assets.insert(leg_a(i)[1], 7);
    }
    for j in 0..2 {
        ledger.assets.insert(leg_b(j)[0], 3);
        ledger.assets.insert(leg_b(j)[1], 900);
    }
    ledger.native.insert(key(INITIATOR), 1_000);
    ledger.native.insert(key(COUNTERPARTY), 2_000);
    let assets_before = ledger.assets.clone();

    let mut record = vec![0u8; MAX_RECORD_LEN];
    let plan = commit(&terms, &mut record);
    assert_eq!(plan.steps.len(), 7);
    ledger.carry_out(&plan, &mut record).unwrap();
    assert_eq!(ledger.asset(leg_a(1)[2]), 22);
    assert_eq!(ledger.native(key(ESCROW)), 70);

    let plan = processor()
        .process(
            &Key::new(PROGRAM_ID),
            &cancel_accounts(&terms),
            true,
            &mut record,
            &instruction(2, &terms),
        )
        .unwrap();
    assert_eq!(plan.steps.len(), 6);
    ledger.carry_out(&plan, &mut record).unwrap();
    for (account, balance) in &assets_before {
        assert_eq!(ledger.asset(*account), *balance);
    }
    for i in 0..3 {
        assert_eq!(ledger.asset(leg_a(i)[2]), 0);
    }
    assert_eq!(ledger.native(key(INITIATOR)), 1_000);
    assert_eq!(ledger.native(key(COUNTERPARTY)), 2_000);
    assert_eq!(ledger.native(key(ESCROW)), 0);
    assert!(record.is_empty());
}

#[test]
fn commit_then_settle_moves_every_leg_and_the_native_leg() {
    for (sol_dir, initiator_after, counterparty_after) in
        [(0u8, 1_000u64, 2_000u64), (1, 930, 2_070), (2, 1_070, 1_930), (9, 1_000, 2_000)]
    {
        let terms = terms(sol_dir, 70, &[11, 22, 33], &[44, 55]);
        let mut ledger = Ledger::new();
        for i in 0..3 {
            ledger.assets.insert(leg_a(i)[0], 100);
        }
        for j in 0..2 {
            ledger.assets.insert(leg_b(j)[1], 900);
        }
        ledger.native.insert(key(INITIATOR), 1_000);
        ledger.native.insert(key(COUNTERPARTY), 2_000);

        let mut record = vec![0u8; MAX_RECORD_LEN];
        let plan = commit(&terms, &mut record);
        ledger.carry_out(&plan, &mut record).unwrap();
        let plan = processor()
            .process(
                &Key::new(PROGRAM_ID),
                &settle_accounts(&terms),
                true,
                &mut record,
                &instruction(1, &terms),
            )
            .unwrap();
        ledger.carry_out(&plan, &mut record).unwrap();

        for (i, amount) in [11u64, 22, 33].iter().enumerate() {
            assert_eq!(ledger.asset(leg_a(i as u8)[0]), 100 - amount);
            assert_eq!(ledger.asset(leg_a(i as u8)[1]), *amount);
            assert_eq!(ledger.asset(leg_a(i as u8)[2]), 0);
        }
        for (j, amount) in [44u64, 55].iter().enumerate() {
            assert_eq!(ledger.asset(leg_b(j as u8)[0]), *amount);
            assert_eq!(ledger.asset(leg_b(j as u8)[1]), 900 - amount);
        }
        assert_eq!(ledger.native(key(INITIATOR)), initiator_after, "direction {}", sol_dir);
        assert_eq!(ledger.native(key(COUNTERPARTY)), counterparty_after);
        assert_eq!(ledger.native(key(ESCROW)), 0);
        assert!(record.is_empty());
    }
}

#[test]
fn a_settlement_takes_the_native_leg_of_the_counterparty() {
    let terms = terms(2, 500, &[], &[]);
    let mut record = vec![0u8; MAX_RECORD_LEN];
    let plan = commit(&terms, &mut record);
    assert!(plan.steps.is_empty());
    let plan = processor()
        .process(
            &Key::new(PROGRAM_ID),
            &settle_accounts(&terms),
            true,
            &mut record,
            &instruction(1, &terms),
        )
        .unwrap();
    assert_eq!(
        plan.steps,
        vec![Step {
            action: Action::TransferNative {
                from: key(COUNTERPARTY),
                to: key(ESCROW),
                amount: 500,
            },
            call: native_call(key(COUNTERPARTY), key(ESCROW), 500),
            accounts: vec![1, 2, 6],
            signed: false,
        }]
    );
    assert_eq!(plan.closing, Closing::Swept { release: 0 });
}

#[test]
fn a_settlement_releases_the_native_leg_of_the_initiator() {
    let terms = terms(1, 500, &[], &[]);
    let mut record = vec![0u8; MAX_RECORD_LEN];
    commit(&terms, &mut record);
    let plan = processor()
        .process(
            &Key::new(PROGRAM_ID),
            &settle_accounts(&terms),
            true,
            &mut record,
            &instruction(1, &terms),
        )
        .unwrap();
    assert!(plan.steps.is_empty());
    assert_eq!(plan.closing, Closing::Swept { release: 500 });
}

#[test]
fn a_native_leg_of_nothing_moves_nothing() {
    for sol_dir in [1u8, 2] {
        let terms = terms(sol_dir, 0, &[], &[]);
        let mut record = vec![0u8; MAX_RECORD_LEN];
        assert!(commit(&terms, &mut record).steps.is_empty());
        let plan = processor()
            .process(
                &Key::new(PROGRAM_ID),
                &settle_accounts(&terms),
                true,
                &mut record,
                &instruction(1, &terms),
            )
            .unwrap();
        assert!(plan.steps.is_empty());
        assert_eq!(plan.closing, Closing::Swept { release: 0 });
    }
}

#[test]
fn a_cancellation_returns_the_custody_leg_by_leg() {
    let terms = terms(0, 0, &[5, 6], &[7]);
    let (authority, bump) = derived();
    let mut record = vec![0u8; MAX_RECORD_LEN];
    commit(&terms, &mut record);
    let plan = processor()
        .process(
            &Key::new(PROGRAM_ID),
            &cancel_accounts(&terms),
            true,
            &mut record,
            &instruction(2, &terms),
        )
        .unwrap();
    let mut steps = Vec::new();
    for (i, amount) in [5u64, 6].iter().enumerate() {
        let [initiator_account, _, custody] = leg_a(i as u8);
        steps.push(Step {
            action: Action::Transfer {
                source: custody,
                destination: initiator_account,
                authority,
                amount: *amount,
            },
            call: transfer_call(custody, initiator_account, authority, *amount),
            accounts: vec![5, 4, 6 + 3 * i + 2, 6 + 3 * i],
            signed: true,
        });
        steps.push(Step {
            action: Action::CloseAccount {
                account: custody,
                destination: initiator_account,
                authority,
            },
            call: close_call(custody, initiator_account, authority),
            accounts: vec![5, 4, 6 + 3 * i + 2, 6 + 3 * i],
            signed: true,
        });
    }
    assert_eq!(plan, Plan { bump, steps, closing: Closing::Swept { release: 0 } });
}

#[test]
fn the_calls_are_those_of_the_collaborators_crates() {
    let terms = terms(2, 77, &[1000], &[2000]);
    let mut record = vec![0u8; MAX_RECORD_LEN];
    let committed = commit(&terms, &mut record);
    let settled = processor()
        .process(
            &Key::new(PROGRAM_ID),
            &settle_accounts(&terms),
            true,
            &mut record,
            &instruction(1, &terms),
        )
        .unwrap();
    let (authority, _) = derived();
    let pubkey = |k: Key| spl_token::solana_program::pubkey::Pubkey::new_from_array(k.bytes);
    let same = |call: &ProgramCall, built: &spl_token::solana_program::instruction::Instruction| {
        assert_eq!(call.program_id.bytes, built.program_id.to_bytes());
        assert_eq!(call.data, built.data);
        assert_eq!(call.accounts.len(), built.accounts.len());
        for (ours, theirs) in call.accounts.iter().zip(built.accounts.iter()) {
            assert_eq!(ours.pubkey.bytes, theirs.pubkey.to_bytes());
            assert_eq!(ours.is_signer, theirs.is_signer);
            assert_eq!(ours.is_writable, theirs.is_writable);
        }
    };
    #[allow(deprecated)]
    let deposit = spl_token::instruction::transfer(
        &spl_token::id(),
        &pubkey(leg_a(0)[0]),
        &pubkey(leg_a(0)[2]),
        &pubkey(key(INITIATOR)),
        &[&pubkey(key(INITIATOR))],
        1000,
    )
    .unwrap();
    same(&committed.steps[0].call, &deposit);
    #[allow(deprecated)]
    let handover = spl_token::instruction::set_authority(
        &spl_token::id(),
        &pubkey(leg_a(0)[2]),
        Some(&pubkey(authority)),
        spl_token::instruction::AuthorityType::AccountOwner,
        &pubkey(key(ESCROW)),
        &[&pubkey(key(ESCROW))],
    )
    .unwrap();
    same(&committed.steps[1].call, &handover);
    #[allow(deprecated)]
    let close = spl_token::instruction::close_account(
        &spl_token::id(),
        &pubkey(leg_a(0)[2]),
        &pubkey(leg_a(0)[0]),
        &pubkey(authority),
        &[&pubkey(authority)],
    )
    .unwrap();
    same(&settled.steps[1].call, &close);
    let native = solana_system_interface::instruction::transfer(
        &pubkey(key(COUNTERPARTY)),
        &pubkey(key(ESCROW)),
        77,
    );
    same(&settled.steps[3].call, &native);
}

#[test]
fn the_authority_is_derived_from_the_seed_and_the_program() {
    let terms = terms(0, 0, &[1], &[]);
    let (authority, bump) = derived();
    let mut record = vec![0u8; MAX_RECORD_LEN];
    let plan = commit(&terms, &mut record);
    assert_eq!(plan.bump, bump);
    match plan.steps[1].action {
        Action::SetAuthority { new_authority, .. } => {
            assert_eq!(new_authority, authority);
            assert_ne!(new_authority, Key::new(PROGRAM_ID));
        }
        other => panic!("unexpected {:?}", other),
    }

    // Another seed, or another program, gives another authority.
    let mut record = vec![0u8; MAX_RECORD_LEN];
    let other = Processor::new(b"vault".to_vec())
        .process(
            &Key::new(PROGRAM_ID),
            &commit_accounts(&terms),
            true,
            &mut record,
            &instruction(0, &terms),
        )
        .unwrap();
    assert_ne!(other.steps[1].action, plan.steps[1].action);
    let mut record = vec![0u8; MAX_RECORD_LEN];
    let other = processor()
        .process(
            &Key::new([8; 32]),
            &commit_accounts(&terms),
            true,
            &mut record,
            &instruction(0, &terms),
        )
        .unwrap();
    assert_ne!(other.steps[1].action, plan.steps[1].action);
}

#[test]
fn process_derived_takes_the_authority_as_given() {
    let terms = terms(0, 0, &[9], &[]);
    let mut record = vec![0u8; MAX_RECORD_LEN];
    let plan = Processor::process_derived(
        Some((key(222), 254)),
        &commit_accounts(&terms),
        true,
        &mut record,
        &instruction(0, &terms),
    )
    .unwrap();
    assert_eq!(plan.bump, 254);
    assert_eq!(plan.steps[1].call, handover_call(leg_a(0)[2], key(222), key(ESCROW)));
}

#[test]
fn a_seed_that_is_too_long_derives_no_authority() {
    let terms = terms(0, 0, &[], &[]);
    let mut record = vec![0u8; MAX_RECORD_LEN];
    let refused = Processor::new(vec![1u8; 33]).process(
        &Key::new(PROGRAM_ID),
        &commit_accounts(&terms),
        true,
        &mut record,
        &instruction(0, &terms),
    );
    assert_eq!(refused, Err(EscrowError::InvalidSeeds));
    assert_eq!(record, vec![0u8; MAX_RECORD_LEN]);
    assert!(Processor::new(vec![1u8; 32])
        .process(
            &Key::new(PROGRAM_ID),
            &commit_accounts(&terms),
            true,
            &mut record,
            &instruction(0, &terms),
        )
        .is_ok());
}

#[test]
fn undecodable_bytes_are_refused_before_anything_is_touched() {
    let storage = vec![0x42u8; MAX_RECORD_LEN];
    let mut too_many = vec![0u8, 0];
    too_many.extend_from_slice(&0u64.to_le_bytes());
    too_many.push(10);
    too_many.extend_from_slice(&[0u8; 81]);
    let mut too_many_b = vec![1u8, 0];
    too_many_b.extend_from_slice(&0u64.to_le_bytes());
    too_many_b.push(0);
    too_many_b.push(10);
    too_many_b.extend_from_slice(&[0u8; 80]);
    for data in [vec![], vec![0u8; 11], vec![3u8; 12], too_many, too_many_b] {
        let mut record = storage.clone();
        assert_eq!(
            processor().process(&Key::new(PROGRAM_ID), &[], false, &mut record, &data),
            Err(EscrowError::InvalidInstruction)
        );
        assert_eq!(record, storage);
    }
}

#[test]
fn a_commitment_needs_the_initiators_signature() {
    let terms = terms(0, 0, &[1], &[]);
    let mut accounts = commit_accounts(&terms);
    accounts[0].is_signer = false;
    accounts[1].is_signer = true;
    let mut record = vec![0u8; MAX_RECORD_LEN];
    assert_eq!(
        Processor::process_init_escrow(Some(derived()), &accounts, &terms, true, &mut record),
        Err(EscrowError::MissingRequiredSignature)
    );
    assert_eq!(record, vec![0u8; MAX_RECORD_LEN]);
}

#[test]
fn a_cancellation_needs_the_initiators_signature() {
    let terms = terms(0, 0, &[1], &[]);
    let mut record = vec![0u8; MAX_RECORD_LEN];
    commit(&terms, &mut record);
    let mut accounts = cancel_accounts(&terms);
    accounts[0].is_signer = false;
    accounts[1].is_signer = true;
    assert_eq!(
        Processor::process_cancel_escrow(Some(derived()), &accounts, &terms, true, &record),
        Err(EscrowError::MissingRequiredSignature)
    );
}

#[test]
fn a_settlement_needs_the_counterpartys_signature_only() {
    let terms = terms(0, 0, &[1], &[]);
    let mut record = vec![0u8; MAX_RECORD_LEN];
    commit(&terms, &mut record);
    let mut accounts = settle_accounts(&terms);
    accounts[1].is_signer = false;
    accounts[0].is_signer = true;
    assert_eq!(
        Processor::process_exchange(Some(derived()), &accounts, &terms, true, &record),
        Err(EscrowError::MissingRequiredSignature)
    );
    accounts[1].is_signer = true;
    accounts[0].is_signer = false;
    assert!(Processor::process_exchange(Some(derived()), &accounts, &terms, true, &record).is_ok());
}

#[test]
fn storage_that_is_not_rent_exempt_is_refused() {
    let terms = terms(0, 0, &[1], &[2]);
    let mut record = vec![0u8; MAX_RECORD_LEN];
    assert_eq!(
        Processor::process_init_escrow(
            Some(derived()),
            &commit_accounts(&terms),
            &terms,
            false,
            &mut record
        ),
        Err(EscrowError::NotRentExempt)
    );
    assert_eq!(record, vec![0u8; MAX_RECORD_LEN]);
    commit(&terms, &mut record);
    assert_eq!(
        Processor::process_cancel_escrow(
            Some(derived()),
            &cancel_accounts(&terms),
            &terms,
            false,
            &record
        ),
        Err(EscrowError::NotRentExempt)
    );
    assert_eq!(
        Processor::process_exchange(
            Some(derived()),
            &settle_accounts(&terms),
            &terms,
            false,
            &record
        ),
        Err(EscrowError::NotRentExempt)
    );
}

#[test]
fn a_second_commitment_is_refused() {
    let terms = terms(0, 0, &[1], &[2]);
    let mut record = vec![0u8; MAX_RECORD_LEN];
    commit(&terms, &mut record);
    let committed = record.clone();
    let refused =
        Processor::process_init_escrow(Some(derived()), &commit_accounts(&terms), &terms, true, &mut record);
    assert_eq!(refused, Err(EscrowError::AccountAlreadyInitialized));
    assert_eq!(refused.unwrap_err().kind(), ErrorKind::AlreadyCommitted);
    assert_eq!(record, committed);
}

#[test]
fn an_uncommitted_trade_can_be_neither_cancelled_nor_settled() {
    let terms = terms(0, 0, &[1], &[2]);
    let record = vec![0u8; MAX_RECORD_LEN];
    assert_eq!(
        Processor::process_cancel_escrow(
            Some(derived()),
            &cancel_accounts(&terms),
            &terms,
            true,
            &record
        ),
        Err(EscrowError::UninitializedAccount)
    );
    assert_eq!(
        Processor::process_exchange(
            Some(derived()),
            &settle_accounts(&terms),
            &terms,
            true,
            &record
        ),
        Err(EscrowError::UninitializedAccount)
    );
}

#[test]
fn changed_terms_are_refused_at_cancellation_and_settlement() {
    let committed_terms = terms(1, 500, &[1000, 1500], &[2000]);
    let mut record = vec![0u8; MAX_RECORD_LEN];
    commit(&committed_terms, &mut record);
    let changed = [
        (terms(1, 500, &[1000], &[2000]), EscrowError::InvalidAmount),
        (terms(1, 500, &[1000, 1500], &[2000, 1]), EscrowError::InvalidAmount),
        (terms(2, 500, &[1000, 1500], &[2000]), EscrowError::InvalidAmount),
        (terms(1, 499, &[1000, 1500], &[2000]), EscrowError::InvalidAmount),
        (terms(1, 500, &[1000, 1501], &[2000]), EscrowError::InvalidAccount),
        (terms(1, 500, &[1000, 1500], &[1999]), EscrowError::InvalidAccount),
    ];
    for (other, error) in changed {
        assert_eq!(
            Processor::process_cancel_escrow(
                Some(derived()),
                &cancel_accounts(&other),
                &other,
                true,
                &record
            ),
            Err(error)
        );
        assert_eq!(
            Processor::process_exchange(
                Some(derived()),
                &settle_accounts(&other),
                &other,
                true,
                &record
            ),
            Err(error)
        );
        assert_eq!(error.kind(), ErrorKind::TermsMismatch);
    }
}

#[test]
fn changed_principals_are_refused_at_cancellation_and_settlement() {
    let terms = terms(0, 0, &[1000], &[2000]);
    let mut record = vec![0u8; MAX_RECORD_LEN];
    commit(&terms, &mut record);
    for position in [0usize, 1] {
        let mut accounts = cancel_accounts(&terms);
        accounts[position].key = key(240);
        assert_eq!(
            Processor::process_cancel_escrow(Some(derived()), &accounts, &terms, true, &record),
            Err(EscrowError::InvalidAccount)
        );
        let mut accounts = settle_accounts(&terms);
        accounts[position].key = key(240);
        assert_eq!(
            Processor::process_exchange(Some(derived()), &accounts, &terms, true, &record),
            Err(EscrowError::InvalidAccount)
        );
    }
}

#[test]
fn every_operation_refuses_missing_accounts() {
    let terms = terms(0, 0, &[1000], &[2000]);
    let mut record = vec![0u8; MAX_RECORD_LEN];
    let accounts = commit_accounts(&terms);
    for len in 0..accounts.len() {
        assert_eq!(
            Processor::process_init_escrow(
                Some(derived()),
                &accounts[..len],
                &terms,
                true,
                &mut record
            ),
            Err(EscrowError::NotEnoughAccountKeys),
            "{} accounts",
            len
        );
        assert_eq!(record, vec![0u8; MAX_RECORD_LEN]);
    }
    commit(&terms, &mut record);
    let accounts = cancel_accounts(&terms);
    for len in 0..accounts.len() {
        assert_eq!(
            Processor::process_cancel_escrow(
                Some(derived()),
                &accounts[..len],
                &terms,
                true,
                &record
            ),
            Err(EscrowError::NotEnoughAccountKeys)
        );
    }
    let mut accounts = settle_accounts(&terms);
    for len in 2..accounts.len() {
        assert_eq!(
            Processor::process_exchange(
                Some(derived()),
                &accounts[..len],
                &terms,
                true,
                &record
            ),
            Err(EscrowError::NotEnoughAccountKeys)
        );
    }
    // Before the counterparty is known to have signed, nothing else is asked.
    accounts[1].is_signer = false;
    assert_eq!(
        Processor::process_exchange(Some(derived()), &accounts[..1], &terms, true, &record),
        Err(EscrowError::NotEnoughAccountKeys)
    );
    assert_eq!(
        Processor::process_exchange(Some(derived()), &accounts[..2], &terms, true, &record),
        Err(EscrowError::MissingRequiredSignature)
    );
}

#[test]
fn another_asset_program_is_refused_where_an_asset_moves() {
    let with_legs = terms(0, 0, &[1000], &[2000]);
    let mut record = vec![0u8; MAX_RECORD_LEN];
    let mut accounts = commit_accounts(&with_legs);
    accounts[4] = supplied(key(44));
    let refused =
        Processor::process_init_escrow(Some(derived()), &accounts, &with_legs, true, &mut record);
    assert_eq!(refused, Err(EscrowError::IncorrectProgramId));
    assert_eq!(refused.unwrap_err().kind(), ErrorKind::CollaboratorFailure);
    assert_eq!(record, vec![0u8; MAX_RECORD_LEN]);

    commit(&with_legs, &mut record);
    let mut accounts = cancel_accounts(&with_legs);
    accounts[4] = supplied(key(44));
    assert_eq!(
        Processor::process_cancel_escrow(Some(derived()), &accounts, &with_legs, true, &record),
        Err(EscrowError::IncorrectProgramId)
    );
    let mut accounts = settle_accounts(&with_legs);
    accounts[4] = supplied(key(44));
    assert_eq!(
        Processor::process_exchange(Some(derived()), &accounts, &with_legs, true, &record),
        Err(EscrowError::IncorrectProgramId)
    );

    // Side B alone moves no asset at commitment or cancellation, but does at
    // settlement.
    let side_b_only = terms(0, 0, &[], &[2000]);
    let mut record = vec![0u8; MAX_RECORD_LEN];
    let mut accounts = commit_accounts(&side_b_only);
    accounts[4] = supplied(key(44));
    assert!(Processor::process_init_escrow(
        Some(derived()),
        &accounts,
        &side_b_only,
        true,
        &mut record
    )
    .is_ok());
    let mut accounts = cancel_accounts(&side_b_only);
    accounts[4] = supplied(key(44));
    assert!(Processor::process_cancel_escrow(
        Some(derived()),
        &accounts,
        &side_b_only,
        true,
        &record
    )
    .is_ok());
    let mut accounts = settle_accounts(&side_b_only);
    accounts[4] = supplied(key(44));
    assert_eq!(
        Processor::process_exchange(Some(derived()), &accounts, &side_b_only, true, &record),
        Err(EscrowError::IncorrectProgramId)
    );
}

#[test]
fn no_authority_refuses_every_operation() {
    let terms = terms(0, 0, &[], &[]);
    let mut record = vec![0u8; MAX_RECORD_LEN];
    assert_eq!(
        Processor::process_init_escrow(None, &commit_accounts(&terms), &terms, true, &mut record),
        Err(EscrowError::InvalidSeeds)
    );
    commit(&terms, &mut record);
    assert_eq!(
        Processor::process_cancel_escrow(None, &cancel_accounts(&terms), &terms, true, &record),
        Err(EscrowError::InvalidSeeds)
    );
    assert_eq!(
        Processor::process_exchange(None, &settle_accounts(&terms), &terms, true, &record),
        Err(EscrowError::InvalidSeeds)
    );
}

#[test]
fn the_first_failing_check_of_a_commitment_decides() {
    let terms = terms(0, 0, &[1], &[]);
    let mut record = vec![1u8; MAX_RECORD_LEN];
    let mut accounts = commit_accounts(&terms);
    accounts[4] = supplied(key(44));
    accounts.pop();
    // Committed storage comes before the missing account and the wrong
    // program; the missing account comes before the wrong program.
    assert_eq!(
        Processor::process_init_escrow(Some(derived()), &accounts, &terms, true, &mut record),
        Err(EscrowError::AccountAlreadyInitialized)
    );
    record[0] = 0;
    assert_eq!(
        Processor::process_init_escrow(Some(derived()), &accounts, &terms, true, &mut record),
        Err(EscrowError::NotEnoughAccountKeys)
    );
    // No authority comes before the storage, rent before the authority, the
    // signature before rent.
    record[0] = 1;
    assert_eq!(
        Processor::process_init_escrow(None, &accounts, &terms, true, &mut record),
        Err(EscrowError::InvalidSeeds)
    );
    assert_eq!(
        Processor::process_init_escrow(None, &accounts, &terms, false, &mut record),
        Err(EscrowError::NotRentExempt)
    );
    accounts[0].is_signer = false;
    assert_eq!(
        Processor::process_init_escrow(None, &accounts, &terms, false, &mut record),
        Err(EscrowError::MissingRequiredSignature)
    );
}

#[test]
fn a_commitment_of_nine_legs_on_each_side_fills_the_storage() {
    let xs: Vec<u64> = (1..=9).collect();
    let ys: Vec<u64> = (11..=19).collect();
    let terms = terms(1, 5, &xs, &ys);
    let mut record = vec![0u8; MAX_RECORD_LEN];
    let plan = commit(&terms, &mut record);
    assert_eq!(plan.steps.len(), 19);
    assert_eq!(plan.steps[18].accounts, vec![0, 2, 5 + 27 + 18]);
    let stored = read_record(&record).unwrap();
    assert_eq!(stored.legs_a.len(), 9);
    assert_eq!(stored.legs_b.len(), 9);
    assert_eq!(stored.legs_a[8].custody_account, leg_a(8)[2]);
    assert_eq!(stored.legs_b[8].amount, 19);
    assert_eq!(&record[MAX_RECORD_LEN - 8..], &19u64.to_be_bytes());
    let plan = processor()
        .process(
            &Key::new(PROGRAM_ID),
            &settle_accounts(&terms),
            true,
            &mut record,
            &instruction(1, &terms),
        )
        .unwrap();
    assert_eq!(plan.steps.len(), 27);
    assert_eq!(plan.closing, Closing::Swept { release: 5 });
}

#[test]
fn closing_sweeps_the_escrow_to_the_initiator() {
    let mut record = vec![1u8; 100];
    let balances = NativeBalances { initiator: 10, counterparty: 20, escrow: 30 };
    assert_eq!(
        Closing::Swept { release: 0 }.close(balances, &mut record),
        Ok(NativeBalances { initiator: 40, counterparty: 20, escrow: 0 })
    );
    assert!(record.is_empty());
}

#[test]
fn closing_releases_before_it_sweeps() {
    let mut record = vec![1u8; 100];
    let balances = NativeBalances { initiator: 10, counterparty: 20, escrow: 30 };
    assert_eq!(
        Closing::Swept { release: 25 }.close(balances, &mut record),
        Ok(NativeBalances { initiator: 15, counterparty: 45, escrow: 0 })
    );
    assert!(record.is_empty());
    let mut record = vec![1u8; 100];
    assert_eq!(
        Closing::Swept { release: 30 }.close(balances, &mut record),
        Ok(NativeBalances { initiator: 10, counterparty: 50, escrow: 0 })
    );
}

#[test]
fn an_open_closing_changes_nothing() {
    let mut record = vec![1u8; 100];
    let balances = NativeBalances { initiator: u64::MAX, counterparty: u64::MAX, escrow: u64::MAX };
    assert_eq!(Closing::Open.close(balances, &mut record), Ok(balances));
    assert_eq!(record, vec![1u8; 100]);
}

#[test]
fn closing_refuses_a_balance_out_of_range() {
    let cases = [
        (NativeBalances { initiator: u64::MAX, counterparty: 0, escrow: 1 }, 0u64),
        (NativeBalances { initiator: u64::MAX - 4, counterparty: 0, escrow: 10 }, 5),
        (NativeBalances { initiator: 0, counterparty: u64::MAX, escrow: 10 }, 1),
        (NativeBalances { initiator: 0, counterparty: 0, escrow: 10 }, 11),
    ];
    for (balances, release) in cases {
        let mut record = vec![1u8; 100];
        let refused = Closing::Swept { release }.close(balances, &mut record);
        assert_eq!(refused, Err(EscrowError::AmountOverflow));
        assert_eq!(refused.unwrap_err().kind(), ErrorKind::ArithmeticOverflow);
        assert_eq!(record, vec![1u8; 100]);
    }
    let mut record = vec![1u8; 100];
    assert_eq!(
        Closing::Swept { release: 5 }.close(
            NativeBalances { initiator: u64::MAX - 5, counterparty: u64::MAX - 5, escrow: 10 },
            &mut record
        ),
        Ok(NativeBalances { initiator: u64::MAX, counterparty: u64::MAX, escrow: 0 })
    );
}
