//! The instruction codec.
//!
//! An instruction is a tag followed by the terms of a trade: the direction
//! and size of the native leg, then for each side a count and that many
//! amounts. Nothing is length-prefixed beyond the two counts.
//!
//! ```text
//! byte 0            tag (0 commit, 1 settle, 2 cancel)
//! byte 1            direction of the native leg
//! bytes 2..10       reserve amount, little-endian
//! byte 10           N, the number of legs on side A
//! bytes 11..11+8N   the N amounts of side A, little-endian
//! byte 11+8N        M, the number of legs on side B
//! then 8M bytes     the M amounts of side B, little-endian
//! ```

use crate::error::EscrowError;
use crate::wire::{
    byte_of, le_u64, lemma_le_bytes_value, lemma_le_value_bytes, nth_byte, read_u64_le,
    u64_le_bytes, U64_LEN,
};
use vstd::prelude::*;

verus! {

/// The most legs a trade can have on one side.
pub const MAX_LEGS: usize = 9;

/// Tag of the instruction that commits a trade.
pub const TAG_INIT_ESCROW: u8 = 0;

/// Tag of the instruction that settles a trade.
pub const TAG_EXCHANGE: u8 = 1;

/// Tag of the instruction that cancels a trade.
pub const TAG_CANCEL_ESCROW: u8 = 2;

/// Bytes of an instruction that has no legs: tag, direction, reserve amount
/// and the two counts.
pub const MIN_INSTRUCTION_LEN: usize = 12;

/// The terms of a trade, as every instruction carries them.
///
/// Only the first `amount_x` entries of `lamports_x` and the first `amount_y`
/// entries of `lamports_y` are meaningful.
#[derive(Clone, Copy, Debug, PartialEq, Eq)]
pub struct TradeTerms {
    /// Size of the native leg; 0 if there is none.
    pub lamports: u64,
    /// Direction of the native leg: 1 if the initiator deposits it, 2 if the
    /// counterparty pays it, anything else for none.
    pub sol_dir: u8,
    /// Number of legs on side A, from initiator to counterparty.
    pub amount_x: u8,
    /// Number of legs on side B, from counterparty to initiator.
    pub amount_y: u8,
    /// Amounts of the legs of side A.
    pub lamports_x: [u64; 9],
    /// Amounts of the legs of side B.
    pub lamports_y: [u64; 9],
}

/// The mathematical content of `TradeTerms`.
pub struct TermsView {
    pub lamports: u64,
    pub sol_dir: u8,
    pub amount_x: u8,
    pub amount_y: u8,
    pub lamports_x: Seq<u64>,
    pub lamports_y: Seq<u64>,
}

impl TermsView {
    /// Both counts are within the limit.
    pub open spec fn in_range(self) -> bool {
        &&& self.amount_x <= MAX_LEGS
        &&& self.amount_y <= MAX_LEGS
        &&& self.lamports_x.len() == MAX_LEGS
        &&& self.lamports_y.len() == MAX_LEGS
    }

    /// Both counts are within the limit and the unused amounts are zero.
    pub open spec fn well_formed(self) -> bool {
        &&& self.in_range()
        &&& forall|i: int| self.amount_x <= i < MAX_LEGS ==> self.lamports_x[i] == 0
        &&& forall|j: int| self.amount_y <= j < MAX_LEGS ==> self.lamports_y[j] == 0
    }
}

impl View for TradeTerms {
    type V = TermsView;

    open spec fn view(&self) -> TermsView {
        TermsView {
            lamports: self.lamports,
            sol_dir: self.sol_dir,
            amount_x: self.amount_x,
            amount_y: self.amount_y,
            lamports_x: self.lamports_x@,
            lamports_y: self.lamports_y@,
        }
    }
}

/// A command to the escrow.
#[derive(Clone, Copy, Debug, PartialEq, Eq)]
pub enum EscrowInstruction {
    /// Commits a trade: records its terms and takes the initiator's assets
    /// into custody.
    InitEscrow {
        lamports: u64,
        sol_dir: u8,
        amount_x: u8,
        amount_y: u8,
        lamports_x: [u64; 9],
        lamports_y: [u64; 9],
    },
    /// Cancels a committed trade and returns the custody to the initiator.
    CancelEscrow {
        lamports: u64,
        sol_dir: u8,
        amount_x: u8,
        amount_y: u8,
        lamports_x: [u64; 9],
        lamports_y: [u64; 9],
    },
    /// Settles a committed trade: every leg moves, in both directions.
    Exchange {
        lamports: u64,
        sol_dir: u8,
        amount_x: u8,
        amount_y: u8,
        lamports_x: [u64; 9],
        lamports_y: [u64; 9],
    },
}

/// The mathematical content of an `EscrowInstruction`: its tag on the wire
/// and its terms.
pub struct InstructionView {
    pub tag: u8,
    pub terms: TermsView,
}

impl InstructionView {
    /// The tag is one of the three, the counts are within the limit and the
    /// unused amounts are zero.
    pub open spec fn well_formed(self) -> bool {
        self.tag <= TAG_CANCEL_ESCROW && self.terms.well_formed()
    }
}

impl View for EscrowInstruction {
    type V = InstructionView;

    open spec fn view(&self) -> InstructionView {
        match *self {
            EscrowInstruction::InitEscrow {
                lamports,
                sol_dir,
                amount_x,
                amount_y,
                lamports_x,
                lamports_y,
            } => InstructionView {
                tag: TAG_INIT_ESCROW,
                terms: TermsView {
                    lamports,
                    sol_dir,
                    amount_x,
                    amount_y,
                    lamports_x: lamports_x@,
                    lamports_y: lamports_y@,
                },
            },
            EscrowInstruction::Exchange {
                lamports,
                sol_dir,
                amount_x,
                amount_y,
                lamports_x,
                lamports_y,
            } => InstructionView {
                tag: TAG_EXCHANGE,
                terms: TermsView {
                    lamports,
                    sol_dir,
                    amount_x,
                    amount_y,
                    lamports_x: lamports_x@,
                    lamports_y: lamports_y@,
                },
            },
            EscrowInstruction::CancelEscrow {
                lamports,
                sol_dir,
                amount_x,
                amount_y,
                lamports_x,
                lamports_y,
            } => InstructionView {
                tag: TAG_CANCEL_ESCROW,
                terms: TermsView {
                    lamports,
                    sol_dir,
                    amount_x,
                    amount_y,
                    lamports_x: lamports_x@,
                    lamports_y: lamports_y@,
                },
            },
        }
    }
}

/// Nine amounts, of which the first `count` are read little-endian from
/// `bytes` at `start` and the rest are zero.
pub open spec fn amounts_at(bytes: Seq<u8>, start: int, count: int) -> Seq<u64> {
    Seq::new(
        MAX_LEGS as nat,
        |i: int|
            if i < count {
                le_u64(bytes.subrange(start + 8 * i, start + 8 * i + 8))
            } else {
                0u64
            },
    )
}

/// Length of the encoding of an instruction with `count_a` and `count_b` legs.
pub open spec fn encoded_len(count_a: int, count_b: int) -> int {
    MIN_INSTRUCTION_LEN + 8 * count_a + 8 * count_b
}

/// What a buffer decodes to, if it is a well-formed instruction. Bytes after
/// the last amount are ignored.
pub open spec fn decode(bytes: Seq<u8>) -> Option<InstructionView> {
    if bytes.len() < MIN_INSTRUCTION_LEN {
        None
    } else {
        let count_a = bytes[10] as int;
        if count_a > MAX_LEGS || bytes.len() < encoded_len(count_a, 0) {
            None
        } else {
            let count_b = bytes[11 + 8 * count_a] as int;
            if count_b > MAX_LEGS || bytes.len() < encoded_len(count_a, count_b) || bytes[0]
                > TAG_CANCEL_ESCROW {
                None
            } else {
                Some(
                    InstructionView {
                        tag: bytes[0],
                        terms: TermsView {
                            lamports: le_u64(bytes.subrange(2, 10)),
                            sol_dir: bytes[1],
                            amount_x: bytes[10],
                            amount_y: bytes[11 + 8 * count_a],
                            lamports_x: amounts_at(bytes, 11, count_a),
                            lamports_y: amounts_at(bytes, 12 + 8 * count_a, count_b),
                        },
                    },
                )
            }
        }
    }
}

/// The first `count` of `amounts`, eight little-endian bytes each.
pub open spec fn amount_bytes(amounts: Seq<u64>, count: int) -> Seq<u8> {
    Seq::new((8 * count) as nat, |k: int| byte_of(amounts[k / 8], k % 8))
}

/// The bytes that spell an instruction.
pub open spec fn encode(v: InstructionView) -> Seq<u8> {
    seq![v.tag, v.terms.sol_dir] + u64_le_bytes(v.terms.lamports) + seq![v.terms.amount_x]
        + amount_bytes(v.terms.lamports_x, v.terms.amount_x as int) + seq![v.terms.amount_y]
        + amount_bytes(v.terms.lamports_y, v.terms.amount_y as int)
}

impl EscrowInstruction {
    /// Decodes a buffer into an instruction.
    ///
    /// Fails with `InvalidInstruction` when the buffer is shorter than its
    /// own counts require, when a count exceeds nine, or when the tag is none
    /// of the three known ones.
    pub fn unpack(input: &[u8]) -> (r: Result<EscrowInstruction, EscrowError>)
        ensures
            match r {
                Ok(instruction) => decode(input@) == Some(instruction@),
                Err(e) => e == EscrowError::InvalidInstruction && decode(input@) is None,
            },
            r is Ok ==> r->Ok_0@.well_formed(),
    {
        if input.len() < MIN_INSTRUCTION_LEN {
            return Err(EscrowError::InvalidInstruction);
        }
        let tag = input[0];
        let sol_dir = input[1];
        let lamports = Self::unpack_amount(vstd::slice::slice_subrange(input, 2, 10))?;
        assert(input@.subrange(2, 10).subrange(0, 8) =~= input@.subrange(2, 10));

        let num_x = input[10];
        let count_x = num_x as usize;
        if count_x > MAX_LEGS || input.len() < MIN_INSTRUCTION_LEN + 8 * count_x {
            return Err(EscrowError::InvalidInstruction);
        }
        let mut lamp_x: [u64; 9] = [0; 9];
        let mut i: usize = 0;
        while i < count_x
            invariant
                i <= count_x <= MAX_LEGS,
                input.len() >= MIN_INSTRUCTION_LEN + 8 * count_x,
                forall|k: int| 0 <= k < i ==> lamp_x[k] == amounts_at(input@, 11, count_x as int)[k],
                forall|k: int| i <= k < MAX_LEGS ==> lamp_x[k] == 0,
            decreases count_x - i,
        {
            let start = 11 + 8 * i;
            let amount = Self::unpack_amount(
                vstd::slice::slice_subrange(input, start, start + U64_LEN),
            )?;
            assert(input@.subrange(start as int, start + 8).subrange(0, 8) =~= input@.subrange(
                11 + 8 * i,
                11 + 8 * i + 8,
            ));
            lamp_x[i] = amount;
            i += 1;
        }

        let num_y = input[11 + 8 * count_x];
        let count_y = num_y as usize;
        if count_y > MAX_LEGS || input.len() < MIN_INSTRUCTION_LEN + 8 * count_x + 8 * count_y {
            return Err(EscrowError::InvalidInstruction);
        }
        let base = 12 + 8 * count_x;
        let mut lamp_y: [u64; 9] = [0; 9];
        let mut j: usize = 0;
        while j < count_y
            invariant
                j <= count_y <= MAX_LEGS,
                count_x <= MAX_LEGS,
                base == 12 + 8 * count_x,
                input.len() >= MIN_INSTRUCTION_LEN + 8 * count_x + 8 * count_y,
                forall|k: int|
                    0 <= k < j ==> lamp_y[k] == amounts_at(input@, base as int, count_y as int)[k],
                forall|k: int| j <= k < MAX_LEGS ==> lamp_y[k] == 0,
            decreases count_y - j,
        {
            let start = base + 8 * j;
            let amount = Self::unpack_amount(
                vstd::slice::slice_subrange(input, start, start + U64_LEN),
            )?;
            assert(input@.subrange(start as int, start + 8).subrange(0, 8) =~= input@.subrange(
                base + 8 * j,
                base + 8 * j + 8,
            ));
            lamp_y[j] = amount;
            j += 1;
        }
        assert(lamp_x@ =~= amounts_at(input@, 11, count_x as int));
        assert(lamp_y@ =~= amounts_at(input@, base as int, count_y as int));

        if tag == TAG_INIT_ESCROW {
            Ok(
                EscrowInstruction::InitEscrow {
                    lamports,
                    sol_dir,
                    amount_x: num_x,
                    amount_y: num_y,
                    lamports_x: lamp_x,
                    lamports_y: lamp_y,
                },
            )
        } else if tag == TAG_EXCHANGE {
            Ok(
                EscrowInstruction::Exchange {
                    lamports,
                    sol_dir,
                    amount_x: num_x,
                    amount_y: num_y,
                    lamports_x: lamp_x,
                    lamports_y: lamp_y,
                },
            )
        } else if tag == TAG_CANCEL_ESCROW {
            Ok(
                EscrowInstruction::CancelEscrow {
                    lamports,
                    sol_dir,
                    amount_x: num_x,
                    amount_y: num_y,
                    lamports_x: lamp_x,
                    lamports_y: lamp_y,
                },
            )
        } else {
            Err(EscrowError::InvalidInstruction)
        }
    }

    /// Reads the little-endian amount that a slice begins with.
    pub fn unpack_amount(input: &[u8]) -> (r: Result<u64, EscrowError>)
        ensures
            match r {
                Ok(amount) => input@.len() >= U64_LEN && amount == le_u64(input@.subrange(0, 8)),
                Err(e) => input@.len() < U64_LEN && e == EscrowError::InvalidInstruction,
            },
    {
        if input.len() < U64_LEN {
            return Err(EscrowError::InvalidInstruction);
        }
        Ok(read_u64_le(input, 0))
    }

    /// The tag that stands for this instruction on the wire.
    pub fn tag(&self) -> (tag: u8)
        ensures
            tag == self@.tag,
    {
        match self {
            EscrowInstruction::InitEscrow { .. } => TAG_INIT_ESCROW,
            EscrowInstruction::Exchange { .. } => TAG_EXCHANGE,
            EscrowInstruction::CancelEscrow { .. } => TAG_CANCEL_ESCROW,
        }
    }

    /// The terms that this instruction carries.
    pub fn terms(&self) -> (terms: TradeTerms)
        ensures
            terms@ == self@.terms,
    {
        match *self {
            EscrowInstruction::InitEscrow {
                lamports,
                sol_dir,
                amount_x,
                amount_y,
                lamports_x,
                lamports_y,
            } => TradeTerms { lamports, sol_dir, amount_x, amount_y, lamports_x, lamports_y },
            EscrowInstruction::Exchange {
                lamports,
                sol_dir,
                amount_x,
                amount_y,
                lamports_x,
                lamports_y,
            } => TradeTerms { lamports, sol_dir, amount_x, amount_y, lamports_x, lamports_y },
            EscrowInstruction::CancelEscrow {
                lamports,
                sol_dir,
                amount_x,
                amount_y,
                lamports_x,
                lamports_y,
            } => TradeTerms { lamports, sol_dir, amount_x, amount_y, lamports_x, lamports_y },
        }
    }

    /// Encodes the instruction. Amounts past the two counts are not written.
    ///
    /// Fails with `InvalidInstruction` when a count exceeds nine.
    pub fn pack(&self) -> (r: Result<Vec<u8>, EscrowError>)
        ensures
            match r {
                Ok(bytes) => self@.terms.in_range() && bytes@ == encode(self@),
                Err(e) => e == EscrowError::InvalidInstruction && !self@.terms.in_range(),
            },
    {
        let terms = self.terms();
        let count_x = terms.amount_x as usize;
        let count_y = terms.amount_y as usize;
        if count_x > MAX_LEGS || count_y > MAX_LEGS {
            return Err(EscrowError::InvalidInstruction);
        }
        let mut out: Vec<u8> = Vec::new();
        out.push(self.tag());
        out.push(terms.sol_dir);
        push_amount(&mut out, terms.lamports);
        out.push(terms.amount_x);
        let ghost head = out@;
        let mut i: usize = 0;
        while i < count_x
            invariant
                i <= count_x <= MAX_LEGS,
                out@ == head + amount_bytes(terms.lamports_x@, i as int),
            decreases count_x - i,
        {
            push_amount(&mut out, terms.lamports_x[i]);
            assert(out@ =~= head + amount_bytes(terms.lamports_x@, i + 1));
            i += 1;
        }
        out.push(terms.amount_y);
        let ghost middle = out@;
        let mut j: usize = 0;
        while j < count_y
            invariant
                j <= count_y <= MAX_LEGS,
                out@ == middle + amount_bytes(terms.lamports_y@, j as int),
            decreases count_y - j,
        {
            push_amount(&mut out, terms.lamports_y[j]);
            assert(out@ =~= middle + amount_bytes(terms.lamports_y@, j + 1));
            j += 1;
        }
        assert(out@ =~= encode(self@));
        Ok(out)
    }
}

/// Appends the eight little-endian bytes of an amount.
fn push_amount(out: &mut Vec<u8>, amount: u64)
    ensures
        final(out)@ == old(out)@ + u64_le_bytes(amount),
{
    let ghost before = out@;
    let mut k: usize = 0;
    while k < U64_LEN
        invariant
            k <= U64_LEN,
            out@.len() == before.len() + k,
            forall|p: int| 0 <= p < before.len() ==> out@[p] == before[p],
            forall|p: int| 0 <= p < k ==> out@[before.len() + p] == byte_of(amount, p),
        decreases U64_LEN - k,
    {
        out.push(nth_byte(amount, k));
        k += 1;
    }
    assert(out@ =~= before + u64_le_bytes(amount));
}

/// Decoding what was encoded gives the instruction back, for every
/// instruction whose counts are at most nine and whose unused amounts are
/// zero.
pub proof fn lemma_decode_encode(v: InstructionView)
    requires
        v.well_formed(),
    ensures
        decode(encode(v)) == Some(v),
{
    let bytes = encode(v);
    let count_a = v.terms.amount_x as int;
    let count_b = v.terms.amount_y as int;
    let xs = v.terms.lamports_x;
    let ys = v.terms.lamports_y;
    assert(bytes.len() == encoded_len(count_a, count_b));
    assert(bytes[0] == v.tag);
    assert(bytes[1] == v.terms.sol_dir);
    assert(bytes[10] == v.terms.amount_x);
    assert(bytes[11 + 8 * count_a] == v.terms.amount_y);
    assert(bytes.subrange(2, 10) =~= u64_le_bytes(v.terms.lamports));
    lemma_le_bytes_value(v.terms.lamports);
    assert forall|i: int| 0 <= i < MAX_LEGS implies amounts_at(bytes, 11, count_a)[i] == xs[i] by {
        if i < count_a {
            assert(bytes.subrange(11 + 8 * i, 11 + 8 * i + 8) =~= u64_le_bytes(xs[i])) by {
                assert forall|p: int| 0 <= p < 8 implies bytes[11 + 8 * i + p] == byte_of(
                    xs[i],
                    p,
                ) by {
                    assert((8 * i + p) / 8 == i && (8 * i + p) % 8 == p);
                    assert(bytes[11 + 8 * i + p] == amount_bytes(xs, count_a)[8 * i + p]);
                }
            }
            lemma_le_bytes_value(xs[i]);
        }
    }
    assert forall|j: int| 0 <= j < MAX_LEGS implies amounts_at(bytes, 12 + 8 * count_a, count_b)[j]
        == ys[j] by {
        if j < count_b {
            let start = 12 + 8 * count_a + 8 * j;
            assert(bytes.subrange(start, start + 8) =~= u64_le_bytes(ys[j])) by {
                assert forall|p: int| 0 <= p < 8 implies bytes[start + p] == byte_of(ys[j], p) by {
                    assert((8 * j + p) / 8 == j && (8 * j + p) % 8 == p);
                    assert(bytes[start + p] == amount_bytes(ys, count_b)[8 * j + p]);
                }
            }
            lemma_le_bytes_value(ys[j]);
        }
    }
    assert(amounts_at(bytes, 11, count_a) =~= xs);
    assert(amounts_at(bytes, 12 + 8 * count_a, count_b) =~= ys);
}

/// Encoding what was decoded gives back the bytes that were read: the buffer
/// up to the end of its last amount.
pub proof fn lemma_encode_decode(bytes: Seq<u8>)
    requires
        decode(bytes) is Some,
    ensures
        ({
            let v = decode(bytes)->Some_0;
            encode(v) == bytes.subrange(
                0,
                encoded_len(v.terms.amount_x as int, v.terms.amount_y as int),
            )
        }),
{
    let v = decode(bytes)->Some_0;
    let count_a = v.terms.amount_x as int;
    let count_b = v.terms.amount_y as int;
    let image = encode(v);
    let read = bytes.subrange(0, encoded_len(count_a, count_b));
    assert(image.len() == read.len());
    lemma_le_value_bytes(bytes.subrange(2, 10));
    assert forall|k: int| 0 <= k < image.len() implies image[k] == read[k] by {
        if 2 <= k < 10 {
            assert(image[k] == u64_le_bytes(v.terms.lamports)[k - 2]);
            assert(bytes.subrange(2, 10)[k - 2] == bytes[k]);
        } else if 11 <= k < 11 + 8 * count_a {
            let i = (k - 11) / 8;
            let p = (k - 11) % 8;
            let slot = bytes.subrange(11 + 8 * i, 11 + 8 * i + 8);
            lemma_le_value_bytes(slot);
            assert(image[k] == amount_bytes(v.terms.lamports_x, count_a)[k - 11]);
            assert(v.terms.lamports_x[i] == le_u64(slot));
            assert(u64_le_bytes(le_u64(slot))[p] == slot[p]);
        } else if 12 + 8 * count_a <= k {
            let start = 12 + 8 * count_a;
            let j = (k - start) / 8;
            let p = (k - start) % 8;
            let slot = bytes.subrange(start + 8 * j, start + 8 * j + 8);
            lemma_le_value_bytes(slot);
            assert(image[k] == amount_bytes(v.terms.lamports_y, count_b)[k - start]);
            assert(v.terms.lamports_y[j] == le_u64(slot));
            assert(u64_le_bytes(le_u64(slot))[p] == slot[p]);
        }
    }
    assert(image =~= read);
}

/// A buffer that declares more than nine legs on either side decodes to
/// nothing.
pub proof fn lemma_excess_legs_rejected(bytes: Seq<u8>)
    ensures
        bytes.len() > 10 && bytes[10] > MAX_LEGS ==> decode(bytes) is None,
        bytes.len() > 10 && bytes.len() > 11 + 8 * bytes[10] && bytes[11 + 8 * bytes[10]]
            > MAX_LEGS ==> decode(bytes) is None,
{
}

/// Whatever decodes is well formed: its counts are at most nine and its
/// unused amounts are zero.
pub proof fn lemma_decode_well_formed(bytes: Seq<u8>)
    ensures
        decode(bytes) is Some ==> decode(bytes)->Some_0.well_formed(),
{
}

} // verus!
