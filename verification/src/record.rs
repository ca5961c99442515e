//! The escrow record and its binary layout.
//!
//! One record is stored per escrow account. Every integer wider than a byte
//! is big-endian.
//!
//! ```text
//! offset 0        status (0 uninitialized, 1 committed)
//! offset 1        number of legs on side A
//! offset 2        number of legs on side B
//! offset 3        direction of the native leg
//! offset 4..12    reserve amount
//! offset 12..44   key of the initiator
//! offset 44..76   key of the counterparty
//! then, for each leg of side A, 104 bytes:
//!     initiator's asset account, counterparty's asset account,
//!     custody asset account, amount
//! then, for each leg of side B, 72 bytes:
//!     initiator's asset account, counterparty's asset account, amount
//! ```
//!
//! The codec does not check the capacity of the buffer it is given: storage
//! is provisioned once, for the largest record, and callers vouch for that.

use crate::instruction::MAX_LEGS;
use crate::key::{Key, KEY_LEN};
use crate::wire::{
    be_u64, byte_of, lemma_be_bytes_value, lemma_be_value_bytes, nth_byte, read_u64_be,
    u64_be_bytes, U64_LEN,
};
use vstd::prelude::*;

verus! {

/// Status byte of storage that holds no commitment.
pub const STATUS_UNINITIALIZED: u8 = 0;

/// Status byte of a committed record.
pub const STATUS_COMMITTED: u8 = 1;

/// Bytes before the first leg.
pub const HEADER_LEN: usize = 76;

/// Bytes of one leg of side A.
pub const LEG_A_LEN: usize = 104;

/// Bytes of one leg of side B.
pub const LEG_B_LEN: usize = 72;

/// Bytes of a record with nine legs on each side: what escrow storage is
/// provisioned for.
pub const MAX_RECORD_LEN: usize = 1660;

/// A leg of side A: an asset lot that the initiator hands to custody at
/// commitment and that goes to the counterparty at settlement.
#[derive(Clone, Copy, Debug, PartialEq, Eq)]
pub struct LegA {
    pub initiator_account: Key,
    pub counterparty_account: Key,
    pub custody_account: Key,
    pub amount: u64,
}

/// A leg of side B: an asset lot that the counterparty pays the initiator at
/// settlement.
#[derive(Clone, Copy, Debug, PartialEq, Eq)]
pub struct LegB {
    pub initiator_account: Key,
    pub counterparty_account: Key,
    pub amount: u64,
}

/// The fields of an escrow record.
#[derive(Debug, PartialEq, Eq)]
pub struct EscrowRecord {
    pub status: u8,
    pub native_leg_direction: u8,
    pub reserve_amount: u64,
    pub initiator_key: Key,
    pub counterparty_key: Key,
    pub legs_a: Vec<LegA>,
    pub legs_b: Vec<LegB>,
}

/// The mathematical content of a `LegA`.
pub struct LegAView {
    pub initiator_account: Seq<u8>,
    pub counterparty_account: Seq<u8>,
    pub custody_account: Seq<u8>,
    pub amount: u64,
}

/// The mathematical content of a `LegB`.
pub struct LegBView {
    pub initiator_account: Seq<u8>,
    pub counterparty_account: Seq<u8>,
    pub amount: u64,
}

/// The mathematical content of an `EscrowRecord`.
pub struct RecordView {
    pub status: u8,
    pub native_leg_direction: u8,
    pub reserve_amount: u64,
    pub initiator_key: Seq<u8>,
    pub counterparty_key: Seq<u8>,
    pub legs_a: Seq<LegAView>,
    pub legs_b: Seq<LegBView>,
}

impl View for LegA {
    type V = LegAView;

    open spec fn view(&self) -> LegAView {
        LegAView {
            initiator_account: self.initiator_account@,
            counterparty_account: self.counterparty_account@,
            custody_account: self.custody_account@,
            amount: self.amount,
        }
    }
}

impl View for LegB {
    type V = LegBView;

    open spec fn view(&self) -> LegBView {
        LegBView {
            initiator_account: self.initiator_account@,
            counterparty_account: self.counterparty_account@,
            amount: self.amount,
        }
    }
}

impl View for EscrowRecord {
    type V = RecordView;

    open spec fn view(&self) -> RecordView {
        RecordView {
            status: self.status,
            native_leg_direction: self.native_leg_direction,
            reserve_amount: self.reserve_amount,
            initiator_key: self.initiator_key@,
            counterparty_key: self.counterparty_key@,
            legs_a: Seq::new(self.legs_a@.len(), |i: int| self.legs_a@[i]@),
            legs_b: Seq::new(self.legs_b@.len(), |j: int| self.legs_b@[j]@),
        }
    }
}

impl LegAView {
    /// Every key has its 32 bytes.
    pub open spec fn well_formed(self) -> bool {
        &&& self.initiator_account.len() == KEY_LEN
        &&& self.counterparty_account.len() == KEY_LEN
        &&& self.custody_account.len() == KEY_LEN
    }
}

impl LegBView {
    /// Every key has its 32 bytes.
    pub open spec fn well_formed(self) -> bool {
        &&& self.initiator_account.len() == KEY_LEN
        &&& self.counterparty_account.len() == KEY_LEN
    }
}

impl RecordView {
    /// At most nine legs on each side, and every key has its 32 bytes.
    pub open spec fn well_formed(self) -> bool {
        &&& self.legs_a.len() <= MAX_LEGS
        &&& self.legs_b.len() <= MAX_LEGS
        &&& self.initiator_key.len() == KEY_LEN
        &&& self.counterparty_key.len() == KEY_LEN
        &&& forall|i: int| 0 <= i < self.legs_a.len() ==> (#[trigger] self.legs_a[i]).well_formed()
        &&& forall|j: int| 0 <= j < self.legs_b.len() ==> (#[trigger] self.legs_b[j]).well_formed()
    }
}

/// Length of a record with `count_a` and `count_b` legs.
pub open spec fn record_len(count_a: int, count_b: int) -> int {
    HEADER_LEN + LEG_A_LEN * count_a + LEG_B_LEN * count_b
}

/// Offset of leg `i` of side A.
pub open spec fn leg_a_offset(i: int) -> int {
    HEADER_LEN + LEG_A_LEN * i
}

/// Offset of leg `j` of side B in a record with `count_a` legs on side A.
pub open spec fn leg_b_offset(count_a: int, j: int) -> int {
    HEADER_LEN + LEG_A_LEN * count_a + LEG_B_LEN * j
}

/// The leg of side A stored at `offset`.
pub open spec fn leg_a_at(bytes: Seq<u8>, offset: int) -> LegAView {
    LegAView {
        initiator_account: bytes.subrange(offset, offset + 32),
        counterparty_account: bytes.subrange(offset + 32, offset + 64),
        custody_account: bytes.subrange(offset + 64, offset + 96),
        amount: be_u64(bytes.subrange(offset + 96, offset + 104)),
    }
}

/// The leg of side B stored at `offset`.
pub open spec fn leg_b_at(bytes: Seq<u8>, offset: int) -> LegBView {
    LegBView {
        initiator_account: bytes.subrange(offset, offset + 32),
        counterparty_account: bytes.subrange(offset + 32, offset + 64),
        amount: be_u64(bytes.subrange(offset + 64, offset + 72)),
    }
}

/// The record that a buffer holds, field by field at the offsets of the
/// layout.
pub open spec fn stored_record(bytes: Seq<u8>) -> RecordView
    recommends
        bytes.len() >= HEADER_LEN,
        bytes.len() >= record_len(bytes[1] as int, bytes[2] as int),
{
    RecordView {
        status: bytes[0],
        native_leg_direction: bytes[3],
        reserve_amount: be_u64(bytes.subrange(4, 12)),
        initiator_key: bytes.subrange(12, 44),
        counterparty_key: bytes.subrange(44, 76),
        legs_a: Seq::new(bytes[1] as nat, |i: int| leg_a_at(bytes, leg_a_offset(i))),
        legs_b: Seq::new(
            bytes[2] as nat,
            |j: int| leg_b_at(bytes, leg_b_offset(bytes[1] as int, j)),
        ),
    }
}

/// The 104 bytes of a leg of side A.
pub open spec fn leg_a_bytes(leg: LegAView) -> Seq<u8> {
    leg.initiator_account + leg.counterparty_account + leg.custody_account + u64_be_bytes(
        leg.amount,
    )
}

/// The 72 bytes of a leg of side B.
pub open spec fn leg_b_bytes(leg: LegBView) -> Seq<u8> {
    leg.initiator_account + leg.counterparty_account + u64_be_bytes(leg.amount)
}

/// The legs of side A, one after the other.
pub open spec fn legs_a_bytes(legs: Seq<LegAView>) -> Seq<u8> {
    Seq::new(
        (LEG_A_LEN * legs.len()) as nat,
        |k: int| leg_a_bytes(legs[k / (LEG_A_LEN as int)])[k % (LEG_A_LEN as int)],
    )
}

/// The legs of side B, one after the other.
pub open spec fn legs_b_bytes(legs: Seq<LegBView>) -> Seq<u8> {
    Seq::new(
        (LEG_B_LEN * legs.len()) as nat,
        |k: int| leg_b_bytes(legs[k / (LEG_B_LEN as int)])[k % (LEG_B_LEN as int)],
    )
}

/// The bytes of a record: the header, then the legs of side A, then those of
/// side B.
pub open spec fn record_bytes(r: RecordView) -> Seq<u8> {
    seq![r.status, r.legs_a.len() as u8, r.legs_b.len() as u8, r.native_leg_direction]
        + u64_be_bytes(r.reserve_amount) + r.initiator_key + r.counterparty_key + legs_a_bytes(
        r.legs_a,
    ) + legs_b_bytes(r.legs_b)
}

/// `buffer` with `bytes` written over it from offset `at` on.
pub open spec fn overwrite(buffer: Seq<u8>, at: int, bytes: Seq<u8>) -> Seq<u8> {
    Seq::new(
        buffer.len(),
        |k: int|
            if at <= k < at + bytes.len() {
                bytes[k - at]
            } else {
                buffer[k]
            },
    )
}

/// A cursor that writes a buffer from left to right. Every write advances
/// it; nothing behind it is written again.
pub struct RecordWriter {
    pub buffer: Vec<u8>,
    pub position: usize,
}

impl RecordWriter {
    /// A cursor at the start of `buffer`.
    pub fn new(buffer: Vec<u8>) -> (writer: RecordWriter)
        ensures
            writer.buffer@ == buffer@,
            writer.position == 0,
    {
        RecordWriter { buffer, position: 0 }
    }

    /// Writes one byte.
    pub fn write_u8(&mut self, value: u8)
        requires
            old(self).position < old(self).buffer@.len(),
        ensures
            final(self).buffer@ == old(self).buffer@.update(old(self).position as int, value),
            final(self).position == old(self).position + 1,
    {
        let capacity = self.buffer.len();
        self.buffer[self.position] = value;
        assert(self.position < capacity);
        self.position = self.position + 1;
    }

    /// Writes an amount, most significant byte first.
    pub fn write_u64_be(&mut self, value: u64)
        requires
            old(self).position + U64_LEN <= old(self).buffer@.len(),
        ensures
            final(self).buffer@ == overwrite(
                old(self).buffer@,
                old(self).position as int,
                u64_be_bytes(value),
            ),
            final(self).position == old(self).position + U64_LEN,
    {
        let ghost before = self.buffer@;
        let start = self.position;
        let mut k: usize = 0;
        while k < U64_LEN
            invariant
                k <= U64_LEN,
                start + U64_LEN <= before.len(),
                self.position == start + k,
                self.buffer@.len() == before.len(),
                forall|p: int|
                    0 <= p < before.len() ==> self.buffer@[p] == if start <= p < start + k {
                        byte_of(value, 7 - (p - start))
                    } else {
                        before[p]
                    },
            decreases U64_LEN - k,
        {
            self.write_u8(nth_byte(value, 7 - k));
            k += 1;
        }
        assert(self.buffer@ =~= overwrite(before, start as int, u64_be_bytes(value)));
    }

    /// Writes the 32 bytes of a key.
    pub fn write_pubkey(&mut self, key: &Key)
        requires
            old(self).position + KEY_LEN <= old(self).buffer@.len(),
        ensures
            final(self).buffer@ == overwrite(old(self).buffer@, old(self).position as int, key@),
            final(self).position == old(self).position + KEY_LEN,
    {
        let ghost before = self.buffer@;
        let start = self.position;
        let mut k: usize = 0;
        while k < KEY_LEN
            invariant
                k <= KEY_LEN,
                start + KEY_LEN <= before.len(),
                self.position == start + k,
                self.buffer@.len() == before.len(),
                forall|p: int|
                    0 <= p < before.len() ==> self.buffer@[p] == if start <= p < start + k {
                        key@[p - start]
                    } else {
                        before[p]
                    },
            decreases KEY_LEN - k,
        {
            self.write_u8(key.bytes[k]);
            k += 1;
        }
        assert(self.buffer@ =~= overwrite(before, start as int, key@));
    }

    /// Gives the buffer back.
    pub fn finish(self) -> (buffer: Vec<u8>)
        ensures
            buffer@ == self.buffer@,
    {
        self.buffer
    }
}

/// A cursor that reads a buffer from left to right.
pub struct RecordReader<'a> {
    pub buffer: &'a [u8],
    pub position: usize,
}

impl<'a> RecordReader<'a> {
    /// A cursor at the start of `buffer`.
    pub fn new(buffer: &'a [u8]) -> (reader: RecordReader<'a>)
        ensures
            reader.buffer@ == buffer@,
            reader.position == 0,
    {
        RecordReader { buffer, position: 0 }
    }

    /// Reads one byte.
    pub fn read_u8(&mut self) -> (value: u8)
        requires
            old(self).position < old(self).buffer@.len(),
        ensures
            value == old(self).buffer@[old(self).position as int],
            final(self).buffer@ == old(self).buffer@,
            final(self).position == old(self).position + 1,
    {
        let capacity = self.buffer.len();
        let value = self.buffer[self.position];
        assert(self.position < capacity);
        self.position = self.position + 1;
        value
    }

    /// Reads an amount, most significant byte first.
    pub fn read_u64_be(&mut self) -> (value: u64)
        requires
            old(self).position + U64_LEN <= old(self).buffer@.len(),
        ensures
            value == be_u64(
                old(self).buffer@.subrange(
                    old(self).position as int,
                    old(self).position + U64_LEN,
                ),
            ),
            final(self).buffer@ == old(self).buffer@,
            final(self).position == old(self).position + U64_LEN,
    {
        let capacity = self.buffer.len();
        let value = read_u64_be(self.buffer, self.position);
        assert(self.position + U64_LEN <= capacity);
        self.position = self.position + U64_LEN;
        value
    }

    /// Reads the 32 bytes of a key.
    pub fn read_pubkey(&mut self) -> (key: Key)
        requires
            old(self).position + KEY_LEN <= old(self).buffer@.len(),
        ensures
            key@ == old(self).buffer@.subrange(
                old(self).position as int,
                old(self).position + KEY_LEN,
            ),
            final(self).buffer@ == old(self).buffer@,
            final(self).position == old(self).position + KEY_LEN,
    {
        let capacity = self.buffer.len();
        let key = Key::read_from(self.buffer, self.position);
        assert(self.position + KEY_LEN <= capacity);
        self.position = self.position + KEY_LEN;
        key
    }
}

/// Writing first `head` and then, right behind it, `tail` is writing both
/// at once.
pub proof fn lemma_overwrite_append(buffer: Seq<u8>, head: Seq<u8>, tail: Seq<u8>)
    requires
        head.len() + tail.len() <= buffer.len(),
    ensures
        overwrite(overwrite(buffer, 0, head), head.len() as int, tail) == overwrite(
            buffer,
            0,
            head + tail,
        ),
{
    assert(overwrite(overwrite(buffer, 0, head), head.len() as int, tail) =~= overwrite(
        buffer,
        0,
        head + tail,
    ));
}

/// The bytes of the first `i + 1` legs are those of the first `i` followed
/// by those of leg `i`.
pub proof fn lemma_legs_a_bytes_step(legs: Seq<LegAView>, i: int)
    requires
        0 <= i < legs.len(),
        legs[i].well_formed(),
    ensures
        legs_a_bytes(legs.take(i + 1)) == legs_a_bytes(legs.take(i)) + leg_a_bytes(legs[i]),
{
    let whole = legs_a_bytes(legs.take(i + 1));
    let parts = legs_a_bytes(legs.take(i)) + leg_a_bytes(legs[i]);
    assert(whole.len() == parts.len());
    assert forall|k: int| 0 <= k < whole.len() implies whole[k] == parts[k] by {
        if k < 104 * i {
            assert(k / 104 < i);
        } else {
            assert(k / 104 == i && k % 104 == k - 104 * i);
        }
    }
    assert(whole =~= parts);
}

/// The bytes of the first `j + 1` legs are those of the first `j` followed
/// by those of leg `j`.
pub proof fn lemma_legs_b_bytes_step(legs: Seq<LegBView>, j: int)
    requires
        0 <= j < legs.len(),
        legs[j].well_formed(),
    ensures
        legs_b_bytes(legs.take(j + 1)) == legs_b_bytes(legs.take(j)) + leg_b_bytes(legs[j]),
{
    let whole = legs_b_bytes(legs.take(j + 1));
    let parts = legs_b_bytes(legs.take(j)) + leg_b_bytes(legs[j]);
    assert(whole.len() == parts.len());
    assert forall|k: int| 0 <= k < whole.len() implies whole[k] == parts[k] by {
        if k < 72 * j {
            assert(k / 72 < j);
        } else {
            assert(k / 72 == j && k % 72 == k - 72 * j);
        }
    }
    assert(whole =~= parts);
}

/// Byte `p` of leg `i` is byte `104 * i + p` of the legs of side A.
proof fn lemma_slot_a(i: int, p: int)
    requires
        0 <= i,
        0 <= p < 104,
    ensures
        (104 * i + p) / 104 == i,
        (104 * i + p) % 104 == p,
{
}

/// Byte `p` of leg `j` is byte `72 * j + p` of the legs of side B.
proof fn lemma_slot_b(j: int, p: int)
    requires
        0 <= j,
        0 <= p < 72,
    ensures
        (72 * j + p) / 72 == j,
        (72 * j + p) % 72 == p,
{
}

/// The header of a record lies at the start of its bytes.
pub proof fn lemma_header_in_record_bytes(r: RecordView)
    requires
        r.well_formed(),
    ensures
        record_bytes(r).len() == record_len(r.legs_a.len() as int, r.legs_b.len() as int),
        record_bytes(r)[0] == r.status,
        record_bytes(r)[1] == r.legs_a.len(),
        record_bytes(r)[2] == r.legs_b.len(),
        record_bytes(r)[3] == r.native_leg_direction,
        record_bytes(r).subrange(4, 12) == u64_be_bytes(r.reserve_amount),
        record_bytes(r).subrange(12, 44) == r.initiator_key,
        record_bytes(r).subrange(44, 76) == r.counterparty_key,
{
    let image = record_bytes(r);
    assert(image.subrange(4, 12) =~= u64_be_bytes(r.reserve_amount));
    assert(image.subrange(12, 44) =~= r.initiator_key);
    assert(image.subrange(44, 76) =~= r.counterparty_key);
}

/// Leg `i` of side A lies at its offset in the bytes of a record.
pub proof fn lemma_leg_a_in_record_bytes(r: RecordView, i: int)
    requires
        r.well_formed(),
        0 <= i < r.legs_a.len(),
    ensures
        record_bytes(r).subrange(leg_a_offset(i), leg_a_offset(i) + 104) == leg_a_bytes(
            r.legs_a[i],
        ),
{
    let image = record_bytes(r);
    let at = leg_a_offset(i);
    let leg = r.legs_a[i];
    assert(leg.well_formed());
    assert(leg_a_bytes(leg).len() == 104);
    assert forall|p: int| 0 <= p < 104 implies image[at + p] == leg_a_bytes(leg)[p] by {
        lemma_slot_a(i, p);
        assert(image[at + p] == legs_a_bytes(r.legs_a)[104 * i + p]);
    }
    assert(image.subrange(at, at + 104) =~= leg_a_bytes(leg));
}

/// Leg `j` of side B lies at its offset in the bytes of a record.
pub proof fn lemma_leg_b_in_record_bytes(r: RecordView, j: int)
    requires
        r.well_formed(),
        0 <= j < r.legs_b.len(),
    ensures
        record_bytes(r).subrange(
            leg_b_offset(r.legs_a.len() as int, j),
            leg_b_offset(r.legs_a.len() as int, j) + 72,
        ) == leg_b_bytes(r.legs_b[j]),
{
    let image = record_bytes(r);
    let at = leg_b_offset(r.legs_a.len() as int, j);
    let leg = r.legs_b[j];
    assert(leg.well_formed());
    assert(leg_b_bytes(leg).len() == 72);
    assert forall|p: int| 0 <= p < 72 implies image[at + p] == leg_b_bytes(leg)[p] by {
        lemma_slot_b(j, p);
        assert(image[at + p] == legs_b_bytes(r.legs_b)[72 * j + p]);
    }
    assert(image.subrange(at, at + 72) =~= leg_b_bytes(leg));
}

/// Bytes that hold the bytes of a leg of side A at `at` hold that leg there.
pub proof fn lemma_leg_a_read_back(bytes: Seq<u8>, at: int, leg: LegAView)
    requires
        leg.well_formed(),
        0 <= at,
        at + 104 <= bytes.len(),
        bytes.subrange(at, at + 104) == leg_a_bytes(leg),
    ensures
        leg_a_at(bytes, at) == leg,
{
    let window = bytes.subrange(at, at + 104);
    assert(bytes.subrange(at, at + 32) =~= window.subrange(0, 32));
    assert(bytes.subrange(at + 32, at + 64) =~= window.subrange(32, 64));
    assert(bytes.subrange(at + 64, at + 96) =~= window.subrange(64, 96));
    assert(bytes.subrange(at + 96, at + 104) =~= window.subrange(96, 104));
    assert(window.subrange(0, 32) =~= leg.initiator_account);
    assert(window.subrange(32, 64) =~= leg.counterparty_account);
    assert(window.subrange(64, 96) =~= leg.custody_account);
    assert(window.subrange(96, 104) =~= u64_be_bytes(leg.amount));
    lemma_be_bytes_value(leg.amount);
}

/// Bytes that hold the bytes of a leg of side B at `at` hold that leg there.
pub proof fn lemma_leg_b_read_back(bytes: Seq<u8>, at: int, leg: LegBView)
    requires
        leg.well_formed(),
        0 <= at,
        at + 72 <= bytes.len(),
        bytes.subrange(at, at + 72) == leg_b_bytes(leg),
    ensures
        leg_b_at(bytes, at) == leg,
{
    let window = bytes.subrange(at, at + 72);
    assert(bytes.subrange(at, at + 32) =~= window.subrange(0, 32));
    assert(bytes.subrange(at + 32, at + 64) =~= window.subrange(32, 64));
    assert(bytes.subrange(at + 64, at + 72) =~= window.subrange(64, 72));
    assert(window.subrange(0, 32) =~= leg.initiator_account);
    assert(window.subrange(32, 64) =~= leg.counterparty_account);
    assert(window.subrange(64, 72) =~= u64_be_bytes(leg.amount));
    lemma_be_bytes_value(leg.amount);
}

/// The bytes of the leg of side A that bytes hold at `at` are those bytes.
pub proof fn lemma_leg_a_written_back(bytes: Seq<u8>, at: int)
    requires
        0 <= at,
        at + 104 <= bytes.len(),
    ensures
        leg_a_bytes(leg_a_at(bytes, at)) == bytes.subrange(at, at + 104),
{
    lemma_be_value_bytes(bytes.subrange(at + 96, at + 104));
    assert(leg_a_bytes(leg_a_at(bytes, at)) =~= bytes.subrange(at, at + 104));
}

/// The bytes of the leg of side B that bytes hold at `at` are those bytes.
pub proof fn lemma_leg_b_written_back(bytes: Seq<u8>, at: int)
    requires
        0 <= at,
        at + 72 <= bytes.len(),
    ensures
        leg_b_bytes(leg_b_at(bytes, at)) == bytes.subrange(at, at + 72),
{
    lemma_be_value_bytes(bytes.subrange(at + 64, at + 72));
    assert(leg_b_bytes(leg_b_at(bytes, at)) =~= bytes.subrange(at, at + 72));
}

/// A buffer over which a record was written holds that record.
pub proof fn lemma_stored_record_of_bytes(r: RecordView, buffer: Seq<u8>)
    requires
        r.well_formed(),
        buffer.len() >= record_len(r.legs_a.len() as int, r.legs_b.len() as int),
    ensures
        stored_record(overwrite(buffer, 0, record_bytes(r))) == r,
{
    let image = record_bytes(r);
    let b = overwrite(buffer, 0, image);
    let count_a = r.legs_a.len() as int;
    let count_b = r.legs_b.len() as int;
    let got = stored_record(b);
    lemma_header_in_record_bytes(r);
    assert(b.subrange(0, image.len() as int) =~= image);
    assert(b.subrange(4, 12) =~= image.subrange(4, 12));
    assert(b.subrange(12, 44) =~= image.subrange(12, 44));
    assert(b.subrange(44, 76) =~= image.subrange(44, 76));
    lemma_be_bytes_value(r.reserve_amount);
    assert(got.legs_a.len() == count_a);
    assert(got.legs_b.len() == count_b);
    assert forall|i: int| 0 <= i < count_a implies got.legs_a[i] == r.legs_a[i] by {
        let at = leg_a_offset(i);
        lemma_leg_a_in_record_bytes(r, i);
        assert(b.subrange(at, at + 104) =~= image.subrange(at, at + 104));
        lemma_leg_a_read_back(b, at, r.legs_a[i]);
    }
    assert forall|j: int| 0 <= j < count_b implies got.legs_b[j] == r.legs_b[j] by {
        let at = leg_b_offset(count_a, j);
        lemma_leg_b_in_record_bytes(r, j);
        assert(b.subrange(at, at + 72) =~= image.subrange(at, at + 72));
        lemma_leg_b_read_back(b, at, r.legs_b[j]);
    }
    assert(got.legs_a =~= r.legs_a);
    assert(got.legs_b =~= r.legs_b);
}

/// The record that a buffer holds is well formed where its counts are at
/// most nine and the buffer is as long as the record.
pub proof fn lemma_stored_record_well_formed(buffer: Seq<u8>)
    requires
        buffer[1] <= MAX_LEGS,
        buffer[2] <= MAX_LEGS,
        buffer.len() >= record_len(buffer[1] as int, buffer[2] as int),
    ensures
        stored_record(buffer).well_formed(),
{
}

/// The bytes of the record that a buffer holds are the bytes of the buffer,
/// as far as the record reaches.
pub proof fn lemma_bytes_of_stored_record(buffer: Seq<u8>)
    requires
        buffer[1] <= MAX_LEGS,
        buffer[2] <= MAX_LEGS,
        buffer.len() >= record_len(buffer[1] as int, buffer[2] as int),
    ensures
        record_bytes(stored_record(buffer)) == buffer.subrange(
            0,
            record_len(buffer[1] as int, buffer[2] as int),
        ),
{
    let r = stored_record(buffer);
    let count_a = buffer[1] as int;
    let count_b = buffer[2] as int;
    let image = record_bytes(r);
    let held = buffer.subrange(0, record_len(count_a, count_b));
    lemma_stored_record_well_formed(buffer);
    lemma_header_in_record_bytes(r);
    lemma_be_value_bytes(buffer.subrange(4, 12));
    assert forall|k: int| 0 <= k < image.len() implies image[k] == held[k] by {
        if 4 <= k < 12 {
            assert(image[k] == image.subrange(4, 12)[k - 4]);
            assert(buffer.subrange(4, 12)[k - 4] == buffer[k]);
        } else if 12 <= k < 44 {
            assert(image[k] == image.subrange(12, 44)[k - 12]);
            assert(buffer.subrange(12, 44)[k - 12] == buffer[k]);
        } else if 44 <= k < 76 {
            assert(image[k] == image.subrange(44, 76)[k - 44]);
            assert(buffer.subrange(44, 76)[k - 44] == buffer[k]);
        } else if 76 <= k < 76 + 104 * count_a {
            let i = (k - 76) / 104;
            let at = leg_a_offset(i);
            lemma_leg_a_in_record_bytes(r, i);
            lemma_leg_a_written_back(buffer, at);
            assert(image[k] == image.subrange(at, at + 104)[k - at]);
            assert(buffer.subrange(at, at + 104)[k - at] == buffer[k]);
        } else if 76 + 104 * count_a <= k {
            let j = (k - 76 - 104 * count_a) / 72;
            let at = leg_b_offset(count_a, j);
            lemma_leg_b_in_record_bytes(r, j);
            lemma_leg_b_written_back(buffer, at);
            assert(image[k] == image.subrange(at, at + 72)[k - at]);
            assert(buffer.subrange(at, at + 72)[k - at] == buffer[k]);
        }
    }
    assert(image =~= held);
}

/// Writes a record at the start of a buffer, in one pass from left to right.
/// Bytes behind the record are left as they were.
pub fn write_record(buffer: &mut Vec<u8>, record: &EscrowRecord)
    requires
        record.legs_a@.len() <= MAX_LEGS,
        record.legs_b@.len() <= MAX_LEGS,
        old(buffer)@.len() >= record_len(record.legs_a@.len() as int, record.legs_b@.len() as int),
    ensures
        final(buffer)@ == overwrite(old(buffer)@, 0, record_bytes(record@)),
        stored_record(final(buffer)@) == record@,
{
    let ghost before = buffer@;
    let ghost view = record@;
    let count_a = record.legs_a.len();
    let count_b = record.legs_b.len();
    let mut taken: Vec<u8> = Vec::new();
    core::mem::swap(buffer, &mut taken);
    let mut writer = RecordWriter::new(taken);
    writer.write_u8(record.status);
    writer.write_u8(count_a as u8);
    writer.write_u8(count_b as u8);
    writer.write_u8(record.native_leg_direction);
    writer.write_u64_be(record.reserve_amount);
    writer.write_pubkey(&record.initiator_key);
    writer.write_pubkey(&record.counterparty_key);
    let ghost header = seq![view.status, count_a as u8, count_b as u8, view.native_leg_direction]
        + u64_be_bytes(view.reserve_amount) + view.initiator_key + view.counterparty_key;
    assert(writer.buffer@ =~= overwrite(before, 0, header));
    assert(legs_a_bytes(view.legs_a.take(0)) =~= Seq::<u8>::empty());
    assert(header + legs_a_bytes(view.legs_a.take(0)) =~= header);

    let mut i: usize = 0;
    while i < count_a
        invariant
            i <= count_a <= MAX_LEGS,
            count_b <= MAX_LEGS,
            count_a == record.legs_a@.len(),
            count_b == record.legs_b@.len(),
            view == record@,
            header.len() == HEADER_LEN,
            before.len() >= record_len(count_a as int, count_b as int),
            writer.position == HEADER_LEN + LEG_A_LEN * i,
            writer.buffer@ == overwrite(before, 0, header + legs_a_bytes(view.legs_a.take(i as int))),
        decreases count_a - i,
    {
        let leg = &record.legs_a[i];
        let ghost done = header + legs_a_bytes(view.legs_a.take(i as int));
        let ghost start = writer.buffer@;
        writer.write_pubkey(&leg.initiator_account);
        writer.write_pubkey(&leg.counterparty_account);
        writer.write_pubkey(&leg.custody_account);
        writer.write_u64_be(leg.amount);
        proof {
            assert(view.legs_a[i as int] == leg@);
            assert(writer.buffer@ =~= overwrite(start, done.len() as int, leg_a_bytes(leg@)));
            lemma_overwrite_append(before, done, leg_a_bytes(leg@));
            lemma_legs_a_bytes_step(view.legs_a, i as int);
            assert(done + leg_a_bytes(leg@) =~= header + legs_a_bytes(
                view.legs_a.take(i as int + 1),
            ));
        }
        i += 1;
    }
    assert(view.legs_a.take(count_a as int) =~= view.legs_a);
    let ghost front = header + legs_a_bytes(view.legs_a);
    assert(legs_b_bytes(view.legs_b.take(0)) =~= Seq::<u8>::empty());
    assert(front + legs_b_bytes(view.legs_b.take(0)) =~= front);

    let mut j: usize = 0;
    while j < count_b
        invariant
            j <= count_b <= MAX_LEGS,
            count_a <= MAX_LEGS,
            count_a == record.legs_a@.len(),
            count_b == record.legs_b@.len(),
            view == record@,
            front.len() == HEADER_LEN + LEG_A_LEN * count_a,
            before.len() >= record_len(count_a as int, count_b as int),
            writer.position == HEADER_LEN + LEG_A_LEN * count_a + LEG_B_LEN * j,
            writer.buffer@ == overwrite(before, 0, front + legs_b_bytes(view.legs_b.take(j as int))),
        decreases count_b - j,
    {
        let leg = &record.legs_b[j];
        let ghost done = front + legs_b_bytes(view.legs_b.take(j as int));
        let ghost start = writer.buffer@;
        writer.write_pubkey(&leg.initiator_account);
        writer.write_pubkey(&leg.counterparty_account);
        writer.write_u64_be(leg.amount);
        proof {
            assert(view.legs_b[j as int] == leg@);
            assert(writer.buffer@ =~= overwrite(start, done.len() as int, leg_b_bytes(leg@)));
            lemma_overwrite_append(before, done, leg_b_bytes(leg@));
            lemma_legs_b_bytes_step(view.legs_b, j as int);
            assert(done + leg_b_bytes(leg@) =~= front + legs_b_bytes(
                view.legs_b.take(j as int + 1),
            ));
        }
        j += 1;
    }
    proof {
        assert(view.legs_b.take(count_b as int) =~= view.legs_b);
        assert(front + legs_b_bytes(view.legs_b) =~= record_bytes(view));
        lemma_stored_record_of_bytes(view, before);
    }
    *buffer = writer.finish();
}

/// Reads the record that a buffer holds, walking it as `write_record` does.
///
/// Gives `None` when the buffer declares more than nine legs on a side, which
/// no record has.
pub fn read_record(buffer: &[u8]) -> (r: Option<EscrowRecord>)
    requires
        buffer@.len() >= MAX_RECORD_LEN,
    ensures
        match r {
            Some(record) => {
                &&& buffer@[1] <= MAX_LEGS
                &&& buffer@[2] <= MAX_LEGS
                &&& record@ == stored_record(buffer@)
                &&& record@.well_formed()
            },
            None => buffer@[1] > MAX_LEGS || buffer@[2] > MAX_LEGS,
        },
{
    let mut reader = RecordReader::new(buffer);
    let status = reader.read_u8();
    let count_a = reader.read_u8() as usize;
    let count_b = reader.read_u8() as usize;
    if count_a > MAX_LEGS || count_b > MAX_LEGS {
        return None;
    }
    let native_leg_direction = reader.read_u8();
    let reserve_amount = reader.read_u64_be();
    let initiator_key = reader.read_pubkey();
    let counterparty_key = reader.read_pubkey();
    let ghost want = stored_record(buffer@);

    let mut legs_a: Vec<LegA> = Vec::new();
    let mut i: usize = 0;
    while i < count_a
        invariant
            i <= count_a <= MAX_LEGS,
            count_b <= MAX_LEGS,
            count_a == buffer@[1],
            buffer@.len() >= MAX_RECORD_LEN,
            reader.buffer@ == buffer@,
            reader.position == HEADER_LEN + LEG_A_LEN * i,
            want == stored_record(buffer@),
            legs_a@.len() == i,
            forall|k: int| 0 <= k < i ==> legs_a@[k]@ == want.legs_a[k],
        decreases count_a - i,
    {
        let initiator_account = reader.read_pubkey();
        let counterparty_account = reader.read_pubkey();
        let custody_account = reader.read_pubkey();
        let amount = reader.read_u64_be();
        legs_a.push(LegA { initiator_account, counterparty_account, custody_account, amount });
        i += 1;
    }

    let mut legs_b: Vec<LegB> = Vec::new();
    let mut j: usize = 0;
    while j < count_b
        invariant
            j <= count_b <= MAX_LEGS,
            count_a <= MAX_LEGS,
            count_a == buffer@[1],
            count_b == buffer@[2],
            buffer@.len() >= MAX_RECORD_LEN,
            reader.buffer@ == buffer@,
            reader.position == HEADER_LEN + LEG_A_LEN * count_a + LEG_B_LEN * j,
            want == stored_record(buffer@),
            legs_b@.len() == j,
            forall|k: int| 0 <= k < j ==> legs_b@[k]@ == want.legs_b[k],
        decreases count_b - j,
    {
        let initiator_account = reader.read_pubkey();
        let counterparty_account = reader.read_pubkey();
        let amount = reader.read_u64_be();
        legs_b.push(LegB { initiator_account, counterparty_account, amount });
        j += 1;
    }
    let record = EscrowRecord {
        status,
        native_leg_direction,
        reserve_amount,
        initiator_key,
        counterparty_key,
        legs_a,
        legs_b,
    };
    assert(record@.legs_a =~= want.legs_a);
    assert(record@.legs_b =~= want.legs_b);
    Some(record)
}

} // verus!
