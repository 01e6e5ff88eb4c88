//! The bit-banged half-duplex serial link between the two halves.
//!
//! There is no UART: the master produces every bit boundary by busy-waiting
//! against the cycle counter and the slave samples on the same schedule, so
//! at this level the wire in one direction is simply the sequence of levels
//! sampled at the bit instants. A line that is floating or disconnected
//! reads high through the pull-up, which the model captures by letting
//! every position past the end of the sequence read `true`.
//!
//! One transaction on the wire is a frame: a 2-bit transaction tag sent
//! MSB-first plus one parity bit, then — for a payload-carrying tag — each
//! payload byte MSB-first with a trailing parity bit, and finally one
//! unchecked XOR checksum byte over the payload. A parity mismatch only
//! flags a soft error so the bit stream stays aligned; the aggregate error
//! surfaces when the frame ends. The exchange timing itself (sync pulses,
//! direction switches, the per-bit busy-waits) lives outside the library.
use vstd::arithmetic::div_mod::{
    lemma_div_is_ordered, lemma_fundamental_div_mod, lemma_fundamental_div_mod_converse_div,
};
use vstd::arithmetic::power2::pow2;
use vstd::prelude::*;

verus! {

/// Microseconds per bit on the wire.
pub const SERIAL_DELAY: u64 = 3;

/// CPU cycles per bit; must fit the 8-bit cycle counter.
pub const SERIAL_DELAY_CYCLES: u64 = SERIAL_DELAY * (crate::timer::F_CPU / 1000000);

/// Half a bit period, used by the direction-switch handshake.
pub const SERIAL_DELAY_HALF_CYCLES: u64 = SERIAL_DELAY_CYCLES / 2;

/// Width of the trigger pulse that wakes the slave, in microseconds.
pub const SLAVE_INT_WIDTH_US: u64 = 1;

/// The configured bit period fits the 8-bit cycle counter that every
/// busy-wait compares against.
pub proof fn serial_delay_fits_cycle_counter()
    ensures
        SERIAL_DELAY_CYCLES <= 255,
{
}

/// The tag field is sized to the number of known transaction kinds,
/// rounded up to whole bits: two bits cover exactly the numbers below the
/// highest one.
pub proof fn transaction_bits_cover_the_tags()
    ensures
        (1u16 << TRANSACTION_BITS_SIZE) == MAX_TRANSACTION_NUMBER,
{
    assert((1u16 << 2u8) == 4) by (bit_vector);
}

/// An error on the serial line: a garbage tag, a parity mismatch, or a
/// checksum mismatch.
#[derive(Clone, Copy, PartialEq, Eq, Structural, Debug)]
pub struct SerialError;

/// The transaction kinds of the protocol.
#[derive(Clone, Copy, PartialEq, Eq, Structural, Debug)]
pub enum Transaction {
    /// The all-zero tag is never valid: a line stuck low produces it, so
    /// receiving it means a line fault.
    Reserved,
    /// Marks the end of one side's sequence of transactions.
    EndOfCommunication,
    /// Carries the slave's shared memory to the master.
    SyncSlave,
    /// Carries the master's shared memory to the slave.
    SyncMaster,
    /// Reserved for future extension; it cannot be expressed in the tag
    /// field and is never sent or accepted.
    User,
}

/// The highest transaction number.
pub const MAX_TRANSACTION_NUMBER: u8 = 4;

/// Bits of the tag field on the wire.
pub const TRANSACTION_BITS_SIZE: u8 = 2;

impl Transaction {
    /// The numeric tag of this transaction kind.
    pub open spec fn spec_tag(self) -> u8 {
        match self {
            Transaction::Reserved => 0,
            Transaction::EndOfCommunication => 1,
            Transaction::SyncSlave => 2,
            Transaction::SyncMaster => 3,
            Transaction::User => 4,
        }
    }

    /// The numeric tag of this transaction kind.
    pub fn tag(self) -> (r: u8)
        ensures
            r == self.spec_tag(),
    {
        match self {
            Transaction::Reserved => 0,
            Transaction::EndOfCommunication => 1,
            Transaction::SyncSlave => 2,
            Transaction::SyncMaster => 3,
            Transaction::User => 4,
        }
    }

    /// Validates a received tag.
    ///
    /// A tag of zero (`Reserved`) or beyond the known kinds is a line
    /// fault — most likely a disconnected or floating cable — and fails
    /// immediately, without ever indexing a payload table. The `User` tag
    /// is an unimplemented extension point, so a receiver treats it as a
    /// fault too rather than reach unimplementable behavior.
    pub fn from_tag(tag: u8) -> (r: Result<Transaction, SerialError>)
        ensures
            tag == 1 ==> r == Ok::<Transaction, SerialError>(Transaction::EndOfCommunication),
            tag == 2 ==> r == Ok::<Transaction, SerialError>(Transaction::SyncSlave),
            tag == 3 ==> r == Ok::<Transaction, SerialError>(Transaction::SyncMaster),
            (tag == 0 || tag >= 4) <==> r is Err,
    {
        match tag {
            1 => Ok(Transaction::EndOfCommunication),
            2 => Ok(Transaction::SyncSlave),
            3 => Ok(Transaction::SyncMaster),
            _ => Err(SerialError),
        }
    }

    /// How many payload bytes this transaction carries: the sync
    /// transactions carry one byte per matrix row of a half, the control
    /// tags none.
    ///
    /// `User` is unimplemented: reaching it would be a programming error,
    /// so it is excluded outright.
    pub fn payload_len(self, rows_per_hand: u8) -> (r: u8)
        requires
            !(self is User),
        ensures
            r == self.spec_payload_len(rows_per_hand),
    {
        match self {
            Transaction::Reserved => 0,
            Transaction::EndOfCommunication => 0,
            Transaction::SyncSlave => rows_per_hand,
            Transaction::SyncMaster => rows_per_hand,
            Transaction::User => 0,
        }
    }

    /// How many payload bytes this transaction carries.
    pub open spec fn spec_payload_len(self, rows_per_hand: u8) -> u8 {
        match self {
            Transaction::SyncSlave => rows_per_hand,
            Transaction::SyncMaster => rows_per_hand,
            _ => 0,
        }
    }
}

/// The level sampled at position `i` of a line: past the recorded end the
/// pull-up keeps the line high.
pub open spec fn line_bit(line: Seq<bool>, i: int) -> bool {
    if 0 <= i < line.len() {
        line[i]
    } else {
        true
    }
}

/// The `n` levels sampled from position `pos` on.
pub open spec fn read_bits(line: Seq<bool>, pos: int, n: nat) -> Seq<bool> {
    Seq::new(n, |i: int| line_bit(line, pos + i))
}

/// The number an MSB-first bit sequence denotes.
pub open spec fn bits_value(bits: Seq<bool>) -> nat
    decreases bits.len(),
{
    if bits.len() == 0 {
        0
    } else {
        2 * bits_value(bits.drop_last()) + if bits.last() {
            1nat
        } else {
            0nat
        }
    }
}

/// The running XOR over a bit sequence: true for an odd number of ones.
pub open spec fn bits_parity(bits: Seq<bool>) -> bool
    decreases bits.len(),
{
    if bits.len() == 0 {
        false
    } else {
        bits_parity(bits.drop_last()) != bits.last()
    }
}

/// Bit `k` of a byte.
pub open spec fn bit_of_byte(byte: u8, k: int) -> bool {
    (byte >> k) & 1 == 1
}

/// The low `size` bits of a byte, MSB first: what one field looks like on
/// the wire, before its parity bit.
pub open spec fn field_bits(byte: u8, size: nat) -> Seq<bool> {
    Seq::new(size, |i: int| bit_of_byte(byte, size - 1 - i))
}

/// A bit sequence denotes a number below two to its length.
pub proof fn lemma_bits_value_bound(bits: Seq<bool>)
    ensures
        bits_value(bits) < pow2(bits.len()),
    decreases bits.len(),
{
    vstd::arithmetic::power2::lemma_pow2_unfold((bits.len() + 1) as nat);
    if bits.len() == 0 {
        assert(pow2(0) == 1) by {
            vstd::arithmetic::power2::lemma2_to64();
        }
    } else {
        lemma_bits_value_bound(bits.drop_last());
        assert(pow2(bits.len()) == 2 * pow2((bits.len() - 1) as nat)) by {
            vstd::arithmetic::power2::lemma_pow2_unfold(bits.len());
        }
    }
}

/// Reading back the wire form of a field recovers the field: the MSB-first
/// bits of `byte` denote `byte` itself.
pub proof fn lemma_field_bits_value(byte: u8, size: nat)
    requires
        size <= 8,
        (byte as nat) < pow2(size),
    ensures
        bits_value(field_bits(byte, size)) == byte,
    decreases size,
{
    let s = field_bits(byte, size);
    if size == 0 {
        assert(pow2(0) == 1) by {
            vstd::arithmetic::power2::lemma2_to64();
        }
        assert(s =~= Seq::<bool>::empty());
    } else {
        let half: u8 = byte / 2;
        assert forall|i: int| 0 <= i < size - 1 implies s.drop_last()[i] == field_bits(
            half,
            (size - 1) as nat,
        )[i] by {
            let k = (size - 2 - i) as u8;
            let k1 = (size - 1 - i) as u8;
            assert(((byte / 2) >> k) & 1 == (byte >> k1) & 1) by (bit_vector)
                requires
                    k < 8,
                    k1 == k + 1,
            ;
        }
        assert(s.drop_last() =~= field_bits(half, (size - 1) as nat));
        assert(pow2(size) == 2 * pow2((size - 1) as nat)) by {
            vstd::arithmetic::power2::lemma_pow2_unfold(size);
        }
        let p = pow2((size - 1) as nat) as int;
        assert(p >= 1) by {
            vstd::arithmetic::power2::lemma_pow2_pos((size - 1) as nat);
        }
        assert((2 * p - 1) / 2 == p - 1) by {
            lemma_fundamental_div_mod_converse_div(2 * p - 1, 2, p - 1, 1);
        }
        assert(byte / 2 <= (2 * p - 1) / 2) by {
            lemma_div_is_ordered(byte as int, 2 * p - 1, 2);
        }
        lemma_field_bits_value(half, (size - 1) as nat);
        lemma_fundamental_div_mod(byte as int, 2);
        assert(s.last() == bit_of_byte(byte, 0));
        assert(((byte >> 0u8) & 1 == 1) == (byte % 2 == 1) && byte % 2 == (byte as int) % 2)
            by (bit_vector);
    }
}

/// Reads one already-sampled level off the line.
fn read_line_bit(line: &Vec<bool>, pos: usize) -> (b: bool)
    ensures
        b == line_bit(line@, pos as int),
{
    if pos < line.len() {
        line[pos]
    } else {
        true
    }
}

/// Receives a `size`-bit field MSB-first followed by its parity bit;
/// a parity mismatch sets the soft-error flag but reception continues, so
/// the stream stays aligned.
fn receive_sized_checked(
    line: &Vec<bool>,
    pos: &mut usize,
    size: u8,
    has_error: &mut bool,
) -> (v: u8)
    requires
        1 <= size <= 8,
        *old(pos) + size + 1 <= usize::MAX,
    ensures
        *final(pos) == *old(pos) + size + 1,
        v == bits_value(read_bits(line@, *old(pos) as int, size as nat)),
        *final(has_error) == (*old(has_error) || line_bit(line@, *old(pos) + size as int)
            != bits_parity(read_bits(line@, *old(pos) as int, size as nat))),
{
    let ghost start = *old(pos);
    let mut value: u8 = 0;
    let mut parity: bool = false;
    let mut i: u8 = 0;
    proof {
        assert(pow2(0) == 1) by {
            vstd::arithmetic::power2::lemma2_to64();
        }
        assert(read_bits(line@, start as int, 0) =~= Seq::<bool>::empty());
    }
    while i < size
        invariant
            i <= size,
            1 <= size <= 8,
            start + size + 1 <= usize::MAX,
            *pos == start + i,
            value == bits_value(read_bits(line@, start as int, i as nat)),
            parity == bits_parity(read_bits(line@, start as int, i as nat)),
            value < pow2(i as nat),
        decreases size - i,
    {
        let bit = read_line_bit(line, *pos);
        proof {
            lemma_read_step(line@, start as int, i as nat, value);
        }
        if bit {
            value = (value << 1u8) | 1;
            parity = !parity;
        } else {
            value = value << 1u8;
        }
        *pos = *pos + 1;
        i = i + 1;
    }
    let parity_sent = read_line_bit(line, *pos);
    if parity_sent != parity {
        *has_error = true;
    }
    *pos = *pos + 1;
    value
}

/// One bit of the receive loop: the bounds and the sequence identities
/// that carry the loop invariant across an iteration.
proof fn lemma_read_step(line: Seq<bool>, start: int, i: nat, value: u8)
    requires
        i < 8,
        value == bits_value(read_bits(line, start, i)),
        value < pow2(i),
    ensures
        read_bits(line, start, i + 1).drop_last() =~= read_bits(line, start, i),
        read_bits(line, start, i + 1).last() == line_bit(line, start + i),
        value < 128,
        2 * value + 1 < 256,
        bits_value(read_bits(line, start, i + 1)) < pow2(i + 1),
        pow2(i + 1) == 2 * pow2(i),
        (value << 1u8) == 2 * value,
        ((value << 1u8) | 1) == 2 * value + 1,
{
    lemma_bits_value_bound(read_bits(line, start, i + 1));
    assert(pow2(i + 1) == 2 * pow2(i)) by {
        vstd::arithmetic::power2::lemma_pow2_unfold(i + 1);
    }
    assert(pow2(8) == 256 && pow2(7) == 128) by {
        vstd::arithmetic::power2::lemma2_to64();
    }
    assert(pow2(i) <= pow2(7)) by {
        if i < 7 {
            vstd::arithmetic::power2::lemma_pow2_strictly_increases(i, 7);
        }
    }
    assert(read_bits(line, start, i + 1).drop_last() =~= read_bits(line, start, i));
    assert(value < 128 ==> (value << 1u8) == 2 * value && ((value << 1u8) | 1) == 2 * value + 1)
        by (bit_vector);
}

/// Receives a `size`-bit field MSB-first with no parity bit (the checksum
/// byte travels unchecked).
fn receive_sized_unchecked(line: &Vec<bool>, pos: &mut usize, size: u8) -> (v: u8)
    requires
        1 <= size <= 8,
        *old(pos) + size <= usize::MAX,
    ensures
        *final(pos) == *old(pos) + size,
        v == bits_value(read_bits(line@, *old(pos) as int, size as nat)),
{
    let ghost start = *old(pos);
    let mut value: u8 = 0;
    let mut i: u8 = 0;
    proof {
        assert(pow2(0) == 1) by {
            vstd::arithmetic::power2::lemma2_to64();
        }
        assert(read_bits(line@, start as int, 0) =~= Seq::<bool>::empty());
    }
    while i < size
        invariant
            i <= size,
            1 <= size <= 8,
            start + size <= usize::MAX,
            *pos == start + i,
            value == bits_value(read_bits(line@, start as int, i as nat)),
            value < pow2(i as nat),
        decreases size - i,
    {
        let bit = read_line_bit(line, *pos);
        proof {
            lemma_read_step(line@, start as int, i as nat, value);
        }
        if bit {
            value = (value << 1u8) | 1;
        } else {
            value = value << 1u8;
        }
        *pos = *pos + 1;
        i = i + 1;
    }
    value
}

/// Sends a `size`-bit field MSB-first followed by its parity bit.
fn write_sized_checked(out: &mut Vec<bool>, byte: u8, size: u8)
    requires
        1 <= size <= 8,
    ensures
        final(out)@ == old(out)@ + field_bits(byte, size as nat).push(
            bits_parity(field_bits(byte, size as nat)),
        ),
{
    let ghost base = old(out)@;
    let mut parity: bool = false;
    let mut i: u8 = 0;
    while i < size
        invariant
            i <= size,
            1 <= size <= 8,
            out@ == base + field_bits(byte, size as nat).subrange(0, i as int),
            parity == bits_parity(field_bits(byte, size as nat).subrange(0, i as int)),
        decreases size - i,
    {
        let k: u8 = size - 1 - i;
        let bit = (byte >> k) & 1 == 1;
        out.push(bit);
        parity = parity != bit;
        proof {
            let f = field_bits(byte, size as nat);
            assert(f.subrange(0, (i + 1) as int).drop_last() =~= f.subrange(0, i as int));
            assert(f.subrange(0, (i + 1) as int).last() == f[i as int]);
            assert(out@ =~= base + f.subrange(0, (i + 1) as int));
        }
        i = i + 1;
    }
    out.push(parity);
    proof {
        let f = field_bits(byte, size as nat);
        assert(f.subrange(0, size as int) =~= f);
        assert(out@ =~= base + f.push(bits_parity(f)));
    }
}

/// The XOR of all bytes of a payload: the whole-payload checksum.
pub open spec fn xor_all(bytes: Seq<u8>) -> u8
    decreases bytes.len(),
{
    if bytes.len() == 0 {
        0u8
    } else {
        xor_all(bytes.drop_last()) ^ bytes.last()
    }
}

/// The wire form of one field: its bits MSB-first plus the parity bit.
pub open spec fn checked_field(byte: u8, size: nat) -> Seq<bool> {
    field_bits(byte, size).push(bits_parity(field_bits(byte, size)))
}

/// The wire form of a payload: each byte as a checked 8-bit field.
pub open spec fn payload_bits(payload: Seq<u8>) -> Seq<bool>
    decreases payload.len(),
{
    if payload.len() == 0 {
        Seq::empty()
    } else {
        payload_bits(payload.drop_last()) + checked_field(payload.last(), 8)
    }
}

/// The wire form of one whole frame: the checked tag field, then — when a
/// payload travels — the checked payload bytes and the unchecked checksum.
pub open spec fn spec_frame_bits(tag: u8, payload: Seq<u8>) -> Seq<bool> {
    if payload.len() == 0 {
        checked_field(tag, 2)
    } else {
        checked_field(tag, 2) + payload_bits(payload) + field_bits(xor_all(payload), 8)
    }
}

/// What a receiver finds at one frame position.
pub enum FrameOutcome {
    /// A garbage tag, a parity mismatch, or a checksum mismatch.
    Fault,
    /// The end-of-communication tag.
    End,
    /// A valid payload-carrying frame.
    Data(Transaction, Seq<u8>),
}

/// The `len` payload bytes read from `pos` on, each spanning nine bits on
/// the wire (eight data bits plus parity).
pub open spec fn spec_read_payload(line: Seq<bool>, pos: int, len: nat) -> Seq<u8> {
    Seq::new(len, |i: int| bits_value(read_bits(line, pos + 9 * i, 8)) as u8)
}

/// Whether any payload byte's parity bit disagrees with its data bits.
pub open spec fn spec_payload_parity_fault(line: Seq<bool>, pos: int, len: nat) -> bool {
    exists|i: int|
        0 <= i < len && line_bit(line, pos + 9 * i + 8) != bits_parity(
            #[trigger] read_bits(line, pos + 9 * i, 8),
        )
}

/// What decoding one frame at `pos` yields, for a receiver expecting
/// `len`-byte sync payloads.
pub open spec fn spec_read_frame(line: Seq<bool>, pos: int, len: u8) -> FrameOutcome {
    let tb = read_bits(line, pos, 2);
    let tag = bits_value(tb);
    let tag_err = line_bit(line, pos + 2) != bits_parity(tb);
    if tag_err || tag == 0 {
        FrameOutcome::Fault
    } else if tag == 1 {
        FrameOutcome::End
    } else {
        let payload = spec_read_payload(line, pos + 3, len as nat);
        let cks = bits_value(read_bits(line, pos + 3 + 9 * (len as int), 8)) as u8;
        if spec_payload_parity_fault(line, pos + 3, len as nat) || cks != xor_all(payload) {
            FrameOutcome::Fault
        } else {
            FrameOutcome::Data(
                if tag == 2 {
                    Transaction::SyncSlave
                } else {
                    Transaction::SyncMaster
                },
                payload,
            )
        }
    }
}

/// How many bit positions decoding one frame at `pos` consumes: a control
/// frame or a tag-level fault stops after the tag field; a payload frame
/// is consumed whole even when a soft error is pending, to keep the
/// stream aligned.
pub open spec fn spec_frame_advance(line: Seq<bool>, pos: int, len: u8) -> int {
    let tb = read_bits(line, pos, 2);
    let tag = bits_value(tb);
    let tag_err = line_bit(line, pos + 2) != bits_parity(tb);
    if tag_err || tag == 0 || tag == 1 {
        3
    } else {
        11 + 9 * (len as int)
    }
}

/// Sends a `size`-bit field MSB-first with no parity bit.
fn write_sized_unchecked(out: &mut Vec<bool>, byte: u8, size: u8)
    requires
        1 <= size <= 8,
    ensures
        final(out)@ == old(out)@ + field_bits(byte, size as nat),
{
    let ghost base = old(out)@;
    let mut i: u8 = 0;
    while i < size
        invariant
            i <= size,
            1 <= size <= 8,
            out@ == base + field_bits(byte, size as nat).subrange(0, i as int),
        decreases size - i,
    {
        let k: u8 = size - 1 - i;
        let bit = (byte >> k) & 1 == 1;
        out.push(bit);
        proof {
            let f = field_bits(byte, size as nat);
            assert(out@ =~= base + f.subrange(0, (i + 1) as int));
        }
        i = i + 1;
    }
    proof {
        let f = field_bits(byte, size as nat);
        assert(f.subrange(0, size as int) =~= f);
    }
}

/// The payload a transaction sends: the sync transactions carry the
/// matching shared memory, the control tags nothing.
pub open spec fn spec_payload_for(kb: crate::QmkKeyboard, transaction: Transaction) -> Seq<u8> {
    match transaction {
        Transaction::SyncMaster => kb.master_shared_memory.master_matrix@,
        Transaction::SyncSlave => kb.slave_shared_memory.slave_matrix@,
        _ => Seq::empty(),
    }
}

/// A payload's wire form spans nine bits per byte.
pub proof fn lemma_payload_bits_len(payload: Seq<u8>)
    ensures
        payload_bits(payload).len() == 9 * payload.len(),
    decreases payload.len(),
{
    if payload.len() > 0 {
        lemma_payload_bits_len(payload.drop_last());
    }
}

/// Where each payload byte's bits lie within the payload's wire form.
pub proof fn lemma_payload_bits_index(payload: Seq<u8>, i: int, j: int)
    requires
        0 <= i < payload.len(),
        0 <= j < 9,
    ensures
        payload_bits(payload)[9 * i + j] == checked_field(payload[i], 8)[j],
    decreases payload.len(),
{
    lemma_payload_bits_len(payload.drop_last());
    if i == payload.len() - 1 {
        assert(payload_bits(payload)[9 * i + j] == checked_field(payload.last(), 8)[j]);
    } else {
        lemma_payload_bits_index(payload.drop_last(), i, j);
        assert(payload.drop_last()[i] == payload[i]);
    }
}

/// Within a frame whose payload section starts at bit 3, payload byte `i`
/// reads back as its own field bits, with its parity bit right after.
proof fn lemma_frame_payload_byte(line: Seq<bool>, payload: Seq<u8>, i: int)
    requires
        0 <= i < payload.len(),
        line.len() >= 3 + 9 * payload.len(),
        forall|j: int|
            0 <= j < 9 ==> line[3 + 9 * i + j] == #[trigger] checked_field(payload[i], 8)[j],
    ensures
        read_bits(line, 3 + 9 * i, 8) =~= field_bits(payload[i], 8),
        line_bit(line, 3 + 9 * i + 8) == bits_parity(field_bits(payload[i], 8)),
        bits_value(read_bits(line, 3 + 9 * i, 8)) == payload[i],
{
    assert(9 * i + 9 <= 9 * payload.len()) by (nonlinear_arith)
        requires
            i < payload.len(),
    ;
    assert forall|j: int| 0 <= j < 8 implies read_bits(line, 3 + 9 * i, 8)[j] == field_bits(
        payload[i],
        8,
    )[j] by {
        assert(line[3 + 9 * i + j] == checked_field(payload[i], 8)[j]);
        assert(line_bit(line, 3 + 9 * i + j) == line[3 + 9 * i + j]);
    }
    assert(read_bits(line, 3 + 9 * i, 8) =~= field_bits(payload[i], 8));
    assert(line[3 + 9 * i + 8] == checked_field(payload[i], 8)[8]);
    assert(pow2(8) == 256) by {
        vstd::arithmetic::power2::lemma2_to64();
    }
    lemma_field_bits_value(payload[i], 8);
}

/// Serial round trip: decoding an uncorrupted encoded sync transaction
/// recovers the exact original payload bytes.
pub proof fn lemma_frame_round_trip(transaction: Transaction, payload: Seq<u8>, rows: u8)
    requires
        transaction is SyncSlave || transaction is SyncMaster,
        payload.len() == rows,
        rows >= 1,
    ensures
        spec_read_frame(spec_frame_bits(transaction.spec_tag(), payload), 0, rows)
            == FrameOutcome::Data(transaction, payload),
{
    let tag = transaction.spec_tag();
    let line = spec_frame_bits(tag, payload);
    let tagf = field_bits(tag, 2);
    lemma_payload_bits_len(payload);
    assert(pow2(2) == 4 && pow2(8) == 256) by {
        vstd::arithmetic::power2::lemma2_to64();
    }

    // The tag field reads back as itself.
    assert(read_bits(line, 0, 2) =~= tagf);
    assert(line_bit(line, 2) == bits_parity(tagf));
    lemma_field_bits_value(tag, 2);

    // Each payload byte reads back as itself, parity matching.
    assert forall|i: int| 0 <= i < rows implies {
        &&& line_bit(line, 3 + 9 * i + 8) == bits_parity(#[trigger] read_bits(line, 3 + 9 * i, 8))
        &&& bits_value(read_bits(line, 3 + 9 * i, 8)) == payload[i]
    } by {
        assert forall|j: int| 0 <= j < 9 implies line[3 + 9 * i + j] == #[trigger] checked_field(
            payload[i],
            8,
        )[j] by {
            lemma_payload_bits_index(payload, i, j);
        }
        lemma_frame_payload_byte(line, payload, i);
    }
    assert(!spec_payload_parity_fault(line, 3, rows as nat));
    assert(spec_read_payload(line, 3, rows as nat) =~= payload);

    // The checksum reads back as the payload's XOR.
    let cks = xor_all(payload);
    assert(pow2(8) == 256) by {
        vstd::arithmetic::power2::lemma2_to64();
    }
    assert forall|j: int| 0 <= j < 8 implies read_bits(line, 3 + 9 * (rows as int), 8)[j]
        == field_bits(cks, 8)[j] by {
        assert(line[3 + 9 * (rows as int) + j] == field_bits(cks, 8)[j]);
    }
    assert(read_bits(line, 3 + 9 * (rows as int), 8) =~= field_bits(cks, 8));
    lemma_field_bits_value(cks, 8);
}

/// The end-of-communication frame decodes back to the end marker.
pub proof fn lemma_end_round_trip(rows: u8)
    ensures
        spec_read_frame(spec_frame_bits(1, Seq::empty()), 0, rows) == FrameOutcome::End,
{
    let line = spec_frame_bits(1u8, Seq::<u8>::empty());
    let tagf = field_bits(1u8, 2);
    assert(pow2(2) == 4) by {
        vstd::arithmetic::power2::lemma2_to64();
    }
    assert(read_bits(line, 0, 2) =~= tagf);
    assert(line_bit(line, 2) == bits_parity(tagf));
    lemma_field_bits_value(1, 2);
}

/// Serial fault detection, tag field: flipping the tag's parity bit in an
/// otherwise-valid encoded transaction makes the receiver report a fault.
pub proof fn lemma_tag_parity_flip_detected(transaction: Transaction, payload: Seq<u8>, rows: u8)
    requires
        transaction is SyncSlave || transaction is SyncMaster,
        payload.len() == rows,
        rows >= 1,
    ensures
        ({
            let line = spec_frame_bits(transaction.spec_tag(), payload);
            spec_read_frame(line.update(2, !line[2]), 0, rows) is Fault
        }),
{
    let tag = transaction.spec_tag();
    let line = spec_frame_bits(tag, payload);
    lemma_payload_bits_len(payload);
    let flipped = line.update(2, !line[2]);
    let tagf = field_bits(tag, 2);
    assert(read_bits(flipped, 0, 2) =~= tagf);
    assert(line_bit(line, 2) == bits_parity(tagf));
    assert(line_bit(flipped, 2) == !bits_parity(tagf));
}

/// Serial fault detection, payload: flipping the parity bit of any single
/// payload byte in an otherwise-valid encoded transaction makes the
/// receiver report a fault.
pub proof fn lemma_payload_parity_flip_detected(
    transaction: Transaction,
    payload: Seq<u8>,
    rows: u8,
    i: int,
)
    requires
        transaction is SyncSlave || transaction is SyncMaster,
        payload.len() == rows,
        rows >= 1,
        0 <= i < rows,
    ensures
        ({
            let line = spec_frame_bits(transaction.spec_tag(), payload);
            let p = 3 + 9 * i + 8;
            spec_read_frame(line.update(p, !line[p]), 0, rows) is Fault
        }),
{
    let tag = transaction.spec_tag();
    let line = spec_frame_bits(tag, payload);
    lemma_payload_bits_len(payload);
    let p = 3 + 9 * i + 8;
    let flipped = line.update(p, !line[p]);
    let tagf = field_bits(tag, 2);
    assert(pow2(2) == 4) by {
        vstd::arithmetic::power2::lemma2_to64();
    }

    // The tag field is untouched, so decoding reaches the payload.
    assert(read_bits(flipped, 0, 2) =~= tagf);
    assert(line_bit(flipped, 2) == bits_parity(tagf));
    lemma_field_bits_value(tag, 2);

    // Byte `i`'s data bits are untouched but its parity bit is inverted.
    assert(9 * i + 9 <= 9 * (rows as int)) by (nonlinear_arith)
        requires
            i < rows,
    ;
    assert forall|j: int| 0 <= j < 8 implies read_bits(flipped, 3 + 9 * i, 8)[j] == field_bits(
        payload[i],
        8,
    )[j] by {
        lemma_payload_bits_index(payload, i, j);
        assert(flipped[3 + 9 * i + j] == line[3 + 9 * i + j]);
        assert(line_bit(flipped, 3 + 9 * i + j) == flipped[3 + 9 * i + j]);
    }
    assert(read_bits(flipped, 3 + 9 * i, 8) =~= field_bits(payload[i], 8));
    assert(line[p] == checked_field(payload[i], 8)[8]) by {
        lemma_payload_bits_index(payload, i, 8);
    }
    assert(line_bit(flipped, p) == !bits_parity(field_bits(payload[i], 8)));
    assert(spec_payload_parity_fault(flipped, 3, rows as nat));
}

/// Serial fault detection, checksum: an otherwise-valid encoded
/// transaction whose checksum byte was replaced by any other value makes
/// the receiver report a fault.
pub proof fn lemma_checksum_corruption_detected(
    transaction: Transaction,
    payload: Seq<u8>,
    rows: u8,
    bad: u8,
)
    requires
        transaction is SyncSlave || transaction is SyncMaster,
        payload.len() == rows,
        rows >= 1,
        bad != xor_all(payload),
    ensures
        spec_read_frame(
            checked_field(transaction.spec_tag(), 2) + payload_bits(payload) + field_bits(bad, 8),
            0,
            rows,
        ) is Fault,
{
    let tag = transaction.spec_tag();
    let line = checked_field(tag, 2) + payload_bits(payload) + field_bits(bad, 8);
    lemma_payload_bits_len(payload);
    let tagf = field_bits(tag, 2);
    assert(pow2(2) == 4) by {
        vstd::arithmetic::power2::lemma2_to64();
    }

    assert(read_bits(line, 0, 2) =~= tagf);
    assert(line_bit(line, 2) == bits_parity(tagf));
    lemma_field_bits_value(tag, 2);

    assert forall|i: int| 0 <= i < rows implies bits_value(
        #[trigger] read_bits(line, 3 + 9 * i, 8),
    ) == payload[i] by {
        assert forall|j: int| 0 <= j < 9 implies line[3 + 9 * i + j] == #[trigger] checked_field(
            payload[i],
            8,
        )[j] by {
            lemma_payload_bits_index(payload, i, j);
        }
        lemma_frame_payload_byte(line, payload, i);
    }
    assert(spec_read_payload(line, 3, rows as nat) =~= payload);

    assert(pow2(8) == 256) by {
        vstd::arithmetic::power2::lemma2_to64();
    }
    assert forall|j: int| 0 <= j < 8 implies read_bits(line, 3 + 9 * (rows as int), 8)[j]
        == field_bits(bad, 8)[j] by {
        assert(line[3 + 9 * (rows as int) + j] == field_bits(bad, 8)[j]);
    }
    assert(read_bits(line, 3 + 9 * (rows as int), 8) =~= field_bits(bad, 8));
    lemma_field_bits_value(bad, 8);
}

/// The serial exchange touches nothing outside the two shared memories.
pub open spec fn shared_memory_frame(pre: crate::QmkKeyboard, post: crate::QmkKeyboard) -> bool {
    post == (crate::QmkKeyboard {
        master_shared_memory: post.master_shared_memory,
        slave_shared_memory: post.slave_shared_memory,
        ..pre
    })
}

/// A whole receive pass touches only the shared memories and the fault
/// counter.
pub open spec fn serial_loop_frame(pre: crate::QmkKeyboard, post: crate::QmkKeyboard) -> bool {
    post == (crate::QmkKeyboard {
        master_shared_memory: post.master_shared_memory,
        slave_shared_memory: post.slave_shared_memory,
        error_count: post.error_count,
        ..pre
    })
}

/// What a whole receive pass leaves behind.
pub struct LoopReadResult {
    /// Whether the pass ended in a line fault.
    pub fault: bool,
    /// The first bit position after the pass.
    pub end_pos: int,
    /// The slave shared view after the pass.
    pub slave_mem: Seq<u8>,
    /// The master shared view after the pass.
    pub master_mem: Seq<u8>,
}

/// A frame starting at or past the end of the recorded line reads all-high
/// levels, whose tag parity cannot match: it is always a fault.
pub proof fn lemma_offline_frame_faults(line: Seq<bool>, pos: int, len: u8)
    requires
        pos >= line.len(),
    ensures
        spec_read_frame(line, pos, len) is Fault,
{
    let tb = read_bits(line, pos, 2);
    assert(tb.len() == 2 && tb[0] == true && tb[1] == true);
    assert(tb.drop_last().drop_last() =~= Seq::<bool>::empty());
    assert(bits_parity(Seq::<bool>::empty()) == false);
    assert(tb.drop_last().len() == 1 && tb.drop_last().last() == true);
    assert(bits_parity(tb.drop_last()) == true);
    assert(tb.last() == true);
    assert(bits_parity(tb) == false);
    assert(line_bit(line, pos + 2));
}

/// Reading frames from `pos` until an end-of-communication tag or a fault:
/// each valid sync frame replaces the matching shared view in turn.
pub open spec fn spec_loop_read(
    line: Seq<bool>,
    pos: int,
    len: u8,
    slave_mem: Seq<u8>,
    master_mem: Seq<u8>,
) -> LoopReadResult
    decreases line.len() + 20 + 9 * (len as int) - pos,
    via spec_loop_read_decreases
{
    let adv = spec_frame_advance(line, pos, len);
    match spec_read_frame(line, pos, len) {
        FrameOutcome::Fault => LoopReadResult {
            fault: true,
            end_pos: pos + adv,
            slave_mem,
            master_mem,
        },
        FrameOutcome::End => LoopReadResult {
            fault: false,
            end_pos: pos + adv,
            slave_mem,
            master_mem,
        },
        FrameOutcome::Data(t, p) => spec_loop_read(
            line,
            pos + adv,
            len,
            if t is SyncSlave {
                p
            } else {
                slave_mem
            },
            if t is SyncMaster {
                p
            } else {
                master_mem
            },
        ),
    }
}

#[via_fn]
proof fn spec_loop_read_decreases(
    line: Seq<bool>,
    pos: int,
    len: u8,
    slave_mem: Seq<u8>,
    master_mem: Seq<u8>,
) {
    if pos >= line.len() {
        lemma_offline_frame_faults(line, pos, len);
    }
}

/// External interrupt mask bit for the serial wake-up edge.
pub const SERIAL_INT_ENABLE: u8 = 4;

/// External interrupt sense bits cleared for a low-level trigger.
pub const SERIAL_INT_SENSE: u8 = 48;

/// The master's idle line: the serial pin is an output, driven high.
pub open spec fn spec_initiator_idle(pre: Seq<u8>, post: Seq<u8>, pin: crate::pins::Pin) -> bool {
    post == pre.update(pin.spec_port_base() + 1, pre[pin.spec_port_base() + 1] | pin.spec_mask())
        .update(pin.spec_port_base() + 2, pre[pin.spec_port_base() + 2] | pin.spec_mask())
}

/// The slave's idle line: the serial pin is an input with the pull-up, and
/// the wake-up edge interrupt is armed, sensing a low level.
pub open spec fn spec_target_idle(pre: Seq<u8>, post: Seq<u8>, pin: crate::pins::Pin) -> bool {
    post == pre.update(pin.spec_port_base() + 1, pre[pin.spec_port_base() + 1] & !pin.spec_mask())
        .update(pin.spec_port_base() + 2, pre[pin.spec_port_base() + 2] | pin.spec_mask())
        .update(crate::pins::EIMSK as int, pre[crate::pins::EIMSK as int] | SERIAL_INT_ENABLE)
        .update(crate::pins::EICRA as int, pre[crate::pins::EICRA as int] & !SERIAL_INT_SENSE)
}

impl crate::QmkKeyboard {
    /// Puts the serial line into its idle state for this half: the master
    /// drives the pin high, the slave listens with the pull-up and arms
    /// the wake-up edge interrupt.
    pub fn serial_init(&self, regs: &mut crate::pins::RegisterFile)
        requires
            self.wf(),
            old(regs).wf(),
        ensures
            final(regs).wf(),
            if self.config.hand is Left {
                spec_initiator_idle(old(regs)@, final(regs)@, self.config.soft_serial_pin)
            } else {
                spec_target_idle(old(regs)@, final(regs)@, self.config.soft_serial_pin)
            },
    {
        if crate::is_master(self.config.hand) {
            self.soft_serial_initiator_init(regs);
        } else {
            self.soft_serial_target_init(regs);
        }
    }

    /// Master-side idle: the pin is an output, driven high.
    pub fn soft_serial_initiator_init(&self, regs: &mut crate::pins::RegisterFile)
        requires
            self.wf(),
            old(regs).wf(),
        ensures
            final(regs).wf(),
            spec_initiator_idle(old(regs)@, final(regs)@, self.config.soft_serial_pin),
    {
        let pin = self.config.soft_serial_pin;
        pin.gpio_set_pin_output(regs);
        pin.gpio_write_pin_high(regs);
        proof {
            let base = pin.spec_port_base();
            let mask = pin.spec_mask();
            let code = pin.0;
            assert(code >> 4 < 16) by (bit_vector);
            assert(regs@ =~= old(regs)@.update(base + 1, old(regs)@[base + 1] | mask).update(
                base + 2,
                old(regs)@[base + 2] | mask,
            ));
        }
    }

    /// Slave-side idle: the pin is an input with the pull-up, and the
    /// falling-edge interrupt that starts an exchange is enabled.
    pub fn soft_serial_target_init(&self, regs: &mut crate::pins::RegisterFile)
        requires
            self.wf(),
            old(regs).wf(),
        ensures
            final(regs).wf(),
            spec_target_idle(old(regs)@, final(regs)@, self.config.soft_serial_pin),
    {
        let pin = self.config.soft_serial_pin;
        pin.gpio_set_pin_input_high(regs);

        // Enable the wake-up edge interrupt, sensing a low level.
        let eimsk = crate::pins::Register(crate::pins::EIMSK);
        let current = eimsk.read(regs);
        eimsk.write(regs, current | SERIAL_INT_ENABLE);
        let eicra = crate::pins::Register(crate::pins::EICRA);
        let current = eicra.read(regs);
        eicra.write(regs, current & !SERIAL_INT_SENSE);
        proof {
            let base = pin.spec_port_base();
            let mask = pin.spec_mask();
            let code = pin.0;
            assert(code >> 4 < 16) by (bit_vector);
            assert(regs@ =~= old(regs)@.update(base + 1, old(regs)@[base + 1] & !mask).update(
                base + 2,
                old(regs)@[base + 2] | mask,
            ).update(
                crate::pins::EIMSK as int,
                old(regs)@[crate::pins::EIMSK as int] | SERIAL_INT_ENABLE,
            ).update(
                crate::pins::EICRA as int,
                old(regs)@[crate::pins::EICRA as int] & !SERIAL_INT_SENSE,
            ));
        }
    }

    /// Appends one whole transaction frame to the outgoing line: the
    /// checked tag, then for a sync transaction the checked payload bytes
    /// from the matching shared memory and the unchecked XOR checksum.
    ///
    /// `User` is an unimplemented extension and cannot be sent.
    pub fn serial_write_data(&self, transaction: Transaction, out: &mut Vec<bool>) -> (r: Result<
        (),
        SerialError,
    >)
        requires
            self.wf(),
            !(transaction is User),
        ensures
            r is Ok,
            final(out)@ == old(out)@ + spec_frame_bits(
                transaction.spec_tag(),
                spec_payload_for(*self, transaction),
            ),
    {
        let ghost base = out@;
        let ghost payload = spec_payload_for(*self, transaction);
        let len = transaction.payload_len(self.config.rows_per_hand);

        write_sized_checked(out, transaction.tag(), TRANSACTION_BITS_SIZE);

        if len != 0 {
            let data: &Vec<u8> = match transaction {
                Transaction::SyncMaster => &self.master_shared_memory.master_matrix,
                _ => &self.slave_shared_memory.slave_matrix,
            };
            let mut xor_check: u8 = 0;
            let mut i: u8 = 0;
            proof {
                assert(payload_bits(payload.subrange(0, 0)) =~= Seq::<bool>::empty());
                assert(out@ =~= base + checked_field(transaction.spec_tag(), 2) + payload_bits(
                    payload.subrange(0, 0),
                ));
            }
            while i < len
                invariant
                    i <= len,
                    self.wf(),
                    !(transaction is User),
                    len == transaction.spec_payload_len(self.config.rows_per_hand),
                    payload == spec_payload_for(*self, transaction),
                    data@ == payload,
                    payload.len() == len,
                    xor_check == xor_all(payload.subrange(0, i as int)),
                    out@ == base + checked_field(transaction.spec_tag(), 2) + payload_bits(
                        payload.subrange(0, i as int),
                    ),
                decreases len - i,
            {
                let byte = data[i as usize];
                xor_check = xor_check ^ byte;
                write_sized_checked(out, byte, 8);
                proof {
                    let prefix = payload.subrange(0, i as int);
                    let next = payload.subrange(0, i + 1);
                    assert(next.drop_last() =~= prefix);
                    assert(next.last() == payload[i as int]);
                    assert(out@ =~= base + checked_field(transaction.spec_tag(), 2) + payload_bits(
                        next,
                    ));
                }
                i = i + 1;
            }
            proof {
                assert(payload.subrange(0, len as int) =~= payload);
            }
            write_sized_unchecked(out, xor_check, 8);
            proof {
                assert(out@ =~= base + spec_frame_bits(transaction.spec_tag(), payload));
            }
        } else {
            proof {
                assert(out@ =~= base + spec_frame_bits(transaction.spec_tag(), payload));
            }
        }
        Ok(())
    }

    /// Decodes one transaction frame off the line.
    ///
    /// Returns `Ok(true)` for the end-of-communication tag, `Ok(false)`
    /// after a valid sync frame whose payload landed in the matching
    /// shared memory, and a serial error on a garbage tag, a parity
    /// mismatch, or a checksum mismatch. A parity mismatch inside the
    /// payload still consumes the whole frame, so the stream stays
    /// aligned; a garbage tag fails immediately (a disconnected line, so
    /// reading on is pointless).
    pub fn serial_read_data(&mut self, line: &Vec<bool>, pos: &mut usize) -> (r: Result<
        bool,
        SerialError,
    >)
        requires
            old(self).wf(),
            *old(pos) + 11 + 9 * (old(self).config.rows_per_hand as int) <= usize::MAX,
        ensures
            final(self).wf(),
            final(self).config == old(self).config,
            shared_memory_frame(*old(self), *final(self)),
            *final(pos) == *old(pos) + spec_frame_advance(
                line@,
                *old(pos) as int,
                old(self).config.rows_per_hand,
            ),
            match spec_read_frame(line@, *old(pos) as int, old(self).config.rows_per_hand) {
                FrameOutcome::Fault => r is Err && *final(self) == *old(self),
                FrameOutcome::End => r == Ok::<bool, SerialError>(true) && *final(self) == *old(
                    self,
                ),
                FrameOutcome::Data(t, p) => {
                    &&& r == Ok::<bool, SerialError>(false)
                    &&& (t is SyncSlave ==> *final(self) == (crate::QmkKeyboard {
                        slave_shared_memory: crate::shared_memory::SlaveSharedMemory {
                            slave_matrix: final(self).slave_shared_memory.slave_matrix,
                        },
                        ..*old(self)
                    }) && final(self).slave_shared_memory.slave_matrix@ == p)
                    &&& (t is SyncMaster ==> *final(self) == (crate::QmkKeyboard {
                        master_shared_memory: crate::shared_memory::MasterSharedMemory {
                            master_matrix: final(self).master_shared_memory.master_matrix,
                        },
                        ..*old(self)
                    }) && final(self).master_shared_memory.master_matrix@ == p)
                },
            },
    {
        let ghost start = *old(pos);
        let ghost rows = old(self).config.rows_per_hand;
        let mut has_error = false;

        // Receive the transaction tag.
        let tag = receive_sized_checked(line, pos, TRANSACTION_BITS_SIZE, &mut has_error);
        proof {
            lemma_bits_value_bound(read_bits(line@, start as int, 2));
            assert(pow2(2) == 4) by {
                vstd::arithmetic::power2::lemma2_to64();
            }
        }
        if has_error || tag > MAX_TRANSACTION_NUMBER || tag == 0 {
            // Probably a disconnected half: fail without retry.
            return Err(SerialError);
        }
        let transaction = match Transaction::from_tag(tag) {
            Ok(t) => t,
            Err(e) => {
                return Err(e);
            },
        };
        if matches!(transaction, Transaction::EndOfCommunication) {
            return Ok(true);
        }
        let len = transaction.payload_len(self.config.rows_per_hand);

        // Receive the payload, keeping the running XOR.
        let ghost p3 = start + 3;
        let mut bytes: Vec<u8> = Vec::new();
        let mut xor_check: u8 = 0;
        let mut i: u8 = 0;
        while i < len
            invariant
                i <= len,
                self == old(self),
                self.wf(),
                len == rows,
                rows == self.config.rows_per_hand,
                start + 11 + 9 * (rows as int) <= usize::MAX,
                p3 == start + 3,
                *pos == p3 + 9 * (i as int),
                bytes@.len() == i,
                forall|j: int|
                    0 <= j < i ==> bytes@[j] == bits_value(read_bits(line@, p3 + 9 * j, 8)) as u8,
                xor_check == xor_all(bytes@),
                has_error == spec_payload_parity_fault(line@, p3, i as nat),
            decreases len - i,
        {
            proof {
                assert(9 * (i as int) + 9 <= 9 * (rows as int)) by (nonlinear_arith)
                    requires
                        i < rows,
                ;
            }
            let byte = receive_sized_checked(line, pos, 8, &mut has_error);
            xor_check = xor_check ^ byte;
            let ghost prev_bytes = bytes@;
            bytes.push(byte);
            proof {
                assert(bytes@.drop_last() =~= prev_bytes);
            }
            i = i + 1;
            proof {
                assert(spec_payload_parity_fault(line@, p3, i as nat) == (
                spec_payload_parity_fault(line@, p3, (i - 1) as nat) || line_bit(
                    line@,
                    p3 + 9 * (i - 1) + 8,
                ) != bits_parity(read_bits(line@, p3 + 9 * (i - 1), 8)))) by {
                    if spec_payload_parity_fault(line@, p3, (i - 1) as nat) {
                        let w = choose|w: int|
                            0 <= w < i - 1 && line_bit(line@, p3 + 9 * w + 8) != bits_parity(
                                #[trigger] read_bits(line@, p3 + 9 * w, 8),
                            );
                        assert(0 <= w < i);
                    }
                }
            }
        }
        proof {
            assert(bytes@ =~= spec_read_payload(line@, p3, rows as nat));
        }

        // Receive the unchecked checksum byte.
        let recv_xor_check = receive_sized_unchecked(line, pos, 8);

        if recv_xor_check != xor_check || has_error {
            return Err(SerialError);
        }

        // A valid sync frame: the payload becomes the matching shared view.
        match transaction {
            Transaction::SyncSlave => {
                self.slave_shared_memory.slave_matrix = bytes;
            },
            _ => {
                self.master_shared_memory.master_matrix = bytes;
            },
        }
        Ok(false)
    }

    /// Keeps reading transactions until the end-of-communication tag or a
    /// fault. A fault bumps the diagnostic counter and abandons this
    /// tick's exchange — the next tick simply tries again, so a
    /// permanently dead line costs one bounded pass per tick and never
    /// hangs the loop.
    ///
    /// Returns true on a fault.
    pub fn loop_read_until_end_of_communication(&mut self, line: &Vec<bool>, pos: &mut usize) -> (fault:
        bool)
        requires
            old(self).wf(),
            *old(pos) <= line@.len(),
            line@.len() + 22 + 18 * (old(self).config.rows_per_hand as int) <= usize::MAX,
        ensures
            final(self).wf(),
            final(self).config == old(self).config,
            serial_loop_frame(*old(self), *final(self)),
            ({
                let res = spec_loop_read(
                    line@,
                    *old(pos) as int,
                    old(self).config.rows_per_hand,
                    old(self).slave_shared_memory.slave_matrix@,
                    old(self).master_shared_memory.master_matrix@,
                );
                &&& fault == res.fault
                &&& *final(pos) == res.end_pos
                &&& final(self).slave_shared_memory.slave_matrix@ == res.slave_mem
                &&& final(self).master_shared_memory.master_matrix@ == res.master_mem
                &&& final(self).error_count == if res.fault {
                    old(self).error_count.wrapping_add(1)
                } else {
                    old(self).error_count
                }
            }),
    {
        let ghost rows = old(self).config.rows_per_hand;
        let ghost target = spec_loop_read(
            line@,
            *old(pos) as int,
            rows,
            old(self).slave_shared_memory.slave_matrix@,
            old(self).master_shared_memory.master_matrix@,
        );
        loop
            invariant
                self.wf(),
                self.config == old(self).config,
                rows == self.config.rows_per_hand,
                serial_loop_frame(*old(self), *self),
                self.error_count == old(self).error_count,
                line@.len() + 22 + 18 * (rows as int) <= usize::MAX,
                *pos <= line@.len() + 11 + 9 * (rows as int),
                target == spec_loop_read(
                    line@,
                    *old(pos) as int,
                    rows,
                    old(self).slave_shared_memory.slave_matrix@,
                    old(self).master_shared_memory.master_matrix@,
                ),
                target == spec_loop_read(
                    line@,
                    *pos as int,
                    rows,
                    self.slave_shared_memory.slave_matrix@,
                    self.master_shared_memory.master_matrix@,
                ),
            decreases line@.len() + 20 + 9 * (rows as int) - *pos,
        {
            let ghost pos_before = *pos as int;
            let ghost frame = spec_read_frame(line@, pos_before, rows);
            proof {
                if pos_before >= line@.len() {
                    lemma_offline_frame_faults(line@, pos_before, rows);
                }
            }
            match self.serial_read_data(line, pos) {
                Ok(end) => {
                    if end {
                        return false;
                    }
                },
                Err(_) => {
                    self.error_count = self.error_count.wrapping_add(1);
                    return true;
                },
            }
        }
    }

    /// The master's whole exchange for one tick: send `SyncMaster` and the
    /// end tag, switch direction, and read the slave's response until its
    /// end tag or a fault. Runs inside one atomic section in the firmware
    /// so the timer interrupt cannot tear the bit stream.
    ///
    /// Returns the bits put on the wire. The call always returns within
    /// one bounded pass: a floating or disconnected response line faults
    /// on its first frame and only bumps the diagnostic counter.
    pub fn master_exec_transactions(&mut self, response: &Vec<bool>) -> (sent: Vec<bool>)
        requires
            old(self).wf(),
            response@.len() + 22 + 18 * (old(self).config.rows_per_hand as int) <= usize::MAX,
        ensures
            final(self).wf(),
            final(self).config == old(self).config,
            serial_loop_frame(*old(self), *final(self)),
            sent@ == spec_frame_bits(3, old(self).master_shared_memory.master_matrix@)
                + spec_frame_bits(1, Seq::empty()),
            ({
                let res = spec_loop_read(
                    response@,
                    0,
                    old(self).config.rows_per_hand,
                    old(self).slave_shared_memory.slave_matrix@,
                    old(self).master_shared_memory.master_matrix@,
                );
                &&& final(self).slave_shared_memory.slave_matrix@ == res.slave_mem
                &&& final(self).master_shared_memory.master_matrix@ == res.master_mem
                &&& final(self).error_count == if res.fault {
                    old(self).error_count.wrapping_add(1)
                } else {
                    old(self).error_count
                }
            }),
    {
        let mut sent: Vec<bool> = Vec::new();

        // The trigger pulse that wakes the slave's edge interrupt is
        // timing-level and happens on the wire, before these bits.
        if self.serial_write_data(Transaction::SyncMaster, &mut sent).is_err() {
            return sent;
        }
        if self.serial_write_data(Transaction::EndOfCommunication, &mut sent).is_err() {
            return sent;
        }

        // Direction switch, then read the slave until its end tag.
        let mut pos: usize = 0;
        if self.loop_read_until_end_of_communication(response, &mut pos) {
            return sent;
        }

        // Direction switch back and a final sync pulse release the slave;
        // both are timing-level.
        sent
    }

    /// The slave's reaction, entered from the wake-edge interrupt: read
    /// the master's transactions until the end tag, then — unless the read
    /// faulted — respond with `SyncSlave` and the end tag.
    ///
    /// Returns the response bits, empty when the read faulted.
    pub fn serial_interrupt(&mut self, incoming: &Vec<bool>) -> (response: Vec<bool>)
        requires
            old(self).wf(),
            incoming@.len() + 22 + 18 * (old(self).config.rows_per_hand as int) <= usize::MAX,
        ensures
            final(self).wf(),
            final(self).config == old(self).config,
            serial_loop_frame(*old(self), *final(self)),
            ({
                let res = spec_loop_read(
                    incoming@,
                    0,
                    old(self).config.rows_per_hand,
                    old(self).slave_shared_memory.slave_matrix@,
                    old(self).master_shared_memory.master_matrix@,
                );
                &&& final(self).slave_shared_memory.slave_matrix@ == res.slave_mem
                &&& final(self).master_shared_memory.master_matrix@ == res.master_mem
                &&& final(self).error_count == if res.fault {
                    old(self).error_count.wrapping_add(1)
                } else {
                    old(self).error_count
                }
                &&& if res.fault {
                    response@ == Seq::<bool>::empty()
                } else {
                    response@ == spec_frame_bits(2, res.slave_mem) + spec_frame_bits(
                        1,
                        Seq::empty(),
                    )
                }
            }),
    {
        let mut pos: usize = 0;
        if self.loop_read_until_end_of_communication(incoming, &mut pos) {
            return Vec::new();
        }

        // Direction switch to sender (timing-level), then respond.
        let mut response: Vec<bool> = Vec::new();
        if self.serial_write_data(Transaction::SyncSlave, &mut response).is_err() {
            return response;
        }
        if self.serial_write_data(Transaction::EndOfCommunication, &mut response).is_err() {
            return response;
        }

        // Switch back to receiver and sync; timing-level.
        response
    }

    /// The per-tick synchronization step.
    ///
    /// The master copies its half of the logical matrix into its shared
    /// memory, runs the whole exchange, and copies the slave's received
    /// rows into the other half of the logical matrix; the bits it sent
    /// are returned. The slave's exchange already ran inside the wake-edge
    /// interrupt, so it only copies between its matrix and the shared
    /// views, inside an atomic section, and returns nothing.
    pub fn serial_task(&mut self, response: &Vec<bool>) -> (sent: Option<Vec<bool>>)
        requires
            old(self).wf(),
            response@.len() + 22 + 18 * (old(self).config.rows_per_hand as int) <= usize::MAX,
        ensures
            final(self).wf(),
            final(self).config == old(self).config,
            spec_serial_task_effect(*old(self), *final(self), response@, sent),
    {
        let rows = self.config.rows_per_hand;
        let this_off = self.config.this_hand_offset();
        let other_off = self.config.other_hand_offset();
        if crate::is_master(self.config.hand) {
            // Copy this half's rows into the outgoing shared memory.
            self.master_shared_memory.master_matrix = crate::shared_memory::copy_rows(
                &self.current_matrix,
                this_off,
                rows,
            );
            let sent = self.master_exec_transactions(response);
            // Copy the received rows into the other half of the matrix.
            crate::shared_memory::write_rows(
                &mut self.current_matrix,
                other_off,
                &self.slave_shared_memory.slave_matrix,
            );
            Some(sent)
        } else {
            // Both copies happen inside one atomic section in the
            // firmware, racing only the wake-edge interrupt.
            self.slave_shared_memory.slave_matrix = crate::shared_memory::copy_rows(
                &self.current_matrix,
                this_off,
                rows,
            );
            crate::shared_memory::write_rows(
                &mut self.current_matrix,
                other_off,
                &self.master_shared_memory.master_matrix,
            );
            None
        }
    }
}

/// The per-tick synchronization step touches only the shared memories, the
/// fault counter, and the logical matrix.
pub open spec fn serial_task_frame(pre: crate::QmkKeyboard, post: crate::QmkKeyboard) -> bool {
    post == (crate::QmkKeyboard {
        master_shared_memory: post.master_shared_memory,
        slave_shared_memory: post.slave_shared_memory,
        error_count: post.error_count,
        current_matrix: post.current_matrix,
        ..pre
    })
}

/// What the per-tick synchronization step does: the master sends its half
/// and merges the received rows (or counts a fault), the slave only copies
/// between its matrix and the shared views.
pub open spec fn spec_serial_task_effect(
    pre: crate::QmkKeyboard,
    post: crate::QmkKeyboard,
    response: Seq<bool>,
    sent: Option<Vec<bool>>,
) -> bool {
    let rows = pre.config.rows_per_hand as int;
    let this_off = pre.config.spec_this_hand_offset();
    let other_off = pre.config.spec_other_hand_offset();
    let own_half = pre.current_matrix@.subrange(this_off, this_off + rows);
    &&& serial_task_frame(pre, post)
    &&& post.current_matrix@.len() == pre.current_matrix@.len()
    &&& if pre.config.hand is Left {
        let res = spec_loop_read(
            response,
            0,
            pre.config.rows_per_hand,
            pre.slave_shared_memory.slave_matrix@,
            own_half,
        );
        &&& sent == Some(sent->0)
        &&& sent->0@ == spec_frame_bits(3, own_half) + spec_frame_bits(1, Seq::empty())
        &&& post.master_shared_memory.master_matrix@ == res.master_mem
        &&& post.slave_shared_memory.slave_matrix@ == res.slave_mem
        &&& post.error_count == if res.fault {
            pre.error_count.wrapping_add(1)
        } else {
            pre.error_count
        }
        &&& (forall|j: int|
            other_off <= j < other_off + rows ==> post.current_matrix@[j] == res.slave_mem[j
                - other_off])
        &&& (forall|j: int|
            0 <= j < pre.current_matrix@.len() && !(other_off <= j < other_off + rows)
                ==> post.current_matrix@[j] == pre.current_matrix@[j])
    } else {
        &&& sent is None
        &&& post.slave_shared_memory.slave_matrix@ == own_half
        &&& post.master_shared_memory.master_matrix@ == pre.master_shared_memory.master_matrix@
        &&& post.error_count == pre.error_count
        &&& (forall|j: int|
            other_off <= j < other_off + rows ==> post.current_matrix@[j]
                == pre.master_shared_memory.master_matrix@[j - other_off])
        &&& (forall|j: int|
            0 <= j < pre.current_matrix@.len() && !(other_off <= j < other_off + rows)
                ==> post.current_matrix@[j] == pre.current_matrix@[j])
    }
}

} // verus!
