//! Packets and their two wire formats: the bus framing
//! `[0x55, 0xAA, to, len, from, tag, payload.., end]` with `len` counting
//! `from`, `tag` and the payload, and the radio framing
//! `[len, to, from, tag, payload..]` with `len` counting all but itself.
use vstd::prelude::*;
use crate::protocol::{Address, Message, MAX_PAYLOAD_SIZE, BROADCAST_ID};

verus! {

#[verifier::external_type_specification]
#[verifier::external_body]
#[verifier::reject_recursive_types(T)]
pub struct ExHeaplessVec<T, const N: usize>(heapless::Vec<T, N>);

/// The bytes a packet payload holds.
pub uninterp spec fn payload_of(v: heapless::Vec<u8, 61>) -> Seq<u8>;

/// Relies on heapless::Vec::new: a new vector is empty.
#[verifier::external_body]
fn payload_new() -> (r: heapless::Vec<u8, 61>)
    ensures
        payload_of(r) == Seq::<u8>::empty(),
{
    heapless::Vec::new()
}

/// Relies on heapless::Vec::len: the number of items held, never above the
/// capacity.
#[verifier::external_body]
fn payload_len(v: &heapless::Vec<u8, 61>) -> (r: usize)
    ensures
        r == payload_of(*v).len(),
        r <= 61,
{
    v.len()
}

/// Relies on heapless::Vec::as_slice: the items held, in order.
#[verifier::external_body]
fn payload_slice(v: &heapless::Vec<u8, 61>) -> (r: &[u8])
    ensures
        r@ == payload_of(*v),
{
    v.as_slice()
}

/// Relies on heapless::Vec::extend_from_slice: appends all of `s` when it
/// fits in the capacity, and otherwise changes nothing and fails.
#[verifier::external_body]
fn payload_extend(v: &mut heapless::Vec<u8, 61>, s: &[u8]) -> (r: Result<(), ()>)
    ensures
        r is Ok <==> payload_of(*old(v)).len() + s@.len() <= 61,
        r is Ok ==> payload_of(*final(v)) == payload_of(*old(v)) + s@,
        r is Err ==> payload_of(*final(v)) == payload_of(*old(v)),
{
    v.extend_from_slice(s)
}

/// A packet as the protocol sees it.
pub struct PacketModel {
    pub from: u8,
    pub to: u8,
    pub tag: Message,
    pub data: Seq<u8>,
}

/// One message between boards.
pub struct Packet {
    pub from: Address,
    pub to: Address,
    pub tag: Message,
    pub data: heapless::Vec<u8, 61>,
}

impl View for Packet {
    type V = PacketModel;

    open spec fn view(&self) -> PacketModel {
        PacketModel { from: self.from.0, to: self.to.0, tag: self.tag, data: payload_of(self.data) }
    }
}

/// The byte that closes a bus frame, in the place of a checksum.
pub const FRAME_END: u8 = 0x43;

/// A packet in the bus framing.
pub open spec fn serial_frame(p: PacketModel) -> Seq<u8> {
    seq![0x55u8, 0xAAu8, p.to, (p.data.len() + 2) as u8, p.from, p.tag.spec_byte()] + p.data
        + seq![FRAME_END]
}

/// A packet in the radio framing.
pub open spec fn radio_frame(p: PacketModel) -> Seq<u8> {
    seq![(p.data.len() + 3) as u8, p.to, p.from, p.tag.spec_byte()] + p.data
}

/// Whether a board with address `me` takes a packet sent to `to`.
pub open spec fn accepts(me: u8, to: u8) -> bool {
    to == me || to == BROADCAST_ID
}

impl Packet {
    pub fn new(from: Address, to: Address, tag: Message) -> (r: Packet)
        ensures
            r@ == (PacketModel { from: from.0, to: to.0, tag, data: Seq::empty() }),
    {
        Packet { from, to, tag, data: payload_new() }
    }

    /// The payload bytes.
    pub fn payload(&self) -> (r: &[u8])
        ensures
            r@ == self@.data,
            r@.len() <= MAX_PAYLOAD_SIZE,
    {
        // The length query brings the capacity bound into the proof.
        let _ = payload_len(&self.data);
        payload_slice(&self.data)
    }

    /// The number of payload bytes.
    pub fn payload_len(&self) -> (r: usize)
        ensures
            r == self@.data.len(),
            r <= MAX_PAYLOAD_SIZE,
    {
        payload_len(&self.data)
    }

    /// Append bytes to the payload; the payload must have room for them.
    pub fn push_data(&mut self, data: &[u8])
        requires
            old(self)@.data.len() + data@.len() <= MAX_PAYLOAD_SIZE,
        ensures
            final(self)@ == (PacketModel { data: old(self)@.data + data@, ..old(self)@ }),
    {
        let _ = payload_extend(&mut self.data, data);
    }

    /// A packet with the same fields.
    pub fn copy(&self) -> (r: Packet)
        ensures
            r@ == self@,
    {
        let mut p = Packet::new(self.from, self.to, self.tag);
        let data = self.payload();
        p.push_data(data);
        assert(p@.data =~= self@.data);
        p
    }

    /// Write the packet to a buffer in the bus framing and return the frame.
    ///
    /// The buffer must be at least MAX_PAYLOAD_SIZE + 8 bytes long.
    pub fn serial_wire_format<'a>(&self, buf: &'a mut [u8]) -> (r: &'a [u8])
        requires
            old(buf)@.len() >= MAX_PAYLOAD_SIZE + 8,
        ensures
            r@ == serial_frame(self@),
    {
        let data = self.payload();
        let n = data.len();
        buf[0] = 0x55;
        buf[1] = 0xAA;
        buf[2] = self.to.value();
        buf[3] = n as u8 + 2;
        buf[4] = self.from.value();
        buf[5] = self.tag.to_byte();
        let mut i: usize = 0;
        while i < n
            invariant
                n == data@.len(),
                n <= MAX_PAYLOAD_SIZE,
                data@ == self@.data,
                buf@.len() == old(buf)@.len(),
                buf@.len() >= MAX_PAYLOAD_SIZE + 8,
                i <= n,
                buf@[0] == 0x55 && buf@[1] == 0xAA && buf@[2] == self@.to,
                buf@[3] == (n + 2) as u8 && buf@[4] == self@.from,
                buf@[5] == self@.tag.spec_byte(),
                forall|k: int| 0 <= k < i ==> buf@[6 + k] == data@[k],
            decreases n - i,
        {
            buf[6 + i] = data[i];
            i = i + 1;
        }
        buf[6 + n] = FRAME_END;
        let r = vstd::slice::slice_subrange(buf, 0, 7 + n);
        assert(r@ =~= serial_frame(self@));
        r
    }

    /// Write the packet to a buffer in the radio framing and return the frame.
    ///
    /// The buffer must be at least MAX_PAYLOAD_SIZE + 8 bytes long.
    pub fn radio_wire_format<'a>(&self, buf: &'a mut [u8]) -> (r: &'a [u8])
        requires
            old(buf)@.len() >= MAX_PAYLOAD_SIZE + 8,
        ensures
            r@ == radio_frame(self@),
    {
        let data = self.payload();
        let n = data.len();
        buf[0] = n as u8 + 3;
        buf[1] = self.to.value();
        buf[2] = self.from.value();
        buf[3] = self.tag.to_byte();
        let mut i: usize = 0;
        while i < n
            invariant
                n == data@.len(),
                n <= MAX_PAYLOAD_SIZE,
                data@ == self@.data,
                buf@.len() == old(buf)@.len(),
                buf@.len() >= MAX_PAYLOAD_SIZE + 8,
                i <= n,
                buf@[0] == (n + 3) as u8 && buf@[1] == self@.to && buf@[2] == self@.from,
                buf@[3] == self@.tag.spec_byte(),
                forall|k: int| 0 <= k < i ==> buf@[4 + k] == data@[k],
            decreases n - i,
        {
            buf[4 + i] = data[i];
            i = i + 1;
        }
        let r = vstd::slice::slice_subrange(buf, 0, 4 + n);
        assert(r@ =~= radio_frame(self@));
        r
    }
}

} // verus!
