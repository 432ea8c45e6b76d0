//! Decoding packets from the bus, one byte at a time, and from radio frames.
use vstd::prelude::*;
use crate::protocol::{Address, Message, MAX_PAYLOAD_SIZE};
use crate::packet::{Packet, PacketModel, FRAME_END, accepts, serial_frame, radio_frame};

verus! {

/// Where a bus receiver stands in the byte stream.
pub struct RxModel {
    /// A sentinel has been seen and a frame is being read.
    pub synced: bool,
    /// Not synced, and the last byte was the first sentinel byte.
    pub saw_start: bool,
    /// The frame bytes read since the sentinel.
    pub frame: Seq<u8>,
}

/// The receiver waiting for a sentinel, having just seen byte `b`.
pub open spec fn rx_hunting(b: u8) -> RxModel {
    RxModel { synced: false, saw_start: b == 0x55, frame: Seq::empty() }
}

/// A receiver that has seen nothing yet, or has just finished a frame.
pub open spec fn rx_idle() -> RxModel {
    RxModel { synced: false, saw_start: false, frame: Seq::empty() }
}

/// Whether the length byte of a bus frame is in range.
pub open spec fn valid_len(len: u8) -> bool {
    2 <= len && len <= MAX_PAYLOAD_SIZE + 2
}

/// The packet in a complete frame (the bytes after the sentinel), if its
/// closing byte is right and it is addressed to `me`.
pub open spec fn frame_packet(f: Seq<u8>, me: u8) -> Option<PacketModel> {
    if f.last() == FRAME_END && accepts(me, f[0]) {
        Some(
            PacketModel {
                to: f[0],
                from: f[2],
                tag: Message::spec_from_byte(f[3]).unwrap(),
                data: f.subrange(4, f.len() - 1),
            },
        )
    } else {
        None
    }
}

/// What the receiver of a board with address `me` does with one byte: its
/// next state, and the packet that the byte completes, if any.
pub open spec fn rx_step(s: RxModel, b: u8, me: u8) -> (RxModel, Option<PacketModel>) {
    if !s.synced {
        if s.saw_start && b == 0xAA {
            (RxModel { synced: true, saw_start: false, frame: Seq::empty() }, None)
        } else {
            (rx_hunting(b), None)
        }
    } else {
        let f = s.frame.push(b);
        if f.len() == 2 && !valid_len(b) {
            (rx_hunting(b), None)
        } else if f.len() == 4 && Message::spec_from_byte(b) is None {
            (rx_hunting(b), None)
        } else if f.len() >= 4 && f.len() == f[1] + 3 {
            (rx_idle(), frame_packet(f, me))
        } else {
            (RxModel { frame: f, ..s }, None)
        }
    }
}

/// The state after a run of bytes, and the packets they complete, in order.
pub open spec fn rx_feed(s: RxModel, bytes: Seq<u8>, me: u8) -> (RxModel, Seq<PacketModel>)
    decreases bytes.len(),
{
    if bytes.len() == 0 {
        (s, Seq::empty())
    } else {
        let (s1, out) = rx_step(s, bytes[0], me);
        let (s2, rest) = rx_feed(s1, bytes.subrange(1, bytes.len() as int), me);
        (s2, match out {
            Some(p) => seq![p] + rest,
            None => rest,
        })
    }
}

/// Whether a run of bytes holds the sentinel pair anywhere.
pub open spec fn has_sentinel(bytes: Seq<u8>) -> bool {
    exists|i: int| 0 <= i && i + 1 < bytes.len() && bytes[i] == 0x55 && #[trigger] bytes[i + 1] == 0xAA
}

/// Decodes the bus framing as bytes arrive: hunts for the sentinel, validates
/// the length, tag and closing byte, and hands out the packets addressed to
/// this board or to all boards.
pub struct SerialReceiver {
    address: Address,
    synced: bool,
    saw_start: bool,
    frame: Vec<u8>,
}

impl View for SerialReceiver {
    type V = RxModel;

    closed spec fn view(&self) -> RxModel {
        RxModel { synced: self.synced, saw_start: self.saw_start, frame: self.frame@ }
    }
}

impl SerialReceiver {
    pub closed spec fn spec_address(&self) -> u8 {
        self.address.0
    }

    /// The receiver keeps no more than one frame.
    pub closed spec fn wf(&self) -> bool {
        &&& self.frame@.len() <= MAX_PAYLOAD_SIZE + 4
        &&& self.frame@.len() >= 2 ==> valid_len(self.frame@[1])
        &&& self.frame@.len() >= 4 ==> self.frame@.len() < self.frame@[1] + 3
        &&& self.frame@.len() >= 4 ==> Message::spec_from_byte(self.frame@[3]) is Some
        &&& !self.synced ==> self.frame@.len() == 0
        &&& self.synced ==> !self.saw_start
    }

    pub fn new(address: Address) -> (r: SerialReceiver)
        ensures
            r@ == rx_idle(),
            r.spec_address() == address.0,
            r.wf(),
    {
        SerialReceiver { address, synced: false, saw_start: false, frame: Vec::new() }
    }

    fn hunt(&mut self, b: u8)
        ensures
            final(self)@ == rx_hunting(b),
            final(self).address == old(self).address,
    {
        self.synced = false;
        self.saw_start = b == 0x55;
        self.frame.clear();
    }

    /// Take one byte from the bus; returns the packet it completes, if any.
    pub fn push_byte(&mut self, b: u8) -> (r: Option<Packet>)
        requires
            old(self).wf(),
        ensures
            final(self).wf(),
            final(self).spec_address() == old(self).spec_address(),
            final(self)@ == rx_step(old(self)@, b, old(self).spec_address()).0,
            match r {
                Some(p) => rx_step(old(self)@, b, old(self).spec_address()).1 == Some(p@),
                None => rx_step(old(self)@, b, old(self).spec_address()).1 is None,
            },
    {
        if !self.synced {
            if self.saw_start && b == 0xAA {
                self.synced = true;
                self.saw_start = false;
                self.frame.clear();
            } else {
                self.hunt(b);
            }
            return None;
        }
        self.frame.push(b);
        let n = self.frame.len();
        if n == 2 && !(2 <= b && b as usize <= MAX_PAYLOAD_SIZE + 2) {
            self.hunt(b);
            return None;
        }
        if n == 4 && Message::from_byte(b).is_none() {
            self.hunt(b);
            return None;
        }
        if n >= 4 && n == self.frame[1] as usize + 3 {
            let result = self.take_frame();
            self.synced = false;
            self.saw_start = false;
            self.frame.clear();
            return result;
        }
        None
    }

    fn take_frame(&self) -> (r: Option<Packet>)
        requires
            self.frame@.len() >= 5,
            self.frame@.len() == self.frame@[1] + 3,
            valid_len(self.frame@[1]),
            Message::spec_from_byte(self.frame@[3]) is Some,
        ensures
            match r {
                Some(p) => frame_packet(self.frame@, self.spec_address()) == Some(p@),
                None => frame_packet(self.frame@, self.spec_address()) is None,
            },
    {
        let n = self.frame.len();
        let to = self.frame[0];
        if self.frame[n - 1] != FRAME_END {
            return None;
        }
        if !(to == self.address.value() || to == crate::protocol::BROADCAST_ID) {
            return None;
        }
        let tag = match Message::from_byte(self.frame[3]) {
            Some(t) => t,
            None => return None,
        };
        let mut p = Packet::new(Address(self.frame[2]), Address(to), tag);
        let body = vstd::slice::slice_subrange(self.frame.as_slice(), 4, n - 1);
        p.push_data(body);
        assert(p@.data =~= self.frame@.subrange(4, self.frame@.len() - 1));
        Some(p)
    }
}

/// The payload length a radio frame announces in its first byte, if valid.
pub open spec fn radio_payload_len_of(first: u8) -> Option<nat> {
    if 3 <= first && first <= MAX_PAYLOAD_SIZE + 3 {
        Some((first - 3) as nat)
    } else {
        None
    }
}

/// The packet in a radio frame, if the frame is whole, its length and tag
/// are valid, and it is addressed to `me`.
pub open spec fn radio_packet(f: Seq<u8>, me: u8) -> Option<PacketModel> {
    if f.len() >= 4 && radio_payload_len_of(f[0]) is Some && f.len() == f[0] + 1
        && Message::spec_from_byte(f[3]) is Some && accepts(me, f[1]) {
        Some(
            PacketModel {
                to: f[1],
                from: f[2],
                tag: Message::spec_from_byte(f[3]).unwrap(),
                data: f.subrange(4, f.len() as int),
            },
        )
    } else {
        None
    }
}

/// The number of payload bytes that follow the four header bytes of a radio
/// frame whose first byte is `first`; None if that byte is out of range.
pub fn radio_payload_len(first: u8) -> (r: Option<usize>)
    ensures
        match r {
            Some(n) => radio_payload_len_of(first) == Some(n as nat),
            None => radio_payload_len_of(first) is None,
        },
{
    if 3 <= first && first as usize <= MAX_PAYLOAD_SIZE + 3 {
        Some((first - 3) as usize)
    } else {
        None
    }
}

/// Decode a whole radio frame received by a board with address `address`.
pub fn decode_radio_frame(frame: &[u8], address: Address) -> (r: Option<Packet>)
    ensures
        match r {
            Some(p) => radio_packet(frame@, address.0) == Some(p@),
            None => radio_packet(frame@, address.0) is None,
        },
{
    let n = frame.len();
    if n < 4 {
        return None;
    }
    if radio_payload_len(frame[0]).is_none() || n != frame[0] as usize + 1 {
        return None;
    }
    let to = frame[1];
    if !(to == address.value() || to == crate::protocol::BROADCAST_ID) {
        return None;
    }
    let tag = match Message::from_byte(frame[3]) {
        Some(t) => t,
        None => return None,
    };
    let mut p = Packet::new(Address(frame[2]), Address(to), tag);
    let body = vstd::slice::slice_subrange(frame, 4, n);
    p.push_data(body);
    assert(p@.data =~= frame@.subrange(4, n as int));
    Some(p)
}

/// Feeding two runs of bytes one after the other is feeding their
/// concatenation.
pub proof fn lemma_rx_feed_append(s: RxModel, a: Seq<u8>, b: Seq<u8>, me: u8)
    ensures
        rx_feed(s, a + b, me).0 == rx_feed(rx_feed(s, a, me).0, b, me).0,
        rx_feed(s, a + b, me).1 == rx_feed(s, a, me).1 + rx_feed(rx_feed(s, a, me).0, b, me).1,
    decreases a.len(),
{
    if a.len() == 0 {
        assert(a + b =~= b);
        assert(rx_feed(s, a, me).1 + rx_feed(s, b, me).1 =~= rx_feed(s, b, me).1);
    } else {
        let (s1, out) = rx_step(s, a[0], me);
        let a1 = a.subrange(1, a.len() as int);
        assert((a + b)[0] == a[0]);
        assert((a + b).subrange(1, (a + b).len() as int) =~= a1 + b);
        lemma_rx_feed_append(s1, a1, b, me);
        match out {
            Some(p) => {
                assert(seq![p] + (rx_feed(s1, a1, me).1 + rx_feed(rx_feed(s1, a1, me).0, b, me).1)
                    =~= (seq![p] + rx_feed(s1, a1, me).1) + rx_feed(rx_feed(s1, a1, me).0, b, me).1);
            },
            None => {},
        }
    }
}

proof fn lemma_rx_feed_payload(f: Seq<u8>, d: Seq<u8>, me: u8)
    requires
        f.len() >= 4,
        f.len() + d.len() < f[1] + 3,
    ensures
        rx_feed(RxModel { synced: true, saw_start: false, frame: f }, d, me) == (
        RxModel { synced: true, saw_start: false, frame: f + d },
        Seq::<PacketModel>::empty(),
        ),
    decreases d.len(),
{
    let s = RxModel { synced: true, saw_start: false, frame: f };
    if d.len() == 0 {
        assert(f + d =~= f);
    } else {
        let f1 = f.push(d[0]);
        assert(f1[1] == f[1]);
        assert(rx_step(s, d[0], me).0 == RxModel { synced: true, saw_start: false, frame: f1 });
        let d1 = d.subrange(1, d.len() as int);
        lemma_rx_feed_payload(f1, d1, me);
        assert(f1 + d1 =~= f + d);
    }
}

proof fn lemma_rx_feed_single(s: RxModel, b: u8, me: u8)
    ensures
        rx_feed(s, seq![b], me) == (rx_step(s, b, me).0, match rx_step(s, b, me).1 {
            Some(p) => seq![p],
            None => Seq::<PacketModel>::empty(),
        }),
{
    let one = seq![b];
    assert(one.subrange(1, 1) =~= Seq::<u8>::empty());
    assert(rx_feed(rx_step(s, b, me).0, Seq::<u8>::empty(), me).1 =~= Seq::<PacketModel>::empty());
    match rx_step(s, b, me).1 {
        Some(p) => {
            assert(seq![p] + Seq::<PacketModel>::empty() =~= seq![p]);
        },
        None => {},
    }
}

/// Round trip on the bus: a receiver that is not inside a frame, given the
/// bus framing of a packet addressed to it (or to all boards), hands out
/// exactly that packet when the last byte arrives and is idle again.
pub proof fn lemma_serial_round_trip(s: RxModel, p: PacketModel, me: u8)
    requires
        !s.synced,
        p.data.len() <= MAX_PAYLOAD_SIZE,
        accepts(me, p.to),
    ensures
        rx_feed(s, serial_frame(p), me) == (rx_idle(), seq![p]),
{
    let len = (p.data.len() + 2) as u8;
    let tag = p.tag.spec_byte();
    let s1 = rx_step(s, 0x55, me).0;
    let s2 = rx_step(s1, 0xAA, me).0;
    let s3 = rx_step(s2, p.to, me).0;
    let s4 = rx_step(s3, len, me).0;
    let s5 = rx_step(s4, p.from, me).0;
    let s6 = rx_step(s5, tag, me).0;
    let head = seq![0x55u8, 0xAAu8, p.to, len, p.from, tag];
    assert(s6.frame =~= seq![p.to, len, p.from, tag]);
    assert(s6.synced && !s6.saw_start);
    lemma_rx_feed_single(s, 0x55, me);
    lemma_rx_feed_single(s1, 0xAA, me);
    lemma_rx_feed_single(s2, p.to, me);
    lemma_rx_feed_single(s3, len, me);
    lemma_rx_feed_single(s4, p.from, me);
    lemma_rx_feed_single(s5, tag, me);
    assert(head =~= seq![0x55u8] + seq![0xAAu8] + seq![p.to] + seq![len] + seq![p.from] + seq![tag]);
    lemma_rx_feed_append(s, seq![0x55u8], seq![0xAAu8], me);
    lemma_rx_feed_append(s, seq![0x55u8] + seq![0xAAu8], seq![p.to], me);
    lemma_rx_feed_append(s, seq![0x55u8] + seq![0xAAu8] + seq![p.to], seq![len], me);
    lemma_rx_feed_append(s, seq![0x55u8] + seq![0xAAu8] + seq![p.to] + seq![len], seq![p.from], me);
    lemma_rx_feed_append(s, seq![0x55u8] + seq![0xAAu8] + seq![p.to] + seq![len] + seq![p.from], seq![tag], me);
    assert(rx_feed(s, head, me).0 == s6);
    assert(rx_feed(s, head, me).1 =~= Seq::<PacketModel>::empty());
    lemma_rx_feed_payload(s6.frame, p.data, me);
    let s7 = RxModel { synced: true, saw_start: false, frame: s6.frame + p.data };
    let f = s7.frame.push(FRAME_END);
    assert(f[1] == len);
    assert(f.subrange(4, f.len() - 1) =~= p.data);
    assert(rx_step(s7, FRAME_END, me) == (rx_idle(), Some(p)));
    lemma_rx_feed_single(s7, FRAME_END, me);
    lemma_rx_feed_append(s, head, p.data, me);
    lemma_rx_feed_append(s, head + p.data, seq![FRAME_END], me);
    assert(serial_frame(p) =~= head + p.data + seq![FRAME_END]);
    assert(Seq::<PacketModel>::empty() + Seq::<PacketModel>::empty() + seq![p] =~= seq![p]);
}

proof fn lemma_rx_feed_noise(s: RxModel, g: Seq<u8>, me: u8)
    requires
        !s.synced,
        g.len() > 0 ==> !(s.saw_start && g[0] == 0xAA),
        !has_sentinel(g),
    ensures
        !rx_feed(s, g, me).0.synced,
        rx_feed(s, g, me).1 == Seq::<PacketModel>::empty(),
    decreases g.len(),
{
    if g.len() > 0 {
        let s1 = rx_step(s, g[0], me).0;
        let g1 = g.subrange(1, g.len() as int);
        assert(s1 == rx_hunting(g[0]));
        assert(!has_sentinel(g1)) by {
            if has_sentinel(g1) {
                let i = choose|i: int| 0 <= i && i + 1 < g1.len() && g1[i] == 0x55 && #[trigger] g1[i + 1] == 0xAA;
                assert(g[i + 1] == 0x55 && g[i + 2] == 0xAA);
            }
        }
        if g1.len() > 0 && s1.saw_start && g1[0] == 0xAA {
            assert(g[0] == 0x55 && g[1] == 0xAA);
        }
        lemma_rx_feed_noise(s1, g1, me);
    }
}

/// Resynchronisation on the bus: bytes without a sentinel pair in them (a
/// corrupted sentinel, line noise) yield nothing, and a valid frame that
/// follows them, addressed to the receiver, still yields exactly its packet.
pub proof fn lemma_serial_resync(noise: Seq<u8>, p: PacketModel, me: u8)
    requires
        !has_sentinel(noise),
        p.data.len() <= MAX_PAYLOAD_SIZE,
        accepts(me, p.to),
    ensures
        rx_feed(rx_idle(), noise + serial_frame(p), me) == (rx_idle(), seq![p]),
{
    lemma_rx_feed_noise(rx_idle(), noise, me);
    lemma_rx_feed_append(rx_idle(), noise, serial_frame(p), me);
    lemma_serial_round_trip(rx_feed(rx_idle(), noise, me).0, p, me);
    assert(Seq::<PacketModel>::empty() + seq![p] =~= seq![p]);
}

/// Round trip on the radio: the radio framing of a packet addressed to the
/// receiver (or to all boards) decodes to that packet.
pub proof fn lemma_radio_round_trip(p: PacketModel, me: u8)
    requires
        p.data.len() <= MAX_PAYLOAD_SIZE,
        accepts(me, p.to),
    ensures
        radio_packet(radio_frame(p), me) == Some(p),
{
    let f = radio_frame(p);
    assert(f.subrange(4, f.len() as int) =~= p.data);
}

} // verus!
