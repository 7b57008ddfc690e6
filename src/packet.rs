use crate::message::{Message, MessageView, PARAMS_SIZE};
use vstd::prelude::*;
use vstd::slice::{slice_subrange, slice_to_vec};

verus! {

/// Marker byte; every frame starts with two of them.
pub const SYNC_BYTE: u8 = 0xAA;

/// std's `io::Error`, carried opaquely as the error of `Packet::to_bytes`.
#[verifier::external_type_specification]
#[verifier::external_body]
pub struct ExIoError(std::io::Error);

/// Relies on std's `io::Error::from(ErrorKind::WriteZero)`: builds the error
/// reported when the frame does not fit the buffer.
#[verifier::external_body]
fn buffer_too_small() -> std::io::Error {
    std::io::Error::from(std::io::ErrorKind::WriteZero)
}

/// Largest frame the link carries.
pub const MAX_PACKET_SIZE: usize = 256;

/// Bytes of a frame around its parameters: two sync bytes, length, id,
/// control byte and checksum.
pub const FRAME_OVERHEAD: usize = 6;

#[derive(Debug)]
pub struct PacketHeader {
    pub sync_bytes: [u8; 2],
    pub payload_len: u8,
}

#[derive(Debug)]
pub struct PacketPayload {
    pub id: u8,
    pub ctrl: u8,
    pub params: Vec<u8>,
}

/// One frame of the wire format.
#[derive(Debug)]
pub struct Packet {
    pub header: PacketHeader,
    pub payload: PacketPayload,
    pub checksum: u8,
}

/// The fields of a frame, in wire order.
pub struct PacketView {
    pub sync0: u8,
    pub sync1: u8,
    pub payload_len: u8,
    pub id: u8,
    pub ctrl: u8,
    pub params: Seq<u8>,
    pub checksum: u8,
}

impl View for Packet {
    type V = PacketView;

    open spec fn view(&self) -> PacketView {
        PacketView {
            sync0: self.header.sync_bytes@[0],
            sync1: self.header.sync_bytes@[1],
            payload_len: self.header.payload_len,
            id: self.payload.id,
            ctrl: self.payload.ctrl,
            params: self.payload.params@,
            checksum: self.checksum,
        }
    }
}

/// Sum of the bytes of `s` as an integer.
pub open spec fn byte_sum(s: Seq<u8>) -> int
    decreases s.len(),
{
    if s.len() == 0 {
        0
    } else {
        byte_sum(s.drop_last()) + s.last() as int
    }
}

/// The byte that brings `id + ctrl + sum(params) + checksum` to zero modulo 256.
pub open spec fn checksum_of(id: u8, ctrl: u8, params: Seq<u8>) -> u8 {
    ((0 - (id as int + ctrl as int + byte_sum(params))) % 256) as u8
}

/// Control byte: bit 0 carries the read/write flag, bit 1 the queued flag.
pub open spec fn ctrl_of(rw: u8, is_queued: u8) -> u8 {
    (rw & 0x01) | ((is_queued << 1u8) & 0x02)
}

impl PacketView {
    /// The payload length counts the id, the control byte and the parameters.
    pub open spec fn consistent(self) -> bool {
        &&& self.payload_len >= 2
        &&& self.params.len() == self.payload_len - 2
    }

    /// Consistent, starts with the sync bytes, and the parameters fit a
    /// parameter block.
    pub open spec fn well_formed(self) -> bool {
        &&& self.sync0 == SYNC_BYTE
        &&& self.sync1 == SYNC_BYTE
        &&& self.consistent()
        &&& self.params.len() <= PARAMS_SIZE
    }

    pub open spec fn checksum_ok(self) -> bool {
        self.checksum == checksum_of(self.id, self.ctrl, self.params)
    }

    /// A frame that decoding accepts.
    pub open spec fn valid(self) -> bool {
        self.well_formed() && self.checksum_ok()
    }

    /// The bytes of the frame on the wire.
    pub open spec fn encoded(self) -> Seq<u8> {
        seq![self.sync0, self.sync1, self.payload_len, self.id, self.ctrl] + self.params + seq![
            self.checksum,
        ]
    }

    /// The message that this frame carries.
    pub open spec fn message(self) -> MessageView {
        MessageView {
            id: self.id,
            rw: self.ctrl & 0x01,
            is_queued: (self.ctrl >> 1u8) & 0x01,
            params: self.params,
        }
    }
}

/// The frame that carries message `m`.
pub open spec fn packet_of(m: MessageView) -> PacketView {
    let ctrl = ctrl_of(m.rw, m.is_queued);
    PacketView {
        sync0: SYNC_BYTE,
        sync1: SYNC_BYTE,
        payload_len: (m.params.len() + 2) as u8,
        id: m.id,
        ctrl,
        params: m.params,
        checksum: checksum_of(m.id, ctrl, m.params),
    }
}

/// How the front of a byte stream reads as a frame.
pub enum FrameStatus {
    /// The bytes so far are the start of a frame.
    Incomplete,
    /// The bytes cannot start a frame.
    Invalid,
    /// A whole frame, header and length consistent, stands at the front.
    Complete,
}

/// The header bytes present contradict a frame: wrong sync byte, or a
/// payload length outside `2 ..= PARAMS_SIZE + 2`.
pub open spec fn header_invalid(s: Seq<u8>) -> bool {
    ||| s.len() >= 1 && s[0] != SYNC_BYTE
    ||| s.len() >= 2 && s[1] != SYNC_BYTE
    ||| s.len() >= 3 && (s[2] < 2 || s[2] > PARAMS_SIZE + 2)
}

/// Length of the frame whose header starts `s`.
pub open spec fn frame_len(s: Seq<u8>) -> int {
    s[2] + 4
}

pub open spec fn frame_status(s: Seq<u8>) -> FrameStatus {
    if header_invalid(s) {
        FrameStatus::Invalid
    } else if s.len() < 3 || s.len() < frame_len(s) {
        FrameStatus::Incomplete
    } else {
        FrameStatus::Complete
    }
}

/// The frame read from the front of `s` (meaningful when it is complete).
pub open spec fn frame_at(s: Seq<u8>) -> PacketView {
    PacketView {
        sync0: s[0],
        sync1: s[1],
        payload_len: s[2],
        id: s[3],
        ctrl: s[4],
        params: s.subrange(5, frame_len(s) - 1),
        checksum: s[frame_len(s) - 1],
    }
}

/// The outcome of reading a frame from the front of a buffer.
#[derive(Debug)]
pub enum Decoded {
    Incomplete,
    Invalid,
    /// A frame and the number of bytes it took.
    Frame(usize, Packet),
}

proof fn lemma_byte_sum_take_step(s: Seq<u8>, i: int)
    requires
        0 <= i < s.len(),
    ensures
        byte_sum(s.take(i + 1)) == byte_sum(s.take(i)) + s[i] as int,
{
    assert(s.take(i + 1).drop_last() =~= s.take(i));
}

proof fn lemma_ctrl_bits(rw: u8, q: u8)
    requires
        rw <= 1,
        q <= 1,
    ensures
        ctrl_of(rw, q) & 0x01 == rw,
        (ctrl_of(rw, q) >> 1u8) & 0x01 == q,
{
    assert(((rw & 0x01) | ((q << 1u8) & 0x02)) & 0x01 == rw) by (bit_vector)
        requires
            rw <= 1,
            q <= 1,
    ;
    assert((((rw & 0x01) | ((q << 1u8) & 0x02)) >> 1u8) & 0x01 == q) by (bit_vector)
        requires
            rw <= 1,
            q <= 1,
    ;
}

impl Packet {
    /// The frame that carries `message`: its meaningful parameters, the
    /// flags packed in the control byte, and the checksum over them.
    pub fn from_message(message: &Message) -> (r: Self)
        requires
            message.params_len as usize <= PARAMS_SIZE,
        ensures
            r@ == packet_of(message@),
            r@.valid(),
    {
        let len = message.params_len as usize;
        let mut params: Vec<u8> = Vec::new();
        let mut i: usize = 0;
        while i < len
            invariant
                len == message.params_len,
                len <= PARAMS_SIZE,
                i <= len,
                params@ == message.params@.take(i as int),
            decreases len - i,
        {
            params.push(message.params[i]);
            i += 1;
            assert(params@ =~= message.params@.take(i as int));
        }
        let header = PacketHeader { sync_bytes: [SYNC_BYTE, SYNC_BYTE], payload_len: message.params_len + 2 };
        let payload = PacketPayload {
            id: message.id,
            ctrl: ((message.rw & 0x01) | ((message.is_queued << 1u8) & 0x02)),
            params,
        };
        let checksum = Self::checksum(&header, &payload);
        assert(params@.take(len as int) =~= params@);
        Packet { header, payload, checksum }
    }

    /// The message this frame carries, its parameter block zero-padded.
    pub fn to_message(&self) -> (r: Message)
        requires
            self@.well_formed(),
        ensures
            r@ == self@.message(),
            r.params_len == self.header.payload_len - 2,
            r.wf(),
            forall|i: int| r.params_len <= i < PARAMS_SIZE ==> r.params[i] == 0,
    {
        let mut params = [0u8; PARAMS_SIZE];
        let params_len = (self.header.payload_len - 2) as usize;
        let mut i: usize = 0;
        while i < params_len
            invariant
                params_len == self.payload.params@.len(),
                params_len <= PARAMS_SIZE,
                i <= params_len,
                forall|j: int| 0 <= j < i ==> params[j] == self.payload.params@[j],
                forall|j: int| i <= j < PARAMS_SIZE ==> params[j] == 0,
            decreases params_len - i,
        {
            params[i] = self.payload.params[i];
            i += 1;
        }
        let ctrl = self.payload.ctrl;
        let r = Message {
            id: self.payload.id,
            rw: ctrl & 0x01,
            is_queued: (ctrl >> 1u8) & 0x01,
            params_len: params_len as u8,
            params,
        };
        assert(r@.params =~= self@.params);
        assert(ctrl & 0x01 <= 1 && (ctrl >> 1u8) & 0x01 <= 1) by (bit_vector);
        r
    }

    /// The checksum over the id, the control byte and the meaningful parameters.
    pub fn checksum(header: &PacketHeader, payload: &PacketPayload) -> (r: u8)
        requires
            header.payload_len >= 2,
            payload.params@.len() >= header.payload_len - 2,
        ensures
            r == checksum_of(
                payload.id,
                payload.ctrl,
                payload.params@.take(header.payload_len - 2),
            ),
    {
        let n = (header.payload_len - 2) as usize;
        let mut sum: u8 = 0;
        sum = sum.wrapping_add(payload.id);
        sum = sum.wrapping_add(payload.ctrl);
        let mut i: usize = 0;
        while i < n
            invariant
                n == header.payload_len - 2,
                n <= payload.params@.len(),
                i <= n,
                sum as int == (payload.id as int + payload.ctrl as int + byte_sum(
                    payload.params@.take(i as int),
                )) % 256,
            decreases n - i,
        {
            proof {
                lemma_byte_sum_take_step(payload.params@, i as int);
            }
            sum = sum.wrapping_add(payload.params[i]);
            i += 1;
        }
        0u8.wrapping_sub(sum)
    }
}


impl Packet {
    /// Writes the frame at the start of `buf` and returns its length; fails,
    /// leaving `buf` untouched, when `buf` is shorter than the frame.
    pub fn to_bytes(&self, buf: &mut [u8]) -> (r: std::io::Result<usize>)
        requires
            self@.consistent(),
        ensures
            r is Ok <==> old(buf)@.len() >= self@.encoded().len(),
            r matches Ok(n) ==> n == self@.encoded().len() && final(buf)@ == self@.encoded()
                + old(buf)@.skip(n as int),
            r is Err ==> final(buf)@ == old(buf)@,
    {
        let plen = (self.header.payload_len - 2) as usize;
        let n = plen + FRAME_OVERHEAD;
        if buf.len() < n {
            return Err(buffer_too_small());
        }
        let ghost enc = self@.encoded();
        assert(enc.len() == n);
        buf[0] = self.header.sync_bytes[0];
        buf[1] = self.header.sync_bytes[1];
        buf[2] = self.header.payload_len;
        buf[3] = self.payload.id;
        buf[4] = self.payload.ctrl;
        let mut i: usize = 0;
        while i < plen
            invariant
                plen == self.payload.params@.len(),
                n == plen + FRAME_OVERHEAD,
                enc == self@.encoded(),
                enc.len() == n,
                i <= plen,
                buf@.len() == old(buf)@.len(),
                n <= buf@.len(),
                forall|j: int| 0 <= j < 5 + i ==> buf@[j] == enc[j],
                forall|j: int| 5 + i <= j < buf@.len() ==> buf@[j] == old(buf)@[j],
            decreases plen - i,
        {
            buf[5 + i] = self.payload.params[i];
            i += 1;
        }
        buf[n - 1] = self.checksum;
        assert(buf@ =~= enc + old(buf)@.skip(n as int));
        Ok(n)
    }

    /// Reads the frame at the front of `input` without checking its checksum.
    pub fn from_bytes_impl(input: &[u8]) -> (r: Decoded)
        ensures
            r is Incomplete <==> frame_status(input@) is Incomplete,
            r is Invalid <==> frame_status(input@) is Invalid,
            r matches Decoded::Frame(n, p) ==> n == frame_len(input@) && p@ == frame_at(input@),
    {
        let len = input.len();
        if len >= 1 && input[0] != SYNC_BYTE {
            return Decoded::Invalid;
        }
        if len >= 2 && input[1] != SYNC_BYTE {
            return Decoded::Invalid;
        }
        if len >= 3 && (input[2] < 2 || input[2] as usize > PARAMS_SIZE + 2) {
            return Decoded::Invalid;
        }
        if len < 3 {
            return Decoded::Incomplete;
        }
        let total = input[2] as usize + 4;
        if len < total {
            return Decoded::Incomplete;
        }
        let params = slice_to_vec(slice_subrange(input, 5, total - 1));
        let packet = Packet {
            header: PacketHeader { sync_bytes: [input[0], input[1]], payload_len: input[2] },
            payload: PacketPayload { id: input[3], ctrl: input[4], params },
            checksum: input[total - 1],
        };
        assert(packet@.params =~= frame_at(input@).params);
        Decoded::Frame(total, packet)
    }

    /// The frame at the front of `buf`, when it is whole and its checksum
    /// matches; `None` otherwise.
    pub fn from_bytes(buf: &[u8]) -> (r: Option<Self>)
        ensures
            r is Some <==> frame_status(buf@) is Complete && frame_at(buf@).checksum_ok(),
            r matches Some(p) ==> p@ == frame_at(buf@),
    {
        match Self::from_bytes_impl(buf) {
            Decoded::Frame(_, packet) => {
                let calc_checksum = Self::checksum(&packet.header, &packet.payload);
                assert(packet@.params.take(packet@.payload_len - 2) =~= packet@.params);
                if packet.checksum != calc_checksum {
                    None
                } else {
                    Some(packet)
                }
            },
            _ => None,
        }
    }
}

proof fn lemma_byte_sum_update(s: Seq<u8>, j: int, v: u8)
    requires
        0 <= j < s.len(),
    ensures
        byte_sum(s.update(j, v)) == byte_sum(s) - s[j] + v,
    decreases s.len(),
{
    if j == s.len() - 1 {
        assert(s.update(j, v).drop_last() =~= s.drop_last());
    } else {
        assert(s.update(j, v).drop_last() =~= s.drop_last().update(j, v));
        lemma_byte_sum_update(s.drop_last(), j, v);
    }
}

/// A complete frame at the front of a stream is well formed, and its
/// encoding is exactly the bytes it spans.
pub proof fn lemma_complete_frame(s: Seq<u8>)
    requires
        frame_status(s) is Complete,
    ensures
        frame_at(s).well_formed(),
        frame_at(s).encoded() == s.take(frame_len(s)),
        frame_len(s) <= s.len(),
{
    assert(frame_at(s).encoded() =~= s.take(frame_len(s)));
}

/// Reading a frame back from the bytes of a well-formed frame gives that frame.
pub proof fn lemma_decode_encoded(p: PacketView, rest: Seq<u8>)
    requires
        p.well_formed(),
    ensures
        frame_status(p.encoded() + rest) is Complete,
        frame_len(p.encoded() + rest) == p.encoded().len(),
        frame_at(p.encoded() + rest) == p,
{
    let s = p.encoded() + rest;
    assert(s[0] == p.sync0 && s[1] == p.sync1 && s[2] == p.payload_len);
    assert(s[3] == p.id && s[4] == p.ctrl);
    assert(s.subrange(5, frame_len(s) - 1) =~= p.params);
    assert(s[frame_len(s) - 1] == p.checksum);
}

/// Round trip: a well-formed message, framed, encoded and decoded, comes back
/// unchanged (id, direction, queued flag and meaningful parameters).
pub proof fn lemma_round_trip(m: Message)
    requires
        m.wf(),
    ensures
        packet_of(m@).valid(),
        frame_status(packet_of(m@).encoded()) is Complete,
        frame_len(packet_of(m@).encoded()) == packet_of(m@).encoded().len(),
        frame_at(packet_of(m@).encoded()) == packet_of(m@),
        frame_at(packet_of(m@).encoded()).message() == m@,
{
    lemma_ctrl_bits(m.rw, m.is_queued);
    let p = packet_of(m@);
    lemma_decode_encoded(p, Seq::empty());
    assert(p.encoded() + Seq::<u8>::empty() =~= p.encoded());
}

/// The byte at position `i` of what the checksum covers: id, control byte,
/// then the parameters.
pub open spec fn checked_byte(p: PacketView, i: int) -> u8 {
    if i == 0 {
        p.id
    } else if i == 1 {
        p.ctrl
    } else {
        p.params[i - 2]
    }
}

/// `p` with the byte at position `i` of what the checksum covers set to `v`.
pub open spec fn with_checked_byte(p: PacketView, i: int, v: u8) -> PacketView {
    if i == 0 {
        PacketView { id: v, ..p }
    } else if i == 1 {
        PacketView { ctrl: v, ..p }
    } else {
        PacketView { params: p.params.update(i - 2, v), ..p }
    }
}

/// Changing any one byte among the id, the control byte and the parameters
/// changes the checksum recomputed over them.
pub proof fn lemma_checksum_detects_single_byte(p: PacketView, i: int, v: u8)
    requires
        0 <= i < p.params.len() + 2,
        v != checked_byte(p, i),
    ensures
        ({
            let q = with_checked_byte(p, i, v);
            checksum_of(q.id, q.ctrl, q.params) != checksum_of(p.id, p.ctrl, p.params)
        }),
{
    let q = with_checked_byte(p, i, v);
    if i >= 2 {
        lemma_byte_sum_update(p.params, i - 2, v);
    }
    let t = p.id as int + p.ctrl as int + byte_sum(p.params);
    let t2 = q.id as int + q.ctrl as int + byte_sum(q.params);
    assert(t2 - t == v as int - checked_byte(p, i) as int);
    assert((0 - t2) % 256 != (0 - t) % 256);
}

/// A frame whose checksum byte is wrong is not read: the bytes hold a whole
/// frame, but its checksum does not match, so decoding yields nothing.
pub proof fn lemma_wrong_checksum_rejected(p: PacketView, c: u8)
    requires
        p.valid(),
        c != p.checksum,
    ensures
        frame_status(PacketView { checksum: c, ..p }.encoded()) is Complete,
        !frame_at(PacketView { checksum: c, ..p }.encoded()).checksum_ok(),
{
    let q = PacketView { checksum: c, ..p };
    lemma_decode_encoded(q, Seq::empty());
    assert(q.encoded() + Seq::<u8>::empty() =~= q.encoded());
}

} // verus!
