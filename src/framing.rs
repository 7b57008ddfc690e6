use crate::packet::{
    frame_at, frame_len, frame_status, lemma_complete_frame, lemma_decode_encoded, Decoded,
    FrameStatus, Packet, PacketView,
};
use vstd::prelude::*;
use vstd::slice::{slice_subrange, slice_to_vec};

verus! {

/// The next frame in a stream of received bytes, and the bytes left after
/// it. Bytes that cannot start a frame, and whole frames whose checksum does
/// not match, are dropped one byte at a time until a frame is found or the
/// rest may still grow into one.
pub open spec fn next_frame(s: Seq<u8>) -> (Option<PacketView>, Seq<u8>)
    decreases s.len(),
{
    match frame_status(s) {
        FrameStatus::Incomplete => (None, s),
        FrameStatus::Invalid => next_frame(s.drop_first()),
        FrameStatus::Complete => if frame_at(s).checksum_ok() {
            (Some(frame_at(s)), s.skip(frame_len(s)))
        } else {
            next_frame(s.drop_first())
        },
    }
}

/// Reading a frame never lengthens the buffer, reading one shortens it, and
/// what is read is a valid frame.
pub proof fn lemma_next_frame_shrinks(s: Seq<u8>)
    ensures
        next_frame(s).1.len() <= s.len(),
        next_frame(s).0 is Some ==> next_frame(s).1.len() < s.len(),
        next_frame(s).0 matches Some(p) ==> p.valid(),
    decreases s.len(),
{
    match frame_status(s) {
        FrameStatus::Incomplete => {},
        FrameStatus::Invalid => lemma_next_frame_shrinks(s.drop_first()),
        FrameStatus::Complete => if !frame_at(s).checksum_ok() {
            lemma_next_frame_shrinks(s.drop_first());
        } else {
            lemma_complete_frame(s);
        },
    }
}

/// Every frame that can be read from `s`, in order, and the bytes left.
pub open spec fn drain(s: Seq<u8>) -> (Seq<PacketView>, Seq<u8>)
    decreases s.len(),
{
    proof {
        lemma_next_frame_shrinks(s);
    }
    match next_frame(s).0 {
        None => (Seq::empty(), next_frame(s).1),
        Some(p) => {
            let (ps, rest) = drain(next_frame(s).1);
            (seq![p] + ps, rest)
        },
    }
}

/// Receiving `chunks` one after another into a buffer that holds `buf`,
/// reading every frame available after each (successive `receive` calls):
/// the frames, in order, and the bytes left.
pub open spec fn feed(buf: Seq<u8>, chunks: Seq<Seq<u8>>) -> (Seq<PacketView>, Seq<u8>)
    decreases chunks.len(),
{
    if chunks.len() == 0 {
        (Seq::empty(), buf)
    } else {
        let (ps, rest) = drain(buf + chunks[0]);
        let (qs, left) = feed(rest, chunks.drop_first());
        (ps + qs, left)
    }
}

/// Receiving one more chunk is one more `drain` of what was left plus that
/// chunk: so the frames read by pushing chunks one after another, and after
/// each reading until `next_packet` gives `None`, are those of `feed`.
pub proof fn lemma_feed_push(buf: Seq<u8>, chunks: Seq<Seq<u8>>, c: Seq<u8>)
    ensures
        feed(buf, chunks.push(c)) == ({
            let (ps, rest) = feed(buf, chunks);
            let (qs, left) = drain(rest + c);
            (ps + qs, left)
        }),
    decreases chunks.len(),
{
    if chunks.len() == 0 {
        assert(chunks.push(c).drop_first() =~= Seq::<Seq<u8>>::empty());
        assert(chunks.push(c)[0] == c);
        let (qs, left) = drain(buf + c);
        assert(feed(left, chunks.push(c).drop_first()) == (Seq::<PacketView>::empty(), left));
        assert(feed(buf, chunks) == (Seq::<PacketView>::empty(), buf));
        assert(qs + Seq::<PacketView>::empty() =~= qs);
        assert(Seq::<PacketView>::empty() + qs =~= qs);
    } else {
        assert(chunks.push(c).drop_first() =~= chunks.drop_first().push(c));
        assert(chunks.push(c)[0] == chunks[0]);
        let (ps, rest) = drain(buf + chunks[0]);
        lemma_feed_push(rest, chunks.drop_first(), c);
        let (ps2, rest2) = feed(rest, chunks.drop_first());
        let (qs, left) = drain(rest2 + c);
        assert(ps + (ps2 + qs) =~= (ps + ps2) + qs);
    }
}

/// The bytes of `ps`, one frame after another.
pub open spec fn encode_all(ps: Seq<PacketView>) -> Seq<u8>
    decreases ps.len(),
{
    if ps.len() == 0 {
        Seq::empty()
    } else {
        ps[0].encoded() + encode_all(ps.drop_first())
    }
}

/// Bytes received from the link and not yet read as a frame.
pub struct FrameReader {
    red_bytes: Vec<u8>,
}

impl FrameReader {
    pub closed spec fn buffered(&self) -> Seq<u8> {
        self.red_bytes@
    }

    pub fn new() -> (r: Self)
        ensures
            r.buffered() == Seq::<u8>::empty(),
    {
        FrameReader { red_bytes: Vec::new() }
    }

    /// Appends received bytes.
    pub fn push_bytes(&mut self, bytes: &[u8])
        ensures
            final(self).buffered() == old(self).buffered() + bytes@,
    {
        let mut i: usize = 0;
        while i < bytes.len()
            invariant
                i <= bytes@.len(),
                self.red_bytes@ == old(self).red_bytes@ + bytes@.take(i as int),
            decreases bytes@.len() - i,
        {
            self.red_bytes.push(bytes[i]);
            i += 1;
            assert(self.red_bytes@ =~= old(self).red_bytes@ + bytes@.take(i as int));
        }
        assert(bytes@.take(i as int) =~= bytes@);
    }

    /// Reads the next frame from the buffer, dropping what cannot be read,
    /// or `None` when the buffer holds no whole frame yet.
    pub fn next_packet(&mut self) -> (r: Option<Packet>)
        ensures
            r is Some <==> next_frame(old(self).buffered()).0 is Some,
            r matches Some(p) ==> p@ == next_frame(old(self).buffered()).0.unwrap(),
            r matches Some(p) ==> p@.valid(),
            final(self).buffered() == next_frame(old(self).buffered()).1,
    {
        proof {
            lemma_next_frame_shrinks(self.red_bytes@);
        }
        loop
            invariant
                next_frame(self.red_bytes@) == next_frame(old(self).red_bytes@),
            decreases self.red_bytes@.len(),
        {
            match Packet::from_bytes_impl(self.red_bytes.as_slice()) {
                Decoded::Incomplete => {
                    return None;
                },
                Decoded::Invalid => {
                    self.red_bytes.remove(0);
                },
                Decoded::Frame(n, packet) => {
                    proof {
                        lemma_complete_frame(self.red_bytes@);
                    }
                    let calc = Packet::checksum(&packet.header, &packet.payload);
                    assert(packet@.params.take(packet@.payload_len - 2) =~= packet@.params);
                    if calc == packet.checksum {
                        let len = self.red_bytes.len();
                        let rest = slice_to_vec(slice_subrange(self.red_bytes.as_slice(), n, len));
                        assert(rest@ =~= self.red_bytes@.skip(n as int));
                        self.red_bytes = rest;
                        return Some(packet);
                    } else {
                        self.red_bytes.remove(0);
                    }
                },
            }
        }
    }
}

impl FrameReader {
    /// Appends received bytes and reads every frame they complete, in order.
    pub fn receive(&mut self, bytes: &[u8]) -> (r: Vec<Packet>)
        ensures
            r@.map_values(|p: Packet| p@) == drain(old(self).buffered() + bytes@).0,
            final(self).buffered() == drain(old(self).buffered() + bytes@).1,
            forall|i: int| 0 <= i < r@.len() ==> (#[trigger] r@[i])@.valid(),
    {
        self.push_bytes(bytes);
        let ghost start = self.red_bytes@;
        let mut out: Vec<Packet> = Vec::new();
        assert(out@.map_values(|p: Packet| p@) + drain(start).0 =~= drain(start).0);
        loop
            invariant
                start == old(self).red_bytes@ + bytes@,
                out@.map_values(|p: Packet| p@) + drain(self.red_bytes@).0 == drain(start).0,
                drain(self.red_bytes@).1 == drain(start).1,
                forall|i: int| 0 <= i < out@.len() ==> (#[trigger] out@[i])@.valid(),
            decreases self.red_bytes@.len(),
        {
            let ghost before = self.red_bytes@;
            proof {
                lemma_next_frame_shrinks(before);
            }
            match self.next_packet() {
                None => {
                    assert(drain(before) == (Seq::<PacketView>::empty(), next_frame(before).1));
                    assert(out@.map_values(|p: Packet| p@) + Seq::<PacketView>::empty() =~= out@.map_values(
                        |p: Packet| p@,
                    ));
                    return out;
                },
                Some(p) => {
                    assert(drain(before) == (
                        seq![p@] + drain(next_frame(before).1).0,
                        drain(next_frame(before).1).1,
                    ));
                    let ghost old_out = out@;
                    out.push(p);
                    assert(out@.map_values(|p: Packet| p@) =~= old_out.map_values(|p: Packet| p@).push(
                        p@,
                    ));
                    assert(out@.map_values(|p: Packet| p@) + drain(self.red_bytes@).0 =~= old_out.map_values(
                        |p: Packet| p@,
                    ) + (seq![p@] + drain(self.red_bytes@).0));
                },
            }
        }
    }
}

proof fn lemma_encode_all_split(ps: Seq<PacketView>, m: int)
    requires
        0 <= m <= ps.len(),
    ensures
        encode_all(ps) == encode_all(ps.take(m)) + encode_all(ps.skip(m)),
    decreases m,
{
    if m == 0 {
        assert(ps.take(0) =~= Seq::<PacketView>::empty());
        assert(ps.skip(0) =~= ps);
        assert(Seq::<u8>::empty() + encode_all(ps) =~= encode_all(ps));
    } else {
        lemma_encode_all_split(ps.drop_first(), m - 1);
        assert(ps.take(m).drop_first() =~= ps.drop_first().take(m - 1));
        assert(ps.skip(m) =~= ps.drop_first().skip(m - 1));
        assert(ps.take(m)[0] == ps[0]);
        assert(encode_all(ps) =~= encode_all(ps.take(m)) + encode_all(ps.skip(m)));
    }
}

/// Whole frames of a valid stream, followed by the start of a frame, read
/// as exactly those frames, leaving the start.
proof fn lemma_drain_frames(ps: Seq<PacketView>, t: Seq<u8>)
    requires
        forall|i: int| 0 <= i < ps.len() ==> (#[trigger] ps[i]).valid(),
        frame_status(t) is Incomplete,
    ensures
        drain(encode_all(ps) + t) == (ps, t),
    decreases ps.len(),
{
    let s = encode_all(ps) + t;
    if ps.len() == 0 {
        assert(s =~= t);
        assert(ps =~= Seq::<PacketView>::empty());
    } else {
        let rest = encode_all(ps.drop_first()) + t;
        assert(s =~= ps[0].encoded() + rest);
        lemma_decode_encoded(ps[0], rest);
        assert(ps[0].valid());
        assert(s.skip(frame_len(s)) =~= rest);
        assert forall|i: int| 0 <= i < ps.drop_first().len() implies (
        #[trigger] ps.drop_first()[i]).valid() by {
            assert(ps[i + 1].valid());
        }
        lemma_drain_frames(ps.drop_first(), t);
        lemma_next_frame_shrinks(s);
        assert(seq![ps[0]] + ps.drop_first() =~= ps);
    }
}

/// A proper start of a valid frame reads as incomplete.
proof fn lemma_partial_frame(p: PacketView, c: int)
    requires
        p.well_formed(),
        0 <= c < p.encoded().len(),
    ensures
        frame_status(p.encoded().take(c)) is Incomplete,
{
    let t = p.encoded().take(c);
    if c >= 3 {
        assert(t[2] == p.payload_len);
    }
    if c >= 1 {
        assert(t[0] == p.sync0);
    }
    if c >= 2 {
        assert(t[1] == p.sync1);
    }
}

/// Frames whose bytes all fit within the first `n` bytes of the stream of `ps`.
pub open spec fn whole_frames(ps: Seq<PacketView>, n: int) -> int
    decreases ps.len(),
{
    if ps.len() == 0 || n < ps[0].encoded().len() {
        0
    } else {
        1 + whole_frames(ps.drop_first(), n - ps[0].encoded().len())
    }
}

proof fn lemma_whole_frames(ps: Seq<PacketView>, x: Seq<u8>, y: Seq<u8>)
    requires
        x + y == encode_all(ps),
    ensures
        0 <= whole_frames(ps, x.len() as int) <= ps.len(),
        encode_all(ps.take(whole_frames(ps, x.len() as int))).len() <= x.len(),
        x == encode_all(ps.take(whole_frames(ps, x.len() as int))) + x.skip(
            encode_all(ps.take(whole_frames(ps, x.len() as int))).len() as int,
        ),
        whole_frames(ps, x.len() as int) < ps.len() ==> {
            let m = whole_frames(ps, x.len() as int);
            let t = x.skip(encode_all(ps.take(m)).len() as int);
            &&& t.len() < ps[m].encoded().len()
            &&& t == ps[m].encoded().take(t.len() as int)
        },
        whole_frames(ps, x.len() as int) == ps.len() ==> x == encode_all(ps) && y.len() == 0,
    decreases ps.len(),
{
    let m = whole_frames(ps, x.len() as int);
    if ps.len() == 0 {
        assert(ps.take(0) =~= Seq::<PacketView>::empty());
        assert(x.skip(0) =~= x);
        assert(Seq::<u8>::empty() + x =~= x);
        assert(x =~= Seq::<u8>::empty());
    } else {
        let e0 = ps[0].encoded();
        assert(encode_all(ps) =~= e0 + encode_all(ps.drop_first()));
        if x.len() < e0.len() {
            assert(ps.take(0) =~= Seq::<PacketView>::empty());
            assert(x.skip(0) =~= x);
            assert(Seq::<u8>::empty() + x =~= x);
            assert(x =~= (x + y).take(x.len() as int));
            assert(x =~= e0.take(x.len() as int));
        } else {
            let x2 = x.skip(e0.len() as int);
            assert(x =~= e0 + x2) by {
                assert(x =~= (x + y).take(x.len() as int));
            }
            assert(x2 + y =~= encode_all(ps.drop_first())) by {
                assert(x2 + y =~= (x + y).skip(e0.len() as int));
                assert((e0 + encode_all(ps.drop_first())).skip(e0.len() as int) =~= encode_all(
                    ps.drop_first(),
                ));
            }
            lemma_whole_frames(ps.drop_first(), x2, y);
            let m2 = whole_frames(ps.drop_first(), x2.len() as int);
            assert(m == m2 + 1);
            assert(ps.take(m).drop_first() =~= ps.drop_first().take(m2));
            assert(ps.take(m)[0] == ps[0]);
            assert(encode_all(ps.take(m)) =~= e0 + encode_all(ps.drop_first().take(m2)));
            assert(x.skip(encode_all(ps.take(m)).len() as int) =~= x2.skip(
                encode_all(ps.drop_first().take(m2)).len() as int,
            ));
            if m2 < ps.drop_first().len() {
                assert(ps[m] == ps.drop_first()[m2]);
            } else {
                assert(ps.drop_first().take(m2) =~= ps.drop_first());
                assert(ps.take(m) =~= ps);
            }
            assert(x =~= encode_all(ps.take(m)) + x.skip(encode_all(ps.take(m)).len() as int));
        }
    }
}

proof fn lemma_feed_frames(ps: Seq<PacketView>, b: Seq<u8>, chunks: Seq<Seq<u8>>)
    requires
        forall|i: int| 0 <= i < ps.len() ==> (#[trigger] ps[i]).valid(),
        b + chunks.flatten() == encode_all(ps),
        ps.len() == 0 ==> b.len() == 0,
        ps.len() > 0 ==> b.len() < ps[0].encoded().len() && b == ps[0].encoded().take(
            b.len() as int,
        ),
    ensures
        feed(b, chunks) == (ps, Seq::<u8>::empty()),
    decreases chunks.len(),
{
    if chunks.len() == 0 {
        assert(b + chunks.flatten() =~= b);
        if ps.len() > 0 {
            assert(encode_all(ps) =~= ps[0].encoded() + encode_all(ps.drop_first()));
        }
        assert(ps =~= Seq::<PacketView>::empty());
        assert(b =~= Seq::<u8>::empty());
    } else {
        let x = b + chunks[0];
        let y = chunks.drop_first().flatten();
        assert(x + y =~= encode_all(ps)) by {
            assert(chunks.flatten() =~= chunks[0] + y);
        }
        lemma_whole_frames(ps, x, y);
        let m = whole_frames(ps, x.len() as int);
        let t = x.skip(encode_all(ps.take(m)).len() as int);
        assert forall|i: int| 0 <= i < ps.take(m).len() implies (#[trigger] ps.take(m)[i]).valid() by {
            assert(ps[i].valid());
        }
        if m < ps.len() {
            assert(ps[m].valid());
            lemma_partial_frame(ps[m], t.len() as int);
        } else {
            assert(ps.take(m) =~= ps);
            assert(t =~= Seq::<u8>::empty());
        }
        lemma_drain_frames(ps.take(m), t);
        lemma_encode_all_split(ps, m);
        assert(t + y =~= encode_all(ps.skip(m))) by {
            assert(x + y =~= encode_all(ps.take(m)) + (t + y));
            assert((x + y).skip(encode_all(ps.take(m)).len() as int) =~= t + y);
        }
        assert forall|i: int| 0 <= i < ps.skip(m).len() implies (#[trigger] ps.skip(m)[i]).valid() by {
            assert(ps[i + m].valid());
        }
        if m < ps.len() {
            assert(ps.skip(m)[0] == ps[m]);
        }
        lemma_feed_frames(ps.skip(m), t, chunks.drop_first());
        assert(ps.take(m) + ps.skip(m) =~= ps);
    }
}

/// Incremental framing: the bytes of valid frames, received in chunks cut
/// anywhere (one byte at a time included), read as exactly those frames, in
/// order, with nothing left over.
pub proof fn lemma_incremental_framing(ps: Seq<PacketView>, chunks: Seq<Seq<u8>>)
    requires
        forall|i: int| 0 <= i < ps.len() ==> (#[trigger] ps[i]).valid(),
        chunks.flatten() == encode_all(ps),
    ensures
        feed(Seq::empty(), chunks) == (ps, Seq::<u8>::empty()),
{
    assert(Seq::<u8>::empty() + chunks.flatten() =~= chunks.flatten());
    if ps.len() > 0 {
        assert(Seq::<u8>::empty() =~= ps[0].encoded().take(0));
    }
    lemma_feed_frames(ps, Seq::empty(), chunks);
}

} // verus!
