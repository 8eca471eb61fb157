use vstd::prelude::*;
use crate::decode::{
    be_i32, be_u16, frame_ticks, known_packet_len, packet_tick, ticks_from,
};
use crate::ticks::{Ohlc, Tick};

verus! {

/// The two bytes of `n`, most significant first.
pub open spec fn u16_be_bytes(n: nat) -> Seq<u8> {
    seq![(n / 0x100) as u8, (n % 0x100) as u8]
}

/// The packets laid end to end, each behind its two-byte length.
pub open spec fn packets_bytes(packets: Seq<Seq<u8>>) -> Seq<u8>
    decreases packets.len(),
{
    if packets.len() == 0 {
        Seq::empty()
    } else {
        u16_be_bytes(packets[0].len()) + packets[0] + packets_bytes(packets.drop_first())
    }
}

/// The frame that carries `packets`: their count, then the packets.
pub open spec fn frame_of(packets: Seq<Seq<u8>>) -> Seq<u8> {
    u16_be_bytes(packets.len()) + packets_bytes(packets)
}

/// The ticks of `packets`, in order; a packet of unknown length gives none.
pub open spec fn packets_ticks(packets: Seq<Seq<u8>>, received_ns: u64) -> Seq<Tick>
    decreases packets.len(),
{
    if packets.len() == 0 {
        Seq::empty()
    } else {
        let rest = packets_ticks(packets.drop_first(), received_ns);
        match packet_tick(packets[0], received_ns) {
            Some(tick) => seq![tick] + rest,
            None => rest,
        }
    }
}

/// Whether a frame can carry `packets`: the count and every length fit in
/// sixteen bits.
pub open spec fn fits_a_frame(packets: Seq<Seq<u8>>) -> bool {
    &&& packets.len() <= 0xFFFF
    &&& forall|i: int| 0 <= i < packets.len() ==> (#[trigger] packets[i]).len() <= 0xFFFF
}

proof fn lemma_u16_round_trip(b: Seq<u8>, at: int, n: nat)
    requires
        0 <= at,
        at + 2 <= b.len(),
        n <= 0xFFFF,
        b[at] == u16_be_bytes(n)[0],
        b[at + 1] == u16_be_bytes(n)[1],
    ensures
        be_u16(b, at) == n,
{
}

proof fn lemma_ticks_from_packets(frame: Seq<u8>, at: int, packets: Seq<Seq<u8>>, received_ns: u64)
    requires
        0 <= at <= frame.len(),
        frame.subrange(at, frame.len() as int) == packets_bytes(packets),
        forall|i: int| 0 <= i < packets.len() ==> (#[trigger] packets[i]).len() <= 0xFFFF,
    ensures
        ticks_from(frame, at, packets.len(), received_ns) == packets_ticks(packets, received_ns),
    decreases packets.len(),
{
    if packets.len() > 0 {
        let first = packets[0];
        let rest = packets.drop_first();
        let tail = frame.subrange(at, frame.len() as int);
        let head = u16_be_bytes(first.len());
        let rest_bytes = packets_bytes(rest);
        assert(tail == head + first + rest_bytes);
        assert(tail.len() == 2 + first.len() + rest_bytes.len());
        assert(frame[at] == tail[0]);
        assert(frame[at + 1] == tail[1]);
        lemma_u16_round_trip(frame, at, first.len());
        let start = at + 2;
        let end = start + first.len();
        assert(frame.subrange(start, end) =~= first) by {
            assert forall|i: int| 0 <= i < first.len() implies frame.subrange(start, end)[i]
                == first[i] by {
                assert(frame[start + i] == tail[2 + i]);
            }
        }
        assert(frame.subrange(end, frame.len() as int) =~= rest_bytes) by {
            assert forall|i: int| 0 <= i < rest_bytes.len() implies frame.subrange(
                end,
                frame.len() as int,
            )[i] == rest_bytes[i] by {
                assert(frame[end + i] == tail[2 + first.len() + i]);
            }
        }
        assert forall|i: int| 0 <= i < rest.len() implies (#[trigger] rest[i]).len() <= 0xFFFF by {
            assert(rest[i] == packets[i + 1]);
        }
        lemma_ticks_from_packets(frame, end, rest, received_ns);
    }
}

/// A frame built from packets decodes to the ticks of those packets, in
/// order, whatever their lengths: a packet of unknown length adds nothing
/// and takes nothing away from the packets after it.
pub proof fn lemma_frame_of_packets(packets: Seq<Seq<u8>>, received_ns: u64)
    requires
        fits_a_frame(packets),
    ensures
        frame_ticks(frame_of(packets), received_ns) == packets_ticks(packets, received_ns),
{
    let frame = frame_of(packets);
    let head = u16_be_bytes(packets.len());
    assert(frame[0] == head[0]);
    assert(frame[1] == head[1]);
    lemma_u16_round_trip(frame, 0, packets.len());
    assert(frame.subrange(2, frame.len() as int) =~= packets_bytes(packets));
    lemma_ticks_from_packets(frame, 2, packets, received_ns);
}

proof fn lemma_known_packets_ticks(packets: Seq<Seq<u8>>, received_ns: u64)
    requires
        forall|i: int| 0 <= i < packets.len() ==> known_packet_len((#[trigger] packets[i]).len()),
    ensures
        packets_ticks(packets, received_ns).len() == packets.len(),
        forall|i: int|
            0 <= i < packets.len() ==> Some(#[trigger] packets_ticks(packets, received_ns)[i])
                == packet_tick(packets[i], received_ns),
    decreases packets.len(),
{
    if packets.len() > 0 {
        let rest = packets.drop_first();
        assert forall|i: int| 0 <= i < rest.len() implies known_packet_len(
            (#[trigger] rest[i]).len(),
        ) by {
            assert(rest[i] == packets[i + 1]);
        }
        lemma_known_packets_ticks(rest, received_ns);
        assert(known_packet_len(packets[0].len()));
        let ticks = packets_ticks(packets, received_ns);
        let rest_ticks = packets_ticks(rest, received_ns);
        assert forall|i: int| 0 <= i < packets.len() implies Some(#[trigger] ticks[i])
            == packet_tick(packets[i], received_ns) by {
            if i > 0 {
                assert(ticks[i] == rest_ticks[i - 1]);
                assert(rest[i - 1] == packets[i]);
            }
        }
    }
}

/// Round trip: a frame built from packets of the four known lengths, in any
/// order, decodes to exactly one tick for each packet, in the same order,
/// and each is the tick of its packet.
pub proof fn lemma_known_packets_round_trip(packets: Seq<Seq<u8>>, received_ns: u64)
    requires
        fits_a_frame(packets),
        forall|i: int| 0 <= i < packets.len() ==> known_packet_len((#[trigger] packets[i]).len()),
    ensures
        frame_ticks(frame_of(packets), received_ns).len() == packets.len(),
        forall|i: int|
            0 <= i < packets.len() ==> Some(
                #[trigger] frame_ticks(frame_of(packets), received_ns)[i],
            ) == packet_tick(packets[i], received_ns),
{
    lemma_frame_of_packets(packets, received_ns);
    lemma_known_packets_ticks(packets, received_ns);
}

/// The ticks of two runs of packets laid end to end are the ticks of the
/// first run, then those of the second.
pub proof fn lemma_packets_ticks_concat(a: Seq<Seq<u8>>, b: Seq<Seq<u8>>, received_ns: u64)
    ensures
        packets_ticks(a + b, received_ns) == packets_ticks(a, received_ns) + packets_ticks(
            b,
            received_ns,
        ),
    decreases a.len(),
{
    if a.len() == 0 {
        assert(a + b =~= b);
    } else {
        assert((a + b).drop_first() =~= a.drop_first() + b);
        lemma_packets_ticks_concat(a.drop_first(), b, received_ns);
    }
}

/// A packet of unknown length is dropped, and the packets before and after
/// it in the same frame decode as if it were not there.
pub proof fn lemma_unknown_packet_is_skipped(
    before: Seq<Seq<u8>>,
    unknown: Seq<u8>,
    after: Seq<Seq<u8>>,
    received_ns: u64,
)
    requires
        fits_a_frame(before + seq![unknown] + after),
        !known_packet_len(unknown.len()),
    ensures
        frame_ticks(frame_of(before + seq![unknown] + after), received_ns) == packets_ticks(
            before,
            received_ns,
        ) + packets_ticks(after, received_ns),
{
    let one = seq![unknown];
    lemma_frame_of_packets(before + one + after, received_ns);
    lemma_packets_ticks_concat(before + one, after, received_ns);
    lemma_packets_ticks_concat(before, one, received_ns);
    assert(one.drop_first() =~= Seq::<Seq<u8>>::empty());
    assert(packets_ticks(one, received_ns) =~= Seq::<Tick>::empty()) by {
        reveal_with_fuel(packets_ticks, 2);
    }
}

proof fn lemma_truncated_ticks_from(frame: Seq<u8>, keep: int, at: int, count: nat, received_ns: u64)
    requires
        0 <= keep <= frame.len(),
        0 <= at,
    ensures
        ticks_from(frame.subrange(0, keep), at, count, received_ns).is_prefix_of(
            ticks_from(frame, at, count, received_ns),
        ),
    decreases count,
{
    let cut = frame.subrange(0, keep);
    if count == 0 || at + 2 > cut.len() {
    } else {
        assert(cut[at] == frame[at]);
        assert(cut[at + 1] == frame[at + 1]);
        let start = at + 2;
        let end = start + be_u16(frame, at);
        if end > cut.len() {
        } else {
            assert(cut.subrange(start, end) =~= frame.subrange(start, end));
            lemma_truncated_ticks_from(frame, keep, end, (count - 1) as nat, received_ns);
        }
    }
}

/// Robustness: a frame cut off after any number of bytes decodes to a
/// prefix of the ticks of the whole frame.
pub proof fn lemma_truncated_frame_yields_prefix(frame: Seq<u8>, keep: int, received_ns: u64)
    requires
        0 <= keep <= frame.len(),
    ensures
        frame_ticks(frame.subrange(0, keep), received_ns).is_prefix_of(
            frame_ticks(frame, received_ns),
        ),
{
    let cut = frame.subrange(0, keep);
    if cut.len() >= 2 {
        assert(cut[0] == frame[0]);
        assert(cut[1] == frame[1]);
        lemma_truncated_ticks_from(frame, keep, 2, be_u16(frame, 0) as nat, received_ns);
    }
}

/// Price scale: every price of a decoded tick is the signed integer that the
/// packet holds at that field's place, in paise, with no scaling applied.
pub proof fn lemma_prices_are_wire_values(p: Seq<u8>, received_ns: u64)
    requires
        known_packet_len(p.len()),
    ensures
        packet_tick(p, received_ns) is Some,
        packet_tick(p, received_ns)->0.last_price == be_i32(p, 4),
        p.len() == 8 ==> packet_tick(p, received_ns)->0.ohlc is None,
        p.len() == 28 ==> packet_tick(p, received_ns)->0.ohlc == Some(
            Ohlc {
                open: be_i32(p, 16),
                high: be_i32(p, 8),
                low: be_i32(p, 12),
                close: be_i32(p, 20),
            },
        ),
        p.len() == 44 || p.len() == 184 ==> {
            &&& packet_tick(p, received_ns)->0.average_traded_price == Some(be_i32(p, 12))
            &&& packet_tick(p, received_ns)->0.ohlc == Some(
                Ohlc {
                    open: be_i32(p, 28),
                    high: be_i32(p, 32),
                    low: be_i32(p, 36),
                    close: be_i32(p, 40),
                },
            )
        },
        p.len() == 184 ==> forall|i: int|
            0 <= i < 5 ==> {
                &&& (#[trigger] packet_tick(p, received_ns)->0.depth->0.buy[i]).price == be_i32(
                    p,
                    68 + 12 * i,
                )
                &&& packet_tick(p, received_ns)->0.depth->0.sell[i].price == be_i32(p, 128 + 12 * i)
            },
{
}

proof fn lemma_ticks_from_bounded(frame: Seq<u8>, at: int, count: nat, received_ns: u64)
    ensures
        ticks_from(frame, at, count, received_ns).len() <= count,
        forall|i: int|
            0 <= i < ticks_from(frame, at, count, received_ns).len() ==> (#[trigger] ticks_from(
                frame,
                at,
                count,
                received_ns,
            )[i]).received_ns == received_ns,
    decreases count,
{
    if count == 0 || at + 2 > frame.len() {
    } else {
        let start = at + 2;
        let end = start + be_u16(frame, at);
        if end <= frame.len() {
            lemma_ticks_from_bounded(frame, end, (count - 1) as nat, received_ns);
        }
    }
}

/// A frame never yields more ticks than the packets it announces, and
/// every tick carries the time of receipt of its frame.
pub proof fn lemma_frame_ticks_bounded(frame: Seq<u8>, received_ns: u64)
    ensures
        frame.len() >= 2 ==> frame_ticks(frame, received_ns).len() <= be_u16(frame, 0),
        frame.len() < 2 ==> frame_ticks(frame, received_ns).len() == 0,
        forall|i: int|
            0 <= i < frame_ticks(frame, received_ns).len() ==> (#[trigger] frame_ticks(
                frame,
                received_ns,
            )[i]).received_ns == received_ns,
{
    if frame.len() >= 2 {
        lemma_ticks_from_bounded(frame, 2, be_u16(frame, 0) as nat, received_ns);
    }
}

} // verus!
