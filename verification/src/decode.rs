use vstd::prelude::*;
use crate::ticks::{DepthLevel, MarketDepth, Ohlc, Ratio, Tick, TickMode};

verus! {

/// The unsigned 16-bit value that `b` holds at `at`, most significant byte first.
pub open spec fn be_u16(b: Seq<u8>, at: int) -> u16 {
    (b[at] as int * 0x100 + b[at + 1] as int) as u16
}

/// The unsigned 32-bit value that `b` holds at `at`, most significant byte first.
pub open spec fn be_u32(b: Seq<u8>, at: int) -> u32 {
    (b[at] as int * 0x100_0000 + b[at + 1] as int * 0x1_0000 + b[at + 2] as int * 0x100 + b[at
        + 3] as int) as u32
}

/// The two's-complement reading of an unsigned 32-bit value.
pub open spec fn as_signed(u: u32) -> i32 {
    if u < 0x8000_0000 {
        u as i32
    } else {
        (u as int - 0x1_0000_0000) as i32
    }
}

/// The signed 32-bit value that `b` holds at `at`, most significant byte first.
pub open spec fn be_i32(b: Seq<u8>, at: int) -> i32 {
    as_signed(be_u32(b, at))
}

/// Reads a big-endian `u16` at `*offset` and steps over it, or leaves the
/// offset alone where fewer than two bytes remain.
pub fn read_u16_be(buf: &[u8], offset: &mut usize) -> (r: Option<u16>)
    ensures
        match r {
            Some(v) => {
                &&& *old(offset) + 2 <= buf@.len()
                &&& v == be_u16(buf@, *old(offset) as int)
                &&& *final(offset) == *old(offset) + 2
            },
            None => *old(offset) + 2 > buf@.len() && *final(offset) == *old(offset),
        },
{
    let at: usize = *offset;
    if buf.len() < 2 || at > buf.len() - 2 {
        return None;
    }
    let hi: u16 = buf[at] as u16;
    let lo: u16 = buf[at + 1] as u16;
    *offset = at + 2;
    Some(hi * 0x100 + lo)
}

/// Reads a big-endian `u32` at `*offset` and steps over it, or leaves the
/// offset alone where fewer than four bytes remain.
pub fn read_u32_be(buf: &[u8], offset: &mut usize) -> (r: Option<u32>)
    ensures
        match r {
            Some(v) => {
                &&& *old(offset) + 4 <= buf@.len()
                &&& v == be_u32(buf@, *old(offset) as int)
                &&& *final(offset) == *old(offset) + 4
            },
            None => *old(offset) + 4 > buf@.len() && *final(offset) == *old(offset),
        },
{
    let at: usize = *offset;
    if buf.len() < 4 || at > buf.len() - 4 {
        return None;
    }
    let b0: u32 = buf[at] as u32;
    let b1: u32 = buf[at + 1] as u32;
    let b2: u32 = buf[at + 2] as u32;
    let b3: u32 = buf[at + 3] as u32;
    *offset = at + 4;
    Some(b0 * 0x100_0000 + b1 * 0x1_0000 + b2 * 0x100 + b3)
}

/// The two's-complement reading of `u`.
pub fn signed(u: u32) -> (r: i32)
    ensures
        r == as_signed(u),
{
    if u < 0x8000_0000 {
        u as i32
    } else {
        let low: i32 = (u - 0x8000_0000) as i32;
        low + i32::MIN
    }
}

/// Reads a big-endian two's-complement `i32` at `*offset` and steps over it,
/// or leaves the offset alone where fewer than four bytes remain.
pub fn read_i32_be(buf: &[u8], offset: &mut usize) -> (r: Option<i32>)
    ensures
        match r {
            Some(v) => {
                &&& *old(offset) + 4 <= buf@.len()
                &&& v == be_i32(buf@, *old(offset) as int)
                &&& *final(offset) == *old(offset) + 4
            },
            None => *old(offset) + 4 > buf@.len() && *final(offset) == *old(offset),
        },
{
    match read_u32_be(buf, offset) {
        Some(u) => Some(signed(u)),
        None => None,
    }
}

/// Length of a packet that carries the last traded price only.
pub const LTP_PACKET_LEN: usize = 8;

/// Length of the quote packet of an index.
pub const INDEX_QUOTE_PACKET_LEN: usize = 28;

/// Length of a quote packet.
pub const QUOTE_PACKET_LEN: usize = 44;

/// Length of a full packet, with market depth.
pub const FULL_PACKET_LEN: usize = 184;

/// Whether a packet of `len` bytes is of one of the four known kinds.
pub open spec fn known_packet_len(len: nat) -> bool {
    len == 8 || len == 28 || len == 44 || len == 184
}

/// The change of `last` against the day's `close`, as a ratio of prices; zero
/// where there is no close to compare with.
pub open spec fn change_from_close(last: i32, close: i32) -> Ratio {
    if close != 0 {
        Ratio { num: (last - close) as i64, den: close as i64 }
    } else {
        Ratio { num: 0, den: 1 }
    }
}

/// The depth level that `p` holds in the twelve bytes at `at`: quantity,
/// price, order count, and two bytes that carry nothing.
pub open spec fn depth_level_at(p: Seq<u8>, at: int) -> DepthLevel {
    DepthLevel { quantity: be_u32(p, at), price: be_i32(p, at + 4), orders: be_u16(p, at + 8) }
}

/// Five consecutive depth levels, the first at `at`.
pub open spec fn depth_side_at(p: Seq<u8>, at: int) -> [DepthLevel; 5] {
    [
        depth_level_at(p, at),
        depth_level_at(p, at + 12),
        depth_level_at(p, at + 24),
        depth_level_at(p, at + 36),
        depth_level_at(p, at + 48),
    ]
}

/// What an 8-byte packet says.
pub open spec fn ltp_tick(p: Seq<u8>, received_ns: u64) -> Tick {
    Tick::ltp(be_i32(p, 0), be_i32(p, 4), received_ns)
}

/// What a 28-byte packet says: an index quote, whose change comes from the
/// wire in hundredths.
pub open spec fn index_quote_tick(p: Seq<u8>, received_ns: u64) -> Tick {
    Tick {
        instrument_token: be_i32(p, 0),
        mode: TickMode::Quote,
        last_price: be_i32(p, 4),
        last_quantity: None,
        average_traded_price: None,
        volume_traded: None,
        total_buy_quantity: None,
        total_sell_quantity: None,
        ohlc: Some(
            Ohlc {
                open: be_i32(p, 16),
                high: be_i32(p, 8),
                low: be_i32(p, 12),
                close: be_i32(p, 20),
            },
        ),
        change: Some(Ratio { num: be_i32(p, 24) as i64, den: 100 }),
        last_trade_time: None,
        open_interest: None,
        oi_day_high: None,
        oi_day_low: None,
        exchange_timestamp: None,
        depth: None,
        received_ns,
    }
}

/// What a 44-byte packet says: a quote, whose change is taken against the close.
pub open spec fn quote_tick(p: Seq<u8>, received_ns: u64) -> Tick {
    Tick {
        instrument_token: be_i32(p, 0),
        mode: TickMode::Quote,
        last_price: be_i32(p, 4),
        last_quantity: Some(be_u32(p, 8)),
        average_traded_price: Some(be_i32(p, 12)),
        volume_traded: Some(be_u32(p, 16)),
        total_buy_quantity: Some(be_u32(p, 20)),
        total_sell_quantity: Some(be_u32(p, 24)),
        ohlc: Some(
            Ohlc {
                open: be_i32(p, 28),
                high: be_i32(p, 32),
                low: be_i32(p, 36),
                close: be_i32(p, 40),
            },
        ),
        change: Some(change_from_close(be_i32(p, 4), be_i32(p, 40))),
        last_trade_time: None,
        open_interest: None,
        oi_day_high: None,
        oi_day_low: None,
        exchange_timestamp: None,
        depth: None,
        received_ns,
    }
}

/// What a 184-byte packet says: the quote fields, then trade time, open
/// interest and exchange time, then five bids and five offers.
pub open spec fn full_tick(p: Seq<u8>, received_ns: u64) -> Tick {
    Tick {
        instrument_token: be_i32(p, 0),
        mode: TickMode::Full,
        last_price: be_i32(p, 4),
        last_quantity: Some(be_u32(p, 8)),
        average_traded_price: Some(be_i32(p, 12)),
        volume_traded: Some(be_u32(p, 16)),
        total_buy_quantity: Some(be_u32(p, 20)),
        total_sell_quantity: Some(be_u32(p, 24)),
        ohlc: Some(
            Ohlc {
                open: be_i32(p, 28),
                high: be_i32(p, 32),
                low: be_i32(p, 36),
                close: be_i32(p, 40),
            },
        ),
        change: Some(change_from_close(be_i32(p, 4), be_i32(p, 40))),
        last_trade_time: Some(be_u32(p, 44)),
        open_interest: Some(be_u32(p, 48)),
        oi_day_high: Some(be_u32(p, 52)),
        oi_day_low: Some(be_u32(p, 56)),
        exchange_timestamp: Some(be_u32(p, 60)),
        depth: Some(MarketDepth { buy: depth_side_at(p, 64), sell: depth_side_at(p, 124) }),
        received_ns,
    }
}

/// The tick that a packet stands for. Its kind follows from its length alone;
/// a packet of any other length stands for none.
pub open spec fn packet_tick(p: Seq<u8>, received_ns: u64) -> Option<Tick> {
    if p.len() == 8 {
        Some(ltp_tick(p, received_ns))
    } else if p.len() == 28 {
        Some(index_quote_tick(p, received_ns))
    } else if p.len() == 44 {
        Some(quote_tick(p, received_ns))
    } else if p.len() == 184 {
        Some(full_tick(p, received_ns))
    } else {
        None
    }
}

/// The change of `last` against `close`.
pub fn change_against_close(last: i32, close: i32) -> (r: Ratio)
    ensures
        r == change_from_close(last, close),
{
    if close != 0 {
        Ratio { num: last as i64 - close as i64, den: close as i64 }
    } else {
        Ratio { num: 0, den: 1 }
    }
}

/// Reads one depth level at `*offset` and steps over its twelve bytes.
fn read_depth_level(buf: &[u8], offset: &mut usize) -> (r: Option<DepthLevel>)
    ensures
        match r {
            Some(level) => {
                &&& *old(offset) + 12 <= buf@.len()
                &&& level == depth_level_at(buf@, *old(offset) as int)
                &&& *final(offset) == *old(offset) + 12
            },
            None => *old(offset) + 12 > buf@.len(),
        },
{
    let quantity = read_u32_be(buf, offset)?;
    let price = read_i32_be(buf, offset)?;
    let orders = read_u16_be(buf, offset)?;
    let _reserved = read_u16_be(buf, offset)?;
    Some(DepthLevel { quantity, price, orders })
}

/// Reads five depth levels at `*offset` and steps over their sixty bytes.
fn read_depth_side(buf: &[u8], offset: &mut usize) -> (r: Option<[DepthLevel; 5]>)
    ensures
        match r {
            Some(side) => {
                &&& *old(offset) + 60 <= buf@.len()
                &&& side == depth_side_at(buf@, *old(offset) as int)
                &&& *final(offset) == *old(offset) + 60
            },
            None => *old(offset) + 60 > buf@.len(),
        },
{
    let first = read_depth_level(buf, offset)?;
    let second = read_depth_level(buf, offset)?;
    let third = read_depth_level(buf, offset)?;
    let fourth = read_depth_level(buf, offset)?;
    let fifth = read_depth_level(buf, offset)?;
    Some([first, second, third, fourth, fifth])
}

/// Decodes one packet. The first eight bytes of every known packet are the
/// instrument token and the last traded price; what follows depends on the
/// length. A packet of unknown length yields nothing.
pub fn decode_packet(packet: &[u8], received_ns: u64) -> (r: Option<Tick>)
    ensures
        r == packet_tick(packet@, received_ns),
{
    if packet.len() < 8 {
        return None;
    }
    let mut offset: usize = 0;
    let instrument_token = read_i32_be(packet, &mut offset)?;
    let last_price = read_i32_be(packet, &mut offset)?;

    let len = packet.len();
    if len == LTP_PACKET_LEN {
        Some(Tick::new_ltp(instrument_token, last_price, received_ns))
    } else if len == INDEX_QUOTE_PACKET_LEN {
        let high = read_i32_be(packet, &mut offset)?;
        let low = read_i32_be(packet, &mut offset)?;
        let open = read_i32_be(packet, &mut offset)?;
        let close = read_i32_be(packet, &mut offset)?;
        let change = read_i32_be(packet, &mut offset)?;
        Some(
            Tick {
                instrument_token,
                mode: TickMode::Quote,
                last_price,
                last_quantity: None,
                average_traded_price: None,
                volume_traded: None,
                total_buy_quantity: None,
                total_sell_quantity: None,
                ohlc: Some(Ohlc { open, high, low, close }),
                change: Some(Ratio { num: change as i64, den: 100 }),
                last_trade_time: None,
                open_interest: None,
                oi_day_high: None,
                oi_day_low: None,
                exchange_timestamp: None,
                depth: None,
                received_ns,
            },
        )
    } else if len == QUOTE_PACKET_LEN || len == FULL_PACKET_LEN {
        let last_quantity = read_u32_be(packet, &mut offset)?;
        let average = read_i32_be(packet, &mut offset)?;
        let volume = read_u32_be(packet, &mut offset)?;
        let buy_quantity = read_u32_be(packet, &mut offset)?;
        let sell_quantity = read_u32_be(packet, &mut offset)?;
        let open = read_i32_be(packet, &mut offset)?;
        let high = read_i32_be(packet, &mut offset)?;
        let low = read_i32_be(packet, &mut offset)?;
        let close = read_i32_be(packet, &mut offset)?;
        let mut tick = Tick {
            instrument_token,
            mode: TickMode::Quote,
            last_price,
            last_quantity: Some(last_quantity),
            average_traded_price: Some(average),
            volume_traded: Some(volume),
            total_buy_quantity: Some(buy_quantity),
            total_sell_quantity: Some(sell_quantity),
            ohlc: Some(Ohlc { open, high, low, close }),
            change: Some(change_against_close(last_price, close)),
            last_trade_time: None,
            open_interest: None,
            oi_day_high: None,
            oi_day_low: None,
            exchange_timestamp: None,
            depth: None,
            received_ns,
        };
        if len == FULL_PACKET_LEN {
            let last_trade_time = read_u32_be(packet, &mut offset)?;
            let open_interest = read_u32_be(packet, &mut offset)?;
            let oi_day_high = read_u32_be(packet, &mut offset)?;
            let oi_day_low = read_u32_be(packet, &mut offset)?;
            let exchange_timestamp = read_u32_be(packet, &mut offset)?;
            let buy = read_depth_side(packet, &mut offset)?;
            let sell = read_depth_side(packet, &mut offset)?;
            tick.mode = TickMode::Full;
            tick.last_trade_time = Some(last_trade_time);
            tick.open_interest = Some(open_interest);
            tick.oi_day_high = Some(oi_day_high);
            tick.oi_day_low = Some(oi_day_low);
            tick.exchange_timestamp = Some(exchange_timestamp);
            tick.depth = Some(MarketDepth { buy, sell });
        }
        Some(tick)
    } else {
        None
    }
}

/// The ticks of the packets that `frame` holds from `at` on, where the frame
/// announces `count` more packets. Each packet is a big-endian `u16` length
/// and that many bytes. Reading stops at the first length or packet that
/// would run past the end of the frame.
pub open spec fn ticks_from(frame: Seq<u8>, at: int, count: nat, received_ns: u64) -> Seq<Tick>
    decreases count,
{
    if count == 0 || at + 2 > frame.len() {
        Seq::empty()
    } else {
        let start = at + 2;
        let end = start + be_u16(frame, at);
        if end > frame.len() {
            Seq::empty()
        } else {
            let rest = ticks_from(frame, end, (count - 1) as nat, received_ns);
            match packet_tick(frame.subrange(start, end), received_ns) {
                Some(tick) => seq![tick] + rest,
                None => rest,
            }
        }
    }
}

/// The ticks that a frame stands for: a big-endian `u16` packet count, then
/// the packets. A frame too short to hold the count stands for none.
pub open spec fn frame_ticks(frame: Seq<u8>, received_ns: u64) -> Seq<Tick> {
    if frame.len() < 2 {
        Seq::empty()
    } else {
        ticks_from(frame, 2, be_u16(frame, 0) as nat, received_ns)
    }
}

/// Decodes a binary frame into its ticks, in the order of the packets.
///
/// Nothing in a frame is an error: a packet of unknown length is passed
/// over, and a frame cut short yields the ticks of the packets that are
/// wholly there.
pub fn decode_binary_ticks(payload: &[u8], received_ns: u64) -> (out: Vec<Tick>)
    ensures
        out@ == frame_ticks(payload@, received_ns),
{
    let mut out: Vec<Tick> = Vec::new();
    if payload.len() < 2 {
        return out;
    }
    let mut offset: usize = 0;
    let mut remaining: usize = match read_u16_be(payload, &mut offset) {
        Some(n) => n as usize,
        None => 0,
    };
    while remaining > 0
        invariant
            offset <= payload@.len(),
            out@ + ticks_from(payload@, offset as int, remaining as nat, received_ns)
                == frame_ticks(payload@, received_ns),
        decreases remaining,
    {
        let packet_len: usize = match read_u16_be(payload, &mut offset) {
            Some(len) => len as usize,
            None => {
                return out;
            },
        };
        if packet_len > payload.len() - offset {
            return out;
        }
        let end: usize = offset + packet_len;
        let packet = &payload[offset..end];
        assert(packet@ == payload@.subrange(offset as int, end as int));
        let ghost rest = ticks_from(payload@, end as int, (remaining - 1) as nat, received_ns);
        offset = end;
        match decode_packet(packet, received_ns) {
            Some(tick) => {
                assert((out@.push(tick)) + rest == out@ + (seq![tick] + rest));
                out.push(tick);
            },
            None => {},
        }
        remaining = remaining - 1;
    }
    out
}

} // verus!
