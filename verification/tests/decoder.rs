use zatamap_trade_rust::decode::{decode_binary_ticks, decode_packet};
use zatamap_trade_rust::ticks::{Ratio, TickMode};

fn be16(n: u16) -> Vec<u8> {
    n.to_be_bytes().to_vec()
}

fn be32(n: u32) -> Vec<u8> {
    n.to_be_bytes().to_vec()
}

fn bei32(n: i32) -> Vec<u8> {
    n.to_be_bytes().to_vec()
}

fn frame(packets: &[Vec<u8>]) -> Vec<u8> {
    let mut out = be16(packets.len() as u16);
    for p in packets {
        out.extend(be16(p.len() as u16));
        out.extend(p.iter().copied());
    }
    out
}

fn index_packet(token: u32, last: i32, high: i32, low: i32, open: i32, close: i32, change: i32) -> Vec<u8> {
    let mut p = be32(token);
    for v in [last, high, low, open, close, change] {
        p.extend(bei32(v));
    }
    p
}

fn quote_packet(token: u32, last: i32, close: i32) -> Vec<u8> {
    let mut p = be32(token);
    p.extend(bei32(last));
    p.extend(be32(7));
    p.extend(bei32(10_050));
    p.extend(be32(1_000));
    p.extend(be32(300));
    p.extend(be32(400));
    p.extend(bei32(10_010));
    p.extend(bei32(10_200));
    p.extend(bei32(9_900));
    p.extend(bei32(close));
    p
}

fn full_packet(token: u32, last: i32, close: i32) -> Vec<u8> {
    let mut p = quote_packet(token, last, close);
    p.extend(be32(1_700_000_000));
    p.extend(be32(5_000));
    p.extend(be32(6_000));
    p.extend(be32(4_000));
    p.extend(be32(1_700_000_001));
    for i in 0..10u32 {
        p.extend(be32(100 + i));
        p.extend(bei32(10_000 + 5 * i as i32));
        p.extend(be16(3 + i as u16));
        p.extend(be16(0));
    }
    p
}

#[test]
fn ltp_only_frame() {
    let bytes = [0x00, 0x01, 0x00, 0x08, 0x00, 0x01, 0x00, 0x01, 0x00, 0x00, 0x27, 0x10];
    let ticks = decode_binary_ticks(&bytes, 42);
    assert_eq!(ticks.len(), 1);
    assert_eq!(ticks[0].instrument_token, 65537);
    assert_eq!(ticks[0].last_price, 10_000);
    assert_eq!(ticks[0].mode, TickMode::Ltp);
    assert_eq!(ticks[0].received_ns, 42);
    assert!(ticks[0].ohlc.is_none());
    assert!(ticks[0].depth.is_none());
}

#[test]
fn index_quote_two_packets() {
    let first = index_packet(256265, 1_999_000, 2_000_000, 1_995_000, 1_998_000, 1_997_500, 150);
    let second = index_packet(260105, 4_400_000, 4_410_000, 4_390_000, 4_395_000, 4_399_000, -25);
    let ticks = decode_binary_ticks(&frame(&[first, second]), 7);
    assert_eq!(ticks.len(), 2);
    let t = &ticks[0];
    assert_eq!(t.instrument_token, 256265);
    assert_eq!(t.mode, TickMode::Quote);
    assert_eq!(t.last_price, 1_999_000);
    let ohlc = t.ohlc.unwrap();
    assert_eq!((ohlc.high, ohlc.low, ohlc.open, ohlc.close), (2_000_000, 1_995_000, 1_998_000, 1_997_500));
    assert_eq!(t.change, Some(Ratio { num: 150, den: 100 }));
    assert!(t.last_quantity.is_none());
    assert_eq!(ticks[1].instrument_token, 260105);
    assert_eq!(ticks[1].change, Some(Ratio { num: -25, den: 100 }));
}

#[test]
fn quote_packet_fields_and_change() {
    let ticks = decode_binary_ticks(&frame(&[quote_packet(11, 10_100, 10_000)]), 1);
    assert_eq!(ticks.len(), 1);
    let t = &ticks[0];
    assert_eq!(t.mode, TickMode::Quote);
    assert_eq!(t.last_quantity, Some(7));
    assert_eq!(t.average_traded_price, Some(10_050));
    assert_eq!(t.volume_traded, Some(1_000));
    assert_eq!(t.total_buy_quantity, Some(300));
    assert_eq!(t.total_sell_quantity, Some(400));
    let ohlc = t.ohlc.unwrap();
    assert_eq!((ohlc.open, ohlc.high, ohlc.low, ohlc.close), (10_010, 10_200, 9_900, 10_000));
    assert_eq!(t.change, Some(Ratio { num: 100, den: 10_000 }));
    assert!(t.open_interest.is_none());
}

#[test]
fn change_is_zero_without_close() {
    let t = decode_packet(&quote_packet(11, 10_100, 0), 1).unwrap();
    assert_eq!(t.change, Some(Ratio { num: 0, den: 1 }));
}

#[test]
fn full_packet_with_depth() {
    let t = decode_packet(&full_packet(99, 10_100, 10_000), 5).unwrap();
    assert_eq!(t.mode, TickMode::Full);
    assert_eq!(t.last_trade_time, Some(1_700_000_000));
    assert_eq!(t.open_interest, Some(5_000));
    assert_eq!(t.oi_day_high, Some(6_000));
    assert_eq!(t.oi_day_low, Some(4_000));
    assert_eq!(t.exchange_timestamp, Some(1_700_000_001));
    let depth = t.depth.unwrap();
    for i in 0..5 {
        assert_eq!(depth.buy[i].quantity, 100 + i as u32);
        assert_eq!(depth.buy[i].price, 10_000 + 5 * i as i32);
        assert_eq!(depth.buy[i].orders, 3 + i as u16);
        assert_eq!(depth.sell[i].quantity, 105 + i as u32);
        assert_eq!(depth.sell[i].price, 10_025 + 5 * i as i32);
        assert_eq!(depth.sell[i].orders, 8 + i as u16);
    }
}

#[test]
fn truncated_full_packet_yields_nothing() {
    let whole = frame(&[full_packet(99, 10_100, 10_000)]);
    let cut = &whole[..4 + 120];
    assert!(decode_binary_ticks(cut, 5).is_empty());
}

#[test]
fn negative_values_are_twos_complement() {
    let mut p = be32(0xFFFF_FFFF);
    p.extend(bei32(-1));
    let t = decode_packet(&p, 0).unwrap();
    assert_eq!(t.instrument_token, -1);
    assert_eq!(t.last_price, -1);
    let mut q = be32(0x8000_0000);
    q.extend(bei32(i32::MIN));
    let t = decode_packet(&q, 0).unwrap();
    assert_eq!(t.instrument_token, i32::MIN);
    assert_eq!(t.last_price, i32::MIN);
}

#[test]
fn unknown_length_is_skipped() {
    let odd = vec![1u8; 13];
    let a = index_packet(1, 100, 0, 0, 0, 0, 0);
    let b = quote_packet(2, 200, 100);
    let ticks = decode_binary_ticks(&frame(&[a, odd, b]), 0);
    assert_eq!(ticks.len(), 2);
    assert_eq!(ticks[0].instrument_token, 1);
    assert_eq!(ticks[1].instrument_token, 2);
    assert!(decode_packet(&[0u8; 7], 0).is_none());
    assert!(decode_packet(&[0u8; 9], 0).is_none());
}

#[test]
fn round_trip_keeps_order() {
    let packets = vec![
        full_packet(4, 40, 10),
        be32(1).into_iter().chain(bei32(10)).collect::<Vec<u8>>(),
        quote_packet(3, 30, 10),
        index_packet(2, 20, 1, 2, 3, 4, 5),
    ];
    let ticks = decode_binary_ticks(&frame(&packets), 9);
    assert_eq!(ticks.len(), 4);
    let tokens: Vec<i32> = ticks.iter().map(|t| t.instrument_token).collect();
    assert_eq!(tokens, vec![4, 1, 3, 2]);
    for (t, p) in ticks.iter().zip(packets.iter()) {
        assert_eq!(Some(*t), decode_packet(p, 9));
    }
}

#[test]
fn truncation_yields_a_prefix() {
    let packets = vec![quote_packet(3, 30, 10), index_packet(2, 20, 1, 2, 3, 4, 5), full_packet(4, 40, 10)];
    let whole = frame(&packets);
    let all = decode_binary_ticks(&whole, 9);
    for keep in 0..=whole.len() {
        let part = decode_binary_ticks(&whole[..keep], 9);
        assert!(part.len() <= all.len());
        assert_eq!(&all[..part.len()], &part[..]);
    }
}

#[test]
fn short_frames_decode_to_nothing() {
    assert!(decode_binary_ticks(&[], 0).is_empty());
    assert!(decode_binary_ticks(&[0], 0).is_empty());
    assert!(decode_binary_ticks(&[0, 3], 0).is_empty());
    assert!(decode_binary_ticks(&[0, 1, 0], 0).is_empty());
}

#[test]
fn count_bounds_the_packets_read() {
    let a = index_packet(1, 100, 0, 0, 0, 0, 0);
    let mut bytes = frame(&[a.clone(), a.clone()]);
    bytes[1] = 1;
    assert_eq!(decode_binary_ticks(&bytes, 0).len(), 1);
}
