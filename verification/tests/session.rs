use zatamap_trade_rust::backoff::{Backoff, SessionEnd};
use zatamap_trade_rust::error::AppError;
use zatamap_trade_rust::session::{Message, SessionAction, SessionEvent, SessionState};
use zatamap_trade_rust::store::TickStore;
use zatamap_trade_rust::subscribe::subscription_messages;
use zatamap_trade_rust::ticks::TokenMeta;
use zatamap_trade_rust::ws::{handshake_headers, KiteTickerWs, TickLogConfig};

const LTP_FRAME: [u8; 12] = [0x00, 0x01, 0x00, 0x08, 0x00, 0x01, 0x00, 0x01, 0x00, 0x00, 0x27, 0x10];

fn log() -> TickLogConfig {
    TickLogConfig { enabled: true, interval_ms: 500 }
}

fn client(tokens: Vec<i32>) -> KiteTickerWs {
    KiteTickerWs::new("key".to_string(), "tok".to_string(), tokens, log())
}

fn expected_subscribe(tokens: &[i32]) -> String {
    let mut map = serde_json::Map::new();
    map.insert("a".to_string(), serde_json::Value::from("subscribe"));
    map.insert("v".to_string(), serde_json::Value::from(tokens.to_vec()));
    serde_json::Value::Object(map).to_string()
}

fn expected_mode(tokens: &[i32]) -> String {
    let mut map = serde_json::Map::new();
    map.insert("a".to_string(), serde_json::Value::from("mode"));
    map.insert(
        "v".to_string(),
        serde_json::Value::Array(vec![serde_json::Value::from("full"), serde_json::Value::from(tokens.to_vec())]),
    );
    serde_json::Value::Object(map).to_string()
}

#[test]
fn subscription_texts_are_exact() {
    let messages = subscription_messages(&[256265, -7, 0]);
    assert_eq!(
        messages,
        vec![
            "{\"a\":\"subscribe\",\"v\":[256265,-7,0]}".to_string(),
            "{\"a\":\"mode\",\"v\":[\"full\",[256265,-7,0]]}".to_string(),
        ]
    );
    assert_eq!(messages[0], expected_subscribe(&[256265, -7, 0]));
    assert_eq!(messages[1], expected_mode(&[256265, -7, 0]));
    let extremes = subscription_messages(&[i32::MIN, i32::MAX]);
    assert_eq!(extremes[0], expected_subscribe(&[i32::MIN, i32::MAX]));
}

#[test]
fn subscription_goes_out_in_chunks_of_300() {
    for k in [0usize, 1, 299, 300, 301, 600, 601, 1000] {
        let tokens: Vec<i32> = (0..k as i32).map(|i| i * 3 - 100).collect();
        let messages = subscription_messages(&tokens);
        let chunks = (k + 299) / 300;
        assert_eq!(messages.len(), 2 * chunks);
        for (i, chunk) in tokens.chunks(300).enumerate() {
            assert_eq!(messages[2 * i], expected_subscribe(chunk));
            assert_eq!(messages[2 * i + 1], expected_mode(chunk));
        }
        let subscribes = messages.iter().filter(|m| m.contains("\"subscribe\"")).count();
        let modes = messages.iter().filter(|m| m.contains("\"mode\"")).count();
        assert_eq!((subscribes, modes), (chunks, chunks));
    }
}

#[test]
fn url_is_percent_encoded() {
    let ws = KiteTickerWs::new("k e/y".to_string(), "a&b=c~é".to_string(), vec![1], log());
    assert_eq!(
        ws.url(),
        "wss://ws.kite.trade/?api_key=k%20e%2Fy&access_token=a%26b%3Dc~%C3%A9"
    );
    assert_eq!(client(vec![1]).url(), "wss://ws.kite.trade/?api_key=key&access_token=tok");
}

#[test]
fn ingest_drops_tokens_not_subscribed() {
    let mut store = TickStore::new();
    let taken = client(vec![65537]).ingest(&mut store, &LTP_FRAME, 11);
    assert_eq!(taken.len(), 1);
    assert_eq!(store.get_state(65537).unwrap().last_tick, Some(taken[0]));
    assert!(client(vec![65537]).allows(65537));
    assert!(!client(vec![65537]).allows(5));
    assert_eq!(client(vec![]).log_config(), log());
    let mut other = TickStore::new();
    let taken = client(vec![1, 2]).ingest(&mut other, &LTP_FRAME, 11);
    assert!(taken.is_empty());
    assert!(other.is_empty());
}

#[test]
fn session_walks_through_its_states() {
    let ws = client(vec![65537, 5]);
    let mut store = TickStore::new();
    let (state, action) = ws.step(SessionState::Disconnected, SessionEvent::Start, &mut store, 0);
    assert_eq!(state, SessionState::Connecting);
    assert_eq!(action, SessionAction::Connect(ws.url()));
    let (state, action) = ws.step(state, SessionEvent::Connected, &mut store, 0);
    assert_eq!(state, SessionState::Subscribing);
    assert_eq!(action, SessionAction::Send(ws.subscribe_full()));
    let (state, action) = ws.step(state, SessionEvent::Sent, &mut store, 0);
    assert_eq!((state, action), (SessionState::Running, SessionAction::Read));
    let (state, action) =
        ws.step(state, SessionEvent::Received(Message::Binary(LTP_FRAME.to_vec())), &mut store, 77);
    assert_eq!((state, action), (SessionState::Running, SessionAction::Read));
    assert_eq!(store.get_state(65537).unwrap().last_tick.unwrap().received_ns, 77);
    let (state, action) =
        ws.step(state, SessionEvent::Received(Message::Text("{}".to_string())), &mut store, 78);
    assert_eq!((state, action), (SessionState::Running, SessionAction::Read));
    let (state, action) =
        ws.step(state, SessionEvent::Received(Message::Ping(vec![1, 2, 3])), &mut store, 79);
    assert_eq!((state, action), (SessionState::Running, SessionAction::Pong(vec![1, 2, 3])));
    let (state, action) = ws.step(state, SessionEvent::Sent, &mut store, 79);
    assert_eq!((state, action), (SessionState::Running, SessionAction::Read));
    let (state, action) =
        ws.step(state, SessionEvent::Received(Message::Pong(vec![9])), &mut store, 80);
    assert_eq!((state, action), (SessionState::Running, SessionAction::Read));
    let (state, action) = ws.step(state, SessionEvent::Received(Message::Other), &mut store, 80);
    assert_eq!((state, action), (SessionState::Running, SessionAction::Read));
    assert_eq!(store.len(), 1);
    let (state, action) = ws.step(state, SessionEvent::Received(Message::Close), &mut store, 81);
    assert_eq!((state, action), (SessionState::Closing, SessionAction::Finish));
}

#[test]
fn session_failures() {
    let mut store = TickStore::new();
    let none = client(vec![]);
    assert_eq!(
        none.step(SessionState::Disconnected, SessionEvent::Start, &mut store, 0),
        (SessionState::Failed, SessionAction::Fail(AppError::NoSubscription))
    );
    let ws = client(vec![1]);
    assert_eq!(
        ws.step(SessionState::Connecting, SessionEvent::ConnectFailed("400".to_string()), &mut store, 0),
        (SessionState::Failed, SessionAction::Fail(AppError::WsHandshake("400".to_string())))
    );
    assert_eq!(
        ws.step(SessionState::Subscribing, SessionEvent::SendFailed("gone".to_string()), &mut store, 0),
        (SessionState::Failed, SessionAction::Fail(AppError::WsIo("gone".to_string())))
    );
    assert_eq!(
        ws.step(SessionState::Running, SessionEvent::ReadFailed("reset".to_string()), &mut store, 0),
        (SessionState::Failed, SessionAction::Fail(AppError::WsIo("reset".to_string())))
    );
    assert_eq!(
        ws.step(SessionState::Running, SessionEvent::Ended, &mut store, 0),
        (SessionState::Closing, SessionAction::Finish)
    );
    let (state, action) = ws.step(SessionState::Closing, SessionEvent::Connected, &mut store, 0);
    assert_eq!(state, SessionState::Failed);
    assert!(matches!(action, SessionAction::Fail(AppError::Internal(_))));
    let (state, _) = ws.step(
        SessionState::Subscribing,
        SessionEvent::Received(Message::Binary(LTP_FRAME.to_vec())),
        &mut store,
        0,
    );
    assert_eq!(state, SessionState::Failed);
    assert!(store.is_empty());
}

#[test]
fn backoff_doubles_up_to_thirty_seconds() {
    let mut backoff = Backoff::new();
    let mut sleeps = Vec::new();
    for _ in 0..10 {
        sleeps.push(backoff.after_session(SessionEnd::Failed).unwrap());
    }
    assert_eq!(sleeps, vec![250, 500, 1_000, 2_000, 4_000, 8_000, 16_000, 30_000, 30_000, 30_000]);
    assert_eq!(backoff.after_session(SessionEnd::Clean), None);
    assert_eq!(backoff.wait_ms, 250);
    assert_eq!(backoff.after_session(SessionEnd::Failed), Some(250));
}

#[test]
fn reconnect_cycles() {
    let ws = client(vec![65537]);
    let mut store = TickStore::new();
    store.seed_meta(vec![TokenMeta::new(65537, "X".to_string(), "CE".to_string(), None, None)]);
    let mut backoff = Backoff::new();
    let mut received_per_cycle = Vec::new();
    let mut last_sleep = None;
    for cycle in 0..5u64 {
        let mut events = vec![SessionEvent::Start, SessionEvent::Connected, SessionEvent::Sent];
        for _ in 0..3 {
            events.push(SessionEvent::Received(Message::Binary(LTP_FRAME.to_vec())));
        }
        events.push(SessionEvent::ReadFailed("disconnected".to_string()));
        let mut state = SessionState::Disconnected;
        let mut end = None;
        let mut ticks = 0;
        for (i, event) in events.into_iter().enumerate() {
            let binary = matches!(event, SessionEvent::Received(Message::Binary(_)));
            let (next, action) = ws.step(state, event, &mut store, cycle * 100 + i as u64);
            state = next;
            if binary {
                ticks += 1;
            }
            match action {
                SessionAction::Finish => end = Some(SessionEnd::Clean),
                SessionAction::Fail(_) => end = Some(SessionEnd::Failed),
                _ => {}
            }
        }
        assert_eq!(state, SessionState::Failed);
        received_per_cycle.push(ticks);
        assert_eq!(store.get_state(65537).unwrap().last_tick.unwrap().received_ns, cycle * 100 + 5);
        last_sleep = backoff.after_session(end.unwrap());
    }
    assert!(received_per_cycle.iter().all(|n| *n >= 1));
    assert_eq!(last_sleep, Some(4_000));
    assert_eq!(backoff.wait_ms, 8_000);
}

#[test]
fn handshake_names_origin_agent_and_version() {
    assert_eq!(
        handshake_headers(),
        vec![
            ("Origin", "https://kite.zerodha.com"),
            ("User-Agent", "zatamap-trade-rust/0.1"),
            ("X-Kite-Version", "3"),
        ]
    );
}
