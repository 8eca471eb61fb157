use vstd::prelude::*;
use vstd::string::StringSliceAdditionalSpecFns;
use vstd::utf8::encode_utf8;
use std::collections::HashSet;
use crate::decode::{decode_binary_ticks, frame_ticks};
use crate::store::{after_tick, TickStore};
use crate::subscribe::{subscription_messages, subscription_texts};
use crate::text::texts;
use crate::ticks::{Tick, TokenStateView};
use crate::url::{percent_encoded, url_encode};

verus! {

broadcast use vstd::std_specs::hash::group_hash_axioms;

/// Whether ticks are logged, and how far apart at least.
#[derive(Debug, Clone, Copy, PartialEq, Eq, Structural)]
pub struct TickLogConfig {
    pub enabled: bool,
    pub interval_ms: u64,
}

/// The address of the ticker for a key and a token, both percent-encoded.
pub open spec fn ticker_url(api_key: Seq<char>, access_token: Seq<char>) -> Seq<char> {
    "wss://ws.kite.trade/?api_key="@ + percent_encoded(encode_utf8(api_key)) + "&access_token="@
        + percent_encoded(encode_utf8(access_token))
}

/// The headers that the ticker asks for when a websocket is opened, each
/// with its value.
pub open spec fn handshake() -> Seq<(Seq<char>, Seq<char>)> {
    seq![
        ("Origin"@, "https://kite.zerodha.com"@),
        ("User-Agent"@, "zatamap-trade-rust/0.1"@),
        ("X-Kite-Version"@, "3"@),
    ]
}

/// The headers to send when the websocket is opened.
pub fn handshake_headers() -> (headers: Vec<(&'static str, &'static str)>)
    ensures
        headers@.len() == handshake().len(),
        forall|i: int|
            0 <= i < headers@.len() ==> (#[trigger] headers@[i]).0@ == handshake()[i].0
                && headers@[i].1@ == handshake()[i].1,
{
    let mut headers: Vec<(&'static str, &'static str)> = Vec::new();
    headers.push(("Origin", "https://kite.zerodha.com"));
    headers.push(("User-Agent", "zatamap-trade-rust/0.1"));
    headers.push(("X-Kite-Version", "3"));
    headers
}

/// The ticks of `ticks` whose token is in `allowed`, in order.
pub open spec fn allowed_ticks(ticks: Seq<Tick>, allowed: Set<i32>) -> Seq<Tick>
    decreases ticks.len(),
{
    if ticks.len() == 0 {
        Seq::empty()
    } else {
        let front = allowed_ticks(ticks.drop_last(), allowed);
        if allowed.contains(ticks.last().instrument_token) {
            front.push(ticks.last())
        } else {
            front
        }
    }
}

/// The store after `ticks` have arrived one after the other.
pub open spec fn after_ticks(m: Map<i32, TokenStateView>, ticks: Seq<Tick>) -> Map<
    i32,
    TokenStateView,
>
    decreases ticks.len(),
{
    if ticks.len() == 0 {
        m
    } else {
        after_tick(after_ticks(m, ticks.drop_last()), ticks.last())
    }
}

/// A client of the Kite ticker: the credentials, the tokens to subscribe
/// to, and the set of tokens whose ticks are let into the store. The list
/// of tokens is fixed when the client is made.
#[derive(Debug)]
pub struct KiteTickerWs {
    api_key: String,
    access_token: String,
    tokens: Vec<i32>,
    allowed: HashSet<i32>,
    log: TickLogConfig,
}

impl KiteTickerWs {
    pub closed spec fn api_key(&self) -> Seq<char> {
        self.api_key@
    }

    pub closed spec fn access_token(&self) -> Seq<char> {
        self.access_token@
    }

    /// The tokens to subscribe to, in sending order.
    pub closed spec fn tokens(&self) -> Seq<i32> {
        self.tokens@
    }

    /// The tokens whose ticks are let in.
    pub closed spec fn allowed(&self) -> Set<i32> {
        self.allowed@
    }

    pub closed spec fn log(&self) -> TickLogConfig {
        self.log
    }

    /// What holds of every client: the tokens let in are those subscribed to.
    pub open spec fn wf(&self) -> bool {
        self.allowed() == self.tokens().to_set()
    }

    pub fn new(api_key: String, access_token: String, tokens: Vec<i32>, log: TickLogConfig) -> (ws:
        KiteTickerWs)
        ensures
            ws.wf(),
            ws.tokens() == tokens@,
            ws.api_key() == api_key@,
            ws.access_token() == access_token@,
            ws.log() == log,
    {
        let mut allowed: HashSet<i32> = HashSet::new();
        let mut i: usize = 0;
        while i < tokens.len()
            invariant
                i <= tokens@.len(),
                allowed@ == tokens@.take(i as int).to_set(),
            decreases tokens@.len() - i,
        {
            allowed.insert(tokens[i]);
            proof {
                assert(tokens@.take(i + 1) =~= tokens@.take(i as int).push(tokens@[i as int]));
                assert(tokens@.take(i + 1).to_set() =~= tokens@.take(i as int).to_set().insert(
                    tokens@[i as int],
                )) by {
                    let shorter = tokens@.take(i as int);
                    let longer = tokens@.take(i + 1);
                    assert forall|x: i32| shorter.to_set().insert(tokens@[i as int]).contains(
                        x,
                    ) implies longer.to_set().contains(x) by {
                        if x == tokens@[i as int] {
                            assert(longer[i as int] == x);
                        } else {
                            let j = choose|j: int| 0 <= j < shorter.len() && shorter[j] == x;
                            assert(longer[j] == x);
                        }
                    }
                }
            }
            i = i + 1;
        }
        assert(tokens@.take(tokens@.len() as int) =~= tokens@);
        KiteTickerWs { api_key, access_token, tokens, allowed, log }
    }

    /// How ticks are logged.
    pub fn log_config(&self) -> (config: TickLogConfig)
        ensures
            config == self.log(),
    {
        self.log
    }

    /// Whether ticks of `token` are let into the store.
    pub fn allows(&self, token: i32) -> (b: bool)
        ensures
            b == self.allowed().contains(token),
    {
        self.allowed.contains(&token)
    }

    /// Whether there is any token to subscribe to.
    pub fn has_tokens(&self) -> (b: bool)
        ensures
            b == (self.tokens().len() > 0),
    {
        self.tokens.len() > 0
    }

    /// The address to connect to.
    pub fn url(&self) -> (r: String)
        ensures
            r@ == ticker_url(self.api_key(), self.access_token()),
    {
        let mut out = "wss://ws.kite.trade/?api_key=".to_owned();
        let key = url_encode(self.api_key.as_str());
        out.append(key.as_str());
        out.append("&access_token=");
        let token = url_encode(self.access_token.as_str());
        out.append(token.as_str());
        out
    }

    /// The text frames that subscribe to the tokens in full mode, in the
    /// order in which they are to be sent.
    pub fn subscribe_full(&self) -> (messages: Vec<String>)
        ensures
            texts(messages@) == subscription_texts(self.tokens()),
    {
        subscription_messages(self.tokens.as_slice())
    }

    /// Decodes a binary frame and takes its ticks into `store`, but for the
    /// ticks of tokens that were not subscribed to. Returns the ticks taken in.
    pub fn ingest(&self, store: &mut TickStore, payload: &[u8], received_ns: u64) -> (taken: Vec<
        Tick,
    >)
        ensures
            taken@ == allowed_ticks(frame_ticks(payload@, received_ns), self.allowed()),
            final(store)@ == after_ticks(old(store)@, taken@),
            old(store).wf() ==> final(store).wf(),
    {
        let ticks = decode_binary_ticks(payload, received_ns);
        let mut taken: Vec<Tick> = Vec::new();
        let mut i: usize = 0;
        while i < ticks.len()
            invariant
                i <= ticks@.len(),
                taken@ == allowed_ticks(ticks@.take(i as int), self.allowed()),
                store@ == after_ticks(old(store)@, taken@),
                old(store).wf() ==> store.wf(),
            decreases ticks@.len() - i,
        {
            let tick = ticks[i];
            proof {
                assert(ticks@.take(i + 1).drop_last() =~= ticks@.take(i as int));
                assert(ticks@.take(i + 1).last() == tick);
            }
            if self.allowed.contains(&tick.instrument_token) {
                proof {
                    assert(taken@.push(tick).drop_last() =~= taken@);
                }
                store.update_tick(tick);
                taken.push(tick);
            }
            i = i + 1;
        }
        assert(ticks@.take(ticks@.len() as int) =~= ticks@);
        taken
    }
}

/// Only ticks of allowed tokens are taken, and no more than arrived.
pub proof fn lemma_allowed_ticks(ticks: Seq<Tick>, allowed: Set<i32>)
    ensures
        allowed_ticks(ticks, allowed).len() <= ticks.len(),
        forall|i: int|
            0 <= i < allowed_ticks(ticks, allowed).len() ==> allowed.contains(
                (#[trigger] allowed_ticks(ticks, allowed)[i]).instrument_token,
            ),
    decreases ticks.len(),
{
    if ticks.len() > 0 {
        lemma_allowed_ticks(ticks.drop_last(), allowed);
    }
}

/// The store stays bounded: whatever arrives, a state is made only for a
/// token that was subscribed to, and no state goes away.
pub proof fn lemma_ingest_stays_within_allowed(
    m: Map<i32, TokenStateView>,
    ticks: Seq<Tick>,
    allowed: Set<i32>,
)
    ensures
        forall|token: i32|
            m.contains_key(token) ==> #[trigger] after_ticks(
                m,
                allowed_ticks(ticks, allowed),
            ).contains_key(token),
        forall|token: i32| #[trigger]
            after_ticks(m, allowed_ticks(ticks, allowed)).contains_key(token) ==> m.contains_key(
                token,
            ) || allowed.contains(token),
    decreases ticks.len(),
{
    if ticks.len() > 0 {
        lemma_ingest_stays_within_allowed(m, ticks.drop_last(), allowed);
        let front = allowed_ticks(ticks.drop_last(), allowed);
        let taken = allowed_ticks(ticks, allowed);
        let last = ticks.last();
        if allowed.contains(last.instrument_token) {
            assert(taken == front.push(last));
            assert(taken.drop_last() =~= front);
            assert(taken.last() == last);
            assert(after_ticks(m, taken) == after_tick(after_ticks(m, front), last));
            assert forall|token: i32| #[trigger]
                after_ticks(m, taken).contains_key(token) implies m.contains_key(token)
                || allowed.contains(token) by {
                if token != last.instrument_token {
                    assert(after_ticks(m, front).contains_key(token));
                }
            }
            assert forall|token: i32| m.contains_key(token) implies #[trigger] after_ticks(
                m,
                taken,
            ).contains_key(token) by {
                assert(after_ticks(m, front).contains_key(token));
            }
        } else {
            assert(taken == front);
        }
    }
}

} // verus!
