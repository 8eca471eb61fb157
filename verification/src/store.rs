use vstd::prelude::*;
use dashmap::DashMap;
use crate::text::{blank, is_blank};
use crate::ticks::{
    DerivedMetrics, Rate, Ratio, Tick, TokenMeta, TokenMetaView, TokenState, TokenStateView,
};

verus! {

/// `dashmap::DashMap`, a hash map for concurrent use. It is carried as it
/// is: nothing is known of a map but what the functions below say.
#[verifier::external_type_specification]
#[verifier::external_body]
#[verifier::reject_recursive_types(K)]
#[verifier::reject_recursive_types(V)]
#[verifier::reject_recursive_types(S)]
pub struct ExDashMap<K, V, S>(DashMap<K, V, S>);

/// What a map of token states holds: each token with the view of its state.
pub uninterp spec fn token_states(m: DashMap<i32, TokenState>) -> Map<i32, TokenStateView>;

/// The map that holds no state.
pub open spec fn no_states() -> Map<i32, TokenStateView> {
    Map::empty()
}

/// `DashMap::new`: a map with no entry.
#[verifier::external_body]
fn dm_new() -> (m: DashMap<i32, TokenState>)
    ensures
        token_states(m) == no_states(),
{
    DashMap::new()
}

/// `DashMap::contains_key`: whether the map has an entry under `token`.
#[verifier::external_body]
fn dm_contains_key(m: &DashMap<i32, TokenState>, token: i32) -> (b: bool)
    ensures
        b == token_states(*m).contains_key(token),
{
    m.contains_key(&token)
}

/// `DashMap::get`, handing out a copy: the state under `token`, if there is one.
#[verifier::external_body]
fn dm_get(m: &DashMap<i32, TokenState>, token: i32) -> (r: Option<TokenState>)
    ensures
        match r {
            Some(state) => token_states(*m).contains_key(token) && state@ == token_states(
                *m,
            )[token],
            None => !token_states(*m).contains_key(token),
        },
{
    m.get(&token).map(|entry| entry.value().clone())
}

/// `DashMap::insert`: afterwards `token` maps to `state`, replacing what it
/// mapped to before, and no other entry has changed.
#[verifier::external_body]
fn dm_insert(m: &mut DashMap<i32, TokenState>, token: i32, state: TokenState)
    ensures
        token_states(*final(m)) == token_states(*old(m)).insert(token, state@),
{
    m.insert(token, state);
}

/// `DashMap::len`: the number of entries.
#[verifier::external_body]
fn dm_len(m: &DashMap<i32, TokenState>) -> (n: usize)
    ensures
        n == token_states(*m).len(),
{
    m.len()
}

/// `DashMap::is_empty`: whether the number of entries is zero.
#[verifier::external_body]
fn dm_is_empty(m: &DashMap<i32, TokenState>) -> (b: bool)
    ensures
        b == (token_states(*m).len() == 0),
{
    m.is_empty()
}

/// `DashMap::iter`, handing out the keys: every token that has an entry,
/// once, in no particular order.
#[verifier::external_body]
fn dm_keys(m: &DashMap<i32, TokenState>) -> (keys: Vec<i32>)
    ensures
        keys@.no_duplicates(),
        keys@.to_set() == token_states(*m).dom(),
{
    m.iter().map(|entry| *entry.key()).collect()
}

/// Nanoseconds from the receipt of `prev` to the receipt of `tick`; zero
/// where there is no earlier tick or the clock did not advance.
pub open spec fn elapsed_ns(prev: Option<Tick>, tick: Tick) -> u64 {
    match prev {
        Some(p) => if tick.received_ns > p.received_ns {
            (tick.received_ns - p.received_ns) as u64
        } else {
            0
        },
        None => 0,
    }
}

/// The rate at which a counter moved from `before` to `now` over `dt_ns`,
/// where both readings exist and time has passed; else `kept`.
pub open spec fn counter_rate(
    kept: Option<Rate>,
    before: Option<u32>,
    now: Option<u32>,
    dt_ns: u64,
) -> Option<Rate> {
    if dt_ns > 0 && before is Some && now is Some {
        Some(Rate { delta: (now->0 - before->0) as i64, dt_ns })
    } else {
        kept
    }
}

/// The metrics after `tick` follows `prev`.
///
/// With depth in the tick, bid and ask are the best level of each side and
/// the spread is their difference; without depth these three stay as they
/// were. The spread in basis points belongs to the tick itself: it exists
/// where the tick has depth and a positive last price, and nowhere else.
/// A rate is renewed where time has passed since `prev` and both ticks hold
/// the quantity; else it stays as it was.
pub open spec fn next_derived(d: DerivedMetrics, prev: Option<Tick>, tick: Tick) -> DerivedMetrics {
    let dt_ns = elapsed_ns(prev, tick);
    let bid = tick.depth->0.buy[0].price;
    let ask = tick.depth->0.sell[0].price;
    DerivedMetrics {
        best_bid: if tick.depth is Some { Some(bid) } else { d.best_bid },
        best_ask: if tick.depth is Some { Some(ask) } else { d.best_ask },
        spread: if tick.depth is Some { Some((ask - bid) as i64) } else { d.spread },
        spread_bps: if tick.depth is Some && tick.last_price > 0 {
            Some(Ratio { num: ((ask - bid) * 10000) as i64, den: tick.last_price as i64 })
        } else {
            None
        },
        price_roc_per_s: if dt_ns > 0 {
            Some(Rate { delta: (tick.last_price - prev->0.last_price) as i64, dt_ns })
        } else {
            d.price_roc_per_s
        },
        oi_roc_per_s: if prev is Some {
            counter_rate(d.oi_roc_per_s, prev->0.open_interest, tick.open_interest, dt_ns)
        } else {
            d.oi_roc_per_s
        },
        vol_roc_per_s: if prev is Some {
            counter_rate(d.vol_roc_per_s, prev->0.volume_traded, tick.volume_traded, dt_ns)
        } else {
            d.vol_roc_per_s
        },
    }
}

/// The state of an instrument after `tick` has arrived.
pub open spec fn state_after_tick(state: TokenStateView, tick: Tick) -> TokenStateView {
    TokenStateView {
        meta: state.meta,
        last_tick: Some(tick),
        derived: next_derived(state.derived, state.last_tick, tick),
    }
}

/// The state made for an instrument that was not known when `tick` arrived.
pub open spec fn first_state(tick: Tick) -> TokenStateView {
    TokenStateView {
        meta: TokenMeta::unknown(tick.instrument_token),
        last_tick: Some(tick),
        derived: DerivedMetrics::none(),
    }
}

/// The store after `tick` has arrived: the entry of its token is brought up
/// to date, or made if there was none; no other entry changes.
pub open spec fn after_tick(m: Map<i32, TokenStateView>, tick: Tick) -> Map<i32, TokenStateView> {
    let token = tick.instrument_token;
    if m.contains_key(token) {
        m.insert(token, state_after_tick(m[token], tick))
    } else {
        m.insert(token, first_state(tick))
    }
}

/// The store after `meta` was seeded: a fresh entry where its token had
/// none, else no change.
pub open spec fn after_seed(m: Map<i32, TokenStateView>, meta: TokenMetaView) -> Map<
    i32,
    TokenStateView,
> {
    if m.contains_key(meta.instrument_token) {
        m
    } else {
        m.insert(meta.instrument_token, TokenState::seeded(meta))
    }
}

/// The views of `metas`, in order.
pub open spec fn meta_views(metas: Seq<TokenMeta>) -> Seq<TokenMetaView> {
    Seq::new(metas.len(), |i: int| metas[i]@)
}

/// The store after `metas` were seeded one after the other.
pub open spec fn after_seeds(m: Map<i32, TokenStateView>, metas: Seq<TokenMetaView>) -> Map<
    i32,
    TokenStateView,
>
    decreases metas.len(),
{
    if metas.len() == 0 {
        m
    } else {
        after_seed(after_seeds(m, metas.drop_last()), metas.last())
    }
}

/// Whether `state` can stand under `token`: its metadata and its tick name
/// that token, without a tick there is no metric, and the spread in basis
/// points exists only while the last tick has depth and a positive last price.
pub open spec fn entry_wf(token: i32, state: TokenStateView) -> bool {
    &&& state.meta.instrument_token == token
    &&& state.last_tick matches Some(tick) ==> tick.instrument_token == token
    &&& state.last_tick is None ==> state.derived == DerivedMetrics::none()
    &&& state.derived.spread_bps is Some ==> (state.last_tick matches Some(tick) && tick.depth is Some
        && tick.last_price > 0)
    &&& metrics_wf(state.derived)
}

/// What holds of the metrics of every entry: bid, ask and spread come
/// together and the spread is ask less bid; basis points come only with a
/// spread and over a positive price; a rate is over a positive time.
pub open spec fn metrics_wf(d: DerivedMetrics) -> bool {
    &&& d.best_bid is Some <==> d.best_ask is Some
    &&& d.best_bid is Some <==> d.spread is Some
    &&& d.spread is Some ==> d.spread->0 == d.best_ask->0 - d.best_bid->0
    &&& d.spread_bps is Some ==> d.spread is Some && d.spread_bps->0.den > 0
    &&& d.price_roc_per_s is Some ==> d.price_roc_per_s->0.dt_ns > 0
    &&& d.oi_roc_per_s is Some ==> d.oi_roc_per_s->0.dt_ns > 0
    &&& d.vol_roc_per_s is Some ==> d.vol_roc_per_s->0.dt_ns > 0
}

/// The rate of a counter between two readings.
fn rate_of_counter(kept: Option<Rate>, before: Option<u32>, now: Option<u32>, dt_ns: u64) -> (r:
    Option<Rate>)
    ensures
        r == counter_rate(kept, before, now, dt_ns),
{
    if dt_ns > 0 {
        match (before, now) {
            (Some(b), Some(n)) => Some(Rate { delta: n as i64 - b as i64, dt_ns }),
            _ => kept,
        }
    } else {
        kept
    }
}

/// Brings the metrics up to date for `tick`, which follows `prev`.
pub fn advance_derived(d: DerivedMetrics, prev: Option<Tick>, tick: &Tick) -> (r: DerivedMetrics)
    ensures
        r == next_derived(d, prev, *tick),
{
    let mut r = d;
    match prev {
        Some(p) => {
            let dt_ns: u64 = tick.received_ns.saturating_sub(p.received_ns);
            if dt_ns > 0 {
                r.price_roc_per_s = Some(
                    Rate { delta: tick.last_price as i64 - p.last_price as i64, dt_ns },
                );
            }
            r.oi_roc_per_s = rate_of_counter(d.oi_roc_per_s, p.open_interest, tick.open_interest, dt_ns);
            r.vol_roc_per_s = rate_of_counter(
                d.vol_roc_per_s,
                p.volume_traded,
                tick.volume_traded,
                dt_ns,
            );
        },
        None => {},
    }
    match tick.depth {
        Some(depth) => {
            let bid: i32 = depth.buy[0].price;
            let ask: i32 = depth.sell[0].price;
            let spread: i64 = ask as i64 - bid as i64;
            r.best_bid = Some(bid);
            r.best_ask = Some(ask);
            r.spread = Some(spread);
            r.spread_bps = if tick.last_price > 0 {
                Some(Ratio { num: spread * 10000, den: tick.last_price as i64 })
            } else {
                None
            };
        },
        None => {
            r.spread_bps = None;
        },
    }
    r
}

/// The latest tick of every instrument, with its metadata and metrics.
///
/// An instrument is known by its token, and there is one state for each.
/// States come from seeding or from the first tick of a token never seeded;
/// none is ever removed.
#[derive(Debug)]
pub struct TickStore {
    by_token: DashMap<i32, TokenState>,
}

impl View for TickStore {
    type V = Map<i32, TokenStateView>;

    closed spec fn view(&self) -> Map<i32, TokenStateView> {
        token_states(self.by_token)
    }
}

impl TickStore {
    /// What holds of every store that began empty: it holds finitely many
    /// states, and each can stand under its token.
    pub open spec fn wf(&self) -> bool {
        &&& self@.dom().finite()
        &&& forall|token: i32| self@.contains_key(token) ==> entry_wf(token, #[trigger] self@[token])
    }

    /// A store that holds nothing.
    pub fn new() -> (store: TickStore)
        ensures
            store@ == no_states(),
            store.wf(),
    {
        TickStore { by_token: dm_new() }
    }

    /// Makes a state for each of `metas` whose token has none yet, in order.
    /// A state that exists is left as it is, so seeding twice changes nothing.
    pub fn seed_meta(&mut self, metas: Vec<TokenMeta>)
        ensures
            final(self)@ == after_seeds(old(self)@, meta_views(metas@)),
            old(self).wf() ==> final(self).wf(),
    {
        let ghost all = metas@;
        let ghost views = meta_views(all);
        let ghost before = self@;
        for meta in iter: metas
            invariant
                iter.seq() == all,
                views == meta_views(all),
                self@ == after_seeds(before, views.take(iter.index() as int)),
                old(self).wf() ==> self.wf(),
        {
            let ghost k = iter.index() as int;
            let token = meta.instrument_token;
            if !dm_contains_key(&self.by_token, token) {
                dm_insert(&mut self.by_token, token, TokenState::new(meta));
            }
            proof {
                assert(views.take(k + 1).drop_last() =~= views.take(k));
                assert(views.take(k + 1).last() == all[k]@);
            }
        }
        assert(views.take(all.len() as int) =~= views);
    }

    /// Takes in `tick`. The state of its token gets the tick and the metrics
    /// that follow from it and from the tick before; a token without a state
    /// gets one, with placeholder metadata and no metrics.
    pub fn update_tick(&mut self, tick: Tick)
        ensures
            final(self)@ == after_tick(old(self)@, tick),
            old(self).wf() ==> final(self).wf(),
    {
        let token = tick.instrument_token;
        match dm_get(&self.by_token, token) {
            Some(state) => {
                let derived = advance_derived(state.derived, state.last_tick, &tick);
                let next = TokenState { meta: state.meta, last_tick: Some(tick), derived };
                dm_insert(&mut self.by_token, token, next);
            },
            None => {
                let state = TokenState {
                    meta: TokenMeta::placeholder(token),
                    last_tick: Some(tick),
                    derived: DerivedMetrics::default(),
                };
                dm_insert(&mut self.by_token, token, state);
            },
        }
    }

    /// A copy of the state of `instrument_token`, whole: its tick and its
    /// metrics belong together.
    pub fn get_state(&self, instrument_token: i32) -> (r: Option<TokenState>)
        ensures
            match r {
                Some(state) => self@.contains_key(instrument_token) && state@
                    == self@[instrument_token],
                None => !self@.contains_key(instrument_token),
            },
    {
        dm_get(&self.by_token, instrument_token)
    }

    /// The trading symbol of `instrument_token`, where it is known and not blank.
    pub fn get_symbol(&self, instrument_token: i32) -> (r: Option<String>)
        ensures
            match r {
                Some(symbol) => {
                    &&& self@.contains_key(instrument_token)
                    &&& symbol@ == self@[instrument_token].meta.tradingsymbol
                    &&& !is_blank(symbol@)
                },
                None => !self@.contains_key(instrument_token) || is_blank(
                    self@[instrument_token].meta.tradingsymbol,
                ),
            },
    {
        match dm_get(&self.by_token, instrument_token) {
            Some(state) => {
                if blank(state.meta.tradingsymbol.as_str()) {
                    None
                } else {
                    Some(state.meta.tradingsymbol)
                }
            },
            None => None,
        }
    }

    /// The number of instruments that have a state.
    pub fn len(&self) -> (n: usize)
        ensures
            n == self@.len(),
    {
        dm_len(&self.by_token)
    }

    /// Whether no instrument has a state.
    pub fn is_empty(&self) -> (b: bool)
        ensures
            b == (self@.len() == 0),
    {
        dm_is_empty(&self.by_token)
    }

    /// The tokens whose state holds a tick.
    pub open spec fn received_tokens(&self) -> Set<i32> {
        self@.dom().filter(|token: i32| self@[token].last_tick is Some)
    }

    /// The number of instruments of which at least one tick has arrived.
    pub fn received_token_count(&self) -> (n: usize)
        ensures
            n == self.received_tokens().len(),
    {
        let keys = dm_keys(&self.by_token);
        let ghost has_tick = |token: i32| self@[token].last_tick is Some;
        let mut n: usize = 0;
        let mut i: usize = 0;
        assert(keys@.take(0).to_set().filter(has_tick) =~= Set::<i32>::empty());
        while i < keys.len()
            invariant
                i <= keys@.len(),
                n <= i,
                keys@.no_duplicates(),
                keys@.to_set() == self@.dom(),
                has_tick == (|token: i32| self@[token].last_tick is Some),
                n == keys@.take(i as int).to_set().filter(has_tick).len(),
            decreases keys@.len() - i,
        {
            let token = keys[i];
            let ghost seen = keys@.take(i as int).to_set();
            proof {
                vstd::seq_lib::seq_to_set_is_finite(keys@.take(i as int));
                assert(!seen.contains(token)) by {
                    if seen.contains(token) {
                        let j = choose|j: int| 0 <= j < i && keys@.take(i as int)[j] == token;
                        assert(keys@[j] == keys@[i as int]);
                    }
                }
                assert(keys@.take(i + 1).to_set() =~= seen.insert(token)) by {
                    assert(keys@.take(i + 1) =~= keys@.take(i as int).push(token));
                    assert forall|x: i32| seen.insert(token).contains(x) implies keys@.take(
                        i + 1,
                    ).to_set().contains(x) by {
                        if x == token {
                            assert(keys@.take(i + 1)[i as int] == token);
                        } else {
                            let j = choose|j: int| 0 <= j < i && keys@.take(i as int)[j] == x;
                            assert(keys@.take(i + 1)[j] == x);
                        }
                    }
                }
                assert(self@.dom().contains(token)) by {
                    assert(keys@.to_set().contains(keys@[i as int]));
                }
            }
            match dm_get(&self.by_token, token) {
                Some(state) => {
                    if state.last_tick.is_some() {
                        proof {
                            assert(seen.insert(token).filter(has_tick) =~= seen.filter(
                                has_tick,
                            ).insert(token));
                            assert(seen.filter(has_tick).finite());
                        }
                        n = n + 1;
                    } else {
                        proof {
                            assert(seen.insert(token).filter(has_tick) =~= seen.filter(has_tick));
                        }
                    }
                },
                None => {},
            }
            i = i + 1;
        }
        proof {
            assert(keys@.take(keys@.len() as int) =~= keys@);
        }
        n
    }
}

impl Default for TickStore {
    fn default() -> (store: TickStore)
        ensures
            store@ == no_states(),
            store.wf(),
    {
        TickStore::new()
    }
}

} // verus!
