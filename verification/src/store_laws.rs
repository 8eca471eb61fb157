use vstd::prelude::*;
use crate::store::{
    after_seed, after_seeds, after_tick, entry_wf, first_state, next_derived, state_after_tick,
};
use crate::ticks::{DerivedMetrics, Rate, Ratio, Tick, TokenMeta, TokenMetaView, TokenState, TokenStateView};

verus! {

/// Rate of change: when a tick follows another of the same token and time
/// has passed between them, the rate of the price is the difference of the
/// two prices over the nanoseconds between the two receipts.
///
/// In rupees per second that is `(delta / 100) / (dt_ns / 1e9)`.
pub proof fn lemma_roc_definition(m: Map<i32, TokenStateView>, t1: Tick, t2: Tick)
    requires
        t1.instrument_token == t2.instrument_token,
        t2.received_ns > t1.received_ns,
    ensures
        after_tick(after_tick(m, t1), t2)[t2.instrument_token].derived.price_roc_per_s == Some(
            Rate {
                delta: (t2.last_price - t1.last_price) as i64,
                dt_ns: (t2.received_ns - t1.received_ns) as u64,
            },
        ),
{
}

/// When time did not advance between two ticks of a token, every rate stays
/// as it was.
pub proof fn lemma_no_time_no_rate(d: DerivedMetrics, prev: Tick, tick: Tick)
    requires
        tick.received_ns <= prev.received_ns,
    ensures
        next_derived(d, Some(prev), tick).price_roc_per_s == d.price_roc_per_s,
        next_derived(d, Some(prev), tick).oi_roc_per_s == d.oi_roc_per_s,
        next_derived(d, Some(prev), tick).vol_roc_per_s == d.vol_roc_per_s,
{
}

/// Spread: a tick with depth sets bid and ask to the best level of each
/// side and the spread to their difference; the spread in basis points is
/// the quotient of `spread * 10000` by the last price, and exists exactly
/// where the last price is positive.
pub proof fn lemma_spread_from_depth(d: DerivedMetrics, prev: Option<Tick>, tick: Tick)
    requires
        tick.depth is Some,
    ensures
        next_derived(d, prev, tick).best_bid == Some(tick.depth->0.buy[0].price),
        next_derived(d, prev, tick).best_ask == Some(tick.depth->0.sell[0].price),
        next_derived(d, prev, tick).spread == Some(
            (tick.depth->0.sell[0].price - tick.depth->0.buy[0].price) as i64,
        ),
        next_derived(d, prev, tick).spread_bps is Some <==> tick.last_price > 0,
        tick.last_price > 0 ==> next_derived(d, prev, tick).spread_bps == Some(
            Ratio {
                num: ((tick.depth->0.sell[0].price - tick.depth->0.buy[0].price) * 10000) as i64,
                den: tick.last_price as i64,
            },
        ),
{
}

/// The spread in basis points is that of the last tick: after a tick
/// without depth, or with a last price that is not positive, there is none,
/// whatever stood before.
pub proof fn lemma_basis_points_follow_last_tick(
    m: Map<i32, TokenStateView>,
    tick: Tick,
)
    ensures
        after_tick(m, tick)[tick.instrument_token].derived.spread_bps is Some ==> tick.depth is Some
            && tick.last_price > 0,
        m.contains_key(tick.instrument_token) ==> (after_tick(
            m,
            tick,
        )[tick.instrument_token].derived.spread_bps is Some <==> tick.depth is Some
            && tick.last_price > 0),
{
}

/// A snapshot is whole: after a tick is taken in, the state of its token
/// holds that tick together with the metrics that follow from it, and the
/// state of every other token is what it was.
pub proof fn lemma_update_is_one_step(m: Map<i32, TokenStateView>, tick: Tick, other: i32)
    requires
        other != tick.instrument_token,
    ensures
        after_tick(m, tick).contains_key(tick.instrument_token),
        after_tick(m, tick)[tick.instrument_token].last_tick == Some(tick),
        m.contains_key(tick.instrument_token) ==> after_tick(m, tick)[tick.instrument_token]
            == state_after_tick(m[tick.instrument_token], tick),
        !m.contains_key(tick.instrument_token) ==> after_tick(m, tick)[tick.instrument_token]
            == first_state(tick),
        after_tick(m, tick).contains_key(other) == m.contains_key(other),
        m.contains_key(other) ==> after_tick(m, tick)[other] == m[other],
{
}

/// A tick for a token that was never seeded makes a state whose metadata is
/// the placeholder: type `UNKNOWN`, no symbol.
pub proof fn lemma_unknown_token_gets_placeholder(m: Map<i32, TokenStateView>, tick: Tick)
    requires
        !m.contains_key(tick.instrument_token),
    ensures
        after_tick(m, tick).dom() == m.dom().insert(tick.instrument_token),
        after_tick(m, tick)[tick.instrument_token].meta == TokenMeta::unknown(
            tick.instrument_token,
        ),
        after_tick(m, tick)[tick.instrument_token].meta.instrument_type == "UNKNOWN"@,
        after_tick(m, tick)[tick.instrument_token].derived == DerivedMetrics::none(),
{
}

/// Whether some meta of `metas` names `token`.
pub open spec fn names_token(metas: Seq<TokenMetaView>, token: i32) -> bool {
    exists|i: int| 0 <= i < metas.len() && (#[trigger] metas[i]).instrument_token == token
}

/// Seeding never overwrites: a token that has a state keeps it, and the
/// tokens with a state afterwards are those from before and those that the
/// metas name.
pub proof fn lemma_seeding_keeps_states(m: Map<i32, TokenStateView>, metas: Seq<TokenMetaView>)
    ensures
        forall|token: i32|
            m.contains_key(token) ==> after_seeds(m, metas).contains_key(token) && (
            #[trigger] after_seeds(m, metas)[token]) == m[token],
        forall|token: i32| #[trigger]
            after_seeds(m, metas).contains_key(token) <==> m.contains_key(token) || names_token(
                metas,
                token,
            ),
    decreases metas.len(),
{
    if metas.len() > 0 {
        let front = metas.drop_last();
        let last = metas.last();
        lemma_seeding_keeps_states(m, front);
        let mid = after_seeds(m, front);
        assert forall|token: i32| #[trigger]
            after_seeds(m, metas).contains_key(token) <==> m.contains_key(token) || names_token(
                metas,
                token,
            ) by {
            if names_token(metas, token) {
                let i = choose|i: int|
                    0 <= i < metas.len() && (#[trigger] metas[i]).instrument_token == token;
                if i < front.len() {
                    assert(front[i].instrument_token == token);
                }
            }
            if names_token(front, token) {
                let i = choose|i: int|
                    0 <= i < front.len() && (#[trigger] front[i]).instrument_token == token;
                assert(metas[i].instrument_token == token);
            }
            if token == last.instrument_token {
                assert(metas[metas.len() - 1].instrument_token == token);
            }
        }
    }
}

/// Seeding is idempotent: seeding the same metas a second time changes nothing.
pub proof fn lemma_seeding_is_idempotent(m: Map<i32, TokenStateView>, metas: Seq<TokenMetaView>)
    ensures
        after_seeds(after_seeds(m, metas), metas) == after_seeds(m, metas),
{
    lemma_seeding_keeps_states(m, metas);
    assert forall|i: int| 0 <= i < metas.len() implies after_seeds(m, metas).contains_key(
        (#[trigger] metas[i]).instrument_token,
    ) by {
        assert(names_token(metas, metas[i].instrument_token));
    }
    lemma_seeding_changes_nothing_known(after_seeds(m, metas), metas, metas.len() as int);
    assert(metas.take(metas.len() as int) =~= metas);
}

proof fn lemma_seeding_changes_nothing_known(
    m: Map<i32, TokenStateView>,
    metas: Seq<TokenMetaView>,
    n: int,
)
    requires
        0 <= n <= metas.len(),
        forall|i: int| 0 <= i < n ==> m.contains_key((#[trigger] metas[i]).instrument_token),
    ensures
        after_seeds(m, metas.take(n)) == m,
    decreases n,
{
    if n > 0 {
        lemma_seeding_changes_nothing_known(m, metas, n - 1);
        assert(metas.take(n).drop_last() =~= metas.take(n - 1));
        assert(metas.take(n).last() == metas[n - 1]);
    }
}

/// A freshly seeded state can stand under its token, and so can a state
/// after a tick of that token: the metadata and the tick name the token, and
/// the metrics hold together.
pub proof fn lemma_entries_stay_well_formed(token: i32, state: TokenStateView, tick: Tick, meta: TokenMetaView)
    requires
        entry_wf(token, state),
        tick.instrument_token == token,
        meta.instrument_token == token,
    ensures
        entry_wf(token, state_after_tick(state, tick)),
        entry_wf(token, first_state(tick)),
        entry_wf(token, TokenState::seeded(meta)),
{
}

} // verus!
