use vstd::prelude::*;
use crate::supervisor::{clamp_window_days, row_views, window_days, InstrumentMetaRow};
use crate::text::same_text;
use crate::ticks::TokenMetaView;

verus! {

/// One instrument of the catalog, with what the selector reads of it. The
/// expiry is the number of its day.
#[derive(Debug, Clone, PartialEq, Eq)]
pub struct CatalogRow {
    pub exchange: String,
    pub instrument_type: String,
    pub name: String,
    pub expiry_day: Option<i32>,
    pub meta: InstrumentMetaRow,
}

/// Whether a row is an option on NIFTY: a call or a put on the exchange `NFO`.
pub open spec fn is_nifty_option(row: CatalogRow) -> bool {
    &&& row.exchange@ == "NFO"@
    &&& row.instrument_type@ == "CE"@ || row.instrument_type@ == "PE"@
    &&& row.name@ == "NIFTY"@
}

/// Whether a row can belong to the current series: it is an option on NIFTY
/// that expires today or within the window, which is held between 1 and 14 days.
pub open spec fn eligible(row: CatalogRow, today: i32, days: i32) -> bool {
    &&& is_nifty_option(row)
    &&& row.expiry_day matches Some(day) && today <= day <= today + window_days(days)
}

/// Whether `day` is the expiry of the current weekly series: the least
/// expiry of the rows that can belong to it.
pub open spec fn is_current_series(rows: Seq<CatalogRow>, today: i32, days: i32, day: i32) -> bool {
    &&& exists|i: int|
        0 <= i < rows.len() && eligible(#[trigger] rows[i], today, days) && rows[i].expiry_day
            == Some(day)
    &&& forall|i: int|
        0 <= i < rows.len() && eligible(#[trigger] rows[i], today, days) ==> day
            <= rows[i].expiry_day->0
}

/// Whether a row is an option on NIFTY.
pub fn nifty_option(row: &CatalogRow) -> (b: bool)
    ensures
        b == is_nifty_option(*row),
{
    let kind = row.instrument_type.as_str();
    same_text(row.exchange.as_str(), "NFO") && (same_text(kind, "CE") || same_text(kind, "PE"))
        && same_text(row.name.as_str(), "NIFTY")
}

/// The expiry of the current weekly series, if any row can belong to one.
pub fn current_series(rows: &Vec<CatalogRow>, today: i32, days: i32) -> (r: Option<i32>)
    ensures
        match r {
            Some(day) => is_current_series(rows@, today, days, day),
            None => forall|i: int| 0 <= i < rows@.len() ==> !eligible(#[trigger] rows@[i], today, days),
        },
{
    let window = clamp_window_days(days);
    let mut best: Option<i32> = None;
    let mut i: usize = 0;
    while i < rows.len()
        invariant
            i <= rows@.len(),
            window == window_days(days),
            match best {
                Some(day) => is_current_series(rows@.take(i as int), today, days, day),
                None => forall|j: int| 0 <= j < i ==> !eligible(#[trigger] rows@[j], today, days),
            },
        decreases rows@.len() - i,
    {
        let ghost seen = rows@.take(i as int);
        let ghost next = rows@.take(i + 1);
        let row = &rows[i];
        let fits = match row.expiry_day {
            Some(day) => nifty_option(row) && today as i64 <= day as i64 && day as i64 <= today as i64
                + window as i64,
            None => false,
        };
        assert(fits == eligible(rows@[i as int], today, days));
        let ghost before = best;
        if fits {
            let day = match row.expiry_day {
                Some(day) => day,
                None => 0,
            };
            best = match best {
                Some(least) => if day < least {
                    Some(day)
                } else {
                    Some(least)
                },
                None => Some(day),
            };
        }
        proof {
            assert(next[i as int] == rows@[i as int]);
            assert forall|j: int| 0 <= j < i implies next[j] == seen[j] by {}
            match best {
                Some(day) => {
                    if fits && rows@[i as int].expiry_day == Some(day) {
                        assert(eligible(next[i as int], today, days));
                    } else {
                        let k = choose|k: int|
                            0 <= k < seen.len() && eligible(#[trigger] seen[k], today, days)
                                && seen[k].expiry_day == Some(day);
                        assert(next[k] == seen[k]);
                    }
                    assert forall|j: int|
                        0 <= j < next.len() && eligible(#[trigger] next[j], today, days) implies day
                        <= next[j].expiry_day->0 by {
                        if j < i {
                            assert(next[j] == seen[j]);
                            if before is None {
                                assert(rows@[j] == seen[j]);
                            }
                        }
                    }
                },
                None => {},
            }
        }
        i = i + 1;
    }
    assert(rows@.take(rows@.len() as int) =~= rows@);
    best
}

/// Where `x` goes into `s`, which is ordered by token: behind the last
/// element whose token is not over that of `x`.
pub open spec fn place(s: Seq<TokenMetaView>, x: TokenMetaView) -> int
    decreases s.len(),
{
    if s.len() == 0 {
        0
    } else if s.last().instrument_token <= x.instrument_token {
        s.len() as int
    } else {
        place(s.drop_last(), x)
    }
}

/// `rows` in the order of their tokens; rows of one token stay in the order
/// in which they came.
pub open spec fn ordered(rows: Seq<TokenMetaView>) -> Seq<TokenMetaView>
    decreases rows.len(),
{
    if rows.len() == 0 {
        Seq::empty()
    } else {
        let front = ordered(rows.drop_last());
        front.insert(place(front, rows.last()), rows.last())
    }
}

/// The metadata of the rows of a series: of the options on NIFTY that
/// expire on `day`, in the order of the rows.
pub open spec fn series_metas(rows: Seq<CatalogRow>, day: i32) -> Seq<TokenMetaView>
    decreases rows.len(),
{
    if rows.len() == 0 {
        Seq::empty()
    } else {
        let front = series_metas(rows.drop_last(), day);
        if is_nifty_option(rows.last()) && rows.last().expiry_day == Some(day) {
            front.push(rows.last().meta@)
        } else {
            front
        }
    }
}

/// Puts `row` into `sorted` at its place.
fn insert_by_token(sorted: &mut Vec<InstrumentMetaRow>, row: InstrumentMetaRow)
    ensures
        row_views(final(sorted)@) == row_views(old(sorted)@).insert(
            place(row_views(old(sorted)@), row@),
            row@,
        ),
{
    let ghost views = row_views(sorted@);
    let mut at: usize = sorted.len();
    assert(views.take(at as int) =~= views);
    while at > 0 && sorted[at - 1].instrument_token > row.instrument_token
        invariant
            at <= sorted@.len(),
            sorted@ == old(sorted)@,
            views == row_views(sorted@),
            place(views, row@) == place(views.take(at as int), row@),
        decreases at,
    {
        proof {
            assert(views.take(at as int).drop_last() =~= views.take(at - 1));
            assert(views.take(at as int).last() == sorted@[at - 1]@);
        }
        at = at - 1;
    }
    proof {
        if at > 0 {
            assert(views.take(at as int).last() == sorted@[at - 1]@);
        }
        assert(place(views, row@) == at);
    }
    let ghost x = row@;
    sorted.insert(at, row);
    assert(row_views(sorted@) =~= views.insert(at as int, x));
}

/// The rows of the series that expires on `day`: the metadata of every
/// option on NIFTY with that expiry, in the order of their tokens.
pub fn series_rows(rows: Vec<CatalogRow>, day: i32) -> (out: Vec<InstrumentMetaRow>)
    ensures
        row_views(out@) == ordered(series_metas(rows@, day)),
{
    let ghost all = rows@;
    let mut out: Vec<InstrumentMetaRow> = Vec::new();
    assert(row_views(out@) =~= Seq::<TokenMetaView>::empty());
    assert(all.take(0) =~= Seq::<CatalogRow>::empty());
    for row in iter: rows
        invariant
            iter.seq() == all,
            row_views(out@) == ordered(series_metas(all.take(iter.index() as int), day)),
    {
        let ghost k = iter.index() as int;
        proof {
            assert(all.take(k + 1).drop_last() =~= all.take(k));
            assert(all.take(k + 1).last() == row);
        }
        if nifty_option(&row) && row.expiry_day == Some(day) {
            proof {
                let front = series_metas(all.take(k), day);
                assert(front.push(row.meta@).drop_last() =~= front);
            }
            insert_by_token(&mut out, row.meta);
        }
    }
    assert(all.take(all.len() as int) =~= all);
    out
}

/// Selects the current weekly series of NIFTY options from the catalog: the
/// day of its expiry and the metadata of its rows in the order of their
/// tokens; nothing where no option on NIFTY expires in the window.
pub fn select_current_week(rows: Vec<CatalogRow>, today: i32, days: i32) -> (r: (
    Option<i32>,
    Vec<InstrumentMetaRow>,
))
    ensures
        match r.0 {
            Some(day) => is_current_series(rows@, today, days, day) && row_views(r.1@) == ordered(
                series_metas(rows@, day),
            ),
            None => r.1@.len() == 0 && forall|i: int|
                0 <= i < rows@.len() ==> !eligible(#[trigger] rows@[i], today, days),
        },
{
    match current_series(&rows, today, days) {
        Some(day) => (Some(day), series_rows(rows, day)),
        None => (None, Vec::new()),
    }
}

/// Whether the tokens of `s` never fall from one element to the next.
pub open spec fn ordered_by_token(s: Seq<TokenMetaView>) -> bool {
    forall|i: int, j: int| 0 <= i < j < s.len() ==> s[i].instrument_token <= s[j].instrument_token
}

proof fn lemma_place_splits(s: Seq<TokenMetaView>, x: TokenMetaView)
    requires
        ordered_by_token(s),
    ensures
        0 <= place(s, x) <= s.len(),
        forall|i: int| 0 <= i < place(s, x) ==> s[i].instrument_token <= x.instrument_token,
        forall|i: int| place(s, x) <= i < s.len() ==> s[i].instrument_token > x.instrument_token,
    decreases s.len(),
{
    if s.len() > 0 && s.last().instrument_token > x.instrument_token {
        let front = s.drop_last();
        assert forall|i: int, j: int| 0 <= i < j < front.len() implies front[i].instrument_token
            <= front[j].instrument_token by {
            assert(front[i] == s[i] && front[j] == s[j]);
        }
        lemma_place_splits(front, x);
        assert forall|i: int| 0 <= i < place(s, x) implies s[i].instrument_token
            <= x.instrument_token by {
            assert(front[i] == s[i]);
        }
        assert forall|i: int| place(s, x) <= i < s.len() implies s[i].instrument_token
            > x.instrument_token by {
            if i < front.len() {
                assert(front[i] == s[i]);
            }
        }
    }
}

/// The rows of a series come out in the order of their tokens, and they
/// are the selected rows, each as often as it was selected.
pub proof fn lemma_ordered(rows: Seq<TokenMetaView>)
    ensures
        ordered_by_token(ordered(rows)),
        ordered(rows).len() == rows.len(),
        ordered(rows).to_multiset() == rows.to_multiset(),
    decreases rows.len(),
{
    broadcast use vstd::multiset::group_multiset_axioms;

    if rows.len() > 0 {
        let front = ordered(rows.drop_last());
        let x = rows.last();
        lemma_ordered(rows.drop_last());
        lemma_place_splits(front, x);
        let at = place(front, x);
        let out = front.insert(at, x);
        assert forall|i: int, j: int| 0 <= i < j < out.len() implies out[i].instrument_token
            <= out[j].instrument_token by {
            if i < at && j > at {
                assert(out[i] == front[i] && out[j] == front[j - 1]);
            } else if i < at && j < at {
                assert(out[i] == front[i] && out[j] == front[j]);
            } else if i > at {
                assert(out[i] == front[i - 1] && out[j] == front[j - 1]);
            } else if i == at {
                assert(out[j] == front[j - 1]);
            } else {
                assert(out[i] == front[i]);
            }
        }
        vstd::seq_lib::to_multiset_insert(front, at, x);
        vstd::seq_lib::to_multiset_build(rows.drop_last(), x);
        assert(rows =~= rows.drop_last().push(x));
    } else {
        assert(rows =~= Seq::<TokenMetaView>::empty());
    }
}

/// Whether no two of `rows` have the same token.
pub open spec fn distinct_tokens(rows: Seq<TokenMetaView>) -> bool {
    forall|i: int, j: int|
        0 <= i < j < rows.len() ==> rows[i].instrument_token != rows[j].instrument_token
}

/// Where no two rows have the same token, as in a catalog that keys its
/// rows by token, the rows of a series come out with strictly rising tokens.
pub proof fn lemma_ordered_rises(rows: Seq<TokenMetaView>)
    requires
        distinct_tokens(rows),
    ensures
        forall|i: int, j: int|
            0 <= i < j < ordered(rows).len() ==> ordered(rows)[i].instrument_token < ordered(
                rows,
            )[j].instrument_token,
        forall|i: int|
            0 <= i < ordered(rows).len() ==> exists|k: int|
                0 <= k < rows.len() && rows[k] == #[trigger] ordered(rows)[i],
    decreases rows.len(),
{
    if rows.len() > 0 {
        let shorter = rows.drop_last();
        let front = ordered(shorter);
        let x = rows.last();
        assert forall|i: int, j: int| 0 <= i < j < shorter.len() implies shorter[i].instrument_token
            != shorter[j].instrument_token by {
            assert(shorter[i] == rows[i] && shorter[j] == rows[j]);
        }
        lemma_ordered_rises(shorter);
        lemma_ordered(shorter);
        lemma_place_splits(front, x);
        let at = place(front, x);
        let out = front.insert(at, x);
        assert forall|i: int| 0 <= i < front.len() implies (#[trigger] front[i]).instrument_token
            != x.instrument_token by {
            let k = choose|k: int| 0 <= k < shorter.len() && shorter[k] == front[i];
            assert(shorter[k] == rows[k]);
        }
        assert forall|i: int| 0 <= i < out.len() implies exists|k: int|
            0 <= k < rows.len() && rows[k] == #[trigger] out[i] by {
            if i == at {
                assert(rows[rows.len() - 1] == out[i]);
            } else {
                let f = if i < at {
                    i
                } else {
                    i - 1
                };
                assert(out[i] == front[f]);
                let k = choose|k: int| 0 <= k < shorter.len() && shorter[k] == front[f];
                assert(rows[k] == out[i]);
            }
        }
        assert forall|i: int, j: int| 0 <= i < j < out.len() implies out[i].instrument_token
            < out[j].instrument_token by {
            if i < at && j > at {
                assert(out[i] == front[i] && out[j] == front[j - 1]);
            } else if i < at && j < at {
                assert(out[i] == front[i] && out[j] == front[j]);
            } else if i > at {
                assert(out[i] == front[i - 1] && out[j] == front[j - 1]);
            } else if i == at {
                assert(out[j] == front[j - 1]);
            } else {
                assert(out[i] == front[i]);
            }
        }
    }
}

} // verus!
