use vstd::prelude::*;
use crate::error::AppError;
use crate::profile::{usable_token, UserKiteCreds};
use crate::text::{parse_u64, parsed_u64, trim, trimmed};
use crate::ticks::{TokenMeta, TokenMetaView};

verus! {

/// The token of the NIFTY spot index, which is always subscribed to.
pub const NIFTY_INDEX_TOKEN: i32 = 256265;

/// One row of the catalog, as the selector hands it over.
#[derive(Debug, Clone, PartialEq, Eq)]
pub struct InstrumentMetaRow {
    pub instrument_token: i32,
    pub tradingsymbol: String,
    pub instrument_type: String,
    pub expiry: Option<String>,
    /// Strike in whole rupees.
    pub strike: Option<i64>,
}

impl View for InstrumentMetaRow {
    type V = TokenMetaView;

    open spec fn view(&self) -> TokenMetaView {
        TokenMetaView {
            instrument_token: self.instrument_token,
            tradingsymbol: self.tradingsymbol@,
            instrument_type: self.instrument_type@,
            expiry: crate::ticks::opt_chars(self.expiry),
            strike: self.strike,
        }
    }
}

/// The days ahead in which an expiry is looked for: `days`, held between 1 and 14.
pub open spec fn window_days(days: i32) -> i32 {
    if days < 1 {
        1
    } else if days > 14 {
        14
    } else {
        days
    }
}

/// Holds the window of the selector between 1 and 14 days.
pub fn clamp_window_days(days: i32) -> (r: i32)
    ensures
        r == window_days(days),
{
    if days < 1 {
        1
    } else if days > 14 {
        14
    } else {
        days
    }
}

/// The metadata of the NIFTY index.
pub open spec fn index_meta() -> TokenMetaView {
    TokenMetaView {
        instrument_token: 256265,
        tradingsymbol: "NIFTY"@,
        instrument_type: "INDEX"@,
        expiry: None,
        strike: None,
    }
}

/// The views of `rows`, in order.
pub open spec fn row_views(rows: Seq<InstrumentMetaRow>) -> Seq<TokenMetaView> {
    Seq::new(rows.len(), |i: int| rows[i]@)
}

/// The metadata to seed the store with: that of the selected rows, in their
/// order, and that of the NIFTY index after them. Where the selector found
/// no row there is nothing to subscribe to.
pub fn subscription_metas(rows: Vec<InstrumentMetaRow>) -> (r: Result<Vec<TokenMeta>, AppError>)
    ensures
        rows@.len() == 0 ==> r == Err::<Vec<TokenMeta>, AppError>(AppError::NoSubscription),
        rows@.len() > 0 ==> r is Ok && crate::store::meta_views(r->Ok_0@) == row_views(rows@).push(
            index_meta(),
        ),
{
    if rows.len() == 0 {
        return Err(AppError::NoSubscription);
    }
    let ghost all = rows@;
    let mut metas: Vec<TokenMeta> = Vec::new();
    for row in iter: rows
        invariant
            iter.seq() == all,
            metas@.len() == iter.index(),
            forall|j: int| 0 <= j < iter.index() ==> (#[trigger] metas@[j])@ == all[j]@,
    {
        metas.push(
            TokenMeta::new(
                row.instrument_token,
                row.tradingsymbol,
                row.instrument_type,
                row.expiry,
                row.strike,
            ),
        );
    }
    metas.push(
        TokenMeta::new(NIFTY_INDEX_TOKEN, "NIFTY".to_owned(), "INDEX".to_owned(), None, None),
    );
    assert(crate::store::meta_views(metas@) =~= row_views(all).push(index_meta()));
    Ok(metas)
}

/// Whether `s` rises strictly from each element to the next.
pub open spec fn strictly_increasing(s: Seq<i32>) -> bool {
    forall|i: int, j: int| 0 <= i < j < s.len() ==> s[i] < s[j]
}

/// The tokens that `metas` name, as a set.
pub open spec fn named_tokens(metas: Seq<TokenMeta>) -> Set<i32> {
    Set::new(|token: i32| exists|i: int| 0 <= i < metas.len() && (#[trigger] metas[i]).instrument_token == token)
}

/// Puts `token` into `sorted` at its place, unless it is there.
fn insert_sorted(sorted: &mut Vec<i32>, token: i32)
    requires
        strictly_increasing(old(sorted)@),
    ensures
        strictly_increasing(final(sorted)@),
        final(sorted)@.to_set() == old(sorted)@.to_set().insert(token),
{
    let mut at: usize = 0;
    while at < sorted.len() && sorted[at] < token
        invariant
            at <= sorted@.len(),
            sorted@ == old(sorted)@,
            forall|j: int| 0 <= j < at ==> sorted@[j] < token,
        decreases sorted@.len() - at,
    {
        at = at + 1;
    }
    if at < sorted.len() && sorted[at] == token {
        assert(sorted@.to_set() =~= sorted@.to_set().insert(token)) by {
            assert(sorted@[at as int] == token);
        }
        return ;
    }
    let ghost before = sorted@;
    sorted.insert(at, token);
    proof {
        let after = sorted@;
        assert(after == before.insert(at as int, token));
        assert forall|i: int, j: int| 0 <= i < j < after.len() implies after[i] < after[j] by {
            let bi = if i < at { i } else { i - 1 };
            let bj = if j < at { j } else { j - 1 };
            if i != at && j != at {
                assert(after[i] == before[bi]);
                assert(after[j] == before[bj]);
            } else if i == at {
                assert(after[j] == before[bj]);
                assert(before[at as int] <= before[bj]) by {
                    if (at as int) < bj {
                    }
                }
            } else {
                assert(after[i] == before[bi]);
            }
        }
        assert(after.to_set() =~= before.to_set().insert(token)) by {
            assert forall|x: i32| before.to_set().insert(token).contains(x) implies after.to_set().contains(x) by {
                if x == token {
                    assert(after[at as int] == token);
                } else {
                    let k = choose|k: int| 0 <= k < before.len() && before[k] == x;
                    if k < at {
                        assert(after[k] == x);
                    } else {
                        assert(after[k + 1] == x);
                    }
                }
            }
            assert forall|x: i32| after.to_set().contains(x) implies before.to_set().insert(token).contains(x) by {
                let k = choose|k: int| 0 <= k < after.len() && after[k] == x;
                if k < at {
                    assert(before[k] == x);
                } else if k > at {
                    assert(before[k - 1] == x);
                }
            }
        }
    }
}

/// The tokens to subscribe to: those that `metas` name, each once, in
/// rising order.
pub fn subscription_tokens(metas: &Vec<TokenMeta>) -> (tokens: Vec<i32>)
    ensures
        strictly_increasing(tokens@),
        tokens@.to_set() == named_tokens(metas@),
{
    let mut tokens: Vec<i32> = Vec::new();
    let mut i: usize = 0;
    while i < metas.len()
        invariant
            i <= metas@.len(),
            strictly_increasing(tokens@),
            tokens@.to_set() == named_tokens(metas@.take(i as int)),
        decreases metas@.len() - i,
    {
        let ghost seen = metas@.take(i as int);
        let ghost next = metas@.take(i + 1);
        insert_sorted(&mut tokens, metas[i].instrument_token);
        proof {
            assert(named_tokens(next) =~= named_tokens(seen).insert(metas@[i as int].instrument_token)) by {
                assert forall|x: i32| named_tokens(seen).insert(metas@[i as int].instrument_token).contains(x)
                    implies named_tokens(next).contains(x) by {
                    if x == metas@[i as int].instrument_token {
                        assert(next[i as int].instrument_token == x);
                    } else {
                        let k = choose|k: int| 0 <= k < seen.len() && (#[trigger] seen[k]).instrument_token == x;
                        assert(next[k].instrument_token == x);
                    }
                }
                assert forall|x: i32| named_tokens(next).contains(x) implies named_tokens(seen).insert(
                    metas@[i as int].instrument_token,
                ).contains(x) by {
                    let k = choose|k: int| 0 <= k < next.len() && (#[trigger] next[k]).instrument_token == x;
                    if k < i {
                        assert(seen[k].instrument_token == x);
                    }
                }
            }
        }
        i = i + 1;
    }
    proof {
        assert(metas@.take(metas@.len() as int) =~= metas@);
        assert(named_tokens(metas@.take(0)) =~= Set::<i32>::empty()) by {}
    }
    tokens
}

/// The credentials to run the ticker with: the key, and the access token
/// without the white space around it.
pub open spec fn ticker_credentials_of(creds: Option<UserKiteCreds>) -> Option<(Seq<char>, Seq<char>)> {
    match creds {
        Some(c) => match usable_token(c.access_token) {
            Some(token) => Some((c.api_key@, token)),
            None => None,
        },
        None => None,
    }
}

/// Picks the credentials to run the ticker with. Without a user, or without
/// an access token that holds more than white space, the ticker cannot run.
pub fn ticker_credentials(creds: Option<UserKiteCreds>) -> (r: Result<(String, String), AppError>)
    ensures
        match r {
            Ok(pair) => ticker_credentials_of(creds) == Some((pair.0@, pair.1@)),
            Err(error) => {
                &&& ticker_credentials_of(creds) is None
                &&& error matches AppError::MissingCredentials(text) && text@ == (if creds is Some {
                    "no access_token (run autologin first)"@
                } else {
                    "user not found in trade.profile"@
                })
            },
        },
{
    match creds {
        Some(c) => match c.usable_access_token() {
            Some(token) => Ok((c.api_key, token)),
            None => Err(AppError::MissingCredentials("no access_token (run autologin first)".to_owned())),
        },
        None => Err(AppError::MissingCredentials("user not found in trade.profile".to_owned())),
    }
}

/// The seconds to run for, as a variable of the environment gives them:
/// its value without white space around it, read as a number, where that
/// number is over zero.
pub open spec fn run_seconds(var: Option<Seq<char>>) -> Option<u64> {
    match var {
        Some(text) => match parsed_u64(trimmed(text)) {
            Some(secs) => if secs > 0 {
                Some(secs)
            } else {
                None
            },
            None => None,
        },
        None => None,
    }
}

/// Reads the seconds after which the ticker stops by itself.
pub fn run_secs(var: Option<&str>) -> (r: Option<u64>)
    ensures
        r == run_seconds(
            match var {
                Some(text) => Some(text@),
                None => None,
            },
        ),
{
    match var {
        Some(text) => match parse_u64(trim(text)) {
            Some(secs) => if secs > 0 {
                Some(secs)
            } else {
                None
            },
            None => None,
        },
        None => None,
    }
}

} // verus!
