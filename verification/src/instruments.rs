use vstd::prelude::*;
use chrono::{Datelike, NaiveDate};
use crate::text::{ascii_lowercase, opt_text, same_text, to_ascii_lowercase, trim, trimmed};
use crate::ticks::opt_chars;

verus! {

/// The number of the day, counted from the first of January of the year 1,
/// that `text` spells in the format `format`, as `NaiveDate::parse_from_str`
/// and `num_days_from_ce` give it; none where the text spells no date.
pub uninterp spec fn date_days(text: Seq<char>, format: Seq<char>) -> Option<i32>;

/// `NaiveDate::parse_from_str` and `Datelike::num_days_from_ce`.
#[verifier::external_body]
fn parse_date(text: &str, format: &str) -> (r: Option<i32>)
    ensures
        r == date_days(text@, format@),
{
    NaiveDate::parse_from_str(text, format).ok().map(|date| date.num_days_from_ce())
}

/// One row of the instrument list of Kite. Numbers that the list gives as
/// decimal fractions are kept as the text that spells them; the strike is
/// in whole rupees.
#[derive(Debug, Clone, PartialEq, Eq)]
pub struct KiteInstrumentCsvRow {
    pub instrument_token: i32,
    pub exchange_token: Option<i32>,
    pub tradingsymbol: Option<String>,
    pub symbol: Option<String>,
    pub name: Option<String>,
    pub last_price: Option<String>,
    pub expiry: Option<String>,
    pub strike: Option<i64>,
    pub tick_size: Option<String>,
    pub lot_size: Option<i32>,
    pub instrument_type: Option<String>,
    pub segment: Option<String>,
    pub exchange: Option<String>,
}

/// One row as it is written to the catalog.
#[derive(Debug, Clone, PartialEq, Eq)]
pub struct InstrumentUpsert {
    pub instrument_token: i32,
    pub exchange_token: Option<i32>,
    pub tradingsymbol: Option<String>,
    pub symbol: Option<String>,
    pub name: Option<String>,
    pub last_price: Option<String>,
    pub expiry: Option<String>,
    pub strike: Option<i64>,
    pub tick_size: Option<String>,
    pub lot_size: Option<i32>,
    pub instrument_type: Option<String>,
    pub segment: Option<String>,
    pub exchange: Option<String>,
    pub symbol_full_name: Option<String>,
}

/// A text without the white space around it, where that leaves anything.
pub open spec fn cleaned(s: Option<Seq<char>>) -> Option<Seq<char>> {
    match s {
        Some(text) => if trimmed(text).len() > 0 {
            Some(trimmed(text))
        } else {
            None
        },
        None => None,
    }
}

/// A text without the white space around it, where that leaves anything.
pub fn clean_opt_string(s: Option<String>) -> (r: Option<String>)
    ensures
        opt_chars(r) == cleaned(opt_chars(s)),
{
    match s {
        Some(text) => {
            let cut = trim(text.as_str());
            if cut.unicode_len() > 0 {
                Some(cut.to_owned())
            } else {
                None
            }
        },
        None => None,
    }
}

/// The full name of a symbol: the trading symbol itself.
pub fn parse_trading_symbol(tradingsymbol: &str, _expiry: Option<&str>) -> (r: String)
    ensures
        r@ == tradingsymbol@,
{
    tradingsymbol.to_owned()
}

/// The day of an expiry given as `YYYY-MM-DD`, white space around it aside.
pub open spec fn expiry_day(expiry: Option<Seq<char>>) -> Option<i32> {
    match expiry {
        Some(text) => if trimmed(text).len() > 0 {
            date_days(trimmed(text), "%Y-%m-%d"@)
        } else {
            None
        },
        None => None,
    }
}

/// The day of an expiry.
pub fn parse_expiry_date(expiry: Option<&str>) -> (r: Option<i32>)
    ensures
        r == expiry_day(crate::text::opt_text(expiry)),
{
    match expiry {
        Some(text) => {
            let cut = trim(text);
            if cut.unicode_len() > 0 {
                parse_date(cut, "%Y-%m-%d")
            } else {
                None
            }
        },
        None => None,
    }
}

/// The tokens of the indices that are always kept.
pub open spec fn is_specific_token(token: i32) -> bool {
    token == 256265 || token == 260105 || token == 288009 || token == 257801 || token == 265
}

/// The name that an index goes by, for the tokens of the indices.
pub open spec fn index_name(token: i32) -> Option<Seq<char>> {
    if token == 256265 {
        Some("NIFTY"@)
    } else if token == 260105 {
        Some("BANKNIFTY"@)
    } else if token == 257801 {
        Some("FINNIFTY"@)
    } else if token == 288009 {
        Some("MIDCPNIFTY"@)
    } else if token == 265 {
        Some("SENSEX"@)
    } else {
        None
    }
}

/// Whether a name is that of an index whose options are kept.
pub open spec fn is_index_name(name: Seq<char>) -> bool {
    ||| name == "MIDCPNIFTY"@
    ||| name == "NIFTY"@
    ||| name == "BANKNIFTY"@
    ||| name == "FINNIFTY"@
    ||| name == "SENSEX"@
}

/// Whether a row is an option on one of the indices: by segment, exchange and name.
pub open spec fn is_index_option(row: KiteInstrumentCsvRow) -> bool {
    &&& row.segment matches Some(s) && (s@ == "NFO-OPT"@ || s@ == "BFO-OPT"@)
    &&& row.exchange matches Some(e) && (e@ == "NFO"@ || e@ == "BFO"@)
    &&& row.name matches Some(n) && is_index_name(n@)
}

/// The days that an expiry may fall on: from today to so many days on.
#[derive(Debug, Clone, Copy, PartialEq, Eq, Structural)]
pub struct ExpiryWindow {
    pub today: i32,
    pub days: i64,
}

/// Whether the expiry of a row falls in the window; without a window every row does.
pub open spec fn expiry_in_window(row: KiteInstrumentCsvRow, window: Option<ExpiryWindow>) -> bool {
    match window {
        Some(w) => expiry_day(opt_chars(row.expiry)) matches Some(day) && w.today <= day <= w.today
            + w.days,
        None => true,
    }
}

/// Whether a row is kept: it is one of the indices, or an option on one of
/// them that expires in the window.
pub open spec fn is_selected(row: KiteInstrumentCsvRow, window: Option<ExpiryWindow>) -> bool {
    is_specific_token(row.instrument_token) || (is_index_option(row) && expiry_in_window(row, window))
}

/// The window that `INSTRUMENT_EXPIRY_DAYS` asks for: none where it is not
/// set, no number, or under zero.
pub fn expiry_window(days: Option<i64>, today: i32) -> (r: Option<ExpiryWindow>)
    ensures
        r == match days {
            Some(d) => if d >= 0 {
                Some(ExpiryWindow { today, days: d })
            } else {
                None
            },
            None => None,
        },
{
    match days {
        Some(d) => if d >= 0 {
            Some(ExpiryWindow { today, days: d })
        } else {
            None
        },
        None => None,
    }
}

fn text_is_one_of(text: &Option<String>, a: &str, b: &str) -> (r: bool)
    ensures
        r == (*text matches Some(s) && (s@ == a@ || s@ == b@)),
{
    match text {
        Some(s) => same_text(s.as_str(), a) || same_text(s.as_str(), b),
        None => false,
    }
}

/// Whether a row is an option on one of the indices.
pub fn index_option(row: &KiteInstrumentCsvRow) -> (b: bool)
    ensures
        b == is_index_option(*row),
{
    let name_ok = match &row.name {
        Some(n) => {
            let n = n.as_str();
            same_text(n, "MIDCPNIFTY") || same_text(n, "NIFTY") || same_text(n, "BANKNIFTY")
                || same_text(n, "FINNIFTY") || same_text(n, "SENSEX")
        },
        None => false,
    };
    text_is_one_of(&row.segment, "NFO-OPT", "BFO-OPT") && text_is_one_of(&row.exchange, "NFO", "BFO")
        && name_ok
}

/// Whether a row is kept.
pub fn selected(row: &KiteInstrumentCsvRow, window: Option<ExpiryWindow>) -> (b: bool)
    ensures
        b == is_selected(*row, window),
{
    let token = row.instrument_token;
    if token == 256265 || token == 260105 || token == 288009 || token == 257801 || token == 265 {
        return true;
    }
    if !index_option(row) {
        return false;
    }
    match window {
        Some(w) => {
            let expiry: Option<&str> = match &row.expiry {
                Some(text) => Some(text.as_str()),
                None => None,
            };
            match parse_expiry_date(expiry) {
                Some(day) => w.today as i64 <= day as i64 && day as i64 - w.today as i64 <= w.days,
                None => false,
            }
        },
        None => true,
    }
}

/// The name that an index goes by.
pub fn mapped_name(token: i32) -> (r: Option<&'static str>)
    ensures
        crate::text::opt_text(r) == index_name(token),
{
    if token == 256265 {
        Some("NIFTY")
    } else if token == 260105 {
        Some("BANKNIFTY")
    } else if token == 257801 {
        Some("FINNIFTY")
    } else if token == 288009 {
        Some("MIDCPNIFTY")
    } else if token == 265 {
        Some("SENSEX")
    } else {
        None
    }
}

/// What is written for a row. Texts are cleaned. An index gets the name it
/// goes by, as its name and as its full name; any other row keeps its
/// cleaned name and has its trading symbol for a full name.
pub open spec fn upsert_fits(u: InstrumentUpsert, row: KiteInstrumentCsvRow) -> bool {
    &&& u.instrument_token == row.instrument_token
    &&& u.exchange_token == row.exchange_token
    &&& opt_chars(u.tradingsymbol) == cleaned(opt_chars(row.tradingsymbol))
    &&& opt_chars(u.symbol) == cleaned(opt_chars(row.symbol))
    &&& opt_chars(u.name) == match index_name(row.instrument_token) {
        Some(name) => Some(name),
        None => cleaned(opt_chars(row.name)),
    }
    &&& opt_chars(u.last_price) == cleaned(opt_chars(row.last_price))
    &&& opt_chars(u.expiry) == cleaned(opt_chars(row.expiry))
    &&& u.strike == row.strike
    &&& opt_chars(u.tick_size) == cleaned(opt_chars(row.tick_size))
    &&& u.lot_size == row.lot_size
    &&& opt_chars(u.instrument_type) == cleaned(opt_chars(row.instrument_type))
    &&& opt_chars(u.segment) == cleaned(opt_chars(row.segment))
    &&& opt_chars(u.exchange) == cleaned(opt_chars(row.exchange))
    &&& opt_chars(u.symbol_full_name) == match index_name(row.instrument_token) {
        Some(name) => Some(name),
        None => cleaned(opt_chars(row.tradingsymbol)),
    }
}

/// What is written for a row.
pub fn to_upsert(row: KiteInstrumentCsvRow) -> (u: InstrumentUpsert)
    ensures
        upsert_fits(u, row),
{
    let tradingsymbol = clean_opt_string(row.tradingsymbol);
    let expiry = clean_opt_string(row.expiry);
    let mapped = mapped_name(row.instrument_token);
    let name = match mapped {
        Some(m) => Some(m.to_owned()),
        None => clean_opt_string(row.name),
    };
    let symbol_full_name = match mapped {
        Some(m) => Some(m.to_owned()),
        None => match &tradingsymbol {
            Some(ts) => Some(parse_trading_symbol(ts.as_str(), None)),
            None => None,
        },
    };
    InstrumentUpsert {
        instrument_token: row.instrument_token,
        exchange_token: row.exchange_token,
        tradingsymbol,
        symbol: clean_opt_string(row.symbol),
        name,
        last_price: clean_opt_string(row.last_price),
        expiry,
        strike: row.strike,
        tick_size: clean_opt_string(row.tick_size),
        lot_size: row.lot_size,
        instrument_type: clean_opt_string(row.instrument_type),
        segment: clean_opt_string(row.segment),
        exchange: clean_opt_string(row.exchange),
        symbol_full_name,
    }
}

/// The rows of `rows` that are kept, in order.
pub open spec fn selected_rows(rows: Seq<KiteInstrumentCsvRow>, window: Option<ExpiryWindow>) -> Seq<
    KiteInstrumentCsvRow,
> {
    rows.filter(|row: KiteInstrumentCsvRow| is_selected(row, window))
}

/// What is written to the catalog for the rows of the instrument list: one
/// row for each that is kept, in order.
pub fn select_upserts(rows: Vec<KiteInstrumentCsvRow>, window: Option<ExpiryWindow>) -> (upserts:
    Vec<InstrumentUpsert>)
    ensures
        upserts@.len() == selected_rows(rows@, window).len(),
        forall|i: int|
            0 <= i < upserts@.len() ==> upsert_fits(
                #[trigger] upserts@[i],
                selected_rows(rows@, window)[i],
            ),
{
    let ghost all = rows@;
    let ghost keep = |row: KiteInstrumentCsvRow| is_selected(row, window);
    let mut upserts: Vec<InstrumentUpsert> = Vec::new();
    assert(all.take(0).filter(keep) =~= Seq::<KiteInstrumentCsvRow>::empty());
    for row in iter: rows
        invariant
            iter.seq() == all,
            keep == (|row: KiteInstrumentCsvRow| is_selected(row, window)),
            upserts@.len() == all.take(iter.index() as int).filter(keep).len(),
            forall|i: int|
                0 <= i < upserts@.len() ==> upsert_fits(
                    #[trigger] upserts@[i],
                    all.take(iter.index() as int).filter(keep)[i],
                ),
    {
        let ghost k = iter.index() as int;
        proof {
            assert(all.take(k + 1) =~= all.take(k).push(row));
            all.take(k).lemma_filter_push(row, keep);
        }
        if selected(&row, window) {
            upserts.push(to_upsert(row));
        }
    }
    assert(all.take(all.len() as int) =~= all);
    upserts
}

/// How the rows are written.
#[derive(Debug, Clone, Copy, PartialEq, Eq, Structural)]
pub enum WriteMode {
    /// Through a bulk copy, after deleting all rows or only those to be written.
    Copy { delete_all: bool },
    /// Row by row, after deleting all rows.
    ReplaceAll,
    /// Row by row, after deleting those to be written.
    ReplaceByTokens,
}

/// How the rows are written: by bulk copy where that is asked for; the
/// whole table is replaced only where no window of expiries narrows the rows.
pub fn write_mode(use_bulk_copy: bool, window: Option<ExpiryWindow>) -> (mode: WriteMode)
    ensures
        mode == if use_bulk_copy {
            WriteMode::Copy { delete_all: window is None }
        } else if window is None {
            WriteMode::ReplaceAll
        } else {
            WriteMode::ReplaceByTokens
        },
{
    let delete_all = window.is_none();
    if use_bulk_copy {
        WriteMode::Copy { delete_all }
    } else if delete_all {
        WriteMode::ReplaceAll
    } else {
        WriteMode::ReplaceByTokens
    }
}

/// Whether a variable of the environment switches something on: its
/// value, white space around it aside, is `1`, or `true` in any case of letters.
pub open spec fn is_switched_on(var: Option<Seq<char>>) -> bool {
    match var {
        Some(text) => trimmed(text) == "1"@ || ascii_lowercase(trimmed(text)) == "true"@,
        None => false,
    }
}

/// Reads a variable that switches the way of writing, such as
/// `INSTRUMENT_BULK_COPY` and `INSTRUMENT_SKIP_IF_PRESENT`.
pub fn switched_on(var: Option<&str>) -> (b: bool)
    ensures
        b == is_switched_on(opt_text(var)),
{
    match var {
        Some(text) => {
            let cut = trim(text);
            same_text(cut, "1") || same_text(to_ascii_lowercase(cut).as_str(), "true")
        },
        None => false,
    }
}

} // verus!
