use vstd::prelude::*;
use crate::instruments::InstrumentUpsert;
use crate::text::{decimal, push_decimal, string_push};
use crate::ticks::opt_chars;

verus! {

/// A character as it goes into a field of a copy in text format: the
/// backslash, the tab, the line feed and the carriage return are written
/// as a backslash and a letter, anything else as itself.
pub open spec fn escaped_char(c: char) -> Seq<char> {
    if c == '\\' {
        seq!['\\', '\\']
    } else if c == '\t' {
        seq!['\\', 't']
    } else if c == '\n' {
        seq!['\\', 'n']
    } else if c == '\r' {
        seq!['\\', 'r']
    } else {
        seq![c]
    }
}

/// A text as it goes into a field of a copy in text format.
pub open spec fn escaped(s: Seq<char>) -> Seq<char>
    decreases s.len(),
{
    if s.len() == 0 {
        Seq::empty()
    } else {
        escaped(s.drop_last()) + escaped_char(s.last())
    }
}

/// The field that stands for no value: `\N`.
pub open spec fn null_field() -> Seq<char> {
    seq!['\\', 'N']
}

/// A field that holds a text, or none.
pub open spec fn text_field(v: Option<Seq<char>>) -> Seq<char> {
    match v {
        Some(text) => escaped(text),
        None => null_field(),
    }
}

/// A field that holds a whole number, or none.
pub open spec fn number_field(v: Option<int>) -> Seq<char> {
    match v {
        Some(n) => decimal(n),
        None => null_field(),
    }
}

fn push_escaped(out: &mut String, s: &str)
    ensures
        final(out)@ == old(out)@ + escaped(s@),
{
    let ghost start = out@;
    assert(s@.take(0) =~= Seq::<char>::empty());
    for c in iter: s.chars()
        invariant
            iter.seq() == s@,
            out@ == start + escaped(s@.take(iter.index() as int)),
    {
        let ghost k = iter.index() as int;
        proof {
            assert(s@.take(k + 1).drop_last() =~= s@.take(k));
            assert(s@.take(k + 1).last() == c);
        }
        if c == '\\' {
            string_push(out, '\\');
            string_push(out, '\\');
        } else if c == '\t' {
            string_push(out, '\\');
            string_push(out, 't');
        } else if c == '\n' {
            string_push(out, '\\');
            string_push(out, 'n');
        } else if c == '\r' {
            string_push(out, '\\');
            string_push(out, 'r');
        } else {
            string_push(out, c);
        }
        assert(out@ =~= start + escaped(s@.take(k + 1)));
    }
    assert(s@.take(s@.len() as int) =~= s@);
}

/// A text as it goes into a field of a copy in text format.
pub fn copy_escape_text_field(s: &str) -> (r: String)
    ensures
        r@ == escaped(s@),
{
    let mut out = String::new();
    push_escaped(&mut out, s);
    assert(out@ =~= escaped(s@));
    out
}

/// A field that holds a text, or none.
pub fn copy_field_opt_str(v: Option<&str>) -> (r: String)
    ensures
        r@ == text_field(crate::text::opt_text(v)),
{
    match v {
        None => {
            let mut out = String::new();
            string_push(&mut out, '\\');
            string_push(&mut out, 'N');
            assert(out@ =~= null_field());
            out
        },
        Some(s) => copy_escape_text_field(s),
    }
}

/// A field that holds a whole number, or none.
pub fn copy_field_opt_i64(v: Option<i64>) -> (r: String)
    ensures
        r@ == number_field(
            match v {
                Some(n) => Some(n as int),
                None => None,
            },
        ),
{
    let mut out = String::new();
    match v {
        None => {
            string_push(&mut out, '\\');
            string_push(&mut out, 'N');
            assert(out@ =~= null_field());
        },
        Some(n) => {
            push_decimal(&mut out, n);
            assert(out@ =~= decimal(n as int));
        },
    }
    out
}

/// A field that holds a whole number, or none.
pub fn copy_field_opt_i32(v: Option<i32>) -> (r: String)
    ensures
        r@ == number_field(
            match v {
                Some(n) => Some(n as int),
                None => None,
            },
        ),
{
    match v {
        Some(n) => copy_field_opt_i64(Some(n as i64)),
        None => copy_field_opt_i64(None),
    }
}

/// The fields of a row, in the order of the columns of the copy.
pub open spec fn row_fields(u: InstrumentUpsert) -> Seq<Seq<char>> {
    seq![
        decimal(u.instrument_token as int),
        number_field(
            match u.exchange_token {
                Some(n) => Some(n as int),
                None => None,
            },
        ),
        text_field(opt_chars(u.tradingsymbol)),
        text_field(opt_chars(u.symbol)),
        text_field(opt_chars(u.name)),
        text_field(opt_chars(u.last_price)),
        text_field(opt_chars(u.expiry)),
        number_field(
            match u.strike {
                Some(n) => Some(n as int),
                None => None,
            },
        ),
        text_field(opt_chars(u.tick_size)),
        number_field(
            match u.lot_size {
                Some(n) => Some(n as int),
                None => None,
            },
        ),
        text_field(opt_chars(u.instrument_type)),
        text_field(opt_chars(u.segment)),
        text_field(opt_chars(u.exchange)),
        text_field(opt_chars(u.symbol_full_name)),
    ]
}

/// Fields laid end to end with a tab between each two.
pub open spec fn tab_separated(fields: Seq<Seq<char>>) -> Seq<char>
    decreases fields.len(),
{
    if fields.len() == 0 {
        Seq::empty()
    } else if fields.len() == 1 {
        fields[0]
    } else {
        tab_separated(fields.drop_last()) + seq!['\t'] + fields.last()
    }
}

/// The line of a row in a copy: its fourteen fields with tabs between
/// them, and a line feed.
pub open spec fn copy_line_of(u: InstrumentUpsert) -> Seq<char> {
    tab_separated(row_fields(u)) + seq!['\n']
}

fn opt_str(v: &Option<String>) -> (r: Option<&str>)
    ensures
        crate::text::opt_text(r) == opt_chars(*v),
{
    match v {
        Some(s) => Some(s.as_str()),
        None => None,
    }
}

/// The line of a row in a copy.
pub fn copy_line(u: &InstrumentUpsert) -> (line: String)
    ensures
        line@ == copy_line_of(*u),
{
    let mut fields: Vec<String> = Vec::new();
    fields.push(copy_field_opt_i64(Some(u.instrument_token as i64)));
    fields.push(copy_field_opt_i32(u.exchange_token));
    fields.push(copy_field_opt_str(opt_str(&u.tradingsymbol)));
    fields.push(copy_field_opt_str(opt_str(&u.symbol)));
    fields.push(copy_field_opt_str(opt_str(&u.name)));
    fields.push(copy_field_opt_str(opt_str(&u.last_price)));
    fields.push(copy_field_opt_str(opt_str(&u.expiry)));
    fields.push(copy_field_opt_i64(u.strike));
    fields.push(copy_field_opt_str(opt_str(&u.tick_size)));
    fields.push(copy_field_opt_i32(u.lot_size));
    fields.push(copy_field_opt_str(opt_str(&u.instrument_type)));
    fields.push(copy_field_opt_str(opt_str(&u.segment)));
    fields.push(copy_field_opt_str(opt_str(&u.exchange)));
    fields.push(copy_field_opt_str(opt_str(&u.symbol_full_name)));
    let ghost views = crate::text::texts(fields@);
    assert(views =~= row_fields(*u));
    let mut line = String::new();
    let mut i: usize = 0;
    assert(views.take(0) =~= Seq::<Seq<char>>::empty());
    while i < fields.len()
        invariant
            i <= fields@.len(),
            views == crate::text::texts(fields@),
            line@ == tab_separated(views.take(i as int)),
        decreases fields@.len() - i,
    {
        proof {
            assert(views.take(i + 1).drop_last() =~= views.take(i as int));
            assert(views.take(i + 1).last() == fields@[i as int]@);
        }
        if i > 0 {
            string_push(&mut line, '\t');
        }
        line.append(fields[i].as_str());
        proof {
            if i == 0 {
                assert(line@ =~= fields@[0]@);
            }
        }
        i = i + 1;
    }
    assert(views.take(views.len() as int) =~= views);
    string_push(&mut line, '\n');
    line
}

} // verus!
