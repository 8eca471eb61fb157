use vstd::prelude::*;
use crate::text::{decimal, push_decimal, string_push, texts};

verus! {

/// The most tokens that one subscription message names.
pub const SUBSCRIBE_CHUNK: usize = 300;

/// The number of chunks that `k` tokens are sent in: `k / 300`, rounded up.
pub open spec fn chunk_count(k: nat) -> nat {
    (k + 299) / 300
}

/// The `i`-th chunk of `tokens`: up to 300 of them, from the `300 * i`-th on.
pub open spec fn chunk(tokens: Seq<i32>, i: int) -> Seq<i32> {
    tokens.subrange(300 * i, if 300 * (i + 1) <= tokens.len() {
        300 * (i + 1)
    } else {
        tokens.len() as int
    })
}

/// The tokens in decimal with a comma between each two.
pub open spec fn comma_separated(tokens: Seq<i32>) -> Seq<char>
    decreases tokens.len(),
{
    if tokens.len() == 0 {
        Seq::empty()
    } else if tokens.len() == 1 {
        decimal(tokens[0] as int)
    } else {
        comma_separated(tokens.drop_last()) + seq![','] + decimal(tokens.last() as int)
    }
}

/// The tokens as a JSON array of numbers.
pub open spec fn json_array(tokens: Seq<i32>) -> Seq<char> {
    seq!['['] + comma_separated(tokens) + seq![']']
}

/// The message that subscribes to `tokens`: `{"a":"subscribe","v":[..]}`.
pub open spec fn subscribe_text(tokens: Seq<i32>) -> Seq<char> {
    "{\"a\":\"subscribe\",\"v\":"@ + json_array(tokens) + "}"@
}

/// The message that sets `tokens` to full mode: `{"a":"mode","v":["full",[..]]}`.
pub open spec fn mode_text(tokens: Seq<i32>) -> Seq<char> {
    "{\"a\":\"mode\",\"v\":[\"full\","@ + json_array(tokens) + "]}"@
}

/// The messages that subscribe to `tokens`, in sending order: for each
/// chunk in turn, the subscription and then the mode.
pub open spec fn subscription_texts(tokens: Seq<i32>) -> Seq<Seq<char>> {
    Seq::new(
        2 * chunk_count(tokens.len()),
        |j: int|
            if j % 2 == 0 {
                subscribe_text(chunk(tokens, j / 2))
            } else {
                mode_text(chunk(tokens, j / 2))
            },
    )
}

/// Appends the JSON array of `tokens[from..to]` to `out`.
fn push_json_array(out: &mut String, tokens: &[i32], from: usize, to: usize)
    requires
        from <= to <= tokens@.len(),
    ensures
        final(out)@ == old(out)@ + json_array(tokens@.subrange(from as int, to as int)),
{
    let ghost start = out@;
    string_push(out, '[');
    let mut i: usize = from;
    while i < to
        invariant
            from <= i <= to <= tokens@.len(),
            out@ == start + seq!['['] + comma_separated(tokens@.subrange(from as int, i as int)),
        decreases to - i,
    {
        let ghost done = tokens@.subrange(from as int, i as int);
        let ghost next = tokens@.subrange(from as int, i + 1);
        proof {
            assert(next.drop_last() =~= done);
            assert(next.last() == tokens@[i as int]);
        }
        if i > from {
            string_push(out, ',');
        }
        push_decimal(out, tokens[i] as i64);
        proof {
            if i > from {
                assert(out@ =~= start + seq!['['] + (comma_separated(done) + seq![','] + decimal(
                    tokens@[i as int] as int,
                )));
            } else {
                assert(done =~= Seq::<i32>::empty());
                assert(out@ =~= start + seq!['['] + decimal(tokens@[i as int] as int));
            }
        }
        i = i + 1;
    }
    string_push(out, ']');
    assert(out@ =~= start + json_array(tokens@.subrange(from as int, to as int)));
}

/// The message that subscribes to `tokens[from..to]`.
fn subscribe_message(tokens: &[i32], from: usize, to: usize) -> (r: String)
    requires
        from <= to <= tokens@.len(),
    ensures
        r@ == subscribe_text(tokens@.subrange(from as int, to as int)),
{
    let mut out = "{\"a\":\"subscribe\",\"v\":".to_owned();
    push_json_array(&mut out, tokens, from, to);
    out.append("}");
    out
}

/// The message that sets `tokens[from..to]` to full mode.
fn mode_message(tokens: &[i32], from: usize, to: usize) -> (r: String)
    requires
        from <= to <= tokens@.len(),
    ensures
        r@ == mode_text(tokens@.subrange(from as int, to as int)),
{
    let mut out = "{\"a\":\"mode\",\"v\":[\"full\",".to_owned();
    push_json_array(&mut out, tokens, from, to);
    out.append("]}");
    out
}

/// The text frames that subscribe to `tokens` in full mode, in the order in
/// which they are to be sent. The tokens go out in chunks of 300; each chunk
/// is subscribed to and then set to full mode before the next one follows.
pub fn subscription_messages(tokens: &[i32]) -> (messages: Vec<String>)
    ensures
        texts(messages@) == subscription_texts(tokens@),
{
    let mut messages: Vec<String> = Vec::new();
    let n = tokens.len();
    let mut from: usize = 0;
    let ghost mut c: int = 0;
    while from < n
        invariant
            n == tokens@.len(),
            from == 300 * c || (from == n && c == chunk_count(n as nat)),
            0 <= c <= chunk_count(n as nat),
            from <= n,
            messages@.len() == 2 * c,
            forall|j: int|
                0 <= j < 2 * c ==> (#[trigger] messages@[j])@ == subscription_texts(tokens@)[j],
        decreases n - from,
    {
        let to: usize = if n - from > SUBSCRIBE_CHUNK {
            from + SUBSCRIBE_CHUNK
        } else {
            n
        };
        assert(tokens@.subrange(from as int, to as int) == chunk(tokens@, c));
        let subscribe = subscribe_message(tokens, from, to);
        let mode = mode_message(tokens, from, to);
        proof {
            assert((2 * c) % 2 == 0 && (2 * c) / 2 == c);
            assert((2 * c + 1) % 2 == 1 && (2 * c + 1) / 2 == c);
            assert(c < chunk_count(n as nat));
        }
        messages.push(subscribe);
        messages.push(mode);
        from = to;
        proof {
            c = c + 1;
        }
    }
    assert(texts(messages@) =~= subscription_texts(tokens@));
    messages
}

/// The first `n` chunks of `tokens`, laid end to end.
pub open spec fn chunks_joined(tokens: Seq<i32>, n: nat) -> Seq<i32>
    decreases n,
{
    if n == 0 {
        Seq::empty()
    } else {
        chunks_joined(tokens, (n - 1) as nat) + chunk(tokens, n - 1)
    }
}

proof fn lemma_chunks_joined(tokens: Seq<i32>, n: nat)
    requires
        n <= chunk_count(tokens.len()),
    ensures
        chunks_joined(tokens, n) == tokens.take(
            if 300 * n <= tokens.len() {
                (300 * n) as int
            } else {
                tokens.len() as int
            },
        ),
    decreases n,
{
    if n > 0 {
        lemma_chunks_joined(tokens, (n - 1) as nat);
        let upto = if 300 * n <= tokens.len() {
            (300 * n) as int
        } else {
            tokens.len() as int
        };
        assert(chunks_joined(tokens, n) =~= tokens.take(upto));
    } else {
        assert(tokens.take(0) =~= Seq::<i32>::empty());
    }
}

/// Chunking: `k` tokens go out in `k / 300`, rounded up, chunks. Every
/// chunk holds at least one token and at most 300, every chunk but the last
/// holds 300, and the chunks laid end to end are the tokens.
pub proof fn lemma_chunks_cover(tokens: Seq<i32>)
    ensures
        300 * (chunk_count(tokens.len()) - 1) < tokens.len() || tokens.len() == 0,
        tokens.len() <= 300 * chunk_count(tokens.len()),
        forall|i: int|
            0 <= i < chunk_count(tokens.len()) ==> 0 < (#[trigger] chunk(tokens, i)).len() <= 300,
        forall|i: int|
            0 <= i < chunk_count(tokens.len()) - 1 ==> (#[trigger] chunk(tokens, i)).len() == 300,
        chunks_joined(tokens, chunk_count(tokens.len())) == tokens,
{
    lemma_chunks_joined(tokens, chunk_count(tokens.len()));
    assert(tokens.take(tokens.len() as int) =~= tokens);
}

/// The messages of a subscription: twice as many as there are chunks, and
/// for each chunk in turn first its subscription, then its mode.
pub proof fn lemma_subscription_alternates(tokens: Seq<i32>)
    ensures
        subscription_texts(tokens).len() == 2 * chunk_count(tokens.len()),
        forall|i: int|
            0 <= i < chunk_count(tokens.len()) ==> {
                &&& #[trigger] subscription_texts(tokens)[2 * i] == subscribe_text(chunk(tokens, i))
                &&& subscription_texts(tokens)[2 * i + 1] == mode_text(chunk(tokens, i))
            },
{
    assert forall|i: int| 0 <= i < chunk_count(tokens.len()) implies {
        &&& #[trigger] subscription_texts(tokens)[2 * i] == subscribe_text(chunk(tokens, i))
        &&& subscription_texts(tokens)[2 * i + 1] == mode_text(chunk(tokens, i))
    } by {
        assert((2 * i) % 2 == 0 && (2 * i) / 2 == i);
        assert((2 * i + 1) % 2 == 1 && (2 * i + 1) / 2 == i);
    }
}

} // verus!
