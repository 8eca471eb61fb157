use vstd::prelude::*;
use crate::text::{
    ascii_lowercase, contains_text, has_text, same_text, string_push, to_ascii_lowercase, trim,
    trimmed,
};

verus! {

/// The words of a text: its runs of characters other than white space, in
/// order, as `str::split_whitespace` gives them.
pub uninterp spec fn words_of(s: Seq<char>) -> Seq<Seq<char>>;

/// `str::split_whitespace`: the words of the text.
#[verifier::external_body]
fn words(s: &str) -> (r: Vec<String>)
    ensures
        crate::text::texts(r@) == words_of(s@),
{
    s.split_whitespace().map(|word| word.to_owned()).collect()
}

/// Whether a connection string asks for TLS: it holds, in any case of
/// letters, `sslmode=require`, `sslmode=verify-full` or `sslmode=verify-ca`.
pub open spec fn asks_for_tls(database_url: Seq<char>) -> bool {
    let lower = ascii_lowercase(database_url);
    ||| has_text(lower, "sslmode=require"@)
    ||| has_text(lower, "sslmode=verify-full"@)
    ||| has_text(lower, "sslmode=verify-ca"@)
}

/// Whether a connection string asks for TLS.
pub fn requires_tls(database_url: &str) -> (b: bool)
    ensures
        b == asks_for_tls(database_url@),
{
    let lower = to_ascii_lowercase(database_url);
    let lower = lower.as_str();
    contains_text(lower, "sslmode=require") || contains_text(lower, "sslmode=verify-full")
        || contains_text(lower, "sslmode=verify-ca")
}

/// Where the first `=` stands in `s`; its length where there is none.
pub open spec fn equals_at(s: Seq<char>) -> int
    decreases s.len(),
{
    if s.len() == 0 {
        0
    } else if s[0] == '=' {
        0
    } else {
        1 + equals_at(s.drop_first())
    }
}

/// The key of a word `key=value`: what stands before the first `=`.
pub open spec fn key_part(s: Seq<char>) -> Seq<char> {
    s.take(equals_at(s))
}

/// The value of a word `key=value`: what stands behind the first `=`;
/// nothing where there is no `=`.
pub open spec fn value_part(s: Seq<char>) -> Seq<char> {
    if equals_at(s) < s.len() {
        s.skip(equals_at(s) + 1)
    } else {
        Seq::empty()
    }
}

proof fn lemma_equals_at(s: Seq<char>)
    ensures
        0 <= equals_at(s) <= s.len(),
        equals_at(s) < s.len() ==> s[equals_at(s)] == '=',
        forall|i: int| 0 <= i < equals_at(s) ==> s[i] != '=',
    decreases s.len(),
{
    if s.len() > 0 && s[0] != '=' {
        lemma_equals_at(s.drop_first());
        assert forall|i: int| 0 <= i < equals_at(s) implies s[i] != '=' by {
            if i > 0 {
                assert(s.drop_first()[i - 1] == s[i]);
            }
        }
    }
}

proof fn lemma_equals_at_is(s: Seq<char>, k: int)
    requires
        0 <= k <= s.len(),
        forall|i: int| 0 <= i < k ==> s[i] != '=',
        k < s.len() ==> s[k] == '=',
    ensures
        equals_at(s) == k,
    decreases s.len(),
{
    if s.len() > 0 && k > 0 {
        assert forall|i: int| 0 <= i < k - 1 implies s.drop_first()[i] != '=' by {
            assert(s.drop_first()[i] == s[i + 1]);
        }
        lemma_equals_at_is(s.drop_first(), k - 1);
    }
}

/// Splits a word at its first `=`.
pub fn split_key_value(word: &str) -> (r: (String, String))
    ensures
        r.0@ == key_part(word@),
        r.1@ == value_part(word@),
{
    let mut key = String::new();
    let mut value = String::new();
    let mut found = false;
    let ghost mut at: int = 0;
    for c in iter: word.chars()
        invariant
            iter.seq() == word@,
            !found ==> at == iter.index() && key@ == word@.take(at) && value@.len() == 0,
            !found ==> forall|i: int| 0 <= i < at ==> word@[i] != '=',
            found ==> 0 <= at < iter.index() && word@[at] == '=' && key@ == word@.take(at)
                && value@ == word@.subrange(at + 1, iter.index() as int),
            found ==> forall|i: int| 0 <= i < at ==> word@[i] != '=',
    {
        let ghost k = iter.index() as int;
        if found {
            string_push(&mut value, c);
            assert(value@ =~= word@.subrange(at + 1, k + 1));
        } else if c == '=' {
            found = true;
            assert(value@ =~= word@.subrange(at + 1, k + 1));
        } else {
            string_push(&mut key, c);
            proof {
                at = at + 1;
            }
            assert(key@ =~= word@.take(at));
        }
    }
    proof {
        if found {
            lemma_equals_at_is(word@, at);
            assert(value@ =~= word@.skip(at + 1));
        } else {
            lemma_equals_at_is(word@, word@.len() as int);
            assert(value@ =~= Seq::<char>::empty());
        }
    }
    (key, value)
}

/// The `sslmode` that a word of a connection string sets: its value in
/// lower case, white space around it aside, where the key is `sslmode` in
/// any case of letters and the value is not blank.
pub open spec fn sslmode_of_word(word: Seq<char>) -> Option<Seq<char>> {
    if ascii_lowercase(key_part(word)) == "sslmode"@ && trimmed(value_part(word)).len() > 0 {
        Some(ascii_lowercase(trimmed(value_part(word))))
    } else {
        None
    }
}

/// The first `sslmode` that one of the words sets.
pub open spec fn first_sslmode(words: Seq<Seq<char>>) -> Option<Seq<char>>
    decreases words.len(),
{
    if words.len() == 0 {
        None
    } else if sslmode_of_word(words[0]) is Some {
        sslmode_of_word(words[0])
    } else {
        first_sslmode(words.drop_first())
    }
}

/// The `sslmode` of a connection string made of words `key=value`: the
/// first that is set, in lower case.
pub fn sslmode(database_url: &str) -> (r: Option<String>)
    ensures
        crate::ticks::opt_chars(r) == first_sslmode(words_of(database_url@)),
{
    let parts = words(database_url);
    let ghost all = crate::text::texts(parts@);
    let mut i: usize = 0;
    assert(all.subrange(0, all.len() as int) =~= all);
    while i < parts.len()
        invariant
            i <= parts@.len(),
            all == crate::text::texts(parts@),
            all == words_of(database_url@),
            first_sslmode(all) == first_sslmode(all.subrange(i as int, all.len() as int)),
        decreases parts@.len() - i,
    {
        let ghost rest = all.subrange(i as int, all.len() as int);
        proof {
            assert(rest[0] == parts@[i as int]@);
            assert(rest.drop_first() =~= all.subrange(i + 1, all.len() as int));
        }
        let (key, value) = split_key_value(parts[i].as_str());
        if same_text(to_ascii_lowercase(key.as_str()).as_str(), "sslmode") {
            let cut = trim(value.as_str());
            if cut.unicode_len() > 0 {
                return Some(to_ascii_lowercase(cut));
            }
        }
        i = i + 1;
    }
    None
}

} // verus!
