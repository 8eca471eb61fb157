use vstd::prelude::*;
use vstd::utf8::encode_utf8;
use sha2::{Digest, Sha256};
use crate::url::{percent_encoded, url_encode};

verus! {

/// The SHA-256 digest of `data`.
pub uninterp spec fn sha256_of(data: Seq<u8>) -> Seq<u8>;

/// The lower-case hexadecimal digit of `d`.
pub open spec fn hex_lower(d: int) -> char {
    if d < 10 {
        ((0x30 + d) as u8) as char
    } else {
        ((0x61 + d - 10) as u8) as char
    }
}

/// The bytes in hexadecimal, two lower-case digits for each.
pub open spec fn hex_text(bytes: Seq<u8>) -> Seq<char> {
    Seq::new(
        2 * bytes.len(),
        |i: int|
            if i % 2 == 0 {
                hex_lower(bytes[i / 2] as int / 16)
            } else {
                hex_lower(bytes[i / 2] as int % 16)
            },
    )
}

/// `Sha256::new`, `update` and `finalize`: the digest of the three texts
/// laid end to end.
#[verifier::external_body]
fn sha256_of_three(a: &str, b: &str, c: &str) -> (digest: Vec<u8>)
    ensures
        digest@ == sha256_of(encode_utf8(a@) + encode_utf8(b@) + encode_utf8(c@)),
{
    let mut hasher = Sha256::new();
    hasher.update(a.as_bytes());
    hasher.update(b.as_bytes());
    hasher.update(c.as_bytes());
    hasher.finalize().to_vec()
}

/// `hex::encode`: each byte as two lower-case hexadecimal digits.
#[verifier::external_body]
fn hex_encode(bytes: &[u8]) -> (r: String)
    ensures
        r@ == hex_text(bytes@),
{
    hex::encode(bytes)
}

/// The checksum that proves knowledge of the secret when a request token
/// is exchanged: the SHA-256 digest of key, request token and secret laid
/// end to end, in hexadecimal.
pub fn checksum(api_key: &str, request_token: &str, api_secret: &str) -> (r: String)
    ensures
        r@ == hex_text(
            sha256_of(
                encode_utf8(api_key@) + encode_utf8(request_token@) + encode_utf8(api_secret@),
            ),
        ),
{
    let digest = sha256_of_three(api_key, request_token, api_secret);
    hex_encode(digest.as_slice())
}

/// The address at which a user logs in, for a key; with the address to
/// come back to where that is to be said.
pub open spec fn login_address(api_key: Seq<char>, callback_url: Seq<char>, include_redirect: bool) -> Seq<char> {
    let base = "https://kite.zerodha.com/connect/login?api_key="@ + percent_encoded(
        encode_utf8(api_key),
    ) + "&v=3"@;
    if include_redirect {
        base + "&redirect_url="@ + percent_encoded(encode_utf8(callback_url))
    } else {
        base
    }
}

/// Whether `KITE_INCLUDE_REDIRECT_URL` asks for the address to come back
/// to: it is `1`, or `true` in any case of letters.
pub open spec fn asks_for_redirect(var: Option<Seq<char>>) -> bool {
    match var {
        Some(text) => text == "1"@ || crate::text::ascii_lowercase(text) == "true"@,
        None => false,
    }
}

/// Reads `KITE_INCLUDE_REDIRECT_URL`.
pub fn include_redirect(var: Option<&str>) -> (b: bool)
    ensures
        b == asks_for_redirect(crate::text::opt_text(var)),
{
    match var {
        Some(text) => crate::text::same_text(text, "1") || crate::text::same_text(
            crate::text::to_ascii_lowercase(text).as_str(),
            "true",
        ),
        None => false,
    }
}

/// The address at which a user logs in.
pub fn login_url(api_key: &str, callback_url: &str, include_redirect: bool) -> (r: String)
    ensures
        r@ == login_address(api_key@, callback_url@, include_redirect),
{
    let mut out = "https://kite.zerodha.com/connect/login?api_key=".to_owned();
    out.append(url_encode(api_key).as_str());
    out.append("&v=3");
    if include_redirect {
        out.append("&redirect_url=");
        out.append(url_encode(callback_url).as_str());
    }
    out
}

/// The value of the `Authorization` header of the REST API.
pub fn authorization(api_key: &str, access_token: &str) -> (r: String)
    ensures
        r@ == "token "@ + api_key@ + ":"@ + access_token@,
{
    let mut out = "token ".to_owned();
    out.append(api_key);
    out.append(":");
    out.append(access_token);
    out
}

/// The pairs of key and value in the query of an absolute address, in
/// order, as `Url::parse` and `Url::query_pairs` give them; none where the
/// text is no absolute address.
pub uninterp spec fn query_pairs_of(address: Seq<char>) -> Option<Seq<(Seq<char>, Seq<char>)>>;

/// An absolute address with one more pair of key and value at the end of
/// its query, as `Url::query_pairs_mut` and `append_pair` write it; none
/// where the text is no absolute address.
pub uninterp spec fn with_pair(address: Seq<char>, key: Seq<char>, value: Seq<char>) -> Option<
    Seq<char>,
>;

/// `text` with every occurrence of `pattern` replaced by `with`, as
/// `str::replace` gives it.
pub uninterp spec fn replaced(text: Seq<char>, pattern: Seq<char>, with: Seq<char>) -> Seq<char>;

/// The views of a list of pairs of texts.
pub open spec fn pair_views(pairs: Seq<(String, String)>) -> Seq<(Seq<char>, Seq<char>)> {
    Seq::new(pairs.len(), |i: int| (pairs[i].0@, pairs[i].1@))
}

/// `Url::parse` and `Url::query_pairs`: the pairs of the query of an
/// absolute address, decoded, in order.
#[verifier::external_body]
pub(crate) fn query_pairs(address: &str) -> (r: Option<Vec<(String, String)>>)
    ensures
        match r {
            Some(pairs) => query_pairs_of(address@) == Some(pair_views(pairs@)),
            None => query_pairs_of(address@) is None,
        },
{
    let url = reqwest::Url::parse(address).ok()?;
    Some(url.query_pairs().map(|(k, v)| (k.into_owned(), v.into_owned())).collect())
}

/// `Url::parse`, `Url::query_pairs_mut` with `append_pair`, and
/// `Url::to_string`: the address with one more pair in its query.
#[verifier::external_body]
fn append_pair(address: &str, key: &str, value: &str) -> (r: Option<String>)
    ensures
        match r {
            Some(text) => with_pair(address@, key@, value@) == Some(text@),
            None => with_pair(address@, key@, value@) is None,
        },
{
    let mut url = reqwest::Url::parse(address).ok()?;
    url.query_pairs_mut().append_pair(key, value);
    Some(url.to_string())
}

/// `str::replace` with a text as the pattern.
#[verifier::external_body]
pub(crate) fn replace_text(text: &str, pattern: &str, with: &str) -> (r: String)
    ensures
        r@ == replaced(text@, pattern@, with@),
{
    text.replace(pattern, with)
}

/// Whether one of `pairs` names the user, as `userid` or as `user_id`.
pub open spec fn names_user(pairs: Seq<(Seq<char>, Seq<char>)>) -> bool {
    exists|i: int|
        0 <= i < pairs.len() && ((#[trigger] pairs[i]).0 == "userid"@ || pairs[i].0 == "user_id"@)
}

/// The address that Kite sends a user back to, made from `base`.
///
/// A placeholder `{userid}`, or else `{user_id}`, is replaced by the user,
/// percent-encoded. Without a placeholder, an absolute address that names a
/// user in its query stays as it is, and one that names none gets `userid`
/// as one more pair. A text that is no absolute address gets
/// `userid=` and the user, percent-encoded, behind `&` where it holds a
/// `?` and behind `?` where it holds none.
pub open spec fn callback_address(base: Seq<char>, user_id: Seq<char>) -> Seq<char> {
    let user = percent_encoded(encode_utf8(user_id));
    if crate::text::has_text(base, "{userid}"@) {
        replaced(base, "{userid}"@, user)
    } else if crate::text::has_text(base, "{user_id}"@) {
        replaced(base, "{user_id}"@, user)
    } else if query_pairs_of(base) is Some && names_user(query_pairs_of(base)->0) {
        base
    } else if query_pairs_of(base) is Some && with_pair(base, "userid"@, user_id) is Some {
        with_pair(base, "userid"@, user_id)->0
    } else if crate::text::has_text(base, "?"@) {
        base + "&userid="@ + user
    } else {
        base + "?userid="@ + user
    }
}

/// Whether one of `pairs` names the user.
fn pairs_name_user(pairs: &Vec<(String, String)>) -> (b: bool)
    ensures
        b == names_user(pair_views(pairs@)),
{
    let mut i: usize = 0;
    while i < pairs.len()
        invariant
            i <= pairs@.len(),
            forall|j: int|
                0 <= j < i ==> !((#[trigger] pair_views(pairs@)[j]).0 == "userid"@ || pair_views(
                    pairs@,
                )[j].0 == "user_id"@),
        decreases pairs@.len() - i,
    {
        let key = pairs[i].0.as_str();
        if crate::text::same_text(key, "userid") || crate::text::same_text(key, "user_id") {
            assert(pair_views(pairs@)[i as int].0 == key@);
            return true;
        }
        i = i + 1;
    }
    false
}

/// The address that Kite sends a user back to.
pub fn callback_url_for_user(base: &str, user_id: &str) -> (r: String)
    ensures
        r@ == callback_address(base@, user_id@),
{
    if crate::text::contains_text(base, "{userid}") {
        return replace_text(base, "{userid}", url_encode(user_id).as_str());
    }
    if crate::text::contains_text(base, "{user_id}") {
        return replace_text(base, "{user_id}", url_encode(user_id).as_str());
    }
    match query_pairs(base) {
        Some(pairs) => {
            if pairs_name_user(&pairs) {
                return base.to_owned();
            }
            match append_pair(base, "userid", user_id) {
                Some(address) => {
                    return address;
                },
                None => {},
            }
        },
        None => {},
    }
    let mut out = base.to_owned();
    if crate::text::contains_text(base, "?") {
        out.append("&userid=");
    } else {
        out.append("?userid=");
    }
    out.append(url_encode(user_id).as_str());
    out
}

/// The value of the first pair of `pairs` whose key is `key`.
pub open spec fn first_value(pairs: Seq<(Seq<char>, Seq<char>)>, key: Seq<char>) -> Option<Seq<char>>
    decreases pairs.len(),
{
    if pairs.len() == 0 {
        None
    } else if pairs[0].0 == key {
        Some(pairs[0].1)
    } else {
        first_value(pairs.drop_first(), key)
    }
}

/// The value that the query of an address gives for `key`, the first where
/// there are several; none where the text is no absolute address or its
/// query does not hold the key.
pub open spec fn query_param(address: Seq<char>, key: Seq<char>) -> Option<Seq<char>> {
    match query_pairs_of(address) {
        Some(pairs) => first_value(pairs, key),
        None => None,
    }
}

/// The value that the query of an address gives for `key`.
pub fn extract_query_param(address: &str, key: &str) -> (r: Option<String>)
    ensures
        crate::ticks::opt_chars(r) == query_param(address@, key@),
{
    let pairs = match query_pairs(address) {
        Some(pairs) => pairs,
        None => {
            return None;
        },
    };
    let ghost views = pair_views(pairs@);
    let mut i: usize = 0;
    assert(views.subrange(0, views.len() as int) =~= views);
    while i < pairs.len()
        invariant
            i <= pairs@.len(),
            views == pair_views(pairs@),
            query_pairs_of(address@) == Some(views),
            first_value(views, key@) == first_value(views.subrange(i as int, views.len() as int), key@),
        decreases pairs@.len() - i,
    {
        let ghost rest = views.subrange(i as int, views.len() as int);
        proof {
            assert(rest[0] == views[i as int]);
            assert(rest.drop_first() =~= views.subrange(i + 1, views.len() as int));
        }
        if crate::text::same_text(pairs[i].0.as_str(), key) {
            let value = pairs[i].1.clone();
            assert(first_value(rest, key@) == Some(value@));
            return Some(value);
        }
        i = i + 1;
    }
    None
}

} // verus!
