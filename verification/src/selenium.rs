use vstd::prelude::*;
use crate::ticks::opt_chars;

verus! {

/// How the browser is started.
#[derive(Debug, Clone, PartialEq, Eq)]
pub struct SeleniumOptions {
    pub headless: bool,
    pub chrome_binary_path: Option<String>,
}

/// An element of the page, by the id the driver gave it.
#[derive(Debug, Clone, PartialEq, Eq)]
pub struct Element {
    pub id: String,
}

/// The arguments that Chrome is started with: five that are always given,
/// and `--headless=new` after them where the browser is to run without a window.
pub open spec fn chrome_arguments(headless: bool) -> Seq<Seq<char>> {
    let fixed = seq![
        "--no-sandbox"@,
        "--disable-dev-shm-usage"@,
        "--disable-gpu"@,
        "--remote-debugging-pipe"@,
        "--window-size=1920,1080"@,
    ];
    if headless {
        fixed.push("--headless=new"@)
    } else {
        fixed
    }
}

/// The arguments that Chrome is started with.
pub fn chrome_args(headless: bool) -> (args: Vec<String>)
    ensures
        crate::text::texts(args@) == chrome_arguments(headless),
{
    let mut args: Vec<String> = Vec::new();
    args.push("--no-sandbox".to_owned());
    args.push("--disable-dev-shm-usage".to_owned());
    args.push("--disable-gpu".to_owned());
    args.push("--remote-debugging-pipe".to_owned());
    args.push("--window-size=1920,1080".to_owned());
    if headless {
        args.push("--headless=new".to_owned());
    }
    assert(crate::text::texts(args@) =~= chrome_arguments(headless));
    args
}

/// The key under which the driver hands out the id of an element.
pub const WEB_ELEMENT_KEY: &'static str = "element-6066-11e4-a52e-4f735466cecf";

/// The text that a JSON document holds as a string at the end of a path of
/// keys, each leading into the object under the one before; none where the
/// text is no JSON or the path leads to no string. As
/// `serde_json::from_str`, `Value::get` and `Value::as_str` give it.
pub uninterp spec fn json_string_at(json: Seq<char>, path: Seq<Seq<char>>) -> Option<Seq<char>>;

/// The characters of each key of a path.
pub open spec fn key_path(path: Seq<&str>) -> Seq<Seq<char>> {
    Seq::new(path.len(), |i: int| path[i]@)
}

/// `serde_json::from_str`, `Value::get` along the path, and `Value::as_str`.
#[verifier::external_body]
fn json_string(json: &str, path: &[&str]) -> (r: Option<String>)
    ensures
        opt_chars(r) == json_string_at(json@, key_path(path@)),
{
    let value: serde_json::Value = serde_json::from_str(json).ok()?;
    path.iter().try_fold(&value, |at, key| at.get(*key))?.as_str().map(|text| text.to_owned())
}

/// The id of the session in the answer of the driver: `sessionId` under
/// `value`, or else `sessionId` at the top.
pub open spec fn session_id_of(answer: Seq<char>) -> Option<Seq<char>> {
    match json_string_at(answer, seq!["value"@, "sessionId"@]) {
        Some(id) => Some(id),
        None => json_string_at(answer, seq!["sessionId"@]),
    }
}

/// The id of the session in the answer of the driver.
pub fn extract_session_id(answer: &str) -> (r: Option<String>)
    ensures
        opt_chars(r) == session_id_of(answer@),
{
    let nested = ["value", "sessionId"];
    let top = ["sessionId"];
    assert(key_path(nested@) =~= seq!["value"@, "sessionId"@]);
    assert(key_path(top@) =~= seq!["sessionId"@]);
    match json_string(answer, nested.as_slice()) {
        Some(id) => Some(id),
        None => json_string(answer, top.as_slice()),
    }
}

/// The id of the element in the answer of the driver to a search: the
/// string under the key of elements, within `value`.
pub open spec fn element_id_of(answer: Seq<char>) -> Option<Seq<char>> {
    json_string_at(answer, seq!["value"@, WEB_ELEMENT_KEY@])
}

/// The element in the answer of the driver to a search.
pub fn extract_element(answer: &str) -> (r: Option<Element>)
    ensures
        match r {
            Some(element) => element_id_of(answer@) == Some(element.id@),
            None => element_id_of(answer@) is None,
        },
{
    let path = ["value", WEB_ELEMENT_KEY];
    assert(key_path(path@) =~= seq!["value"@, WEB_ELEMENT_KEY@]);
    match json_string(answer, path.as_slice()) {
        Some(id) => Some(Element { id }),
        None => None,
    }
}

/// The path of a command within a session: `/session/`, the id of the
/// session, and the path of the command.
pub fn session_path(session_id: &str, command: &str) -> (r: String)
    ensures
        r@ == "/session/"@ + session_id@ + command@,
{
    let mut out = "/session/".to_owned();
    out.append(session_id);
    out.append(command);
    out
}

/// The path of a command on an element: `/element/`, the id of the
/// element, a slash and the command.
pub fn element_command(element: &Element, command: &str) -> (r: String)
    ensures
        r@ == "/element/"@ + element.id@ + "/"@ + command@,
{
    let mut out = "/element/".to_owned();
    out.append(element.id.as_str());
    out.append("/");
    out.append(command);
    out
}

/// Whether waiting goes on: the deadline has not come.
pub fn keep_waiting(now_ms: u64, deadline_ms: u64) -> (b: bool)
    ensures
        b == (now_ms < deadline_ms),
{
    now_ms < deadline_ms
}

} // verus!
