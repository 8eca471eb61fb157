use vstd::prelude::*;
use vstd::utf8::encode_utf8;
use crate::error::AppError;
use crate::profile::UserZerodhaLogin;
use crate::text::{
    ascii_lowercase, blank, contains_text, has_text, is_blank, parse_u64, parsed_u64, push_decimal,
    same_text, to_ascii_lowercase, trim, trimmed, decimal,
};
use crate::ticks::opt_chars;

verus! {

/// How a login through the browser is to be run.
#[derive(Debug, Clone, Copy, PartialEq, Eq, Structural)]
pub struct AutoLoginOptions {
    pub debug: bool,
    pub force: bool,
}

impl Default for AutoLoginOptions {
    fn default() -> (options: AutoLoginOptions)
        ensures
            options == (AutoLoginOptions { debug: false, force: false }),
    {
        AutoLoginOptions { debug: false, force: false }
    }
}

/// Whether a name of an operating system means macOS.
pub open spec fn is_macos(os_type: Seq<char>) -> bool {
    os_type == "macos"@ || os_type == "darwin"@
}

/// Whether a name of an operating system means Linux.
pub open spec fn is_linux(os_type: Seq<char>) -> bool {
    os_type == "ubuntu"@ || os_type == "linux"@
}

/// Where Chrome is found on an operating system, if that is known.
pub open spec fn chrome_binary_of(os_type: Seq<char>) -> Option<Seq<char>> {
    if is_macos(os_type) {
        Some("/Applications/Google Chrome.app/Contents/MacOS/Google Chrome"@)
    } else if is_linux(os_type) {
        Some("/usr/bin/google-chrome"@)
    } else {
        None
    }
}

fn macos(os_type: &str) -> (b: bool)
    ensures
        b == is_macos(os_type@),
{
    same_text(os_type, "macos") || same_text(os_type, "darwin")
}

fn linux(os_type: &str) -> (b: bool)
    ensures
        b == is_linux(os_type@),
{
    same_text(os_type, "ubuntu") || same_text(os_type, "linux")
}

/// Where Chrome is found on an operating system, if that is known.
pub fn default_chrome_binary(os_type: &str) -> (r: Option<&'static str>)
    ensures
        match r {
            Some(path) => chrome_binary_of(os_type@) == Some(path@),
            None => chrome_binary_of(os_type@) is None,
        },
{
    if macos(os_type) {
        Some("/Applications/Google Chrome.app/Contents/MacOS/Google Chrome")
    } else if linux(os_type) {
        Some("/usr/bin/google-chrome")
    } else {
        None
    }
}

/// The places where a chromedriver is looked for on an operating system,
/// in the order in which they are tried.
pub open spec fn chromedriver_places(os_type: Seq<char>) -> Seq<Seq<char>> {
    if is_macos(os_type) {
        seq!["/usr/local/bin/chromedriver"@, "/opt/homebrew/bin/chromedriver"@]
    } else if is_linux(os_type) {
        seq!["/usr/local/bin/chromedriver"@, "/usr/bin/chromedriver"@]
    } else {
        Seq::empty()
    }
}

/// The places where a chromedriver is looked for on an operating system.
pub fn default_chromedriver_candidates(os_type: &str) -> (places: Vec<String>)
    ensures
        crate::text::texts(places@) == chromedriver_places(os_type@),
{
    let mut places: Vec<String> = Vec::new();
    if macos(os_type) {
        places.push("/usr/local/bin/chromedriver".to_owned());
        places.push("/opt/homebrew/bin/chromedriver".to_owned());
    } else if linux(os_type) {
        places.push("/usr/local/bin/chromedriver".to_owned());
        places.push("/usr/bin/chromedriver".to_owned());
    }
    assert(crate::text::texts(places@) =~= chromedriver_places(os_type@));
    places
}

/// The first of `candidates` that exists, by what was found of each.
pub fn find_default_chromedriver(candidates: &Vec<String>, exists: &Vec<bool>) -> (r: Option<String>)
    requires
        exists@.len() == candidates@.len(),
    ensures
        match r {
            Some(path) => exists|i: int|
                0 <= i < candidates@.len() && exists@[i] && path == candidates@[i] && forall|j: int|
                    0 <= j < i ==> !exists@[j],
            None => forall|i: int| 0 <= i < exists@.len() ==> !exists@[i],
        },
{
    let mut i: usize = 0;
    while i < candidates.len()
        invariant
            i <= candidates@.len(),
            exists@.len() == candidates@.len(),
            forall|j: int| 0 <= j < i ==> !exists@[j],
        decreases candidates@.len() - i,
    {
        if exists[i] {
            return Some(candidates[i].clone());
        }
        i = i + 1;
    }
    None
}

/// How well a path to a chromedriver fits the machine, by the hints in its
/// name: 50 for the operating system, 40 on macOS or 20 on Linux for the
/// architecture, 5 for `chromedriver` and 1 for `chrome`.
pub open spec fn path_score(path: Seq<char>, os_type: Seq<char>, arch: Seq<char>) -> int {
    let p = ascii_lowercase(path);
    let os = if is_macos(os_type) {
        (if has_text(p, "mac"@) { 50int } else { 0 }) + (if arch == "aarch64"@ && (has_text(p, "arm64"@) || has_text(
            p,
            "aarch64"@,
        )) { 40int } else { 0 }) + (if arch == "x86_64"@ && (has_text(p, "x64"@) || has_text(p, "x86_64"@)) {
            40int
        } else {
            0
        })
    } else if is_linux(os_type) {
        (if has_text(p, "linux"@) { 50int } else { 0 }) + (if arch == "x86_64"@ && (has_text(p, "64"@) || has_text(
            p,
            "x86_64"@,
        )) { 20int } else { 0 })
    } else {
        0
    };
    os + (if has_text(p, "chromedriver"@) { 5int } else { 0 }) + (if has_text(p, "chrome"@) { 1int } else { 0 })
}

/// How well a path to a chromedriver fits the machine.
pub fn chromedriver_path_score(path: &str, os_type: &str, arch: &str) -> (score: i32)
    ensures
        score == path_score(path@, os_type@, arch@),
{
    let lower = to_ascii_lowercase(path);
    let p = lower.as_str();
    let mut score: i32 = 0;
    if macos(os_type) {
        if contains_text(p, "mac") {
            score = score + 50;
        }
        if same_text(arch, "aarch64") {
            if contains_text(p, "arm64") || contains_text(p, "aarch64") {
                score = score + 40;
            }
        }
        if same_text(arch, "x86_64") {
            if contains_text(p, "x64") || contains_text(p, "x86_64") {
                score = score + 40;
            }
        }
    } else if linux(os_type) {
        if contains_text(p, "linux") {
            score = score + 50;
        }
        if same_text(arch, "x86_64") {
            if contains_text(p, "64") || contains_text(p, "x86_64") {
                score = score + 20;
            }
        }
    }
    if contains_text(p, "chromedriver") {
        score = score + 5;
    }
    if contains_text(p, "chrome") {
        score = score + 1;
    }
    score
}

/// Whether a login is to be run: always when forced, else only where no
/// access token is stored.
pub open spec fn login_needed(has_token: bool, options: AutoLoginOptions) -> bool {
    !has_token || options.force
}

/// Whether a login is to be run.
pub fn should_login(has_token: bool, options: AutoLoginOptions) -> (b: bool)
    ensures
        b == login_needed(has_token, options),
{
    !has_token || options.force
}

/// Whether the browser runs without a window: as `SELENIUM_HEADLESS` says,
/// where anything but `0` means yes; without the variable, whenever the
/// login is not being debugged.
pub fn headless(var: Option<&str>, options: AutoLoginOptions) -> (b: bool)
    ensures
        b == match var {
            Some(value) => value@ != "0"@,
            None => !options.debug,
        },
{
    match var {
        Some(value) => !same_text(value, "0"),
        None => !options.debug,
    }
}

/// Whether the bytes `a` come before the bytes `b` in the order of a
/// dictionary: at the first place where they differ `a` has the lesser
/// byte, or `a` ends there and `b` goes on.
pub open spec fn bytes_before(a: Seq<u8>, b: Seq<u8>) -> bool
    decreases a.len(),
{
    if b.len() == 0 {
        false
    } else if a.len() == 0 {
        true
    } else if a[0] != b[0] {
        a[0] < b[0]
    } else {
        bytes_before(a.drop_first(), b.drop_first())
    }
}

/// `str::lt`: whether `a` comes before `b` when texts are ordered by their bytes.
#[verifier::external_body]
fn text_before(a: &str, b: &str) -> (r: bool)
    ensures
        r == bytes_before(encode_utf8(a@), encode_utf8(b@)),
{
    a < b
}

/// Whether the path `a` is to be preferred to the path `b`: it scores
/// higher, or as high and comes first by name.
pub open spec fn preferred(a: Seq<char>, b: Seq<char>, os_type: Seq<char>, arch: Seq<char>) -> bool {
    path_score(a, os_type, arch) > path_score(b, os_type, arch) || (path_score(a, os_type, arch)
        == path_score(b, os_type, arch) && bytes_before(encode_utf8(a), encode_utf8(b)))
}

/// The best of the files found, by score and then by name: none of the
/// others is preferred to it.
pub fn find_best_file_named(found: &Vec<String>, os_type: &str, arch: &str) -> (r: Option<String>)
    ensures
        found@.len() == 0 ==> r is None,
        found@.len() > 0 ==> r is Some && (exists|k: int|
            0 <= k < found@.len() && r->0 == found@[k]) && (forall|j: int|
            0 <= j < found@.len() ==> !preferred(
                (#[trigger] found@[j])@,
                r->0@,
                os_type@,
                arch@,
            )),
{
    if found.len() == 0 {
        return None;
    }
    let mut best: usize = 0;
    let mut best_score = chromedriver_path_score(found[0].as_str(), os_type, arch);
    let mut i: usize = 1;
    proof {
        lemma_not_before_itself(encode_utf8(found@[0]@));
    }
    while i < found.len()
        invariant
            1 <= i <= found@.len(),
            best < i,
            best_score == path_score(found@[best as int]@, os_type@, arch@),
            forall|j: int|
                0 <= j < i ==> !preferred(
                    (#[trigger] found@[j])@,
                    found@[best as int]@,
                    os_type@,
                    arch@,
                ),
        decreases found@.len() - i,
    {
        let score = chromedriver_path_score(found[i].as_str(), os_type, arch);
        let better = score > best_score || (score == best_score && text_before(
            found[i].as_str(),
            found[best].as_str(),
        ));
        if better {
            proof {
                let old_best = found@[best as int]@;
                let new_best = found@[i as int]@;
                lemma_not_before_itself(encode_utf8(new_best));
                assert forall|j: int| 0 <= j < i + 1 implies !preferred(
                    (#[trigger] found@[j])@,
                    new_best,
                    os_type@,
                    arch@,
                ) by {
                    if j < i {
                        if path_score(found@[j]@, os_type@, arch@) == score && score == best_score
                            && bytes_before(encode_utf8(found@[j]@), encode_utf8(new_best)) {
                            lemma_before_is_transitive(
                                encode_utf8(found@[j]@),
                                encode_utf8(new_best),
                                encode_utf8(old_best),
                            );
                        }
                    }
                }
            }
            best = i;
            best_score = score;
        }
        i = i + 1;
    }
    Some(found[best].clone())
}

proof fn lemma_not_before_itself(a: Seq<u8>)
    ensures
        !bytes_before(a, a),
    decreases a.len(),
{
    if a.len() > 0 {
        lemma_not_before_itself(a.drop_first());
    }
}

proof fn lemma_before_is_transitive(a: Seq<u8>, b: Seq<u8>, c: Seq<u8>)
    requires
        bytes_before(a, b),
        bytes_before(b, c),
    ensures
        bytes_before(a, c),
    decreases a.len(),
{
    if a.len() > 0 && b.len() > 0 && c.len() > 0 && a[0] == b[0] && b[0] == c[0] {
        lemma_before_is_transitive(a.drop_first(), b.drop_first(), c.drop_first());
    }
}

/// What is known of a path that may lead to a chromedriver: the path, and
/// whether a file is there. The path is taken without the white space
/// around it.
#[derive(Debug, Clone, PartialEq, Eq)]
pub struct PathProbe {
    pub path: String,
    pub exists: bool,
}

/// A probe that counts: its path is not empty and the file is there.
pub open spec fn usable(probe: Option<PathProbe>) -> bool {
    probe matches Some(p) && p.path@.len() > 0 && p.exists
}

/// The chromedriver to start, in this order: the path of the environment
/// where its file is there; where it is set but stale, the driver pinned in
/// the repository; the path of the profile where its file is there; the
/// pinned driver; the driver of the system.
pub open spec fn spawn_path(
    from_env: Option<PathProbe>,
    from_profile: Option<PathProbe>,
    pinned: Option<String>,
    system: Option<String>,
) -> Option<String> {
    if usable(from_env) {
        Some(from_env->0.path)
    } else if from_env is Some && from_env->0.path@.len() > 0 && pinned is Some {
        pinned
    } else if usable(from_profile) {
        Some(from_profile->0.path)
    } else if pinned is Some {
        pinned
    } else {
        system
    }
}

/// The chromedriver to start.
pub fn choose_chromedriver_spawn_path(
    from_env: Option<PathProbe>,
    from_profile: Option<PathProbe>,
    pinned: Option<String>,
    system: Option<String>,
) -> (r: Option<String>)
    ensures
        r == spawn_path(from_env, from_profile, pinned, system),
{
    match from_env {
        Some(probe) => {
            if probe.path.as_str().unicode_len() > 0 {
                if probe.exists {
                    return Some(probe.path);
                }
                if pinned.is_some() {
                    return pinned;
                }
            }
        },
        None => {},
    }
    match from_profile {
        Some(probe) => {
            if probe.path.as_str().unicode_len() > 0 && probe.exists {
                return Some(probe.path);
            }
        },
        None => {},
    }
    if pinned.is_some() {
        pinned
    } else {
        system
    }
}

/// The port of the chromedriver: `CHROMEDRIVER_PORT` where it spells a
/// number that fits sixteen bits, else 9515.
pub open spec fn driver_port(var: Option<Seq<char>>) -> u16 {
    match var {
        Some(text) => match parsed_u64(text) {
            Some(port) => if port <= 0xFFFF {
                port as u16
            } else {
                9515
            },
            None => 9515,
        },
        None => 9515,
    }
}

/// The port of the chromedriver.
pub fn chromedriver_port(var: Option<&str>) -> (port: u16)
    ensures
        port == driver_port(crate::text::opt_text(var)),
{
    match var {
        Some(text) => match parse_u64(text) {
            Some(port) => if port <= 0xFFFF {
                port as u16
            } else {
                9515
            },
            None => 9515,
        },
        None => 9515,
    }
}

/// The address of the chromedriver: `CHROMEDRIVER_URL`, or the local
/// machine at the port.
pub fn chromedriver_url(var: Option<&str>, port: u16) -> (r: String)
    ensures
        r@ == match var {
            Some(url) => url@,
            None => "http://127.0.0.1:"@ + decimal(port as int),
        },
{
    match var {
        Some(url) => url.to_owned(),
        None => {
            let mut out = "http://127.0.0.1:".to_owned();
            push_decimal(&mut out, port as i64);
            out
        },
    }
}

/// The operating system that a login is run for: that of the profile where
/// it names one, else the one asked for.
pub fn effective_os(login: &UserZerodhaLogin, os_type: &str) -> (r: String)
    ensures
        r@ == match login.os_type {
            Some(os) => if os@.len() > 0 {
                os@
            } else {
                os_type@
            },
            None => os_type@,
        },
{
    match &login.os_type {
        Some(os) => if os.as_str().unicode_len() > 0 {
            os.clone()
        } else {
            os_type.to_owned()
        },
        None => os_type.to_owned(),
    }
}

/// A variable that counts only where it holds more than white space.
pub fn env_path(var: Option<String>) -> (r: Option<String>)
    ensures
        r == match var {
            Some(text) => if is_blank(text@) {
                None
            } else {
                Some(text)
            },
            None => None,
        },
{
    match var {
        Some(text) => if blank(text.as_str()) {
            None
        } else {
            Some(text)
        },
        None => None,
    }
}

/// Where Chrome is taken from: the environment, else the profile, else the
/// place that is usual on the operating system.
pub fn chrome_binary_path(from_env: Option<String>, login: &UserZerodhaLogin, os_type: &str) -> (r:
    Option<String>)
    ensures
        opt_chars(r) == match from_env {
            Some(path) => Some(path@),
            None => match login.chrome_binary_path {
                Some(path) => Some(path@),
                None => chrome_binary_of(os_type@),
            },
        },
{
    match from_env {
        Some(path) => Some(path),
        None => match &login.chrome_binary_path {
            Some(path) => Some(path.clone()),
            None => match default_chrome_binary(os_type) {
                Some(path) => Some(path.to_owned()),
                None => None,
            },
        },
    }
}

/// The secret of a login that must be there: `value` where it is set and
/// not empty.
pub fn required_secret(value: &Option<String>, missing: &str) -> (r: Result<String, AppError>)
    ensures
        match r {
            Ok(secret) => *value == Some(secret) && secret@.len() > 0,
            Err(error) => {
                &&& !(*value matches Some(secret) && secret@.len() > 0)
                &&& error matches AppError::KiteApi(text) && text@ == missing@
            },
        },
{
    match value {
        Some(secret) => if secret.as_str().unicode_len() > 0 {
            Ok(secret.clone())
        } else {
            Err(AppError::KiteApi(missing.to_owned()))
        },
        None => Err(AppError::KiteApi(missing.to_owned())),
    }
}

} // verus!
