use vstd::prelude::*;
use crate::error::AppError;
use crate::text::{blank, is_blank, same_text, trim, trimmed};

verus! {

/// How the program is set up.
#[derive(Debug, Clone, PartialEq, Eq)]
pub struct AppConfig {
    pub server_addr: String,
    pub database_url: String,
    pub kite_callback_url: String,
    pub os_type: String,
    pub startup_autologin_user_id: Option<String>,
    pub startup_autologin_os_type: Option<String>,
    pub startup_autologin_debug: bool,
    pub startup_autologin_force: bool,
}

/// The variables of the environment that the setup is read from, each as
/// it was found, and the name of the operating system the program runs on.
#[derive(Debug, Clone, PartialEq, Eq)]
pub struct EnvVars {
    pub server_addr: Option<String>,
    pub database_url: Option<String>,
    pub pghost: Option<String>,
    pub pgport: Option<String>,
    pub pgdatabase: Option<String>,
    pub pguser: Option<String>,
    pub pgpassword: Option<String>,
    pub pgsslmode: Option<String>,
    pub kite_callback_url: Option<String>,
    pub os_type: Option<String>,
    pub startup_autologin_user_id: Option<String>,
    pub autologin_user_id: Option<String>,
    pub startup_autologin_os_type: Option<String>,
    pub startup_autologin_debug: Option<String>,
    pub startup_autologin_force: Option<String>,
    pub runtime_os: String,
}

/// The text of a variable, or `default` where it is not set.
pub open spec fn or_text(var: Option<String>, default: Seq<char>) -> Seq<char> {
    match var {
        Some(text) => text@,
        None => default,
    }
}

/// A variable that counts only where it holds more than white space.
pub open spec fn unless_blank(var: Option<String>) -> Option<Seq<char>> {
    match var {
        Some(text) => if is_blank(text@) {
            None
        } else {
            Some(text@)
        },
        None => None,
    }
}

/// Whether `text` is one of the words that switch something on.
pub open spec fn is_on_word(text: Seq<char>) -> bool {
    ||| text == "1"@
    ||| text == "true"@
    ||| text == "TRUE"@
    ||| text == "yes"@
    ||| text == "YES"@
    ||| text == "on"@
    ||| text == "ON"@
}

/// Whether `text` is one of the words that switch something off.
pub open spec fn is_off_word(text: Seq<char>) -> bool {
    ||| text == "0"@
    ||| text == "false"@
    ||| text == "FALSE"@
    ||| text == "no"@
    ||| text == "NO"@
    ||| text == "off"@
    ||| text == "OFF"@
}

/// What a switch of the environment says: nothing where it is not set or
/// blank, else whether its value, without white space around it, is one of
/// the words for on.
pub open spec fn switch_of(var: Option<Seq<char>>) -> Option<bool> {
    match var {
        Some(text) => if trimmed(text).len() == 0 {
            None
        } else {
            Some(is_on_word(trimmed(text)))
        },
        None => None,
    }
}

/// The name under which an operating system goes in the profile table.
pub open spec fn os_name(runtime: Seq<char>) -> Seq<char> {
    if runtime == "macos"@ {
        "macos"@
    } else if runtime == "linux"@ {
        "ubuntu"@
    } else if runtime.len() > 0 {
        runtime
    } else {
        "unknown"@
    }
}

/// The connection string made of the `PG*` variables: host, port, database
/// and user with their defaults, a password where one is set and not empty,
/// an `sslmode` where one is set; one blank between each two.
pub open spec fn pg_connection_string(vars: EnvVars) -> Seq<char> {
    let base = "host="@ + or_text(vars.pghost, "localhost"@) + " port="@ + or_text(
        vars.pgport,
        "5432"@,
    ) + " dbname="@ + or_text(vars.pgdatabase, "zatamap_trade"@) + " user="@ + or_text(
        vars.pguser,
        "zatamap"@,
    );
    let with_password = if or_text(vars.pgpassword, Seq::empty()).len() > 0 {
        base + " password="@ + or_text(vars.pgpassword, Seq::empty())
    } else {
        base
    };
    match vars.pgsslmode {
        Some(mode) => with_password + " sslmode="@ + mode@,
        None => with_password,
    }
}

/// The user to log in at startup: `STARTUP_AUTOLOGIN_USER_ID`, or
/// `AUTOLOGIN_USER_ID` where that is not set; none where what is found is blank.
pub open spec fn startup_user(vars: EnvVars) -> Option<Seq<char>> {
    match vars.startup_autologin_user_id {
        Some(_) => unless_blank(vars.startup_autologin_user_id),
        None => unless_blank(vars.autologin_user_id),
    }
}

/// Whether `config` is what `vars` say, the callback address aside.
pub open spec fn config_matches(config: AppConfig, vars: EnvVars) -> bool {
    &&& config.server_addr@ == or_text(vars.server_addr, "127.0.0.1:8080"@)
    &&& config.database_url@ == match vars.database_url {
        Some(url) => url@,
        None => pg_connection_string(vars),
    }
    &&& config.os_type@ == match vars.os_type {
        Some(os) => os@,
        None => os_name(vars.runtime_os@),
    }
    &&& crate::ticks::opt_chars(config.startup_autologin_user_id) == startup_user(vars)
    &&& crate::ticks::opt_chars(config.startup_autologin_os_type) == unless_blank(
        vars.startup_autologin_os_type,
    )
    &&& config.startup_autologin_debug == (switch_of(
        crate::ticks::opt_chars(vars.startup_autologin_debug),
    ) == Some(true))
    &&& config.startup_autologin_force == (switch_of(
        crate::ticks::opt_chars(vars.startup_autologin_force),
    ) == Some(true))
}

/// Whether `text` is one of the words for on.
pub fn on_word(text: &str) -> (b: bool)
    ensures
        b == is_on_word(text@),
{
    same_text(text, "1") || same_text(text, "true") || same_text(text, "TRUE") || same_text(
        text,
        "yes",
    ) || same_text(text, "YES") || same_text(text, "on") || same_text(text, "ON")
}

/// Whether `text` is one of the words for off.
pub fn off_word(text: &str) -> (b: bool)
    ensures
        b == is_off_word(text@),
{
    same_text(text, "0") || same_text(text, "false") || same_text(text, "FALSE") || same_text(
        text,
        "no",
    ) || same_text(text, "NO") || same_text(text, "off") || same_text(text, "OFF")
}

/// Reads a switch of the environment.
pub fn parse_bool_env(var: &Option<String>) -> (r: Option<bool>)
    ensures
        r == switch_of(crate::ticks::opt_chars(*var)),
{
    match var {
        Some(text) => {
            let cut = trim(text.as_str());
            if cut.unicode_len() == 0 {
                None
            } else {
                Some(on_word(cut))
            }
        },
        None => None,
    }
}

/// The name under which an operating system goes in the profile table.
pub fn normalize_os(runtime: &str) -> (r: String)
    ensures
        r@ == os_name(runtime@),
{
    if same_text(runtime, "macos") {
        "macos".to_owned()
    } else if same_text(runtime, "linux") {
        "ubuntu".to_owned()
    } else if runtime.unicode_len() > 0 {
        runtime.to_owned()
    } else {
        "unknown".to_owned()
    }
}

fn text_or(var: &Option<String>, default: &str) -> (r: String)
    ensures
        r@ == or_text(*var, default@),
{
    match var {
        Some(text) => text.clone(),
        None => default.to_owned(),
    }
}

fn kept_unless_blank(var: Option<String>) -> (r: Option<String>)
    ensures
        crate::ticks::opt_chars(r) == unless_blank(var),
{
    match var {
        Some(text) => if blank(text.as_str()) {
            None
        } else {
            Some(text)
        },
        None => None,
    }
}

fn connection_string(vars: &EnvVars) -> (r: String)
    ensures
        r@ == pg_connection_string(*vars),
{
    let mut out = "host=".to_owned();
    out.append(text_or(&vars.pghost, "localhost").as_str());
    out.append(" port=");
    out.append(text_or(&vars.pgport, "5432").as_str());
    out.append(" dbname=");
    out.append(text_or(&vars.pgdatabase, "zatamap_trade").as_str());
    out.append(" user=");
    out.append(text_or(&vars.pguser, "zatamap").as_str());
    let password = text_or(&vars.pgpassword, "");
    proof {
        reveal_strlit("");
        assert(""@ =~= Seq::<char>::empty());
    }
    if password.as_str().unicode_len() > 0 {
        out.append(" password=");
        out.append(password.as_str());
    }
    match &vars.pgsslmode {
        Some(mode) => {
            out.append(" sslmode=");
            out.append(mode.as_str());
        },
        None => {},
    }
    out
}

impl AppConfig {
    fn with_callback(vars: EnvVars, kite_callback_url: String) -> (config: AppConfig)
        ensures
            config_matches(config, vars),
            config.kite_callback_url == kite_callback_url,
    {
        let database_url = match &vars.database_url {
            Some(url) => url.clone(),
            None => connection_string(&vars),
        };
        let os_type = match &vars.os_type {
            Some(os) => os.clone(),
            None => normalize_os(vars.runtime_os.as_str()),
        };
        let debug = match parse_bool_env(&vars.startup_autologin_debug) {
            Some(b) => b,
            None => false,
        };
        let force = match parse_bool_env(&vars.startup_autologin_force) {
            Some(b) => b,
            None => false,
        };
        let server_addr = text_or(&vars.server_addr, "127.0.0.1:8080");
        let user = match vars.startup_autologin_user_id {
            Some(id) => kept_unless_blank(Some(id)),
            None => kept_unless_blank(vars.autologin_user_id),
        };
        AppConfig {
            server_addr,
            database_url,
            kite_callback_url,
            os_type,
            startup_autologin_user_id: user,
            startup_autologin_os_type: kept_unless_blank(vars.startup_autologin_os_type),
            startup_autologin_debug: debug,
            startup_autologin_force: force,
        }
    }

    /// The setup of the server. It needs `KITE_CALLBACK_URL`.
    pub fn from_env(vars: EnvVars) -> (r: Result<AppConfig, AppError>)
        ensures
            match r {
                Ok(config) => {
                    &&& vars.kite_callback_url matches Some(url) && config.kite_callback_url == url
                    &&& config_matches(config, vars)
                },
                Err(error) => {
                    &&& vars.kite_callback_url is None
                    &&& error matches AppError::MissingEnv(name) && name@ == "KITE_CALLBACK_URL"@
                },
            },
    {
        match &vars.kite_callback_url {
            Some(url) => {
                let url = url.clone();
                Ok(AppConfig::with_callback(vars, url))
            },
            None => Err(AppError::MissingEnv("KITE_CALLBACK_URL".to_owned())),
        }
    }

    /// The setup of the ticker, which does without `KITE_CALLBACK_URL`.
    pub fn from_env_ticker(vars: EnvVars) -> (r: Result<AppConfig, AppError>)
        ensures
            r matches Ok(config) && config_matches(config, vars) && config.kite_callback_url@
                == or_text(vars.kite_callback_url, Seq::empty()),
    {
        let url = text_or(&vars.kite_callback_url, "");
        proof {
            reveal_strlit("");
            assert(""@ =~= Seq::<char>::empty());
        }
        Ok(AppConfig::with_callback(vars, url))
    }
}

} // verus!
