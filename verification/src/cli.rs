use vstd::prelude::*;
use crate::text::same_text;

verus! {

/// What the program is asked to do.
#[derive(Debug, Clone, PartialEq, Eq)]
pub enum Command {
    Server,
    Profile,
    Holdings,
    Autologin { user_id: String, debug: bool, force: bool },
    E2e { user_id: String, debug: bool, force: bool, print_ticks: Option<bool> },
    Ticker { user_id: String, print_ticks: Option<bool> },
}

/// Why the command line cannot be followed. The program then prints this
/// and how it is used, and ends with status 2.
#[derive(Debug, Clone, PartialEq, Eq)]
pub enum CliError {
    MissingUserId,
    UnknownFlag { command: String, flag: String },
    UnknownCommand(String),
}

/// How the program is used: the commands, and the variables of the
/// environment that they read.
pub const USAGE: &'static str = "Usage:\n    cargo run -- server\n    cargo run -- profile\n    cargo run -- holdings\n    cargo run -- autologin <USER_ID> [--debug] [--force]\n    cargo run -- e2e <USER_ID> [--debug] [--force] [--no-force] [--print-ticks] [--no-print-ticks]\n    cargo run -- ticker <USER_ID> [--print-ticks] [--no-print-ticks]\n\nEnv (CLI):\n    KITE_API_KEY\n    KITE_ACCESS_TOKEN\n\nEnv (server/autologin):\n    SERVER_ADDR (default 127.0.0.1:8080)\n    DATABASE_URL  (or PGHOST/PGPORT/PGDATABASE/PGUSER/PGPASSWORD/PGSSLMODE)\n    KITE_CALLBACK_URL\n\nOptional:\n    AUTOLOGIN_USER_ID (legacy alias for STARTUP_AUTOLOGIN_USER_ID)\n    STARTUP_AUTOLOGIN_USER_ID (runs autologin during server startup)\n    STARTUP_AUTOLOGIN_OS_TYPE (overrides OS_TYPE just for startup autologin)\n    STARTUP_AUTOLOGIN_DEBUG (1/true enables screenshot+HTML dumps on failure)\n    STARTUP_AUTOLOGIN_FORCE (1/true forces login even if token exists)\n    CHROMEDRIVER_URL (default http://127.0.0.1:9515)\n    CHROMEDRIVER_PORT (used only when spawning chromedriver; default 9515)\n    SELENIUM_HEADLESS (default 1; if --debug and not set, defaults to 0)\n    CHROMEDRIVER_PATH (override chromedriver binary to spawn)\n    CHROME_BINARY_PATH (override Chrome binary path)\n\nTicker logging:\n    TICK_LOG_FULL (default 1/on; set to 0/off to disable)\n    TICK_LOG_INTERVAL_MS (default 500; rate-limit tick logs)\n";

/// How the program is used.
pub fn usage() -> (text: &'static str)
    ensures
        text == USAGE,
{
    USAGE
}

/// The flags that a command takes.
pub open spec fn takes_flag(command: Seq<char>, flag: Seq<char>) -> bool {
    if command == "autologin"@ {
        flag == "--debug"@ || flag == "--force"@
    } else if command == "e2e"@ {
        ||| flag == "--debug"@
        ||| flag == "--force"@
        ||| flag == "--no-force"@
        ||| flag == "--print-ticks"@
        ||| flag == "--no-print-ticks"@
    } else if command == "ticker"@ {
        flag == "--print-ticks"@ || flag == "--no-print-ticks"@
    } else {
        false
    }
}

/// What the last of the flags `on` and `off` among `flags` says; `unset`
/// where neither is given.
pub open spec fn last_switch(
    flags: Seq<Seq<char>>,
    on: Seq<char>,
    off: Seq<char>,
    unset: Option<bool>,
) -> Option<bool>
    decreases flags.len(),
{
    if flags.len() == 0 {
        unset
    } else if flags.last() == on {
        Some(true)
    } else if flags.last() == off {
        Some(false)
    } else {
        last_switch(flags.drop_last(), on, off, unset)
    }
}

/// The first of `flags` that `command` does not take, if there is one.
pub open spec fn first_unknown(command: Seq<char>, flags: Seq<Seq<char>>) -> Option<Seq<char>>
    decreases flags.len(),
{
    if flags.len() == 0 {
        None
    } else if !takes_flag(command, flags[0]) {
        Some(flags[0])
    } else {
        first_unknown(command, flags.drop_first())
    }
}

/// The switches that the flags of a command set.
pub struct Switches {
    pub debug: bool,
    pub force: Option<bool>,
    pub print_ticks: Option<bool>,
}

/// The switches that `flags` set.
pub open spec fn switches_of(flags: Seq<Seq<char>>) -> Switches {
    Switches {
        debug: last_switch(flags, "--debug"@, "--debug"@, None) == Some(true),
        force: last_switch(flags, "--force"@, "--no-force"@, None),
        print_ticks: last_switch(flags, "--print-ticks"@, "--no-print-ticks"@, None),
    }
}

/// Reads the flags behind a command and its user.
fn read_flags(command: &str, args: &Vec<String>) -> (r: Result<Switches, String>)
    requires
        args@.len() >= 2,
    ensures
        match r {
            Ok(switches) => first_unknown(
                command@,
                crate::text::texts(args@).subrange(2, args@.len() as int),
            ) is None && switches == switches_of(
                crate::text::texts(args@).subrange(2, args@.len() as int),
            ),
            Err(flag) => first_unknown(
                command@,
                crate::text::texts(args@).subrange(2, args@.len() as int),
            ) == Some(flag@),
        },
{
    let ghost flags = crate::text::texts(args@).subrange(2, args@.len() as int);
    let mut debug = false;
    let mut force: Option<bool> = None;
    let mut print_ticks: Option<bool> = None;
    let mut i: usize = 2;
    assert(flags.subrange(0, flags.len() as int) =~= flags);
    assert(flags.take(0) =~= Seq::<Seq<char>>::empty());
    while i < args.len()
        invariant
            2 <= i <= args@.len(),
            flags == crate::text::texts(args@).subrange(2, args@.len() as int),
            first_unknown(command@, flags) == first_unknown(
                command@,
                flags.subrange(i - 2, flags.len() as int),
            ),
            debug == (last_switch(flags.take(i - 2), "--debug"@, "--debug"@, None) == Some(true)),
            force == last_switch(flags.take(i - 2), "--force"@, "--no-force"@, None),
            print_ticks == last_switch(flags.take(i - 2), "--print-ticks"@, "--no-print-ticks"@, None),
        decreases args@.len() - i,
    {
        let flag = args[i].as_str();
        proof {
            let rest = flags.subrange(i - 2, flags.len() as int);
            assert(rest[0] == flag@);
            assert(rest.drop_first() =~= flags.subrange(i - 1, flags.len() as int));
            assert(flags.take(i - 1).drop_last() =~= flags.take(i - 2));
            assert(flags.take(i - 1).last() == flag@);
            reveal_strlit("--debug");
            reveal_strlit("--force");
            reveal_strlit("--no-force");
            reveal_strlit("--print-ticks");
            reveal_strlit("--no-print-ticks");
            reveal_strlit("autologin");
            reveal_strlit("e2e");
            reveal_strlit("ticker");
            assert("autologin"@.len() == 9 && "e2e"@.len() == 3 && "ticker"@.len() == 6);
            assert("--debug"@[2] == 'd' && "--force"@[2] == 'f');
            assert("--debug"@ != "--force"@);
        }
        let autologin = same_text(command, "autologin");
        let e2e = same_text(command, "e2e");
        let ticker = same_text(command, "ticker");
        if same_text(flag, "--debug") && (autologin || e2e) {
            debug = true;
        } else if same_text(flag, "--force") && (autologin || e2e) {
            force = Some(true);
        } else if same_text(flag, "--no-force") && e2e {
            force = Some(false);
        } else if same_text(flag, "--print-ticks") && (e2e || ticker) {
            print_ticks = Some(true);
        } else if same_text(flag, "--no-print-ticks") && (e2e || ticker) {
            print_ticks = Some(false);
        } else {
            return Err(args[i].clone());
        }
        proof {
            let rest = flags.subrange(i - 2, flags.len() as int);
            assert(takes_flag(command@, flag@));
            assert(first_unknown(command@, rest) == first_unknown(command@, rest.drop_first()));
        }
        i = i + 1;
    }
    assert(flags.take(flags.len() as int) =~= flags);
    Ok(Switches { debug, force, print_ticks })
}

/// Reads the command line, the name of the program left out.
///
/// Without any word the command is `server`. `autologin`, `e2e` and
/// `ticker` need a user after them and take flags after the user; a flag
/// given twice or taken back counts as it was given last. `e2e` forces a
/// login unless `--no-force` says otherwise.
pub fn parse_args(args: Vec<String>) -> (r: Result<Command, CliError>)
    ensures
        args@.len() == 0 ==> r == Ok::<Command, CliError>(Command::Server),
        args@.len() > 0 ==> command_fits(crate::text::texts(args@), r),
{
    if args.len() == 0 {
        return Ok(Command::Server);
    }
    let command = args[0].as_str();
    proof {
        reveal_strlit("server");
        reveal_strlit("profile");
        reveal_strlit("holdings");
        reveal_strlit("autologin");
        reveal_strlit("e2e");
        reveal_strlit("ticker");
    }
    if same_text(command, "server") {
        return Ok(Command::Server);
    }
    if same_text(command, "profile") {
        return Ok(Command::Profile);
    }
    if same_text(command, "holdings") {
        return Ok(Command::Holdings);
    }
    let autologin = same_text(command, "autologin");
    let e2e = same_text(command, "e2e");
    let ticker = same_text(command, "ticker");
    if !(autologin || e2e || ticker) {
        return Err(CliError::UnknownCommand(args[0].clone()));
    }
    if args.len() < 2 || args[1].as_str().unicode_len() == 0 {
        return Err(CliError::MissingUserId);
    }
    let user_id = args[1].clone();
    match read_flags(command, &args) {
        Ok(switches) => {
            if autologin {
                Ok(
                    Command::Autologin {
                        user_id,
                        debug: switches.debug,
                        force: switches.force == Some(true),
                    },
                )
            } else if e2e {
                Ok(
                    Command::E2e {
                        user_id,
                        debug: switches.debug,
                        force: switches.force != Some(false),
                        print_ticks: switches.print_ticks,
                    },
                )
            } else {
                Ok(Command::Ticker { user_id, print_ticks: switches.print_ticks })
            }
        },
        Err(flag) => Err(CliError::UnknownFlag { command: args[0].clone(), flag }),
    }
}

/// Whether `r` is what the words `args`, of which there is at least one, ask for.
pub open spec fn command_fits(args: Seq<Seq<char>>, r: Result<Command, CliError>) -> bool {
    let command = args[0];
    let flags = args.subrange(2, args.len() as int);
    let switches = switches_of(flags);
    if command == "server"@ {
        r == Ok::<Command, CliError>(Command::Server)
    } else if command == "profile"@ {
        r == Ok::<Command, CliError>(Command::Profile)
    } else if command == "holdings"@ {
        r == Ok::<Command, CliError>(Command::Holdings)
    } else if !(command == "autologin"@ || command == "e2e"@ || command == "ticker"@) {
        r matches Err(CliError::UnknownCommand(word)) && word@ == command
    } else if args.len() < 2 || args[1].len() == 0 {
        r == Err::<Command, CliError>(CliError::MissingUserId)
    } else if first_unknown(command, flags) is Some {
        r matches Err(CliError::UnknownFlag { command: word, flag }) && word@ == command && flag@
            == first_unknown(command, flags)->0
    } else if command == "autologin"@ {
        r matches Ok(Command::Autologin { user_id, debug, force }) && user_id@ == args[1] && debug
            == switches.debug && force == (switches.force == Some(true))
    } else if command == "e2e"@ {
        r matches Ok(Command::E2e { user_id, debug, force, print_ticks }) && user_id@ == args[1]
            && debug == switches.debug && force == (switches.force != Some(false)) && print_ticks
            == switches.print_ticks
    } else {
        r matches Ok(Command::Ticker { user_id, print_ticks }) && user_id@ == args[1]
            && print_ticks == switches.print_ticks
    }
}

} // verus!
