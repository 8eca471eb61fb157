use vstd::prelude::*;
use std::collections::HashSet;
use crate::config::{is_off_word, is_on_word, off_word, on_word};
use crate::text::{opt_text, parse_u64, parsed_u64, trim, trimmed};
use crate::ws::TickLogConfig;

verus! {

broadcast use vstd::std_specs::hash::group_hash_axioms;

/// What a switch says that has a default: the default where it is not set,
/// blank, or none of the words for on and off.
pub open spec fn switch_or(var: Option<Seq<char>>, default: bool) -> bool {
    match var {
        Some(text) => if is_on_word(trimmed(text)) {
            true
        } else if is_off_word(trimmed(text)) {
            false
        } else {
            default
        },
        None => default,
    }
}

/// The least milliseconds between two logged ticks that a variable asks
/// for: its value read as a number where that is over zero, else 500.
pub open spec fn log_interval_of(var: Option<Seq<char>>) -> u64 {
    match var {
        Some(text) => match parsed_u64(trimmed(text)) {
            Some(ms) => if ms > 0 {
                ms
            } else {
                500
            },
            None => 500,
        },
        None => 500,
    }
}

/// Reads a switch that has a default.
pub fn env_bool_default(var: Option<&str>, default: bool) -> (b: bool)
    ensures
        b == switch_or(opt_text(var), default),
{
    match var {
        Some(text) => {
            let cut = trim(text);
            proof {
                reveal_strlit("1");
                reveal_strlit("true");
                reveal_strlit("TRUE");
                reveal_strlit("yes");
                reveal_strlit("YES");
                reveal_strlit("on");
                reveal_strlit("ON");
                reveal_strlit("0");
                reveal_strlit("false");
                reveal_strlit("FALSE");
                reveal_strlit("no");
                reveal_strlit("NO");
                reveal_strlit("off");
                reveal_strlit("OFF");
            }
            if on_word(cut) {
                true
            } else if off_word(cut) {
                false
            } else {
                default
            }
        },
        None => default,
    }
}

impl TickLogConfig {
    /// The logging of ticks as the environment asks for it: on unless
    /// `TICK_LOG_FULL` says off, and at least `TICK_LOG_INTERVAL_MS`
    /// milliseconds apart, 500 by default.
    pub fn from_env(tick_log_full: Option<&str>, tick_log_interval_ms: Option<&str>) -> (config:
        TickLogConfig)
        ensures
            config.enabled == switch_or(opt_text(tick_log_full), true),
            config.interval_ms == log_interval_of(opt_text(tick_log_interval_ms)),
    {
        let enabled = env_bool_default(tick_log_full, true);
        let interval_ms: u64 = match tick_log_interval_ms {
            Some(text) => match parse_u64(trim(text)) {
                Some(ms) => if ms > 0 {
                    ms
                } else {
                    500
                },
                None => 500,
            },
            None => 500,
        };
        TickLogConfig { enabled, interval_ms }
    }

    /// The same, with logging switched as the command line says, where it says.
    pub fn with_override(self, enabled: Option<bool>) -> (config: TickLogConfig)
        ensures
            config.interval_ms == self.interval_ms,
            config.enabled == match enabled {
                Some(b) => b,
                None => self.enabled,
            },
    {
        match enabled {
            Some(b) => TickLogConfig { enabled: b, interval_ms: self.interval_ms },
            None => self,
        }
    }
}

/// The milliseconds from `last` to `now`; zero where the clock went back.
pub open spec fn elapsed_ms(last: u64, now: u64) -> int {
    if now >= last {
        now - last
    } else {
        0
    }
}

/// What the logging of ticks remembers: the tokens of which a tick was
/// seen, and when a tick was last logged, in milliseconds on the clock of
/// the caller.
#[derive(Debug)]
pub struct TickLogState {
    seen: HashSet<i32>,
    last_log_ms: u64,
}

impl TickLogState {
    pub closed spec fn seen(&self) -> Set<i32> {
        self.seen@
    }

    pub closed spec fn last_log_ms(&self) -> u64 {
        self.last_log_ms
    }

    /// Nothing seen yet; the clock stands at `now_ms`.
    pub fn new(now_ms: u64) -> (state: TickLogState)
        ensures
            state.seen() == Set::<i32>::empty(),
            state.last_log_ms() == now_ms,
    {
        TickLogState { seen: HashSet::new(), last_log_ms: now_ms }
    }

    /// Whether a tick of `token` that arrives at `now_ms` is to be logged:
    /// never while logging is off; else the first tick of a token always,
    /// and any tick once the interval has passed since the last one logged.
    pub fn should_log(&mut self, config: &TickLogConfig, token: i32, now_ms: u64) -> (log: bool)
        ensures
            !config.enabled ==> !log && final(self).seen() == old(self).seen(),
            config.enabled ==> final(self).seen() == old(self).seen().insert(token),
            config.enabled ==> log == (!old(self).seen().contains(token) || elapsed_ms(
                old(self).last_log_ms(),
                now_ms,
            ) >= config.interval_ms),
            final(self).last_log_ms() == if log {
                now_ms
            } else {
                old(self).last_log_ms()
            },
    {
        if !config.enabled {
            return false;
        }
        let first = self.seen.insert(token);
        let due = now_ms.saturating_sub(self.last_log_ms) >= config.interval_ms;
        if first || due {
            self.last_log_ms = now_ms;
            true
        } else {
            false
        }
    }
}

} // verus!
