//! The command line: the words it accepts, the errors it reports, and how the
//! flags, the environment and the configuration decide the refresh intervals.

use vstd::prelude::*;
use crate::config::{
    clock_problem, default_clock_pairs, zones_known, validate_clocks, Clock, Config, SectionDisplayConfig,
    SectionsConfig,
};
use crate::text::{chars_of, dec, parse_unsigned, parse_unsigned_chars, str_eq};

verus! {

/// What the program was asked to do.
#[derive(Clone, Copy, Debug, PartialEq, Eq, Structural)]
pub enum Action {
    Run,
    ConfigPath,
}

/// Which program the binary acts as.
#[derive(Clone, Copy, Debug, PartialEq, Eq, Structural)]
pub enum Mode {
    Stats,
    CodexUsageStatus,
}

/// What the words of the command line asked for, before the configuration is read.
#[derive(Clone, Debug)]
pub struct ArgScan {
    pub config_path_action: bool,
    pub codex_usage_status: bool,
    pub once: bool,
    pub config_path: Option<String>,
    pub interval: Option<u64>,
    pub amp_interval: Option<u64>,
    pub storage_interval: Option<u64>,
    pub help: bool,
}

/// The settings the program runs with.
#[derive(Clone, Debug)]
pub struct Args {
    pub action: Action,
    pub mode: Mode,
    pub interval: u64,
    pub once: bool,
    pub amp_interval: u64,
    pub storage_interval: u64,
    pub clocks: Vec<Clock>,
    pub config_path: String,
    pub sections: SectionsConfig,
    pub section_display: SectionDisplayConfig,
}

/// The scan as values: what has been asked so far.
pub struct Seen {
    pub config_path_action: bool,
    pub codex_usage_status: bool,
    pub once: bool,
    pub config_path: Option<Seq<char>>,
    pub interval: Option<u64>,
    pub amp_interval: Option<u64>,
    pub storage_interval: Option<u64>,
    pub help: bool,
}

impl ArgScan {
    pub open spec fn seen(self) -> Seen {
        Seen {
            config_path_action: self.config_path_action,
            codex_usage_status: self.codex_usage_status,
            once: self.once,
            config_path: match self.config_path {
                Some(p) => Some(p@),
                None => None,
            },
            interval: self.interval,
            amp_interval: self.amp_interval,
            storage_interval: self.storage_interval,
            help: self.help,
        }
    }
}

/// Nothing asked yet.
pub open spec fn nothing_seen() -> Seen {
    Seen {
        config_path_action: false,
        codex_usage_status: false,
        once: false,
        config_path: None,
        interval: None,
        amp_interval: None,
        storage_interval: None,
        help: false,
    }
}

/// The integer after the flag at position `i`: an error when it is missing or is
/// not a `u64`.
pub open spec fn flag_value(args: Seq<Seq<char>>, i: int) -> Result<u64, Seq<char>> {
    if i + 1 < args.len() {
        match parse_unsigned(args[i + 1], u64::MAX as nat) {
            Some(n) => Ok(n as u64),
            None => Err(args[i] + " requires an integer value"@),
        }
    } else {
        Err(args[i] + " requires a value"@)
    }
}

/// Reads the words from position `i` on, after `seen`. `config` must be followed by
/// `path`; `--config` takes the next word as the configuration path; the interval
/// flags take an integer; `-h`/`--help` stops the reading; any other word is an
/// error.
pub open spec fn scan_from(args: Seq<Seq<char>>, i: int, seen: Seen) -> Result<Seen, Seq<char>>
    decreases args.len() - i,
{
    if i < 0 || i >= args.len() {
        Ok(seen)
    } else {
        let a = args[i];
        if a == "config"@ {
            if i + 1 < args.len() && args[i + 1] == "path"@ {
                scan_from(args, i + 2, Seen { config_path_action: true, ..seen })
            } else {
                Err("expected `stats config path`"@)
            }
        } else if a == "--config"@ {
            if i + 1 < args.len() {
                scan_from(args, i + 2, Seen { config_path: Some(args[i + 1]), ..seen })
            } else {
                Err("--config requires a path"@)
            }
        } else if a == "--codex-usage-status"@ {
            scan_from(args, i + 1, Seen { codex_usage_status: true, ..seen })
        } else if a == "--once"@ {
            scan_from(args, i + 1, Seen { once: true, ..seen })
        } else if a == "-i"@ || a == "--interval"@ {
            match flag_value(args, i) {
                Ok(n) => scan_from(args, i + 2, Seen { interval: Some(n), ..seen }),
                Err(e) => Err(e),
            }
        } else if a == "--amp-interval"@ {
            match flag_value(args, i) {
                Ok(n) => scan_from(args, i + 2, Seen { amp_interval: Some(n), ..seen }),
                Err(e) => Err(e),
            }
        } else if a == "--storage-interval"@ {
            match flag_value(args, i) {
                Ok(n) => scan_from(args, i + 2, Seen { storage_interval: Some(n), ..seen }),
                Err(e) => Err(e),
            }
        } else if a == "-h"@ || a == "--help"@ {
            Ok(Seen { help: true, ..seen })
        } else {
            Err("unknown argument: "@ + a)
        }
    }
}

/// The words as character sequences.
pub open spec fn words_of(args: Seq<String>) -> Seq<Seq<char>> {
    args.map_values(|a: String| a@)
}

/// The integer that follows a flag (`None` when the command line ended).
pub fn parse_next_u64(next: Option<&str>, flag: &str) -> (r: Result<u64, String>)
    ensures
        match next {
            None => r matches Err(e) && e@ == flag@ + " requires a value"@,
            Some(v) => match parse_unsigned(v@, u64::MAX as nat) {
                Some(n) => r == Ok::<u64, String>(n as u64),
                None => r matches Err(e) && e@ == flag@ + " requires an integer value"@,
            },
        },
{
    match next {
        None => {
            let mut e = String::from_str(flag);
            e.append(" requires a value");
            Err(e)
        },
        Some(v) => {
            let chars = chars_of(v);
            match parse_unsigned_chars(chars.as_slice(), u64::MAX) {
                Some(n) => Ok(n),
                None => {
                    let mut e = String::from_str(flag);
                    e.append(" requires an integer value");
                    Err(e)
                },
            }
        },
    }
}

/// Reads the words of the command line (the program name excluded).
pub fn scan_args(args: &[String]) -> (r: Result<ArgScan, String>)
    ensures
        match scan_from(words_of(args@), 0, nothing_seen()) {
            Ok(s) => r matches Ok(x) && x.seen() == s,
            Err(m) => r matches Err(e) && e@ == m,
        },
{
    let ghost ws = words_of(args@);
    let mut scan = ArgScan {
        config_path_action: false,
        codex_usage_status: false,
        once: false,
        config_path: None,
        interval: None,
        amp_interval: None,
        storage_interval: None,
        help: false,
    };
    let mut i: usize = 0;
    while i < args.len()
        invariant
            i <= args.len(),
            ws == words_of(args@),
            scan_from(ws, 0, nothing_seen()) == scan_from(ws, i as int, scan.seen()),
        decreases args.len() - i,
    {
        let a = args[i].as_str();
        assert(ws[i as int] == a@);
        let next: Option<&str> = if i + 1 < args.len() {
            assert(ws[i + 1] == args@[i + 1]@);
            Some(args[i + 1].as_str())
        } else {
            None
        };
        if str_eq(a, "config") {
            match next {
                Some(n) => {
                    if str_eq(n, "path") {
                        scan.config_path_action = true;
                        i = i + 2;
                    } else {
                        return Err(String::from_str("expected `stats config path`"));
                    }
                },
                None => {
                    return Err(String::from_str("expected `stats config path`"));
                },
            }
        } else if str_eq(a, "--config") {
            match next {
                Some(n) => {
                    scan.config_path = Some(String::from_str(n));
                    i = i + 2;
                },
                None => {
                    return Err(String::from_str("--config requires a path"));
                },
            }
        } else if str_eq(a, "--codex-usage-status") {
            scan.codex_usage_status = true;
            i = i + 1;
        } else if str_eq(a, "--once") {
            scan.once = true;
            i = i + 1;
        } else if str_eq(a, "-i") || str_eq(a, "--interval") {
            match parse_next_u64(next, a) {
                Ok(n) => {
                    scan.interval = Some(n);
                    i = i + 2;
                },
                Err(e) => {
                    return Err(e);
                },
            }
        } else if str_eq(a, "--amp-interval") {
            match parse_next_u64(next, a) {
                Ok(n) => {
                    scan.amp_interval = Some(n);
                    i = i + 2;
                },
                Err(e) => {
                    return Err(e);
                },
            }
        } else if str_eq(a, "--storage-interval") {
            match parse_next_u64(next, a) {
                Ok(n) => {
                    scan.storage_interval = Some(n);
                    i = i + 2;
                },
                Err(e) => {
                    return Err(e);
                },
            }
        } else if str_eq(a, "-h") || str_eq(a, "--help") {
            scan.help = true;
            return Ok(scan);
        } else {
            let mut e = String::from_str("unknown argument: ");
            e.append(a);
            return Err(e);
        }
    }
    Ok(scan)
}

/// The value of an integer environment variable, or `default` when it is unset or
/// not a `u64`.
pub fn env_u64(value: Option<&str>, default: u64) -> (r: u64)
    ensures
        r == match value {
            Some(v) => match parse_unsigned(v@, u64::MAX as nat) {
                Some(n) => n as u64,
                None => default,
            },
            None => default,
        },
{
    match value {
        Some(v) => {
            let chars = chars_of(v);
            match parse_unsigned_chars(chars.as_slice(), u64::MAX) {
                Some(n) => n,
                None => default,
            }
        },
        None => default,
    }
}

/// What `Path::file_name` gives for `path`: its last component, if it has one.
pub uninterp spec fn final_component(path: Seq<char>) -> Option<Seq<char>>;

/// `std::path::Path::file_name` of `path`, converted lossily to a `String`. The
/// documentation describes the component only in words, so the result is named
/// `final_component`.
#[verifier::external_body]
fn file_name(path: &str) -> (r: Option<String>)
    ensures
        match r {
            Some(s) => final_component(path@) == Some(s@),
            None => final_component(path@) is None,
        },
{
    std::path::Path::new(path).file_name().map(|name| name.to_string_lossy().to_string())
}

/// The program acts as the Codex usage-status tool when invoked under that name.
pub open spec fn mode_for(argv0: Option<Seq<char>>) -> Mode {
    match argv0 {
        Some(a) => if final_component(a) == Some("codex-usage-status"@) {
            Mode::CodexUsageStatus
        } else {
            Mode::Stats
        },
        None => Mode::Stats,
    }
}

pub fn mode_from_argv0(argv0: Option<&str>) -> (r: Mode)
    ensures
        r == mode_for(
            match argv0 {
                Some(a) => Some(a@),
                None => None,
            },
        ),
{
    match argv0 {
        Some(a) => match file_name(a) {
            Some(name) => if str_eq(name.as_str(), "codex-usage-status") {
                Mode::CodexUsageStatus
            } else {
                Mode::Stats
            },
            None => Mode::Stats,
        },
        None => Mode::Stats,
    }
}

/// The clocks from the environment when they are valid, else `default`.
pub fn configured_clocks(default: Vec<Clock>, from_env: Option<Vec<Clock>>) -> (r: Vec<Clock>)
    ensures
        r@ == match from_env {
            Some(c) => if clock_problem(c@, zones_known(c@)) is None {
                c@
            } else {
                default@
            },
            None => default@,
        },
{
    match from_env {
        Some(c) => match validate_clocks(c.as_slice()) {
            Ok(()) => c,
            Err(_) => default,
        },
        None => default,
    }
}

/// The mode: the `--codex-usage-status` flag, else the program name.
pub open spec fn chosen_mode(scan: Seen, argv0_mode: Mode) -> Mode {
    if scan.codex_usage_status {
        Mode::CodexUsageStatus
    } else {
        argv0_mode
    }
}

/// The settings of `stats config path`: the default intervals and clocks.
pub fn config_path_args(scan: &ArgScan, argv0_mode: Mode, config_path: String) -> (r: Args)
    ensures
        r.action == Action::ConfigPath,
        r.mode == chosen_mode(scan.seen(), argv0_mode),
        r.interval == 60,
        r.once == scan.once,
        r.amp_interval == 300,
        r.storage_interval == 300,
        r.clocks@.len() == 4,
        forall|i: int|
            0 <= i < 4 ==> (#[trigger] r.clocks@[i]).label@ == default_clock_pairs()[i].0
                && r.clocks@[i].timezone@ == default_clock_pairs()[i].1,
        r.config_path == config_path,
        r.sections == SectionsConfig::defaults(),
        r.section_display == SectionDisplayConfig::defaults(),
{
    let defaults = Config::default();
    Args {
        action: Action::ConfigPath,
        mode: if scan.codex_usage_status {
            Mode::CodexUsageStatus
        } else {
            argv0_mode
        },
        interval: 60,
        once: scan.once,
        amp_interval: 300,
        storage_interval: 300,
        clocks: defaults.clocks,
        config_path,
        sections: defaults.sections,
        section_display: defaults.section_display,
    }
}

/// The interval a flag, an environment variable or the configuration sets, in that
/// order of precedence.
pub open spec fn interval_choice(flag: Option<u64>, env: Option<Seq<char>>, config: u64) -> u64 {
    match flag {
        Some(n) => n,
        None => match env {
            Some(v) => match parse_unsigned(v, u64::MAX as nat) {
                Some(n) => n as u64,
                None => config,
            },
            None => config,
        },
    }
}

pub open spec fn opt_view(o: Option<&str>) -> Option<Seq<char>> {
    match o {
        Some(s) => Some(s@),
        None => None,
    }
}

/// The settings of a run with the loaded configuration: the intervals from the
/// flags, the environment or the configuration; the Codex interval at least 5
/// seconds and the Amp interval at least 60 (else an error); the storage interval
/// raised to at least 60; the clocks from the environment when valid.
pub fn configured_args(
    scan: &ArgScan,
    argv0_mode: Mode,
    config_path: String,
    config: Config,
    env_interval: Option<&str>,
    env_amp_interval: Option<&str>,
    env_storage_interval: Option<&str>,
    env_clocks: Option<Vec<Clock>>,
) -> (r: Result<Args, String>)
    ensures
        ({
            let interval = interval_choice(scan.interval, opt_view(env_interval), config.refresh.codex_seconds);
            let amp = interval_choice(scan.amp_interval, opt_view(env_amp_interval), config.refresh.amp_seconds);
            let storage = interval_choice(scan.storage_interval, opt_view(env_storage_interval), config.refresh.storage_seconds);
            &&& interval < 5 ==> (r matches Err(e) && e@ == "interval must be an integer >= 5 seconds"@)
            &&& interval >= 5 && amp < 60 ==> (r matches Err(e) && e@ == "amp interval must be an integer >= 60 seconds"@)
            &&& interval >= 5 && amp >= 60 ==> (r matches Ok(a) && {
                &&& a.action == Action::Run
                &&& a.mode == chosen_mode(scan.seen(), argv0_mode)
                &&& a.interval == interval
                &&& a.once == scan.once
                &&& a.amp_interval == amp
                &&& a.storage_interval == if storage < 60 { 60 } else { storage }
                &&& a.clocks@ == match env_clocks {
                    Some(c) => if clock_problem(c@, zones_known(c@)) is None {
                        c@
                    } else {
                        config.clocks@
                    },
                    None => config.clocks@,
                }
                &&& a.config_path == config_path
                &&& a.sections == config.sections
                &&& a.section_display == config.section_display
            })
        }),
{
    let interval = match scan.interval {
        Some(n) => n,
        None => env_u64(env_interval, config.refresh.codex_seconds),
    };
    let amp_interval = match scan.amp_interval {
        Some(n) => n,
        None => env_u64(env_amp_interval, config.refresh.amp_seconds),
    };
    let storage_interval = match scan.storage_interval {
        Some(n) => n,
        None => env_u64(env_storage_interval, config.refresh.storage_seconds),
    };
    let clocks = configured_clocks(config.clocks, env_clocks);
    if interval < 5 {
        return Err(String::from_str("interval must be an integer >= 5 seconds"));
    }
    if amp_interval < 60 {
        return Err(String::from_str("amp interval must be an integer >= 60 seconds"));
    }
    Ok(
        Args {
            action: Action::Run,
            mode: if scan.codex_usage_status {
                Mode::CodexUsageStatus
            } else {
                argv0_mode
            },
            interval,
            once: scan.once,
            amp_interval,
            storage_interval: if storage_interval < 60 {
                60
            } else {
                storage_interval
            },
            clocks,
            config_path,
            sections: config.sections,
            section_display: config.section_display,
        },
    )
}

/// Some execute permission bit (owner, group or other) is set in a Unix mode.
pub fn is_executable(mode: u32) -> (r: bool)
    ensures
        r == (mode & 0o111 != 0),
{
    mode & 0o111 != 0
}

} // verus!
