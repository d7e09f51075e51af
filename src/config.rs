//! Configuration: a part fixed for the process's lifetime and a watched
//! part that may be replaced while records are processed.
use vstd::prelude::*;
use crate::compression::MessageCompression;
use crate::level::{LevelMsg, LevelSystem};
use crate::text::{opt_view, str_eq};

verus! {

/// Where log lines come from.
#[derive(Debug, Clone, Copy, PartialEq, Eq, Structural)]
pub enum LogSource {
    Stdin,
    Journalctl,
}

/// The log source a configuration name selects.
pub open spec fn log_source_of_name(s: Seq<char>) -> Option<LogSource> {
    if s == "stdin"@ {
        Some(LogSource::Stdin)
    } else if s == "journal"@ {
        Some(LogSource::Journalctl)
    } else {
        None
    }
}

/// The log source named `stdin` or `journal`.
pub fn parse_log_source(level: &str) -> (r: Option<LogSource>)
    ensures
        r == log_source_of_name(level@),
{
    if str_eq(level, "stdin") {
        Some(LogSource::Stdin)
    } else if str_eq(level, "journal") {
        Some(LogSource::Journalctl)
    } else {
        None
    }
}

/// Settings read once at startup.
#[derive(Debug, Clone, Copy)]
pub struct ConfigGlobal {
    pub log_source: LogSource,
    pub sender_port: u16,
}

/// Settings that may change while the process runs.
#[derive(Debug, Clone)]
pub struct ConfigWatched {
    pub graylog_addr: String,
    pub graylog_addr_ttl: u64,
    pub compression: MessageCompression,
    pub team: Option<String>,
    pub service: Option<String>,
    pub log_level_system: LevelSystem,
    pub log_level_message: Option<LevelMsg>,
}

/// The whole configuration.
#[derive(Debug, Clone)]
pub struct Config {
    pub global: ConfigGlobal,
    pub watched: ConfigWatched,
}

/// Abstract content of the watched settings.
pub ghost struct ConfigWatchedView {
    pub graylog_addr: Seq<char>,
    pub graylog_addr_ttl: nat,
    pub compression: MessageCompression,
    pub team: Option<Seq<char>>,
    pub service: Option<Seq<char>>,
    pub log_level_system: LevelSystem,
    pub log_level_message: Option<LevelMsg>,
}

impl View for ConfigWatched {
    type V = ConfigWatchedView;

    open spec fn view(&self) -> ConfigWatchedView {
        ConfigWatchedView {
            graylog_addr: self.graylog_addr@,
            graylog_addr_ttl: self.graylog_addr_ttl as nat,
            compression: self.compression,
            team: opt_view(self.team),
            service: opt_view(self.service),
            log_level_system: self.log_level_system,
            log_level_message: self.log_level_message,
        }
    }
}

/// `[name]` where the two values differ, else nothing.
pub open spec fn name_if<T>(name: Seq<char>, a: T, b: T) -> Seq<Seq<char>> {
    if a != b {
        seq![name]
    } else {
        seq![]
    }
}

/// The names of the watched settings that differ between `a` and `b`, in
/// declaration order.
pub open spec fn changed_fields(a: ConfigWatchedView, b: ConfigWatchedView) -> Seq<Seq<char>> {
    name_if("graylog_addr"@, a.graylog_addr, b.graylog_addr) + name_if(
        "graylog_addr_ttl"@,
        a.graylog_addr_ttl,
        b.graylog_addr_ttl,
    ) + name_if("compression"@, a.compression, b.compression) + name_if("team"@, a.team, b.team)
        + name_if("service"@, a.service, b.service) + name_if(
        "log_level_system"@,
        a.log_level_system,
        b.log_level_system,
    ) + name_if("log_level_message"@, a.log_level_message, b.log_level_message)
}

/// Strings as character sequences.
pub open spec fn names_view(v: Seq<String>) -> Seq<Seq<char>> {
    v.map_values(|s: String| s@)
}

fn opt_str_eq(a: &Option<String>, b: &Option<String>) -> (r: bool)
    ensures
        r == (opt_view(*a) == opt_view(*b)),
{
    match (a, b) {
        (Some(x), Some(y)) => str_eq(x.as_str(), y.as_str()),
        (None, None) => true,
        _ => false,
    }
}

fn note_change(names: &mut Vec<String>, name: &str, changed: bool)
    ensures
        names_view(final(names)@) == names_view(old(names)@) + (if changed {
            seq![name@]
        } else {
            seq![]
        }),
{
    let ghost before = names@;
    if changed {
        names.push(String::from_str(name));
        assert(names_view(names@) =~= names_view(before) + seq![name@]);
    } else {
        assert(names_view(names@) =~= names_view(before) + Seq::<Seq<char>>::empty());
    }
}

/// Copies into `current` each watched setting in which `new` differs, and
/// returns the names of those settings, so that each change can be logged.
pub fn update_current(current: &mut ConfigWatched, new: ConfigWatched) -> (r: Vec<String>)
    ensures
        final(current)@ == new@,
        names_view(r@) == changed_fields(old(current)@, new@),
{
    let ghost a = current@;
    let mut names: Vec<String> = Vec::new();
    let ConfigWatched {
        graylog_addr,
        graylog_addr_ttl,
        compression,
        team,
        service,
        log_level_system,
        log_level_message,
    } = new;
    let c = !str_eq(current.graylog_addr.as_str(), graylog_addr.as_str());
    note_change(&mut names, "graylog_addr", c);
    if c {
        current.graylog_addr = graylog_addr;
    }
    let c = current.graylog_addr_ttl != graylog_addr_ttl;
    note_change(&mut names, "graylog_addr_ttl", c);
    current.graylog_addr_ttl = graylog_addr_ttl;
    let c = current.compression != compression;
    note_change(&mut names, "compression", c);
    current.compression = compression;
    let c = !opt_str_eq(&current.team, &team);
    note_change(&mut names, "team", c);
    if c {
        current.team = team;
    }
    let c = !opt_str_eq(&current.service, &service);
    note_change(&mut names, "service", c);
    if c {
        current.service = service;
    }
    let c = current.log_level_system != log_level_system;
    note_change(&mut names, "log_level_system", c);
    current.log_level_system = log_level_system;
    let c = current.log_level_message != log_level_message;
    note_change(&mut names, "log_level_message", c);
    current.log_level_message = log_level_message;
    assert(names_view(names@) =~= changed_fields(a, new@));
    names
}

} // verus!
