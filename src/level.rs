//! Severity levels: the syslog-compatible system level and the message level
//! parsed out of free-form log text.
use vstd::prelude::*;
use crate::text::str_eq;

verus! {

/// GELF's representation of an error level, equivalent to syslog's severity
/// (RFC 5424). A lower number is more severe.
#[derive(Debug, Clone, Copy, PartialEq, Eq, Structural, PartialOrd, Ord)]
pub enum LevelSystem {
    Emergency,
    Alert,
    Critical,
    Error,
    Warning,
    Notice,
    Informational,
    Debug,
}

/// Numeric syslog code of a system level.
pub open spec fn system_code(l: LevelSystem) -> nat {
    match l {
        LevelSystem::Emergency => 0,
        LevelSystem::Alert => 1,
        LevelSystem::Critical => 2,
        LevelSystem::Error => 3,
        LevelSystem::Warning => 4,
        LevelSystem::Notice => 5,
        LevelSystem::Informational => 6,
        LevelSystem::Debug => 7,
    }
}

/// The system level of a syslog code; codes above 7 clamp to `Debug`.
pub open spec fn system_of_code(n: nat) -> LevelSystem {
    if n == 0 {
        LevelSystem::Emergency
    } else if n == 1 {
        LevelSystem::Alert
    } else if n == 2 {
        LevelSystem::Critical
    } else if n == 3 {
        LevelSystem::Error
    } else if n == 4 {
        LevelSystem::Warning
    } else if n == 5 {
        LevelSystem::Notice
    } else if n == 6 {
        LevelSystem::Informational
    } else {
        LevelSystem::Debug
    }
}

/// Lower-case name of a system level.
pub open spec fn system_name(l: LevelSystem) -> Seq<char> {
    match l {
        LevelSystem::Emergency => "emergency"@,
        LevelSystem::Alert => "alert"@,
        LevelSystem::Critical => "critical"@,
        LevelSystem::Error => "error"@,
        LevelSystem::Warning => "warning"@,
        LevelSystem::Notice => "notice"@,
        LevelSystem::Informational => "info"@,
        LevelSystem::Debug => "debug"@,
    }
}

/// Levels and the codes 0 to 7 correspond one to one: every level is the
/// level of its own code, and every such code is the code of its level.
pub proof fn lemma_system_code_round_trip(l: LevelSystem, n: nat)
    ensures
        system_code(l) <= 7,
        system_of_code(system_code(l)) == l,
        n <= 7 ==> system_code(system_of_code(n)) == n,
{
}

/// The system level a configuration name selects.
pub open spec fn system_of_name(s: Seq<char>) -> Option<LevelSystem> {
    if s == "emergency"@ {
        Some(LevelSystem::Emergency)
    } else if s == "alert"@ {
        Some(LevelSystem::Alert)
    } else if s == "critical"@ {
        Some(LevelSystem::Critical)
    } else if s == "error"@ {
        Some(LevelSystem::Error)
    } else if s == "warning"@ {
        Some(LevelSystem::Warning)
    } else if s == "notice"@ {
        Some(LevelSystem::Notice)
    } else if s == "informational"@ {
        Some(LevelSystem::Informational)
    } else if s == "debug"@ {
        Some(LevelSystem::Debug)
    } else {
        None
    }
}

impl LevelSystem {
    /// The system level named `level` in a configuration, if any.
    pub fn from_name(level: &str) -> (r: Option<LevelSystem>)
        ensures
            r == system_of_name(level@),
    {
        if str_eq(level, "emergency") {
            Some(LevelSystem::Emergency)
        } else if str_eq(level, "alert") {
            Some(LevelSystem::Alert)
        } else if str_eq(level, "critical") {
            Some(LevelSystem::Critical)
        } else if str_eq(level, "error") {
            Some(LevelSystem::Error)
        } else if str_eq(level, "warning") {
            Some(LevelSystem::Warning)
        } else if str_eq(level, "notice") {
            Some(LevelSystem::Notice)
        } else if str_eq(level, "informational") {
            Some(LevelSystem::Informational)
        } else if str_eq(level, "debug") {
            Some(LevelSystem::Debug)
        } else {
            None
        }
    }

    /// Get the GELF error level from a syslog code.
    pub fn from_num(level: u8) -> (r: LevelSystem)
        ensures
            r == system_of_code(level as nat),
    {
        match level {
            0 => LevelSystem::Emergency,
            1 => LevelSystem::Alert,
            2 => LevelSystem::Critical,
            3 => LevelSystem::Error,
            4 => LevelSystem::Warning,
            5 => LevelSystem::Notice,
            6 => LevelSystem::Informational,
            _ => LevelSystem::Debug,
        }
    }

    /// Convert a GELF error level to its syslog code.
    pub fn to_num(&self) -> (r: u8)
        ensures
            r as nat == system_code(*self),
    {
        match *self {
            LevelSystem::Emergency => 0,
            LevelSystem::Alert => 1,
            LevelSystem::Critical => 2,
            LevelSystem::Error => 3,
            LevelSystem::Warning => 4,
            LevelSystem::Notice => 5,
            LevelSystem::Informational => 6,
            LevelSystem::Debug => 7,
        }
    }

    /// Whether this level is less severe than `threshold`.
    pub fn less_severe_than(&self, threshold: &LevelSystem) -> (r: bool)
        ensures
            r == (system_code(*self) > system_code(*threshold)),
    {
        self.to_num() > threshold.to_num()
    }

    /// Lower-case name of the level.
    pub fn name(&self) -> (r: &'static str)
        ensures
            r@ == system_name(*self),
    {
        match *self {
            LevelSystem::Emergency => "emergency",
            LevelSystem::Alert => "alert",
            LevelSystem::Critical => "critical",
            LevelSystem::Error => "error",
            LevelSystem::Warning => "warning",
            LevelSystem::Notice => "notice",
            LevelSystem::Informational => "info",
            LevelSystem::Debug => "debug",
        }
    }
}

/// Severity of an application log line, parsed out of its text.
#[derive(Debug, Clone, Copy, PartialEq, Eq, Structural, PartialOrd, Ord)]
pub enum LevelMsg {
    Fatal,
    Panic,
    Error,
    Warning,
    Info,
    Debug,
}

/// Rank of a message level: a higher rank is less severe.
pub open spec fn msg_rank(l: LevelMsg) -> nat {
    match l {
        LevelMsg::Fatal => 0,
        LevelMsg::Panic => 1,
        LevelMsg::Error => 2,
        LevelMsg::Warning => 3,
        LevelMsg::Info => 4,
        LevelMsg::Debug => 5,
    }
}

/// Lower-case name of a message level.
pub open spec fn msg_name(l: LevelMsg) -> Seq<char> {
    match l {
        LevelMsg::Fatal => "fatal"@,
        LevelMsg::Panic => "panic"@,
        LevelMsg::Error => "error"@,
        LevelMsg::Warning => "warning"@,
        LevelMsg::Info => "info"@,
        LevelMsg::Debug => "debug"@,
    }
}

/// The message level a lower-case name names; any other word means `Debug`.
pub open spec fn msg_of_name(s: Seq<char>) -> LevelMsg {
    if s == "fatal"@ {
        LevelMsg::Fatal
    } else if s == "panic"@ {
        LevelMsg::Panic
    } else if s == "error"@ {
        LevelMsg::Error
    } else if s == "warning"@ {
        LevelMsg::Warning
    } else if s == "info"@ {
        LevelMsg::Info
    } else {
        LevelMsg::Debug
    }
}

impl LevelMsg {
    /// The message level named by `level`; any string but the five
    /// lower-case names gives `Debug`.
    pub fn from_name(level: &str) -> (r: LevelMsg)
        ensures
            r == msg_of_name(level@),
    {
        if str_eq(level, "fatal") {
            LevelMsg::Fatal
        } else if str_eq(level, "panic") {
            LevelMsg::Panic
        } else if str_eq(level, "error") {
            LevelMsg::Error
        } else if str_eq(level, "warning") {
            LevelMsg::Warning
        } else if str_eq(level, "info") {
            LevelMsg::Info
        } else {
            LevelMsg::Debug
        }
    }

    /// Rank of the level: a higher rank is less severe.
    pub fn rank(&self) -> (r: u8)
        ensures
            r as nat == msg_rank(*self),
    {
        match *self {
            LevelMsg::Fatal => 0,
            LevelMsg::Panic => 1,
            LevelMsg::Error => 2,
            LevelMsg::Warning => 3,
            LevelMsg::Info => 4,
            LevelMsg::Debug => 5,
        }
    }

    /// Lower-case name of the level.
    pub fn name(&self) -> (r: &'static str)
        ensures
            r@ == msg_name(*self),
    {
        match *self {
            LevelMsg::Fatal => "fatal",
            LevelMsg::Panic => "panic",
            LevelMsg::Error => "error",
            LevelMsg::Warning => "warning",
            LevelMsg::Info => "info",
            LevelMsg::Debug => "debug",
        }
    }
}

} // verus!
