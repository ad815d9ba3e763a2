//! Where the log goes.

use vstd::prelude::*;
use crate::text::same_text;

verus! {

/// Where we're logging to.
#[derive(Debug)]
pub enum LogLocation {
    /// Logging to the file at this path.
    File(String),
    /// Logging to the journal of systemd.
    Systemd,
    /// Logging to the system log.
    Syslog,
}

/// What the name given for the log file asks for.
#[derive(Debug, PartialEq, Eq, Structural, Clone, Copy)]
pub enum LogTarget {
    /// The journal of systemd, and nothing else.
    Journal,
    /// The journal of systemd, or the system log where there is no journal.
    JournalOrSyslog,
    /// The system log.
    Syslog,
    /// A file of that name.
    File,
}

/// The default log file.
pub const DEFAULT_LOG_FILE: &'static str = "/var/log/spinnrd.log";

/// The log file used where the chosen one cannot be written. `%d` stands for
/// the working directory.
pub const BACKUP_LOG_FILE: &'static str = "%d/spinnrd.log";

/// The file that a failure to set up logging is written to. `%t` stands for
/// the time.
pub const LOG_FAIL_FILE: &'static str = "/tmp/spinnrd.%t.logfail";

/// Exit status when logging could not be set up.
pub const EXIT_NO_LOGGER: i32 = 2;

/// What the name `logfile` asks for: `sysd`, `system` and `syslog` name the
/// system's logs, any other name is the path of a file.
pub open spec fn target_named(logfile: Seq<char>) -> LogTarget {
    if logfile == "sysd"@ {
        LogTarget::Journal
    } else if logfile == "system"@ {
        LogTarget::JournalOrSyslog
    } else if logfile == "syslog"@ {
        LogTarget::Syslog
    } else {
        LogTarget::File
    }
}

/// Returns what the name given for the log file asks for.
pub fn log_target(logfile: &str) -> (target: LogTarget)
    ensures
        target == target_named(logfile@),
{
    if same_text(logfile, "sysd") {
        LogTarget::Journal
    } else if same_text(logfile, "system") {
        LogTarget::JournalOrSyslog
    } else if same_text(logfile, "syslog") {
        LogTarget::Syslog
    } else {
        LogTarget::File
    }
}

impl LogLocation {
    /// What the location is called in messages.
    pub open spec fn description(&self) -> Seq<char> {
        match self {
            LogLocation::File(path) => path@,
            LogLocation::Systemd => "systemd journal"@,
            LogLocation::Syslog => "syslog"@,
        }
    }

    /// Returns what the location is called in messages.
    pub fn describe(&self) -> (text: String)
        ensures
            text@ == self.description(),
    {
        match self {
            LogLocation::File(path) => path.clone(),
            LogLocation::Systemd => "systemd journal".to_owned(),
            LogLocation::Syslog => "syslog".to_owned(),
        }
    }
}

} // verus!
