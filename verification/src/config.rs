//! Daemon configuration pieces that the node validates: genesis source,
//! snapshot routing, console colouring and log rotation bounds.

use crate::text::{ascii_lower, debug_quoted, debug_str, is_blank, lower_eq, str_is_blank, to_ascii_lower, trim, trim_str};
use vstd::prelude::*;
use vstd::string::*;

verus! {

/// Where to load genesis and validator signing keys from.
#[derive(Clone, Debug)]
pub enum GenesisSource {
    DevNet,
    JsonFile { path: String, passphrase: String },
}

/// Persisted autosnapshot routing (the JSON file next to the data file).
#[derive(Clone, Copy, Debug, Eq, PartialEq, Structural)]
pub enum PersistSnapKind {
    JsonFile,
}

impl Default for PersistSnapKind {
    fn default() -> (r: Self)
        ensures
            r == PersistSnapKind::JsonFile,
    {
        PersistSnapKind::JsonFile
    }
}

#[derive(Clone, Copy, Debug, Eq, PartialEq, Structural)]
pub enum LogFileMode {
    On,
    Off,
    Required,
}

#[derive(Clone, Copy, Debug, Eq, PartialEq, Structural)]
pub enum ConsoleColorMode {
    Auto,
    Always,
    Never,
}

/// `s` trimmed and ASCII-lowercased, as the mode parsers compare it.
pub open spec fn folded(s: Seq<char>) -> Seq<char> {
    ascii_lower(trim(s))
}

impl ConsoleColorMode {
    /// Whether console output carries ANSI colours.
    pub fn use_ansi(self, is_tty: bool) -> (r: bool)
        ensures
            r == match self {
                ConsoleColorMode::Auto => is_tty,
                ConsoleColorMode::Always => true,
                ConsoleColorMode::Never => false,
            },
    {
        match self {
            ConsoleColorMode::Auto => is_tty,
            ConsoleColorMode::Always => true,
            ConsoleColorMode::Never => false,
        }
    }

    /// Parses `auto`, `always` or `never`, ignoring case and surrounding whitespace.
    pub fn parse(raw: &str) -> (r: Result<Self, String>)
        ensures
            folded(raw@) == "auto"@ ==> r == Ok::<Self, String>(ConsoleColorMode::Auto),
            folded(raw@) == "always"@ ==> r == Ok::<Self, String>(ConsoleColorMode::Always),
            folded(raw@) == "never"@ ==> r == Ok::<Self, String>(ConsoleColorMode::Never),
            folded(raw@) != "auto"@ && folded(raw@) != "always"@ && folded(raw@) != "never"@ ==> (
            r matches Err(msg) && msg@ == "invalid console color mode "@ + debug_str(folded(raw@))
                + "; expected auto|always|never"@),
    {
        proof {
            reveal_strlit("auto");
            reveal_strlit("always");
            reveal_strlit("never");
            assert("auto"@.len() == 4 && "always"@.len() == 6 && "never"@.len() == 5);
            assert("auto"@[1] != "always"@[1]);
        }
        let t = trim_str(raw);
        if lower_eq(t, "auto") {
            Ok(ConsoleColorMode::Auto)
        } else if lower_eq(t, "always") {
            Ok(ConsoleColorMode::Always)
        } else if lower_eq(t, "never") {
            Ok(ConsoleColorMode::Never)
        } else {
            let other = to_ascii_lower(t);
            let mut msg = String::from_str("invalid console color mode ");
            let q = debug_quoted(other.as_str());
            msg.append(q.as_str());
            msg.append("; expected auto|always|never");
            Err(msg)
        }
    }
}

impl LogFileMode {
    /// Parses `on`, `off` or `required`, ignoring case and surrounding whitespace.
    pub fn parse(raw: &str) -> (r: Result<Self, String>)
        ensures
            folded(raw@) == "on"@ ==> r == Ok::<Self, String>(LogFileMode::On),
            folded(raw@) == "off"@ ==> r == Ok::<Self, String>(LogFileMode::Off),
            folded(raw@) == "required"@ ==> r == Ok::<Self, String>(LogFileMode::Required),
            folded(raw@) != "on"@ && folded(raw@) != "off"@ && folded(raw@) != "required"@ ==> (
            r matches Err(msg) && msg@ == "invalid log file mode "@ + debug_str(folded(raw@))
                + "; expected on|off|required"@),
    {
        proof {
            reveal_strlit("on");
            reveal_strlit("off");
            reveal_strlit("required");
            assert("on"@.len() == 2 && "off"@.len() == 3 && "required"@.len() == 8);
        }
        let t = trim_str(raw);
        if lower_eq(t, "on") {
            Ok(LogFileMode::On)
        } else if lower_eq(t, "off") {
            Ok(LogFileMode::Off)
        } else if lower_eq(t, "required") {
            Ok(LogFileMode::Required)
        } else {
            let other = to_ascii_lower(t);
            let mut msg = String::from_str("invalid log file mode ");
            let q = debug_quoted(other.as_str());
            msg.append(q.as_str());
            msg.append("; expected on|off|required");
            Err(msg)
        }
    }
}

#[derive(Clone, Debug)]
pub struct LoggingConfig {
    pub log_name: String,
    /// Directory of the log files.
    pub log_dir: String,
    pub file_template: String,
    pub file_mode: LogFileMode,
    pub peer_file_template: String,
    pub peer_file_mode: LogFileMode,
    pub console_color: ConsoleColorMode,
    pub rotate_size_mb: u64,
    pub rotate_max_files: usize,
}

impl Default for LoggingConfig {
    fn default() -> (r: Self)
        ensures
            r.log_name@ == "pwmd"@,
            r.log_dir@ == "logs"@,
            r.file_template@ == "{date}/{log_name}-{node_id}-{time}.log"@,
            r.file_mode == LogFileMode::On,
            r.peer_file_template@ == "{date}/pwmd-peer-{node_id}-{time}.log"@,
            r.peer_file_mode == LogFileMode::On,
            r.console_color == ConsoleColorMode::Auto,
            r.rotate_size_mb == 32,
            r.rotate_max_files == 7,
    {
        LoggingConfig {
            log_name: String::from_str("pwmd"),
            log_dir: String::from_str("logs"),
            file_template: String::from_str("{date}/{log_name}-{node_id}-{time}.log"),
            file_mode: LogFileMode::On,
            peer_file_template: String::from_str("{date}/pwmd-peer-{node_id}-{time}.log"),
            peer_file_mode: LogFileMode::On,
            console_color: ConsoleColorMode::Auto,
            rotate_size_mb: 32,
            rotate_max_files: 7,
        }
    }
}

pub const MIN_ROTATE_SIZE_MB: u64 = 1;
pub const MAX_ROTATE_SIZE_MB: u64 = 1024;
pub const MIN_ROTATE_MAX_FILES: usize = 1;
pub const MAX_ROTATE_MAX_FILES: usize = 1024;

impl LoggingConfig {
    /// Checks the log name and the rotation bounds, in that order.
    pub fn validate(&self) -> (r: Result<(), String>)
        ensures
            is_blank(self.log_name@) ==> (r matches Err(m) && m@ == "log name must not be empty"@),
            !is_blank(self.log_name@) && !(1 <= self.rotate_size_mb <= 1024) ==> (r matches Err(m)
                && m@ == "log rotate size must be in [1..=1024] MB"@),
            !is_blank(self.log_name@) && 1 <= self.rotate_size_mb <= 1024 && !(1
                <= self.rotate_max_files <= 1024) ==> (r matches Err(m) && m@
                == "log rotate max files must be in [1..=1024]"@),
            r is Ok <==> (!is_blank(self.log_name@) && 1 <= self.rotate_size_mb <= 1024 && 1
                <= self.rotate_max_files <= 1024),
    {
        if str_is_blank(self.log_name.as_str()) {
            return Err(String::from_str("log name must not be empty"));
        }
        if self.rotate_size_mb < MIN_ROTATE_SIZE_MB || self.rotate_size_mb > MAX_ROTATE_SIZE_MB {
            return Err(String::from_str("log rotate size must be in [1..=1024] MB"));
        }
        if self.rotate_max_files < MIN_ROTATE_MAX_FILES || self.rotate_max_files
            > MAX_ROTATE_MAX_FILES {
            return Err(String::from_str("log rotate max files must be in [1..=1024]"));
        }
        Ok(())
    }
}


/// Startup log hint for the configured persistence routing.
pub fn persist_diag_hint(persist_snap: PersistSnapKind, data_file: &str) -> (r: String)
    ensures
        r@ == match persist_snap {
            PersistSnapKind::JsonFile => "json_file path="@ + data_file@,
        },
{
    match persist_snap {
        PersistSnapKind::JsonFile => {
            let mut out = String::from_str("json_file path=");
            out.append(data_file);
            out
        },
    }
}

} // verus!
