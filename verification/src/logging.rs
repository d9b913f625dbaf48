use vstd::prelude::*;

verus! {

/// The severity of a log line.
#[derive(Clone, Copy, Debug, PartialEq, Eq, Structural)]
pub enum LogLevel {
    Info,
    Warn,
    Error,
}

/// The tag a level is written with.
pub open spec fn level_tag(level: LogLevel) -> Seq<char> {
    match level {
        LogLevel::Info => "INFO"@,
        LogLevel::Warn => "WARN"@,
        LogLevel::Error => "ERROR"@,
    }
}

impl LogLevel {
    /// "INFO", "WARN" or "ERROR".
    pub fn tag(self) -> (r: &'static str)
        ensures
            r@ == level_tag(self),
    {
        match self {
            LogLevel::Info => "INFO",
            LogLevel::Warn => "WARN",
            LogLevel::Error => "ERROR",
        }
    }
}

/// One line of the log file: "[<timestamp>] [<LEVEL>] <message>" and a
/// newline.
pub fn log_line(timestamp: &str, level: LogLevel, message: &str) -> (r: String)
    ensures
        r@ == "["@ + timestamp@ + "] ["@ + level_tag(level) + "] "@ + message@ + "\n"@,
{
    let mut s = String::from_str("[");
    s.append(timestamp);
    s.append("] [");
    s.append(level.tag());
    s.append("] ");
    s.append(message);
    s.append("\n");
    s
}

} // verus!
