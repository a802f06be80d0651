use vstd::prelude::*;

verus! {

/// Where the engine writes its log.
pub trait Logger {
    fn debug(&mut self, msg: &str);
    fn info(&mut self, msg: &str);
    fn warn(&mut self, msg: &str);
    fn error(&mut self, msg: &str);
}

/// The severity of a log message.
#[derive(Clone, Copy, Debug, PartialEq, Eq, Structural)]
pub enum LogLevel {
    Debug,
    Info,
    Warning,
    Error,
}

/// The tag written in front of a line of the given level.
pub open spec fn level_tag(level: LogLevel) -> Seq<char> {
    match level {
        LogLevel::Debug => "[Debug]: "@,
        LogLevel::Info => "[Info]: "@,
        LogLevel::Warning => "[Warning]: "@,
        LogLevel::Error => "[Error]: "@,
    }
}

/// The text ends with a line break.
pub open spec fn ends_with_newline(s: Seq<char>) -> bool {
    s.len() > 0 && s.last() == '\n'
}

/// The text that the console logger writes for its messages: a message
/// that starts a new line gets the tag of its level in front.
#[derive(Debug)]
pub struct N3dsLogFormatter {
    pub write_tag: bool,
}

impl N3dsLogFormatter {
    /// A formatter at the start of a line.
    pub fn new() -> (out: Self)
        ensures
            out.write_tag,
    {
        N3dsLogFormatter { write_tag: true }
    }

    /// The text to write for `msg` at `level`; the next message starts a new
    /// line exactly when this one ends with a line break.
    pub fn format(&mut self, level: LogLevel, msg: &str) -> (out: String)
        ensures
            out@ == (if old(self).write_tag { level_tag(level) } else { Seq::<char>::empty() }) + msg@,
            final(self).write_tag == ends_with_newline(msg@),
    {
        let mut out = String::new();
        if self.write_tag {
            match level {
                LogLevel::Debug => out.append("[Debug]: "),
                LogLevel::Info => out.append("[Info]: "),
                LogLevel::Warning => out.append("[Warning]: "),
                LogLevel::Error => out.append("[Error]: "),
            }
        }
        out.append(msg);
        let n = msg.unicode_len();
        self.write_tag = n > 0 && msg.get_char(n - 1) == '\n';
        proof {
            assert(Seq::<char>::empty() + level_tag(level) =~= level_tag(level));
        }
        out
    }

    /// The text to write for a debug message.
    pub fn debug(&mut self, msg: &str) -> (out: String)
        ensures
            out@ == (if old(self).write_tag { level_tag(LogLevel::Debug) } else { Seq::<char>::empty() }) + msg@,
            final(self).write_tag == ends_with_newline(msg@),
    {
        self.format(LogLevel::Debug, msg)
    }

    /// The text to write for an informational message.
    pub fn info(&mut self, msg: &str) -> (out: String)
        ensures
            out@ == (if old(self).write_tag { level_tag(LogLevel::Info) } else { Seq::<char>::empty() }) + msg@,
            final(self).write_tag == ends_with_newline(msg@),
    {
        self.format(LogLevel::Info, msg)
    }

    /// The text to write for a warning.
    pub fn warn(&mut self, msg: &str) -> (out: String)
        ensures
            out@ == (if old(self).write_tag { level_tag(LogLevel::Warning) } else { Seq::<char>::empty() }) + msg@,
            final(self).write_tag == ends_with_newline(msg@),
    {
        self.format(LogLevel::Warning, msg)
    }

    /// The text to write for an error.
    pub fn error(&mut self, msg: &str) -> (out: String)
        ensures
            out@ == (if old(self).write_tag { level_tag(LogLevel::Error) } else { Seq::<char>::empty() }) + msg@,
            final(self).write_tag == ends_with_newline(msg@),
    {
        self.format(LogLevel::Error, msg)
    }
}

} // verus!
