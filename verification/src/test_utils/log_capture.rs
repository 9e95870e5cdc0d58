//! A log recorder for tests: keeps every message at or above a chosen
//! verbosity, and answers questions about what was logged.
use vstd::prelude::*;
use vstd::string::StringExecFns;

use crate::text::{contains_text, text_contains};

verus! {

/// Verbosity level of a log message, from the most severe to the most
/// verbose.
#[derive(Debug, Clone, Copy, PartialEq, Eq, Structural)]
pub enum Level {
    Error,
    Warn,
    Info,
    Debug,
    Trace,
}

/// The verbosity of a level: 1 for `Error` up to 5 for `Trace`.
pub open spec fn verbosity(level: Level) -> int {
    match level {
        Level::Error => 1,
        Level::Warn => 2,
        Level::Info => 3,
        Level::Debug => 4,
        Level::Trace => 5,
    }
}

/// The name of a level as `Debug` prints it.
pub open spec fn level_name(level: Level) -> Seq<char> {
    match level {
        Level::Error => "Error"@,
        Level::Warn => "Warn"@,
        Level::Info => "Info"@,
        Level::Debug => "Debug"@,
        Level::Trace => "Trace"@,
    }
}

impl Level {
    /// The verbosity of this level: 1 for `Error` up to 5 for `Trace`.
    pub fn verbosity(&self) -> (v: u8)
        ensures
            v == verbosity(*self),
    {
        match self {
            Level::Error => 1,
            Level::Warn => 2,
            Level::Info => 3,
            Level::Debug => 4,
            Level::Trace => 5,
        }
    }

    /// The name of this level.
    pub fn name(&self) -> (s: &'static str)
        ensures
            s@ == level_name(*self),
    {
        match self {
            Level::Error => "Error",
            Level::Warn => "Warn",
            Level::Info => "Info",
            Level::Debug => "Debug",
            Level::Trace => "Trace",
        }
    }
}

/// A record handed to the logger: level, text and target.
pub struct LogRecord {
    pub level: Level,
    pub message: String,
    pub target: String,
}

impl LogRecord {
    /// A record with the given level, text and target.
    pub fn new(level: Level, message: &str, target: &str) -> (r: Self)
        ensures
            r.level == level,
            r.message@ == message@,
            r.target@ == target@,
    {
        LogRecord { level, message: String::from_str(message), target: String::from_str(target) }
    }
}

/// A single captured log message.
#[derive(Debug)]
pub struct LogMessage {
    pub level: Level,
    pub message: String,
    pub target: String,
    /// When it was captured, in milliseconds since the epoch
    pub timestamp: u64,
}

impl Clone for LogMessage {
    fn clone(&self) -> (m: Self)
        ensures
            m == *self,
    {
        LogMessage {
            level: self.level,
            message: self.message.clone(),
            target: self.target.clone(),
            timestamp: self.timestamp,
        }
    }
}

impl LogMessage {
    /// Whether the message text contains `pattern`.
    pub fn contains(&self, pattern: &str) -> (b: bool)
        ensures
            b == contains_text(self.message@, pattern@),
    {
        text_contains(self.message.as_str(), pattern)
    }

    /// Whether the message was logged at `level`.
    pub fn matches_level(&self, level: Level) -> (b: bool)
        ensures
            b == (self.level == level),
    {
        self.level == level
    }

    /// `[Level] target: message`, as a line for display.
    pub fn describe(&self) -> (s: String)
        ensures
            s@ == "["@ + level_name(self.level) + "] "@ + self.target@ + ": "@ + self.message@,
    {
        let mut s = String::from_str("[");
        s.append(self.level.name());
        s.append("] ");
        s.append(self.target.as_str());
        s.append(": ");
        s.append(self.message.as_str());
        s
    }
}

/// Messages whose text contains `pattern`.
pub open spec fn containing(pattern: Seq<char>) -> spec_fn(LogMessage) -> bool {
    |m: LogMessage| contains_text(m.message@, pattern)
}

/// Messages logged at `level`.
pub open spec fn at_level(level: Level) -> spec_fn(LogMessage) -> bool {
    |m: LogMessage| m.level == level
}

/// Records log messages for tests.
pub struct TestLogger {
    messages: Vec<LogMessage>,
    max_level: Level,
}

impl TestLogger {
    /// The messages recorded so far, oldest first.
    pub closed spec fn messages(&self) -> Seq<LogMessage> {
        self.messages@
    }

    /// The most verbose level recorded.
    pub closed spec fn max_level(&self) -> Level {
        self.max_level
    }

    /// An empty logger recording levels up to `max_level`.
    pub fn new(max_level: Level) -> (l: Self)
        ensures
            l.messages() == Seq::<LogMessage>::empty(),
            l.max_level() == max_level,
    {
        TestLogger { messages: Vec::new(), max_level }
    }

    /// An empty logger recording up to `Info`.
    pub fn new_with_info() -> (l: Self)
        ensures
            l.messages() == Seq::<LogMessage>::empty(),
            l.max_level() == Level::Info,
    {
        Self::new(Level::Info)
    }

    /// An empty logger recording up to `Debug`.
    pub fn new_with_debug() -> (l: Self)
        ensures
            l.messages() == Seq::<LogMessage>::empty(),
            l.max_level() == Level::Debug,
    {
        Self::new(Level::Debug)
    }

    /// Whether a message at `level` is recorded: when it is no more verbose
    /// than the logger's level.
    pub fn enabled(&self, level: Level) -> (b: bool)
        ensures
            b == (verbosity(level) <= verbosity(self.max_level())),
    {
        level.verbosity() <= self.max_level.verbosity()
    }

    /// Records `record`, stamped with the current time, if its level is
    /// enabled; otherwise does nothing.
    pub fn log(&mut self, record: &LogRecord)
        ensures
            final(self).max_level() == old(self).max_level(),
            if verbosity(record.level) <= verbosity(old(self).max_level()) {
                &&& final(self).messages().len() == old(self).messages().len() + 1
                &&& final(self).messages().drop_last() == old(self).messages()
                &&& final(self).messages().last().level == record.level
                &&& final(self).messages().last().message == record.message
                &&& final(self).messages().last().target == record.target
            } else {
                final(self).messages() == old(self).messages()
            },
    {
        if self.enabled(record.level) {
            let msg = LogMessage {
                level: record.level,
                message: record.message.clone(),
                target: record.target.clone(),
                timestamp: crate::time::current_time_ms(),
            };
            self.messages.push(msg);
            assert(self.messages@.drop_last() =~= old(self).messages@);
        }
    }

    /// A copy of every recorded message, oldest first.
    pub fn get_logs(&self) -> (v: Vec<LogMessage>)
        ensures
            v@ == self.messages(),
    {
        let mut v: Vec<LogMessage> = Vec::new();
        let mut i: usize = 0;
        while i < self.messages.len()
            invariant
                i <= self.messages@.len(),
                v@ =~= self.messages@.take(i as int),
            decreases self.messages@.len() - i,
        {
            v.push(self.messages[i].clone());
            i = i + 1;
        }
        assert(self.messages@.take(self.messages@.len() as int) =~= self.messages@);
        v
    }

    /// The recorded messages whose text contains `pattern`, oldest first.
    pub fn get_messages_containing(&self, pattern: &str) -> (v: Vec<LogMessage>)
        ensures
            v@ == self.messages().filter(containing(pattern@)),
    {
        let ghost pred = containing(pattern@);
        let mut v: Vec<LogMessage> = Vec::new();
        let mut i: usize = 0;
        while i < self.messages.len()
            invariant
                i <= self.messages@.len(),
                pred == containing(pattern@),
                v@ == self.messages@.take(i as int).filter(pred),
            decreases self.messages@.len() - i,
        {
            proof {
                reveal(Seq::filter);
                assert(self.messages@.take(i + 1).drop_last() =~= self.messages@.take(i as int));
            }
            if self.messages[i].contains(pattern) {
                v.push(self.messages[i].clone());
            }
            i = i + 1;
        }
        assert(self.messages@.take(self.messages@.len() as int) =~= self.messages@);
        v
    }

    /// The recorded messages logged at `level`, oldest first.
    pub fn get_messages_at_level(&self, level: Level) -> (v: Vec<LogMessage>)
        ensures
            v@ == self.messages().filter(at_level(level)),
    {
        let ghost pred = at_level(level);
        let mut v: Vec<LogMessage> = Vec::new();
        let mut i: usize = 0;
        while i < self.messages.len()
            invariant
                i <= self.messages@.len(),
                pred == at_level(level),
                v@ == self.messages@.take(i as int).filter(pred),
            decreases self.messages@.len() - i,
        {
            proof {
                reveal(Seq::filter);
                assert(self.messages@.take(i + 1).drop_last() =~= self.messages@.take(i as int));
            }
            if self.messages[i].matches_level(level) {
                v.push(self.messages[i].clone());
            }
            i = i + 1;
        }
        assert(self.messages@.take(self.messages@.len() as int) =~= self.messages@);
        v
    }

    /// Whether some recorded message contains `pattern`.
    pub fn has_message_containing(&self, pattern: &str) -> (b: bool)
        ensures
            b == exists|i: int|
                0 <= i < self.messages().len() && contains_text(
                    #[trigger] self.messages()[i].message@,
                    pattern@,
                ),
    {
        let mut i: usize = 0;
        while i < self.messages.len()
            invariant
                i <= self.messages@.len(),
                forall|j: int|
                    0 <= j < i ==> !contains_text(#[trigger] self.messages@[j].message@, pattern@),
            decreases self.messages@.len() - i,
        {
            if self.messages[i].contains(pattern) {
                return true;
            }
            i = i + 1;
        }
        false
    }

    /// Whether some recorded message at `level` contains `pattern`.
    pub fn has_message_at_level(&self, level: Level, pattern: &str) -> (b: bool)
        ensures
            b == exists|i: int|
                0 <= i < self.messages().len() && #[trigger] self.messages()[i].level == level
                    && contains_text(self.messages()[i].message@, pattern@),
    {
        let mut i: usize = 0;
        while i < self.messages.len()
            invariant
                i <= self.messages@.len(),
                forall|j: int|
                    0 <= j < i ==> !(#[trigger] self.messages@[j].level == level && contains_text(
                        self.messages@[j].message@,
                        pattern@,
                    )),
            decreases self.messages@.len() - i,
        {
            if self.messages[i].matches_level(level) && self.messages[i].contains(pattern) {
                return true;
            }
            i = i + 1;
        }
        false
    }

    /// How many messages were recorded.
    pub fn message_count(&self) -> (n: usize)
        ensures
            n == self.messages().len(),
    {
        self.messages.len()
    }

    /// Forgets every recorded message.
    pub fn clear(&mut self)
        ensures
            final(self).messages() == Seq::<LogMessage>::empty(),
            final(self).max_level() == old(self).max_level(),
    {
        self.messages.clear();
    }

    /// The last `n` recorded messages (all of them if there are fewer),
    /// oldest first.
    pub fn get_last_n(&self, n: usize) -> (v: Vec<LogMessage>)
        ensures
            v@ == self.messages().subrange(
                if n >= self.messages().len() {
                    0
                } else {
                    self.messages().len() - n
                },
                self.messages().len() as int,
            ),
    {
        let len = self.messages.len();
        let start = len.saturating_sub(n);
        let mut v: Vec<LogMessage> = Vec::new();
        let mut i: usize = start;
        while i < len
            invariant
                start <= i <= len,
                len == self.messages@.len(),
                v@ =~= self.messages@.subrange(start as int, i as int),
            decreases len - i,
        {
            v.push(self.messages[i].clone());
            i = i + 1;
        }
        v
    }
}

/// A logger for tests, recording up to `Info`.
pub fn setup_test_logging() -> (l: TestLogger)
    ensures
        l.messages() == Seq::<LogMessage>::empty(),
        l.max_level() == Level::Info,
{
    TestLogger::new_with_info()
}

} // verus!
