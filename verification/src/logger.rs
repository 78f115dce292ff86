//! Log levels, the level filter and the bounded buffer of recent log lines.
use vstd::prelude::*;
use vstd::string::*;

verus! {

/// Severity of a log line, most severe first.
#[derive(Clone, Copy, Debug, PartialEq, Eq, Structural)]
pub enum Level {
    Error,
    Warn,
    Info,
    Debug,
    Trace,
}

/// The rank of a level: 1 for `Error` up to 5 for `Trace`.
pub open spec fn rank(level: Level) -> u8 {
    match level {
        Level::Error => 1,
        Level::Warn => 2,
        Level::Info => 3,
        Level::Debug => 4,
        Level::Trace => 5,
    }
}

/// The name printed for a level.
pub open spec fn level_name(level: Level) -> Seq<char> {
    match level {
        Level::Error => "ERROR"@,
        Level::Warn => "WARN"@,
        Level::Info => "INFO"@,
        Level::Debug => "DEBUG"@,
        Level::Trace => "TRACE"@,
    }
}

/// The terminal color code of a level.
pub open spec fn color_code(level: Level) -> Seq<char> {
    match level {
        Level::Error => "\x1b[31m"@,
        Level::Warn => "\x1b[33m"@,
        Level::Info => "\x1b[32m"@,
        Level::Debug => "\x1b[36m"@,
        Level::Trace => "\x1b[37m"@,
    }
}

impl Level {
    /// The rank of the level: 1 for `Error` up to 5 for `Trace`.
    pub fn rank(&self) -> (r: u8)
        ensures
            r == rank(*self),
    {
        match self {
            Level::Error => 1,
            Level::Warn => 2,
            Level::Info => 3,
            Level::Debug => 4,
            Level::Trace => 5,
        }
    }

    /// The name printed for the level.
    pub fn as_str(&self) -> (r: &'static str)
        ensures
            r@ == level_name(*self),
    {
        match self {
            Level::Error => "ERROR",
            Level::Warn => "WARN",
            Level::Info => "INFO",
            Level::Debug => "DEBUG",
            Level::Trace => "TRACE",
        }
    }
}

/// The terminal color code of a level (red, yellow, green, cyan, white).
pub fn level_color(level: Level) -> (r: &'static str)
    ensures
        r@ == color_code(level),
{
    match level {
        Level::Error => "\x1b[31m",
        Level::Warn => "\x1b[33m",
        Level::Info => "\x1b[32m",
        Level::Debug => "\x1b[36m",
        Level::Trace => "\x1b[37m",
    }
}

/// The code that resets the terminal color.
pub const RESET: &'static str = "\x1b[0m";

/// How many log lines the buffer keeps.
pub const MAX_LOGS: usize = 1000;

/// The rank of the most verbose level that is logged by default (`Debug`).
pub const DEFAULT_MAX_LEVEL: u8 = 4;

/// What one logged line turned into.
pub struct LogLine {
    /// The line for the terminal: color, `[LEVEL]`, reset, then the message.
    pub console: String,
    /// The level's name.
    pub level: String,
    /// `target - message`.
    pub message: String,
}

/// The level filter and the buffer of the most recent log lines.
pub struct Logger {
    max_level: u8,
    buffer: Vec<(String, String)>,
}

/// The text of one buffered entry.
pub open spec fn entry_view(e: (String, String)) -> (Seq<char>, Seq<char>) {
    (e.0@, e.1@)
}

/// `entries` with one more entry, the oldest dropped once `MAX_LOGS` are held.
pub open spec fn buffer_after(entries: Seq<(Seq<char>, Seq<char>)>, e: (Seq<char>, Seq<char>)) -> Seq<
    (Seq<char>, Seq<char>),
> {
    if entries.len() >= MAX_LOGS {
        entries.drop_first().push(e)
    } else {
        entries.push(e)
    }
}

impl Logger {
    /// The buffered entries, oldest first: level name and message.
    pub closed spec fn entries(&self) -> Seq<(Seq<char>, Seq<char>)> {
        self.buffer@.map_values(|e: (String, String)| entry_view(e))
    }

    /// The rank of the most verbose level that is logged.
    pub closed spec fn max_rank(&self) -> u8 {
        self.max_level
    }

    /// The buffer never holds more than `MAX_LOGS` entries.
    pub closed spec fn wf(&self) -> bool {
        self.buffer@.len() <= MAX_LOGS
    }

    /// A logger at the default level with an empty buffer.
    pub fn new() -> (r: Logger)
        ensures
            r.wf(),
            r.entries().len() <= MAX_LOGS,
            r.max_rank() == DEFAULT_MAX_LEVEL,
            r.entries() == Seq::<(Seq<char>, Seq<char>)>::empty(),
    {
        let r = Logger { max_level: DEFAULT_MAX_LEVEL, buffer: Vec::new() };
        assert(r.entries() =~= Seq::<(Seq<char>, Seq<char>)>::empty());
        r
    }

    /// Sets the level filter to its default, `Debug`.
    pub fn init(&mut self)
        requires
            old(self).wf(),
        ensures
            final(self).wf(),
            final(self).entries().len() <= MAX_LOGS,
            final(self).max_rank() == DEFAULT_MAX_LEVEL,
            final(self).entries() == old(self).entries(),
    {
        self.max_level = DEFAULT_MAX_LEVEL;
    }

    /// Whether lines of `level` are logged.
    pub fn enabled(&self, level: Level) -> (r: bool)
        ensures
            r == (rank(level) <= self.max_rank()),
    {
        level.rank() <= self.max_level
    }

    /// Logs `message` from `target` at `level`: nothing happens when the level
    /// is filtered out; otherwise the entry joins the buffer (evicting the
    /// oldest one when full) and the line to print and emit is returned.
    pub fn log(&mut self, level: Level, target: &str, message: &str) -> (r: Option<LogLine>)
        requires
            old(self).wf(),
        ensures
            final(self).wf(),
            final(self).entries().len() <= MAX_LOGS,
            final(self).max_rank() == old(self).max_rank(),
            rank(level) > old(self).max_rank() ==> r is None && final(self).entries()
                == old(self).entries(),
            rank(level) <= old(self).max_rank() ==> {
                let full = target@ + " - "@ + message@;
                &&& r matches Some(line)
                &&& line.message@ == full
                &&& line.level@ == level_name(level)
                &&& line.console@ == color_code(level) + "["@ + level_name(level) + "]"@ + RESET@
                    + " "@ + full
                &&& final(self).entries() == buffer_after(old(self).entries(), (level_name(level), full))
            },
    {
        if level.rank() > self.max_level {
            return None;
        }
        let mut full = String::from_str(target);
        full.append(" - ");
        full.append(message);
        let mut console = String::from_str(level_color(level));
        console.append("[");
        console.append(level.as_str());
        console.append("]");
        console.append(RESET);
        console.append(" ");
        console.append(full.as_str());
        let ghost before = self.buffer@;
        if self.buffer.len() >= MAX_LOGS {
            self.buffer.remove(0);
        }
        self.buffer.push((String::from_str(level.as_str()), full.clone()));
        proof {
            let e = (level_name(level), full@);
            if before.len() >= MAX_LOGS {
                assert(self.entries() =~= before.map_values(|e: (String, String)| entry_view(e)).drop_first().push(e));
            } else {
                assert(self.entries() =~= before.map_values(|e: (String, String)| entry_view(e)).push(e));
            }
        }
        Some(LogLine { console, level: String::from_str(level.as_str()), message: full })
    }

    /// A copy of the buffered entries, oldest first.
    pub fn get_buffered_logs(&self) -> (r: Vec<(String, String)>)
        ensures
            r@.map_values(|e: (String, String)| entry_view(e)) == self.entries(),
            self.wf() ==> r@.len() <= MAX_LOGS,
    {
        let mut out: Vec<(String, String)> = Vec::new();
        let mut i: usize = 0;
        while i < self.buffer.len()
            invariant
                i <= self.buffer.len(),
                out@.len() == i,
                forall|j: int| 0 <= j < i ==> entry_view(#[trigger] out@[j]) == entry_view(self.buffer@[j]),
            decreases self.buffer.len() - i,
        {
            let e = &self.buffer[i];
            out.push((e.0.clone(), e.1.clone()));
            i = i + 1;
        }
        assert(out@.map_values(|e: (String, String)| entry_view(e)) =~= self.entries());
        out
    }
}

/// The file name of the application log.
pub fn get_log_name() -> (r: String)
    ensures
        r@ == "fluyer.log"@,
{
    String::from_str("fluyer.log")
}

/// The file name of the player engine's log.
pub fn get_mpv_log_name() -> (r: String)
    ensures
        r@ == "fluyer-mpv.log"@,
{
    String::from_str("fluyer-mpv.log")
}

/// The buffer keeps the most recent lines: after one more line it holds at
/// most `MAX_LOGS` entries, the new line last, and before it the latest of
/// the earlier ones in their order.
pub proof fn law_buffer_keeps_latest(entries: Seq<(Seq<char>, Seq<char>)>, e: (Seq<char>, Seq<char>))
    requires
        entries.len() <= MAX_LOGS,
    ensures
        buffer_after(entries, e).len() <= MAX_LOGS,
        buffer_after(entries, e).last() == e,
        buffer_after(entries, e) == entries.push(e).skip(
            entries.len() + 1 - buffer_after(entries, e).len(),
        ),
{
    if entries.len() >= MAX_LOGS {
        assert(entries.drop_first().push(e) =~= entries.push(e).skip(1));
    } else {
        assert(entries.push(e) =~= entries.push(e).skip(0));
    }
}

} // verus!
