//! The logger that feeds the log store: which records pass the level filter, and the
//! line that a record becomes.

use vstd::prelude::*;
use vstd::string::StringExecFns;
use crate::logstore::LogStore;
use crate::text::string_from;

verus! {

/// The level of a log record, from the most to the least severe.
#[derive(Clone, Copy, PartialEq, Eq, Debug, Structural)]
pub enum Level {
    Error,
    Warn,
    Info,
    Debug,
    Trace,
}

/// The most verbose level that a logger passes, or none.
#[derive(Clone, Copy, PartialEq, Eq, Debug, Structural)]
pub enum LevelFilter {
    Off,
    Error,
    Warn,
    Info,
    Debug,
    Trace,
}

/// The rank of a level: 1 for `Error` up to 5 for `Trace`.
pub open spec fn level_rank(l: Level) -> nat {
    match l {
        Level::Error => 1,
        Level::Warn => 2,
        Level::Info => 3,
        Level::Debug => 4,
        Level::Trace => 5,
    }
}

/// The rank of a filter: 0 for `Off` up to 5 for `Trace`.
pub open spec fn filter_rank(f: LevelFilter) -> nat {
    match f {
        LevelFilter::Off => 0,
        LevelFilter::Error => 1,
        LevelFilter::Warn => 2,
        LevelFilter::Info => 3,
        LevelFilter::Debug => 4,
        LevelFilter::Trace => 5,
    }
}

fn level_rank_of(l: Level) -> (r: u8)
    ensures
        r == level_rank(l),
{
    match l {
        Level::Error => 1,
        Level::Warn => 2,
        Level::Info => 3,
        Level::Debug => 4,
        Level::Trace => 5,
    }
}

fn filter_rank_of(f: LevelFilter) -> (r: u8)
    ensures
        r == filter_rank(f),
{
    match f {
        LevelFilter::Off => 0,
        LevelFilter::Error => 1,
        LevelFilter::Warn => 2,
        LevelFilter::Info => 3,
        LevelFilter::Debug => 4,
        LevelFilter::Trace => 5,
    }
}

/// A record of `level` passes `filter` when it is at least as severe.
pub fn enabled(level: Level, filter: LevelFilter) -> (r: bool)
    ensures
        r == (level_rank(level) <= filter_rank(filter)),
{
    level_rank_of(level) <= filter_rank_of(filter)
}

/// Severity is strictly ordered `Error`, `Warn`, `Info`, `Debug`, `Trace`, and a
/// filter passes the records of its own level and every more severe one, and no record
/// of its level passes the next stricter filter; `Off` passes nothing and `Trace`
/// passes everything.
pub proof fn law_level_filters_follow_severity(l: Level, f: LevelFilter)
    ensures
        level_rank(Level::Error) < level_rank(Level::Warn) < level_rank(Level::Info) < level_rank(Level::Debug)
            < level_rank(Level::Trace),
        filter_rank(LevelFilter::Off) < filter_rank(LevelFilter::Error) < filter_rank(LevelFilter::Warn)
            < filter_rank(LevelFilter::Info) < filter_rank(LevelFilter::Debug) < filter_rank(LevelFilter::Trace),
        level_rank(Level::Error) <= filter_rank(LevelFilter::Error),
        level_rank(Level::Warn) <= filter_rank(LevelFilter::Warn),
        level_rank(Level::Info) <= filter_rank(LevelFilter::Info),
        level_rank(Level::Debug) <= filter_rank(LevelFilter::Debug),
        level_rank(Level::Trace) <= filter_rank(LevelFilter::Trace),
        !(level_rank(Level::Warn) <= filter_rank(LevelFilter::Error)),
        !(level_rank(Level::Info) <= filter_rank(LevelFilter::Warn)),
        !(level_rank(Level::Debug) <= filter_rank(LevelFilter::Info)),
        !(level_rank(Level::Trace) <= filter_rank(LevelFilter::Debug)),
        !(level_rank(l) <= filter_rank(LevelFilter::Off)),
        level_rank(l) <= filter_rank(LevelFilter::Trace),
        level_rank(l) <= filter_rank(f) && f != LevelFilter::Trace ==> level_rank(l) <= filter_rank(
            match f {
                LevelFilter::Off => LevelFilter::Error,
                LevelFilter::Error => LevelFilter::Warn,
                LevelFilter::Warn => LevelFilter::Info,
                LevelFilter::Info => LevelFilter::Debug,
                _ => LevelFilter::Trace,
            },
        ),
{
}

/// The level's name: `ERROR`, `WARN`, `INFO`, `DEBUG` or `TRACE`.
pub open spec fn level_name_of(l: Level) -> Seq<char> {
    match l {
        Level::Error => "ERROR"@,
        Level::Warn => "WARN"@,
        Level::Info => "INFO"@,
        Level::Debug => "DEBUG"@,
        Level::Trace => "TRACE"@,
    }
}

/// The level's name.
pub fn level_name(l: Level) -> (r: &'static str)
    ensures
        r@ == level_name_of(l),
{
    match l {
        Level::Error => "ERROR",
        Level::Warn => "WARN",
        Level::Info => "INFO",
        Level::Debug => "DEBUG",
        Level::Trace => "TRACE",
    }
}

/// The line stored for a record: `[<LEVEL> <target>] <message>`.
pub fn format_record(level: Level, target: &str, message: &str) -> (r: String)
    ensures
        r@ == "["@ + level_name_of(level) + " "@ + target@ + "] "@ + message@,
{
    let mut r = string_from("[");
    r.append(level_name(level));
    r.append(" ");
    r.append(target);
    r.append("] ");
    r.append(message);
    r
}

/// The logger's settings: the capacity of the store's buffer, the level filter,
/// whether records also go to standard output, and the log file, if any.
pub struct LoggerConfig {
    pub buf_capacity: usize,
    pub level: LevelFilter,
    pub with_stdout: bool,
    pub log_path: Option<String>,
}

/// The logger that keeps records in a [`LogStore`].
pub struct AkaLogger;

impl AkaLogger {
    /// The store that a logger with `config` writes to: empty, with the configured
    /// buffer capacity and log file.
    pub fn new_store(config: &LoggerConfig) -> (r: LogStore)
        ensures
            r@.archive == Seq::<String>::empty(),
            r@.buffer == Seq::<String>::empty(),
            r@.capacity == config.buf_capacity,
            r.log_path_spec() == match &config.log_path {
                Some(p) => Some(p@),
                None => None,
            },
    {
        match &config.log_path {
            Some(p) => LogStore::with_log_path(config.buf_capacity, p.clone()),
            None => LogStore::new(config.buf_capacity),
        }
    }

    /// Stores the record in `store` when it passes `filter`; returns the lines that the
    /// store flushed, for the log file.
    pub fn log(store: &mut LogStore, filter: LevelFilter, level: Level, target: &str, message: &str) -> (flushed: Vec<String>)
        ensures
            !(level_rank(level) <= filter_rank(filter)) ==> final(store)@ == old(store)@ && flushed@.len() == 0,
            level_rank(level) <= filter_rank(filter) ==> exists|line: String|
                line@ == "["@ + level_name_of(level) + " "@ + target@ + "] "@ + message@
                && #[trigger] old(store)@.push(line) == final(store)@ && flushed@ == old(store)@.flushed_by_push(),
            final(store).log_path_spec() == old(store).log_path_spec(),
    {
        if !enabled(level, filter) {
            return Vec::new();
        }
        let line = format_record(level, target, message);
        store.push(line)
    }
}

} // verus!
