//! The log of the application.
use vstd::prelude::*;

use crate::clock;
use crate::paths;
use crate::paths::RuntimePath;
use crate::text;

verus! {

/// How many entries are kept.
pub const LOG_HISTORY: usize = 500;

/// An entry of the log.
#[derive(Debug)]
pub struct LogEntry {
    pub kind: String,
    pub timestamp: String,
    pub level: String,
    pub logger: String,
    pub message: String,
}

/// An entry of the log.
pub struct EntryModel {
    pub kind: Seq<char>,
    pub timestamp: Seq<char>,
    pub level: Seq<char>,
    pub logger: Seq<char>,
    pub message: Seq<char>,
}

impl View for LogEntry {
    type V = EntryModel;

    open spec fn view(&self) -> EntryModel {
        EntryModel {
            kind: self.kind@,
            timestamp: self.timestamp@,
            level: self.level@,
            logger: self.logger@,
            message: self.message@,
        }
    }
}

pub open spec fn entry_views(entries: Seq<LogEntry>) -> Seq<EntryModel> {
    entries.map_values(|e: LogEntry| e@)
}

/// The entry of a message.
pub open spec fn entry_of(
    timestamp: Seq<char>,
    level: Seq<char>,
    logger: Seq<char>,
    message: Seq<char>,
) -> EntryModel {
    EntryModel { kind: "log"@, timestamp, level, logger, message }
}

/// The line that an entry is written as.
pub open spec fn line_of(entry: EntryModel) -> Seq<char> {
    "["@ + entry.timestamp + "] ["@ + entry.level + "] ["@ + entry.logger + "] "@ + entry.message
}

/// The newest entries of a list.
pub open spec fn newest(entries: Seq<EntryModel>) -> Seq<EntryModel> {
    if entries.len() > LOG_HISTORY {
        entries.drop_first()
    } else {
        entries
    }
}

impl LogEntry {
    /// The line that the entry is written as.
    pub fn line(&self) -> (res: String)
        ensures
            res@ == line_of(self@),
    {
        let mut line = "[".to_owned();
        text::append_text(&mut line, self.timestamp.as_str());
        text::append_text(&mut line, "] [");
        text::append_text(&mut line, self.level.as_str());
        text::append_text(&mut line, "] [");
        text::append_text(&mut line, self.logger.as_str());
        text::append_text(&mut line, "] ");
        text::append_text(&mut line, self.message.as_str());
        line
    }

    fn duplicate(&self) -> (res: LogEntry)
        ensures
            res@ == self@,
    {
        LogEntry {
            kind: self.kind.clone(),
            timestamp: self.timestamp.clone(),
            level: self.level.clone(),
            logger: self.logger.clone(),
            message: self.message.clone(),
        }
    }
}

/// Keeps the newest entries, and knows where they are written to.
pub struct LogManager {
    logs: Vec<LogEntry>,
    runtime_root: RuntimePath,
}

impl LogManager {
    /// The entries kept, the oldest first.
    pub closed spec fn entries(self) -> Seq<EntryModel> {
        entry_views(self.logs@)
    }

    pub closed spec fn root(self) -> paths::PathModel {
        self.runtime_root@
    }

    pub fn new(runtime_root: RuntimePath) -> (res: LogManager)
        ensures
            res.entries() == Seq::<EntryModel>::empty(),
            res.root() == runtime_root@,
    {
        let res = LogManager { logs: Vec::new(), runtime_root };
        assert(entry_views(res.logs@) == Seq::<EntryModel>::empty());
        res
    }

    /// The file that the log is written to. It stands below the root of the
    /// runtime, wherever the program was started from.
    pub fn log_path(&self) -> (res: RuntimePath)
        ensures
            res@ == self.root().join("data"@).join("app.log"@),
    {
        self.runtime_root.join("data").join("app.log")
    }

    /// Logs a message at a time, and gives back its entry.
    pub fn log_at(
        &mut self,
        level: &str,
        logger_name: &str,
        message: &str,
        timestamp: &str,
    ) -> (res: LogEntry)
        ensures
            res@ == entry_of(timestamp@, level@, logger_name@, message@),
            final(self).entries() == newest(old(self).entries().push(res@)),
            final(self).root() == old(self).root(),
    {
        let entry = LogEntry {
            kind: "log".to_owned(),
            timestamp: timestamp.to_owned(),
            level: level.to_owned(),
            logger: logger_name.to_owned(),
            message: message.to_owned(),
        };
        let ghost before = self.logs@;
        self.logs.push(entry.duplicate());
        let ghost pushed = self.logs@;
        assert(entry_views(pushed) == entry_views(before).push(entry@));
        if self.logs.len() > LOG_HISTORY {
            self.logs.remove(0);
            assert(self.logs@ == pushed.remove(0));
            assert(entry_views(self.logs@) == entry_views(pushed).drop_first());
        }
        entry
    }

    /// Logs a message at the time on the clock, and gives back its entry.
    pub fn log(&mut self, level: &str, logger_name: &str, message: &str) -> (res: LogEntry)
        ensures
            clock::is_log_time(res@.timestamp),
            res@ == entry_of(res@.timestamp, level@, logger_name@, message@),
            final(self).entries() == newest(old(self).entries().push(res@)),
            final(self).root() == old(self).root(),
    {
        let timestamp = clock::log_time_now();
        self.log_at(level, logger_name, message, timestamp.as_str())
    }

    pub fn info(&mut self, logger_name: &str, message: &str) -> (res: LogEntry)
        ensures
            clock::is_log_time(res@.timestamp),
            res@ == entry_of(res@.timestamp, "INFO"@, logger_name@, message@),
            final(self).entries() == newest(old(self).entries().push(res@)),
            final(self).root() == old(self).root(),
    {
        self.log("INFO", logger_name, message)
    }

    pub fn warn(&mut self, logger_name: &str, message: &str) -> (res: LogEntry)
        ensures
            clock::is_log_time(res@.timestamp),
            res@ == entry_of(res@.timestamp, "WARNING"@, logger_name@, message@),
            final(self).entries() == newest(old(self).entries().push(res@)),
            final(self).root() == old(self).root(),
    {
        self.log("WARNING", logger_name, message)
    }

    pub fn error(&mut self, logger_name: &str, message: &str) -> (res: LogEntry)
        ensures
            clock::is_log_time(res@.timestamp),
            res@ == entry_of(res@.timestamp, "ERROR"@, logger_name@, message@),
            final(self).entries() == newest(old(self).entries().push(res@)),
            final(self).root() == old(self).root(),
    {
        self.log("ERROR", logger_name, message)
    }

    pub fn debug(&mut self, logger_name: &str, message: &str) -> (res: LogEntry)
        ensures
            clock::is_log_time(res@.timestamp),
            res@ == entry_of(res@.timestamp, "DEBUG"@, logger_name@, message@),
            final(self).entries() == newest(old(self).entries().push(res@)),
            final(self).root() == old(self).root(),
    {
        self.log("DEBUG", logger_name, message)
    }

    /// The entries kept, the oldest first.
    pub fn get_logs(&self) -> (res: Vec<LogEntry>)
        ensures
            entry_views(res@) == self.entries(),
    {
        let ghost all = entry_views(self.logs@);
        let mut res: Vec<LogEntry> = Vec::new();
        let mut i: usize = 0;
        while i < self.logs.len()
            invariant
                i <= self.logs@.len(),
                all == entry_views(self.logs@),
                entry_views(res@) == all.take(i as int),
            decreases self.logs@.len() - i,
        {
            let ghost before = res@;
            res.push(self.logs[i].duplicate());
            i += 1;
            assert(entry_views(res@) == entry_views(before).push(all[i - 1]));
            assert(all.take(i as int) == all.take(i - 1).push(all[i - 1]));
        }
        assert(all.take(i as int) == all);
        res
    }

    /// Forgets all entries.
    pub fn clear(&mut self)
        ensures
            final(self).entries() == Seq::<EntryModel>::empty(),
            final(self).root() == old(self).root(),
    {
        self.logs = Vec::new();
        assert(entry_views(self.logs@) == Seq::<EntryModel>::empty());
    }
}

/// The history never grows beyond its limit, and always ends with the newest
/// entry.
pub proof fn law_the_history_is_bounded(entries: Seq<EntryModel>, entry: EntryModel)
    requires
        entries.len() <= LOG_HISTORY,
    ensures
        0 < newest(entries.push(entry)).len() <= LOG_HISTORY,
        newest(entries.push(entry)).last() == entry,
{
}

/// The log of the whole program, once there is one.
pub struct GlobalLogger {
    manager: Option<LogManager>,
}

impl GlobalLogger {
    pub closed spec fn manager(self) -> Option<LogManager> {
        self.manager
    }

    pub fn new() -> (res: GlobalLogger)
        ensures
            res.manager() is None,
    {
        GlobalLogger { manager: None }
    }
}

/// Sets the log of the whole program. The first one stays.
pub fn set_global_logger(global: &mut GlobalLogger, manager: LogManager)
    ensures
        old(global).manager() is None ==> final(global).manager() == Some(manager),
        old(global).manager() is Some ==> final(global).manager() == old(global).manager(),
{
    if global.manager.is_none() {
        global.manager = Some(manager);
    }
}

/// What logging a message comes to: the line that is printed, and the log after
/// it.
pub open spec fn globally_logged(
    before: Option<LogManager>,
    after: Option<LogManager>,
    line: Seq<char>,
    level: Seq<char>,
    logger: Seq<char>,
    message: Seq<char>,
    timestamp: Seq<char>,
) -> bool {
    match before {
        Some(manager) => {
            let entry = entry_of(timestamp, level, logger, message);
            &&& after is Some
            &&& after->0.entries() == newest(manager.entries().push(entry))
            &&& after->0.root() == manager.root()
            &&& line == line_of(entry)
        },
        None => after is None && line == "["@ + level + "] ["@ + logger + "] "@ + message,
    }
}

/// Logs a message at a time where there is a log, and gives back the line to
/// print.
pub fn global_log_at(
    global: &mut GlobalLogger,
    level: &str,
    logger_name: &str,
    message: &str,
    timestamp: &str,
) -> (res: String)
    ensures
        globally_logged(
            old(global).manager(),
            final(global).manager(),
            res@,
            level@,
            logger_name@,
            message@,
            timestamp@,
        ),
{
    match global.manager.take() {
        Some(found) => {
            let mut manager = found;
            let entry = manager.log_at(level, logger_name, message, timestamp);
            global.manager = Some(manager);
            entry.line()
        },
        None => {
            let mut line = "[".to_owned();
            text::append_text(&mut line, level);
            text::append_text(&mut line, "] [");
            text::append_text(&mut line, logger_name);
            text::append_text(&mut line, "] ");
            text::append_text(&mut line, message);
            line
        },
    }
}

/// Logs a message at the time on the clock where there is a log, and gives back
/// the line to print.
pub fn global_log(global: &mut GlobalLogger, level: &str, logger_name: &str, message: &str) -> (res: String)
    ensures
        exists|t: Seq<char>| #[trigger]
            clock::is_log_time(t) && globally_logged(
                old(global).manager(),
                final(global).manager(),
                res@,
                level@,
                logger_name@,
                message@,
                t,
            ),
{
    let timestamp = clock::log_time_now();
    let line = global_log_at(global, level, logger_name, message, timestamp.as_str());
    assert(clock::is_log_time(timestamp@));
    line
}

pub fn global_info(global: &mut GlobalLogger, logger_name: &str, message: &str) -> (res: String)
    ensures
        exists|t: Seq<char>| #[trigger]
            clock::is_log_time(t) && globally_logged(
                old(global).manager(),
                final(global).manager(),
                res@,
                "INFO"@,
                logger_name@,
                message@,
                t,
            ),
{
    global_log(global, "INFO", logger_name, message)
}

pub fn global_warn(global: &mut GlobalLogger, logger_name: &str, message: &str) -> (res: String)
    ensures
        exists|t: Seq<char>| #[trigger]
            clock::is_log_time(t) && globally_logged(
                old(global).manager(),
                final(global).manager(),
                res@,
                "WARNING"@,
                logger_name@,
                message@,
                t,
            ),
{
    global_log(global, "WARNING", logger_name, message)
}

pub fn global_error(global: &mut GlobalLogger, logger_name: &str, message: &str) -> (res: String)
    ensures
        exists|t: Seq<char>| #[trigger]
            clock::is_log_time(t) && globally_logged(
                old(global).manager(),
                final(global).manager(),
                res@,
                "ERROR"@,
                logger_name@,
                message@,
                t,
            ),
{
    global_log(global, "ERROR", logger_name, message)
}

pub fn global_debug(global: &mut GlobalLogger, logger_name: &str, message: &str) -> (res: String)
    ensures
        exists|t: Seq<char>| #[trigger]
            clock::is_log_time(t) && globally_logged(
                old(global).manager(),
                final(global).manager(),
                res@,
                "DEBUG"@,
                logger_name@,
                message@,
                t,
            ),
{
    global_log(global, "DEBUG", logger_name, message)
}

/// A new entry comes last, and pushes out the oldest one where there are five
/// hundred already; the others keep their order.
pub proof fn law_the_newest_entries_are_kept(entries: Seq<EntryModel>, entry: EntryModel)
    ensures
        newest(entries.push(entry)).last() == entry,
        entries.len() < 500 ==> newest(entries.push(entry)) == entries.push(entry),
        entries.len() == 500 ==> newest(entries.push(entry)) == entries.drop_first().push(entry),
        entries.len() <= 500 ==> newest(entries) == entries,
{
    assert(entries.len() == 500 ==> entries.push(entry).drop_first()
        == entries.drop_first().push(entry));
}

/// A line shows the time, the level and the origin of an entry in brackets, and
/// then its message.
pub proof fn law_lines_show_the_whole_entry(
    timestamp: Seq<char>,
    level: Seq<char>,
    logger: Seq<char>,
    message: Seq<char>,
)
    ensures
        entry_of(timestamp, level, logger, message).timestamp == timestamp,
        entry_of(timestamp, level, logger, message).level == level,
        entry_of(timestamp, level, logger, message).logger == logger,
        entry_of(timestamp, level, logger, message).message == message,
        entry_of(timestamp, level, logger, message).kind == "log"@,
        line_of(entry_of(timestamp, level, logger, message)) == "["@ + timestamp + "] ["@ + level
            + "] ["@ + logger + "] "@ + message,
{
}

/// A message that is logged is the last entry of the log and the line that is
/// printed, with its level, its logger and its text; without a log it is
/// printed alone.
pub proof fn law_logged_messages_are_kept(
    before: Option<LogManager>,
    after: Option<LogManager>,
    line: Seq<char>,
    level: Seq<char>,
    logger: Seq<char>,
    message: Seq<char>,
    timestamp: Seq<char>,
)
    requires
        globally_logged(before, after, line, level, logger, message, timestamp),
    ensures
        after is Some == before is Some,
        after is Some ==> {
            let last = after->0.entries().last();
            &&& after->0.entries().len() > 0
            &&& last.kind == "log"@
            &&& last.level == level
            &&& last.logger == logger
            &&& last.message == message
            &&& last.timestamp == timestamp
            &&& after->0.root() == before->0.root()
            &&& line == "["@ + timestamp + "] ["@ + level + "] ["@ + logger + "] "@ + message
        },
        after is None ==> line == "["@ + level + "] ["@ + logger + "] "@ + message,
{
}

} // verus!
