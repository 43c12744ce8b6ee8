//! Log entries: the records, the store, and its listing, statistics and
//! intake.

use vstd::prelude::*;
use crate::clock::read_clock;
use crate::journal::{
    distinct_labels, entries, first_unused, has_label, labels, Journal, Labeled,
};
use crate::query::{count, lemma_count_next};
use crate::text::{copy_opt_text, opt_text};

verus! {

/// How grave an entry is.
#[derive(Debug, Clone, Copy, PartialEq, Eq, Structural)]
pub enum LogLevel {
    Info,
    Warning,
    Error,
    Debug,
    Success,
}

/// The part of the system an entry is about.
#[derive(Debug, Clone, Copy, PartialEq, Eq, Structural)]
pub enum LogCategory {
    System,
    Database,
    Security,
    Api,
    User,
    Network,
}

/// A log entry.
#[derive(Debug)]
pub struct LogEntry {
    pub id: String,
    pub timestamp: String,
    pub level: LogLevel,
    pub category: LogCategory,
    pub message: String,
    pub details: Option<String>,
    pub ip: Option<String>,
    pub user: Option<String>,
    pub source: String,
}

/// What a log entry holds, as mathematical values.
pub struct LogEntryView {
    pub id: Seq<char>,
    pub timestamp: Seq<char>,
    pub level: LogLevel,
    pub category: LogCategory,
    pub message: Seq<char>,
    pub details: Option<Seq<char>>,
    pub ip: Option<Seq<char>>,
    pub user: Option<Seq<char>>,
    pub source: Seq<char>,
}

impl View for LogEntry {
    type V = LogEntryView;

    open spec fn view(&self) -> LogEntryView {
        LogEntryView {
            id: self.id@,
            timestamp: self.timestamp@,
            level: self.level,
            category: self.category,
            message: self.message@,
            details: opt_text(self.details),
            ip: opt_text(self.ip),
            user: opt_text(self.user),
            source: self.source@,
        }
    }
}

impl Clone for LogEntry {
    fn clone(&self) -> (r: Self)
        ensures
            r@ == self@,
    {
        LogEntry {
            id: self.id.clone(),
            timestamp: self.timestamp.clone(),
            level: self.level,
            category: self.category,
            message: self.message.clone(),
            details: copy_opt_text(&self.details),
            ip: copy_opt_text(&self.ip),
            user: copy_opt_text(&self.user),
            source: self.source.clone(),
        }
    }
}

impl Labeled for LogEntry {
    open spec fn label_of(m: LogEntryView) -> Seq<char> {
        m.id
    }

    fn label(&self) -> (l: &String) {
        &self.id
    }

    fn duplicate(&self) -> (r: Self) {
        self.clone()
    }
}

/// An entry as it is taken in: the entry sent, under a new identifier.
pub open spec fn relabelled(m: LogEntryView, id: Seq<char>) -> LogEntryView {
    LogEntryView {
        id,
        timestamp: m.timestamp,
        level: m.level,
        category: m.category,
        message: m.message,
        details: m.details,
        ip: m.ip,
        user: m.user,
        source: m.source,
    }
}

/// The first sample entry.
pub open spec fn sample_database_error() -> LogEntryView {
    LogEntryView {
        id: "1"@,
        timestamp: "2024-01-15 14:32:15"@,
        level: LogLevel::Error,
        category: LogCategory::Database,
        message: "Ошибка подключения к базе данных"@,
        details: Some("Connection timeout after 30 seconds. Host: db.example.com:5432"@),
        ip: None,
        user: None,
        source: "DatabaseConnector.rs:45"@,
    }
}

/// The second sample entry.
pub open spec fn sample_failed_login() -> LogEntryView {
    LogEntryView {
        id: "2"@,
        timestamp: "2024-01-15 14:31:42"@,
        level: LogLevel::Warning,
        category: LogCategory::Security,
        message: "Неудачная попытка входа"@,
        details: Some("Invalid password for user: admin"@),
        ip: Some("192.168.1.100"@),
        user: Some("admin"@),
        source: "AuthService.rs:120"@,
    }
}

/// The log entries, newest first.
pub struct LogsStore {
    inner: Journal<LogEntry>,
}

impl View for LogsStore {
    type V = Seq<LogEntryView>;

    closed spec fn view(&self) -> Seq<LogEntryView> {
        self.inner@
    }
}

impl Default for LogsStore {
    /// A store without entries.
    fn default() -> (store: Self)
        ensures
            store@ == Seq::<LogEntryView>::empty(),
    {
        Self::new()
    }
}

impl LogsStore {
    /// A store without entries.
    pub fn new() -> (store: Self)
        ensures
            store@ == Seq::<LogEntryView>::empty(),
    {
        LogsStore { inner: Journal::new() }
    }

    /// The store with its two sample entries.
    pub fn new_mock() -> (store: Self)
        ensures
            store@ == seq![sample_database_error(), sample_failed_login()],
            distinct_labels::<LogEntry>(store@),
    {
        let first = LogEntry {
            id: "1".to_owned(),
            timestamp: "2024-01-15 14:32:15".to_owned(),
            level: LogLevel::Error,
            category: LogCategory::Database,
            message: "Ошибка подключения к базе данных".to_owned(),
            details: Some(
                "Connection timeout after 30 seconds. Host: db.example.com:5432".to_owned(),
            ),
            ip: None,
            user: None,
            source: "DatabaseConnector.rs:45".to_owned(),
        };
        let second = LogEntry {
            id: "2".to_owned(),
            timestamp: "2024-01-15 14:31:42".to_owned(),
            level: LogLevel::Warning,
            category: LogCategory::Security,
            message: "Неудачная попытка входа".to_owned(),
            details: Some("Invalid password for user: admin".to_owned()),
            ip: Some("192.168.1.100".to_owned()),
            user: Some("admin".to_owned()),
            source: "AuthService.rs:120".to_owned(),
        };
        proof {
            reveal_strlit("1");
            reveal_strlit("2");
            assert("1"@[0] != "2"@[0]);
        }
        let mut inner: Journal<LogEntry> = Journal::new();
        let ghost first_model = first@;
        let ghost second_model = second@;
        let put_first = inner.put_back(first);
        assert(put_first is Ok);
        assert(inner@ =~= seq![first_model]);
        assert(!has_label::<LogEntry>(inner@, "2"@)) by {
            if has_label::<LogEntry>(inner@, "2"@) {
                let i = choose|i: int|
                    0 <= i < inner@.len() && LogEntry::label_of(#[trigger] inner@[i]) == "2"@;
                assert(inner@[i] == first_model);
            }
        }
        let put_second = inner.put_back(second);
        assert(put_second is Ok);
        assert(inner@ =~= seq![first_model, second_model]);
        LogsStore { inner }
    }

    /// The number of entries.
    pub fn len(&self) -> (n: usize)
        ensures
            n == self@.len(),
            distinct_labels::<LogEntry>(self@),
    {
        self.inner.len()
    }

    /// Takes an entry in at the millisecond count `millis`: gives it the
    /// first unused identifier from that count upwards, puts it in front and
    /// hands back a copy. The identifier that the entry came with is dropped.
    pub fn push(&mut self, millis: i64, log: LogEntry) -> (entry: LogEntry)
        ensures
            first_unused(labels::<LogEntry>(old(self)@), millis, entry.id@),
            !has_label::<LogEntry>(old(self)@, entry.id@),
            entry@ == relabelled(log@, entry.id@),
            final(self)@ == seq![entry@] + old(self)@,
            labels::<LogEntry>(final(self)@) == labels::<LogEntry>(old(self)@).insert(entry.id@),
            distinct_labels::<LogEntry>(final(self)@),
    {
        let id = self.inner.unused_label(millis);
        let entry = LogEntry {
            id,
            timestamp: log.timestamp,
            level: log.level,
            category: log.category,
            message: log.message,
            details: log.details,
            ip: log.ip,
            user: log.user,
            source: log.source,
        };
        let copy = entry.clone();
        let put = self.inner.put_front(entry);
        assert(put is Ok);
        copy
    }
}

/// A copy of all entries, newest first.
pub fn list_logs(store: &LogsStore) -> (all: Vec<LogEntry>)
    ensures
        entries::<LogEntry>(all@) == store@,
{
    store.inner.snapshot()
}

/// How many entries there are, and how many are errors, warnings and
/// informational.
#[derive(Debug, Clone, Copy, PartialEq, Eq, Structural)]
pub struct Stats {
    pub total: usize,
    pub errors: usize,
    pub warnings: usize,
    pub info: usize,
}

/// The test that an entry has a given level.
pub open spec fn at_level(level: LogLevel) -> spec_fn(LogEntryView) -> bool {
    |e: LogEntryView| e.level == level
}

/// Counts the entries, and the errors, warnings and informational ones among
/// them.
pub fn logs_stats(store: &LogsStore) -> (stats: Stats)
    ensures
        stats.total == store@.len(),
        stats.errors == count(store@, at_level(LogLevel::Error)),
        stats.warnings == count(store@, at_level(LogLevel::Warning)),
        stats.info == count(store@, at_level(LogLevel::Info)),
{
    let items = store.inner.records();
    let ghost all = store@;
    let mut errors: usize = 0;
    let mut warnings: usize = 0;
    let mut info: usize = 0;
    let mut i: usize = 0;
    assert(all.take(0) =~= Seq::<LogEntryView>::empty());
    assert(Seq::<LogEntryView>::empty().filter(at_level(LogLevel::Error)).len() == 0
        && Seq::<LogEntryView>::empty().filter(at_level(LogLevel::Warning)).len() == 0
        && Seq::<LogEntryView>::empty().filter(at_level(LogLevel::Info)).len() == 0) by {
        reveal(Seq::filter);
    }
    while i < items.len()
        invariant
            i <= items.len(),
            all == entries::<LogEntry>(items@),
            errors == count(all.take(i as int), at_level(LogLevel::Error)),
            warnings == count(all.take(i as int), at_level(LogLevel::Warning)),
            info == count(all.take(i as int), at_level(LogLevel::Info)),
        decreases items.len() - i,
    {
        proof {
            lemma_count_next(all, at_level(LogLevel::Error), i as int);
            lemma_count_next(all, at_level(LogLevel::Warning), i as int);
            lemma_count_next(all, at_level(LogLevel::Info), i as int);
        }
        match items[i].level {
            LogLevel::Error => {
                errors += 1;
            },
            LogLevel::Warning => {
                warnings += 1;
            },
            LogLevel::Info => {
                info += 1;
            },
            _ => {},
        }
        i += 1;
    }
    assert(all.take(i as int) =~= all);
    Stats { total: items.len(), errors, warnings, info }
}

/// Takes an entry in at the clock's reading: gives it an identifier that no
/// entry had, made from the millisecond count, and puts it in front of the
/// others. The rest of the entry stays as it was sent.
pub fn push_log(store: &mut LogsStore, log: LogEntry) -> (entry: LogEntry)
    ensures
        exists|millis: i64| #[trigger] first_unused(labels::<LogEntry>(old(store)@), millis, entry.id@),
        !has_label::<LogEntry>(old(store)@, entry.id@),
        entry@ == relabelled(log@, entry.id@),
        final(store)@ == seq![entry@] + old(store)@,
        labels::<LogEntry>(final(store)@) == labels::<LogEntry>(old(store)@).insert(entry.id@),
        distinct_labels::<LogEntry>(final(store)@),
{
    let now = read_clock();
    store.push(now.millis, log)
}

} // verus!
