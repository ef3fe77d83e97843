//! Logs, event streams, security audit, and operation history.

use vstd::prelude::*;

use crate::list;
use crate::text;
use crate::text::{
    ascii_lowercase, same_text, split_up_to, starts_with, strip_prefix, trim,
};

verus! {

#[derive(Clone, Copy, Debug, PartialEq, Eq, PartialOrd, Ord, Structural)]
pub enum LogLevel {
    Trace,
    Debug,
    Info,
    Warn,
    Error,
}

/// The level that a name stands for, ASCII case aside.
pub open spec fn level_named(name: Seq<char>) -> Option<LogLevel> {
    let lower = text::ascii_lower(name);
    if lower == "trace"@ {
        Some(LogLevel::Trace)
    } else if lower == "debug"@ {
        Some(LogLevel::Debug)
    } else if lower == "info"@ {
        Some(LogLevel::Info)
    } else if lower == "warn"@ || lower == "warning"@ {
        Some(LogLevel::Warn)
    } else if lower == "error"@ {
        Some(LogLevel::Error)
    } else {
        None
    }
}

impl LogLevel {
    /// How severe a level is.
    pub open spec fn severity(self) -> int {
        match self {
            LogLevel::Trace => 0,
            LogLevel::Debug => 1,
            LogLevel::Info => 2,
            LogLevel::Warn => 3,
            LogLevel::Error => 4,
        }
    }

    pub fn parse(value: &str) -> (r: Option<Self>)
        ensures
            r == level_named(value@),
    {
        let lower = ascii_lowercase(value);
        let name = lower.as_str();
        if same_text(name, "trace") {
            Some(LogLevel::Trace)
        } else if same_text(name, "debug") {
            Some(LogLevel::Debug)
        } else if same_text(name, "info") {
            Some(LogLevel::Info)
        } else if same_text(name, "warn") || same_text(name, "warning") {
            Some(LogLevel::Warn)
        } else if same_text(name, "error") {
            Some(LogLevel::Error)
        } else {
            None
        }
    }

    /// The text of [`LogLevel::label`].
    pub open spec fn label_text(self) -> Seq<char> {
        match self {
            Self::Trace => "TRACE"@,
            Self::Debug => "DEBUG"@,
            Self::Info => "INFO"@,
            Self::Warn => "WARN"@,
            Self::Error => "ERROR"@,
        }
    }

    pub fn label(self) -> (r: &'static str)
        ensures
            r@ == self.label_text(),
    {
        match self {
            Self::Trace => "TRACE",
            Self::Debug => "DEBUG",
            Self::Info => "INFO",
            Self::Warn => "WARN",
            Self::Error => "ERROR",
        }
    }

    fn rank(self) -> (r: u8)
        ensures
            r == self.severity(),
    {
        match self {
            LogLevel::Trace => 0,
            LogLevel::Debug => 1,
            LogLevel::Info => 2,
            LogLevel::Warn => 3,
            LogLevel::Error => 4,
        }
    }
}

/// The label of a level names that level.
pub proof fn level_label_round_trip(level: LogLevel)
    ensures
        level_named(level.label_text()) == Some(level),
{
    reveal_strlit("TRACE");
    reveal_strlit("DEBUG");
    reveal_strlit("INFO");
    reveal_strlit("WARN");
    reveal_strlit("ERROR");
    reveal_strlit("trace");
    reveal_strlit("debug");
    reveal_strlit("info");
    reveal_strlit("warn");
    reveal_strlit("warning");
    reveal_strlit("error");
    let lower = text::ascii_lower(level.label_text());
    match level {
        LogLevel::Trace => {
            assert(lower =~= "trace"@);
        },
        LogLevel::Debug => {
            assert(lower =~= "debug"@);
            assert(lower[0] == 'd' && "trace"@[0] == 't');
        },
        LogLevel::Info => {
            assert(lower =~= "info"@);
            assert(lower.len() == 4 && "trace"@.len() == 5 && "debug"@.len() == 5);
        },
        LogLevel::Warn => {
            assert(lower =~= "warn"@);
            assert(lower[0] == 'w' && "info"@[0] == 'i');
            assert(lower.len() == 4 && "trace"@.len() == 5 && "debug"@.len() == 5);
        },
        LogLevel::Error => {
            assert(lower =~= "error"@);
            assert(lower[0] == 'e' && "trace"@[0] == 't' && "debug"@[0] == 'd');
            assert(lower.len() == 5 && "info"@.len() == 4 && "warn"@.len() == 4 && "warning"@.len()
                == 7);
        },
    }
}

#[derive(Debug, PartialEq, Eq)]
pub struct LogRow {
    pub level: LogLevel,
    pub target: String,
    pub message: String,
    pub trace_id: Option<String>,
}

impl Clone for LogRow {
    fn clone(&self) -> (r: Self)
        ensures
            r == *self,
    {
        LogRow {
            level: self.level,
            target: self.target.clone(),
            message: self.message.clone(),
            trace_id: self.trace_id.clone(),
        }
    }
}

impl LogRow {
    /// The row with these parts.
    pub open spec fn is(
        self,
        level: LogLevel,
        target: Seq<char>,
        message: Seq<char>,
        trace_id: Option<Seq<char>>,
    ) -> bool {
        &&& self.level == level
        &&& self.target@ == target
        &&& self.message@ == message
        &&& text::opt_text(self.trace_id) == trace_id
    }
}

#[derive(Debug, PartialEq, Eq)]
pub struct SecurityAuditRow {
    pub action: String,
    pub actor: String,
    pub outcome: String,
    pub trace_id: Option<String>,
}

impl Clone for SecurityAuditRow {
    fn clone(&self) -> (r: Self)
        ensures
            r == *self,
    {
        SecurityAuditRow {
            action: self.action.clone(),
            actor: self.actor.clone(),
            outcome: self.outcome.clone(),
            trace_id: self.trace_id.clone(),
        }
    }
}

#[derive(Debug, PartialEq, Eq)]
pub struct OperationHistoryRow {
    pub operation: String,
    pub target: String,
    pub status: String,
    pub result: String,
}

impl Clone for OperationHistoryRow {
    fn clone(&self) -> (r: Self)
        ensures
            r == *self,
    {
        OperationHistoryRow {
            operation: self.operation.clone(),
            target: self.target.clone(),
            status: self.status.clone(),
            result: self.result.clone(),
        }
    }
}

#[derive(Clone, Copy, Debug, PartialEq, Eq)]
pub struct EventStreamState {
    pub source: &'static str,
    pub enabled: bool,
    pub fallback: &'static str,
}

#[derive(Debug, PartialEq, Eq)]
pub struct AuditViewModel {
    pub logs: Vec<LogRow>,
    pub security: Vec<SecurityAuditRow>,
    pub events: EventStreamState,
}

impl Clone for AuditViewModel {
    fn clone(&self) -> (r: Self)
        ensures
            r.logs@ == self.logs@,
            r.security@ == self.security@,
            r.events == self.events,
    {
        let r = AuditViewModel {
            logs: self.logs.clone(),
            security: self.security.clone(),
            events: self.events,
        };
        assert(r.logs@ =~= self.logs@);
        assert(r.security@ =~= self.security@);
        r
    }
}

/// The row is at least this severe and comes from a target with this prefix.
pub open spec fn passes(row: LogRow, min_level: LogLevel, target_prefix: Seq<char>) -> bool {
    row.level.severity() >= min_level.severity() && target_prefix.is_prefix_of(row.target@)
}

/// The row belongs to a trace.
pub open spec fn of_trace(row: LogRow, trace_id: Seq<char>) -> bool {
    text::opt_text(row.trace_id) == Some(trace_id)
}

impl AuditViewModel {
    pub fn demo() -> (r: Self)
        ensures
            r.logs@.len() == 2,
            r.logs@[0].is(
                LogLevel::Info,
                "ndn_fwd::mgmt"@,
                "faces/list satisfied"@,
                Some("trace-a1"@),
            ),
            r.logs@[1].is(
                LogLevel::Warn,
                "ndn_security::validator"@,
                "schema fallback used"@,
                Some("trace-b7"@),
            ),
            r.security@.len() == 1,
            r.security@[0].action@ == "approve device"@,
            r.security@[0].actor@ == "/local/operator"@,
            r.security@[0].outcome@ == "pending signature"@,
            text::opt_text(r.security@[0].trace_id) == Some("trace-b7"@),
            r.events.source@ == "/localhost/nfd/events"@,
            r.events.enabled,
            r.events.fallback@ == "polling"@,
    {
        AuditViewModel {
            logs: vec![
                LogRow {
                    level: LogLevel::Info,
                    target: "ndn_fwd::mgmt".to_string(),
                    message: "faces/list satisfied".to_string(),
                    trace_id: Some("trace-a1".to_string()),
                },
                LogRow {
                    level: LogLevel::Warn,
                    target: "ndn_security::validator".to_string(),
                    message: "schema fallback used".to_string(),
                    trace_id: Some("trace-b7".to_string()),
                },
            ],
            security: vec![
                SecurityAuditRow {
                    action: "approve device".to_string(),
                    actor: "/local/operator".to_string(),
                    outcome: "pending signature".to_string(),
                    trace_id: Some("trace-b7".to_string()),
                },
            ],
            events: EventStreamState {
                source: "/localhost/nfd/events",
                enabled: true,
                fallback: "polling",
            },
        }
    }

    pub fn filter_logs(&self, min_level: LogLevel, target_prefix: &str) -> (r: Vec<LogRow>)
        ensures
            r@ == self.logs@.filter(|row: LogRow| passes(row, min_level, target_prefix@)),
    {
        let ghost keep = |row: LogRow| passes(row, min_level, target_prefix@);
        let mut out: Vec<LogRow> = Vec::new();
        let mut i: usize = 0;
        proof {
            list::lemma_filter_ends(self.logs@, keep);
        }
        while i < self.logs.len()
            invariant
                i <= self.logs@.len(),
                keep == (|row: LogRow| passes(row, min_level, target_prefix@)),
                out@ == self.logs@.take(i as int).filter(keep),
            decreases self.logs@.len() - i,
        {
            proof {
                list::lemma_filter_next(self.logs@, keep, i as int);
            }
            let row = &self.logs[i];
            if row.level.rank() >= min_level.rank() && starts_with(
                row.target.as_str(),
                target_prefix,
            ) {
                out.push(row.clone());
            }
            i = i + 1;
        }
        proof {
            list::lemma_filter_ends(self.logs@, keep);
        }
        out
    }

    pub fn logs_for_trace(&self, trace_id: &str) -> (r: Vec<LogRow>)
        ensures
            r@ == self.logs@.filter(|row: LogRow| of_trace(row, trace_id@)),
    {
        let ghost keep = |row: LogRow| of_trace(row, trace_id@);
        let mut out: Vec<LogRow> = Vec::new();
        let mut i: usize = 0;
        proof {
            list::lemma_filter_ends(self.logs@, keep);
        }
        while i < self.logs.len()
            invariant
                i <= self.logs@.len(),
                keep == (|row: LogRow| of_trace(row, trace_id@)),
                out@ == self.logs@.take(i as int).filter(keep),
            decreases self.logs@.len() - i,
        {
            proof {
                list::lemma_filter_next(self.logs@, keep, i as int);
            }
            let row = &self.logs[i];
            let hit = match &row.trace_id {
                Some(id) => same_text(id.as_str(), trace_id),
                None => false,
            };
            if hit {
                out.push(row.clone());
            }
            i = i + 1;
        }
        proof {
            list::lemma_filter_ends(self.logs@, keep);
        }
        out
    }
}

/// The lowest level and an empty prefix let every row pass.
pub proof fn weakest_filter_keeps_all(logs: Seq<LogRow>)
    ensures
        logs.filter(|row: LogRow| passes(row, LogLevel::Trace, Seq::empty())) == logs,
{
    let keep = |row: LogRow| passes(row, LogLevel::Trace, Seq::empty());
    assert forall|i: int| 0 <= i < logs.len() implies keep(#[trigger] logs[i]) by {
        assert(Seq::<char>::empty().is_prefix_of(logs[i].target@));
    }
    list::lemma_filter_keeps_all(logs, keep);
}

/// Raising the level afterwards is the same as asking for it at once.
pub proof fn filtering_by_level_composes(
    logs: Seq<LogRow>,
    low: LogLevel,
    high: LogLevel,
    target_prefix: Seq<char>,
)
    requires
        low.severity() <= high.severity(),
    ensures
        logs.filter(|row: LogRow| passes(row, low, target_prefix)).filter(
            |row: LogRow| passes(row, high, target_prefix),
        ) == logs.filter(|row: LogRow| passes(row, high, target_prefix)),
{
    list::lemma_filter_twice(
        logs,
        |row: LogRow| passes(row, low, target_prefix),
        |row: LogRow| passes(row, high, target_prefix),
        |row: LogRow| passes(row, high, target_prefix),
    );
}

/// The pieces of a log line: level, target, trace, and message.
pub open spec fn line_pieces(line: Seq<char>) -> Seq<Seq<char>> {
    text::split_limited(line, ' ', 4)
}

/// The trace that a piece names behind `trace=`.
pub open spec fn trace_named(piece: Seq<char>) -> Option<Seq<char>> {
    let rest = piece.skip("trace="@.len() as int);
    if "trace="@.is_prefix_of(piece) && rest.len() > 0 {
        Some(rest)
    } else {
        None
    }
}

pub fn parse_log_line(line: &str) -> (r: Option<LogRow>)
    ensures
        r is Some <==> line_pieces(line@).len() >= 3 && level_named(line_pieces(line@)[0]) is Some,
        r matches Some(row) ==> row.is(
            level_named(line_pieces(line@)[0])->0,
            text::trimmed(line_pieces(line@)[1]),
            if line_pieces(line@).len() > 3 {
                text::trimmed(line_pieces(line@)[3])
            } else {
                Seq::empty()
            },
            trace_named(text::trimmed(line_pieces(line@)[2])),
        ),
{
    let parts = split_up_to(line, ' ', 4);
    assert forall|i: int| 0 <= i < parts@.len() implies line_pieces(line@)[i] == (
    #[trigger] parts@[i])@ by {}
    if parts.len() < 3 {
        return None;
    }
    let level = match LogLevel::parse(parts[0]) {
        Some(level) => level,
        None => return None,
    };
    let target = trim(parts[1]).to_string();
    let trace_part = trim(parts[2]);
    let message = if parts.len() > 3 {
        trim(parts[3]).to_string()
    } else {
        String::new()
    };
    let trace_id = match strip_prefix(trace_part, "trace=") {
        Some(value) => {
            if value.is_empty() {
                None
            } else {
                Some(value.to_string())
            }
        },
        None => None,
    };
    Some(LogRow { level, target, message, trace_id })
}

// ---------------------------------------------------------------------------
// Laws
// ---------------------------------------------------------------------------

/// A filter keeps a line exactly where it is at least as severe as asked for
/// and its target begins with the prefix. Errors pass every level, and only
/// they pass the highest.
pub proof fn filters_keep_what_is_severe_enough(
    logs: Seq<LogRow>,
    min_level: LogLevel,
    target_prefix: Seq<char>,
    i: int,
)
    requires
        0 <= i < logs.len(),
    ensures
        logs.filter(|row: LogRow| passes(row, min_level, target_prefix)).contains(logs[i]) <==> {
            let level = logs[i].level;
            &&& target_prefix.len() <= logs[i].target@.len()
            &&& logs[i].target@.subrange(0, target_prefix.len() as int) == target_prefix
            &&& min_level is Debug ==> !(level is Trace)
            &&& min_level is Info ==> !(level is Trace) && !(level is Debug)
            &&& min_level is Warn ==> level is Warn || level is Error
            &&& min_level is Error ==> level is Error
        },
{
    broadcast use vstd::seq_lib::group_filter_ensures;

    let keep = |row: LogRow| passes(row, min_level, target_prefix);
    assert(logs.contains(logs[i]));
    assert(keep(logs[i]) == passes(logs[i], min_level, target_prefix));
}

/// The lines of a trace are those that name its id.
pub proof fn lines_of_a_trace_name_it(logs: Seq<LogRow>, trace_id: Seq<char>, i: int)
    requires
        0 <= i < logs.len(),
    ensures
        logs.filter(|row: LogRow| of_trace(row, trace_id)).contains(logs[i]) <==> logs[i].trace_id is Some
            && logs[i].trace_id->0@ == trace_id,
{
    broadcast use vstd::seq_lib::group_filter_ensures;

    let keep = |row: LogRow| of_trace(row, trace_id);
    assert(logs.contains(logs[i]));
    assert(keep(logs[i]) == of_trace(logs[i], trace_id));
}

/// A level is read by its name in any case, and a warning also by its longer
/// name; no other name is a level.
pub proof fn levels_are_read_in_any_case(name: Seq<char>)
    ensures
        ({
            let lower = text::ascii_lower(name);
            let level = level_named(name);
            &&& level == Some(LogLevel::Trace) <==> lower == "trace"@
            &&& level == Some(LogLevel::Debug) <==> lower == "debug"@
            &&& level == Some(LogLevel::Info) <==> lower == "info"@
            &&& level == Some(LogLevel::Warn) <==> lower == "warn"@ || lower == "warning"@
            &&& level == Some(LogLevel::Error) <==> lower == "error"@
        }),
{
    reveal_strlit("trace");
    reveal_strlit("debug");
    reveal_strlit("info");
    reveal_strlit("warn");
    reveal_strlit("warning");
    reveal_strlit("error");
    assert("trace"@[0] == 't' && "debug"@[0] == 'd' && "info"@[0] == 'i' && "warn"@[0] == 'w'
        && "warning"@[0] == 'w' && "error"@[0] == 'e');
}

/// A line with a level, a target, a trace mark and a message, with one blank
/// between them, is read as these four; the message may hold blanks.
pub proof fn log_lines_are_read_by_their_columns(
    level: Seq<char>,
    target: Seq<char>,
    mark: Seq<char>,
    message: Seq<char>,
)
    requires
        !level.contains(' ') && !target.contains(' ') && !mark.contains(' '),
    ensures
        ({
            let line = level + seq![' '] + (target + seq![' '] + (mark + seq![' '] + message));
            let pieces = line_pieces(line);
            &&& pieces.len() == 4
            &&& pieces[0] == level && pieces[1] == target && pieces[2] == mark
            &&& pieces[3] == message
        }),
{
    let third = mark + seq![' '] + message;
    let second = target + seq![' '] + third;
    text::pieces_are_what_stands_between(level, ' ', second, 4);
    text::pieces_are_what_stands_between(target, ' ', third, 3);
    text::pieces_are_what_stands_between(mark, ' ', message, 2);
}

/// A trace mark names the trace behind its equals sign; anything else, and a
/// mark without a name, names none.
pub proof fn trace_marks_name_the_trace(id: Seq<char>, piece: Seq<char>)
    ensures
        id.len() > 0 ==> trace_named("trace="@ + id) == Some(id),
        !"trace="@.is_prefix_of(piece) ==> trace_named(piece) is None,
        trace_named("trace="@) is None,
{
    let mark = "trace="@ + id;
    assert(mark.skip("trace="@.len() as int) =~= id);
    assert("trace="@.is_prefix_of(mark)) by {
        assert(mark.subrange(0, "trace="@.len() as int) =~= "trace="@);
    }
    assert("trace="@.skip("trace="@.len() as int).len() == 0);
}

/// A line with a level, a target and a trace mark is read as a row of that
/// level, of that target and with the message behind them; a line that begins
/// otherwise, or ends before its trace mark, is no row.
pub proof fn log_lines_become_rows(
    line: &str,
    level: Seq<char>,
    target: Seq<char>,
    mark: Seq<char>,
    message: Seq<char>,
    row: Option<LogRow>,
)
    requires
        line@ == level + seq![' '] + (target + seq![' '] + (mark + seq![' '] + message)),
        !level.contains(' ') && !target.contains(' ') && !mark.contains(' '),
        call_ensures(parse_log_line, (line,), row),
    ensures
        row is Some <==> level_named(level) is Some,
        row matches Some(row) ==> {
            &&& Some(row.level) == level_named(level)
            &&& row.target@ == text::trimmed(target)
            &&& row.message@ == text::trimmed(message)
            &&& text::opt_text(row.trace_id) == trace_named(text::trimmed(mark))
        },
{
    log_lines_are_read_by_their_columns(level, target, mark, message);
}

} // verus!
