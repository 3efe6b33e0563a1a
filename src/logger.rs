//! Log severities, the threshold rule, the line format and the registry that
//! gives each logical thread a small stable id.
use vstd::prelude::*;
use vstd::string::*;
use crate::text::{decimal, padded, push_decimal, push_padded, str_eq};

verus! {

/// The severity of a log record.
#[derive(Clone, Copy, Debug, PartialEq, Eq, Structural)]
pub enum Level {
    Error,
    Warn,
    Info,
    Debug,
    Trace,
}

/// The configured threshold: records more verbose than it are dropped.
#[derive(Clone, Copy, Debug, PartialEq, Eq, Structural)]
pub enum LevelFilter {
    Off,
    Error,
    Warn,
    Info,
    Debug,
    Trace,
}

impl Level {
    /// Position in the order error < warn < info < debug < trace, from 1.
    pub open spec fn rank(self) -> nat {
        match self {
            Level::Error => 1,
            Level::Warn => 2,
            Level::Info => 3,
            Level::Debug => 4,
            Level::Trace => 5,
        }
    }

    /// The upper-case name written in a log line.
    pub open spec fn name_spec(self) -> Seq<char> {
        match self {
            Level::Error => "ERROR"@,
            Level::Warn => "WARN"@,
            Level::Info => "INFO"@,
            Level::Debug => "DEBUG"@,
            Level::Trace => "TRACE"@,
        }
    }

    /// The upper-case name written in a log line.
    pub fn name(self) -> (r: &'static str)
        ensures
            r@ == self.name_spec(),
    {
        match self {
            Level::Error => "ERROR",
            Level::Warn => "WARN",
            Level::Info => "INFO",
            Level::Debug => "DEBUG",
            Level::Trace => "TRACE",
        }
    }
}

impl LevelFilter {
    /// Position in the order off < error < warn < info < debug < trace, from 0.
    pub open spec fn rank(self) -> nat {
        match self {
            LevelFilter::Off => 0,
            LevelFilter::Error => 1,
            LevelFilter::Warn => 2,
            LevelFilter::Info => 3,
            LevelFilter::Debug => 4,
            LevelFilter::Trace => 5,
        }
    }
}

/// `s` equals the lower-case ASCII word `word` when ASCII letters of `s` are
/// taken without regard to case.
pub open spec fn eq_ignore_case(s: Seq<char>, word: Seq<char>) -> bool {
    &&& s.len() == word.len()
    &&& forall|i: int|
        0 <= i < s.len() ==> (s[i] == word[i] || ('A' <= s[i] <= 'Z' && s[i] as u32 + 32
            == word[i] as u32))
}

/// The threshold that a configuration string names; unknown names mean off.
pub open spec fn filter_named(s: Seq<char>) -> LevelFilter {
    if eq_ignore_case(s, "error"@) {
        LevelFilter::Error
    } else if eq_ignore_case(s, "warn"@) {
        LevelFilter::Warn
    } else if eq_ignore_case(s, "info"@) {
        LevelFilter::Info
    } else if eq_ignore_case(s, "debug"@) {
        LevelFilter::Debug
    } else if eq_ignore_case(s, "trace"@) {
        LevelFilter::Trace
    } else {
        LevelFilter::Off
    }
}

fn matches_ignore_case(s: &str, word: &str) -> (r: bool)
    ensures
        r == eq_ignore_case(s@, word@),
{
    let n = s.unicode_len();
    if n != word.unicode_len() {
        return false;
    }
    let mut i: usize = 0;
    while i < n
        invariant
            n == s@.len(),
            n == word@.len(),
            i <= n,
            forall|j: int|
                0 <= j < i ==> (s@[j] == word@[j] || ('A' <= s@[j] <= 'Z' && s@[j] as u32 + 32
                    == word@[j] as u32)),
        decreases n - i,
    {
        let c = s.get_char(i);
        let w = word.get_char(i);
        if !(c == w || ('A' <= c && c <= 'Z' && c as u32 + 32 == w as u32)) {
            return false;
        }
        i = i + 1;
    }
    true
}

/// Reads a threshold from its name, without regard to case; an unknown name
/// gives `Off`.
pub fn parse_level(s: &str) -> (r: LevelFilter)
    ensures
        r == filter_named(s@),
{
    if matches_ignore_case(s, "error") {
        LevelFilter::Error
    } else if matches_ignore_case(s, "warn") {
        LevelFilter::Warn
    } else if matches_ignore_case(s, "info") {
        LevelFilter::Info
    } else if matches_ignore_case(s, "debug") {
        LevelFilter::Debug
    } else if matches_ignore_case(s, "trace") {
        LevelFilter::Trace
    } else {
        LevelFilter::Off
    }
}

/// Whether a record of severity `level` is written under `threshold`.
pub open spec fn enabled(threshold: LevelFilter, level: Level) -> bool {
    level.rank() <= threshold.rank()
}

/// Whether a record of severity `level` is written under `threshold`.
pub fn is_enabled(threshold: LevelFilter, level: Level) -> (r: bool)
    ensures
        r == enabled(threshold, level),
        threshold == LevelFilter::Off ==> !r,
{
    let t: u8 = match threshold {
        LevelFilter::Off => 0,
        LevelFilter::Error => 1,
        LevelFilter::Warn => 2,
        LevelFilter::Info => 3,
        LevelFilter::Debug => 4,
        LevelFilter::Trace => 5,
    };
    let l: u8 = match level {
        Level::Error => 1,
        Level::Warn => 2,
        Level::Info => 3,
        Level::Debug => 4,
        Level::Trace => 5,
    };
    l <= t
}

/// Raising the threshold never drops a record that a lower threshold writes.
pub proof fn lemma_threshold_monotone(low: LevelFilter, high: LevelFilter, level: Level)
    requires
        low.rank() <= high.rank(),
        enabled(low, level),
    ensures
        enabled(high, level),
{
}

/// A local wall-clock time, to the millisecond.
#[derive(Clone, Copy, Debug, PartialEq, Eq, Structural)]
pub struct Timestamp {
    pub year: u32,
    pub month: u32,
    pub day: u32,
    pub hour: u32,
    pub minute: u32,
    pub second: u32,
    pub millisecond: u32,
}

impl Timestamp {
    /// Fields within the ranges of a calendar time with a four-digit year.
    pub open spec fn wf(self) -> bool {
        &&& self.year <= 9999
        &&& 1 <= self.month <= 12
        &&& 1 <= self.day <= 31
        &&& self.hour < 24
        &&& self.minute < 60
        &&& self.second <= 60
        &&& self.millisecond < 1000
    }

    /// `YYYY-MM-DDTHH:MM:SS.mmm`.
    pub open spec fn text(self) -> Seq<char> {
        padded(self.year as nat, 4) + "-"@ + padded(self.month as nat, 2) + "-"@ + padded(
            self.day as nat,
            2,
        ) + "T"@ + padded(self.hour as nat, 2) + ":"@ + padded(self.minute as nat, 2) + ":"@
            + padded(self.second as nat, 2) + "."@ + padded(self.millisecond as nat, 3)
    }

    /// Appends `YYYY-MM-DDTHH:MM:SS.mmm` to `out`.
    pub fn write_to(&self, out: &mut String)
        ensures
            final(out)@ == old(out)@ + self.text(),
    {
        push_padded(out, self.year as u64, 4);
        out.append("-");
        push_padded(out, self.month as u64, 2);
        out.append("-");
        push_padded(out, self.day as u64, 2);
        out.append("T");
        push_padded(out, self.hour as u64, 2);
        out.append(":");
        push_padded(out, self.minute as u64, 2);
        out.append(":");
        push_padded(out, self.second as u64, 2);
        out.append(".");
        push_padded(out, self.millisecond as u64, 3);
        assert(final(out)@ =~= old(out)@ + self.text());
    }
}

/// `<timestamp> [<thread id>] <LEVEL> [<target>] - <message>`.
pub open spec fn line_text(
    time: Timestamp,
    thread_id: u64,
    level: Level,
    target: Seq<char>,
    message: Seq<char>,
) -> Seq<char> {
    time.text() + " ["@ + decimal(thread_id as nat) + "] "@ + level.name_spec() + " ["@ + target
        + "] - "@ + message
}

/// Renders one log line.
pub fn format_line(time: &Timestamp, thread_id: u64, level: Level, target: &str, message: &str) -> (r:
    String)
    requires
        time.wf(),
    ensures
        r@ == line_text(*time, thread_id, level, target@, message@),
{
    let mut out = String::new();
    time.write_to(&mut out);
    out.append(" [");
    push_decimal(&mut out, thread_id);
    out.append("] ");
    out.append(level.name());
    out.append(" [");
    out.append(target);
    out.append("] - ");
    out.append(message);
    assert(out@ =~= line_text(*time, thread_id, level, target@, message@));
    out
}

/// Hands out thread ids: the `i`-th distinct token seen gets id `i`, once and
/// for good.
pub struct ThreadIds {
    tokens: Vec<u64>,
}

impl ThreadIds {
    /// Tokens in the order their ids were given.
    pub closed spec fn view(&self) -> Seq<u64> {
        self.tokens@
    }

    /// No token was given two ids.
    pub open spec fn wf(&self) -> bool {
        self@.no_duplicates()
    }

    /// Whether `token` already has an id.
    pub open spec fn has(&self, token: u64) -> bool {
        self@.contains(token)
    }

    /// The id of a token that has one.
    pub open spec fn id_of(&self, token: u64) -> int {
        self@.index_of(token)
    }

    /// The id the next new token gets.
    pub open spec fn next_id(&self) -> int {
        self@.len() as int
    }

    /// How many ids have been given.
    pub fn count(&self) -> (r: usize)
        ensures
            r == self@.len(),
    {
        self.tokens.len()
    }

    /// A registry that has given no ids.
    pub fn new() -> (r: ThreadIds)
        ensures
            r.wf(),
            r@ == Seq::<u64>::empty(),
    {
        ThreadIds { tokens: Vec::new() }
    }
}

/// The id of the thread that `token` stands for: its earlier id if it has
/// one, else the next one, which it then keeps.
pub fn current_thread_id(ids: &mut ThreadIds, token: u64) -> (r: u64)
    requires
        old(ids).wf(),
        old(ids)@.len() < u64::MAX,
    ensures
        final(ids).wf(),
        old(ids).has(token) ==> r == old(ids).id_of(token) && final(ids)@ == old(ids)@,
        !old(ids).has(token) ==> r == old(ids).next_id() && final(ids)@ == old(ids)@.push(token),
        final(ids).has(token),
        final(ids).id_of(token) == r,
        old(ids)@.is_prefix_of(final(ids)@),
{
    let n = ids.tokens.len();
    let mut i: usize = 0;
    while i < n
        invariant
            n == ids.tokens@.len(),
            i <= n,
            ids@ == old(ids)@,
            ids.wf(),
            forall|j: int| 0 <= j < i ==> ids.tokens@[j] != token,
        decreases n - i,
    {
        if ids.tokens[i] == token {
            proof {
                assert(ids@[i as int] == token);
                assert(ids@.contains(token));
                assert(ids@.index_of(token) == i as int) by {
                    let k = ids@.index_of(token);
                    assert(ids@[k] == token);
                }
            }
            return i as u64;
        }
        i = i + 1;
    }
    proof {
        assert(!ids@.contains(token));
    }
    ids.tokens.push(token);
    proof {
        assert(forall|j: int| 0 <= j < n ==> ids@[j] == old(ids)@[j]);
        assert(ids@[n as int] == token);
        assert(ids@.contains(token));
        let k = ids@.index_of(token);
        assert(ids@[k] == token);
    }
    n as u64
}

/// A token keeps its id: asking again gives the same id, and tokens that have
/// ids never share one.
pub proof fn lemma_ids_distinct(ids: ThreadIds, a: u64, b: u64)
    requires
        ids.wf(),
        ids.has(a),
        ids.has(b),
        a != b,
    ensures
        ids.id_of(a) != ids.id_of(b),
        0 <= ids.id_of(a) < ids.next_id(),
{
    let ka = ids@.index_of(a);
    let kb = ids@.index_of(b);
    assert(ids@[ka] == a);
    assert(ids@[kb] == b);
}

/// How the logger is to be set up: its threshold, and the file to write to
/// instead of the console, if any.
pub struct LoggerConfig {
    pub threshold: LevelFilter,
    pub file_path: Option<String>,
}

/// Reads the logger's settings: the threshold named by `level` (off when
/// unknown) and the log file path, passed on as given.
pub fn init(level: &str, file_path: &Option<String>) -> (r: LoggerConfig)
    ensures
        r.threshold == filter_named(level@),
        r.file_path is None <==> file_path is None,
        r.file_path matches Some(p) ==> file_path matches Some(q) && p@ == q@,
{
    let file = match file_path {
        Some(p) => Some(p.clone()),
        None => None,
    };
    LoggerConfig { threshold: parse_level(level), file_path: file }
}

/// Ids are stable: a token that had an id keeps it in every later state of
/// the registry, since ids are only ever added.
pub proof fn lemma_id_stable(earlier: ThreadIds, later: ThreadIds, token: u64)
    requires
        earlier.wf(),
        later.wf(),
        earlier@.is_prefix_of(later@),
        earlier.has(token),
    ensures
        later.has(token),
        later.id_of(token) == earlier.id_of(token),
{
    let k = earlier@.index_of(token);
    assert(earlier@[k] == token);
    assert(later@[k] == token);
    let m = later@.index_of(token);
    assert(later@[m] == token);
}

/// Over a run of calls, each registry state a prefix of the next: a thread
/// keeps its id from its first call on, and two threads never share one.
pub proof fn lemma_ids_over_calls(
    first: ThreadIds,
    later: ThreadIds,
    a: u64,
    b: u64,
)
    requires
        first.wf(),
        later.wf(),
        first@.is_prefix_of(later@),
        first.has(a),
        later.has(b),
        a != b,
    ensures
        later.id_of(a) == first.id_of(a),
        later.id_of(a) != later.id_of(b),
{
    lemma_id_stable(first, later, a);
    lemma_ids_distinct(later, a, b);
}

} // verus!
