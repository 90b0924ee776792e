//! The in-memory log that the log tab shows, and log-line cleanup.

use vstd::prelude::*;
use crate::text::{chars_of, owned, push_char};
use std::collections::VecDeque;
use vstd::string::StringExecFns;

verus! {

/// The text left after removing ANSI escape sequences: an escape character
/// starts a sequence that runs up to and including the next `m`.
pub open spec fn strip_ansi_from(s: Seq<char>, in_escape: bool) -> Seq<char>
    decreases s.len(),
{
    if s.len() == 0 {
        Seq::empty()
    } else if s[0] == '\x1b' {
        strip_ansi_from(s.drop_first(), true)
    } else if in_escape {
        strip_ansi_from(s.drop_first(), s[0] != 'm')
    } else {
        seq![s[0]] + strip_ansi_from(s.drop_first(), false)
    }
}

/// `s` without its ANSI escape sequences.
pub open spec fn spec_strip_ansi(s: Seq<char>) -> Seq<char> {
    strip_ansi_from(s, false)
}

/// Remove ANSI escape codes from a string (e.g., color/formatting codes).
pub fn strip_ansi_codes(s: &str) -> (r: String)
    ensures
        r@ == spec_strip_ansi(s@),
{
    let cs = chars_of(s);
    let mut result = String::new();
    let mut in_escape = false;
    let mut i: usize = 0;
    assert(s@.skip(0) =~= s@);
    while i < cs.len()
        invariant
            cs@ == s@,
            i <= cs@.len(),
            result@ + strip_ansi_from(s@.skip(i as int), in_escape) == spec_strip_ansi(s@),
        decreases cs.len() - i,
    {
        let c = cs[i];
        assert(s@.skip(i as int).drop_first() =~= s@.skip(i + 1));
        assert(s@.skip(i as int)[0] == c);
        if c == '\x1b' {
            in_escape = true;
        } else if in_escape {
            if c == 'm' {
                in_escape = false;
            }
        } else {
            push_char(&mut result, c);
        }
        i += 1;
    }
    assert(s@.skip(i as int) =~= Seq::<char>::empty());
    assert(result@ + Seq::<char>::empty() =~= result@);
    result
}

/// Maximum number of log lines kept in memory for the log view.
pub const MAX_LOGS: usize = 1000;

/// The log lines kept in memory for the log view, oldest first, at most
/// `MAX_LOGS` of them.
#[derive(Debug)]
pub struct LogBuffer {
    lines: VecDeque<String>,
}

/// The lines after adding one: it goes last, and the oldest goes when there
/// would be more than `MAX_LOGS`.
pub open spec fn appended(lines: Seq<Seq<char>>, line: Seq<char>) -> Seq<Seq<char>> {
    let l = lines.push(line);
    if l.len() > MAX_LOGS {
        l.drop_first()
    } else {
        l
    }
}

/// A log line as stored and shown: the timestamp in brackets, a space, the
/// message.
pub open spec fn stamped(timestamp: Seq<char>, message: Seq<char>) -> Seq<char> {
    seq!['['] + timestamp + seq![']', ' '] + message
}

impl LogBuffer {
    #[verifier::type_invariant]
    spec fn bounded(self) -> bool {
        self.lines@.len() <= MAX_LOGS
    }

    /// The stored lines, oldest first.
    pub closed spec fn view(&self) -> Seq<Seq<char>> {
        self.lines@.map_values(|s: String| s@)
    }

    /// An empty log.
    pub fn new() -> (r: Self)
        ensures
            r@ == Seq::<Seq<char>>::empty(),
    {
        let b = LogBuffer { lines: VecDeque::new() };
        assert(b@ =~= Seq::<Seq<char>>::empty());
        b
    }

    /// The number of stored lines, which is never more than `MAX_LOGS`.
    pub fn len(&self) -> (r: usize)
        ensures
            r == self@.len(),
            r <= MAX_LOGS,
    {
        proof {
            use_type_invariant(self);
        }
        self.lines.len()
    }

    /// Add a line at the end, dropping the oldest beyond `MAX_LOGS`.
    pub fn push(&mut self, line: String)
        ensures
            final(self)@ == appended(old(self)@, line@),
            final(self)@.len() <= MAX_LOGS,
    {
        proof {
            use_type_invariant(&*self);
        }
        let ghost before = self@;
        let mut lines: VecDeque<String> = VecDeque::new();
        std::mem::swap(&mut lines, &mut self.lines);
        lines.push_back(line);
        assert(lines@.map_values(|s: String| s@) =~= before.push(line@));
        if lines.len() > MAX_LOGS {
            lines.pop_front();
            assert(lines@.map_values(|s: String| s@) =~= before.push(line@).drop_first());
        }
        self.lines = lines;
    }

    /// The stored lines, oldest first.
    pub fn lines(&self) -> (r: Vec<String>)
        ensures
            r@.map_values(|s: String| s@) == self@,
            r@.len() <= MAX_LOGS,
    {
        proof {
            use_type_invariant(self);
        }
        let mut out: Vec<String> = Vec::new();
        let mut i: usize = 0;
        while i < self.lines.len()
            invariant
                i <= self.lines@.len(),
                out@.len() == i,
                forall|j: int| 0 <= j < i ==> (#[trigger] out@[j])@ == self.lines@[j]@,
            decreases self.lines.len() - i,
        {
            out.push(owned(self.lines[i].as_str()));
            i += 1;
        }
        assert(out@.map_values(|s: String| s@) =~= self@);
        out
    }
}

/// Make sure the log buffer exists, keeping an existing one as it is.
pub fn init_logging(buffer: &mut Option<LogBuffer>)
    ensures
        match *old(buffer) {
            Some(b) => *final(buffer) == Some(b),
            None => *final(buffer) matches Some(b) && b@.len() == 0,
        },
{
    if buffer.is_none() {
        *buffer = Some(LogBuffer::new());
    }
}

/// All stored log lines, oldest first; none when the log was never set up.
pub fn get_tui_logs(buffer: &Option<LogBuffer>) -> (r: Vec<String>)
    ensures
        r@.map_values(|s: String| s@) == match *buffer {
            Some(b) => b@,
            None => Seq::<Seq<char>>::empty(),
        },
        r@.len() <= MAX_LOGS,
{
    match buffer {
        Some(b) => b.lines(),
        None => {
            let v: Vec<String> = Vec::new();
            assert(v@.map_values(|s: String| s@) =~= Seq::<Seq<char>>::empty());
            v
        },
    }
}

/// Store a message stamped with the time given, creating the buffer when it
/// does not exist yet; the stamped line is returned for the other log sinks.
pub fn push_log_at(buffer: &mut Option<LogBuffer>, timestamp: &str, message: &str) -> (r: String)
    ensures
        r@ == stamped(timestamp@, message@),
        *final(buffer) matches Some(b) && b@ == appended(
            match *old(buffer) {
                Some(b0) => b0@,
                None => Seq::<Seq<char>>::empty(),
            },
            r@,
        ) && b@.len() <= MAX_LOGS,
{
    let mut line = String::new();
    push_char(&mut line, '[');
    line.append(timestamp);
    push_char(&mut line, ']');
    push_char(&mut line, ' ');
    line.append(message);
    assert(line@ =~= stamped(timestamp@, message@));
    init_logging(buffer);
    let r = owned(line.as_str());
    match buffer {
        Some(b) => b.push(line),
        None => {},
    }
    r
}

/// Whether a chrono format string uses only plain characters and the
/// specifiers `%Y %m %d %H %M %S` and `%.3f`, all of which chrono accepts.
pub open spec fn plain_strftime(f: Seq<char>) -> bool {
    forall|i: int|
        0 <= i < f.len() && #[trigger] f[i] == '%' ==> {
            ||| (i + 1 < f.len() && (f[i + 1] == 'Y' || f[i + 1] == 'm' || f[i + 1] == 'd' || f[i
                + 1] == 'H' || f[i + 1] == 'M' || f[i + 1] == 'S'))
            ||| (i + 3 < f.len() && f[i + 1] == '.' && f[i + 2] == '3' && f[i + 3] == 'f')
        }
}

/// The layout of a log timestamp: local date and time with milliseconds.
pub fn log_time_format() -> (r: String)
    ensures
        r@ == "%Y-%m-%d %H:%M:%S%.3f"@,
        plain_strftime(r@),
{
    proof {
        reveal_strlit("%Y-%m-%d %H:%M:%S%.3f");
    }
    let r = owned("%Y-%m-%d %H:%M:%S%.3f");
    assert(plain_strftime(r@));
    r
}

/// The local date and time, written with the chrono format string given.
///
/// Calls `chrono::Local::now` and `format(..).to_string()`; the format must
/// be one chrono accepts, since an unknown specifier makes `to_string`
/// panic. Nothing is stated of the text, which depends on the clock and the
/// local time zone.
#[verifier::external_body]
fn local_timestamp(format: &str) -> String
    requires
        plain_strftime(format@),
{
    chrono::Local::now().format(format).to_string()
}

/// Store a message stamped with the current local time; the stamped line is
/// returned for the other log sinks (file, callbacks, terminal).
pub fn push_log(buffer: &mut Option<LogBuffer>, message: &str) -> (r: String)
    ensures
        exists|ts: Seq<char>| r@ == #[trigger] stamped(ts, message@),
        *final(buffer) matches Some(b) && b@ == appended(
            match *old(buffer) {
                Some(b0) => b0@,
                None => Seq::<Seq<char>>::empty(),
            },
            r@,
        ) && b@.len() <= MAX_LOGS,
{
    let layout = log_time_format();
    let ts = local_timestamp(layout.as_str());
    push_log_at(buffer, ts.as_str(), message)
}

/// A message with a level tag in front: `[LEVEL] message`.
pub open spec fn tagged(level: Seq<char>, message: Seq<char>) -> Seq<char> {
    seq!['['] + level + seq![']', ' '] + message
}

fn log_with_level(buffer: &mut Option<LogBuffer>, level: &str, message: &str) -> (r: String)
    ensures
        exists|ts: Seq<char>| r@ == #[trigger] stamped(ts, tagged(level@, message@)),
        *final(buffer) matches Some(b) && b@ == appended(
            match *old(buffer) {
                Some(b0) => b0@,
                None => Seq::<Seq<char>>::empty(),
            },
            r@,
        ) && b@.len() <= MAX_LOGS,
{
    let mut m = String::new();
    push_char(&mut m, '[');
    m.append(level);
    push_char(&mut m, ']');
    push_char(&mut m, ' ');
    m.append(message);
    assert(m@ =~= tagged(level@, message@));
    push_log(buffer, m.as_str())
}

/// Log a debug message: `[DEBUG] message`, stamped.
pub fn p2plog_debug(buffer: &mut Option<LogBuffer>, message: &str) -> (r: String)
    ensures
        exists|ts: Seq<char>| r@ == #[trigger] stamped(ts, tagged("DEBUG"@, message@)),
        *final(buffer) matches Some(b) && b@ == appended(
            match *old(buffer) {
                Some(b0) => b0@,
                None => Seq::<Seq<char>>::empty(),
            },
            r@,
        ) && b@.len() <= MAX_LOGS,
{
    log_with_level(buffer, "DEBUG", message)
}

/// Log an informational message: `[INFO] message`, stamped.
pub fn p2plog_info(buffer: &mut Option<LogBuffer>, message: &str) -> (r: String)
    ensures
        exists|ts: Seq<char>| r@ == #[trigger] stamped(ts, tagged("INFO"@, message@)),
        *final(buffer) matches Some(b) && b@ == appended(
            match *old(buffer) {
                Some(b0) => b0@,
                None => Seq::<Seq<char>>::empty(),
            },
            r@,
        ) && b@.len() <= MAX_LOGS,
{
    log_with_level(buffer, "INFO", message)
}

/// Log an error message: `[ERROR] message`, stamped.
pub fn p2plog_error(buffer: &mut Option<LogBuffer>, message: &str) -> (r: String)
    ensures
        exists|ts: Seq<char>| r@ == #[trigger] stamped(ts, tagged("ERROR"@, message@)),
        *final(buffer) matches Some(b) && b@ == appended(
            match *old(buffer) {
                Some(b0) => b0@,
                None => Seq::<Seq<char>>::empty(),
            },
            r@,
        ) && b@.len() <= MAX_LOGS,
{
    log_with_level(buffer, "ERROR", message)
}

} // verus!
