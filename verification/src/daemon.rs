//! Supervision of the companion daemon process: liveness and uptime derived
//! from the PID marker file, the start/stop guards, and the log tail.

use vstd::prelude::*;
use vstd::string::*;
use crate::json::is_ws;
use crate::store::StoreError;
use crate::text::{all_digits, dec_str, dec_val, parse_u64_digits, to_chars, u64_to_dec};

verus! {

/// The reported state of the daemon process.
#[derive(Debug)]
pub struct DaemonStatus {
    pub running: bool,
    pub pid: Option<u32>,
    pub uptime: Option<String>,
}

/// Why a supervisor operation failed.
#[derive(Clone, Copy, PartialEq, Eq, Structural, Debug)]
pub enum DaemonError {
    /// A start was requested while the daemon is already running.
    AlreadyRunning,
    /// A stop was requested while the daemon is not running.
    NotRunning,
    /// The marker file exists but does not hold a process id.
    CorruptMarker,
}

impl DaemonError {
    /// A human-readable description of the failure.
    pub fn message(&self) -> String {
        match self {
            DaemonError::AlreadyRunning => String::from_str("Daemon is already running"),
            DaemonError::NotRunning => String::from_str("Daemon is not running"),
            DaemonError::CorruptMarker => String::from_str("daemon marker file is corrupt"),
        }
    }
}

/// The first position at or after `i` holding a non-whitespace character,
/// or the length.
pub open spec fn ws_start(s: Seq<char>, i: int) -> int
    decreases s.len() - i,
{
    if 0 <= i < s.len() && is_ws(s[i]) {
        ws_start(s, i + 1)
    } else {
        i
    }
}

/// The position after the last non-whitespace character strictly before
/// `i`, or zero.
pub open spec fn ws_end(s: Seq<char>, i: int) -> int
    decreases i,
{
    if 0 < i <= s.len() && is_ws(s[i - 1]) {
        ws_end(s, i - 1)
    } else {
        i
    }
}

/// What a marker file's content records: the process id, where the content
/// is decimal digits fitting a u32 with optional surrounding whitespace,
/// and nothing otherwise.
pub open spec fn marker_pid(s: Seq<char>) -> Option<int> {
    let a = ws_start(s, 0);
    let b = ws_end(s, s.len() as int);
    if a < b && all_digits(s.subrange(a, b)) && dec_val(s.subrange(a, b)) <= u32::MAX {
        Some(dec_val(s.subrange(a, b)) as int)
    } else {
        None
    }
}

fn is_ws_char(c: char) -> (r: bool)
    ensures
        r == is_ws(c),
{
    c == ' ' || c == '\n' || c == '\r' || c == '\t'
}

proof fn lemma_ws_end_le(s: Seq<char>, i: int)
    ensures
        ws_end(s, i) <= i,
    decreases i,
{
    if 0 < i <= s.len() && is_ws(s[i - 1]) {
        lemma_ws_end_le(s, i - 1);
    }
}

/// Parses the marker file content as a process id: decimal digits with
/// optional surrounding whitespace. Anything else is a corrupt marker, an
/// error distinct from a missing marker.
pub fn parse_pid(content: &str) -> (r: Result<u32, DaemonError>)
    ensures
        r matches Ok(p) ==> marker_pid(content@) == Some(p as int),
        r is Ok <==> marker_pid(content@) is Some,
        r matches Err(e) ==> e == DaemonError::CorruptMarker,
{
    let v = to_chars(content);
    let n = v.len();
    let mut a: usize = 0;
    while a < n && is_ws_char(v[a])
        invariant
            a <= n,
            n == v@.len(),
            v@ == content@,
            ws_start(content@, 0) == ws_start(content@, a as int),
        decreases n - a,
    {
        a += 1;
    }
    proof {
        assert(ws_start(content@, 0) == a as int);
    }
    let mut b: usize = n;
    while b > a && is_ws_char(v[b - 1])
        invariant
            a <= b <= n == v@.len(),
            v@ == content@,
            a < n ==> !is_ws(content@[a as int]),
            a < n ==> b > a,
            ws_end(content@, n as int) == ws_end(content@, b as int),
        decreases b,
    {
        b -= 1;
    }
    if a >= b {
        proof {
            lemma_ws_end_le(content@, n as int);
            assert(a == n);
            assert(marker_pid(content@) is None);
        }
        return Err(DaemonError::CorruptMarker);
    }
    proof {
        assert(ws_end(content@, n as int) == b as int);
    }
    match parse_u64_digits(&v, a, b) {
        Some(x) => {
            if x > u32::MAX as u64 {
                proof {
                    assert(marker_pid(content@) is None);
                }
                Err(DaemonError::CorruptMarker)
            } else {
                let p = x as u32;
                proof {
                    assert(p as int == x as int);
                    assert(marker_pid(content@) == Some(p as int));
                }
                Ok(p)
            }
        },
        None => {
            proof {
                assert(marker_pid(content@) is None);
            }
            Err(DaemonError::CorruptMarker)
        },
    }
}

/// The uptime text for a number of elapsed seconds: hours and minutes, or
/// minutes alone below one hour.
pub open spec fn duration_str(secs: nat) -> Seq<char> {
    let h = secs / 3600;
    let m = (secs % 3600) / 60;
    if h > 0 {
        dec_str(h) + "h "@ + dec_str(m) + "m"@
    } else {
        dec_str(m) + "m"@
    }
}

/// Formats elapsed seconds as an uptime text.
pub fn format_duration(seconds: u64) -> (r: String)
    ensures
        r@ == duration_str(seconds as nat),
{
    let hours = seconds / 3600;
    let minutes = (seconds % 3600) / 60;
    if hours > 0 {
        let mut r = u64_to_dec(hours);
        r.append("h ");
        let m = u64_to_dec(minutes);
        r.append(m.as_str());
        r.append("m");
        proof {
            assert(r@ =~= duration_str(seconds as nat));
        }
        r
    } else {
        let mut r = u64_to_dec(minutes);
        r.append("m");
        proof {
            assert(r@ =~= duration_str(seconds as nat));
        }
        r
    }
}

/// Computes the daemon status from the marker file and the facts the
/// platform reports: whether the recorded process is alive, and how many
/// seconds ago the marker file was last modified (where known).
///
/// Returns the status and whether the now-stale marker file should be
/// removed: a marker recording a dead process is cleaned up so a later
/// query does not fail on the same garbage.
pub fn get_daemon_status(marker: Option<&str>, alive: bool, elapsed_secs: Option<u64>) -> (r:
    Result<(DaemonStatus, bool), DaemonError>)
    ensures
        marker is None ==> (r matches Ok(p) && p.0.running == false && p.0.pid is None
            && p.0.uptime is None && p.1 == false),
        marker matches Some(m) ==> (r is Ok <==> marker_pid(m@) is Some),
        marker matches Some(m) ==> r matches Ok(p) ==> alive ==> {
            &&& p.0.running == true
            &&& (marker_pid(m@) matches Some(q) && p.0.pid == Some(q as u32))
            &&& match elapsed_secs {
                Some(e) => p.0.uptime matches Some(u) && u@ == duration_str(e as nat),
                None => p.0.uptime is None,
            }
            &&& p.1 == false
        },
        marker is Some ==> (r matches Ok(p) ==> !alive ==> (p.0.running == false && p.0.pid is None
            && p.0.uptime is None && p.1 == true)),
        r matches Err(e) ==> marker is Some && e == DaemonError::CorruptMarker,
{
    match marker {
        None => Ok((DaemonStatus { running: false, pid: None, uptime: None }, false)),
        Some(content) => {
            let pid = match parse_pid(content) {
                Ok(p) => p,
                Err(e) => {
                    return Err(e);
                },
            };
            if alive {
                let uptime = match elapsed_secs {
                    Some(e) => Some(format_duration(e)),
                    None => None,
                };
                Ok((DaemonStatus { running: true, pid: Some(pid), uptime }, false))
            } else {
                Ok((DaemonStatus { running: false, pid: None, uptime: None }, true))
            }
        },
    }
}

/// Decides a start request: starting while the daemon already runs fails
/// with the distinct already-running condition and asks for no spawn;
/// otherwise the caller is to spawn the daemon's own start subcommand.
pub fn start_daemon(running: bool) -> (r: Result<(), DaemonError>)
    ensures
        running <==> r == Err::<(), DaemonError>(DaemonError::AlreadyRunning),
        !running <==> r is Ok,
{
    if running {
        Err(DaemonError::AlreadyRunning)
    } else {
        Ok(())
    }
}

/// Decides a stop request: stopping while the daemon is not running fails
/// with the distinct not-running condition and asks for no signal;
/// otherwise the recorded process id (where one is known) is to be
/// signalled and the marker file removed.
pub fn stop_daemon(running: bool, pid: Option<u32>) -> (r: Result<Option<u32>, DaemonError>)
    ensures
        !running <==> r == Err::<Option<u32>, DaemonError>(DaemonError::NotRunning),
        running ==> r == Ok::<Option<u32>, DaemonError>(pid),
{
    if !running {
        Err(DaemonError::NotRunning)
    } else {
        Ok(pid)
    }
}

/// The views of a sequence of strings.
pub open spec fn svs(s: Seq<String>) -> Seq<Seq<char>> {
    s.map_values(|x: String| x@)
}

/// The lines of the text from position `i` on, with `cur` the partial line
/// read so far and `acc` the lines already complete: lines break at `\n` or
/// `\r\n`, and text ending in a break yields no final empty line.
pub open spec fn lines_acc(s: Seq<char>, i: int, cur: Seq<char>, acc: Seq<Seq<char>>) -> Seq<
    Seq<char>,
>
    decreases s.len() - i,
{
    if i < 0 || i >= s.len() {
        if cur.len() > 0 {
            acc.push(cur)
        } else {
            acc
        }
    } else if s[i] == '\n' {
        lines_acc(s, i + 1, Seq::empty(), acc.push(cur))
    } else if s[i] == '\r' && i + 1 < s.len() && s[i + 1] == '\n' {
        lines_acc(s, i + 2, Seq::empty(), acc.push(cur))
    } else {
        lines_acc(s, i + 1, cur.push(s[i]), acc)
    }
}

/// The lines of a newline-delimited text.
pub open spec fn lines_of(s: Seq<char>) -> Seq<Seq<char>> {
    lines_acc(s, 0, Seq::empty(), Seq::empty())
}

/// Splits text into lines on `\n` or `\r\n`, as the daemon log is
/// newline-delimited. Text ending in a newline yields no final empty line.
pub fn split_lines(content: &str) -> (r: Vec<String>)
    ensures
        svs(r@) == lines_of(content@),
{
    let v = to_chars(content);
    let mut r: Vec<String> = Vec::new();
    let mut line = String::new();
    proof {
        assert(svs(r@) =~= Seq::<Seq<char>>::empty());
        assert(line@ =~= Seq::<char>::empty());
    }
    let mut i: usize = 0;
    while i < v.len()
        invariant
            i <= v@.len(),
            v@ == content@,
            lines_of(content@) == lines_acc(content@, i as int, line@, svs(r@)),
        decreases v@.len() - i,
    {
        let c = v[i];
        let ghost pre_r = svs(r@);
        let ghost pre_line = line@;
        if c == '\n' {
            r.push(line);
            line = String::new();
            proof {
                assert(svs(r@) =~= pre_r.push(pre_line));
            }
        } else if c == '\r' && i + 1 < v.len() && v[i + 1] == '\n' {
            r.push(line);
            line = String::new();
            i += 1;
            proof {
                assert(svs(r@) =~= pre_r.push(pre_line));
            }
        } else {
            line.push(c);
        }
        i += 1;
    }
    let ghost pre_r = svs(r@);
    let ghost pre_line = line@;
    if line.unicode_len() > 0 {
        r.push(line);
        proof {
            assert(svs(r@) =~= pre_r.push(pre_line));
        }
    }
    r
}

/// The last `n` lines, in order; an `n` beyond the line count returns every
/// line unchanged.
pub fn tail_lines(lines: &Vec<String>, n: usize) -> (r: Vec<String>)
    ensures
        svs(r@) == svs(lines@).subrange(
            if lines@.len() > n {
                lines@.len() - n
            } else {
                0
            },
            lines@.len() as int,
        ),
        n >= lines@.len() ==> svs(r@) == svs(lines@),
{
    let start: usize = if lines.len() > n {
        lines.len() - n
    } else {
        0
    };
    let mut r: Vec<String> = Vec::new();
    let mut i: usize = start;
    while i < lines.len()
        invariant
            start <= i <= lines@.len(),
            r@.len() == i - start,
            svs(r@) == svs(lines@).subrange(start as int, i as int),
        decreases lines@.len() - i,
    {
        r.push(lines[i].clone());
        proof {
            assert(r@.last() == lines@[i as int]);
            assert(svs(r@) =~= svs(lines@).subrange(start as int, i + 1));
        }
        i += 1;
    }
    proof {
        if n >= lines@.len() {
            assert(svs(lines@).subrange(0, lines@.len() as int) =~= svs(lines@));
        }
    }
    r
}

/// Returns the last `lines` lines of the daemon log content, in order; a
/// count beyond the log's line count returns the whole log unchanged, and
/// a missing log file is an empty tail, not an error.
pub fn get_daemon_log(content: Option<&str>, lines: u32) -> (r: Vec<String>)
    ensures
        content is None ==> r@.len() == 0,
        content matches Some(t) ==> svs(r@) == lines_of(t@).subrange(
            if lines_of(t@).len() > lines {
                lines_of(t@).len() - lines
            } else {
                0
            },
            lines_of(t@).len() as int,
        ),
        content matches Some(t) ==> (lines >= lines_of(t@).len() ==> svs(r@) == lines_of(t@)),
{
    match content {
        None => Vec::new(),
        Some(text) => {
            let all = split_lines(text);
            tail_lines(&all, lines as usize)
        },
    }
}

/// The path of the daemon PID marker file.
pub fn get_pid_path() -> (r: Result<String, StoreError>)
    ensures
        r matches Ok(p) ==> crate::store::str_ends_with(p@, "/.omnitrade/"@ + "daemon.pid"@),
        r matches Err(e) ==> e == StoreError::NotFound,
{
    crate::store::data_path("daemon.pid")
}

/// The path of the daemon log file.
pub fn get_log_path() -> (r: Result<String, StoreError>)
    ensures
        r matches Ok(p) ==> crate::store::str_ends_with(p@, "/.omnitrade/"@ + "daemon.log"@),
        r matches Err(e) ==> e == StoreError::NotFound,
{
    crate::store::data_path("daemon.log")
}

} // verus!
