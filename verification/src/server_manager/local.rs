//! What the local-process provider decides: when a server's output shows
//! it is ready, and what its process state means. The process itself is
//! run by the caller.

use vstd::prelude::*;
use vstd::string::StrSliceExecFns;

use super::provider::ProviderStatus;

verus! {

/// `pattern` occurs in `line` at character `i`.
pub open spec fn occurs_at(line: Seq<char>, pattern: Seq<char>, i: int) -> bool {
    0 <= i && i + pattern.len() <= line.len() && line.subrange(i, i + pattern.len()) == pattern
}

/// `pattern` occurs somewhere in `line` (the empty pattern always does).
pub open spec fn contains_text(line: Seq<char>, pattern: Seq<char>) -> bool {
    exists|i: int| occurs_at(line, pattern, i)
}

/// Whether a line of the server's output shows the ready pattern.
pub fn is_ready_line(line: &str, pattern: &str) -> (b: bool)
    ensures
        b == contains_text(line@, pattern@),
{
    let n = line.unicode_len();
    let m = pattern.unicode_len();
    if m > n {
        assert(forall|i: int| !occurs_at(line@, pattern@, i));
        return false;
    }
    let mut i: usize = 0;
    while i <= n - m
        invariant
            m <= n,
            n == line@.len(),
            m == pattern@.len(),
            i <= n - m + 1,
            forall|k: int| 0 <= k < i ==> !occurs_at(line@, pattern@, k),
        decreases n - m + 1 - i,
    {
        let mut j: usize = 0;
        let mut same = true;
        while j < m
            invariant
                m <= n,
                i <= n - m,
                n == line@.len(),
                m == pattern@.len(),
                j <= m,
                same == (forall|t: int| 0 <= t < j ==> line@[i + t] == pattern@[t]),
            decreases m - j,
        {
            if line.get_char(i + j) != pattern.get_char(j) {
                same = false;
            }
            j = j + 1;
        }
        if same {
            assert(line@.subrange(i as int, i + m) =~= pattern@);
            assert(occurs_at(line@, pattern@, i as int));
            return true;
        }
        assert(!occurs_at(line@, pattern@, i as int)) by {
            let t = choose|t: int| 0 <= t < m && line@[i + t] != pattern@[t];
            assert(line@.subrange(i as int, i + m)[t] == line@[i + t]);
        }
        i = i + 1;
    }
    assert forall|k: int| !occurs_at(line@, pattern@, k) by {
        if 0 <= k && k + m <= n {
            assert(k < i);
        }
    }
    false
}

/// What checking a local process's exit found.
#[derive(Debug, Clone, Copy, PartialEq, Eq, Structural)]
pub enum ExitCheck {
    /// The process has exited.
    Exited,
    /// The process is still running.
    Running,
    /// Whether it exited could not be determined.
    Undetermined,
}

/// The outcome of a local status check: the status, and whether the
/// exited process is to be released.
#[derive(Debug, Clone, Copy, PartialEq, Eq, Structural)]
pub struct LocalCheck {
    pub status: ProviderStatus,
    pub release: bool,
}

/// The status of a local server: no process is `Stopped`; an exited
/// process is `Stopped` and released; otherwise the process is `Running`
/// once its ready pattern was seen and `Starting` before.
pub fn local_status(process: Option<ExitCheck>, ready: bool) -> (c: LocalCheck)
    ensures
        c == match process {
            None => LocalCheck { status: ProviderStatus::Stopped, release: false },
            Some(ExitCheck::Exited) => LocalCheck { status: ProviderStatus::Stopped, release: true },
            Some(_) => LocalCheck {
                status: if ready {
                    ProviderStatus::Running
                } else {
                    ProviderStatus::Starting
                },
                release: false,
            },
        },
{
    match process {
        None => LocalCheck { status: ProviderStatus::Stopped, release: false },
        Some(ExitCheck::Exited) => LocalCheck { status: ProviderStatus::Stopped, release: true },
        Some(_) => LocalCheck {
            status: if ready {
                ProviderStatus::Running
            } else {
                ProviderStatus::Starting
            },
            release: false,
        },
    }
}

} // verus!
