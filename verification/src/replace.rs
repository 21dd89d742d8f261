//! The retry and error rules of atomic file replacement. The renames,
//! flushes and sleeps are the host's; this module decides whether a
//! failed attempt is tried again and what a failed no-replace publication
//! reports.
use crate::error::{io_error_spec, IoErrorKind, IoFailure, HostPlatform, PongError};
use crate::error::text_of;
use crate::text::{chars_of, str_equal, string_from_chars};
use vstd::prelude::*;

verus! {

/// How many times a Windows file operation is attempted.
pub const WINDOWS_IO_ATTEMPTS: usize = 80;

/// The pause between two attempts, in milliseconds.
pub const WINDOWS_IO_RETRY_DELAY_MS: u64 = 25;

/// A Windows file operation that failed with access denied (5), a sharing
/// violation (32) or a lock violation (33) is tried again while attempts
/// remain; anything else ends the retries.
pub open spec fn windows_io_retried(raw_os_error: Option<i32>, attempt: int) -> bool {
    &&& raw_os_error matches Some(code) && (code == 5 || code == 32 || code == 33)
    &&& attempt + 1 < WINDOWS_IO_ATTEMPTS
}

/// Retries are bounded and only for transient failures: an access denied
/// (5), sharing violation (32) or lock violation (33) is tried again on
/// every attempt but the last of `WINDOWS_IO_ATTEMPTS`; any other failure,
/// and any failure on the last attempt, ends the retries.
pub proof fn lemma_only_transient_failures_are_retried(raw_os_error: Option<i32>, attempt: int)
    requires
        0 <= attempt,
    ensures
        attempt >= WINDOWS_IO_ATTEMPTS - 1 ==> !windows_io_retried(raw_os_error, attempt),
        (attempt < WINDOWS_IO_ATTEMPTS - 1 && (raw_os_error == Some(5i32) || raw_os_error == Some(
            32i32,
        ) || raw_os_error == Some(33i32))) ==> windows_io_retried(raw_os_error, attempt),
        !(raw_os_error == Some(5i32) || raw_os_error == Some(32i32) || raw_os_error == Some(33i32))
            ==> !windows_io_retried(raw_os_error, attempt),
{
}

/// Whether attempt `attempt` (counting from 0), which failed with
/// `raw_os_error`, is tried again after the retry delay.
pub fn retry_windows_io(raw_os_error: Option<i32>, attempt: usize) -> (r: bool)
    ensures
        r == windows_io_retried(raw_os_error, attempt as int),
{
    let transient = match raw_os_error {
        Some(code) => code == 5 || code == 32 || code == 33,
        None => false,
    };
    transient && attempt < WINDOWS_IO_ATTEMPTS - 1
}

/// What a failed no-replace publication reports: a destination that
/// already exists (or is held) is a conflict; any other failure is a host
/// I/O failure.
pub fn no_replace_error(failure: IoFailure, platform: HostPlatform) -> (e: PongError)
    ensures
        (failure.kind == IoErrorKind::AlreadyExists || failure.kind == IoErrorKind::WouldBlock)
            ==> (e matches PongError::Conflict(m) && m@
            == "materialization destination already exists"@),
        !(failure.kind == IoErrorKind::AlreadyExists || failure.kind == IoErrorKind::WouldBlock)
            ==> io_error_spec(failure, platform, e),
{
    match failure.kind {
        IoErrorKind::AlreadyExists | IoErrorKind::WouldBlock => PongError::Conflict(
            text_of("materialization destination already exists"),
        ),
        _ => PongError::from_io(failure, platform),
    }
}


/// Where the last `/` of a path stands, or -1.
pub open spec fn last_slash(p: Seq<char>) -> int
    decreases p.len(),
{
    if p.len() == 0 {
        -1
    } else if p.last() == '/' {
        p.len() - 1
    } else {
        last_slash(p.drop_last())
    }
}

/// The parent directory of a path written without a trailing separator,
/// as `Path::parent` gives it: none for the empty path and the root, the
/// empty path for a bare name, the root for a name right under it, and
/// otherwise the text before the last separator.
pub open spec fn path_parent(p: Seq<char>) -> Option<Seq<char>> {
    if p.len() == 0 || p == seq!['/'] {
        None
    } else if last_slash(p) < 0 {
        Some(Seq::empty())
    } else if last_slash(p) == 0 {
        Some(seq!['/'])
    } else {
        Some(p.take(last_slash(p)))
    }
}

fn parent_of(p: &str) -> (r: Option<String>)
    ensures
        match path_parent(p@) {
            Some(q) => r matches Some(s) && s@ == q,
            None => r is None,
        },
{
    let chars = chars_of(p);
    if chars.len() == 0 || (chars.len() == 1 && chars[0] == '/') {
        proof {
            if chars@.len() == 1 {
                assert(p@ =~= seq!['/']);
            }
        }
        return None;
    }
    proof {
        assert(p@ != seq!['/']) by {
            if p@ == seq!['/'] {
                assert(chars@.len() == 1 && chars@[0] == '/');
            }
        }
    }
    let mut i: usize = chars.len();
    proof {
        assert(chars@.take(i as int) =~= chars@);
    }
    while i > 0 && chars[i - 1] != '/'
        invariant
            i <= chars@.len(),
            chars@ == p@,
            last_slash(p@) == last_slash(chars@.take(i as int)),
        decreases i,
    {
        proof {
            assert(chars@.take(i as int).drop_last() =~= chars@.take(i - 1));
        }
        i = i - 1;
    }
    proof {
        if i > 0 {
            assert(chars@.take(i as int).last() == '/');
        } else {
            assert(chars@.take(0) =~= Seq::<char>::empty());
        }
    }
    if i == 0 {
        return Some(string_from_chars(&[]));
    }
    if i == 1 {
        let root: Vec<char> = vec!['/'];
        proof {
            assert(root@ =~= seq!['/']);
        }
        return Some(string_from_chars(root.as_slice()));
    }
    let mut head: Vec<char> = Vec::new();
    let mut k: usize = 0;
    while k < i - 1
        invariant
            k <= i - 1,
            i <= chars@.len(),
            head@ == chars@.take(k as int),
        decreases i - 1 - k,
    {
        head.push(chars[k]);
        k = k + 1;
        assert(head@ =~= chars@.take(k as int));
    }
    Some(string_from_chars(head.as_slice()))
}

/// Check the two paths of an atomic replacement before any rename: they
/// differ, both have a parent directory, and it is the same one. Gives that
/// directory, which is synced after the rename.
pub fn check_replacement_paths(temp: &str, destination: &str) -> (r: Result<String, PongError>)
    ensures
        temp@ == destination@ ==> (r matches Err(PongError::InvalidInput(m)) && m@
            == "atomic replacement requires distinct temp and destination paths"@),
        (temp@ != destination@ && path_parent(temp@) is None) ==> (r matches Err(
            PongError::InvalidInput(m),
        ) && m@ == "atomic replacement temp path has no parent directory"@),
        (temp@ != destination@ && path_parent(temp@) is Some && path_parent(destination@) is None)
            ==> (r matches Err(PongError::InvalidInput(m)) && m@
            == "atomic replacement destination path has no parent directory"@),
        (temp@ != destination@ && path_parent(temp@) is Some && path_parent(destination@) is Some
            && path_parent(temp@) != path_parent(destination@)) ==> (r matches Err(
            PongError::InvalidInput(m),
        ) && m@ == "atomic replacement requires temp and destination to be in the same directory"@),
        r matches Ok(d) ==> temp@ != destination@ && path_parent(temp@) == Some(d@)
            && path_parent(destination@) == Some(d@),
        (temp@ != destination@ && path_parent(temp@) is Some && path_parent(temp@) == path_parent(
            destination@,
        )) ==> r is Ok,
{
    if str_equal(temp, destination) {
        return Err(
            PongError::InvalidInput(
                text_of("atomic replacement requires distinct temp and destination paths"),
            ),
        );
    }
    let temp_parent = match parent_of(temp) {
        Some(p) => p,
        None => {
            return Err(
                PongError::InvalidInput(text_of("atomic replacement temp path has no parent directory")),
            );
        },
    };
    let destination_parent = match parent_of(destination) {
        Some(p) => p,
        None => {
            return Err(
                PongError::InvalidInput(
                    text_of("atomic replacement destination path has no parent directory"),
                ),
            );
        },
    };
    if !str_equal(temp_parent.as_str(), destination_parent.as_str()) {
        return Err(
            PongError::InvalidInput(
                text_of("atomic replacement requires temp and destination to be in the same directory"),
            ),
        );
    }
    Ok(destination_parent)
}

} // verus!
