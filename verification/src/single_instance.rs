//! One daemon per state directory.
//!
//! The daemon takes an exclusive lock on a file in the state directory. The kernel
//! releases it when the process ends, however it ends.
use crate::error::{error_with, AgentdError, AgentdErrorView, AgentdReason};
use crate::os_text::{display_text, OsText};
use crate::paths::joined_path;
use vstd::prelude::*;
use vstd::string::*;
use vstd::utf8::*;

verus! {

/// The name of the lock file.
pub const LOCK_FILE_NAME: &'static str = ".agentd.lock";

/// The lock file of a state directory.
pub open spec fn lock_file(state_dir: Seq<u8>) -> Seq<u8> {
    joined_path(state_dir, encode_utf8(LOCK_FILE_NAME@))
}

/// The lock file of a state directory.
pub fn lock_path(state_dir: &OsText) -> (path: OsText)
    ensures
        path@ == lock_file(state_dir@),
{
    state_dir.join(&OsText::from_text(LOCK_FILE_NAME))
}

/// What trying to take the lock came to.
#[derive(Debug, PartialEq, Eq)]
pub enum LockAttempt {
    /// The state directory could not be created.
    NoDirectory,
    /// The lock file could not be opened.
    NoFile,
    /// The lock was taken.
    Taken,
    /// Another process holds the lock.
    Held,
    /// Taking the lock failed, and why.
    Failed(String),
}

/// A lock that is held.
#[derive(Debug, PartialEq, Eq)]
pub struct InstanceLock {
    pub path: OsText,
}

/// The error where the lock could not be taken.
pub open spec fn lock_error(state_dir: Seq<u8>, attempt: LockAttempt) -> Option<AgentdErrorView> {
    match attempt {
        LockAttempt::Taken => None,
        LockAttempt::NoDirectory => Some(
            error_with(AgentdReason::SystemError, "create state dir for instance lock"@),
        ),
        LockAttempt::NoFile => Some(
            error_with(AgentdReason::SystemError, "open instance lock file"@),
        ),
        LockAttempt::Held => Some(
            error_with(
                AgentdReason::AlreadyRunning,
                "another wist-agentd instance is already running (lock file: "@ + display_text(
                    lock_file(state_dir),
                ) + ")"@,
            ),
        ),
        LockAttempt::Failed(cause) => Some(
            error_with(
                AgentdReason::SystemError,
                "lock instance file "@ + display_text(lock_file(state_dir)) + ": "@ + cause@,
            ),
        ),
    }
}

/// The lock of a state directory, from what trying to take it came to.
pub fn acquire(state_dir: &OsText, attempt: LockAttempt) -> (out: Result<InstanceLock, AgentdError>)
    ensures
        match out {
            Ok(lock) => lock_error(state_dir@, attempt) is None && lock.path@ == lock_file(
                state_dir@,
            ),
            Err(e) => lock_error(state_dir@, attempt) == Some(e@),
        },
{
    let path = lock_path(state_dir);
    match attempt {
        LockAttempt::Taken => Ok(InstanceLock { path }),
        LockAttempt::NoDirectory => Err(
            AgentdError::with_detail(
                AgentdReason::SystemError,
                "create state dir for instance lock".to_string(),
            ),
        ),
        LockAttempt::NoFile => Err(
            AgentdError::with_detail(
                AgentdReason::SystemError,
                "open instance lock file".to_string(),
            ),
        ),
        LockAttempt::Held => {
            let mut detail =
                "another wist-agentd instance is already running (lock file: ".to_string();
            detail.append(path.display().as_str());
            detail.append(")");
            Err(AgentdError::with_detail(AgentdReason::AlreadyRunning, detail))
        },
        LockAttempt::Failed(cause) => {
            let mut detail = "lock instance file ".to_string();
            detail.append(path.display().as_str());
            detail.append(": ");
            detail.append(cause.as_str());
            Err(AgentdError::with_detail(AgentdReason::SystemError, detail))
        },
    }
}

/// What trying the lock comes to where the directory and the file can be made: the lock is
/// taken unless it is held, and nobody waits for it.
pub open spec fn attempt_on(held: Set<Seq<u8>>, state_dir: Seq<u8>) -> LockAttempt {
    if held.contains(lock_file(state_dir)) {
        LockAttempt::Held
    } else {
        LockAttempt::Taken
    }
}

/// The locks that are held after trying that of a state directory.
pub open spec fn held_after(held: Set<Seq<u8>>, state_dir: Seq<u8>) -> Set<Seq<u8>> {
    if lock_error(state_dir, attempt_on(held, state_dir)) is None {
        held.insert(lock_file(state_dir))
    } else {
        held
    }
}

/// While the lock of a state directory is held, a second daemon is told that one is running
/// and the lock stays where it is; once it is released, it can be had again. The lock file
/// has no part in this: it may be there all the time.
pub proof fn law_second_instance_is_refused(held: Set<Seq<u8>>, state_dir: Seq<u8>)
    requires
        !held.contains(lock_file(state_dir)),
    ensures
        ({
            let first = held_after(held, state_dir);
            let second = lock_error(state_dir, attempt_on(first, state_dir));
            let released = first.remove(lock_file(state_dir));
            &&& lock_error(state_dir, attempt_on(held, state_dir)) is None
            &&& second matches Some(e) && e.reason == AgentdReason::AlreadyRunning
            &&& held_after(first, state_dir) == first
            &&& released == held
            &&& lock_error(state_dir, attempt_on(released, state_dir)) is None
        }),
{
    assert(held.insert(lock_file(state_dir)).remove(lock_file(state_dir)) =~= held);
}

} // verus!
