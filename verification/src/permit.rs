//! The permit of a restricted thread: without a license, one thread per user may run.
//!
//! The permit of a thread rests on a lock that is shared by the processes of the user. It counts
//! for the process that took it: a forked child must not share the lock that it inherits from
//! its parent, and takes one of its own.

use crate::manager::LicenseManager;
use crate::messages::RESTRICTED_THREAD_WARNING;
use vstd::prelude::*;

verus! {

/// What is said in front of the reason why no lock could be had.
pub const PERMIT_ERROR: &'static str = "Could not acquire Symbolica thread permit: ";

/// The name of the lock of restricted threads.
pub const RESTRICTED_THREAD_LOCK: &'static str = "symbolica-restricted-thread-0.lock";

/// A permit, held as long as its lock is.
pub struct RestrictedThreadPermit<L> {
    pid: u32,
    lock: L,
}

impl<L> RestrictedThreadPermit<L> {
    /// The process that took the permit.
    pub closed spec fn pid(&self) -> u32 {
        self.pid
    }

    /// The lock on which the permit rests.
    pub closed spec fn lock(&self) -> L {
        self.lock
    }
}

/// What is said before the program ends for want of a permit.
pub struct Refusal {
    /// The reason, where it is another than that the lock is taken.
    pub error: Option<String>,
    /// The warning that follows.
    pub warning: &'static str,
}

/// Whether a thread has a permit of the process.
pub open spec fn is_permitted<L>(permit: Option<RestrictedThreadPermit<L>>, pid: u32) -> bool {
    match permit {
        Some(p) => p.pid() == pid,
        None => false,
    }
}

/// Whether a refusal says why no lock could be had, if it could not be asked for.
pub open spec fn refuses(refusal: Refusal, error: Option<Seq<char>>) -> bool {
    &&& refusal.warning@ == RESTRICTED_THREAD_WARNING@
    &&& match (refusal.error, error) {
        (None, None) => true,
        (Some(said), Some(cause)) => said@ == PERMIT_ERROR@ + cause,
        _ => false,
    }
}

/// What becomes of the permit of a thread when the attempt to take the lock ends in `attempt`.
pub open spec fn permit_after<L>(
    attempt: Result<Option<L>, String>,
    pid: u32,
    r: Result<(), Refusal>,
    permit_then: Option<RestrictedThreadPermit<L>>,
) -> bool {
    match attempt {
        Ok(Some(lock)) => r is Ok && permit_then is Some && permit_then->0.pid() == pid
            && permit_then->0.lock() == lock,
        Ok(None) => r is Err && refuses(r->Err_0, None) && permit_then is None,
        Err(e) => r is Err && refuses(r->Err_0, Some(e@)) && permit_then is None,
    }
}

/// What becomes of the permit of a thread: one of the process stays, another is given up and the
/// lock is tried for.
pub open spec fn permit_outcome<L, G: FnOnce() -> Result<Option<L>, String>>(
    permit: Option<RestrictedThreadPermit<L>>,
    pid: u32,
    try_lock: G,
    r: Result<(), Refusal>,
    permit_then: Option<RestrictedThreadPermit<L>>,
) -> bool {
    if is_permitted(permit, pid) {
        r is Ok && permit_then == permit
    } else {
        exists|attempt: Result<Option<L>, String>| #[trigger]
            call_ensures(try_lock, (), attempt) && permit_after(attempt, pid, r, permit_then)
    }
}

impl LicenseManager {
    /// Gets the permit of the thread for the process, or says what to print before it ends.
    pub fn acquire_restricted_thread_permit<L, G: FnOnce() -> Result<Option<L>, String>>(
        permit: &mut Option<RestrictedThreadPermit<L>>,
        pid: u32,
        try_lock: G,
    ) -> (r: Result<(), Refusal>)
        requires
            !is_permitted(*old(permit), pid) ==> call_requires(try_lock, ()),
        ensures
            permit_outcome(*old(permit), pid, try_lock, r, *final(permit)),
            r is Ok <==> is_permitted(*final(permit), pid),
    {
        if let Some(held) = &*permit {
            if held.pid == pid {
                return Ok(());
            }
        }
        *permit = None;
        match try_lock() {
            Ok(Some(lock)) => {
                *permit = Some(RestrictedThreadPermit { pid, lock });
                Ok(())
            },
            Ok(None) => Err(Refusal { error: None, warning: RESTRICTED_THREAD_WARNING }),
            Err(e) => {
                let mut said: String = PERMIT_ERROR.to_owned();
                said.append(e.as_str());
                Err(Refusal { error: Some(said), warning: RESTRICTED_THREAD_WARNING })
            },
        }
    }
}

/// A thread that has a permit keeps it, without asking for the lock again.
pub proof fn law_permits_are_kept<
    L,
    G: FnOnce() -> Result<Option<L>, String>,
    H: FnOnce() -> Result<Option<L>, String>,
>(
    permit: Option<RestrictedThreadPermit<L>>,
    pid: u32,
    first: G,
    r: Result<(), Refusal>,
    permit_then: Option<RestrictedThreadPermit<L>>,
    second: H,
    r_then: Result<(), Refusal>,
    permit_last: Option<RestrictedThreadPermit<L>>,
)
    requires
        permit_outcome(permit, pid, first, r, permit_then),
        r is Ok,
        permit_outcome(permit_then, pid, second, r_then, permit_last),
    ensures
        r_then is Ok,
        permit_last == permit_then,
{
}

/// A process does not run on the permit of another one: where it ends up with a permit, that rests
/// on a lock that it took itself.
pub proof fn law_permits_are_not_inherited<L, G: FnOnce() -> Result<Option<L>, String>>(
    permit: RestrictedThreadPermit<L>,
    pid: u32,
    try_lock: G,
    r: Result<(), Refusal>,
    permit_then: Option<RestrictedThreadPermit<L>>,
)
    requires
        permit.pid() != pid,
        permit_outcome(Some(permit), pid, try_lock, r, permit_then),
    ensures
        r is Ok ==> permit_then is Some && permit_then->0.pid() == pid && call_ensures(
            try_lock,
            (),
            Ok(Some(permit_then->0.lock())),
        ),
        r is Err ==> permit_then is None,
{
}

} // verus!
