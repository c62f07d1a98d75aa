//! Scopes that unlock a thread: library unlocks and internal bypasses of the license check.
//!
//! A thread carries a [`ThreadScopes`]. A guard counts as one open scope until it is released on
//! the thread where it was made; scopes may be nested and end in any order.

use crate::manager::LicenseManager;
use vstd::prelude::*;

verus! {

/// The open scopes of a thread.
#[derive(Clone, Copy)]
pub struct ThreadScopes {
    bypasses: usize,
    unlocks: usize,
    frame: bool,
}

/// What [`ThreadScopes`] stand for.
pub struct ScopesView {
    /// The number of open internal bypasses.
    pub bypasses: nat,
    /// The number of open library unlocks.
    pub unlocks: nat,
    /// Whether the calling frame of an interpreter belongs to an unlocked package.
    pub frame: bool,
}

impl View for ThreadScopes {
    type V = ScopesView;

    closed spec fn view(&self) -> ScopesView {
        ScopesView {
            bypasses: self.bypasses as nat,
            unlocks: self.unlocks as nat,
            frame: self.frame,
        }
    }
}

/// Whether a library is unlocked on the thread.
pub open spec fn library_unlocked(v: ScopesView) -> bool {
    v.unlocks > 0 || v.frame
}

/// Whether the license check is passed over on the thread.
pub open spec fn check_bypassed(v: ScopesView) -> bool {
    v.bypasses > 0 || library_unlocked(v)
}

/// One less, but not less than zero.
pub open spec fn minus_one(n: nat) -> nat {
    if n > 0 {
        (n - 1) as nat
    } else {
        0
    }
}

impl ThreadScopes {
    /// A thread without open scopes.
    pub fn new() -> (r: ThreadScopes)
        ensures
            r@ == (ScopesView { bypasses: 0, unlocks: 0, frame: false }),
    {
        ThreadScopes { bypasses: 0, unlocks: 0, frame: false }
    }

    /// The same scopes, seen from a frame of an interpreter that belongs to an unlocked package,
    /// or to none.
    pub fn in_frame(&self, frame: bool) -> (r: ThreadScopes)
        ensures
            r@ == (ScopesView { frame: frame, ..self@ }),
    {
        ThreadScopes { bypasses: self.bypasses, unlocks: self.unlocks, frame }
    }

    /// The number of open internal bypasses.
    pub fn bypass_depth(&self) -> (r: usize)
        ensures
            r == self@.bypasses,
    {
        self.bypasses
    }

    /// The number of open library unlocks.
    pub fn unlock_depth(&self) -> (r: usize)
        ensures
            r == self@.unlocks,
    {
        self.unlocks
    }

    /// Whether the calling frame belongs to an unlocked package.
    pub fn in_unlocked_frame(&self) -> (r: bool)
        ensures
            r == self@.frame,
    {
        self.frame
    }
}

/// Whether the thread is inside a library unlock scope.
pub fn current_thread_is_unlocked(thread: &ThreadScopes) -> (r: bool)
    ensures
        r == (thread@.unlocks > 0),
{
    thread.unlocks != 0
}

/// An open internal bypass of the license check.
#[must_use]
pub struct InternalLicenseBypassGuard {
    _private: (),
}

impl InternalLicenseBypassGuard {
    /// Opens a bypass. The scopes of a thread cannot be nested deeper than they can be counted.
    pub fn new(thread: &mut ThreadScopes) -> (r: Self)
        requires
            old(thread)@.bypasses < usize::MAX,
        ensures
            final(thread)@ == (ScopesView {
                bypasses: old(thread)@.bypasses + 1,
                ..old(thread)@
            }),
            final(thread)@ == after_step(old(thread)@, Step::OpenBypass),
    {
        thread.bypasses = thread.bypasses + 1;
        InternalLicenseBypassGuard { _private: () }
    }

    /// Ends the bypass.
    pub fn release(self, thread: &mut ThreadScopes)
        ensures
            final(thread)@ == (ScopesView {
                bypasses: minus_one(old(thread)@.bypasses),
                ..old(thread)@
            }),
            final(thread)@ == after_step(old(thread)@, Step::EndBypass),
    {
        thread.bypasses = thread.bypasses.saturating_sub(1);
    }
}

/// Opens an internal bypass of the license check.
pub fn bypass_license_check_internal(thread: &mut ThreadScopes) -> (r: InternalLicenseBypassGuard)
    requires
        old(thread)@.bypasses < usize::MAX,
    ensures
        final(thread)@ == (ScopesView { bypasses: old(thread)@.bypasses + 1, ..old(thread)@ }),
        final(thread)@ == after_step(old(thread)@, Step::OpenBypass),
{
    InternalLicenseBypassGuard::new(thread)
}

/// An open library unlock. Calls on the same thread, callbacks among them, are authorized until it
/// is released; other threads are not.
#[must_use]
pub struct LibraryUnlockGuard {
    _private: (),
}

impl LibraryUnlockGuard {
    /// Opens an unlock. The scopes of a thread cannot be nested deeper than they can be counted.
    pub(crate) fn activate(thread: &mut ThreadScopes) -> (r: Self)
        requires
            old(thread)@.unlocks < usize::MAX,
        ensures
            final(thread)@ == (ScopesView { unlocks: old(thread)@.unlocks + 1, ..old(thread)@ }),
            final(thread)@ == after_step(old(thread)@, Step::OpenUnlock),
    {
        thread.unlocks = thread.unlocks + 1;
        LibraryUnlockGuard { _private: () }
    }

    /// Ends the unlock.
    pub fn release(self, thread: &mut ThreadScopes)
        ensures
            final(thread)@ == (ScopesView {
                unlocks: minus_one(old(thread)@.unlocks),
                ..old(thread)@
            }),
            final(thread)@ == after_step(old(thread)@, Step::EndUnlock),
    {
        thread.unlocks = thread.unlocks.saturating_sub(1);
    }
}

/// The authorization of a thread, taken along to a worker thread.
#[derive(Clone, Copy)]
pub struct InheritedLibraryUnlock(bool);

impl InheritedLibraryUnlock {
    /// Whether the worker will be authorized.
    pub closed spec fn authorized(&self) -> bool {
        self.0
    }

    /// Takes down whether a library is unlocked on the calling thread.
    pub fn capture(thread: &ThreadScopes) -> (r: Self)
        ensures
            r.authorized() == library_unlocked(thread@),
    {
        InheritedLibraryUnlock(LicenseManager::is_library_unlocked(thread))
    }

    /// Opens an unlock on the worker thread where the calling thread was authorized.
    pub fn activate(self, worker: &mut ThreadScopes) -> (r: Option<LibraryUnlockGuard>)
        requires
            old(worker)@.unlocks < usize::MAX,
        ensures
            r is Some <==> self.authorized(),
            self.authorized() ==> final(worker)@ == after_step(old(worker)@, Step::OpenUnlock),
            self.authorized() ==> library_unlocked(final(worker)@),
            final(worker)@ == (if self.authorized() {
                ScopesView { unlocks: old(worker)@.unlocks + 1, ..old(worker)@ }
            } else {
                old(worker)@
            }),
    {
        if self.0 {
            Some(LibraryUnlockGuard::activate(worker))
        } else {
            None
        }
    }
}

/// What may happen to the scopes of a thread.
pub enum Step {
    /// A library unlock is opened.
    OpenUnlock,
    /// The guard of a library unlock is released.
    EndUnlock,
    /// An internal bypass is opened.
    OpenBypass,
    /// The guard of an internal bypass is released.
    EndBypass,
}

/// What becomes of the scopes of a thread in a step.
pub open spec fn after_step(v: ScopesView, step: Step) -> ScopesView {
    match step {
        Step::OpenUnlock => ScopesView { unlocks: v.unlocks + 1, ..v },
        Step::EndUnlock => ScopesView { unlocks: minus_one(v.unlocks), ..v },
        Step::OpenBypass => ScopesView { bypasses: v.bypasses + 1, ..v },
        Step::EndBypass => ScopesView { bypasses: minus_one(v.bypasses), ..v },
    }
}

/// What becomes of the scopes of a thread in a run of steps.
pub open spec fn run(v: ScopesView, steps: Seq<Step>) -> ScopesView
    decreases steps.len(),
{
    if steps.len() == 0 {
        v
    } else {
        after_step(run(v, steps.drop_last()), steps.last())
    }
}

/// The number of unlocks that a run leaves open.
pub open spec fn open_unlocks(steps: Seq<Step>) -> int
    decreases steps.len(),
{
    if steps.len() == 0 {
        0
    } else {
        open_unlocks(steps.drop_last()) + match steps.last() {
            Step::OpenUnlock => 1int,
            Step::EndUnlock => -1int,
            _ => 0int,
        }
    }
}

/// The number of bypasses that a run leaves open.
pub open spec fn open_bypasses(steps: Seq<Step>) -> int
    decreases steps.len(),
{
    if steps.len() == 0 {
        0
    } else {
        open_bypasses(steps.drop_last()) + match steps.last() {
            Step::OpenBypass => 1int,
            Step::EndBypass => -1int,
            _ => 0int,
        }
    }
}

/// Scopes nest, and unlocks and bypasses do not touch each other: as long as no more guards of
/// either are released than were made, the thread is unlocked, or the check passed over, while
/// one of them is open, whichever, and all is as it was before once all were released.
pub proof fn law_scopes_nest(v: ScopesView, steps: Seq<Step>)
    requires
        forall|k: int|
            0 <= k <= steps.len() ==> open_unlocks(#[trigger] steps.take(k)) >= 0 && open_bypasses(
                steps.take(k),
            ) >= 0,
    ensures
        run(v, steps) == (ScopesView {
            unlocks: (v.unlocks + open_unlocks(steps)) as nat,
            bypasses: (v.bypasses + open_bypasses(steps)) as nat,
            ..v
        }),
        open_unlocks(steps) > 0 ==> library_unlocked(run(v, steps)) && check_bypassed(
            run(v, steps),
        ),
        open_bypasses(steps) > 0 ==> check_bypassed(run(v, steps)),
        v.frame ==> library_unlocked(run(v, steps)),
        v.unlocks == 0 && !v.frame && open_unlocks(steps) == 0 ==> !library_unlocked(
            run(v, steps),
        ),
        v.unlocks == 0 && v.bypasses == 0 && !v.frame && open_unlocks(steps) == 0
            && open_bypasses(steps) == 0 ==> !check_bypassed(run(v, steps)),
        open_unlocks(steps) == 0 && open_bypasses(steps) == 0 ==> run(v, steps) == v,
    decreases steps.len(),
{
    assert(steps.take(steps.len() as int) =~= steps);
    if steps.len() > 0 {
        let head = steps.drop_last();
        assert forall|k: int| 0 <= k <= head.len() implies open_unlocks(#[trigger] head.take(k))
            >= 0 && open_bypasses(head.take(k)) >= 0 by {
            assert(head.take(k) =~= steps.take(k));
        }
        law_scopes_nest(v, head);
        assert(steps.take(steps.len() - 1) =~= head);
    }
}

} // verus!
