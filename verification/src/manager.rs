//! The license of the process: how a key activates it, and what it allows.

use crate::activation;
use crate::clock;
use crate::messages::MISSING_LICENSE_ERROR;
use crate::permit;
use crate::permit::{Refusal, RestrictedThreadPermit};
use crate::scopes;
use crate::scopes::{ScopesView, ThreadScopes};
use crate::signed;
use crate::signed::Purpose;
use crate::startup;
use crate::startup::{Startup, Terminal};
use crate::state;
use crate::state::{Build, BuildView, CheckedLicenses, Job, JobView};
use crate::text;
use vstd::prelude::*;

verus! {

/// A second key in one process.
pub const DIFFERENT_KEY_ERROR: &'static str =
    "Different license key cannot be set in same session";

/// Manages the license of the process.
pub struct LicenseManager {
    has_license: bool,
}

impl LicenseManager {
    /// Whether the manager found a license when it was made.
    pub closed spec fn has_license(&self) -> bool {
        self.has_license
    }
}

/// Runtime capabilities that depend on the build and the license.
#[derive(Debug, Clone, Copy, PartialEq, Eq)]
pub struct ExecutionCapabilities {
    /// Whether the build requires a license before unrestricted use.
    pub license_required: bool,
    /// Whether the process is considered licensed at present.
    pub is_licensed: bool,
    /// The largest number of worker threads for parallel work that needs a license.
    pub max_threads: usize,
    /// Whether native code generation and the loading of shared evaluators are available.
    pub native_code_generation: bool,
    /// Whether the license server can be asked.
    pub license_networking: bool,
}

/// The license state of the process.
pub struct LicenseState {
    build: Build,
    license_key: Option<String>,
    licensed: bool,
    oem: bool,
    manager: Option<LicenseManager>,
    checked: CheckedLicenses,
    jobs: Vec<Job>,
}

/// What a [`LicenseState`] stands for.
pub struct StateView {
    /// The build.
    pub build: BuildView,
    /// The key that was set.
    pub license_key: Option<Seq<char>>,
    /// Whether a license was activated.
    pub licensed: bool,
    /// Whether it was, or also was, an OEM license.
    pub oem: bool,
    /// Whether the manager found a license, once it was made.
    pub manager: Option<bool>,
    /// The licenses of library unlocks that were checked, with the process that did so.
    pub checked: Set<(u32, Seq<char>)>,
    /// The jobs that wait to be run.
    pub jobs: Seq<JobView>,
}

impl View for LicenseState {
    type V = StateView;

    closed spec fn view(&self) -> StateView {
        StateView {
            build: self.build@,
            license_key: activation::text_view(self.license_key),
            licensed: self.licensed,
            oem: self.oem,
            manager: match self.manager {
                Some(manager) => Some(manager.has_license()),
                None => None,
            },
            checked: self.checked@,
            jobs: state::job_views(self.jobs@),
        }
    }
}

impl Clone for LicenseState {
    fn clone(&self) -> (r: Self)
        ensures
            r@ == self@,
    {
        let license_key: Option<String> = match &self.license_key {
            Some(key) => Some(key.as_str().to_owned()),
            None => None,
        };
        let manager: Option<LicenseManager> = match &self.manager {
            Some(manager) => Some(LicenseManager { has_license: manager.has_license }),
            None => None,
        };
        let mut jobs: Vec<Job> = Vec::new();
        let mut i: usize = 0;
        while i < self.jobs.len()
            invariant
                i <= self.jobs@.len(),
                jobs@.len() == i,
                forall|j: int| 0 <= j < i ==> (#[trigger] jobs@[j])@ == self.jobs@[j]@,
            decreases self.jobs.len() - i,
        {
            jobs.push(self.jobs[i].clone());
            i += 1;
        }
        assert(state::job_views(jobs@) =~= state::job_views(self.jobs@));
        LicenseState {
            build: self.build.clone(),
            license_key,
            licensed: self.licensed,
            oem: self.oem,
            manager,
            checked: self.checked.clone(),
            jobs,
        }
    }
}

/// Whether one state may follow another: the build is the same, an activation lasts, a key and a
/// manager once set stay, and a license that was checked counts as checked.
pub open spec fn follows(s: StateView, s_then: StateView) -> bool {
    &&& s_then.build == s.build
    &&& s.licensed ==> s_then.licensed
    &&& s.oem ==> s_then.oem
    &&& s.license_key is Some ==> s_then.license_key == s.license_key
    &&& s.manager is Some ==> s_then.manager == s.manager
    &&& s.checked.subset_of(s_then.checked)
}

/// The key that counts: the one that was set, or the one of the environment.
pub open spec fn effective_key(s: StateView, environment: Option<Seq<char>>) -> Option<Seq<char>> {
    match s.license_key {
        Some(key) => Some(key),
        None => environment,
    }
}

/// What a check of the license key answers when the clock shows `clock`, and the state that it
/// leaves.
pub open spec fn key_checked_at<F: FnOnce(String) -> Result<(), String>>(
    s: StateView,
    environment: Option<Seq<char>>,
    clock: Option<u64>,
    check_registration: F,
    r: Result<(), String>,
    s_then: StateView,
) -> bool {
    if s.build.wasm32 {
        r is Ok && s_then == (StateView { licensed: true, ..s })
    } else {
        match effective_key(s, environment) {
            None => {
                &&& text::agrees(r, Err(MISSING_LICENSE_ERROR@))
                &&& s_then == (StateView { jobs: s.jobs.push(JobView::Announce), ..s })
            },
            Some(key) => {
                &&& activation::validated_at(
                    key,
                    clock,
                    check_registration,
                    r,
                    s.jobs,
                    s_then.jobs,
                )
                &&& s_then == (StateView {
                    licensed: s.licensed || r is Ok,
                    jobs: s_then.jobs,
                    ..s
                })
            },
        }
    }
}

/// What a check of the license key answers at the present time, and the state that it leaves.
pub open spec fn key_checked<F: FnOnce(String) -> Result<(), String>>(
    s: StateView,
    environment: Option<Seq<char>>,
    check_registration: F,
    r: Result<(), String>,
    s_then: StateView,
) -> bool {
    exists|clock: Option<u64>| #[trigger]
        key_checked_at(s, environment, clock, check_registration, r, s_then) && (s.build.wasm32 || clock::shown(clock))
}

/// What the setting of a key answers when the clock shows `clock`, and the state that it leaves.
pub open spec fn key_set_at<F: FnOnce(String) -> Result<(), String>>(
    s: StateView,
    key: Seq<char>,
    environment: Option<Seq<char>>,
    clock: Option<u64>,
    check_registration: F,
    r: Result<(), String>,
    s_then: StateView,
) -> bool {
    if s.license_key is Some && s.license_key != Some(key) {
        text::agrees(r, Err(DIFFERENT_KEY_ERROR@)) && s_then == s
    } else {
        key_checked_at(
            StateView { license_key: Some(key), ..s },
            environment,
            clock,
            check_registration,
            r,
            s_then,
        )
    }
}

/// What the setting of a key answers at the present time, and the state that it leaves.
pub open spec fn key_set<F: FnOnce(String) -> Result<(), String>>(
    s: StateView,
    key: Seq<char>,
    environment: Option<Seq<char>>,
    check_registration: F,
    r: Result<(), String>,
    s_then: StateView,
) -> bool {
    exists|clock: Option<u64>| #[trigger]
        key_set_at(s, key, environment, clock, check_registration, r, s_then) && (s.build.wasm32 || clock::shown(clock))
}

/// What the activation of an OEM license answers when the clock shows `clock`, and the state that
/// it leaves.
pub open spec fn oem_activated(
    s: StateView,
    key: Seq<u8>,
    crate_name: &str,
    clock: Option<u64>,
    r: Result<(), String>,
    s_then: StateView,
) -> bool {
    if s.build.wasm32 {
        r is Ok && s_then == (StateView { licensed: true, oem: true, ..s })
    } else {
        &&& text::agrees(
            r,
            activation::granted(signed::issued_outcome(key, Purpose::Oem(crate_name), clock)),
        )
        &&& s_then == (StateView {
            licensed: s.licensed || r is Ok,
            oem: s.oem || r is Ok,
            ..s
        })
    }
}

/// Whether a key was set or an OEM license activated.
pub open spec fn has_key(s: StateView) -> bool {
    s.license_key is Some || s.oem
}

/// Whether the process is licensed on a thread when the clock shows `clock`, and the state that
/// the question leaves. Where no license is required, every key counts as valid, and the question
/// is whether there is one.
pub open spec fn licensed_on_at<F: FnOnce(String) -> Result<(), String>>(
    s: StateView,
    thread: ScopesView,
    environment: Option<Seq<char>>,
    clock: Option<u64>,
    check_registration: F,
    r: bool,
    s_then: StateView,
) -> bool {
    if s.build.wasm32 {
        r == has_key(s) && s_then == s
    } else if s.licensed || scopes::library_unlocked(thread) {
        r && s_then == s
    } else {
        exists|outcome: Result<(), String>| #[trigger]
            key_checked_at(s, environment, clock, check_registration, outcome, s_then) && r
                == outcome is Ok
    }
}

/// Whether the process is licensed on a thread at the present time, and the state that the
/// question leaves.
pub open spec fn licensed_on<F: FnOnce(String) -> Result<(), String>>(
    s: StateView,
    thread: ScopesView,
    environment: Option<Seq<char>>,
    check_registration: F,
    r: bool,
    s_then: StateView,
) -> bool {
    exists|clock: Option<u64>| #[trigger]
        licensed_on_at(
            s,
            thread,
            environment,
            clock,
            check_registration,
            r,
            s_then,
        ) && (s.build.wasm32 || clock::shown(clock))
}

/// At most one.
pub open spec fn at_most_one(requested: usize) -> usize {
    if requested < 1 {
        requested
    } else {
        1
    }
}

/// How many threads a thread may use when the clock shows `clock`, and the state that the question
/// leaves.
pub open spec fn threads_on_at<F: FnOnce(String) -> Result<(), String>>(
    s: StateView,
    thread: ScopesView,
    environment: Option<Seq<char>>,
    clock: Option<u64>,
    check_registration: F,
    requested: usize,
    r: usize,
    s_then: StateView,
) -> bool {
    if s.build.wasm32 {
        r == at_most_one(requested) && s_then == s
    } else if scopes::library_unlocked(thread) {
        r == requested && s_then == s
    } else {
        exists|licensed: bool| #[trigger]
            licensed_on_at(s, thread, environment, clock, check_registration, licensed, s_then)
                && r == (if licensed {
                requested
            } else {
                at_most_one(requested)
            })
    }
}

/// How many threads a thread may use at the present time, and the state that the question leaves.
pub open spec fn threads_on<F: FnOnce(String) -> Result<(), String>>(
    s: StateView,
    thread: ScopesView,
    environment: Option<Seq<char>>,
    check_registration: F,
    requested: usize,
    r: usize,
    s_then: StateView,
) -> bool {
    exists|clock: Option<u64>| #[trigger]
        threads_on_at(
            s,
            thread,
            environment,
            clock,
            check_registration,
            requested,
            r,
            s_then,
        ) && (s.build.wasm32 || clock::shown(clock))
}

/// The capabilities on a thread when the clock shows `clock`, with the state between the question
/// whether the process is licensed and the one how many threads it may use, and the state that
/// both leave.
pub open spec fn capable_on_at<F: FnOnce(String) -> Result<(), String>>(
    s: StateView,
    thread: ScopesView,
    environment: Option<Seq<char>>,
    clock: Option<u64>,
    check_registration: F,
    between: StateView,
    r: ExecutionCapabilities,
    s_then: StateView,
) -> bool {
    &&& licensed_on_at(
        s,
        thread,
        environment,
        clock,
        check_registration,
        r.is_licensed,
        between,
    )
    &&& threads_on_at(
        between,
        thread,
        environment,
        clock,
        check_registration,
        usize::MAX,
        r.max_threads,
        s_then,
    )
    &&& r.license_required == !s.build.wasm32
    &&& r.native_code_generation == s.build.native_code_generation
    &&& r.license_networking == !s.build.wasm32
}

/// The capabilities on a thread at the present time.
pub open spec fn capable_on<F: FnOnce(String) -> Result<(), String>>(
    s: StateView,
    thread: ScopesView,
    environment: Option<Seq<char>>,
    check_registration: F,
    between: StateView,
    r: ExecutionCapabilities,
    s_then: StateView,
) -> bool {
    exists|clock: Option<u64>| #[trigger]
        capable_on_at(
            s,
            thread,
            environment,
            clock,
            check_registration,
            between,
            r,
            s_then,
        ) && (s.build.wasm32 || clock::shown(clock))
}

/// What the making of a manager answers and asks for when the clock shows `clock`, and the state
/// that it leaves.
pub open spec fn manager_made_at<F: FnOnce(String) -> Result<(), String>>(
    s: StateView,
    environment: Option<Seq<char>>,
    clock: Option<u64>,
    terminal: Terminal,
    check_registration: F,
    has_license: bool,
    start: Startup,
    s_then: StateView,
) -> bool {
    exists|outcome: Result<(), String>| #[trigger]
        key_checked_at(s, environment, clock, check_registration, outcome, s_then) && has_license
            == outcome is Ok && startup::starts(start, outcome, terminal)
}

/// What the making of a manager answers and asks for at the present time, and the state that it
/// leaves.
pub open spec fn manager_made<F: FnOnce(String) -> Result<(), String>>(
    s: StateView,
    environment: Option<Seq<char>>,
    terminal: Terminal,
    check_registration: F,
    has_license: bool,
    start: Startup,
    s_then: StateView,
) -> bool {
    exists|clock: Option<u64>| #[trigger]
        manager_made_at(
            s,
            environment,
            clock,
            terminal,
            check_registration,
            has_license,
            start,
            s_then,
        ) && (s.build.wasm32 || clock::shown(clock))
}

/// What a license check that is not passed over asks for when the clock shows `clock`, and the
/// state and the permit that it leaves.
pub open spec fn license_checked_at<
    F: FnOnce(String) -> Result<(), String>,
    L,
    G: FnOnce() -> Result<Option<L>, String>,
>(
    s: StateView,
    environment: Option<Seq<char>>,
    clock: Option<u64>,
    terminal: Terminal,
    check_registration: F,
    permit: Option<RestrictedThreadPermit<L>>,
    pid: u32,
    try_lock: G,
    report: CheckReport,
    s_then: StateView,
    permit_then: Option<RestrictedThreadPermit<L>>,
) -> bool {
    &&& match s.manager {
        Some(_) => report.startup is None && s_then == s,
        None => {
            &&& report.startup is Some
            &&& s_then.manager is Some
            &&& manager_made_at(
                s,
                environment,
                clock,
                terminal,
                check_registration,
                s_then.manager->0,
                report.startup->0,
                StateView { manager: None, ..s_then },
            )
        },
    }
    &&& if s_then.manager == Some(true) {
        report.outcome is Ok && permit_then == permit
    } else {
        permit::permit_outcome(permit, pid, try_lock, report.outcome, permit_then)
    }
}

/// What a license check that is not passed over asks for at the present time, and the state and
/// the permit that it leaves.
pub open spec fn license_checked<
    F: FnOnce(String) -> Result<(), String>,
    L,
    G: FnOnce() -> Result<Option<L>, String>,
>(
    s: StateView,
    environment: Option<Seq<char>>,
    terminal: Terminal,
    check_registration: F,
    permit: Option<RestrictedThreadPermit<L>>,
    pid: u32,
    try_lock: G,
    report: CheckReport,
    s_then: StateView,
    permit_then: Option<RestrictedThreadPermit<L>>,
) -> bool {
    exists|clock: Option<u64>| #[trigger]
        license_checked_at(
            s,
            environment,
            clock,
            terminal,
            check_registration,
            permit,
            pid,
            try_lock,
            report,
            s_then,
            permit_then,
        ) && (s.build.wasm32 || clock::shown(clock))
}

/// What a license check on a thread asks for when the clock shows `clock`, and the state and the
/// permit that it leaves: nothing on a thread that is unlocked, once a license was activated, or
/// where none is required.
pub open spec fn checked_on_at<
    F: FnOnce(String) -> Result<(), String>,
    L,
    G: FnOnce() -> Result<Option<L>, String>,
>(
    s: StateView,
    thread: ScopesView,
    environment: Option<Seq<char>>,
    clock: Option<u64>,
    terminal: Terminal,
    check_registration: F,
    permit: Option<RestrictedThreadPermit<L>>,
    pid: u32,
    try_lock: G,
    report: CheckReport,
    s_then: StateView,
    permit_then: Option<RestrictedThreadPermit<L>>,
) -> bool {
    if s.build.wasm32 || s.licensed || scopes::check_bypassed(thread) {
        &&& report.startup is None
        &&& report.outcome is Ok
        &&& s_then == (StateView { licensed: s.build.wasm32 || s.licensed, ..s })
        &&& permit_then == permit
    } else {
        license_checked_at(
            s,
            environment,
            clock,
            terminal,
            check_registration,
            permit,
            pid,
            try_lock,
            report,
            s_then,
            permit_then,
        )
    }
}

/// What a license check on a thread asks for at the present time, and the state and the permit
/// that it leaves.
pub open spec fn checked_on<
    F: FnOnce(String) -> Result<(), String>,
    L,
    G: FnOnce() -> Result<Option<L>, String>,
>(
    s: StateView,
    thread: ScopesView,
    environment: Option<Seq<char>>,
    terminal: Terminal,
    check_registration: F,
    permit: Option<RestrictedThreadPermit<L>>,
    pid: u32,
    try_lock: G,
    report: CheckReport,
    s_then: StateView,
    permit_then: Option<RestrictedThreadPermit<L>>,
) -> bool {
    exists|clock: Option<u64>| #[trigger]
        checked_on_at(
            s,
            thread,
            environment,
            clock,
            terminal,
            check_registration,
            permit,
            pid,
            try_lock,
            report,
            s_then,
            permit_then,
        ) && (s.build.wasm32 || clock::shown(clock))
}

/// A registration check that is lent leaves a process licensed as it does itself.
proof fn lemma_licensed_on_by_reference<F: Fn(String) -> Result<(), String>>(
    s: StateView,
    thread: ScopesView,
    environment: Option<Seq<char>>,
    clock: Option<u64>,
    check_registration: &F,
    r: bool,
    s_then: StateView,
)
    requires
        licensed_on_at(s, thread, environment, clock, check_registration, r, s_then),
    ensures
        licensed_on_at(s, thread, environment, clock, *check_registration, r, s_then),
{
    if !s.build.wasm32 && !s.licensed && !scopes::library_unlocked(thread) {
        let outcome = choose|outcome: Result<(), String>| #[trigger]
            key_checked_at(s, environment, clock, check_registration, outcome, s_then) && r
                == outcome is Ok;
        if effective_key(s, environment) is Some {
            let key = effective_key(s, environment)->0;
            if activation::answered(check_registration, key, outcome) {
                let k = choose|k: String|
                    k@ == key && #[trigger] call_ensures(check_registration, (k,), outcome);
                assert(call_ensures(*check_registration, (k,), outcome));
            }
        }
        assert(key_checked_at(s, environment, clock, *check_registration, outcome, s_then));
    }
}

/// What a license check asks for.
pub struct CheckReport {
    /// The start of the program, where the check was the first one.
    pub startup: Option<Startup>,
    /// Whether the thread may run, or what to say before the program ends.
    pub outcome: Result<(), Refusal>,
}

impl LicenseState {
    /// Takes the jobs that wait to be run.
    pub fn take_jobs(&mut self) -> (r: Vec<Job>)
        ensures
            state::job_views(r@) == old(self)@.jobs,
            final(self)@ == (StateView { jobs: Seq::empty(), ..old(self)@ }),
    {
        let mut jobs: Vec<Job> = Vec::new();
        std::mem::swap(&mut jobs, &mut self.jobs);
        assert(state::job_views(self.jobs@) =~= Seq::empty());
        jobs
    }

    /// Notes that the license of a library unlock is to be checked, and leaves the job to do so
    /// where the process has not done so before.
    pub fn check_unlock_once(&mut self, pid: u32, license: &str)
        ensures
            final(self)@ == (StateView {
                checked: old(self)@.checked.insert((pid, license@)),
                jobs: if old(self)@.checked.contains((pid, license@)) {
                    old(self)@.jobs
                } else {
                    old(self)@.jobs.push(JobView::CheckUnlock(license@))
                },
                ..old(self)@
            }),
    {
        if self.checked.insert(pid, license) {
            self.jobs.push(Job::CheckUnlock(license.to_owned()));
            assert(state::job_views(self.jobs@) =~= old(self)@.jobs.push(
                JobView::CheckUnlock(license@),
            ));
        }
    }

    /// The present time, where the build has a clock.
    fn present(&self) -> (r: Option<u64>)
        ensures
            self@.build.wasm32 ==> r is None,
            self@.build.wasm32 || clock::shown(r),
    {
        if self.build.wasm32 {
            None
        } else {
            clock::read()
        }
    }

    /// Whether a license was activated.
    pub fn is_activated(&self) -> (r: bool)
        ensures
            r == self@.licensed,
    {
        self.licensed
    }

    /// The build.
    pub fn build(&self) -> (r: &Build)
        ensures
            r@ == self@.build,
    {
        &self.build
    }
}

impl LicenseManager {
    /// Whether a library is unlocked on the thread, by a scope or by the calling frame.
    pub fn is_library_unlocked(thread: &ThreadScopes) -> (r: bool)
        ensures
            r == scopes::library_unlocked(thread@),
    {
        if scopes::current_thread_is_unlocked(thread) {
            return true;
        }
        thread.in_unlocked_frame()
    }

    /// Whether the license check is passed over on the thread.
    pub fn is_check_bypassed(thread: &ThreadScopes) -> (r: bool)
        ensures
            r == scopes::check_bypassed(thread@),
    {
        thread.bypass_depth() != 0 || Self::is_library_unlocked(thread)
    }

    /// The state at the start: no key, no license, nothing to do.
    pub fn init(build: Build) -> (r: LicenseState)
        ensures
            r@ == (StateView {
                build: build@,
                license_key: None,
                licensed: false,
                oem: false,
                manager: None,
                checked: Set::empty(),
                jobs: Seq::empty(),
            }),
    {
        let r = LicenseState {
            build,
            license_key: None,
            licensed: false,
            oem: false,
            manager: None,
            checked: CheckedLicenses::new(),
            jobs: Vec::new(),
        };
        assert(r@.jobs =~= Seq::empty());
        r
    }

    /// Makes a license manager, and says what happens at the start of the program.
    pub fn new<F: FnOnce(String) -> Result<(), String>>(
        state: &mut LicenseState,
        environment: Option<String>,
        terminal: &Terminal,
        check_registration: F,
    ) -> (r: (LicenseManager, Startup))
        requires
            activation::may_ask_any(check_registration),
        ensures
            manager_made(
                old(state)@,
                activation::text_view(environment),
                *terminal,
                check_registration,
                r.0.has_license(),
                r.1,
                final(state)@,
            ),
            follows(old(state)@, final(state)@),
    {
        let clock = state.present();
        Self::new_at(state, environment, clock, terminal, check_registration)
    }

    /// Makes a license manager when the clock shows `clock`.
    pub fn new_at<F: FnOnce(String) -> Result<(), String>>(
        state: &mut LicenseState,
        environment: Option<String>,
        clock: Option<u64>,
        terminal: &Terminal,
        check_registration: F,
    ) -> (r: (LicenseManager, Startup))
        requires
            activation::may_ask_any(check_registration),
        ensures
            manager_made_at(
                old(state)@,
                activation::text_view(environment),
                clock,
                *terminal,
                check_registration,
                r.0.has_license(),
                r.1,
                final(state)@,
            ),
            follows(old(state)@, final(state)@),
    {
        let outcome = Self::check_license_key_at(state, environment, clock, check_registration);
        let has_license: bool = outcome.is_ok();
        let start = startup::start(outcome, terminal);
        (LicenseManager { has_license }, start)
    }

    /// Checks the key that was set, or that of the environment, at the present time.
    pub fn check_license_key<F: FnOnce(String) -> Result<(), String>>(
        state: &mut LicenseState,
        environment: Option<String>,
        check_registration: F,
    ) -> (r: Result<(), String>)
        requires
            activation::may_ask_any(check_registration),
        ensures
            key_checked(
                old(state)@,
                activation::text_view(environment),
                check_registration,
                r,
                final(state)@,
            ),
            follows(old(state)@, final(state)@),
    {
        let clock = state.present();
        Self::check_license_key_at(state, environment, clock, check_registration)
    }

    /// Checks the key that was set, or that of the environment, when the clock shows `clock`.
    pub fn check_license_key_at<F: FnOnce(String) -> Result<(), String>>(
        state: &mut LicenseState,
        environment: Option<String>,
        clock: Option<u64>,
        check_registration: F,
    ) -> (r: Result<(), String>)
        requires
            activation::may_ask_any(check_registration),
        ensures
            key_checked_at(
                old(state)@,
                activation::text_view(environment),
                clock,
                check_registration,
                r,
                final(state)@,
            ),
            follows(old(state)@, final(state)@),
    {
        if state.build.wasm32 {
            state.licensed = true;
            return Ok(());
        }
        let key: String = match &state.license_key {
            Some(key) => key.as_str().to_owned(),
            None => match environment {
                Some(key) => key,
                None => {
                    state.jobs.push(Job::Announce);
                    assert(state@.jobs =~= old(state)@.jobs.push(JobView::Announce));
                    return Err(MISSING_LICENSE_ERROR.to_owned());
                },
            },
        };
        let r = Self::validate_license_key_at(
            key.as_str(),
            clock,
            check_registration,
            &mut state.jobs,
        );
        if r.is_ok() {
            state.licensed = true;
        }
        assert(Some(key@) == effective_key(old(state)@, activation::text_view(environment)));
        r
    }

    /// Passes over the license check on a thread that is unlocked or once a license was
    /// activated; else makes the manager, if there is none, and without a license gets a permit
    /// for the thread.
    pub fn check<
        F: FnOnce(String) -> Result<(), String>,
        L,
        G: FnOnce() -> Result<Option<L>, String>,
    >(
        state: &mut LicenseState,
        thread: &ThreadScopes,
        environment: Option<String>,
        terminal: &Terminal,
        check_registration: F,
        permit: &mut Option<RestrictedThreadPermit<L>>,
        pid: u32,
        try_lock: G,
    ) -> (report: CheckReport)
        requires
            activation::may_ask_any(check_registration),
            call_requires(try_lock, ()),
        ensures
            checked_on(
                old(state)@,
                thread@,
                activation::text_view(environment),
                *terminal,
                check_registration,
                *old(permit),
                pid,
                try_lock,
                report,
                final(state)@,
                *final(permit),
            ),
            follows(old(state)@, final(state)@),
    {
        let clock = state.present();
        Self::check_at(
            state,
            thread,
            environment,
            clock,
            terminal,
            check_registration,
            permit,
            pid,
            try_lock,
        )
    }

    /// Passes over the license check, or makes it, when the clock shows `clock`.
    pub fn check_at<
        F: FnOnce(String) -> Result<(), String>,
        L,
        G: FnOnce() -> Result<Option<L>, String>,
    >(
        state: &mut LicenseState,
        thread: &ThreadScopes,
        environment: Option<String>,
        clock: Option<u64>,
        terminal: &Terminal,
        check_registration: F,
        permit: &mut Option<RestrictedThreadPermit<L>>,
        pid: u32,
        try_lock: G,
    ) -> (report: CheckReport)
        requires
            activation::may_ask_any(check_registration),
            call_requires(try_lock, ()),
        ensures
            checked_on_at(
                old(state)@,
                thread@,
                activation::text_view(environment),
                clock,
                *terminal,
                check_registration,
                *old(permit),
                pid,
                try_lock,
                report,
                final(state)@,
                *final(permit),
            ),
            follows(old(state)@, final(state)@),
    {
        if state.build.wasm32 {
            state.licensed = true;
            return CheckReport { startup: None, outcome: Ok(()) };
        }
        if state.licensed || Self::is_check_bypassed(thread) {
            return CheckReport { startup: None, outcome: Ok(()) };
        }
        Self::check_impl_at(
            state,
            environment,
            clock,
            terminal,
            check_registration,
            permit,
            pid,
            try_lock,
        )
    }

    /// Makes the manager, if there is none, and without a license gets a permit for the thread.
    pub fn check_impl<
        F: FnOnce(String) -> Result<(), String>,
        L,
        G: FnOnce() -> Result<Option<L>, String>,
    >(
        state: &mut LicenseState,
        environment: Option<String>,
        terminal: &Terminal,
        check_registration: F,
        permit: &mut Option<RestrictedThreadPermit<L>>,
        pid: u32,
        try_lock: G,
    ) -> (report: CheckReport)
        requires
            activation::may_ask_any(check_registration),
            call_requires(try_lock, ()),
        ensures
            license_checked(
                old(state)@,
                activation::text_view(environment),
                *terminal,
                check_registration,
                *old(permit),
                pid,
                try_lock,
                report,
                final(state)@,
                *final(permit),
            ),
            follows(old(state)@, final(state)@),
    {
        let clock = state.present();
        Self::check_impl_at(
            state,
            environment,
            clock,
            terminal,
            check_registration,
            permit,
            pid,
            try_lock,
        )
    }

    /// Makes the manager, if there is none, and without a license gets a permit for the thread, when
    /// the clock shows `clock`.
    pub fn check_impl_at<
        F: FnOnce(String) -> Result<(), String>,
        L,
        G: FnOnce() -> Result<Option<L>, String>,
    >(
        state: &mut LicenseState,
        environment: Option<String>,
        clock: Option<u64>,
        terminal: &Terminal,
        check_registration: F,
        permit: &mut Option<RestrictedThreadPermit<L>>,
        pid: u32,
        try_lock: G,
    ) -> (report: CheckReport)
        requires
            activation::may_ask_any(check_registration),
            call_requires(try_lock, ()),
        ensures
            license_checked_at(
                old(state)@,
                activation::text_view(environment),
                clock,
                *terminal,
                check_registration,
                *old(permit),
                pid,
                try_lock,
                report,
                final(state)@,
                *final(permit),
            ),
            follows(old(state)@, final(state)@),
    {
        let mut started: Option<Startup> = None;
        let has_license: bool = match &state.manager {
            Some(manager) => manager.has_license,
            None => {
                let (manager, start) = Self::new_at(
                    state,
                    environment,
                    clock,
                    terminal,
                    check_registration,
                );
                let has_license: bool = manager.has_license;
                state.manager = Some(manager);
                started = Some(start);
                has_license
            },
        };
        let outcome: Result<(), Refusal> = if has_license {
            Ok(())
        } else {
            Self::acquire_restricted_thread_permit(permit, pid, try_lock)
        };
        CheckReport { startup: started, outcome }
    }

    /// Sets the license key, the first one for the whole process. A valid offline key activates
    /// at once and is asked about in the background; a ban, a revocation, an expiration or an
    /// unknown license that the server reports ends the program, an unavailable server does not.
    pub fn set_license_key<F: FnOnce(String) -> Result<(), String>>(
        state: &mut LicenseState,
        key: &str,
        environment: Option<String>,
        check_registration: F,
    ) -> (r: Result<(), String>)
        requires
            activation::may_ask_any(check_registration),
        ensures
            key_set(
                old(state)@,
                key@,
                activation::text_view(environment),
                check_registration,
                r,
                final(state)@,
            ),
            follows(old(state)@, final(state)@),
    {
        let clock = state.present();
        Self::set_license_key_at(state, key, environment, clock, check_registration)
    }

    /// Sets the license key when the clock shows `clock`.
    pub fn set_license_key_at<F: FnOnce(String) -> Result<(), String>>(
        state: &mut LicenseState,
        key: &str,
        environment: Option<String>,
        clock: Option<u64>,
        check_registration: F,
    ) -> (r: Result<(), String>)
        requires
            activation::may_ask_any(check_registration),
        ensures
            key_set_at(
                old(state)@,
                key@,
                activation::text_view(environment),
                clock,
                check_registration,
                r,
                final(state)@,
            ),
            follows(old(state)@, final(state)@),
    {
        let different: bool = match &state.license_key {
            Some(set) => !text::same_text(set.as_str(), key),
            None => false,
        };
        if different {
            return Err(DIFFERENT_KEY_ERROR.to_owned());
        }
        state.license_key = Some(key.to_owned());
        Self::check_license_key_at(state, environment, clock, check_registration)
    }

    /// Activates a signed OEM license that is bound to the named crate.
    pub fn set_oem_license_key(state: &mut LicenseState, key: &str, crate_name: &str) -> (r: Result<
        (),
        String,
    >)
        ensures
            exists|clock: Option<u64>| #[trigger]
                oem_activated(
                    old(state)@,
                    text::utf8(key@),
                    crate_name,
                    clock,
                    r,
                    final(state)@,
                ) && (old(state)@.build.wasm32 || clock::shown(clock)),
            follows(old(state)@, final(state)@),
    {
        let clock = state.present();
        Self::set_oem_license_key_at(state, key, crate_name, clock)
    }

    /// Activates a signed OEM license when the clock shows `clock`.
    pub fn set_oem_license_key_at(
        state: &mut LicenseState,
        key: &str,
        crate_name: &str,
        clock: Option<u64>,
    ) -> (r: Result<(), String>)
        ensures
            oem_activated(
                old(state)@,
                text::utf8(key@),
                crate_name,
                clock,
                r,
                final(state)@,
            ),
            follows(old(state)@, final(state)@),
    {
        if state.build.wasm32 {
            state.licensed = true;
            state.oem = true;
            return Ok(());
        }
        match signed::verify_at(key, Purpose::Oem(crate_name), clock) {
            Ok(_) => {
                state.licensed = true;
                state.oem = true;
                Ok(())
            },
            Err(e) => Err(e),
        }
    }

    /// Whether the process has a valid license key or an active library unlock. A build that
    /// requires no license has no unlocks, and takes every key for a valid one.
    pub fn is_licensed<F: FnOnce(String) -> Result<(), String>>(
        state: &mut LicenseState,
        thread: &ThreadScopes,
        environment: Option<String>,
        check_registration: F,
    ) -> (r: bool)
        requires
            activation::may_ask_any(check_registration),
        ensures
            licensed_on(
                old(state)@,
                thread@,
                activation::text_view(environment),
                check_registration,
                r,
                final(state)@,
            ),
            follows(old(state)@, final(state)@),
    {
        let clock = state.present();
        Self::is_licensed_at(state, thread, environment, clock, check_registration)
    }

    /// Whether the process is licensed when the clock shows `clock`.
    pub fn is_licensed_at<F: FnOnce(String) -> Result<(), String>>(
        state: &mut LicenseState,
        thread: &ThreadScopes,
        environment: Option<String>,
        clock: Option<u64>,
        check_registration: F,
    ) -> (r: bool)
        requires
            activation::may_ask_any(check_registration),
        ensures
            licensed_on_at(
                old(state)@,
                thread@,
                activation::text_view(environment),
                clock,
                check_registration,
                r,
                final(state)@,
            ),
            follows(old(state)@, final(state)@),
    {
        if state.build.wasm32 {
            return state.license_key.is_some() || state.oem;
        }
        if state.licensed || Self::is_library_unlocked(thread) {
            return true;
        }
        Self::check_license_key_at(state, environment, clock, check_registration).is_ok()
    }

    /// Clamps a requested number of worker threads to what the build and the license allow.
    pub fn max_threads<F: FnOnce(String) -> Result<(), String>>(
        state: &mut LicenseState,
        thread: &ThreadScopes,
        environment: Option<String>,
        check_registration: F,
        requested: usize,
    ) -> (r: usize)
        requires
            activation::may_ask_any(check_registration),
        ensures
            threads_on(
                old(state)@,
                thread@,
                activation::text_view(environment),
                check_registration,
                requested,
                r,
                final(state)@,
            ),
            follows(old(state)@, final(state)@),
            r == requested || r == 1 && requested > 1,
    {
        let clock = state.present();
        Self::max_threads_at(state, thread, environment, clock, check_registration, requested)
    }

    /// Clamps a requested number of worker threads when the clock shows `clock`.
    pub fn max_threads_at<F: FnOnce(String) -> Result<(), String>>(
        state: &mut LicenseState,
        thread: &ThreadScopes,
        environment: Option<String>,
        clock: Option<u64>,
        check_registration: F,
        requested: usize,
    ) -> (r: usize)
        requires
            activation::may_ask_any(check_registration),
        ensures
            threads_on_at(
                old(state)@,
                thread@,
                activation::text_view(environment),
                clock,
                check_registration,
                requested,
                r,
                final(state)@,
            ),
            follows(old(state)@, final(state)@),
            r == requested || r == 1 && requested > 1,
    {
        let one: usize = if requested < 1 {
            requested
        } else {
            1
        };
        if state.build.wasm32 {
            return one;
        }
        if Self::is_library_unlocked(thread) {
            return requested;
        }
        if Self::is_licensed_at(state, thread, environment, clock, check_registration) {
            requested
        } else {
            one
        }
    }

    /// The capabilities of the build and the license.
    pub fn execution_capabilities<F: Fn(String) -> Result<(), String>>(
        state: &mut LicenseState,
        thread: &ThreadScopes,
        environment: Option<String>,
        check_registration: F,
    ) -> (r: ExecutionCapabilities)
        requires
            activation::may_ask_any(check_registration),
        ensures
            exists|between: StateView| #[trigger]
                capable_on(
                    old(state)@,
                    thread@,
                    activation::text_view(environment),
                    check_registration,
                    between,
                    r,
                    final(state)@,
                ),
            follows(old(state)@, final(state)@),
    {
        let clock = state.present();
        let r = Self::execution_capabilities_at(
            state,
            thread,
            environment,
            clock,
            check_registration,
        );
        proof {
            let between = choose|between: StateView| #[trigger]
                capable_on_at(
                    old(state)@,
                    thread@,
                    activation::text_view(environment),
                    clock,
                    check_registration,
                    between,
                    r,
                    state@,
                );
            assert(capable_on(
                old(state)@,
                thread@,
                activation::text_view(environment),
                check_registration,
                between,
                r,
                state@,
            ));
        }
        r
    }

    /// The capabilities of the build and the license when the clock shows `clock`.
    pub fn execution_capabilities_at<F: Fn(String) -> Result<(), String>>(
        state: &mut LicenseState,
        thread: &ThreadScopes,
        environment: Option<String>,
        clock: Option<u64>,
        check_registration: F,
    ) -> (r: ExecutionCapabilities)
        requires
            activation::may_ask_any(check_registration),
        ensures
            exists|between: StateView| #[trigger]
                capable_on_at(
                    old(state)@,
                    thread@,
                    activation::text_view(environment),
                    clock,
                    check_registration,
                    between,
                    r,
                    final(state)@,
                ),
            follows(old(state)@, final(state)@),
    {
        let again: Option<String> = match &environment {
            Some(key) => Some(key.as_str().to_owned()),
            None => None,
        };
        let license_required: bool = !state.build.wasm32;
        let native_code_generation: bool = state.build.native_code_generation;
        let is_licensed: bool = Self::is_licensed_at(
            state,
            thread,
            again,
            clock,
            &check_registration,
        );
        let ghost between = state@;
        proof {
            lemma_licensed_on_by_reference(
                old(state)@,
                thread@,
                activation::text_view(environment),
                clock,
                &check_registration,
                is_licensed,
                between,
            );
        }
        let max_threads: usize = Self::max_threads_at(
            state,
            thread,
            environment,
            clock,
            check_registration,
            usize::MAX,
        );
        let r = ExecutionCapabilities {
            license_required,
            is_licensed,
            max_threads,
            native_code_generation,
            license_networking: license_required,
        };
        assert(capable_on_at(
            old(state)@,
            thread@,
            activation::text_view(environment),
            clock,
            check_registration,
            between,
            r,
            state@,
        ));
        r
    }

    /// The version of Symbolica.
    pub fn get_version(build: &Build) -> (r: &str)
        ensures
            r@ == build.version@,
    {
        build.version.as_str()
    }
}

} // verus!
