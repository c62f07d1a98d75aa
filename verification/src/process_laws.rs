//! What becomes of a process upon its keys: who is licensed, by what, and what that allows.

use crate::activation_laws;
use crate::clock;
use crate::manager;
use crate::manager::{CheckReport, StateView};
use crate::permit;
use crate::permit::RestrictedThreadPermit;
use crate::scopes;
use crate::scopes::ScopesView;
use crate::signed;
use crate::signed::Purpose;
use crate::startup::{Startup, Terminal};
use crate::state::JobView;
use crate::text;
use vstd::prelude::*;

verus! {

/// Whether a state has nothing of another one changed but what an activation and its jobs change.
pub open spec fn differs_in_license_only(s: StateView, s_then: StateView) -> bool {
    &&& s_then.build == s.build
    &&& s_then.license_key == s.license_key
    &&& s_then.oem == s.oem
    &&& s_then.manager == s.manager
    &&& s_then.checked == s.checked
}

/// A key that grants an offline license at the time activates the process at once when it is set,
/// and leaves the job to ask the server about the whole key.
pub proof fn law_valid_offline_key_activates<F: FnOnce(String) -> Result<(), String>>(
    s: StateView,
    key: Seq<char>,
    environment: Option<Seq<char>>,
    clock: Option<u64>,
    check_registration: F,
    r: Result<(), String>,
    s_then: StateView,
)
    requires
        manager::key_set_at(s, key, environment, clock, check_registration, r, s_then),
        s.license_key is None || s.license_key == Some(key),
        signed::issued_outcome(text::utf8(key), Purpose::Offline, clock) is Ok,
    ensures
        r is Ok,
        s_then.licensed,
        s_then.license_key == Some(key),
        !s.build.wasm32 ==> s_then.jobs == s.jobs.push(JobView::CheckOffline(key)),
        differs_in_license_only(StateView { license_key: Some(key), ..s }, s_then),
{
    activation_laws::law_offline_licenses_need_no_server(text::utf8(key), clock);
}

/// A key that grants no offline license at the time, but has the form of one, leaves the process as
/// it is, and is answered with the reason why it grants none.
pub proof fn law_invalid_offline_key_does_not_activate<F: FnOnce(String) -> Result<(), String>>(
    s: StateView,
    key: Seq<char>,
    environment: Option<Seq<char>>,
    clock: Option<u64>,
    check_registration: F,
    r: Result<(), String>,
    s_then: StateView,
)
    requires
        manager::key_set_at(s, key, environment, clock, check_registration, r, s_then),
        s.license_key is None || s.license_key == Some(key),
        !s.build.wasm32,
        text::utf8(key).len() >= 2,
        text::utf8(key)[0] == 83,
        text::utf8(key)[1] == 45,
        signed::issued_outcome(text::utf8(key), Purpose::Offline, clock) is Err,
    ensures
        r is Err,
        r->Err_0@ == signed::issued_outcome(text::utf8(key), Purpose::Offline, clock)->Err_0,
        s_then == (StateView { license_key: Some(key), ..s }),
{
    activation_laws::law_forms_of_keys(text::utf8(key));
}

/// The same of a key that was set before or that the environment holds: on every thread the
/// process is licensed and may use as many threads as are wanted, a manager that is made finds the
/// license, and a check asks for nothing.
pub proof fn law_valid_offline_key_licenses<
    F: FnOnce(String) -> Result<(), String>,
    L,
    G: FnOnce() -> Result<Option<L>, String>,
>(
    s: StateView,
    key: Seq<char>,
    thread: ScopesView,
    environment: Option<Seq<char>>,
    clock: Option<u64>,
    check_registration: F,
    terminal: Terminal,
    permit: Option<RestrictedThreadPermit<L>>,
    pid: u32,
    try_lock: G,
    licensed: bool,
    s_licensed: StateView,
    requested: usize,
    threads: usize,
    s_threads: StateView,
    has_license: bool,
    start: Startup,
    s_made: StateView,
    report: CheckReport,
    s_checked: StateView,
    permit_then: Option<RestrictedThreadPermit<L>>,
)
    requires
        !s.build.wasm32,
        s.license_key == Some(key) || s.license_key is None && environment == Some(key),
        signed::issued_outcome(text::utf8(key), Purpose::Offline, clock) is Ok,
        manager::licensed_on_at(
            s,
            thread,
            environment,
            clock,
            check_registration,
            licensed,
            s_licensed,
        ),
        manager::threads_on_at(
            s,
            thread,
            environment,
            clock,
            check_registration,
            requested,
            threads,
            s_threads,
        ),
        manager::manager_made_at(
            s,
            environment,
            clock,
            terminal,
            check_registration,
            has_license,
            start,
            s_made,
        ),
        manager::checked_on_at(
            s,
            thread,
            environment,
            clock,
            terminal,
            check_registration,
            permit,
            pid,
            try_lock,
            report,
            s_checked,
            permit_then,
        ),
    ensures
        licensed,
        s_licensed.licensed || scopes::library_unlocked(thread),
        threads == requested,
        has_license,
        s_made.licensed,
        start.error is None && start.banner is None && !start.limit_to_one_thread,
        s.manager is None ==> report.outcome is Ok && permit_then == permit,
{
    activation_laws::law_offline_licenses_need_no_server(text::utf8(key), clock);
}

/// A key that the server decides on activates the process where the server says that it is
/// registered, and leaves it as it is, with the answer of the server, where it does not.
pub proof fn law_server_decides_on_other_keys<F: FnOnce(String) -> Result<(), String>>(
    s: StateView,
    key: Seq<char>,
    environment: Option<Seq<char>>,
    clock: Option<u64>,
    check_registration: F,
    r: Result<(), String>,
    s_then: StateView,
)
    requires
        manager::key_checked_at(s, environment, clock, check_registration, r, s_then),
        !s.build.wasm32,
        s.license_key == Some(key) || s.license_key is None && environment == Some(key),
        text::utf8(key).len() > 0 ==> text::utf8(key)[0] != 83,
        forall|i: int| 0 <= i < text::utf8(key).len() ==> #[trigger] text::utf8(key)[i] != 35,
    ensures
        exists|k: String| k@ == key && #[trigger] call_ensures(check_registration, (k,), r),
        s_then.licensed == (s.licensed || r is Ok),
        s_then.jobs == s.jobs,
        differs_in_license_only(s, s_then),
{
    activation_laws::law_forms_of_keys(text::utf8(key));
    reveal_strlit("SYMBOLICA_OEM_");
    vstd::utf8::is_ascii_chars_encode_utf8("SYMBOLICA_OEM_"@);
    let bytes = text::utf8(key);
    if bytes.len() >= 14 && bytes.take(14) == text::utf8("SYMBOLICA_OEM_"@) {
        assert(bytes.take(14)[0] == bytes[0]);
    }
}

/// A key of a form that is no longer accepted is answered so, and leaves the process as it is.
pub proof fn law_outdated_keys_are_refused<F: FnOnce(String) -> Result<(), String>>(
    s: StateView,
    key: Seq<char>,
    environment: Option<Seq<char>>,
    clock: Option<u64>,
    check_registration: F,
    r: Result<(), String>,
    s_then: StateView,
)
    requires
        manager::key_checked_at(s, environment, clock, check_registration, r, s_then),
        !s.build.wasm32,
        s.license_key == Some(key) || s.license_key is None && environment == Some(key),
        text::utf8(key).len() > 0 ==> text::utf8(key)[0] != 83,
        text::utf8(key).contains(35),
    ensures
        text::agrees(
            r,
            Err(
                "┌────────────────────────────────────────────────────────┐
│ The Symbolica license key format is outdated.          │
│ Renew your key at https://symbolica.io/license/        │
└────────────────────────────────────────────────────────┘"@,
            ),
        ),
        s_then == s,
{
    activation_laws::law_forms_of_keys(text::utf8(key));
}

/// Without a key that was set and one of the environment the process stays as it is, but that the
/// server is to be told; the answer says that the key is missing.
pub proof fn law_missing_key_is_announced<F: FnOnce(String) -> Result<(), String>>(
    s: StateView,
    clock: Option<u64>,
    check_registration: F,
    r: Result<(), String>,
    s_then: StateView,
)
    requires
        manager::key_checked_at(s, None, clock, check_registration, r, s_then),
        !s.build.wasm32,
        s.license_key is None,
    ensures
        text::agrees(
            r,
            Err(
                "
┌───────────────────────────────┐
│ Symbolica license key missing │
└───────────────────────────────┘"@,
            ),
        ),
        s_then == (StateView { jobs: s.jobs.push(JobView::Announce), ..s }),
{
}

/// A check of a key that is answered with success activates the process, in every build; one that
/// is not does not. Nothing else changes but the jobs.
pub proof fn law_success_is_activation<F: FnOnce(String) -> Result<(), String>>(
    s: StateView,
    environment: Option<Seq<char>>,
    check_registration: F,
    r: Result<(), String>,
    s_then: StateView,
)
    requires
        manager::key_checked(s, environment, check_registration, r, s_then),
    ensures
        s_then.licensed == (s.licensed || r is Ok),
        s.build.wasm32 ==> r is Ok && s_then.jobs == s.jobs,
        differs_in_license_only(s, s_then),
        s_then.jobs.len() <= s.jobs.len() + 1,
        s.jobs.is_prefix_of(s_then.jobs),
{
}

/// A key that was set comes before that of the environment, which then does not matter.
pub proof fn law_set_key_comes_first<F: FnOnce(String) -> Result<(), String>>(
    s: StateView,
    one: Option<Seq<char>>,
    other: Option<Seq<char>>,
    clock: Option<u64>,
    check_registration: F,
    r: Result<(), String>,
    s_then: StateView,
)
    requires
        s.license_key is Some,
        manager::key_checked_at(s, one, clock, check_registration, r, s_then),
    ensures
        manager::key_checked_at(s, other, clock, check_registration, r, s_then),
{
}

/// An OEM license activates the process in every build: what is answered with success leaves it
/// licensed, and any other answer leaves it as it is. Off WebAssembly the answer is a success
/// exactly where the key grants the crate a license at the time. No key counts as set by it.
pub proof fn law_oem_license_activates(
    s: StateView,
    key: Seq<u8>,
    crate_name: &str,
    clock: Option<u64>,
    r: Result<(), String>,
    s_then: StateView,
)
    requires
        manager::oem_activated(s, key, crate_name, clock, r, s_then),
    ensures
        r is Ok ==> s_then.licensed && s_then.oem,
        r is Err ==> s_then == s,
        s.build.wasm32 ==> r is Ok,
        !s.build.wasm32 ==> (r is Ok <==> signed::issued_outcome(
            key,
            Purpose::Oem(crate_name),
            clock,
        ) is Ok),
        !s.build.wasm32 && r is Err ==> r->Err_0@ == signed::issued_outcome(
            key,
            Purpose::Oem(crate_name),
            clock,
        )->Err_0,
        s_then.build == s.build,
        s_then.license_key == s.license_key,
        s_then.manager == s.manager,
        s_then.checked == s.checked,
        s_then.jobs == s.jobs,
{
}

/// After an OEM activation every thread is licensed and may use as many threads as it wants,
/// whatever happens in between.
pub proof fn law_oem_license_lasts<F: FnOnce(String) -> Result<(), String>>(
    s: StateView,
    key: Seq<u8>,
    crate_name: &str,
    clock: Option<u64>,
    r: Result<(), String>,
    s_then: StateView,
    later: StateView,
    thread: ScopesView,
    environment: Option<Seq<char>>,
    check_registration: F,
    licensed: bool,
    s_licensed: StateView,
    requested: usize,
    threads: usize,
    s_threads: StateView,
)
    requires
        manager::oem_activated(s, key, crate_name, clock, r, s_then),
        r is Ok,
        manager::follows(s_then, later),
        manager::licensed_on(later, thread, environment, check_registration, licensed, s_licensed),
        manager::threads_on(
            later,
            thread,
            environment,
            check_registration,
            requested,
            threads,
            s_threads,
        ),
    ensures
        licensed,
        !s.build.wasm32 ==> threads == requested,
{
}

/// A thread is licensed exactly where it is unlocked or the process is activated once the question
/// was answered. In a WebAssembly build it is so exactly where a key was set or an OEM license
/// activated.
pub proof fn law_licensed_is_activated_or_unlocked<F: FnOnce(String) -> Result<(), String>>(
    s: StateView,
    thread: ScopesView,
    environment: Option<Seq<char>>,
    check_registration: F,
    r: bool,
    s_then: StateView,
)
    requires
        manager::licensed_on(s, thread, environment, check_registration, r, s_then),
    ensures
        !s.build.wasm32 ==> r == (thread.unlocks > 0 || thread.frame || s_then.licensed),
        s.build.wasm32 ==> r == (s.license_key is Some || s.oem) && s_then == s,
        differs_in_license_only(s, s_then),
{
}

/// A thread may use as many threads as it wants exactly where it is licensed, and one at most
/// where it is not.
pub proof fn law_threads_go_with_the_license<F: FnOnce(String) -> Result<(), String>>(
    s: StateView,
    thread: ScopesView,
    environment: Option<Seq<char>>,
    check_registration: F,
    requested: usize,
    r: usize,
    s_then: StateView,
)
    requires
        manager::threads_on(s, thread, environment, check_registration, requested, r, s_then),
    ensures
        r == (if !s.build.wasm32 && (thread.unlocks > 0 || thread.frame || s_then.licensed) {
            requested
        } else if requested > 1 {
            1
        } else {
            requested
        }),
        differs_in_license_only(s, s_then),
{
}

/// The two questions agree: where the one on a state may leave the process licensed, the other may
/// leave it so with all threads, and the same for not licensed and one thread.
pub proof fn law_questions_agree<F: FnOnce(String) -> Result<(), String>>(
    s: StateView,
    thread: ScopesView,
    environment: Option<Seq<char>>,
    clock: Option<u64>,
    check_registration: F,
    licensed: bool,
    requested: usize,
    s_then: StateView,
)
    requires
        !s.build.wasm32,
        manager::licensed_on_at(
            s,
            thread,
            environment,
            clock,
            check_registration,
            licensed,
            s_then,
        ),
    ensures
        manager::threads_on_at(
            s,
            thread,
            environment,
            clock,
            check_registration,
            requested,
            if licensed || requested < 1 {
                requested
            } else {
                1
            },
            s_then,
        ),
{
}

/// A manager that finds a license leaves the process activated, and one that finds none does not
/// activate it. Without one the thread pool is limited to one thread, and the banner is shown where
/// it is not hidden.
pub proof fn law_manager_finds_the_license<F: FnOnce(String) -> Result<(), String>>(
    s: StateView,
    environment: Option<Seq<char>>,
    terminal: Terminal,
    check_registration: F,
    has_license: bool,
    start: Startup,
    s_then: StateView,
)
    requires
        manager::manager_made(
            s,
            environment,
            terminal,
            check_registration,
            has_license,
            start,
            s_then,
        ),
    ensures
        s_then.licensed == (s.licensed || has_license),
        start.limit_to_one_thread == !has_license,
        has_license ==> start.error is None && start.banner is None,
        terminal.hide_banner ==> start.banner is None,
        !has_license && !terminal.hide_banner ==> start.banner is Some,
        differs_in_license_only(s, s_then),
{
}

/// A check passes over threads that are unlocked or bypass it, processes that are activated, and
/// builds that need no license, and takes no permit for them. Any other thread runs only with a
/// license that the manager found, or with a permit of its process. The first such check, and no
/// other, makes the manager, which stays.
pub proof fn law_check_asks_for_a_license_or_a_permit<
    F: FnOnce(String) -> Result<(), String>,
    L,
    G: FnOnce() -> Result<Option<L>, String>,
>(
    s: StateView,
    thread: ScopesView,
    environment: Option<Seq<char>>,
    terminal: Terminal,
    check_registration: F,
    permit: Option<RestrictedThreadPermit<L>>,
    pid: u32,
    try_lock: G,
    report: CheckReport,
    s_then: StateView,
    permit_then: Option<RestrictedThreadPermit<L>>,
)
    requires
        manager::checked_on(
            s,
            thread,
            environment,
            terminal,
            check_registration,
            permit,
            pid,
            try_lock,
            report,
            s_then,
            permit_then,
        ),
    ensures
        ({
            let passed = s.build.wasm32 || s.licensed || thread.unlocks > 0 || thread.bypasses > 0
                || thread.frame;
            &&& passed ==> report.outcome is Ok && report.startup is None && permit_then == permit
                && s_then.manager == s.manager
            &&& !passed && report.outcome is Ok ==> s_then.manager == Some(true) || permit_then
                is Some && permit_then->0.pid() == pid
            &&& !passed && s_then.manager == Some(true) ==> report.outcome is Ok && permit_then
                == permit
            &&& !passed ==> (report.startup is Some <==> s.manager is None)
            &&& !passed ==> s_then.manager is Some
            &&& !passed && s.manager is None ==> s_then.manager == Some(s_then.licensed)
            &&& s.manager is Some ==> s_then.manager == s.manager
            &&& !passed && s.manager is Some ==> s_then == s
        }),
        s_then.license_key == s.license_key,
        s_then.oem == s.oem,
        s_then.checked == s.checked,
{
}

/// A thread that has neither license nor permit ends where the lock of the user is taken, with the
/// warning that says so, and runs where it gets the lock.
pub proof fn law_lock_decides_on_restricted_threads<
    L,
    G: FnOnce() -> Result<Option<L>, String>,
>(
    permit: Option<RestrictedThreadPermit<L>>,
    pid: u32,
    try_lock: G,
    r: Result<(), permit::Refusal>,
    permit_then: Option<RestrictedThreadPermit<L>>,
)
    requires
        permit::permit_outcome(permit, pid, try_lock, r, permit_then),
        permit is None || permit->0.pid() != pid,
    ensures
        exists|attempt: Result<Option<L>, String>|
            {
                &&& #[trigger] call_ensures(try_lock, (), attempt)
                &&& r is Ok <==> attempt is Ok && attempt->Ok_0 is Some
                &&& r is Ok ==> permit_then is Some && permit_then->0.pid() == pid
                    && permit_then->0.lock() == attempt->Ok_0->0
                &&& r is Err ==> permit_then is None
                &&& r is Err && attempt is Ok ==> r->Err_0.error is None
                &&& r is Err && attempt is Err ==> r->Err_0.error is Some
                    && r->Err_0.error->0@ == "Could not acquire Symbolica thread permit: "@
                    + attempt->Err_0@
            },
        r is Err ==> r->Err_0.warning@
            == "┌──────────────────────────────────────────────────────────────────────────────────────────────────┐
│ Cannot start another restricted Symbolica thread while this user's thread allowance is in use.   │
└──────────────────────────────────────────────────────────────────────────────────────────────────┘"@,
{
}

/// The first key that is set stays set, whatever comes of it, and is checked as if it had been set
/// before.
pub proof fn law_first_key_is_kept<F: FnOnce(String) -> Result<(), String>>(
    s: StateView,
    key: Seq<char>,
    environment: Option<Seq<char>>,
    check_registration: F,
    r: Result<(), String>,
    s_then: StateView,
)
    requires
        s.license_key is None,
        manager::key_set(s, key, environment, check_registration, r, s_then),
    ensures
        s_then.license_key == Some(key),
        s_then.licensed == (s.licensed || r is Ok),
        manager::key_checked(
            StateView { license_key: Some(key), ..s },
            None,
            check_registration,
            r,
            s_then,
        ),
{
    let clock = choose|clock: Option<u64>| #[trigger]
        manager::key_set_at(s, key, environment, clock, check_registration, r, s_then) && (
        s.build.wasm32 || clock::shown(clock));
    assert(manager::key_checked_at(
        StateView { license_key: Some(key), ..s },
        None,
        clock,
        check_registration,
        r,
        s_then,
    ));
}

/// A second key is refused as such and changes nothing; the same key again is checked again.
pub proof fn law_second_key_is_refused<F: FnOnce(String) -> Result<(), String>>(
    s: StateView,
    set: Seq<char>,
    key: Seq<char>,
    environment: Option<Seq<char>>,
    clock: Option<u64>,
    check_registration: F,
    r: Result<(), String>,
    s_then: StateView,
)
    requires
        s.license_key == Some(set),
        manager::key_set_at(s, key, environment, clock, check_registration, r, s_then),
    ensures
        key != set ==> s_then == s && text::agrees(
            r,
            Err("Different license key cannot be set in same session"@),
        ),
        key == set ==> manager::key_checked_at(
            s,
            environment,
            clock,
            check_registration,
            r,
            s_then,
        ),
        s_then.license_key == Some(set),
{
    assert(StateView { license_key: Some(set), ..s } == s);
}

} // verus!
