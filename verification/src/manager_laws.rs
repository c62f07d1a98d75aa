//! What holds of the license of a process, over all that may happen to it.

use crate::activation;
use crate::activation::Route;
use crate::manager;
use crate::manager::{ExecutionCapabilities, StateView, DIFFERENT_KEY_ERROR};
use crate::messages::MISSING_LICENSE_ERROR;
use crate::scopes;
use crate::scopes::ScopesView;
use crate::signed;
use crate::signed::Purpose;
use crate::startup;
use crate::startup::{Startup, Terminal};
use crate::text;
use vstd::prelude::*;

verus! {

/// An activation lasts, and so do the key and the manager that were set, over any number of steps:
/// what follows a state that follows a state follows that state too.
pub proof fn law_activation_lasts(a: StateView, b: StateView, c: StateView)
    requires
        manager::follows(a, b),
        manager::follows(b, c),
    ensures
        manager::follows(a, c),
        a.licensed ==> c.licensed,
{
}

/// A process is activated by a key only where that key is a valid offline license, or where the
/// server says that it is registered.
pub proof fn law_activation_needs_a_license<F: FnOnce(String) -> Result<(), String>>(
    s: StateView,
    environment: Option<Seq<char>>,
    check_registration: F,
    r: Result<(), String>,
    s_then: StateView,
)
    requires
        manager::key_checked(s, environment, check_registration, r, s_then),
        !s.build.wasm32,
        !s.licensed,
        s_then.licensed,
    ensures
        r is Ok,
        manager::effective_key(s, environment) is Some,
        ({
            let key = manager::effective_key(s, environment)->0;
            match activation::route(text::utf8(key)) {
                Route::Offline => exists|clock: Option<u64>|
                    (#[trigger] signed::issued_outcome(
                        text::utf8(key),
                        Purpose::Offline,
                        clock,
                    )) is Ok,
                Route::Outdated => false,
                Route::Online => activation::answered(check_registration, key, r),
            }
        }),
{
    let key = manager::effective_key(s, environment)->0;
    let clock = choose|clock: Option<u64>| #[trigger]
        manager::key_checked_at(s, environment, clock, check_registration, r, s_then);
    if activation::route(text::utf8(key)) is Offline {
        assert(signed::issued_outcome(text::utf8(key), Purpose::Offline, clock) is Ok);
    }
}

/// One key per process: once a key was set, another one is refused and changes nothing, whatever
/// happened in between.
pub proof fn law_one_key_per_process<
    F: FnOnce(String) -> Result<(), String>,
    G: FnOnce(String) -> Result<(), String>,
>(
    s: StateView,
    first: Seq<char>,
    environment: Option<Seq<char>>,
    one: F,
    r: Result<(), String>,
    s_then: StateView,
    s_later: StateView,
    second: Seq<char>,
    environment_later: Option<Seq<char>>,
    other: G,
    r_later: Result<(), String>,
    s_last: StateView,
)
    requires
        s.license_key is None,
        manager::key_set(s, first, environment, one, r, s_then),
        manager::follows(s_then, s_later),
        first != second,
        manager::key_set(s_later, second, environment_later, other, r_later, s_last),
    ensures
        text::agrees(r_later, Err(DIFFERENT_KEY_ERROR@)),
        s_last == s_later,
{
}

/// Once a process is activated, it is licensed on every thread, may use as many threads as it
/// wants, and asks nobody.
pub proof fn law_activation_lifts_limits<F: FnOnce(String) -> Result<(), String>>(
    s: StateView,
    thread: ScopesView,
    environment: Option<Seq<char>>,
    check_registration: F,
    licensed: bool,
    s_licensed: StateView,
    requested: usize,
    threads: usize,
    s_threads: StateView,
)
    requires
        s.licensed,
        !s.build.wasm32,
        manager::licensed_on(s, thread, environment, check_registration, licensed, s_licensed),
        manager::threads_on(
            s,
            thread,
            environment,
            check_registration,
            requested,
            threads,
            s_threads,
        ),
    ensures
        licensed,
        s_licensed == s,
        threads == requested,
        s_threads == s,
{
}

/// Inside a library unlock, too, a thread is licensed, may use as many threads as it wants, and
/// asks nobody; the process is not activated by that.
pub proof fn law_unlock_lifts_limits<F: FnOnce(String) -> Result<(), String>>(
    s: StateView,
    thread: ScopesView,
    environment: Option<Seq<char>>,
    check_registration: F,
    licensed: bool,
    s_licensed: StateView,
    requested: usize,
    threads: usize,
    s_threads: StateView,
)
    requires
        scopes::library_unlocked(thread),
        !s.build.wasm32,
        manager::licensed_on(s, thread, environment, check_registration, licensed, s_licensed),
        manager::threads_on(
            s,
            thread,
            environment,
            check_registration,
            requested,
            threads,
            s_threads,
        ),
    ensures
        licensed,
        s_licensed == s,
        threads == requested,
        s_threads == s,
{
}

/// Without a license, an unlock and a key there is one thread.
pub proof fn law_no_key_means_one_thread<F: FnOnce(String) -> Result<(), String>>(
    s: StateView,
    thread: ScopesView,
    check_registration: F,
    requested: usize,
    threads: usize,
    s_then: StateView,
)
    requires
        !s.licensed,
        s.license_key is None,
        !scopes::library_unlocked(thread),
        manager::threads_on(s, thread, None, check_registration, requested, threads, s_then),
    ensures
        threads == manager::at_most_one(requested),
        !s_then.licensed,
{
}

/// The capabilities do not contradict each other: where a license is required, a licensed process
/// may use all threads; where none is, the process is licensed if a key was set, there is one
/// thread and no server to ask.
pub proof fn law_capabilities_agree<F: FnOnce(String) -> Result<(), String>>(
    s: StateView,
    thread: ScopesView,
    environment: Option<Seq<char>>,
    check_registration: F,
    between: StateView,
    r: ExecutionCapabilities,
    s_then: StateView,
)
    requires
        manager::capable_on(s, thread, environment, check_registration, between, r, s_then),
    ensures
        r.license_required && r.is_licensed ==> r.max_threads == usize::MAX,
        !r.license_required ==> r.is_licensed == manager::has_key(s) && r.max_threads == 1,
        r.license_networking == r.license_required,
        r.license_required == !s.build.wasm32,
        r.native_code_generation == s.build.native_code_generation,
        !s.build.wasm32 ==> r.is_licensed == (thread.unlocks > 0 || thread.frame
            || between.licensed),
        !s.build.wasm32 ==> r.max_threads == (if thread.unlocks > 0 || thread.frame
            || s_then.licensed {
            usize::MAX
        } else {
            1
        }),
{
}

/// The error that says that the key is missing is not written to the error output.
proof fn lemma_missing_key_is_not_reported()
    ensures
        startup::error_for(MISSING_LICENSE_ERROR@) is None,
{
    let whole = MISSING_LICENSE_ERROR@;
    let word = "missing"@;
    reveal_strlit(
        "
┌───────────────────────────────┐
│ Symbolica license key missing │
└───────────────────────────────┘",
    );
    reveal_strlit("missing");
    let before = whole.take(59);
    let after = whole.skip(66);
    assert(whole =~= before + word + after);
    text::lemma_utf8_concat(before + word, after);
    text::lemma_utf8_concat(before, word);
    let a = text::utf8(before);
    let w = text::utf8(word);
    assert(text::utf8(whole).subrange(a.len() as int, (a.len() + w.len()) as int) =~= w);
    assert(text::occurs_at(text::utf8(whole), w, a.len() as int));
}

/// A program that has no key starts without a license, with the banner and one thread; that the
/// key is missing is no error.
pub proof fn law_missing_key_is_no_error<F: FnOnce(String) -> Result<(), String>>(
    s: StateView,
    environment: Option<Seq<char>>,
    terminal: Terminal,
    check_registration: F,
    has_license: bool,
    start: Startup,
    s_then: StateView,
)
    requires
        manager::manager_made(
            s,
            environment,
            terminal,
            check_registration,
            has_license,
            start,
            s_then,
        ),
        !s.build.wasm32,
        manager::effective_key(s, environment) is None,
    ensures
        !has_license,
        start.error is None,
        activation::text_view(start.banner) == startup::banner_for(terminal),
        start.limit_to_one_thread,
{
    lemma_missing_key_is_not_reported();
}

} // verus!
