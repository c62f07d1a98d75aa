use std::cell::Cell;
use symbolica_license::manager::{
    CheckReport, ExecutionCapabilities, LicenseManager, LicenseState,
};
use symbolica_license::messages::{
    MISSING_LICENSE_ERROR, OUTDATED_LICENSE_KEY_ERROR, RESTRICTED_THREAD_WARNING,
};
use symbolica_license::permit::RestrictedThreadPermit;
use symbolica_license::scopes::{
    bypass_license_check_internal, InternalLicenseBypassGuard, ThreadScopes,
};
use symbolica_license::startup::Terminal;
use symbolica_license::state::{Build, Job};
use symbolica_license::token::TEST_UNLOCK_TOKEN;
use symbolica_license::unlock::LibraryUnlock;

fn build(wasm32: bool) -> Build {
    Build {
        wasm32,
        development: true,
        native_code_generation: true,
        version: "3.1.4-dev".to_owned(),
        package_version: "3.1.4".to_owned(),
    }
}

fn state() -> LicenseState {
    LicenseManager::init(build(false))
}

fn terminal() -> Terminal {
    Terminal {
        hide_banner: false,
        is_terminal: false,
        no_color: false,
        term: None,
    }
}

fn unreachable_server(_: String) -> Result<(), String> {
    panic!("must not contact the server")
}

#[test]
fn internal_license_bypass_guard_is_nested_and_thread_local() {
    let mut thread = ThreadScopes::new();
    let other = ThreadScopes::new();
    assert!(!LicenseManager::is_check_bypassed(&thread));

    let outer = bypass_license_check_internal(&mut thread);
    assert!(LicenseManager::is_check_bypassed(&thread));
    let report = check(&mut state(), &thread, &mut None, 1, || panic!("no lock is needed"));
    assert!(report.outcome.is_ok());

    let inner = InternalLicenseBypassGuard::new(&mut thread);
    assert!(LicenseManager::is_check_bypassed(&thread));
    inner.release(&mut thread);

    assert!(LicenseManager::is_check_bypassed(&thread));
    assert!(!LicenseManager::is_check_bypassed(&other));

    outer.release(&mut thread);
    assert!(!LicenseManager::is_check_bypassed(&thread));
}

fn check<G: FnOnce() -> Result<Option<u8>, String>>(
    state: &mut LicenseState,
    thread: &ThreadScopes,
    permit: &mut Option<RestrictedThreadPermit<u8>>,
    pid: u32,
    try_lock: G,
) -> CheckReport {
    LicenseManager::check(
        state,
        thread,
        None,
        &terminal(),
        unreachable_server,
        permit,
        pid,
        try_lock,
    )
}

#[test]
fn an_online_key_activates_when_it_is_registered() {
    let mut s = state();
    assert_eq!(
        LicenseManager::set_license_key(&mut s, "online", None, |key| {
            assert_eq!(key, "online");
            Ok(())
        }),
        Ok(())
    );
    let thread = ThreadScopes::new();
    assert!(LicenseManager::is_licensed(&mut s, &thread, None, unreachable_server));
    assert_eq!(
        LicenseManager::max_threads(&mut s, &thread, None, unreachable_server, 16),
        16
    );
    assert!(s.take_jobs().is_empty());
}

#[test]
fn a_refused_key_does_not_activate() {
    let mut s = state();
    let refuse = |_: String| Err("refused".to_owned());
    assert_eq!(
        LicenseManager::set_license_key(&mut s, "online", None, refuse),
        Err("refused".to_owned())
    );
    let thread = ThreadScopes::new();
    assert!(!LicenseManager::is_licensed(&mut s, &thread, None, refuse));
    for (requested, allowed) in [(0, 0), (1, 1), (2, 1), (16, 1)] {
        assert_eq!(
            LicenseManager::max_threads(&mut s, &thread, None, refuse, requested),
            allowed
        );
    }
    // The server may change its mind.
    assert!(LicenseManager::is_licensed(&mut s, &thread, None, |_| Ok(())));
    assert!(LicenseManager::is_licensed(&mut s, &thread, None, unreachable_server));
}

#[test]
fn one_key_is_set_per_process() {
    let mut s = state();
    assert_eq!(
        LicenseManager::set_license_key(&mut s, "a", None, |_| Err("no".to_owned())),
        Err("no".to_owned())
    );
    assert_eq!(
        LicenseManager::set_license_key(&mut s, "b", None, unreachable_server),
        Err("Different license key cannot be set in same session".to_owned())
    );
    assert_eq!(LicenseManager::set_license_key(&mut s, "a", None, |_| Ok(())), Ok(()));
    assert!(s.is_activated());
    // An activation lasts.
    assert_eq!(
        LicenseManager::set_license_key(&mut s, "a", None, |_| Err("no".to_owned())),
        Err("no".to_owned())
    );
    assert!(LicenseManager::is_licensed(
        &mut s,
        &ThreadScopes::new(),
        None,
        unreachable_server
    ));
}

#[test]
fn the_key_that_was_set_comes_before_that_of_the_environment() {
    let environment = || Some("from-environment".to_owned());
    let asked = Cell::new(String::new());
    let ask = |key: String| {
        asked.set(key);
        Err("no".to_owned())
    };
    let mut s = state();
    assert!(LicenseManager::check_license_key(&mut s, environment(), ask).is_err());
    assert_eq!(asked.take(), "from-environment");
    assert!(LicenseManager::set_license_key(&mut s, "set", environment(), ask).is_err());
    assert_eq!(asked.take(), "set");
}

#[test]
fn a_missing_key_is_announced() {
    let mut s = state();
    assert_eq!(
        LicenseManager::check_license_key(&mut s, None, unreachable_server),
        Err(MISSING_LICENSE_ERROR.to_owned())
    );
    let jobs = s.take_jobs();
    assert_eq!(jobs.len(), 1);
    assert!(matches!(jobs[0], Job::Announce));
    assert!(s.take_jobs().is_empty());
}

#[test]
fn keys_of_other_forms_are_refused_without_the_server() {
    let mut s = state();
    assert_eq!(
        LicenseManager::set_license_key(&mut s, "1#2#3", None, unreachable_server),
        Err(OUTDATED_LICENSE_KEY_ERROR.to_owned())
    );
    let mut s = state();
    assert_eq!(
        LicenseManager::set_oem_license_key(&mut s, "SL1.AAAA", "my_crate"),
        Err("Signed Symbolica license is truncated".to_owned())
    );
    assert!(!LicenseManager::is_licensed(
        &mut s,
        &ThreadScopes::new(),
        None,
        unreachable_server
    ));
}

#[test]
fn a_library_unlock_lifts_the_limits_of_its_thread() {
    let mut s = state();
    let registration =
        LibraryUnlock::for_crate(&mut s, 1, TEST_UNLOCK_TOKEN, "pysecdec").unwrap();
    let mut thread = ThreadScopes::new();
    let guard = registration.unlock(&mut thread);
    assert!(LicenseManager::is_licensed(&mut s, &thread, None, unreachable_server));
    assert_eq!(
        LicenseManager::max_threads(&mut s, &thread, None, unreachable_server, 7),
        7
    );
    guard.release(&mut thread);
    assert!(!LicenseManager::is_licensed(&mut s, &thread, None, unreachable_server));
    assert_eq!(
        LicenseManager::max_threads(&mut s, &thread, None, unreachable_server, 7),
        1
    );
    // So does an unlocked frame of an interpreter.
    assert!(LicenseManager::is_licensed(
        &mut s,
        &thread.in_frame(true),
        None,
        unreachable_server
    ));
    assert!(LicenseManager::is_check_bypassed(&thread.in_frame(true)));
}

#[test]
fn capabilities_agree_with_the_license() {
    let thread = ThreadScopes::new();
    let mut s = state();
    assert_eq!(
        LicenseManager::execution_capabilities(&mut s, &thread, None, unreachable_server),
        ExecutionCapabilities {
            license_required: true,
            is_licensed: false,
            max_threads: 1,
            native_code_generation: true,
            license_networking: true,
        }
    );
    assert_eq!(
        LicenseManager::execution_capabilities(
            &mut s,
            &thread,
            Some("online".to_owned()),
            |_| Ok(())
        ),
        ExecutionCapabilities {
            license_required: true,
            is_licensed: true,
            max_threads: usize::MAX,
            native_code_generation: true,
            license_networking: true,
        }
    );
    let mut wasm = LicenseManager::init(build(true));
    let expected = |is_licensed: bool| ExecutionCapabilities {
        license_required: false,
        is_licensed,
        max_threads: 1,
        native_code_generation: true,
        license_networking: false,
    };
    assert_eq!(
        LicenseManager::execution_capabilities(&mut wasm, &thread, None, unreachable_server),
        expected(false)
    );
    LicenseManager::set_license_key(&mut wasm, "key", None, unreachable_server).unwrap();
    assert_eq!(
        LicenseManager::execution_capabilities(&mut wasm, &thread, None, unreachable_server),
        expected(true)
    );
}

#[test]
fn wasm_builds_need_no_license() {
    let thread = ThreadScopes::new();
    let new = || LicenseManager::init(build(true));
    assert_eq!(
        LicenseManager::set_license_key(&mut new(), "S-1", None, unreachable_server),
        Ok(())
    );
    assert_eq!(
        LicenseManager::set_oem_license_key(&mut new(), "", ""),
        Ok(())
    );
    for (requested, allowed) in [(0, 0), (1, 1), (5, 1)] {
        assert_eq!(
            LicenseManager::max_threads(&mut new(), &thread, None, unreachable_server, requested),
            allowed
        );
    }
    let report = check(&mut new(), &thread, &mut None, 1, || panic!("no lock is needed"));
    assert!(report.startup.is_none());
    assert!(report.outcome.is_ok());
}

#[test]
fn wasm_builds_are_licensed_once_a_key_is_set() {
    let thread = ThreadScopes::new();
    let licensed =
        |s: &mut LicenseState| LicenseManager::is_licensed(s, &thread, None, unreachable_server);
    let mut s = LicenseManager::init(build(true));
    assert!(!licensed(&mut s));
    assert!(check(&mut s, &thread, &mut None, 1, || panic!("no lock is needed")).outcome.is_ok());
    assert!(!licensed(&mut s));
    LicenseManager::set_license_key(&mut s, "key", None, unreachable_server).unwrap();
    assert!(licensed(&mut s));
    let mut s = LicenseManager::init(build(true));
    LicenseManager::set_oem_license_key(&mut s, "", "").unwrap();
    assert!(licensed(&mut s));
}

#[test]
fn a_restricted_thread_needs_a_permit() {
    let thread = ThreadScopes::new();
    let mut s = state();
    let mut permit: Option<RestrictedThreadPermit<u8>> = None;
    let first = check(&mut s, &thread, &mut permit, 10, || Ok(Some(1)));
    let startup = first.startup.unwrap();
    assert_eq!(startup.error, None);
    assert!(startup.banner.is_some());
    assert!(startup.limit_to_one_thread);
    assert!(first.outcome.is_ok());
    // The permit is kept, and the start is made once.
    let second = check(&mut s, &thread, &mut permit, 10, || panic!("no second lock"));
    assert!(second.startup.is_none());
    assert!(second.outcome.is_ok());
    // A second thread is refused.
    let mut other: Option<RestrictedThreadPermit<u8>> = None;
    let refusal = check(&mut s, &thread, &mut other, 10, || Ok(None))
        .outcome
        .err()
        .unwrap();
    assert_eq!(refusal.error, None);
    assert_eq!(refusal.warning, RESTRICTED_THREAD_WARNING);
    assert!(other.is_none());
    let refusal = check(&mut s, &thread, &mut other, 10, || Err("no disk".to_owned()))
        .outcome
        .err()
        .unwrap();
    assert_eq!(
        refusal.error.unwrap(),
        "Could not acquire Symbolica thread permit: no disk"
    );
    // A forked child gives up the permit of its parent.
    assert!(check(&mut s, &thread, &mut permit, 11, || Ok(None)).outcome.is_err());
    assert!(permit.is_none());
}

#[test]
fn a_permit_is_taken_anew_after_a_fork() {
    let mut permit: Option<RestrictedThreadPermit<u8>> = None;
    let acquire = |permit: &mut Option<RestrictedThreadPermit<u8>>, pid: u32, lock: u8| {
        let taken = Cell::new(false);
        let r = LicenseManager::acquire_restricted_thread_permit(permit, pid, || {
            taken.set(true);
            Ok(Some(lock))
        });
        assert!(r.is_ok());
        taken.get()
    };
    assert!(acquire(&mut permit, 1, 1));
    assert!(!acquire(&mut permit, 1, 2));
    assert!(acquire(&mut permit, 2, 3));
    assert!(!acquire(&mut permit, 2, 4));
}

#[test]
fn an_activation_ends_the_need_for_a_permit() {
    let thread = ThreadScopes::new();
    let mut s = state();
    let mut permit: Option<RestrictedThreadPermit<u8>> = None;
    assert!(check(&mut s, &thread, &mut permit, 1, || Ok(None)).outcome.is_err());
    LicenseManager::set_license_key(&mut s, "online", None, |_| Ok(())).unwrap();
    let report = check(&mut s, &thread, &mut permit, 1, || panic!("no lock is needed"));
    assert!(report.outcome.is_ok());
    assert!(permit.is_none());
}

#[test]
fn a_manager_that_found_a_license_asks_for_nothing() {
    let mut s = state();
    let mut permit: Option<RestrictedThreadPermit<u8>> = None;
    let report = LicenseManager::check(
        &mut s,
        &ThreadScopes::new(),
        Some("online".to_owned()),
        &terminal(),
        |_| Ok(()),
        &mut permit,
        1,
        || panic!("no lock is needed"),
    );
    let startup = report.startup.unwrap();
    assert!(startup.error.is_none() && startup.banner.is_none() && !startup.limit_to_one_thread);
    assert!(report.outcome.is_ok());
    assert!(permit.is_none());
}

const PLAIN_BANNER: &str = "┌────────────────────────────────────────────────────────┐
│ You are running a restricted Symbolica instance.       │
│                                                        │
│ For non-commercial use only, limited to one            │
│ Symbolica thread per user.                             │
│                                                        │
├─ Unlock all cores ─────────────────────────────────────┤
│                                                        │
│ Hobbyists and students: free annual key                │
│ https://symbolica.io/license/#get-hobbyist-license     │
│                                                        │
│ Free 30-day professional trial:                        │
│ https://symbolica.io/license/#get-trial-license        │
│                                                        │
└────────────────────────────────────────────────────────┘";

fn start_with(
    error: &str,
    hide_banner: bool,
    is_terminal: bool,
    no_color: bool,
    term: Option<&str>,
) -> (Option<String>, Option<String>) {
    let (_, startup) = LicenseManager::new(
        &mut state(),
        Some("online".to_owned()),
        &Terminal {
            hide_banner,
            is_terminal,
            no_color,
            term: term.map(|t| t.to_owned()),
        },
        |_| Err(error.to_owned()),
    );
    assert!(startup.limit_to_one_thread);
    (startup.error, startup.banner)
}

#[test]
fn the_banner_suits_the_terminal() {
    let styled = PLAIN_BANNER
        .replace("Unlock all cores", "\x1b[36mUnlock all cores\x1b[0m")
        .replace(
            "Hobbyists and students: free annual key",
            "\x1b[1mHobbyists and students: free annual key\x1b[0m",
        )
        .replace(
            "Free 30-day professional trial:",
            "\x1b[1mFree 30-day professional trial:\x1b[0m",
        );
    let plain = || Some(PLAIN_BANNER.to_owned());
    let no = || Some("no".to_owned());
    assert_eq!(start_with("no", false, true, false, Some("xterm")), (no(), Some(styled)));
    assert_eq!(start_with("no", false, true, false, Some("dumb")), (no(), plain()));
    assert_eq!(start_with("no", false, true, false, None), (no(), plain()));
    assert_eq!(start_with("no", false, true, true, Some("xterm")), (no(), plain()));
    assert_eq!(start_with("no", false, false, false, Some("xterm")), (no(), plain()));
    assert_eq!(start_with("no", true, true, false, Some("xterm")), (no(), None));
}

#[test]
fn a_missing_key_is_not_reported_as_an_error() {
    assert_eq!(start_with(MISSING_LICENSE_ERROR, true, false, false, None), (None, None));
    assert_eq!(start_with("a field is missing", true, false, false, None), (None, None));
    let (_, startup) = LicenseManager::new(&mut state(), None, &terminal(), unreachable_server);
    assert_eq!(startup.error, None);
    assert_eq!(startup.banner.unwrap(), PLAIN_BANNER);
}

#[test]
fn the_version_is_that_of_the_build() {
    assert_eq!(LicenseManager::get_version(state().build()), "3.1.4-dev");
}

#[test]
fn signed_keys_are_judged_by_the_clock() {
    let key = "S-1-2030.01.01-A";
    let mut s = state();
    assert_eq!(
        LicenseManager::set_license_key_at(&mut s, key, None, None, unreachable_server),
        Err("System clock is before the Unix epoch".to_owned())
    );
    assert_eq!(
        LicenseManager::check_license_key_at(&mut s, None, Some(0), unreachable_server),
        Err("Invalid offline signature length".to_owned())
    );
    assert_eq!(
        LicenseManager::set_oem_license_key_at(&mut s, "SL1.AAAA", "my_crate", None),
        Err("System clock is before the Unix epoch".to_owned())
    );
    assert_eq!(
        LicenseManager::set_oem_license_key_at(&mut s, key, "my_crate", Some(0)),
        Err(OUTDATED_LICENSE_KEY_ERROR.to_owned())
    );
    let mut jobs: Vec<Job> = Vec::new();
    assert_eq!(
        LicenseManager::validate_license_key_at("online", None, |_| Ok(()), &mut jobs),
        Ok(())
    );
    assert!(jobs.is_empty());
}

#[test]
fn every_question_can_be_asked_for_a_given_time() {
    let thread = ThreadScopes::new();
    let signed = || Some("S-1-2030.01.01-A".to_owned());
    let online = || Some("online".to_owned());
    for clock in [None, Some(0)] {
        let mut s = state();
        assert!(!LicenseManager::is_licensed_at(&mut s, &thread, signed(), clock, unreachable_server));
        assert_eq!(
            LicenseManager::max_threads_at(&mut s, &thread, signed(), clock, unreachable_server, 4),
            1
        );
        let (_, startup) =
            LicenseManager::new_at(&mut s, signed(), clock, &terminal(), unreachable_server);
        assert_eq!(
            startup.error.unwrap(),
            match clock {
                None => "System clock is before the Unix epoch",
                Some(_) => "Invalid offline signature length",
            }
        );
        let mut permit: Option<RestrictedThreadPermit<u8>> = None;
        let report = LicenseManager::check_at(
            &mut s,
            &thread,
            signed(),
            clock,
            &terminal(),
            unreachable_server,
            &mut permit,
            1,
            || Ok(Some(1)),
        );
        assert!(report.startup.is_some() && report.outcome.is_ok() && permit.is_some());
        // An online key does not depend on the clock.
        let c = LicenseManager::execution_capabilities_at(
            &mut s,
            &thread,
            online(),
            clock,
            |_| Ok(()),
        );
        assert!(c.is_licensed && c.max_threads == usize::MAX);
    }
}

#[test]
fn a_copy_of_the_state_is_on_its_own() {
    let mut s = state();
    assert!(LicenseManager::set_license_key(&mut s, "a", None, |_| Err("no".to_owned())).is_err());
    let mut copy = s.clone();
    assert_eq!(LicenseManager::set_license_key(&mut copy, "a", None, |_| Ok(())), Ok(()));
    assert!(copy.is_activated() && !s.is_activated());
    assert!(LicenseManager::set_license_key(&mut copy, "b", None, unreachable_server).is_err());
    assert!(LicenseManager::set_license_key(&mut s, "b", None, unreachable_server).is_err());
}
