use data_encoding::BASE64URL_NOPAD;
use ed25519_compact::{KeyPair, PublicKey, Seed, Signature};
use symbolica_license::json::{Document, Member};
use symbolica_license::manager::{LicenseManager, LicenseState};
use symbolica_license::scopes::{
    current_thread_is_unlocked, InheritedLibraryUnlock, LibraryUnlockGuard, ThreadScopes,
};
use symbolica_license::state::{Build, Job};
use symbolica_license::token::{
    get_usize_claim, read_document, verify_signature, verify_token, UnlockClaims,
    TEST_UNLOCK_LICENSE, TEST_UNLOCK_PUBLIC_KEY, TEST_UNLOCK_TOKEN,
};
use symbolica_license::unlock::{start_license_check, LibraryUnlock};

fn state(wasm32: bool, development: bool) -> LicenseState {
    LicenseManager::init(Build {
        wasm32,
        development,
        native_code_generation: false,
        version: "3.0.0".to_owned(),
        package_version: "3.0.0".to_owned(),
    })
}

fn register() -> LibraryUnlock {
    LibraryUnlock::for_crate(&mut state(false, true), 1, TEST_UNLOCK_TOKEN, "pysecdec").unwrap()
}

#[test]
fn verifies_development_unlock_token() {
    assert_eq!(
        verify_token(TEST_UNLOCK_TOKEN, true).unwrap(),
        UnlockClaims {
            package: "pysecdec".to_owned(),
            license: TEST_UNLOCK_LICENSE.to_owned(),
            token_id: TEST_UNLOCK_TOKEN.split_once('.').unwrap().1.to_owned(),
        }
    );
}

#[test]
fn rejects_noncanonical_unlock_token_encoding() {
    let (payload, signature) = TEST_UNLOCK_TOKEN.split_once('.').unwrap();
    for token in [
        format!("{payload}=.{signature}"),
        format!("{payload}.{signature}="),
        format!("{payload}.{signature}\n"),
        format!("{payload}.{}", signature.replace('-', "+")),
    ] {
        assert!(verify_token(&token, true).unwrap_err().contains("encoding"));
    }

    // Changing only unused trailing bits must not create an alternate token ID.
    assert!(signature.ends_with('Q'));
    let noncanonical = format!("{payload}.{}R", &signature[..signature.len() - 1]);
    assert!(verify_token(&noncanonical, true)
        .unwrap_err()
        .contains("encoding"));
}

#[test]
fn rejects_tampered_unlock_token() {
    let mut token = TEST_UNLOCK_TOKEN.to_owned();
    token.replace_range(..1, "f");
    assert_eq!(
        verify_token(&token, true).unwrap_err(),
        "Invalid Symbolica library unlock token signature"
    );
}

#[test]
fn rust_guard_is_thread_bound() {
    let registration = register();
    let mut thread = ThreadScopes::new();
    let other = ThreadScopes::new();
    assert!(!current_thread_is_unlocked(&thread));
    let guard = registration.unlock(&mut thread);
    assert!(current_thread_is_unlocked(&thread));
    assert!(!current_thread_is_unlocked(&other));
    guard.release(&mut thread);
    assert!(!current_thread_is_unlocked(&thread));
}

#[test]
fn rust_guard_is_nested() {
    let registration = register();
    let mut thread = ThreadScopes::new();
    let outer = registration.unlock(&mut thread);
    let inner = registration.unlock(&mut thread);
    assert!(current_thread_is_unlocked(&thread));
    inner.release(&mut thread);
    assert!(current_thread_is_unlocked(&thread));
    outer.release(&mut thread);
    assert!(!current_thread_is_unlocked(&thread));
}

#[test]
fn symbolica_worker_can_inherit_unlock() {
    let registration = register();
    let mut thread = ThreadScopes::new();
    let _guard = registration.unlock(&mut thread);
    let inherited = InheritedLibraryUnlock::capture(&thread);

    let mut worker = ThreadScopes::new();
    assert!(!current_thread_is_unlocked(&worker));
    let _worker_guard = inherited.activate(&mut worker);
    assert!(current_thread_is_unlocked(&worker));
}

#[test]
fn parallel_symbolica_callback_inherits_unlock() {
    let registration = register();
    let mut thread = ThreadScopes::new();
    let _guard = registration.unlock(&mut thread);
    let expression = "a+b+c+d+e+f+g+h";

    let inherited = InheritedLibraryUnlock::capture(&thread);
    let mut workers = [ThreadScopes::new(); 4];
    let guards: Vec<Option<LibraryUnlockGuard>> = workers
        .iter_mut()
        .map(|worker| inherited.activate(worker))
        .collect();
    let result = expression
        .split('+')
        .enumerate()
        .map(|(i, term)| {
            assert!(current_thread_is_unlocked(&workers[i % 4]));
            term.to_owned()
        })
        .collect::<Vec<_>>()
        .join("+");
    assert_eq!(result, expression);
    for (guard, worker) in guards.into_iter().zip(workers.iter_mut()) {
        guard.unwrap().release(worker);
        assert!(!current_thread_is_unlocked(worker));
    }
}

#[test]
fn a_worker_of_a_locked_thread_stays_locked() {
    let mut worker = ThreadScopes::new();
    let inherited = InheritedLibraryUnlock::capture(&ThreadScopes::new());
    assert!(inherited.activate(&mut worker).is_none());
    assert!(!current_thread_is_unlocked(&worker));
    // An unlocked frame of an interpreter is taken along too.
    let inherited = InheritedLibraryUnlock::capture(&ThreadScopes::new().in_frame(true));
    assert!(inherited.activate(&mut worker).is_some());
    assert_eq!(worker.unlock_depth(), 1);
}

#[test]
fn each_token_error_has_its_text() {
    let (payload, signature) = TEST_UNLOCK_TOKEN.split_once('.').unwrap();
    for (token, error) in [
        ("AAAA".to_owned(), "Invalid Symbolica library unlock token format"),
        ("A.A.A".to_owned(), "Invalid Symbolica library unlock token format"),
        (
            format!("*.{signature}"),
            "Invalid Symbolica library unlock token payload encoding",
        ),
        (
            format!("{payload}.*"),
            "Invalid Symbolica library unlock token signature encoding",
        ),
        (
            format!("{payload}.AAAA"),
            "Invalid Symbolica library unlock token signature length",
        ),
        (
            format!("{payload}.{}", "A".repeat(86)),
            "Invalid Symbolica library unlock token signature",
        ),
    ] {
        assert_eq!(verify_token(&token, true).unwrap_err(), error);
    }
}

#[test]
fn the_development_issuer_is_trusted_in_development_builds_only() {
    assert!(verify_token(TEST_UNLOCK_TOKEN, true).is_ok());
    assert_eq!(
        verify_token(TEST_UNLOCK_TOKEN, false).unwrap_err(),
        "Invalid Symbolica library unlock token signature"
    );
}

fn text(value: &str) -> Member {
    Member::Text(value.to_owned())
}

fn document(version: Member, package: Member, license: Member) -> Document {
    Document::Object(vec![
        ("version".to_owned(), version),
        ("package".to_owned(), package),
        ("license".to_owned(), license),
    ])
}

#[test]
fn each_document_error_has_its_text() {
    let one = || Member::Number(1f64.to_bits());
    let package = || text("a.b_C9");
    let license = || text("SYMBOLICA_UNLOCK_X");
    let claims = read_document(&document(one(), package(), license()), "id").unwrap();
    assert_eq!(
        claims,
        UnlockClaims {
            package: "a.b_C9".to_owned(),
            license: "SYMBOLICA_UNLOCK_X".to_owned(),
            token_id: "id".to_owned(),
        }
    );
    for (document, error) in [
        (
            Document::Invalid("reason".to_owned()),
            "Invalid Symbolica library unlock token JSON",
        ),
        (
            Document::Other,
            "Symbolica library unlock token payload is not an object",
        ),
        (
            Document::Object(Vec::new()),
            "Library unlock token is missing integer claim 'version'",
        ),
        (
            document(text("1"), package(), license()),
            "Library unlock token is missing integer claim 'version'",
        ),
        (
            document(Member::Number(1.5f64.to_bits()), package(), license()),
            "Library unlock token has invalid integer claim 'version'",
        ),
        (
            document(Member::Number(12f64.to_bits()), package(), license()),
            "Unsupported Symbolica library unlock token version 12",
        ),
        (
            document(one(), text(""), license()),
            "Symbolica library unlock token has invalid package claim",
        ),
        (
            document(one(), text("a-b"), license()),
            "Symbolica library unlock token has invalid package claim",
        ),
        (
            document(one(), Member::Null, license()),
            "Symbolica library unlock token has invalid package claim",
        ),
        (
            document(one(), package(), text("SYMBOLICA_UNLOCK_")),
            "Symbolica library unlock token has invalid license claim",
        ),
        (
            document(one(), package(), text("OTHER_LICENSE_PREFIX_")),
            "Symbolica library unlock token has invalid license claim",
        ),
    ] {
        assert_eq!(read_document(&document, "id").unwrap_err(), error);
    }
}

#[test]
fn integer_claims_are_positive_integers() {
    let claim = |bits: u64| {
        get_usize_claim(
            &vec![("n".to_owned(), Member::Number(bits))],
            "n",
        )
    };
    assert_eq!(claim(1f64.to_bits()), Ok(1));
    assert_eq!(claim(4503599627370497f64.to_bits()), Ok(4503599627370497));
    // The largest double at the limit is converted to the limit.
    assert_eq!(claim((usize::MAX as f64).to_bits()), Ok(usize::MAX));
    for value in [
        0.0,
        -0.0,
        -1.0,
        0.5,
        1.25,
        1e300,
        f64::INFINITY,
        f64::NEG_INFINITY,
        f64::NAN,
        f64::MIN_POSITIVE,
    ] {
        assert_eq!(
            claim(value.to_bits()).unwrap_err(),
            "Library unlock token has invalid integer claim 'n'",
            "{value}"
        );
    }
}

#[test]
fn signatures_are_checked_under_the_given_key() {
    let issuer = KeyPair::from_seed(Seed::new([7; 32]));
    let key = BASE64URL_NOPAD.encode(issuer.pk.as_ref());
    let signature: Signature = issuer.sk.sign(b"payload", None);
    assert_eq!(verify_signature(&key, b"payload", signature.as_ref()), Ok(true));
    assert_eq!(verify_signature(&key, b"payload2", signature.as_ref()), Ok(false));
    assert_eq!(
        verify_signature(TEST_UNLOCK_PUBLIC_KEY, b"payload", signature.as_ref()),
        Ok(false)
    );
    assert_eq!(
        verify_signature("*", b"payload", signature.as_ref()).unwrap_err(),
        "Invalid compiled Symbolica library unlock public key"
    );
    assert_eq!(
        verify_signature("AAAA", b"payload", signature.as_ref()).unwrap_err(),
        "Invalid compiled Symbolica library unlock public key length"
    );
    // The same answer as the signature library gives directly.
    assert!(PublicKey::new(*issuer.pk).verify(b"payload", &signature).is_ok());
}

#[test]
fn a_token_is_registered_by_its_package_only() {
    let mut s = state(false, true);
    assert_eq!(
        LibraryUnlock::for_crate(&mut s, 1, TEST_UNLOCK_TOKEN, "other").unwrap_err(),
        "Library unlock token for package 'pysecdec' cannot be registered by crate 'other'"
    );
    assert_eq!(
        LibraryUnlock::for_crate(&mut s, 1, "nonsense", "pysecdec").unwrap_err(),
        "Invalid Symbolica library unlock token format"
    );
    assert!(LibraryUnlock::for_crate(&mut s, 1, TEST_UNLOCK_TOKEN, "pysecdec").is_ok());
    // The development token is not asked about.
    assert!(s.take_jobs().is_empty());
}

fn claims(license: &str, token_id: &str) -> UnlockClaims {
    UnlockClaims {
        package: "package".to_owned(),
        license: license.to_owned(),
        token_id: token_id.to_owned(),
    }
}

fn licenses(jobs: Vec<Job>) -> Vec<String> {
    jobs.into_iter()
        .map(|job| match job {
            Job::CheckUnlock(license) => license,
            _ => panic!("not a check of a library unlock"),
        })
        .collect()
}

#[test]
fn a_license_is_checked_once_per_process() {
    let mut s = state(false, true);
    start_license_check(&mut s, &claims("L1", "a"), 1);
    start_license_check(&mut s, &claims("L1", "b"), 1);
    start_license_check(&mut s, &claims("L2", "c"), 1);
    start_license_check(&mut s, &claims("L1", "a"), 2);
    start_license_check(&mut s, &claims("L1", "a"), 1);
    assert_eq!(licenses(s.take_jobs()), ["L1", "L2", "L1"]);
    start_license_check(&mut s, &claims("L2", "c"), 1);
    assert!(s.take_jobs().is_empty());
}

#[test]
fn only_the_development_token_itself_is_not_asked_about() {
    let id = TEST_UNLOCK_TOKEN.split_once('.').unwrap().1;
    let mut s = state(false, true);
    start_license_check(&mut s, &claims(TEST_UNLOCK_LICENSE, id), 1);
    start_license_check(&mut s, &claims("L1", id), 1);
    start_license_check(&mut s, &claims(TEST_UNLOCK_LICENSE, "other"), 1);
    assert_eq!(licenses(s.take_jobs()), ["L1", TEST_UNLOCK_LICENSE]);
    let mut s = state(false, false);
    start_license_check(&mut s, &claims(TEST_UNLOCK_LICENSE, id), 1);
    assert_eq!(licenses(s.take_jobs()), [TEST_UNLOCK_LICENSE]);
    let mut s = state(true, false);
    start_license_check(&mut s, &claims("L1", "a"), 1);
    assert!(s.take_jobs().is_empty());
}
