use symbolica_license::manager::LicenseManager;
use symbolica_license::messages::{
    ACTIVATION_ERROR, CONNECTION_ERROR, NETWORK_ERROR, OUTDATED_LICENSE_KEY_ERROR, RESOLVE_ERROR,
};
use symbolica_license::state::Job;

#[test]
fn online_license_still_checks_registration() {
    let mut jobs: Vec<Job> = Vec::new();
    LicenseManager::validate_license_key(
        "online-key",
        |key| {
            assert_eq!(key, "online-key");
            Ok(())
        },
        &mut jobs,
    )
    .unwrap();
    assert_eq!(
        LicenseManager::validate_license_key(
            "online-key",
            |_| Err("expired".to_owned()),
            &mut jobs
        ),
        Err("expired".to_owned())
    );
    assert!(jobs.is_empty());
}

#[test]
fn offline_registration_runs_in_background_and_sends_the_full_key() {
    let key = "S-123-2030.01.01-signature";
    let mut asked: Vec<String> = Vec::new();
    let said = LicenseManager::check_offline_license_registration(key.to_owned(), |key| {
        asked.push(key);
        Ok(())
    });
    assert_eq!(asked, [key]);
    assert_eq!(said, None);
}

#[test]
fn offline_registration_tolerates_network_and_unrecognized_errors() {
    for error in [
        RESOLVE_ERROR,
        CONNECTION_ERROR,
        NETWORK_ERROR,
        "Empty response",
        "Server unavailable",
    ] {
        assert!(!LicenseManager::offline_license_is_rejected(error));
        assert_eq!(
            LicenseManager::check_offline_license_registration("offline-key".to_owned(), |_| Err(
                error.to_owned()
            )),
            None
        );
    }
}

#[test]
fn offline_registration_recognizes_server_rejections() {
    for status in [
        "License banned",
        "License REVOKED",
        "License expired",
        "Unknown license",
    ] {
        // check_registration wraps server statuses in the activation error message.
        let error = format!("Could not activate the Symbolica license\nError: {status}");
        assert!(LicenseManager::offline_license_is_rejected(&error));
    }
}

#[test]
fn unsigned_or_malformed_keys_cannot_fall_back_to_online_activation() {
    for key in [
        "5381#ffffffff#fake",
        "bad#not-a-date#fake",
        "SYMBOLICA_OEM_KEY_123",
        "SL1.invalid",
        "SL2.invalid",
        "S-123-2030.01.01-invalid",
        "S123-2030.01.01-invalid",
        "S-",
        "S-123",
        "SYMBOLICA2-123-2030.01.01-invalid",
    ] {
        let mut jobs: Vec<Job> = Vec::new();
        assert!(LicenseManager::validate_license_key(
            key,
            |_| panic!("must not contact server for an invalid offline/OEM key"),
            &mut jobs
        )
        .is_err());
        assert!(jobs.is_empty());
    }
}

#[test]
fn the_form_of_a_key_says_who_decides() {
    let outdated = |key: &str| {
        let mut jobs: Vec<Job> = Vec::new();
        LicenseManager::validate_license_key(key, |_| Ok(()), &mut jobs)
    };
    for key in ["#", "a#b", "SYMBOLICA_OEM_", "SYMBOLICA_OEM_x", "SL2.x"] {
        assert_eq!(outdated(key), Err(OUTDATED_LICENSE_KEY_ERROR.to_owned()), "{key}");
    }
    for key in ["", "x", "S", "Sx", "S x-y", "Sx.y", "SYMBOLICA", "s-1", "L-1.2"] {
        assert_eq!(outdated(key), Ok(()), "{key}");
    }
    for key in ["S1", "S-", "SL", "Sx-y.z", "Sx.y-z", "SYMBOLICA_OEM_-."] {
        assert!(outdated(key).is_err(), "{key}");
    }
}

#[test]
fn a_rejected_offline_key_ends_the_program() {
    for (error, ends) in [
        ("banned", true),
        ("was BANNED today", true),
        ("Revoked", true),
        ("eXpired", true),
        ("UNKNOWN LICENSE", true),
        ("unknown  license", false),
        ("ban", false),
        ("", false),
    ] {
        let said =
            LicenseManager::check_offline_license_registration("key".to_owned(), |_| {
                Err(error.to_owned())
            });
        assert_eq!(said, if ends { Some(error.to_owned()) } else { None });
    }
}

#[test]
fn an_unknown_library_unlock_ends_the_program() {
    for (error, ends) in [
        ("Error: Unknown license", true),
        ("unknown license", false),
        ("License banned", false),
    ] {
        let said =
            LicenseManager::check_library_unlock_registration("key".to_owned(), |key| {
                assert_eq!(key, "key");
                Err(error.to_owned())
            });
        assert_eq!(said, if ends { Some(error.to_owned()) } else { None });
    }
    assert_eq!(
        LicenseManager::check_library_unlock_registration("key".to_owned(), |_| Ok(())),
        None
    );
}

#[test]
fn rejections_are_found_in_any_case_and_place() {
    let rejected = LicenseManager::offline_license_is_rejected;
    for word in ["banned", "revoked", "expired", "unknown license"] {
        assert!(rejected(word));
        assert!(rejected(&word.to_ascii_uppercase()));
        assert!(rejected(&format!("é {word} and more")));
        assert!(!rejected(&word[1..]));
    }
    // The message in front of a status makes no rejection of it.
    for status in ["", "ok", "anned", "evoked", "xpired", "nknown license", "license"] {
        assert!(!rejected(&format!("{ACTIVATION_ERROR}\nError: {status}")), "{status}");
    }
}
