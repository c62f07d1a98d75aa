use std::cell::Cell;
use symbolica_license::locks::{
    lock_directory, prepare_lock_directory, try_acquire_lock_in, AcquireError, Attempt, Entry,
    LockErrorKind, ProjectDirectories, PRIVATE_DIRECTORY, PRIVATE_FILE,
};

#[test]
fn a_given_directory_comes_first() {
    let project = || ProjectDirectories {
        runtime: Some("run"),
        cache: "cache",
    };
    let d = lock_directory(Some("given"), Some(project())).unwrap();
    assert_eq!((d.base, d.subdirectory, d.repair_permissions), ("given", None, false));
    let d = lock_directory(None, Some(project())).unwrap();
    assert_eq!((d.base, d.subdirectory, d.repair_permissions), ("run", Some("locks"), true));
    let d = lock_directory(
        None,
        Some(ProjectDirectories {
            runtime: None,
            cache: "cache",
        }),
    )
    .unwrap();
    assert_eq!((d.base, d.subdirectory, d.repair_permissions), ("cache", Some("locks"), true));
    let e = lock_directory::<&str>(None, None).err().unwrap();
    assert_eq!(e.kind, LockErrorKind::NotFound);
    assert_eq!(
        e.message,
        "Could not determine the per-user Symbolica lock directory; set SYMBOLICA_LOCK_DIR"
    );
}

#[test]
fn explicit_lock_directory_must_be_private() {
    let error = prepare_lock_directory("permissions", true, Some(0o40755), false).unwrap_err();
    assert_eq!(error.kind, LockErrorKind::PermissionDenied);
    assert_eq!(
        error.message,
        "SYMBOLICA_LOCK_DIR 'permissions' must only be accessible by its owner"
    );
}

#[test]
fn other_directories_are_repaired() {
    assert_eq!(
        prepare_lock_directory("d", true, Some(0o40755), true).unwrap(),
        Some(0o700)
    );
    assert_eq!(prepare_lock_directory("d", true, Some(0o40700), true).unwrap(), None);
    assert_eq!(prepare_lock_directory("d", true, Some(0o40700), false).unwrap(), None);
    assert_eq!(prepare_lock_directory("d", true, None, false).unwrap(), None);
    for mode in [PRIVATE_DIRECTORY, PRIVATE_FILE] {
        assert_eq!(mode & 0o077, 0);
        assert_eq!(prepare_lock_directory("d", true, Some(mode), true).unwrap(), None);
    }
    let error = prepare_lock_directory("d", false, Some(0o100600), true).unwrap_err();
    assert_eq!(error.kind, LockErrorKind::InvalidInput);
    assert_eq!(error.message, "Symbolica lock path 'd' is not a directory");
}

#[test]
fn private_per_user_lock_excludes_other_handles() {
    let held = Cell::new(false);
    let acquire = |entry: Entry<String>| {
        try_acquire_lock_in("exclusive/test.lock", entry, || {
            if held.replace(true) {
                Attempt::WouldBlock
            } else {
                Attempt::Locked(())
            }
        })
    };
    assert_eq!(acquire(Entry::Absent).unwrap(), Some(()));
    assert_eq!(acquire(Entry::File).unwrap(), None);
    held.set(false);
    assert_eq!(acquire(Entry::File).unwrap(), Some(()));
}

#[test]
fn only_regular_files_are_locked() {
    let never = || -> Attempt<(), String> { panic!("must not be opened") };
    match try_acquire_lock_in("d/x.lock", Entry::Other, never) {
        Err(AcquireError::Lock(error)) => {
            assert_eq!(error.kind, LockErrorKind::InvalidInput);
            assert_eq!(error.message, "Symbolica lock path 'd/x.lock' is not a regular file");
        }
        _ => panic!("expected an error"),
    }
    match try_acquire_lock_in("d/x.lock", Entry::Unknown("denied".to_owned()), never) {
        Err(AcquireError::System(error)) => assert_eq!(error, "denied"),
        _ => panic!("expected an error"),
    }
    match try_acquire_lock_in("d/x.lock", Entry::File, || -> Attempt<(), String> {
        Attempt::Failed("full".to_owned())
    }) {
        Err(AcquireError::System(error)) => assert_eq!(error, "full"),
        _ => panic!("expected an error"),
    }
}
