//! Where the lock files of a user are kept, and which directories and files may hold a lock.
//!
//! The functions decide from what was found on disk; reading, creating and locking are left to
//! the caller.

use vstd::prelude::*;

verus! {

/// The directory of the locks, below the directory that the system gives a project of the user.
pub const LOCK_SUBDIRECTORY: &'static str = "locks";

/// The access mode of a directory that is accessible by its owner alone.
pub const PRIVATE_DIRECTORY: u32 = 0o700;

/// The access mode of a file that is accessible by its owner alone.
pub const PRIVATE_FILE: u32 = 0o600;

/// No directory was given and the system gives none.
pub const NO_DIRECTORY: &'static str =
    "Could not determine the per-user Symbolica lock directory; set SYMBOLICA_LOCK_DIR";

/// What is said in front of a path that cannot hold a lock.
pub const LOCK_PATH: &'static str = "Symbolica lock path '";

/// What is said behind the path of a lock directory that is none.
pub const NOT_A_DIRECTORY: &'static str = "' is not a directory";

/// What is said behind the path of a lock file that is none.
pub const NOT_A_FILE: &'static str = "' is not a regular file";

/// What is said in front of the path of a given directory that others can access.
pub const GIVEN_DIRECTORY: &'static str = "SYMBOLICA_LOCK_DIR '";

/// What is said behind the path of a given directory that others can access.
pub const NOT_PRIVATE: &'static str = "' must only be accessible by its owner";

/// The kind of an error.
#[derive(Debug, Clone, Copy, PartialEq, Eq)]
pub enum LockErrorKind {
    /// Something is not there.
    NotFound,
    /// A path leads to something of the wrong kind.
    InvalidInput,
    /// Others have access.
    PermissionDenied,
}

/// An error, with what is said of it.
#[derive(Debug)]
pub struct LockError {
    /// Its kind.
    pub kind: LockErrorKind,
    /// What is said of it.
    pub message: String,
}

/// The directories that the system gives a project of the user.
pub struct ProjectDirectories<P> {
    /// The one for files of the running session, where there is one.
    pub runtime: Option<P>,
    /// The one for files that can be made again.
    pub cache: P,
}

/// A directory for locks.
pub struct LockDirectory<P> {
    /// The directory, or the one above it.
    pub base: P,
    /// The directory below `base`, where it is not `base` itself.
    pub subdirectory: Option<&'static str>,
    /// Whether its access mode is to be repaired; else it has to be right.
    pub repair_permissions: bool,
}

/// What stands at the path of a lock file.
pub enum Entry<E> {
    /// Nothing.
    Absent,
    /// A regular file.
    File,
    /// Something else.
    Other,
    /// It could not be found out.
    Unknown(E),
}

/// Why a lock could not be asked for.
#[derive(Debug)]
pub enum AcquireError<E> {
    /// Its path cannot hold a lock.
    Lock(LockError),
    /// The system reports an error.
    System(E),
}

/// How an attempt to open and lock a file ended.
pub enum Attempt<L, E> {
    /// The lock is taken.
    Locked(L),
    /// Another holds it.
    WouldBlock,
    /// The file could not be opened or locked.
    Failed(E),
}

/// Whether an access mode lets others in.
pub open spec fn lets_others_in(mode: u32) -> bool {
    mode & 0o077 != 0
}

/// Whether an error is of the kind and says the text.
pub open spec fn says(e: LockError, kind: LockErrorKind, message: Seq<char>) -> bool {
    e.kind == kind && e.message@ == message
}

/// The directory for locks: the given one, or one below the session's or the cache directory.
pub fn lock_directory<P>(given: Option<P>, project: Option<ProjectDirectories<P>>) -> (r: Result<
    LockDirectory<P>,
    LockError,
>)
    ensures
        match (given, project) {
            (Some(path), _) => r is Ok && r->Ok_0.base == path && r->Ok_0.subdirectory is None
                && !r->Ok_0.repair_permissions,
            (None, None) => r is Err && says(
                r->Err_0,
                LockErrorKind::NotFound,
                NO_DIRECTORY@,
            ),
            (None, Some(dirs)) => {
                &&& r is Ok
                &&& r->Ok_0.base == match dirs.runtime {
                    Some(runtime) => runtime,
                    None => dirs.cache,
                }
                &&& r->Ok_0.subdirectory is Some
                &&& r->Ok_0.subdirectory->0@ == LOCK_SUBDIRECTORY@
                &&& r->Ok_0.repair_permissions
            },
        },
{
    if let Some(base) = given {
        return Ok(LockDirectory { base, subdirectory: None, repair_permissions: false });
    }
    match project {
        None => Err(
            LockError { kind: LockErrorKind::NotFound, message: NO_DIRECTORY.to_owned() },
        ),
        Some(dirs) => {
            let base = match dirs.runtime {
                Some(runtime) => runtime,
                None => dirs.cache,
            };
            Ok(
                LockDirectory {
                    base,
                    subdirectory: Some(LOCK_SUBDIRECTORY),
                    repair_permissions: true,
                },
            )
        },
    }
}

/// Puts a path between two parts of a sentence.
fn sentence(front: &str, path: &str, back: &str) -> (r: String)
    ensures
        r@ == front@ + path@ + back@,
{
    let mut out: String = front.to_owned();
    out.append(path);
    out.append(back);
    out
}

/// What a directory for locks still needs, once it was created: the access mode to set on it, if
/// any. `mode` is its access mode, where the system has such modes.
pub fn prepare_lock_directory(
    path: &str,
    is_directory: bool,
    mode: Option<u32>,
    repair_permissions: bool,
) -> (r: Result<Option<u32>, LockError>)
    ensures
        if !is_directory {
            r is Err && says(
                r->Err_0,
                LockErrorKind::InvalidInput,
                LOCK_PATH@ + path@ + NOT_A_DIRECTORY@,
            )
        } else if mode is Some && lets_others_in(mode->0) {
            if repair_permissions {
                r == Ok::<Option<u32>, LockError>(Some(PRIVATE_DIRECTORY))
            } else {
                r is Err && says(
                    r->Err_0,
                    LockErrorKind::PermissionDenied,
                    GIVEN_DIRECTORY@ + path@ + NOT_PRIVATE@,
                )
            }
        } else {
            r == Ok::<Option<u32>, LockError>(None)
        },
        r matches Ok(Some(repaired)) ==> !lets_others_in(repaired),
{
    assert(0o700u32 & 0o077u32 == 0u32) by (bit_vector);
    if !is_directory {
        return Err(
            LockError {
                kind: LockErrorKind::InvalidInput,
                message: sentence(LOCK_PATH, path, NOT_A_DIRECTORY),
            },
        );
    }
    if let Some(mode) = mode {
        if mode & 0o077 != 0 {
            if repair_permissions {
                return Ok(Some(PRIVATE_DIRECTORY));
            }
            return Err(
                LockError {
                    kind: LockErrorKind::PermissionDenied,
                    message: sentence(GIVEN_DIRECTORY, path, NOT_PRIVATE),
                },
            );
        }
    }
    Ok(None)
}

/// What comes of the attempt to open and lock a file.
pub open spec fn attempted<L, E>(attempt: Attempt<L, E>) -> Result<Option<L>, AcquireError<E>> {
    match attempt {
        Attempt::Locked(lock) => Ok(Some(lock)),
        Attempt::WouldBlock => Ok(None),
        Attempt::Failed(e) => Err(AcquireError::System(e)),
    }
}

/// Takes the lock of a file, or none where another holds it. The file is opened, or created, only
/// where nothing stands at its path, or a regular file.
pub fn try_acquire_lock_in<L, E, A: FnOnce() -> Attempt<L, E>>(
    path: &str,
    entry: Entry<E>,
    open_and_lock: A,
) -> (r: Result<Option<L>, AcquireError<E>>)
    requires
        entry is Absent || entry is File ==> call_requires(open_and_lock, ()),
    ensures
        match entry {
            Entry::Absent | Entry::File => exists|attempt: Attempt<L, E>| #[trigger]
                call_ensures(open_and_lock, (), attempt) && r == attempted(attempt),
            Entry::Other => r is Err && r->Err_0 is Lock && says(
                r->Err_0->Lock_0,
                LockErrorKind::InvalidInput,
                LOCK_PATH@ + path@ + NOT_A_FILE@,
            ),
            Entry::Unknown(e) => r == Err::<Option<L>, AcquireError<E>>(AcquireError::System(e)),
        },
{
    match entry {
        Entry::Absent | Entry::File => {},
        Entry::Other => return Err(
            AcquireError::Lock(
                LockError {
                    kind: LockErrorKind::InvalidInput,
                    message: sentence(LOCK_PATH, path, NOT_A_FILE),
                },
            ),
        ),
        Entry::Unknown(e) => return Err(AcquireError::System(e)),
    }
    match open_and_lock() {
        Attempt::Locked(lock) => Ok(Some(lock)),
        Attempt::WouldBlock => Ok(None),
        Attempt::Failed(e) => Err(AcquireError::System(e)),
    }
}

/// An access mode lets others in exactly where one of its last six bits is set, those of the group
/// and of everyone else.
pub proof fn law_others_are_group_and_world(mode: u32)
    ensures
        lets_others_in(mode) <==> mode % 64 != 0,
{
    assert(mode & 0o077 == mode % 64) by (bit_vector);
}

} // verus!
