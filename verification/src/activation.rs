//! How a license key is judged: which form it has, who decides on it, and what the license server
//! may still say of it later.

use crate::clock;
use crate::manager::LicenseManager;
use crate::messages::OUTDATED_LICENSE_KEY_ERROR;
use crate::signed;
use crate::signed::{Claims, Purpose};
use crate::state;
use crate::state::{Job, JobView};
use crate::text;
use vstd::prelude::*;

verus! {

/// The form of a license key, which says who decides on it.
pub enum Route {
    /// A signed key, verified without the server.
    Offline,
    /// A key in a form that is no longer accepted.
    Outdated,
    /// A key that the server decides on.
    Online,
}

/// Whether a key has the form of a signed key: `S-` or `SL` in front, or `S` and either a digit
/// behind it or both a dash and a dot somewhere behind it.
pub open spec fn is_signed_form(key: Seq<u8>) -> bool {
    let body = key.skip(1);
    ||| text::has_prefix(key, text::utf8("S-"@))
    ||| text::has_prefix(key, text::utf8("SL"@))
    ||| {
        &&& key.len() > 0
        &&& key[0] == 'S' as u8
        &&& {
            ||| body.len() > 0 && text::is_digit(body[0])
            ||| body.contains('-' as u8) && body.contains('.' as u8)
        }
    }
}

/// The form of a key.
pub open spec fn route(key: Seq<u8>) -> Route {
    if is_signed_form(key) {
        Route::Offline
    } else if key.contains('#' as u8) || text::has_prefix(key, text::utf8("SYMBOLICA_OEM_"@)) {
        Route::Outdated
    } else {
        Route::Online
    }
}

/// Whether a registration check may answer with `r` when asked about the key.
pub open spec fn answered<F: FnOnce(String) -> Result<(), String>>(
    check_registration: F,
    key: Seq<char>,
    r: Result<(), String>,
) -> bool {
    exists|k: String| k@ == key && #[trigger] call_ensures(check_registration, (k,), r)
}

/// Whether a registration check may be asked about the key.
pub open spec fn may_ask<F: FnOnce(String) -> Result<(), String>>(
    check_registration: F,
    key: Seq<char>,
) -> bool {
    forall|k: String| k@ == key ==> #[trigger] call_requires(check_registration, (k,))
}

/// Whether a registration check may be asked about any key.
pub open spec fn may_ask_any<F: FnOnce(String) -> Result<(), String>>(
    check_registration: F,
) -> bool {
    forall|k: String| #[trigger] call_requires(check_registration, (k,))
}

/// An outcome without the claims that come with a success.
pub open spec fn granted(outcome: Result<Claims, Seq<char>>) -> Result<(), Seq<char>> {
    match outcome {
        Ok(_) => Ok(()),
        Err(e) => Err(e),
    }
}

/// What a key is answered when the clock shows `clock`, and which jobs it leaves behind those that
/// were there.
pub open spec fn validated_at<F: FnOnce(String) -> Result<(), String>>(
    key: Seq<char>,
    clock: Option<u64>,
    check_registration: F,
    r: Result<(), String>,
    jobs: Seq<JobView>,
    jobs_then: Seq<JobView>,
) -> bool {
    match route(text::utf8(key)) {
        Route::Offline => {
            &&& text::agrees(
                r,
                granted(signed::issued_outcome(text::utf8(key), Purpose::Offline, clock)),
            )
            &&& jobs_then == if r is Ok {
                jobs.push(JobView::CheckOffline(key))
            } else {
                jobs
            }
        },
        Route::Outdated => text::agrees(r, Err(OUTDATED_LICENSE_KEY_ERROR@)) && jobs_then == jobs,
        Route::Online => answered(check_registration, key, r) && jobs_then == jobs,
    }
}

/// What a key is answered at the present time: a signed key is judged by what the system clock
/// showed.
pub open spec fn validated<F: FnOnce(String) -> Result<(), String>>(
    key: Seq<char>,
    check_registration: F,
    r: Result<(), String>,
    jobs: Seq<JobView>,
    jobs_then: Seq<JobView>,
) -> bool {
    exists|clock: Option<u64>| #[trigger]
        validated_at(key, clock, check_registration, r, jobs, jobs_then) && (route(
            text::utf8(key),
        ) is Offline ==> clock::shown(clock))
}

/// Whether the answer of the server ends a program that runs on an offline key.
pub open spec fn rejects_offline(error: Seq<u8>) -> bool {
    let lower = text::lowercase(error);
    ||| text::has_substring(lower, text::utf8("banned"@))
    ||| text::has_substring(lower, text::utf8("revoked"@))
    ||| text::has_substring(lower, text::utf8("expired"@))
    ||| text::has_substring(lower, text::utf8("unknown license"@))
}

/// Whether the answer of the server ends a program that runs on a library unlock.
pub open spec fn rejects_unlock(error: Seq<u8>) -> bool {
    text::has_substring(error, text::utf8("Unknown license"@))
}

/// What is said before the program ends upon an answer of the server, or that it does not end.
pub open spec fn last_words(
    answer: Result<(), String>,
    rejects: spec_fn(Seq<u8>) -> bool,
) -> Option<Seq<char>> {
    match answer {
        Ok(()) => None,
        Err(error) => if rejects(text::utf8(error@)) {
            Some(error@)
        } else {
            None
        },
    }
}

/// A text that may be missing, as what it stands for.
pub open spec fn text_view(s: Option<String>) -> Option<Seq<char>> {
    match s {
        Some(s) => Some(s@),
        None => None,
    }
}

/// Finds the form of a key.
fn route_of(key: &str) -> (r: Route)
    ensures
        r == route(text::utf8(key@)),
{
    let s = key.as_bytes();
    if text::starts_with(s, "S-".as_bytes()) || text::starts_with(s, "SL".as_bytes()) {
        return Route::Offline;
    }
    if s.len() > 0 && s[0] == 'S' as u8 {
        let body = vstd::slice::slice_subrange(s, 1, s.len());
        assert(body@ =~= s@.skip(1));
        if body.len() > 0 && '0' as u8 <= body[0] && body[0] <= '9' as u8 {
            return Route::Offline;
        }
        if text::position(body, '-' as u8) < body.len() && text::position(body, '.' as u8)
            < body.len() {
            return Route::Offline;
        }
    }
    if text::position(s, '#' as u8) < s.len() || text::starts_with(
        s,
        "SYMBOLICA_OEM_".as_bytes(),
    ) {
        Route::Outdated
    } else {
        Route::Online
    }
}

impl LicenseManager {
    /// Validates a key at the present time. A signed key that is accepted leaves the job to ask
    /// the server about it, in full; one that is not accepted, or is outdated, never reaches the
    /// server.
    pub fn validate_license_key<F: FnOnce(String) -> Result<(), String>>(
        key: &str,
        check_registration: F,
        jobs: &mut Vec<Job>,
    ) -> (r: Result<(), String>)
        requires
            route(text::utf8(key@)) is Online ==> may_ask(check_registration, key@),
        ensures
            validated(
                key@,
                check_registration,
                r,
                state::job_views(old(jobs)@),
                state::job_views(final(jobs)@),
            ),
    {
        let clock: Option<u64> = match route_of(key) {
            Route::Offline => clock::read(),
            _ => None,
        };
        Self::validate_license_key_at(key, clock, check_registration, jobs)
    }

    /// Validates a key when the clock shows `clock`.
    pub fn validate_license_key_at<F: FnOnce(String) -> Result<(), String>>(
        key: &str,
        clock: Option<u64>,
        check_registration: F,
        jobs: &mut Vec<Job>,
    ) -> (r: Result<(), String>)
        requires
            route(text::utf8(key@)) is Online ==> may_ask(check_registration, key@),
        ensures
            validated_at(
                key@,
                clock,
                check_registration,
                r,
                state::job_views(old(jobs)@),
                state::job_views(final(jobs)@),
            ),
    {
        match route_of(key) {
            Route::Offline => match signed::verify_at(key, Purpose::Offline, clock) {
                Ok(_) => {
                    jobs.push(Job::CheckOffline(key.to_owned()));
                    assert(state::job_views(jobs@) =~= state::job_views(old(jobs)@).push(
                        JobView::CheckOffline(key@),
                    ));
                    Ok(())
                },
                Err(e) => Err(e),
            },
            Route::Outdated => Err(OUTDATED_LICENSE_KEY_ERROR.to_owned()),
            Route::Online => check_registration(key.to_owned()),
        }
    }

    /// Asks the server about an offline key that was accepted. Gives what to say before the
    /// program ends where the server rejects it; an unavailable server does not end the program.
    pub fn check_offline_license_registration<F: FnOnce(String) -> Result<(), String>>(
        key: String,
        check_registration: F,
    ) -> (r: Option<String>)
        requires
            call_requires(check_registration, (key,)),
        ensures
            exists|answer: Result<(), String>| #[trigger]
                call_ensures(check_registration, (key,), answer) && text_view(r) == last_words(
                    answer,
                    |e: Seq<u8>| rejects_offline(e),
                ),
    {
        match check_registration(key) {
            Ok(()) => None,
            Err(error) => if Self::offline_license_is_rejected(error.as_str()) {
                Some(error)
            } else {
                None
            },
        }
    }

    /// Whether an error is a rejection: a ban, a revocation, an expiration or an unknown license.
    pub fn offline_license_is_rejected(error: &str) -> (r: bool)
        ensures
            r == rejects_offline(text::utf8(error@)),
    {
        let lower = text::to_lowercase(error.as_bytes());
        let s = lower.as_slice();
        text::contains(s, "banned".as_bytes()) || text::contains(s, "revoked".as_bytes())
            || text::contains(s, "expired".as_bytes()) || text::contains(
            s,
            "unknown license".as_bytes(),
        )
    }

    /// Asks the server about the license of a library unlock. Gives what to say before the
    /// program ends where the server does not know it.
    pub fn check_library_unlock_registration<F: FnOnce(String) -> Result<(), String>>(
        key: String,
        check_registration: F,
    ) -> (r: Option<String>)
        requires
            call_requires(check_registration, (key,)),
        ensures
            exists|answer: Result<(), String>| #[trigger]
                call_ensures(check_registration, (key,), answer) && text_view(r) == last_words(
                    answer,
                    |e: Seq<u8>| rejects_unlock(e),
                ),
    {
        match check_registration(key) {
            Ok(()) => None,
            Err(error) => if text::contains(error.as_str().as_bytes(), "Unknown license".as_bytes()) {
                Some(error)
            } else {
                None
            },
        }
    }
}

} // verus!
