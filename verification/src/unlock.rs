//! Library unlocks: a library registers its token once and opens a scope around each of its
//! operations.

use crate::manager;
use crate::manager::{LicenseState, StateView};
use crate::scopes;
use crate::scopes::{LibraryUnlockGuard, ScopesView, Step, ThreadScopes};
use crate::state::JobView;
use crate::text;
use crate::token;
use crate::token::{UnlockClaims, UnlockClaimsView, TEST_UNLOCK_LICENSE, TEST_UNLOCK_TOKEN};
use vstd::prelude::*;

verus! {

/// What is said in front of the package of a token that another crate registers.
pub const WRONG_PACKAGE: &'static str = "Library unlock token for package '";

/// What is said between the package of a token and the crate that registers it.
pub const REGISTERED_BY: &'static str = "' cannot be registered by crate '";

/// A verified unlock for a library. Library-owned worker threads open a scope of their own; an
/// open scope is taken along to threads that Symbolica makes.
#[derive(Debug)]
pub struct LibraryUnlock {
    _private: (),
}

impl Clone for LibraryUnlock {
    fn clone(&self) -> (r: Self)
        ensures
            r == *self,
    {
        LibraryUnlock { _private: self._private }
    }
}

/// Whether claims are those of the development token.
pub open spec fn is_development_token(claims: UnlockClaimsView) -> bool {
    &&& claims.license == TEST_UNLOCK_LICENSE@
    &&& text::utf8(claims.token_id) == token::signature_text(text::utf8(TEST_UNLOCK_TOKEN@))
}

/// The state after the start of a check of the license of a token: the first one of a process
/// leaves the job to ask the server. There is nothing to check without a server, and nothing for
/// the development token where it is trusted.
pub open spec fn check_started(s: StateView, claims: UnlockClaimsView, pid: u32) -> StateView {
    if s.build.wasm32 || (s.build.development && is_development_token(claims)) {
        s
    } else {
        StateView {
            checked: s.checked.insert((pid, claims.license)),
            jobs: if s.checked.contains((pid, claims.license)) {
                s.jobs
            } else {
                s.jobs.push(JobView::CheckUnlock(claims.license))
            },
            ..s
        }
    }
}

/// What a token grants to a crate.
pub open spec fn registration_outcome(
    token: Seq<u8>,
    crate_name: Seq<char>,
    development: bool,
) -> Result<UnlockClaimsView, Seq<char>> {
    match token::token_outcome(token, development) {
        Err(e) => Err(e),
        Ok(claims) => if claims.package != crate_name {
            Err(WRONG_PACKAGE@ + claims.package + REGISTERED_BY@ + crate_name + "'"@)
        } else {
            Ok(claims)
        },
    }
}

/// What the registration of a token answers, and the state that it leaves.
pub open spec fn registered(
    s: StateView,
    pid: u32,
    token: Seq<u8>,
    crate_name: Seq<char>,
    r: Result<LibraryUnlock, String>,
    s_then: StateView,
) -> bool {
    match registration_outcome(token, crate_name, s.build.development) {
        Err(e) => r is Err && r->Err_0@ == e && s_then == s,
        Ok(claims) => r is Ok && s_then == check_started(s, claims, pid),
    }
}

/// The development token has a text behind its dot.
proof fn lemma_development_token()
    ensures
        text::find(text::utf8(TEST_UNLOCK_TOKEN@), '.' as u8) < text::utf8(TEST_UNLOCK_TOKEN@).len(),
{
    reveal_strlit(
        "eyJsaWNlbnNlIjoiU1lNQk9MSUNBX1VOTE9DS19URVNUIiwicGFja2FnZSI6InB5c2VjZGVjIiwidmVyc2lvbiI6MX0.VKUj1gBSnqHBETCWB7UV2ySynCfmPlTZ8RvEx4HR0Nr4w1n-SDHkneMOKFAuKfDmvY14YmW9WwDx7JDCHKKOBQ",
    );
    vstd::utf8::is_ascii_chars_encode_utf8(TEST_UNLOCK_TOKEN@);
    let bytes = text::utf8(TEST_UNLOCK_TOKEN@);
    assert(bytes[91] == '.' as u8);
    assert(bytes.contains('.' as u8));
    text::lemma_find(bytes, '.' as u8);
}

/// Starts the check of the license of a token.
pub fn start_license_check(state: &mut LicenseState, claims: &UnlockClaims, pid: u32)
    ensures
        final(state)@ == check_started(old(state)@, claims@, pid),
{
    if state.build().wasm32 {
        return;
    }
    if state.build().development && text::same_text(claims.license.as_str(), TEST_UNLOCK_LICENSE) {
        proof {
            lemma_development_token();
        }
        if let Some(id) = text::text_after(TEST_UNLOCK_TOKEN, '.' as u8) {
            if text::same_text(claims.token_id.as_str(), id) {
                return;
            }
            proof {
                if text::utf8(claims.token_id@) == text::utf8(id@) {
                    text::lemma_utf8_injective(claims.token_id@, id@);
                }
            }
        }
    }
    state.check_unlock_once(pid, claims.license.as_str());
}

impl LibraryUnlock {
    /// Verifies a token and binds it to the crate that registers it.
    pub fn for_crate(state: &mut LicenseState, pid: u32, token: &str, crate_name: &str) -> (r: Result<
        Self,
        String,
    >)
        requires
            text::utf8(token@).len() <= usize::MAX / 8,
        ensures
            registered(old(state)@, pid, text::utf8(token@), crate_name@, r, final(state)@),
    {
        let development: bool = state.build().development;
        let claims: UnlockClaims = match token::verify_token(token, development) {
            Ok(claims) => claims,
            Err(e) => return Err(e),
        };
        if !text::same_text(claims.package.as_str(), crate_name) {
            let mut e: String = WRONG_PACKAGE.to_owned();
            e.append(claims.package.as_str());
            e.append(REGISTERED_BY);
            e.append(crate_name);
            e.append("'");
            return Err(e);
        }
        start_license_check(state, &claims, pid);
        Ok(LibraryUnlock { _private: () })
    }

    /// Opens an unlock on the thread, until the guard is released. The scopes of a thread cannot
    /// be nested deeper than they can be counted.
    pub fn unlock(&self, thread: &mut ThreadScopes) -> (r: LibraryUnlockGuard)
        requires
            old(thread)@.unlocks < usize::MAX,
        ensures
            final(thread)@ == (ScopesView { unlocks: old(thread)@.unlocks + 1, ..old(thread)@ }),
            final(thread)@ == scopes::after_step(old(thread)@, Step::OpenUnlock),
    {
        LibraryUnlockGuard::activate(thread)
    }
}

/// A token can be registered by one crate only.
pub proof fn law_token_serves_one_crate(
    token: Seq<u8>,
    development: bool,
    one: Seq<char>,
    other: Seq<char>,
)
    requires
        registration_outcome(token, one, development) is Ok,
        registration_outcome(token, other, development) is Ok,
    ensures
        one == other,
{
}

/// A registration does not activate the process: what it unlocks is a scope of a thread. Nor does
/// it undo anything.
pub proof fn law_registration_does_not_activate(
    s: StateView,
    pid: u32,
    token: Seq<u8>,
    crate_name: Seq<char>,
    r: Result<LibraryUnlock, String>,
    s_then: StateView,
)
    requires
        registered(s, pid, token, crate_name, r, s_then),
    ensures
        s_then.licensed == s.licensed,
        s_then.license_key == s.license_key,
        manager::follows(s, s_then),
{
}

/// A process asks the server about a license once, however many of its tokens are registered and
/// whatever happens in between: once the check was started, a later one changes nothing. Not so
/// where the first token is the development token, which nobody is asked about.
pub proof fn law_license_is_checked_once(
    s: StateView,
    pid: u32,
    one: UnlockClaimsView,
    later: StateView,
    other: UnlockClaimsView,
)
    requires
        one.license == other.license,
        !(s.build.development && is_development_token(one)),
        manager::follows(check_started(s, one, pid), later),
    ensures
        check_started(later, other, pid) == later,
{
    assert(later.build.wasm32 || later.checked.contains((pid, other.license)));
    assert(later.build.wasm32 || later.checked.insert((pid, other.license)) =~= later.checked);
}

/// A token is registered by the crate of its package and by no other: where it is trusted, the crate
/// whose name is the package gets what the token grants, and any other is told whose it is. Where
/// it is not trusted, every crate is told why.
pub proof fn law_registration_follows_the_token(
    token: Seq<u8>,
    crate_name: Seq<char>,
    development: bool,
)
    ensures
        registration_outcome(token, crate_name, development) == (match token::token_outcome(
            token,
            development,
        ) {
            Ok(claims) if claims.package == crate_name => Ok(claims),
            Ok(claims) => Err(
                "Library unlock token for package '"@ + claims.package
                    + "' cannot be registered by crate '"@ + crate_name + "'"@,
            ),
            Err(e) => Err(e),
        }),
{
}

/// The first registration under a license in a process leaves the job to ask the server about that
/// license; in a release build this holds for every token.
pub proof fn law_first_registration_asks(
    s: StateView,
    pid: u32,
    token: Seq<u8>,
    crate_name: Seq<char>,
    r: Result<LibraryUnlock, String>,
    s_then: StateView,
)
    requires
        registered(s, pid, token, crate_name, r, s_then),
        !s.build.wasm32,
    ensures
        r is Ok <==> registration_outcome(token, crate_name, s.build.development) is Ok,
        r is Err ==> s_then == s && r->Err_0@ == registration_outcome(
            token,
            crate_name,
            s.build.development,
        )->Err_0,
        r is Ok ==> {
            let claims = registration_outcome(token, crate_name, s.build.development)->Ok_0;
            let exempt = s.build.development && claims.license == "SYMBOLICA_UNLOCK_TEST"@
                && text::utf8(claims.token_id) == text::utf8(
                "VKUj1gBSnqHBETCWB7UV2ySynCfmPlTZ8RvEx4HR0Nr4w1n-SDHkneMOKFAuKfDmvY14YmW9WwDx7JDCHKKOBQ"@,
            );
            &&& exempt ==> s_then == s
            &&& !exempt ==> s_then.checked == s.checked.insert((pid, claims.license))
            &&& !exempt && !s.checked.contains((pid, claims.license)) ==> s_then.jobs
                == s.jobs.push(JobView::CheckUnlock(claims.license))
            &&& s.checked.contains((pid, claims.license)) ==> s_then.jobs == s.jobs
        },
        s_then.build == s.build,
        s_then.licensed == s.licensed,
        s_then.oem == s.oem,
        s_then.license_key == s.license_key,
        s_then.manager == s.manager,
{
    lemma_development_token_id();
}

/// The name of the development token.
proof fn lemma_development_token_id()
    ensures
        token::signature_text(text::utf8(TEST_UNLOCK_TOKEN@)) == text::utf8(
            "VKUj1gBSnqHBETCWB7UV2ySynCfmPlTZ8RvEx4HR0Nr4w1n-SDHkneMOKFAuKfDmvY14YmW9WwDx7JDCHKKOBQ"@,
        ),
{
    reveal_strlit(
        "eyJsaWNlbnNlIjoiU1lNQk9MSUNBX1VOTE9DS19URVNUIiwicGFja2FnZSI6InB5c2VjZGVjIiwidmVyc2lvbiI6MX0.VKUj1gBSnqHBETCWB7UV2ySynCfmPlTZ8RvEx4HR0Nr4w1n-SDHkneMOKFAuKfDmvY14YmW9WwDx7JDCHKKOBQ",
    );
    reveal_strlit(
        "VKUj1gBSnqHBETCWB7UV2ySynCfmPlTZ8RvEx4HR0Nr4w1n-SDHkneMOKFAuKfDmvY14YmW9WwDx7JDCHKKOBQ",
    );
    let id =
        "VKUj1gBSnqHBETCWB7UV2ySynCfmPlTZ8RvEx4HR0Nr4w1n-SDHkneMOKFAuKfDmvY14YmW9WwDx7JDCHKKOBQ"@;
    let whole = TEST_UNLOCK_TOKEN@;
    let front = whole.take(92);
    assert(whole =~= front + id);
    vstd::utf8::is_ascii_chars_encode_utf8(whole);
    vstd::utf8::is_ascii_chars_encode_utf8(id);
    let bytes = text::utf8(whole);
    assert(no_dot(front, 0)) by {
        reveal_with_fuel(no_dot, 24);
        assert(no_dot(front, 91));
        assert(no_dot(front, 69));
        assert(no_dot(front, 46));
        assert(no_dot(front, 23));
    }
    assert forall|i: int| 0 <= i < 91 implies bytes[i] != '.' as u8 by {
        lemma_no_dot(front, 0, i);
        assert(whole[i] == front[i]);
    }
    assert(bytes[91] == '.' as u8);
    text::lemma_find_is(bytes, '.' as u8, 91);
    assert(token::signature_text(bytes) =~= text::utf8(id));
}

/// Whether there is no dot from `k` on but the last character.
spec fn no_dot(s: Seq<char>, k: int) -> bool
    decreases s.len() - k,
{
    k >= s.len() - 1 || s[k] != '.' && no_dot(s, k + 1)
}

/// So there is none at any position.
proof fn lemma_no_dot(s: Seq<char>, k: int, j: int)
    requires
        0 <= k <= j < s.len() - 1,
        no_dot(s, k),
    ensures
        s[j] != '.',
    decreases j - k,
{
    if k < j {
        lemma_no_dot(s, k + 1, j);
    }
}

/// A process asks the server itself: what its parent asked before a fork does not count for it.
pub proof fn law_each_process_checks(s: StateView, parent: u32, child: u32, claims: UnlockClaimsView)
    requires
        parent != child,
        !s.checked.contains((child, claims.license)),
        !s.build.wasm32,
        !(s.build.development && is_development_token(claims)),
    ensures
        check_started(check_started(s, claims, parent), claims, child).jobs == check_started(
            s,
            claims,
            parent,
        ).jobs.push(JobView::CheckUnlock(claims.license)),
{
}

} // verus!
