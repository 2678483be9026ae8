//! The REST control plane's handler cores: session creation with backend
//! launch preparation, session lookup, listing and deletion, version
//! listing, and the backend callback.  The HTTP routing, JSON codecs and
//! the subprocess spawn wrap these from the embedding program.

use vstd::prelude::*;

use crate::auth::BearerToken;
use crate::auth::UserId;
use crate::config::ConfigTable;
use crate::launcher::plan_matches;
use crate::launcher::select_fails;
use crate::launcher::LaunchError;
use crate::launcher::LaunchPlan;
use crate::launcher::Launcher;
use crate::launcher::versions_wf;
use crate::store::has_user_id;
use crate::store::store_inv;
use crate::store::Session;
use crate::store::SessionStore;
use crate::store::SessionView;

verus! {

/// The status returned when a requested session does not exist.
pub const STATUS_NOT_FOUND: u16 = 404;

/// The status returned when the backend launch cannot be prepared.
pub const STATUS_INTERNAL_SERVER_ERROR: u16 = 500;

/// Relies on uuid::Uuid::new_v4 and its hyphenated rendering: a freshly
/// drawn random 128-bit identifier written as 36 characters of text.  The
/// value is random, so nothing more is promised of it.
#[verifier::external_body]
fn fresh_token() -> (r: String)
    ensures
        r@.len() == 36,
{
    uuid::Uuid::new_v4().to_string()
}

/// Creates a session for the caller: draws a fresh random token, registers
/// the session (with no backend address yet), and prepares the backend
/// launch.  On a version-selection failure the registered row remains and
/// the caller is answered with an internal server error, as the control
/// plane does.
pub fn create_session<S: SessionStore>(
    store: &mut S,
    launcher: &Launcher,
    user: &UserId,
    version: Option<&str>,
    user_config: &ConfigTable,
) -> (r: Result<(String, LaunchPlan), u16>)
    requires
        store_inv(old(store).rows(), old(store).next_id()),
        old(store).next_id() < u64::MAX,
        versions_wf(launcher.spec_versions()),
        user_config.wf(),
    ensures
        store_inv(final(store).rows(), final(store).next_id()),
        final(store).next_id() == old(store).next_id() + 1,
        exists|tok: Seq<char>|
            #![auto]
            {
                &&& final(store).rows() == old(store).rows().push(
                    (
                        user.0@,
                        (SessionView {
                            id: old(store).next_id(),
                            addr: Option::None,
                            token: tok,
                        }),
                    ),
                )
                &&& match r {
                    Result::Ok((t, plan)) => t@ == tok && plan_matches(
                        plan,
                        launcher.spec_versions(),
                        version,
                        tok,
                        launcher.spec_callback_addr(),
                        user_config@,
                    ),
                    Result::Err(code) => code == STATUS_INTERNAL_SERVER_ERROR && exists|
                        e: LaunchError,
                    | select_fails(launcher.spec_versions(), version, e),
                }
            },
{
    let token = fresh_token();
    store.create_session(user.0.as_str(), token.clone());
    match launcher.launch_plan(version, token.as_str(), user_config) {
        Result::Ok(plan) => Result::Ok((token, plan)),
        Result::Err(e) => {
            proof {
                assert(select_fails(launcher.spec_versions(), version, e));
            }
            Result::Err(STATUS_INTERNAL_SERVER_ERROR)
        },
    }
}

/// Fetches one of the caller's sessions, answering not-found when no
/// session with that id belongs to the caller.
pub fn get_session<S: SessionStore>(store: &S, user: &UserId, session_id: u64) -> (r: Result<
    Session,
    u16,
>)
    ensures
        match r {
            Result::Ok(s) => s@.id == session_id && exists|i: int|
                0 <= i < store.rows().len() && (#[trigger] store.rows()[i]).0 == user.0@
                    && store.rows()[i].1 == s@,
            Result::Err(code) => code == STATUS_NOT_FOUND && !has_user_id(
                store.rows(),
                user.0@,
                session_id,
            ),
        },
{
    match store.get_session(user.0.as_str(), session_id) {
        Option::Some(s) => Result::Ok(s),
        Option::None => Result::Err(STATUS_NOT_FOUND),
    }
}

/// Lists the caller's sessions.
pub fn list_sessions<S: SessionStore>(store: &S, user: &UserId) -> (r: Vec<Session>)
    ensures
        r@.map_values(|s: Session| s@) == crate::store::user_sessions(store.rows(), user.0@),
{
    store.list_sessions(user.0.as_str())
}

/// Deletes one of the caller's sessions; a missing session is a silent
/// no-op, and the route answers with an empty success either way.
pub fn delete_session<S: SessionStore>(store: &mut S, user: &UserId, session_id: u64)
    ensures
        final(store).next_id() == old(store).next_id(),
        !has_user_id(old(store).rows(), user.0@, session_id) ==> final(store).rows() == old(
            store,
        ).rows(),
        has_user_id(old(store).rows(), user.0@, session_id) ==> exists|i: int|
            0 <= i < old(store).rows().len() && (#[trigger] old(store).rows()[i]).0 == user.0@
                && old(store).rows()[i].1.id == session_id && final(store).rows() == old(
                store,
            ).rows().remove(i),
{
    store.delete_session(user.0.as_str(), session_id);
}

/// Lists the names of the configured backend versions.
pub fn list_versions(launcher: &Launcher) -> (r: Vec<String>)
    ensures
        r@.map_values(|s: String| s@) == launcher.spec_versions().map_values(
            |v: crate::config::SparkVersion| v.name@,
        ),
{
    launcher.get_versions()
}

/// The backend callback: publishes the backend's listening address on the
/// session holding the caller's bearer token.  An unknown token is a
/// silent no-op, and the route answers with an empty success either way.
pub fn session_callback<S: SessionStore>(store: &mut S, token: &BearerToken, address: String)
    ensures
        final(store).next_id() == old(store).next_id(),
        !crate::store::has_token(old(store).rows(), token.0@) ==> final(store).rows() == old(
            store,
        ).rows(),
        crate::store::has_token(old(store).rows(), token.0@) ==> exists|i: int|
            0 <= i < old(store).rows().len() && (#[trigger] old(store).rows()[i]).1.token
                == token.0@ && (forall|j: int|
                0 <= j < i ==> old(store).rows()[j].1.token != token.0@) && final(store).rows()
                == old(store).rows().update(
                i,
                (
                    old(store).rows()[i].0,
                    (SessionView {
                        id: old(store).rows()[i].1.id,
                        addr: Option::Some(address@),
                        token: old(store).rows()[i].1.token,
                    }),
                ),
            ),
{
    store.set_session_addr(token.0.as_str(), address);
}

} // verus!
