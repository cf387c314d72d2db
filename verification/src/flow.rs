//! Handler decisions: the authentication state machine and the pure part of
//! each route. The surrounding program performs the network and HTTP work
//! and hands plain values in; every decision about session state and about
//! where to send the user is made, and proved, here.

use vstd::prelude::*;

use crate::reconcile::RepoRow;
use crate::reconcile::RepoSummary;
use crate::reconcile::marker_view;
use crate::reconcile::page_of;
use crate::reconcile::reconcile;
use crate::reconcile::rows_view;
use crate::reconcile::spec_page;
use crate::reconcile::spec_reconcile;
use crate::reconcile::summaries_view;
use crate::session::Session;
use vstd::string::StringExecFns;

verus! {

/// Why a code exchange failed. Both are terminal for the request: codes are
/// single-use and short-lived, so the user is routed back to the start, never
/// retried automatically.
#[derive(Clone, Copy, PartialEq, Eq, Structural, Debug)]
pub enum AuthError {
    InvalidCode,
    NetworkFailure,
}

/// Where one session stands in the OAuth flow.
#[derive(Clone, Copy, PartialEq, Eq, Structural, Debug)]
pub enum AuthFlowState {
    Anonymous,
    AwaitingCallback,
    Authenticated,
}

/// What can happen to a session's flow.
#[derive(Clone, Copy, PartialEq, Eq, Structural, Debug)]
pub enum AuthEvent {
    StartAuthorization,
    CallbackSucceeded,
    CallbackFailed,
    TokenRevoked,
}

/// The one-step transition of the flow: starting authorization leads to the
/// callback wait; a successful exchange authenticates; any callback failure
/// returns to anonymous for a fresh start; a later invalid or revoked token
/// returns to anonymous too. Every other event leaves the state alone.
pub open spec fn spec_next_state(s: AuthFlowState, e: AuthEvent) -> AuthFlowState {
    match (s, e) {
        (AuthFlowState::Anonymous, AuthEvent::StartAuthorization) => AuthFlowState::AwaitingCallback,
        (AuthFlowState::AwaitingCallback, AuthEvent::CallbackSucceeded) => AuthFlowState::Authenticated,
        (AuthFlowState::AwaitingCallback, AuthEvent::CallbackFailed) => AuthFlowState::Anonymous,
        (AuthFlowState::Authenticated, AuthEvent::TokenRevoked) => AuthFlowState::Anonymous,
        (_, _) => s,
    }
}

/// Step the flow by one event.
pub fn next_state(s: AuthFlowState, e: AuthEvent) -> (r: AuthFlowState)
    ensures
        r == spec_next_state(s, e),
{
    match (s, e) {
        (AuthFlowState::Anonymous, AuthEvent::StartAuthorization) => AuthFlowState::AwaitingCallback,
        (AuthFlowState::AwaitingCallback, AuthEvent::CallbackSucceeded) => AuthFlowState::Authenticated,
        (AuthFlowState::AwaitingCallback, AuthEvent::CallbackFailed) => AuthFlowState::Anonymous,
        (AuthFlowState::Authenticated, AuthEvent::TokenRevoked) => AuthFlowState::Anonymous,
        (other, _) => other,
    }
}

/// Apply the outcome of the one token-exchange round trip to the session.
/// On success the token is installed — once: a session that already carries
/// one keeps it, tokens are never rotated — and the user continues to the
/// listing. On any failure the session is untouched and the user returns to
/// the entry point to restart the flow.
pub fn apply_callback(session: &mut Session, exchange: Result<String, AuthError>) -> (redirect:
    String)
    ensures
        match exchange {
            Ok(token) => {
                &&& redirect@ == "/repos"@
                &&& if old(session)@.is_authenticated() {
                    final(session)@ == old(session)@
                } else {
                    final(session)@ == old(session)@.with_token(token@)
                }
            },
            Err(_) => {
                &&& redirect@ == "/"@
                &&& final(session)@ == old(session)@
            },
        },
{
    match exchange {
        Ok(token) => {
            if !session.is_authenticated() {
                session.set_access_token(token);
            }
            String::from_str("/repos")
        },
        Err(_) => String::from_str("/"),
    }
}

/// The check in front of every protected route: an unauthenticated session
/// is redirected to the entry point and never treated as authenticated.
pub fn protected_route_redirect(session: &Session) -> (r: Option<String>)
    ensures
        match r {
            Some(target) => !session@.is_authenticated() && target@ == "/"@,
            None => session@.is_authenticated(),
        },
{
    if session.is_authenticated() {
        None
    } else {
        Some(String::from_str("/"))
    }
}

/// The enablement route's decision: with a repository name in the request,
/// record it (last write wins) and report success; with none, leave the
/// session exactly as it was and report failure, instead of recording an
/// empty marker.
pub fn enablement_route(session: &mut Session, repo_param: Option<String>) -> (enabled: bool)
    ensures
        match repo_param {
            Some(repo) => enabled && final(session)@ == old(session)@.with_enabled(repo@),
            None => !enabled && final(session)@ == old(session)@,
        },
{
    match repo_param {
        Some(repo) => {
            session.set_enabled(repo);
            true
        },
        None => false,
    }
}

/// What the repository listing route does once the fresh listing is in hand.
pub enum RepoRouteAction {
    /// Send the user to this path instead of rendering.
    Redirect(String),
    /// Render these rows.
    Show(Vec<RepoRow>),
}

/// The repository listing route: an unauthenticated session is redirected to
/// the entry point; otherwise the fresh listing is capped to one page and
/// reconciled with the session's marker, every entry kept and the enabled
/// one marked.
pub fn repos_route(session: &Session, fresh: Vec<RepoSummary>) -> (a: RepoRouteAction)
    ensures
        !session@.is_authenticated() ==> (a matches RepoRouteAction::Redirect(t) && t@ == "/"@),
        session@.is_authenticated() ==> (a matches RepoRouteAction::Show(rows) && rows_view(rows@)
            == spec_reconcile(spec_page(summaries_view(fresh@)), session@.enabled_repo)),
{
    match protected_route_redirect(session) {
        Some(target) => RepoRouteAction::Redirect(target),
        None => {
            let page = page_of(fresh);
            let rows = reconcile(&page, &session.enabled_repo);
            proof {
                assert(marker_view(session.enabled_repo) == session@.enabled_repo);
            }
            RepoRouteAction::Show(rows)
        },
    }
}

} // verus!
