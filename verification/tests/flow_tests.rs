use anchor::{
    apply_callback, enablement_route, load_session, next_state, normalize_code, page_of,
    protected_route_redirect, reconcile, repos_route, AuthError, AuthEvent, AuthFlowState,
    RepoRouteAction, RepoSummary, Session,
};

fn repo(full_name: &str) -> RepoSummary {
    RepoSummary { full_name: full_name.to_string() }
}

#[test]
fn flow_walks_from_anonymous_to_authenticated() {
    let s = AuthFlowState::Anonymous;
    let s = next_state(s, AuthEvent::StartAuthorization);
    assert_eq!(s, AuthFlowState::AwaitingCallback);
    let s = next_state(s, AuthEvent::CallbackSucceeded);
    assert_eq!(s, AuthFlowState::Authenticated);
    let s = next_state(s, AuthEvent::TokenRevoked);
    assert_eq!(s, AuthFlowState::Anonymous);
}

#[test]
fn callback_failure_returns_to_anonymous() {
    let s = next_state(AuthFlowState::AwaitingCallback, AuthEvent::CallbackFailed);
    assert_eq!(s, AuthFlowState::Anonymous);
}

#[test]
fn unrelated_events_leave_the_state_alone() {
    assert_eq!(
        next_state(AuthFlowState::Anonymous, AuthEvent::CallbackSucceeded),
        AuthFlowState::Anonymous
    );
    assert_eq!(
        next_state(AuthFlowState::Authenticated, AuthEvent::StartAuthorization),
        AuthFlowState::Authenticated
    );
}

#[test]
fn successful_exchange_authenticates_and_continues() {
    // The authorization code arrives with transport whitespace; the exchange
    // itself is the network edge, simulated here by its successful outcome.
    let code = normalize_code("abc123 \n");
    assert_eq!(code, "abc123");

    let mut session = Session::empty();
    let redirect = apply_callback(&mut session, Ok("tok_1".to_string()));
    assert_eq!(redirect, "/repos");
    assert_eq!(session.access_token.as_deref(), Some("tok_1"));
    assert!(session.enabled_repo.is_none());

    session.set_enabled("octocat/Hello-World".to_string());
    assert_eq!(session.access_token.as_deref(), Some("tok_1"));
    assert_eq!(session.enabled_repo.as_deref(), Some("octocat/Hello-World"));
}

#[test]
fn failed_exchange_redirects_to_start() {
    let mut session = Session::empty();
    let redirect = apply_callback(&mut session, Err(AuthError::InvalidCode));
    assert_eq!(redirect, "/");
    assert!(!session.is_authenticated());

    let redirect = apply_callback(&mut session, Err(AuthError::NetworkFailure));
    assert_eq!(redirect, "/");
    assert!(!session.is_authenticated());
}

#[test]
fn token_is_installed_only_once() {
    let mut session = Session::empty();
    apply_callback(&mut session, Ok("tok_1".to_string()));
    apply_callback(&mut session, Ok("tok_2".to_string()));
    assert_eq!(session.access_token.as_deref(), Some("tok_1"));
}

#[test]
fn request_without_cookies_is_redirected() {
    // A request with no cookies at all: the loaded session is empty and the
    // protected route sends the user to the entry point.
    let key = vec![7u8; 64];
    let session = load_session(&key, &Vec::new());
    assert!(!session.is_authenticated());
    assert_eq!(protected_route_redirect(&session).as_deref(), Some("/"));

    let action = repos_route(&session, vec![repo("octocat/Hello-World")]);
    assert!(matches!(action, RepoRouteAction::Redirect(ref t) if t == "/"));
}

#[test]
fn reconcile_marks_the_enabled_repo_and_drops_nothing() {
    let page = vec![repo("octocat/Hello-World"), repo("octocat/Spoon-Knife")];
    let rows = reconcile(&page, &Some("octocat/Hello-World".to_string()));
    assert_eq!(rows.len(), 2);
    assert_eq!(rows[0].full_name, "octocat/Hello-World");
    assert!(rows[0].enabled);
    assert_eq!(rows[1].full_name, "octocat/Spoon-Knife");
    assert!(!rows[1].enabled);
}

#[test]
fn reconcile_without_marker_marks_nothing() {
    let page = vec![repo("a/b"), repo("c/d")];
    let rows = reconcile(&page, &None);
    assert_eq!(rows.len(), 2);
    assert!(rows.iter().all(|r| !r.enabled));
}

#[test]
fn page_is_capped_at_five() {
    let repos: Vec<RepoSummary> =
        (0..7).map(|i| repo(&format!("owner/repo{}", i))).collect();
    let page = page_of(repos);
    assert_eq!(page.len(), 5);
    assert_eq!(page[0].full_name, "owner/repo0");
    assert_eq!(page[4].full_name, "owner/repo4");

    let short = page_of(vec![repo("a/b")]);
    assert_eq!(short.len(), 1);
}

#[test]
fn repos_route_shows_the_reconciled_page_when_authenticated() {
    let mut session = Session::empty();
    session.set_access_token("tok_1".to_string());
    session.set_enabled("octocat/Hello-World".to_string());
    let fresh = vec![repo("octocat/Hello-World"), repo("octocat/Spoon-Knife")];
    match repos_route(&session, fresh) {
        RepoRouteAction::Show(rows) => {
            assert_eq!(rows.len(), 2);
            assert!(rows[0].enabled);
            assert!(!rows[1].enabled);
        }
        RepoRouteAction::Redirect(_) => panic!("authenticated session must see the page"),
    }
}

#[test]
fn enablement_without_a_repo_leaves_the_session_alone() {
    let mut session = Session::empty();
    session.set_access_token("tok_1".to_string());
    assert!(!enablement_route(&mut session, None));
    assert!(session.enabled_repo.is_none());
    assert!(enablement_route(&mut session, Some("a/b".to_string())));
    assert_eq!(session.enabled_repo.as_deref(), Some("a/b"));
}
