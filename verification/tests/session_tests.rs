use anchor::Session;

#[test]
fn empty_session_is_not_authenticated() {
    let s = Session::empty();
    assert!(!s.is_authenticated());
    assert!(s.access_token.is_none());
    assert!(s.enabled_repo.is_none());
}

#[test]
fn set_access_token_authenticates() {
    let mut s = Session::empty();
    s.set_access_token("tok_1".to_string());
    assert!(s.is_authenticated());
    assert_eq!(s.access_token.as_deref(), Some("tok_1"));
    assert!(s.enabled_repo.is_none());
}

#[test]
fn set_enabled_twice_is_idempotent() {
    let mut once = Session::empty();
    once.set_access_token("tok_1".to_string());
    let mut twice = Session::empty();
    twice.set_access_token("tok_1".to_string());

    once.set_enabled("octocat/Hello-World".to_string());
    twice.set_enabled("octocat/Hello-World".to_string());
    twice.set_enabled("octocat/Hello-World".to_string());

    assert_eq!(once.access_token, twice.access_token);
    assert_eq!(once.enabled_repo, twice.enabled_repo);
    assert_eq!(once.enabled_repo.as_deref(), Some("octocat/Hello-World"));
}

#[test]
fn set_enabled_overwrites_prior_marker() {
    let mut s = Session::empty();
    s.set_enabled("octocat/Hello-World".to_string());
    s.set_enabled("octocat/Spoon-Knife".to_string());
    assert_eq!(s.enabled_repo.as_deref(), Some("octocat/Spoon-Knife"));
}
