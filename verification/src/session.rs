//! The per-request session: an optional bearer token and an optional
//! enabled-repository marker, both carried in signed cookies.

use vstd::prelude::*;

verus! {

/// Mathematical model of a [`Session`]: what each optional field holds,
/// as sequences of characters.
#[verifier::ext_equal]
pub ghost struct SessionView {
    pub access_token: Option<Seq<char>>,
    pub enabled_repo: Option<Seq<char>>,
}

impl SessionView {
    /// The model of a session with neither field set.
    pub open spec fn empty() -> SessionView {
        SessionView { access_token: None, enabled_repo: None }
    }

    /// The model after recording `repo` as the single enabled repository:
    /// last write wins, the token is untouched.
    pub open spec fn with_enabled(self, repo: Seq<char>) -> SessionView {
        SessionView { access_token: self.access_token, enabled_repo: Some(repo) }
    }

    /// The model after the one-time installation of a bearer token:
    /// the enablement marker is untouched.
    pub open spec fn with_token(self, token: Seq<char>) -> SessionView {
        SessionView { access_token: Some(token), enabled_repo: self.enabled_repo }
    }

    /// A session is authenticated exactly when it carries a token.
    pub open spec fn is_authenticated(self) -> bool {
        self.access_token is Some
    }
}

/// A user's state across one stateless request: the provider bearer token
/// obtained by the OAuth callback, and the full name of the repository the
/// user has enabled, if any. Both default to absent.
pub struct Session {
    pub access_token: Option<String>,
    pub enabled_repo: Option<String>,
}

impl View for Session {
    type V = SessionView;

    open spec fn view(&self) -> SessionView {
        SessionView {
            access_token: match self.access_token {
                Some(t) => Some(t@),
                None => None,
            },
            enabled_repo: match self.enabled_repo {
                Some(r) => Some(r@),
                None => None,
            },
        }
    }
}

impl Session {
    /// The session of a request that carried no usable cookies.
    pub fn empty() -> (s: Session)
        ensures
            s@ == SessionView::empty(),
    {
        Session { access_token: None, enabled_repo: None }
    }

    /// Whether this session may use protected routes.
    pub fn is_authenticated(&self) -> (b: bool)
        ensures
            b == self@.is_authenticated(),
    {
        self.access_token.is_some()
    }

    /// Record `repo` as the one enabled repository, overwriting any prior
    /// marker and leaving the token as it was.
    pub fn set_enabled(&mut self, repo: String)
        ensures
            final(self)@ == old(self)@.with_enabled(repo@),
    {
        self.enabled_repo = Some(repo);
    }

    /// Install the bearer token the OAuth callback obtained. The token is set
    /// once per session, so the caller must not already hold one.
    pub fn set_access_token(&mut self, token: String)
        requires
            !old(self)@.is_authenticated(),
        ensures
            final(self)@ == old(self)@.with_token(token@),
    {
        self.access_token = Some(token);
    }
}

/// Enablement is idempotent: recording the same repository twice leaves the
/// same session as recording it once.
pub proof fn lemma_set_enabled_idempotent(s: SessionView, repo: Seq<char>)
    ensures
        s.with_enabled(repo).with_enabled(repo) == s.with_enabled(repo),
{
    assert(s.with_enabled(repo).with_enabled(repo) =~= s.with_enabled(repo));
}

/// Enablement is last-write-wins: after recording `a` and then `b`, only `b`
/// is marked, and the token is whatever it was before either call.
pub proof fn lemma_set_enabled_overwrites(s: SessionView, a: Seq<char>, b: Seq<char>)
    ensures
        s.with_enabled(a).with_enabled(b) == s.with_enabled(b),
{
    assert(s.with_enabled(a).with_enabled(b) =~= s.with_enabled(b));
}

} // verus!
