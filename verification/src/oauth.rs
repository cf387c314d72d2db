//! The OAuth2 authorization-code flow, up to its network edge: process
//! configuration, the provider authorization URL, and normalization of the
//! authorization code a callback carries. The single token-exchange round
//! trip itself is performed by the surrounding program; this module fixes
//! exactly what is sent and what each outcome means.

use vstd::prelude::*;

use crate::reconcile::marker_view;
use vstd::string::StrSliceExecFns;
use vstd::string::StringExecFns;

verus! {

/// Why the process configuration was refused at startup.
#[derive(Clone, Copy, PartialEq, Eq, Structural, Debug)]
pub enum ConfigError {
    MissingClientId,
    MissingClientSecret,
    SigningKeyTooShort,
}

/// Process-wide, read-only configuration, established once at startup and
/// only ever read afterwards.
pub struct Config {
    pub client_id: String,
    pub client_secret: String,
    pub redirect_uri: Option<String>,
    pub signing_key: Vec<u8>,
}

impl Config {
    /// A usable configuration: both credentials present, and a signing key
    /// long enough for the cookie signer (whose key constructor rejects
    /// anything under 64 bytes).
    pub open spec fn wf(self) -> bool {
        &&& self.client_id@.len() > 0
        &&& self.client_secret@.len() > 0
        &&& self.signing_key@.len() >= crate::signing::MIN_SIGNING_KEY_LEN
    }

    /// Validate the configuration once at startup. Absence of a required
    /// value is fatal: the caller must refuse to start, never retry at
    /// request time. The redirect URI alone is optional.
    pub fn new(
        client_id: String,
        client_secret: String,
        redirect_uri: Option<String>,
        signing_key: Vec<u8>,
    ) -> (r: Result<Config, ConfigError>)
        ensures
            r is Ok <==> (client_id@.len() > 0 && client_secret@.len() > 0 && signing_key@.len()
                >= 64),
            r matches Ok(c) ==> c.wf() && c.client_id@ == client_id@ && c.client_secret@
                == client_secret@ && marker_view(c.redirect_uri) == marker_view(redirect_uri)
                && c.signing_key@ == signing_key@,
            r matches Err(e) ==> match e {
                ConfigError::MissingClientId => client_id@.len() == 0,
                ConfigError::MissingClientSecret => client_secret@.len() == 0,
                ConfigError::SigningKeyTooShort => signing_key@.len() < 64,
            },
    {
        if client_id.as_str().is_empty() {
            Err(ConfigError::MissingClientId)
        } else if client_secret.as_str().is_empty() {
            Err(ConfigError::MissingClientSecret)
        } else if signing_key.len() < 64 {
            Err(ConfigError::SigningKeyTooShort)
        } else {
            Ok(Config { client_id, client_secret, redirect_uri, signing_key })
        }
    }
}

/// The provider authorization URL for a client id, optional redirect URI and
/// scope string. Named, not written out: the fixed endpoint and the
/// form-urlencoded parameter encoding live in the `inth-oauth2` and `url`
/// crates, and the result depends on these three arguments alone.
pub uninterp spec fn auth_uri_of(
    client_id: Seq<char>,
    redirect_uri: Option<Seq<char>>,
    scope: Seq<char>,
) -> Seq<char>;

/// Relies on `inth_oauth2::Client::<GitHub>::auth_uri`: it appends
/// `response_type=code`, the client id, the redirect URI if present and the
/// scope to GitHub's fixed authorization endpoint, deterministically in its
/// arguments. The client secret never enters the URL, so an empty one is
/// passed.
#[verifier::external_body]
fn provider_auth_uri(client_id: &str, redirect_uri: &Option<String>, scope: &str) -> (r: String)
    ensures
        r@ == auth_uri_of(client_id@, marker_view(*redirect_uri), scope@),
{
    let client = inth_oauth2::Client::new(
        inth_oauth2::provider::GitHub,
        client_id.to_owned(),
        String::new(),
        redirect_uri.clone(),
    );
    client.auth_uri(Some(scope), None).to_string()
}

/// The views of a list of scope identifiers.
pub open spec fn scope_views(s: Seq<String>) -> Seq<Seq<char>> {
    s.map(|i: int, x: String| x@)
}

/// Scope identifiers joined with commas, the provider's convention.
pub open spec fn spec_join_comma(parts: Seq<Seq<char>>) -> Seq<char>
    decreases parts.len(),
{
    if parts.len() == 0 {
        Seq::empty()
    } else if parts.len() == 1 {
        parts[0]
    } else {
        parts[0] + ","@ + spec_join_comma(parts.skip(1))
    }
}

/// Appending one more part extends the joined string by a comma and it.
proof fn lemma_join_push(parts: Seq<Seq<char>>, x: Seq<char>)
    requires
        parts.len() >= 1,
    ensures
        spec_join_comma(parts.push(x)) == spec_join_comma(parts) + ","@ + x,
    decreases parts.len(),
{
    if parts.len() == 1 {
        assert(parts.push(x)[0] == parts[0]);
        assert(parts.push(x).skip(1) =~= seq![x]);
        assert(spec_join_comma(seq![x]) == x);
        assert(spec_join_comma(parts.push(x)) == parts[0] + ","@ + x);
    } else {
        assert(parts.push(x)[0] == parts[0]);
        assert(parts.push(x).skip(1) =~= parts.skip(1).push(x));
        lemma_join_push(parts.skip(1), x);
        assert((parts[0] + ","@ + (spec_join_comma(parts.skip(1)) + ","@ + x)) =~= (parts[0] + ","@
            + spec_join_comma(parts.skip(1)) + ","@ + x));
    }
}

/// Join the requested scopes with commas, in order.
pub fn join_scopes(scopes: &Vec<String>) -> (r: String)
    ensures
        r@ == spec_join_comma(scope_views(scopes@)),
{
    let ghost views = scope_views(scopes@);
    let mut r = String::new();
    let mut i: usize = 0;
    while i < scopes.len()
        invariant
            i <= scopes@.len(),
            views == scope_views(scopes@),
            r@ == spec_join_comma(views.take(i as int)),
        decreases scopes@.len() - i,
    {
        let ghost before = views.take(i as int);
        if i > 0 {
            r.append(",");
        }
        r.append(scopes[i].as_str());
        proof {
            assert(views[i as int] == scopes@[i as int]@);
            assert(before.push(views[i as int]) =~= views.take(i as int + 1));
            if i > 0 {
                lemma_join_push(before, views[i as int]);
            } else {
                assert(views.take(1)[0] == views[0]);
                assert(r@ =~= views[0]);
            }
        }
        i += 1;
    }
    proof {
        assert(views.take(scopes@.len() as int) =~= views);
    }
    r
}

/// Build the authorization URL to send the user to. Succeeds exactly when a
/// client id is configured; the scopes are joined with commas in the order
/// given.
pub fn build_authorization_url(config: &Config, scopes: &Vec<String>) -> (r: Result<
    String,
    ConfigError,
>)
    ensures
        r is Ok <==> config.client_id@.len() > 0,
        r matches Ok(u) ==> u@ == auth_uri_of(
            config.client_id@,
            marker_view(config.redirect_uri),
            spec_join_comma(scope_views(scopes@)),
        ),
        r matches Err(e) ==> e == ConfigError::MissingClientId,
{
    if config.client_id.as_str().is_empty() {
        return Err(ConfigError::MissingClientId);
    }
    let scope = join_scopes(scopes);
    Ok(provider_auth_uri(config.client_id.as_str(), &config.redirect_uri, scope.as_str()))
}

/// A whitespace character that a redirect may smuggle around the code.
pub open spec fn is_ws(c: char) -> bool {
    c == ' ' || c == '\t' || c == '\n' || c == '\r'
}

/// The sequence with its leading whitespace removed.
pub open spec fn trim_front(s: Seq<char>) -> Seq<char>
    decreases s.len(),
{
    if s.len() > 0 && is_ws(s[0]) {
        trim_front(s.skip(1))
    } else {
        s
    }
}

/// The sequence with its trailing whitespace removed.
pub open spec fn trim_back(s: Seq<char>) -> Seq<char>
    decreases s.len(),
{
    if s.len() > 0 && is_ws(s[s.len() - 1]) {
        trim_back(s.take(s.len() - 1))
    } else {
        s
    }
}

/// The sequence with surrounding whitespace removed.
pub open spec fn spec_trim(s: Seq<char>) -> Seq<char> {
    trim_back(trim_front(s))
}

proof fn lemma_trim_front_skip(s: Seq<char>, k: int)
    requires
        0 <= k <= s.len(),
        forall|j: int| 0 <= j < k ==> is_ws(s[j]),
        k < s.len() ==> !is_ws(s[k]),
    ensures
        trim_front(s) == s.skip(k),
    decreases k,
{
    if k == 0 {
        assert(s.skip(0) =~= s);
    } else {
        assert(is_ws(s[0]));
        assert forall|j: int| 0 <= j < k - 1 implies is_ws(s.skip(1)[j]) by {
            assert(s.skip(1)[j] == s[j + 1]);
        }
        assert(k - 1 < s.skip(1).len() ==> !is_ws(s.skip(1)[k - 1]));
        lemma_trim_front_skip(s.skip(1), k - 1);
        assert(s.skip(1).skip(k - 1) =~= s.skip(k));
    }
}

proof fn lemma_trim_back_take(s: Seq<char>, k: int)
    requires
        0 <= k <= s.len(),
        forall|j: int| k <= j < s.len() ==> is_ws(s[j]),
        k > 0 ==> !is_ws(s[k - 1]),
    ensures
        trim_back(s) == s.take(k),
    decreases s.len(),
{
    if k == s.len() {
        assert(s.take(k) =~= s);
    } else {
        assert(is_ws(s[s.len() - 1]));
        let t = s.take(s.len() - 1);
        assert forall|j: int| k <= j < t.len() implies is_ws(t[j]) by {
            assert(t[j] == s[j]);
        }
        assert(k > 0 ==> t[k - 1] == s[k - 1]);
        lemma_trim_back_take(t, k);
        assert(t.take(k) =~= s.take(k));
    }
}

/// Whether `c` is incidental whitespace.
fn is_ws_char(c: char) -> (b: bool)
    ensures
        b == is_ws(c),
{
    c == ' ' || c == '\t' || c == '\n' || c == '\r'
}

/// Normalize an authorization code received via redirect query parameters:
/// strip the surrounding whitespace that transport may have added, and
/// nothing else. The exchange must be attempted with exactly this value.
pub fn normalize_code(code: &str) -> (r: String)
    ensures
        r@ == spec_trim(code@),
{
    let n = code.unicode_len();
    let mut start: usize = 0;
    while start < n && is_ws_char(code.get_char(start))
        invariant
            0 <= start <= n,
            n == code@.len(),
            forall|j: int| 0 <= j < start ==> is_ws(code@[j]),
        decreases n - start,
    {
        start += 1;
    }
    let mut end: usize = n;
    while end > start && is_ws_char(code.get_char(end - 1))
        invariant
            start <= end <= n,
            n == code@.len(),
            forall|j: int| end <= j < n ==> is_ws(code@[j]),
        decreases end,
    {
        end -= 1;
    }
    let sub = code.substring_char(start, end);
    let r = String::from_str(sub);
    proof {
        lemma_trim_front_skip(code@, start as int);
        let t = code@.skip(start as int);
        assert forall|j: int| end - start <= j < t.len() implies is_ws(t[j]) by {
            assert(t[j] == code@[start + j]);
        }
        assert(end - start > 0 ==> t[end - start - 1] == code@[end as int - 1]);
        lemma_trim_back_take(t, end - start);
        assert(code@.subrange(start as int, end as int) =~= t.take(end - start));
    }
    r
}

} // verus!
