//! The session store: a session to and from a set of named, signed cookies.
//!
//! `save_session` turns a session into the cookie pairs a response should
//! carry; `load_session` turns the cookie pairs of a request back into a
//! session. A missing, malformed or wrongly signed cookie is treated exactly
//! like an absent one: loading never fails, it only leaves fields empty.

use vstd::prelude::*;

use crate::session::Session;
use crate::session::SessionView;
use crate::signing::is_signed_form;
use crate::signing::lemma_verify_accepts_only_signed;
use crate::signing::lemma_verify_of_signed;
use crate::signing::mac_of;
use crate::signing::MIN_SIGNING_KEY_LEN;
use crate::signing::sign_value;
use crate::signing::spec_verify;
use crate::signing::verify_value;
use vstd::string::StringExecFns;

verus! {

/// The cookie that carries the bearer token.
pub open spec fn token_cookie_name() -> Seq<char> {
    "access_token"@
}

/// The cookie that carries the enablement marker.
pub open spec fn repo_cookie_name() -> Seq<char> {
    "datastore"@
}

/// The views of a list of named cookie values.
pub open spec fn pairs_view(pairs: Seq<(String, String)>) -> Seq<(Seq<char>, Seq<char>)> {
    pairs.map(|i: int, p: (String, String)| (p.0@, p.1@))
}

/// The value of the first cookie named `name`, if any.
pub open spec fn spec_lookup(pairs: Seq<(Seq<char>, Seq<char>)>, name: Seq<char>) -> Option<
    Seq<char>,
>
    decreases pairs.len(),
{
    if pairs.len() == 0 {
        None
    } else if pairs[0].0 == name {
        Some(pairs[0].1)
    } else {
        spec_lookup(pairs.skip(1), name)
    }
}

/// The cookie set that saving a session produces: one signed cookie per
/// present field, the token first.
pub open spec fn spec_encode(key: Seq<u8>, s: SessionView) -> Seq<(Seq<char>, Seq<char>)> {
    (match s.access_token {
        Some(t) => seq![(token_cookie_name(), mac_of(key, t) + t)],
        None => Seq::<(Seq<char>, Seq<char>)>::empty(),
    }) + (match s.enabled_repo {
        Some(r) => seq![(repo_cookie_name(), mac_of(key, r) + r)],
        None => Seq::<(Seq<char>, Seq<char>)>::empty(),
    })
}

/// What a cookie of name `name` contributes to the loaded session.
pub open spec fn spec_field(
    key: Seq<u8>,
    pairs: Seq<(Seq<char>, Seq<char>)>,
    name: Seq<char>,
) -> Option<Seq<char>> {
    match spec_lookup(pairs, name) {
        Some(raw) => spec_verify(key, raw),
        None => None,
    }
}

/// The session that loading a cookie set yields: each field is the verified
/// value of its cookie, or absent.
pub open spec fn spec_decode(key: Seq<u8>, pairs: Seq<(Seq<char>, Seq<char>)>) -> SessionView {
    SessionView {
        access_token: spec_field(key, pairs, token_cookie_name()),
        enabled_repo: spec_field(key, pairs, repo_cookie_name()),
    }
}

/// Unfolding step for `spec_lookup` when the head cookie has another name.
proof fn lemma_lookup_step(pairs: Seq<(Seq<char>, Seq<char>)>, name: Seq<char>)
    requires
        pairs.len() > 0,
        pairs[0].0 != name,
    ensures
        spec_lookup(pairs, name) == spec_lookup(pairs.skip(1), name),
{
}

/// Unfolding step for `spec_lookup` when the head cookie matches.
proof fn lemma_lookup_head(pairs: Seq<(Seq<char>, Seq<char>)>, name: Seq<char>)
    requires
        pairs.len() > 0,
        pairs[0].0 == name,
    ensures
        spec_lookup(pairs, name) == Some(pairs[0].1),
{
}

/// The two cookie names differ, so the two fields never shadow each other.
pub proof fn lemma_names_distinct()
    ensures
        token_cookie_name() != repo_cookie_name(),
{
    reveal_strlit("access_token");
    reveal_strlit("datastore");
    assert(token_cookie_name().len() == 12);
    assert(repo_cookie_name().len() == 9);
}

/// Turn a session into the signed cookie pairs a response should carry.
/// Both present fields are always emitted together, so saving after mutating
/// one field re-emits the other unchanged.
pub fn save_session(key: &Vec<u8>, s: &Session) -> (out: Vec<(String, String)>)
    requires
        key@.len() >= MIN_SIGNING_KEY_LEN,
    ensures
        pairs_view(out@) == spec_encode(key@, s@),
{
    let mut out: Vec<(String, String)> = Vec::new();
    match &s.access_token {
        Some(t) => {
            let sv = sign_value(key, t.as_str());
            out.push((String::from_str("access_token"), sv));
        },
        None => {},
    }
    match &s.enabled_repo {
        Some(r) => {
            let sv = sign_value(key, r.as_str());
            out.push((String::from_str("datastore"), sv));
        },
        None => {},
    }
    proof {
        assert(pairs_view(out@) =~= spec_encode(key@, s@));
    }
    out
}

/// The value of the first cookie named `name`, or `None`.
fn lookup(pairs: &Vec<(String, String)>, name: &String) -> (r: Option<String>)
    ensures
        match r {
            Some(v) => spec_lookup(pairs_view(pairs@), name@) == Some(v@),
            None => spec_lookup(pairs_view(pairs@), name@) is None,
        },
{
    let ghost all = pairs_view(pairs@);
    let mut i: usize = 0;
    proof {
        assert(all.skip(0) =~= all);
    }
    while i < pairs.len()
        invariant
            i <= pairs@.len(),
            all == pairs_view(pairs@),
            spec_lookup(all, name@) == spec_lookup(all.skip(i as int), name@),
        decreases pairs@.len() - i,
    {
        proof {
            assert(all[i as int] == (pairs@[i as int].0@, pairs@[i as int].1@));
            assert(all.skip(i as int)[0] == all[i as int]);
            assert(all.skip(i as int).skip(1) =~= all.skip(i as int + 1));
        }
        if pairs[i].0 == *name {
            return Some(pairs[i].1.clone());
        }
        i += 1;
    }
    None
}

/// Verify one found cookie value, relating the outcome to `spec_verify`.
fn verify_field(key: &Vec<u8>, found: Option<String>) -> (r: Option<String>)
    requires
        key@.len() >= MIN_SIGNING_KEY_LEN,
    ensures
        match found {
            Some(raw) => match r {
                Some(v) => spec_verify(key@, raw@) == Some(v@),
                None => spec_verify(key@, raw@) is None,
            },
            None => r is None,
        },
{
    match found {
        Some(raw) => {
            let r = verify_value(key, raw.as_str());
            if let Some(v) = &r {
                proof {
                    lemma_verify_of_signed(key@, v@, raw@);
                }
            }
            r
        },
        None => None,
    }
}

/// Load the session a request's cookies carry. A cookie that is missing or
/// whose signature does not verify under `key` leaves its field absent;
/// loading never fails and never yields a value that was not signed intact.
pub fn load_session(key: &Vec<u8>, pairs: &Vec<(String, String)>) -> (s: Session)
    requires
        key@.len() >= MIN_SIGNING_KEY_LEN,
    ensures
        s@ == spec_decode(key@, pairs_view(pairs@)),
{
    let token_name = String::from_str("access_token");
    let repo_name = String::from_str("datastore");
    let access_token = verify_field(key, lookup(pairs, &token_name));
    let enabled_repo = verify_field(key, lookup(pairs, &repo_name));
    let s = Session { access_token, enabled_repo };
    proof {
        assert(s@ =~= spec_decode(key@, pairs_view(pairs@)));
    }
    s
}

/// Cookie round-trip: loading the cookie set that saving a session produced
/// yields that session again, whatever the key and the session.
pub proof fn lemma_cookie_round_trip(key: Seq<u8>, s: SessionView)
    ensures
        spec_decode(key, spec_encode(key, s)) == s,
{
    lemma_names_distinct();
    let pairs = spec_encode(key, s);
    match s.access_token {
        Some(t) => {
            assert(pairs[0] == (token_cookie_name(), mac_of(key, t) + t));
            lemma_lookup_head(pairs, token_cookie_name());
            lemma_verify_of_signed(key, t, mac_of(key, t) + t);
            lemma_lookup_step(pairs, repo_cookie_name());
            match s.enabled_repo {
                Some(r) => {
                    assert(pairs.skip(1) =~= seq![(repo_cookie_name(), mac_of(key, r) + r)]);
                    lemma_lookup_head(pairs.skip(1), repo_cookie_name());
                    lemma_verify_of_signed(key, r, mac_of(key, r) + r);
                },
                None => {
                    assert(pairs.skip(1) =~= Seq::<(Seq<char>, Seq<char>)>::empty());
                    assert(spec_lookup(pairs.skip(1), repo_cookie_name()) is None);
                },
            }
        },
        None => {
            match s.enabled_repo {
                Some(r) => {
                    assert(pairs =~= seq![(repo_cookie_name(), mac_of(key, r) + r)]);
                    assert(pairs.skip(1) =~= Seq::<(Seq<char>, Seq<char>)>::empty());
                    lemma_lookup_head(pairs, repo_cookie_name());
                    lemma_verify_of_signed(key, r, mac_of(key, r) + r);
                    lemma_lookup_step(pairs, token_cookie_name());
                    assert(spec_lookup(pairs.skip(1), token_cookie_name()) is None);
                },
                None => {
                    assert(pairs =~= Seq::<(Seq<char>, Seq<char>)>::empty());
                },
            }
        },
    }
    assert(spec_decode(key, pairs) =~= s);
}

/// Tamper detection, the provable half: a loaded session is never corrupted.
/// Every field a load yields is the exact value whose honest signed form
/// stood in the cookie list under that field's name and this very key; a
/// cookie altered into anything else leaves its field absent, exactly as a
/// missing cookie does.
pub proof fn lemma_load_no_corruption(key: Seq<u8>, pairs: Seq<(Seq<char>, Seq<char>)>)
    ensures
        spec_decode(key, pairs).access_token matches Some(v) ==> (spec_lookup(
            pairs,
            token_cookie_name(),
        ) matches Some(raw) && is_signed_form(key, v, raw)),
        spec_decode(key, pairs).enabled_repo matches Some(v) ==> (spec_lookup(
            pairs,
            repo_cookie_name(),
        ) matches Some(raw) && is_signed_form(key, v, raw)),
{
    match spec_decode(key, pairs).access_token {
        Some(v) => {
            match spec_lookup(pairs, token_cookie_name()) {
                Some(raw) => lemma_verify_accepts_only_signed(key, raw, v),
                None => {},
            }
        },
        None => {},
    }
    match spec_decode(key, pairs).enabled_repo {
        Some(v) => {
            match spec_lookup(pairs, repo_cookie_name()) {
                Some(raw) => lemma_verify_accepts_only_signed(key, raw, v),
                None => {},
            }
        },
        None => {},
    }
}

/// Field independence: mutating only the enablement marker and saving leaves
/// the token cookie exactly as saving the unmutated session would have, and
/// the marker cookie carries the new value.
pub proof fn lemma_save_after_enable_keeps_token(key: Seq<u8>, s: SessionView, repo: Seq<char>)
    ensures
        spec_lookup(spec_encode(key, s.with_enabled(repo)), token_cookie_name()) == spec_lookup(
            spec_encode(key, s),
            token_cookie_name(),
        ),
        spec_lookup(spec_encode(key, s.with_enabled(repo)), repo_cookie_name()) == Some(
            mac_of(key, repo) + repo,
        ),
{
    lemma_names_distinct();
    let before = spec_encode(key, s);
    let after = spec_encode(key, s.with_enabled(repo));
    match s.access_token {
        Some(t) => {
            assert(after[0] == (token_cookie_name(), mac_of(key, t) + t));
            assert(before[0] == (token_cookie_name(), mac_of(key, t) + t));
            lemma_lookup_head(after, token_cookie_name());
            lemma_lookup_head(before, token_cookie_name());
            lemma_lookup_step(after, repo_cookie_name());
            assert(after.skip(1) =~= seq![(repo_cookie_name(), mac_of(key, repo) + repo)]);
            lemma_lookup_head(after.skip(1), repo_cookie_name());
        },
        None => {
            assert(after =~= seq![(repo_cookie_name(), mac_of(key, repo) + repo)]);
            lemma_lookup_head(after, repo_cookie_name());
            lemma_lookup_step(after, token_cookie_name());
            assert(after.skip(1) =~= Seq::<(Seq<char>, Seq<char>)>::empty());
            match s.enabled_repo {
                Some(r) => {
                    assert(before =~= seq![(repo_cookie_name(), mac_of(key, r) + r)]);
                    lemma_lookup_step(before, token_cookie_name());
                    assert(before.skip(1) =~= Seq::<(Seq<char>, Seq<char>)>::empty());
                },
                None => {
                    assert(before =~= Seq::<(Seq<char>, Seq<char>)>::empty());
                },
            }
        },
    }
}

} // verus!
