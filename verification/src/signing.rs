//! Tamper-evident signing of cookie values.
//!
//! A signed value is the 44-character base64 HMAC-SHA256 digest of the value
//! under the server's key, followed by the value itself. Verification accepts
//! exactly the strings of that form and returns the value part. The digest
//! computation lives in the `cookie` crate; this module names its result and
//! states the shape of signed values, so that the codec above it can be
//! verified without restating the cryptography.

use vstd::prelude::*;

verus! {

/// The least length `cookie::Key::from` accepts for a master key; a shorter
/// one makes it panic.
pub const MIN_SIGNING_KEY_LEN: usize = 64;

/// The base64 HMAC-SHA256 digest that the `cookie` crate prepends when
/// signing `value` under `key`. Named, not written out: nothing in this
/// library recomputes it, and it depends on the key and the value alone.
pub uninterp spec fn mac_chars(key: Seq<u8>, value: Seq<char>) -> Seq<char>;

/// The digest as it stands in a signed value: exactly 44 characters, as the
/// base64 of a 32-byte digest always is. The model fixes the length by
/// construction; the padding branch never arises for the real digest.
pub open spec fn mac_of(key: Seq<u8>, value: Seq<char>) -> Seq<char> {
    Seq::new(
        44,
        |i: int|
            if i < mac_chars(key, value).len() {
                mac_chars(key, value)[i]
            } else {
                '='
            },
    )
}

/// `raw` is exactly the signed form of `value` under `key`: the 44-character
/// digest, then the value itself.
pub open spec fn is_signed_form(key: Seq<u8>, value: Seq<char>, raw: Seq<char>) -> bool {
    raw == mac_of(key, value) + value
}

/// What verification accepts on input `raw`: the unique value whose signed
/// form `raw` is, if any; `None` otherwise.
pub open spec fn spec_verify(key: Seq<u8>, raw: Seq<char>) -> Option<Seq<char>> {
    if exists|v: Seq<char>| is_signed_form(key, v, raw) {
        Some(choose|v: Seq<char>| is_signed_form(key, v, raw))
    } else {
        None
    }
}

/// Relies on `cookie::SignedJar::add` (reached through
/// `CookieJar::signed_mut` with `Key::from`): the value stored in the jar is
/// the 44-character base64 HMAC-SHA256 digest of the given value under the
/// key's signing half, followed by the value itself. `Key::from` panics on
/// keys shorter than 64 bytes, hence the bound.
#[verifier::external_body]
pub(crate) fn sign_value(key: &Vec<u8>, value: &str) -> (r: String)
    requires
        key@.len() >= MIN_SIGNING_KEY_LEN,
    ensures
        r@.take(44) == mac_chars(key@, value@),
        r@ == mac_of(key@, value@) + value@,
        r@.len() == 44 + value@.len(),
        is_signed_form(key@, value@, r@),
{
    let k = cookie::Key::from(key.as_slice());
    let mut jar = cookie::CookieJar::new();
    jar.signed_mut(&k).add(cookie::Cookie::new("v", value.to_owned()));
    match jar.get("v") {
        Some(c) => c.value().to_owned(),
        None => String::new(),
    }
}

/// Relies on `cookie::SignedJar::verify`: it returns the value part of `raw`
/// exactly when `raw` is digest-then-value and the digest verifies under the
/// key, and `None` for every other string. `Key::from` panics on keys shorter
/// than 64 bytes, hence the bound.
#[verifier::external_body]
pub(crate) fn verify_value(key: &Vec<u8>, raw: &str) -> (r: Option<String>)
    requires
        key@.len() >= MIN_SIGNING_KEY_LEN,
    ensures
        match r {
            Some(v) => is_signed_form(key@, v@, raw@),
            None => forall|v: Seq<char>| !is_signed_form(key@, v, raw@),
        },
{
    let k = cookie::Key::from(key.as_slice());
    let jar = cookie::CookieJar::new();
    jar.signed(&k).verify(cookie::Cookie::new("v", raw.to_owned())).map(|c| c.value().to_owned())
}

/// A string is the signed form of at most one value: the digest is always 44
/// characters, so the value is the suffix after them.
pub proof fn lemma_signed_form_unique(key: Seq<u8>, a: Seq<char>, b: Seq<char>, raw: Seq<char>)
    requires
        is_signed_form(key, a, raw),
        is_signed_form(key, b, raw),
    ensures
        a == b,
{
    assert(mac_of(key, a).len() == 44);
    assert(mac_of(key, b).len() == 44);
    assert(raw.skip(44) =~= a);
    assert(raw.skip(44) =~= b);
}

/// Verification inverts signing: the signed form of `value` is accepted and
/// yields `value` back, never another value.
pub proof fn lemma_verify_of_signed(key: Seq<u8>, value: Seq<char>, raw: Seq<char>)
    requires
        is_signed_form(key, value, raw),
    ensures
        spec_verify(key, raw) == Some(value),
{
    let w = choose|v: Seq<char>| is_signed_form(key, v, raw);
    lemma_signed_form_unique(key, w, value, raw);
}

/// No forgery: whatever verification accepts was genuinely produced by
/// signing that very value under that very key. A tampered string is either
/// rejected outright or is itself the honest signed form of what it yields;
/// verification never hands back an altered value.
pub proof fn lemma_verify_accepts_only_signed(key: Seq<u8>, raw: Seq<char>, v: Seq<char>)
    requires
        spec_verify(key, raw) == Some(v),
    ensures
        is_signed_form(key, v, raw),
{
}

} // verus!
