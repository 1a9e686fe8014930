//! Session tokens: `mk_<payload>.<signature>`, where the payload is the JSON
//! object of the claims, in URL-safe base64 without padding, and the
//! signature is its HMAC-SHA256 under the engine's secret, encoded the same
//! way. Also the key under which a revoked token is remembered.
use vstd::prelude::*;
use vstd::string::StringExecFns;
use crate::json::{decimal, decimal_text, json_string, json_string_literal, lemma_decimal_len, lemma_json_string_len};
use crate::sources::{now_secs, random_uuid};
use crate::text::{joined, string_from_chars};
use crate::base64_text::base64_url;

verus! {

/// The UTF-8 encoding of one character.
pub open spec fn utf8_char(c: char) -> Seq<u8> {
    let v = c as u32;
    if v < 0x80 {
        seq![v as u8]
    } else if v < 0x800 {
        seq![(0xC0 | (v >> 6)) as u8, (0x80 | (v & 0x3F)) as u8]
    } else if v < 0x10000 {
        seq![(0xE0 | (v >> 12)) as u8, (0x80 | ((v >> 6) & 0x3F)) as u8, (0x80 | (v & 0x3F)) as u8]
    } else {
        seq![
            (0xF0 | (v >> 18)) as u8,
            (0x80 | ((v >> 12) & 0x3F)) as u8,
            (0x80 | ((v >> 6) & 0x3F)) as u8,
            (0x80 | (v & 0x3F)) as u8,
        ]
    }
}

/// The UTF-8 encoding of a string.
pub open spec fn utf8(s: Seq<char>) -> Seq<u8>
    decreases s.len(),
{
    if s.len() == 0 {
        Seq::empty()
    } else {
        utf8(s.drop_last()) + utf8_char(s.last())
    }
}

/// A string takes at most four bytes per character.
pub proof fn lemma_utf8_len(s: Seq<char>)
    ensures
        utf8(s).len() <= 4 * s.len(),
    decreases s.len(),
{
    if s.len() > 0 {
        lemma_utf8_len(s.drop_last());
    }
}

/// The claims of a token take at most `424 + 24 n` bytes, `n` being the
/// length of the three names.
proof fn lemma_claims_size(tenant_id: Seq<char>, user_id: Seq<char>, jti: Seq<char>, iat: i64, exp: i64)
    ensures
        utf8(token_claims(tenant_id, user_id, jti, iat as int, exp as int)).len() <= 424 + 24 * (tenant_id.len()
            + user_id.len() + jti.len()),
{
    reveal_strlit("{\"exp\":");
    reveal_strlit(",\"iat\":");
    reveal_strlit(",\"jti\":");
    reveal_strlit(",\"tid\":");
    reveal_strlit(",\"uid\":");
    reveal_strlit("}");
    let c = token_claims(tenant_id, user_id, jti, iat as int, exp as int);
    lemma_json_string_len(tenant_id);
    lemma_json_string_len(user_id);
    lemma_json_string_len(jti);
    lemma_decimal_len(iat);
    lemma_decimal_len(exp);
    lemma_utf8_len(c);
    assert(c.len() <= 100 + 6 * (tenant_id.len() + user_id.len() + jti.len()) + 6);
}

/// Calls `String::into_bytes`: the bytes of the string, which std keeps as
/// UTF-8.
#[verifier::external_body]
fn into_bytes(s: String) -> (r: Vec<u8>)
    ensures
        r@ == utf8(s@),
{
    s.into_bytes()
}

/// The HMAC-SHA256 tag of `message` under `key`.
pub uninterp spec fn hmac_sha256(key: Seq<u8>, message: Seq<u8>) -> Seq<u8>;

/// Builds `Hmac<Sha256>` with `Mac::new_from_slice` (which accepts a key of
/// any length), feeds it `message` and returns `finalize().into_bytes()`: the
/// 32-byte tag, named and not spelled out.
#[verifier::external_body]
fn sign(key: &[u8], message: &Vec<u8>) -> (r: Vec<u8>)
    ensures
        r@ == hmac_sha256(key@, message@),
        r@.len() == 32,
{
    let mut mac = <hmac::Hmac<sha2::Sha256> as hmac::Mac>::new_from_slice(key).unwrap();
    hmac::Mac::update(&mut mac, message);
    hmac::Mac::finalize(mac).into_bytes().to_vec()
}

/// Calls `Engine::encode` of `base64::engine::general_purpose::URL_SAFE_NO_PAD`:
/// the unpadded URL-safe encoding of `bytes`, as `base64_url` spells it out.
#[verifier::external_body]
fn encode_url_safe(bytes: &Vec<u8>) -> (r: String)
    requires
        bytes@.len() <= usize::MAX / 2,
    ensures
        r@ == base64_url(bytes@),
{
    base64::Engine::encode(&base64::engine::general_purpose::URL_SAFE_NO_PAD, bytes)
}

/// The claims of a token as JSON text, keys in order: expiry, issue time,
/// token id, tenant, user.
pub open spec fn token_claims(tenant_id: Seq<char>, user_id: Seq<char>, jti: Seq<char>, iat: int, exp: int) -> Seq<char> {
    "{\"exp\":"@ + decimal(exp) + ",\"iat\":"@ + decimal(iat) + ",\"jti\":"@ + json_string(jti) + ",\"tid\":"@
        + json_string(tenant_id) + ",\"uid\":"@ + json_string(user_id) + "}"@
}

/// The token of these claims signed with `secret`.
pub open spec fn signed_token(secret: Seq<u8>, claims: Seq<char>) -> Seq<char> {
    "mk_"@ + base64_url(utf8(claims)) + "."@ + base64_url(hmac_sha256(secret, utf8(claims)))
}

/// The token issued at `now` for `ttl_seconds` with id `jti`: it expires
/// `ttl_seconds` (taken as an `i64`) after `now`.
pub open spec fn issued_token(
    secret: Seq<u8>,
    tenant_id: Seq<char>,
    user_id: Seq<char>,
    ttl_seconds: u64,
    jti: Seq<char>,
    now: int,
) -> Seq<char> {
    signed_token(secret, token_claims(tenant_id, user_id, jti, now, now + (ttl_seconds as i64)))
}

fn push_text(out: &mut String, v: &Vec<char>)
    ensures
        final(out)@ == old(out)@ + v@,
{
    let s = string_from_chars(v);
    out.append(s.as_str());
}

/// Issues the token of `tenant_id` and `user_id` with id `jti`, issued at
/// `now` and valid for `ttl_seconds`. The names are short enough that the
/// claims stay within what the encoder takes (`usize::MAX / 2` bytes, at most
/// four per character of a claims text of `106 + 6 n` characters).
pub fn issue_token_at(
    secret: &[u8],
    tenant_id: &str,
    user_id: &str,
    ttl_seconds: u64,
    jti: &str,
    now: i64,
) -> (r: String)
    requires
        i64::MIN <= now + (ttl_seconds as i64) <= i64::MAX,
        424 + 24 * (tenant_id@.len() + user_id@.len() + jti@.len()) <= usize::MAX / 2,
    ensures
        r@ == issued_token(secret@, tenant_id@, user_id@, ttl_seconds, jti@, now as int),
{
    #[verifier::truncate]
    let ttl: i64 = ttl_seconds as i64;
    let exp: i64 = now + ttl;
    let mut claims = String::from_str("{\"exp\":");
    push_text(&mut claims, &decimal_text(exp));
    claims.append(",\"iat\":");
    push_text(&mut claims, &decimal_text(now));
    let j = json_string_literal(jti);
    let t = json_string_literal(tenant_id);
    let u = json_string_literal(user_id);
    claims.append(",\"jti\":");
    claims.append(j.as_str());
    claims.append(",\"tid\":");
    claims.append(t.as_str());
    claims.append(",\"uid\":");
    claims.append(u.as_str());
    claims.append("}");
    proof {
        lemma_claims_size(tenant_id@, user_id@, jti@, now, exp);
    }
    let ghost claims_text = claims@;
    let bytes = into_bytes(claims);
    let tag = sign(secret, &bytes);
    let payload_b64 = encode_url_safe(&bytes);
    let sig_b64 = encode_url_safe(&tag);
    let mut token = joined("mk_", payload_b64.as_str());
    token.append(".");
    token.append(sig_b64.as_str());
    token
}

/// Issues a token now: the id is `jti` when given and a fresh random UUID
/// otherwise. Which instant and which fresh id are not known in advance.
/// Nothing is issued when the clock reads a time before 1970, or one so far
/// ahead that the expiry does not fit an `i64`. The names are short enough
/// that the claims stay within what the encoder takes (`usize::MAX / 2`
/// bytes, at most four per character of a claims text of `106 + 6 n`
/// characters).
pub fn issue_token(secret: &[u8], tenant_id: &str, user_id: &str, ttl_seconds: u64, jti: Option<String>) -> (r: Option<String>)
    requires
        424 + 24 * (tenant_id@.len() + user_id@.len() + match jti {
            Some(j) => j@.len(),
            None => 36,
        }) <= usize::MAX / 2,
    ensures
        r matches Some(token) ==> exists|now: int, id: Seq<char>|
            {
                &&& 0 <= now
                &&& token@ == issued_token(secret@, tenant_id@, user_id@, ttl_seconds, id, now)
                &&& match jti {
                    Some(j) => id == j@,
                    None => id.len() == 36,
                }
            },
{
    let now = match now_secs() {
        Some(t) => t,
        None => {
            return None;
        },
    };
    #[verifier::truncate]
    let ttl: i64 = ttl_seconds as i64;
    if ttl > 0 && now > i64::MAX - ttl {
        return None;
    }
    let id = match jti {
        Some(j) => j,
        None => random_uuid(),
    };
    let r = issue_token_at(secret, tenant_id, user_id, ttl_seconds, id.as_str(), now);
    assert(r@ == issued_token(secret@, tenant_id@, user_id@, ttl_seconds, id@, now as int));
    Some(r)
}

/// The key under which a revoked token id is remembered.
pub open spec fn revoked_key_spec(jti: Seq<char>) -> Seq<char> {
    "REVOKED#"@ + jti
}

/// The key under which a revoked token id is remembered: `REVOKED#<jti>`.
pub fn revoked_key(jti: &str) -> (r: String)
    ensures
        r@ == revoked_key_spec(jti@),
{
    joined("REVOKED#", jti)
}

/// The mark that revokes a token id: its key, the sort key `REVOKED`, and
/// the second at which the store may forget it.
#[derive(Debug)]
pub struct RevocationMark {
    pub key: String,
    pub sort_key: String,
    pub expires_at: u64,
}

/// The mark that revokes `jti` at the second `now` for `ttl_seconds`.
pub fn revocation_mark(jti: &str, now: i64, ttl_seconds: u64) -> (r: RevocationMark)
    requires
        (now as u64) + ttl_seconds <= u64::MAX,
    ensures
        r.key@ == revoked_key_spec(jti@),
        r.sort_key@ == "REVOKED"@,
        r.expires_at == (now as u64) + ttl_seconds,
{
    #[verifier::truncate]
    let start: u64 = now as u64;
    RevocationMark { key: revoked_key(jti), sort_key: String::from_str("REVOKED"), expires_at: start + ttl_seconds }
}

/// Whether a token id counts as revoked, given the read of its mark: a
/// mark found revokes it; no mark, or a failed read, lets it through.
pub fn is_revoked<T, E>(lookup: &Result<Option<T>, E>) -> (r: bool)
    ensures
        r == (lookup matches Ok(Some(_))),
{
    match lookup {
        Ok(Some(_)) => true,
        _ => false,
    }
}

} // verus!
