use base64::Engine;
use hmac::Mac;

use metri_engine::session::{issue_token, issue_token_at, revoked_key, is_revoked, revocation_mark};

fn decode(part: &str) -> Vec<u8> {
    base64::engine::general_purpose::URL_SAFE_NO_PAD.decode(part).unwrap()
}

#[test]
fn issued_token_carries_signed_claims() {
    let secret = b"s3cret";
    let token = issue_token_at(secret, "tnt_01", "usr_01", 3600, "jti-1", 1_700_000_000);
    assert!(token.starts_with("mk_"));
    let body = &token[3..];
    let (payload, sig) = body.split_once('.').unwrap();
    let claims = decode(payload);
    assert_eq!(
        String::from_utf8(claims.clone()).unwrap(),
        "{\"exp\":1700003600,\"iat\":1700000000,\"jti\":\"jti-1\",\"tid\":\"tnt_01\",\"uid\":\"usr_01\"}"
    );
    let mut mac = hmac::Hmac::<sha2::Sha256>::new_from_slice(secret).unwrap();
    mac.update(&claims);
    assert_eq!(decode(sig), mac.finalize().into_bytes().to_vec());
}

#[test]
fn issued_claims_match_what_serde_json_writes() {
    let token = issue_token_at(b"k", "t\"q", "ü", 60, "j", -5);
    let payload = token[3..].split('.').next().unwrap();
    let claims: serde_json::Value = serde_json::from_slice(&decode(payload)).unwrap();
    let mut map = serde_json::Map::new();
    map.insert("tid".to_string(), serde_json::Value::from("t\"q"));
    map.insert("uid".to_string(), serde_json::Value::from("ü"));
    map.insert("iat".to_string(), serde_json::Value::from(-5));
    map.insert("exp".to_string(), serde_json::Value::from(55));
    map.insert("jti".to_string(), serde_json::Value::from("j"));
    let expected = serde_json::Value::Object(map);
    assert_eq!(claims, expected);
    assert_eq!(
        String::from_utf8(decode(payload)).unwrap(),
        expected.to_string()
    );
}

#[test]
fn issue_token_now_uses_the_given_id_or_a_fresh_one() {
    let token = issue_token(b"k", "t", "u", 10, Some("given".to_string())).unwrap();
    let payload = token[3..].split('.').next().unwrap();
    let claims: serde_json::Value = serde_json::from_slice(&decode(payload)).unwrap();
    assert_eq!(claims["jti"], "given");
    assert_eq!(claims["exp"].as_i64().unwrap() - claims["iat"].as_i64().unwrap(), 10);
    let token = issue_token(b"k", "t", "u", 10, None).unwrap();
    let payload = token[3..].split('.').next().unwrap();
    let claims: serde_json::Value = serde_json::from_slice(&decode(payload)).unwrap();
    assert_eq!(claims["jti"].as_str().unwrap().len(), 36);
}

#[test]
fn revoked_tokens_are_keyed_by_their_id() {
    assert_eq!(revoked_key("abc"), "REVOKED#abc");
}

#[test]
fn revocation_marks_expire_after_the_ttl() {
    let m = revocation_mark("jti-1", 1_700_000_000, 3600);
    assert_eq!(m.key, "REVOKED#jti-1");
    assert_eq!(m.sort_key, "REVOKED");
    assert_eq!(m.expires_at, 1_700_003_600);
}

#[test]
fn only_a_found_mark_revokes() {
    assert!(is_revoked::<u8, String>(&Ok(Some(1))));
    assert!(!is_revoked::<u8, String>(&Ok(None)));
    assert!(!is_revoked::<u8, String>(&Err("unreachable store".to_string())));
}
