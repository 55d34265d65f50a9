use lingua_core::auth::callback_url;
use lingua_core::extractor::{authenticate, user_from_claims, AuthError, Claim, ClaimValue, GoogleUser, JwtKey};

fn user(family: Option<&str>, picture: Option<&str>, expiry: Option<i64>) -> GoogleUser {
    GoogleUser {
        sub: "1234567890".to_string(),
        email: "ada@example.com".to_string(),
        verified_email: true,
        name: "Ada Lovelace".to_string(),
        given_name: "Ada".to_string(),
        family_name: family.map(|s| s.to_string()),
        picture: picture.map(|s| s.to_string()),
        expiry,
    }
}

fn same(a: &GoogleUser, b: &GoogleUser) -> bool {
    a.sub == b.sub
        && a.email == b.email
        && a.verified_email == b.verified_email
        && a.name == b.name
        && a.given_name == b.given_name
        && a.family_name == b.family_name
        && a.picture == b.picture
        && a.expiry == b.expiry
}

fn text(name: &str, v: &str) -> Claim {
    Claim { name: name.to_string(), value: ClaimValue::Text(v.to_string()) }
}

#[test]
fn claims_round_trip_in_memory() {
    let u = user(Some("Lovelace"), Some("https://example.com/a.png"), Some(2_000));
    let back = user_from_claims(&u.to_claims(), 1_000).ok().unwrap();
    assert!(same(&u, &back));
}

#[test]
fn empty_family_name_and_picture_are_tolerated() {
    let u = user(None, None, Some(2_000));
    let back = user_from_claims(&u.to_claims(), 2_000).ok().unwrap();
    assert!(same(&u, &back));
    assert_eq!(back.family_name, None);
    assert_eq!(back.picture, None);
}

#[test]
fn token_round_trip_recovers_claims() {
    let key = JwtKey::new(b"server-secret").ok().unwrap();
    let u = user(Some("Lovelace"), None, Some(4_102_444_800));
    let token = key.sign(&u.to_claims()).ok().unwrap();
    let back = authenticate(Some(&format!("Bearer {}", token)), &key, 1_700_000_000).ok().unwrap();
    assert!(same(&u, &back));
}

#[test]
fn altered_token_is_refused() {
    let key = JwtKey::new(b"server-secret").ok().unwrap();
    let u = user(None, None, Some(4_102_444_800));
    let token = key.sign(&u.to_claims()).ok().unwrap();
    let bytes = token.as_bytes();
    for i in 0..bytes.len() {
        if bytes[i] == b'.' {
            continue;
        }
        for bit in 0..8 {
            let mut t = bytes.to_vec();
            t[i] ^= 1 << bit;
            if let Ok(s) = String::from_utf8(t) {
                if s == token {
                    continue;
                }
                if let Ok(c) = key.verify(&s) {
                    // base64 may decode a flipped padding bit to the same bytes
                    let back = user_from_claims(&c, 0).ok().unwrap();
                    assert!(same(&u, &back), "flip at {} bit {}", i, bit);
                }
            }
        }
    }
    let other = JwtKey::new(b"other-secret").ok().unwrap();
    assert!(other.verify(&token).is_err());
}

#[test]
fn expired_token_is_refused() {
    let key = JwtKey::new(b"server-secret").ok().unwrap();
    let u = user(None, None, Some(1_000));
    let token = key.sign(&u.to_claims()).ok().unwrap();
    let r = authenticate(Some(&format!("Bearer {}", token)), &key, 1_001);
    assert!(matches!(r, Err(AuthError::Expired)));
    assert_eq!(AuthError::Expired.message(), "Token expired");
    assert_eq!(AuthError::Expired.status_code(), 401);
}

#[test]
fn header_must_carry_a_bearer_token() {
    let key = JwtKey::new(b"server-secret").ok().unwrap();
    assert!(matches!(authenticate(None, &key, 0), Err(AuthError::MissingHeader)));
    assert!(matches!(authenticate(Some("Token abc"), &key, 0), Err(AuthError::InvalidTokenFormat)));
    assert!(matches!(authenticate(Some("Bearer abc"), &key, 0), Err(AuthError::InvalidToken)));
}

#[test]
fn each_missing_claim_has_its_error() {
    let exp = Claim { name: "expiry".to_string(), value: ClaimValue::Number(Some(10)) };
    let r = user_from_claims(&vec![], 0);
    assert!(matches!(r, Err(AuthError::MissingSub)));
    let r = user_from_claims(&vec![text("sub", "s")], 0);
    assert!(matches!(r, Err(AuthError::MissingExpiry)));
    let r = user_from_claims(&vec![text("sub", "s"), Claim { name: "expiry".to_string(), value: ClaimValue::Number(None) }], 0);
    assert!(matches!(r, Err(AuthError::MissingExpiry)));
    let r = user_from_claims(&vec![text("sub", "s"), Claim { name: "expiry".to_string(), value: ClaimValue::Number(Some(10)) }], 0);
    assert!(matches!(r, Err(AuthError::MissingEmail)));
    let r = user_from_claims(&vec![text("sub", "s"), Claim { name: "expiry".to_string(), value: ClaimValue::Number(Some(10)) }, text("email", "e")], 0);
    assert!(matches!(r, Err(AuthError::MissingName)));
    let r = user_from_claims(&vec![text("sub", "s"), exp, text("email", "e"), text("name", "n")], 0);
    assert!(matches!(r, Err(AuthError::MissingGivenName)));
    let r = user_from_claims(&vec![Claim { name: "sub".to_string(), value: ClaimValue::Flag(true) }], 0);
    assert!(matches!(r, Err(AuthError::MissingSub)));
}

#[test]
fn email_verified_defaults_to_false() {
    let claims = vec![
        text("sub", "s"),
        Claim { name: "expiry".to_string(), value: ClaimValue::Number(Some(10)) },
        text("email", "e"),
        text("name", "n"),
        text("given_name", "g"),
        Claim { name: "picture".to_string(), value: ClaimValue::Other },
    ];
    let u = user_from_claims(&claims, 10).ok().unwrap();
    assert!(!u.verified_email);
    assert_eq!(u.picture, None);
    assert_eq!(u.expiry, Some(10));
}

#[test]
fn callback_url_scheme_follows_host() {
    assert_eq!(callback_url("localhost:8000"), "http://localhost:8000/api/v1/auth/callback");
    assert_eq!(callback_url("127.0.0.1:8000"), "http://127.0.0.1:8000/api/v1/auth/callback");
    assert_eq!(callback_url("api.example.com"), "https://api.example.com/api/v1/auth/callback");
}

#[test]
fn session_claims_expire_a_week_later() {
    let u = user(None, None, None);
    let claims = u.session_claims(1_000);
    let back = user_from_claims(&claims, 1_000 + 604_800).ok().unwrap();
    assert_eq!(back.expiry, Some(1_000 + 604_800));
    assert!(matches!(user_from_claims(&claims, 1_000 + 604_801), Err(AuthError::Expired)));
    let late = u.session_claims(i64::MAX - 10);
    assert_eq!(user_from_claims(&late, 0).ok().unwrap().expiry, Some(i64::MAX));
}
