use f1_fantasy::auth::{
    access_claims, access_claims_at, authorize, check_password, decode_token_claims, hash_password, jwt_encode,
    refresh_token_at, refresh_token_encode, access_token_at,
    needs_profile_completion, refresh_claims, refresh_claims_at, registration_fields, PasswordCheck,
    ACCESS_TOKEN_TTL, REFRESH_TOKEN_TTL,
};

#[test]
fn hashes_verify_and_differ() {
    let h1 = hash_password("hunter2").unwrap();
    let h2 = hash_password("hunter2").unwrap();
    assert!(h1.starts_with("$argon2id$v=19$m=15,t=2,p=1$"));
    assert_ne!(h1, h2);
    assert_eq!(check_password(Some(&h1), "hunter2"), PasswordCheck::Matches);
    assert_eq!(check_password(Some(&h1), "hunter3"), PasswordCheck::Mismatch);
    assert_eq!(check_password(Some("plain"), "plain"), PasswordCheck::InvalidStoredHash);
    assert_eq!(check_password(None, ""), PasswordCheck::InvalidStoredHash);
}

#[test]
fn token_claims() {
    let c = access_claims("\"a@b.c\"".to_string(), 1_000);
    assert_eq!((c.sub.as_str(), c.iat, c.exp), ("\"a@b.c\"", 1_000, 1_900));
    let r = refresh_claims("x".to_string(), 10);
    assert_eq!((r.iat, r.exp), (10, 10 + 86_400));
    let token = jwt_encode("me".to_string(), "secret").unwrap();
    let now = decode_token_claims(&token, "secret").unwrap();
    assert_eq!(now.exp - now.iat, ACCESS_TOKEN_TTL);
    assert_eq!(now.sub, "me");
    let token = refresh_token_encode("me".to_string(), "secret").unwrap();
    let now = decode_token_claims(&token, "secret").unwrap();
    assert_eq!(now.exp - now.iat, REFRESH_TOKEN_TTL);
}

#[test]
fn registration_defaults() {
    let f = registration_fields(None, None, None, None);
    assert_eq!((f.name.as_str(), f.username.as_str(), f.email.as_str(), f.dob.as_str()),
        ("Unknown", "unknown", "unknown@example.com", "1970-01-01"));
    let g = registration_fields(Some("Lewis"), Some("lh44"), Some("l@h.com"), Some("1985-01-07"));
    assert_eq!((g.name.as_str(), g.username.as_str(), g.email.as_str(), g.dob.as_str()),
        ("Lewis", "lh44", "l@h.com", "1985-01-07"));
}

#[test]
fn profile_completion() {
    assert!(needs_profile_completion(None));
    assert!(needs_profile_completion(Some(false)));
    assert!(!needs_profile_completion(Some(true)));
}

#[test]
fn claims_at_an_instant() {
    let c = access_claims_at("a".to_string(), 5).unwrap();
    assert_eq!((c.sub.as_str(), c.iat, c.exp), ("a", 5, 905));
    assert!(access_claims_at("a".to_string(), usize::MAX - 900).is_some());
    assert!(access_claims_at("a".to_string(), usize::MAX - 899).is_none());
    let r = refresh_claims_at("b".to_string(), 7).unwrap();
    assert_eq!((r.sub.as_str(), r.iat, r.exp), ("b", 7, 7 + 86_400));
    assert!(refresh_claims_at("b".to_string(), usize::MAX).is_none());
}

#[test]
fn stored_hash_checks_its_own_password() {
    let h = hash_password("").unwrap();
    assert_eq!(check_password(Some(&h), ""), PasswordCheck::Matches);
    assert_eq!(check_password(Some(&h), "x"), PasswordCheck::Mismatch);
    let other = hash_password("x").unwrap();
    assert_eq!(check_password(Some(&other), ""), PasswordCheck::Mismatch);
}

#[test]
fn hashes_name_their_parameters() {
    let h = hash_password("letmein").unwrap();
    assert!(h.starts_with("$argon2id$v=19$m=15,t=2,p=1$"));
    let salt = h.split('$').nth(4).unwrap();
    assert_eq!(salt.len(), 22);
    assert!(hash_password(&"x".repeat(1000)).is_ok());
}

#[test]
fn tokens_round_trip_and_authorize() {
    let far = 4_000_000_000usize;
    let t = access_token_at("\"a@b.c\"".to_string(), far, "k1").unwrap();
    assert_eq!(t, access_token_at("\"a@b.c\"".to_string(), far, "k1").unwrap());
    assert_eq!(t.split('.').count(), 3);
    let c = decode_token_claims(&t, "k1").unwrap();
    assert_eq!((c.sub.as_str(), c.iat, c.exp), ("\"a@b.c\"", far, far + ACCESS_TOKEN_TTL));
    assert!(decode_token_claims(&t, "k2").is_none());
    assert!(decode_token_claims("not.a.token", "k1").is_none());
    let a = authorize(&format!("Bearer {}", t), "k1").unwrap();
    assert_eq!(a.sub, "\"a@b.c\"");
    assert!(authorize(&t, "k1").is_none());
    assert!(authorize(&format!("Bearer {}", t), "k2").is_none());
    let expired = access_token_at("x".to_string(), 1_000, "k1").unwrap();
    assert!(decode_token_claims(&expired, "k1").is_none());
    assert!(access_token_at("x".to_string(), usize::MAX, "k1").is_none());
    let r = refresh_token_at("y".to_string(), far, "k1").unwrap();
    assert_eq!(decode_token_claims(&r, "k1").unwrap().exp, far + REFRESH_TOKEN_TTL);
    assert!(refresh_token_at("y".to_string(), usize::MAX - 10, "k1").is_none());
}
