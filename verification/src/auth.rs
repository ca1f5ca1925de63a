use vstd::prelude::*;
use argon2::password_hash::rand_core::OsRng;
use argon2::password_hash::PasswordHasher;
use argon2::PasswordVerifier;
use crate::text::{chars_equal, chars_of, string_from_chars};

verus! {

/// `argon2::password_hash::Error`.
#[verifier::external_type_specification]
#[verifier::external_body]
pub struct ExPasswordHashError(argon2::password_hash::Error);

/// `argon2::PasswordHash`.
#[verifier::external_type_specification]
#[verifier::external_body]
pub struct ExPasswordHash<'a>(argon2::PasswordHash<'a>);

/// Whether a character belongs to the B64 alphabet of PHC strings
/// (standard Base64 without padding).
pub open spec fn is_b64_char(c: char) -> bool {
    ('A' <= c <= 'Z') || ('a' <= c <= 'z') || ('0' <= c <= '9') || c == '+' || c == '/'
}

/// Whether a text is the unpadded B64 encoding of 16 bytes: 22 B64
/// characters, the last of which carries two bits and four zero bits.
pub open spec fn b64_of_16_bytes(s: Seq<char>) -> bool {
    &&& s.len() == 22
    &&& forall|i: int| 0 <= i < 22 ==> is_b64_char(#[trigger] s[i])
    &&& (s[21] == 'A' || s[21] == 'Q' || s[21] == 'g' || s[21] == 'w')
}

/// `SaltString::generate` from the operating system's random source, as its
/// B64 text. The salt is random; what the source shows of every salt is
/// that it encodes 16 random bytes (`Salt::RECOMMENDED_LENGTH`) in B64.
#[verifier::external_body]
fn generate_salt() -> (s: String)
    ensures
        b64_of_16_bytes(s@),
{
    argon2::password_hash::SaltString::generate(&mut OsRng).as_str().to_owned()
}

/// Whether `argon2::Params::new(m_cost, t_cost, p_cost, None)` accepts the
/// costs: memory at least 8 and at least 8 per lane, time at least 1, lanes
/// between 1 and 0xFFFFFF.
pub open spec fn valid_argon2_costs(m_cost: u32, t_cost: u32, p_cost: u32) -> bool {
    m_cost >= 8 && m_cost >= p_cost * 8 && t_cost >= 1 && 1 <= p_cost <= 0xFF_FFFF
}

/// The decimal digit of `d` (below 10).
pub open spec fn digit_char(d: int) -> char {
    (48 + d) as char
}

/// The decimal text of a number, without leading zeros.
pub open spec fn decimal_text(n: nat) -> Seq<char>
    decreases n,
{
    if n < 10 {
        seq![digit_char(n as int)]
    } else {
        decimal_text(n / 10) + seq![digit_char((n % 10) as int)]
    }
}

/// The start of the PHC string of an Argon2id (version 0x13) hash with the
/// given costs, up to the `$` before the salt.
pub open spec fn argon2id_phc_prefix(m_cost: u32, t_cost: u32, p_cost: u32) -> Seq<char> {
    "$argon2id$v=19$m="@ + decimal_text(m_cost as nat) + ",t="@ + decimal_text(t_cost as nat)
        + ",p="@ + decimal_text(p_cost as nat) + "$"@
}

/// Whether `text` begins with `prefix`.
pub open spec fn starts_with(text: Seq<char>, prefix: Seq<char>) -> bool {
    prefix.len() <= text.len() && text.take(prefix.len() as int) == prefix
}

/// Whether a password verifies against a PHC hash text: whether
/// `PasswordVerifier::verify_password` of the password's bytes succeeds, by
/// an Argon2 hasher without a secret key, against the hash that
/// `PasswordHash::new` parses from the text. Verification recomputes the
/// hash with the algorithm, version, parameters and salt that the text
/// names, so it depends on the two texts alone.
pub uninterp spec fn phc_verifies(password: Seq<char>, phc: Seq<char>) -> bool;

/// `PasswordHasher::hash_password` of the password's bytes by
/// `Argon2::new(Argon2id, V0x13, Params::new(m_cost, t_cost, p_cost, None))`
/// (a hasher without a secret key) with the salt given as B64 text
/// (`Salt::from_b64`), rendered as a PHC string (`PasswordHash`'s
/// `Display`): `$argon2id$v=19$m=..,t=..,p=..$` then the salt and the hash.
/// Such a string is one that `PasswordHash::new` parses back, and verifying
/// the same password against it recomputes the same output. Hashing
/// succeeds when the costs are accepted, the salt encodes 16 bytes and the
/// password fits argon2's limit of 0xFFFFFFFF bytes (at most 0x3FFFFFFF
/// characters always do). The hash output itself is not stated.
#[verifier::external_body]
fn phc_hash(m_cost: u32, t_cost: u32, p_cost: u32, password: &str, salt: &str) -> (r: Result<
    String,
    argon2::password_hash::Error,
>)
    requires
        p_cost * 8 <= u32::MAX,
    ensures
        r matches Ok(h) ==> is_phc_hash(h@) && phc_verifies(password@, h@) && starts_with(
            h@,
            argon2id_phc_prefix(m_cost, t_cost, p_cost),
        ),
        valid_argon2_costs(m_cost, t_cost, p_cost) && b64_of_16_bytes(salt@) && password@.len()
            <= 0x3FFF_FFFF ==> r is Ok,
{
    let params = argon2::Params::new(m_cost, t_cost, p_cost, None)?;
    let salt = argon2::password_hash::Salt::from_b64(salt)?;
    let hasher = argon2::Argon2::new(argon2::Algorithm::Argon2id, argon2::Version::V0x13, params);
    match hasher.hash_password(password.as_bytes(), salt) {
        Ok(h) => Ok(h.to_string()),
        Err(e) => Err(e),
    }
}

/// The `Display` text of a hashing error.
#[verifier::external_body]
fn hash_error_text(e: &argon2::password_hash::Error) -> String {
    e.to_string()
}

/// Prefix of the message of a failed hashing.
pub open spec fn hashing_failed_prefix() -> Seq<char> {
    "Hashing failed: "@
}

/// The start of every PHC string that `hash_password` gives.
pub open spec fn password_hash_prefix() -> Seq<char> {
    "$argon2id$v=19$m=15,t=2,p=1$"@
}

proof fn lemma_password_hash_prefix()
    ensures
        argon2id_phc_prefix(15, 2, 1) == password_hash_prefix(),
{
    reveal_strlit("$argon2id$v=19$m=");
    reveal_strlit(",t=");
    reveal_strlit(",p=");
    reveal_strlit("$");
    reveal_strlit("$argon2id$v=19$m=15,t=2,p=1$");
    assert(decimal_text(15) =~= seq!['1', '5']) by {
        reveal_with_fuel(decimal_text, 2);
    }
    assert(decimal_text(2) =~= seq!['2']);
    assert(decimal_text(1) =~= seq!['1']);
    assert(argon2id_phc_prefix(15, 2, 1) =~= password_hash_prefix());
}

/// Hashes a password with Argon2id (version 0x13, 15 KiB of memory, two
/// passes, one lane) and a fresh random 16-byte salt, giving the PHC string
/// "$argon2id$v=19$m=15,t=2,p=1$" followed by the salt and the hash. It
/// succeeds for every password of at most 0x3FFFFFFF characters; a failure
/// is reported as "Hashing failed: " and the cause. A hash given back is a
/// PHC string that the same password verifies against: stored and checked
/// with `check_password`, that password matches.
pub fn hash_password(password: &str) -> (r: Result<String, String>)
    ensures
        password@.len() <= 0x3FFF_FFFF ==> r is Ok,
        r matches Ok(h) ==> starts_with(h@, password_hash_prefix()),
        r matches Ok(h) ==> is_phc_hash(h@) && phc_verifies(password@, h@),
        r matches Ok(h) ==> password_check(h@, password@) == PasswordCheck::Matches,
        r matches Err(msg) ==> msg@.len() >= hashing_failed_prefix().len() && msg@.take(
            hashing_failed_prefix().len() as int,
        ) == hashing_failed_prefix(),
{
    proof {
        lemma_password_hash_prefix();
    }
    let salt = generate_salt();
    match phc_hash(15, 2, 1, password, salt.as_str()) {
        Ok(h) => Ok(h),
        Err(e) => {
            let mut msg = chars_of("Hashing failed: ");
            let cause = hash_error_text(&e);
            let cause_chars = chars_of(cause.as_str());
            let ghost prefix = msg@;
            let mut i: usize = 0;
            while i < cause_chars.len()
                invariant
                    prefix == hashing_failed_prefix(),
                    i <= cause_chars@.len(),
                    msg@ == prefix + cause_chars@.take(i as int),
                decreases cause_chars@.len() - i,
            {
                msg.push(cause_chars[i]);
                i = i + 1;
                assert(msg@ =~= prefix + cause_chars@.take(i as int));
            }
            assert(msg@.take(prefix.len() as int) =~= prefix);
            Err(string_from_chars(&msg))
        },
    }
}

/// Whether a stored text is a PHC password hash, as
/// `argon2::PasswordHash::new` decides it.
pub uninterp spec fn is_phc_hash(text: Seq<char>) -> bool;

/// `argon2::PasswordHash::new`: parses a PHC string; it succeeds exactly
/// when `is_phc_hash` holds of the text (the PHC grammar is not restated).
#[verifier::external_body]
fn parse_phc<'a>(text: &'a str) -> (r: Result<argon2::PasswordHash<'a>, argon2::password_hash::Error>)
    ensures
        r is Ok <==> is_phc_hash(text@),
{
    argon2::PasswordHash::new(text)
}

/// `PasswordVerifier::verify_password` of the password's bytes, by
/// `Argon2::default()` (no secret key), against the PHC hash text parsed
/// with `PasswordHash::new`: whether the password matches, which is
/// `phc_verifies` of the two texts. The text must be a PHC hash.
#[verifier::external_body]
fn verify_phc(password: &str, text: &str) -> (r: bool)
    requires
        is_phc_hash(text@),
    ensures
        r == phc_verifies(password@, text@),
{
    match argon2::PasswordHash::new(text) {
        Ok(hash) => argon2::Argon2::default().verify_password(password.as_bytes(), &hash).is_ok(),
        Err(_) => false,
    }
}

/// The outcome of checking a password against a user's stored hash.
#[derive(Clone, Copy, Debug, PartialEq, Eq)]
pub enum PasswordCheck {
    /// The password matches.
    Matches,
    /// The password does not match.
    Mismatch,
    /// The stored text is no PHC hash.
    InvalidStoredHash,
}

/// The outcome of checking `password` against the stored text: an invalid
/// stored hash when the text is no PHC hash, else whether the password
/// verifies against it.
pub open spec fn password_check(stored: Seq<char>, password: Seq<char>) -> PasswordCheck {
    if !is_phc_hash(stored) {
        PasswordCheck::InvalidStoredHash
    } else if phc_verifies(password, stored) {
        PasswordCheck::Matches
    } else {
        PasswordCheck::Mismatch
    }
}

/// Checks a password against a stored hash (an absent hash is checked as
/// the empty text): the stored text must be a PHC hash, and then the
/// password matches exactly when it verifies against it.
pub fn check_password(stored_hash: Option<&str>, password: &str) -> (r: PasswordCheck)
    ensures
        r == password_check(
            match stored_hash {
                Some(h) => h@,
                None => ""@,
            },
            password@,
        ),
{
    let text: &str = match stored_hash {
        Some(h) => h,
        None => "",
    };
    match parse_phc(text) {
        Ok(_) => {
            if verify_phc(password, text) {
                PasswordCheck::Matches
            } else {
                PasswordCheck::Mismatch
            }
        },
        Err(_) => PasswordCheck::InvalidStoredHash,
    }
}

/// The subject of the administrator's tokens.
pub open spec fn admin_subject() -> Seq<char> {
    "\"admin@gmail.com\""@
}

/// Whether a token subject is the administrator's.
pub fn is_admin(subject: &str) -> (r: bool)
    ensures
        r == (subject@ == admin_subject()),
{
    let a = chars_of(subject);
    let b = chars_of("\"admin@gmail.com\"");
    chars_equal(&a, &b)
}

/// What follows `prefix` at the start of `s`, if `s` starts with it.
pub open spec fn after_prefix(s: Seq<char>, prefix: Seq<char>) -> Option<Seq<char>> {
    if prefix.len() <= s.len() && s.take(prefix.len() as int) == prefix {
        Some(s.skip(prefix.len() as int))
    } else {
        None
    }
}

/// Strips a prefix.
pub fn strip_prefix_chars(s: &Vec<char>, prefix: &Vec<char>) -> (r: Option<Vec<char>>)
    ensures
        match r {
            Some(rest) => after_prefix(s@, prefix@) == Some(rest@),
            None => after_prefix(s@, prefix@) is None,
        },
{
    if prefix.len() > s.len() {
        return None;
    }
    let mut i: usize = 0;
    while i < prefix.len()
        invariant
            prefix@.len() <= s@.len(),
            i <= prefix@.len(),
            forall|k: int| 0 <= k < i ==> s@[k] == prefix@[k],
        decreases prefix@.len() - i,
    {
        if s[i] != prefix[i] {
            assert(s@.take(prefix@.len() as int)[i as int] != prefix@[i as int]);
            return None;
        }
        i = i + 1;
    }
    assert(s@.take(prefix@.len() as int) =~= prefix@);
    let mut rest: Vec<char> = Vec::new();
    let mut j: usize = prefix.len();
    while j < s.len()
        invariant
            prefix@.len() <= j <= s@.len(),
            rest@ == s@.subrange(prefix@.len() as int, j as int),
        decreases s@.len() - j,
    {
        rest.push(s[j]);
        j = j + 1;
        assert(rest@ =~= s@.subrange(prefix@.len() as int, j as int));
    }
    assert(rest@ =~= s@.skip(prefix@.len() as int));
    Some(rest)
}

/// The token of an `Authorization` header: what follows "Bearer ".
pub fn bearer_token(header: &str) -> (r: Option<String>)
    ensures
        match r {
            Some(t) => after_prefix(header@, "Bearer "@) == Some(t@),
            None => after_prefix(header@, "Bearer "@) is None,
        },
{
    let h = chars_of(header);
    let p = chars_of("Bearer ");
    match strip_prefix_chars(&h, &p) {
        Some(rest) => Some(string_from_chars(&rest)),
        None => None,
    }
}

/// The claims of an access token.
#[derive(Clone, Debug)]
pub struct Claims {
    pub sub: String,
    pub iat: usize,
    pub exp: usize,
}

/// The claims of a refresh token.
#[derive(Clone, Debug)]
pub struct RefreshClaims {
    pub sub: String,
    pub iat: usize,
    pub exp: usize,
}

/// How long an access token lives, in seconds: 15 minutes.
pub const ACCESS_TOKEN_TTL: usize = 900;

/// How long a refresh token lives, in seconds: one day.
pub const REFRESH_TOKEN_TTL: usize = 86_400;

/// The claims of an access token issued at `now` (seconds since the Unix
/// epoch): it expires 15 minutes later.
pub fn access_claims(subject: String, now: usize) -> (c: Claims)
    requires
        now + ACCESS_TOKEN_TTL <= usize::MAX,
    ensures
        c.sub == subject,
        c.iat == now,
        c.exp == now + ACCESS_TOKEN_TTL,
{
    Claims { sub: subject, iat: now, exp: now + ACCESS_TOKEN_TTL }
}

/// The claims of a refresh token issued at `now`: it expires a day later.
pub fn refresh_claims(subject: String, now: usize) -> (c: RefreshClaims)
    requires
        now + REFRESH_TOKEN_TTL <= usize::MAX,
    ensures
        c.sub == subject,
        c.iat == now,
        c.exp == now + REFRESH_TOKEN_TTL,
{
    RefreshClaims { sub: subject, iat: now, exp: now + REFRESH_TOKEN_TTL }
}

/// The current Unix time in seconds as a `usize`
/// (`Utc::now().timestamp() as usize`); it is a clock reading, so nothing is
/// promised of it.
#[verifier::external_body]
fn unix_seconds() -> usize {
    chrono::Utc::now().timestamp() as usize
}

/// The claims of an access token issued at `now`; `None` when `now` is too
/// late to add the lifetime to.
pub fn access_claims_at(subject: String, now: usize) -> (c: Option<Claims>)
    ensures
        c is None <==> now > usize::MAX - ACCESS_TOKEN_TTL,
        c matches Some(cl) ==> cl.sub == subject && cl.iat == now && cl.exp == now
            + ACCESS_TOKEN_TTL,
{
    if now > usize::MAX - ACCESS_TOKEN_TTL {
        None
    } else {
        Some(access_claims(subject, now))
    }
}

/// The claims of a refresh token issued at `now`; `None` when `now` is too
/// late to add the lifetime to.
pub fn refresh_claims_at(subject: String, now: usize) -> (c: Option<RefreshClaims>)
    ensures
        c is None <==> now > usize::MAX - REFRESH_TOKEN_TTL,
        c matches Some(cl) ==> cl.sub == subject && cl.iat == now && cl.exp == now
            + REFRESH_TOKEN_TTL,
{
    if now > usize::MAX - REFRESH_TOKEN_TTL {
        None
    } else {
        Some(refresh_claims(subject, now))
    }
}

/// The JSON Web Token that `jsonwebtoken::encode` makes with the default
/// header (HS256, "JWT") of the claims object {"exp", "iat", "sub"} under the
/// secret's bytes. HMAC signing is deterministic, so the token is a function
/// of the claims and the secret.
pub uninterp spec fn hs256_token(sub: Seq<char>, iat: int, exp: int, secret: Seq<char>) -> Seq<char>;

/// The claims a token carries under a secret: `Some((sub, iat, exp))` when
/// the token is three dot-separated parts whose header names HS256, whose
/// HS256 signature verifies under the secret's bytes, and whose payload is a
/// JSON object with a string "sub" and whole-number "iat" and "exp" that fit
/// a `usize`; `None` otherwise. It depends on the two texts alone.
pub uninterp spec fn hs256_claims(token: Seq<char>, secret: Seq<char>) -> Option<(Seq<char>, int, int)>;

/// `jsonwebtoken::encode` with the default header of the claims object
/// {"sub", "iat", "exp"} under `EncodingKey::from_secret` of the secret's
/// bytes. Encoding a JSON object with an HMAC key never fails, the token is
/// `hs256_token` of the claims, and the same secret verifies it and reads
/// those claims back.
#[verifier::external_body]
fn encode_token(sub: &str, iat: usize, exp: usize, secret: &str) -> (t: Option<String>)
    ensures
        t is Some,
        t matches Some(x) ==> x@ == hs256_token(sub@, iat as int, exp as int, secret@),
        t matches Some(x) ==> hs256_claims(x@, secret@) == Some((sub@, iat as int, exp as int)),
{
    let mut claims = serde_json::Map::new();
    claims.insert("sub".to_owned(), serde_json::Value::from(sub));
    claims.insert("iat".to_owned(), serde_json::Value::from(iat));
    claims.insert("exp".to_owned(), serde_json::Value::from(exp));
    let key = jsonwebtoken::EncodingKey::from_secret(secret.as_bytes());
    jsonwebtoken::encode(&jsonwebtoken::Header::default(), &claims, &key).ok()
}

/// `jsonwebtoken::decode` of the token under `DecodingKey::from_secret` of
/// the secret's bytes with `Validation::default()`, read as a JSON object,
/// and its "sub", "iat" and "exp". Validation also rejects a token that has
/// expired by the clock, so only what holds of every outcome is stated: a
/// result is the claims the token carries under the secret.
#[verifier::external_body]
fn decode_token(token: &str, secret: &str) -> (c: Option<(String, usize, usize)>)
    ensures
        c matches Some(cl) ==> hs256_claims(token@, secret@) == Some((cl.0@, cl.1 as int, cl.2 as int)),
{
    let key = jsonwebtoken::DecodingKey::from_secret(secret.as_bytes());
    let validation = jsonwebtoken::Validation::default();
    let data = jsonwebtoken::decode::<serde_json::Map<String, serde_json::Value>>(token, &key, &validation).ok()?;
    let sub = data.claims.get("sub")?.as_str()?.to_owned();
    let iat = usize::try_from(data.claims.get("iat")?.as_u64()?).ok()?;
    let exp = usize::try_from(data.claims.get("exp")?.as_u64()?).ok()?;
    Some((sub, iat, exp))
}

/// The signed access token of `subject` issued at `now`, valid 15 minutes;
/// `None` when `now` is too late to add the lifetime to.
pub fn access_token_at(subject: String, now: usize, secret: &str) -> (t: Option<String>)
    ensures
        t is None <==> now > usize::MAX - ACCESS_TOKEN_TTL,
        t matches Some(x) ==> x@ == hs256_token(subject@, now as int, now + ACCESS_TOKEN_TTL, secret@),
        t matches Some(x) ==> hs256_claims(x@, secret@) == Some(
            (subject@, now as int, now + ACCESS_TOKEN_TTL),
        ),
{
    match access_claims_at(subject, now) {
        None => None,
        Some(c) => encode_token(c.sub.as_str(), c.iat, c.exp, secret),
    }
}

/// The signed refresh token of `subject` issued at `now`, valid a day;
/// `None` when `now` is too late to add the lifetime to.
pub fn refresh_token_at(subject: String, now: usize, secret: &str) -> (t: Option<String>)
    ensures
        t is None <==> now > usize::MAX - REFRESH_TOKEN_TTL,
        t matches Some(x) ==> x@ == hs256_token(subject@, now as int, now + REFRESH_TOKEN_TTL, secret@),
        t matches Some(x) ==> hs256_claims(x@, secret@) == Some(
            (subject@, now as int, now + REFRESH_TOKEN_TTL),
        ),
{
    match refresh_claims_at(subject, now) {
        None => None,
        Some(c) => encode_token(c.sub.as_str(), c.iat, c.exp, secret),
    }
}

/// The access token of `email` issued now, valid 15 minutes; `None` when
/// the clock reads a time too late to add the lifetime to.
pub fn jwt_encode(email: String, secret: &str) -> (t: Option<String>)
    ensures
        t matches Some(x) ==> exists|now: usize|
            now <= usize::MAX - ACCESS_TOKEN_TTL && x@ == #[trigger] hs256_token(
                email@,
                now as int,
                now + ACCESS_TOKEN_TTL,
                secret@,
            ) && hs256_claims(x@, secret@) == Some((email@, now as int, now + ACCESS_TOKEN_TTL)),
{
    let now = unix_seconds();
    let ghost e = email@;
    let t = access_token_at(email, now, secret);
    assert(t matches Some(x) ==> now <= usize::MAX - ACCESS_TOKEN_TTL && x@ == hs256_token(
        e,
        now as int,
        now + ACCESS_TOKEN_TTL,
        secret@,
    ));
    t
}

/// The refresh token of `email` issued now, valid a day; `None` when the
/// clock reads a time too late to add the lifetime to.
pub fn refresh_token_encode(email: String, secret: &str) -> (t: Option<String>)
    ensures
        t matches Some(x) ==> exists|now: usize|
            now <= usize::MAX - REFRESH_TOKEN_TTL && x@ == #[trigger] hs256_token(
                email@,
                now as int,
                now + REFRESH_TOKEN_TTL,
                secret@,
            ) && hs256_claims(x@, secret@) == Some((email@, now as int, now + REFRESH_TOKEN_TTL)),
{
    let now = unix_seconds();
    let ghost e = email@;
    let t = refresh_token_at(email, now, secret);
    assert(t matches Some(x) ==> now <= usize::MAX - REFRESH_TOKEN_TTL && x@ == hs256_token(
        e,
        now as int,
        now + REFRESH_TOKEN_TTL,
        secret@,
    ));
    t
}

/// The claims of a token that verifies under the secret and has not
/// expired; a result is the claims the token carries under the secret.
pub fn decode_token_claims(token: &str, secret: &str) -> (c: Option<Claims>)
    ensures
        c matches Some(cl) ==> hs256_claims(token@, secret@) == Some(
            (cl.sub@, cl.iat as int, cl.exp as int),
        ),
{
    match decode_token(token, secret) {
        Some((sub, iat, exp)) => Some(Claims { sub, iat, exp }),
        None => None,
    }
}

/// The claims a request is authorized with: the `Authorization` header must
/// read "Bearer " and a token, and the token must verify under the secret
/// and not have expired. No bearer token gives `None`; claims given are the
/// ones that token carries under the secret.
pub fn authorize(header: &str, secret: &str) -> (c: Option<Claims>)
    ensures
        after_prefix(header@, "Bearer "@) is None ==> c is None,
        c matches Some(cl) ==> (after_prefix(header@, "Bearer "@) is Some && hs256_claims(
            after_prefix(header@, "Bearer "@)->0,
            secret@,
        ) == Some((cl.sub@, cl.iat as int, cl.exp as int))),
{
    match bearer_token(header) {
        Some(token) => decode_token_claims(token.as_str(), secret),
        None => None,
    }
}

/// The profile fields of a registration, with defaults for missing ones.
#[derive(Clone, Debug)]
pub struct RegistrationFields {
    pub name: String,
    pub username: String,
    pub email: String,
    pub dob: String,
}

fn owned_or(given: Option<&str>, default: &str) -> (r: String)
    ensures
        r@ == match given {
            Some(t) => t@,
            None => default@,
        },
{
    match given {
        Some(t) => t.to_owned(),
        None => default.to_owned(),
    }
}

/// The profile fields of a registration: a missing name is "Unknown", a
/// missing username "unknown", a missing email "unknown@example.com" and a
/// missing date of birth "1970-01-01".
pub fn registration_fields(
    name: Option<&str>,
    username: Option<&str>,
    email: Option<&str>,
    dob: Option<&str>,
) -> (f: RegistrationFields)
    ensures
        f.name@ == match name {
            Some(t) => t@,
            None => "Unknown"@,
        },
        f.username@ == match username {
            Some(t) => t@,
            None => "unknown"@,
        },
        f.email@ == match email {
            Some(t) => t@,
            None => "unknown@example.com"@,
        },
        f.dob@ == match dob {
            Some(t) => t@,
            None => "1970-01-01"@,
        },
{
    RegistrationFields {
        name: owned_or(name, "Unknown"),
        username: owned_or(username, "unknown"),
        email: owned_or(email, "unknown@example.com"),
        dob: owned_or(dob, "1970-01-01"),
    }
}

/// Whether a new user still has to complete their profile: unless the
/// profile is known to be complete.
pub fn needs_profile_completion(is_profile_complete: Option<bool>) -> (r: bool)
    ensures
        r == !(is_profile_complete == Some(true)),
{
    match is_profile_complete {
        Some(c) => !c,
        None => true,
    }
}

} // verus!
