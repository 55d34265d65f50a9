//! Session tokens: HMAC-signed claim sets, and the identity that a verified
//! token carries.
use serde_json::Value;
use std::collections::BTreeMap;
use vstd::prelude::*;

verus! {

/// The value of one claim, as far as the identity logic reads it.
pub enum ClaimValue {
    Text(String),
    /// A JSON number: `Some` when it is an integer that fits in `i64`.
    Number(Option<i64>),
    Flag(bool),
    /// `null`, an array or an object.
    Other,
}

pub ghost enum ClaimModel {
    Text(Seq<char>),
    Number(Option<i64>),
    Flag(bool),
    Other,
}

impl View for ClaimValue {
    type V = ClaimModel;

    open spec fn view(&self) -> ClaimModel {
        match self {
            ClaimValue::Text(s) => ClaimModel::Text(s@),
            ClaimValue::Number(n) => ClaimModel::Number(*n),
            ClaimValue::Flag(b) => ClaimModel::Flag(*b),
            ClaimValue::Other => ClaimModel::Other,
        }
    }
}

/// A named claim.
pub struct Claim {
    pub name: String,
    pub value: ClaimValue,
}

impl View for Claim {
    type V = (Seq<char>, ClaimModel);

    open spec fn view(&self) -> (Seq<char>, ClaimModel) {
        (self.name@, self.value@)
    }
}

pub open spec fn claims_view(cs: Seq<Claim>) -> Seq<(Seq<char>, ClaimModel)> {
    cs.map_values(|c: Claim| c@)
}

/// The value of the first claim called `name`.
pub open spec fn claim_lookup(cs: Seq<(Seq<char>, ClaimModel)>, name: Seq<char>) -> Option<ClaimModel>
    decreases cs.len(),
{
    if cs.len() == 0 {
        None
    } else if cs[0].0 == name {
        Some(cs[0].1)
    } else {
        claim_lookup(cs.drop_first(), name)
    }
}

pub open spec fn text_claim(cs: Seq<(Seq<char>, ClaimModel)>, name: Seq<char>) -> Option<Seq<char>> {
    match claim_lookup(cs, name) {
        Some(ClaimModel::Text(s)) => Some(s),
        _ => None,
    }
}

pub open spec fn int_claim(cs: Seq<(Seq<char>, ClaimModel)>, name: Seq<char>) -> Option<i64> {
    match claim_lookup(cs, name) {
        Some(ClaimModel::Number(Some(i))) => Some(i),
        _ => None,
    }
}

pub open spec fn flag_claim(cs: Seq<(Seq<char>, ClaimModel)>, name: Seq<char>) -> Option<bool> {
    match claim_lookup(cs, name) {
        Some(ClaimModel::Flag(b)) => Some(b),
        _ => None,
    }
}

pub open spec fn sub_claim() -> Seq<char> {
    seq!['s', 'u', 'b']
}

pub open spec fn email_claim() -> Seq<char> {
    seq!['e', 'm', 'a', 'i', 'l']
}

pub open spec fn email_verified_claim() -> Seq<char> {
    seq!['e', 'm', 'a', 'i', 'l', '_', 'v', 'e', 'r', 'i', 'f', 'i', 'e', 'd']
}

pub open spec fn name_claim() -> Seq<char> {
    seq!['n', 'a', 'm', 'e']
}

pub open spec fn given_name_claim() -> Seq<char> {
    seq!['g', 'i', 'v', 'e', 'n', '_', 'n', 'a', 'm', 'e']
}

pub open spec fn family_name_claim() -> Seq<char> {
    seq!['f', 'a', 'm', 'i', 'l', 'y', '_', 'n', 'a', 'm', 'e']
}

pub open spec fn picture_claim() -> Seq<char> {
    seq!['p', 'i', 'c', 't', 'u', 'r', 'e']
}

pub open spec fn expiry_claim() -> Seq<char> {
    seq!['e', 'x', 'p', 'i', 'r', 'y']
}

/// The identity asserted by a session token.
pub struct GoogleUser {
    pub sub: String,
    pub email: String,
    pub verified_email: bool,
    pub name: String,
    pub given_name: String,
    pub family_name: Option<String>,
    pub picture: Option<String>,
    /// Unix seconds after which the token is refused.
    pub expiry: Option<i64>,
}

pub open spec fn opt_text(o: Option<String>) -> Option<Seq<char>> {
    match o {
        Some(s) => Some(s@),
        None => None,
    }
}

/// Why a request's session token was refused.
#[derive(Clone, Copy, Debug, PartialEq, Eq, Structural)]
pub enum AuthError {
    MissingHeader,
    InvalidTokenFormat,
    InvalidToken,
    MissingSub,
    MissingExpiry,
    Expired,
    MissingEmail,
    MissingName,
    MissingGivenName,
}

pub open spec fn auth_error_text(e: AuthError) -> Seq<char> {
    match e {
        AuthError::MissingHeader => "Missing Authorization header"@,
        AuthError::InvalidTokenFormat => "Invalid token format"@,
        AuthError::InvalidToken => "Invalid token"@,
        AuthError::MissingSub => "Missing sub claim"@,
        AuthError::MissingExpiry => "Missing or invalid expiry claim"@,
        AuthError::Expired => "Token expired"@,
        AuthError::MissingEmail => "Missing email claim"@,
        AuthError::MissingName => "Missing name claim"@,
        AuthError::MissingGivenName => "Missing given_name claim"@,
    }
}

impl AuthError {
    /// The message of the 401 answer.
    pub fn message(&self) -> (r: &'static str)
        ensures
            r@ == auth_error_text(*self),
    {
        match self {
            AuthError::MissingHeader => "Missing Authorization header",
            AuthError::InvalidTokenFormat => "Invalid token format",
            AuthError::InvalidToken => "Invalid token",
            AuthError::MissingSub => "Missing sub claim",
            AuthError::MissingExpiry => "Missing or invalid expiry claim",
            AuthError::Expired => "Token expired",
            AuthError::MissingEmail => "Missing email claim",
            AuthError::MissingName => "Missing name claim",
            AuthError::MissingGivenName => "Missing given_name claim",
        }
    }

    /// Every refusal is answered with 401.
    pub fn status_code(&self) -> (r: u16)
        ensures
            r == 401,
    {
        401
    }
}

/// The first claim check that `cs` fails at time `now`, if any.
pub open spec fn claims_error(cs: Seq<(Seq<char>, ClaimModel)>, now: i64) -> Option<AuthError> {
    if text_claim(cs, sub_claim()) is None {
        Some(AuthError::MissingSub)
    } else if int_claim(cs, expiry_claim()) is None {
        Some(AuthError::MissingExpiry)
    } else if now > int_claim(cs, expiry_claim())->0 {
        Some(AuthError::Expired)
    } else if text_claim(cs, email_claim()) is None {
        Some(AuthError::MissingEmail)
    } else if text_claim(cs, name_claim()) is None {
        Some(AuthError::MissingName)
    } else if text_claim(cs, given_name_claim()) is None {
        Some(AuthError::MissingGivenName)
    } else {
        None
    }
}

/// `u` is the identity that the claims `cs` describe.
pub open spec fn user_of_claims(u: GoogleUser, cs: Seq<(Seq<char>, ClaimModel)>) -> bool {
    &&& Some(u.sub@) == text_claim(cs, sub_claim())
    &&& Some(u.email@) == text_claim(cs, email_claim())
    &&& u.verified_email == (flag_claim(cs, email_verified_claim()) == Some(true))
    &&& Some(u.name@) == text_claim(cs, name_claim())
    &&& Some(u.given_name@) == text_claim(cs, given_name_claim())
    &&& opt_text(u.family_name) == text_claim(cs, family_name_claim())
    &&& opt_text(u.picture) == text_claim(cs, picture_claim())
    &&& u.expiry == int_claim(cs, expiry_claim())
}

/// The claims that a token minted for `u` carries: the mandatory ones, then
/// `family_name`, `picture` and `expiry` where `u` has them.
pub open spec fn user_claims(u: GoogleUser) -> Seq<(Seq<char>, ClaimModel)> {
    let base = seq![
        (sub_claim(), ClaimModel::Text(u.sub@)),
        (email_claim(), ClaimModel::Text(u.email@)),
        (email_verified_claim(), ClaimModel::Flag(u.verified_email)),
        (name_claim(), ClaimModel::Text(u.name@)),
        (given_name_claim(), ClaimModel::Text(u.given_name@)),
    ];
    let with_family = match u.family_name {
        Some(f) => base.push((family_name_claim(), ClaimModel::Text(f@))),
        None => base,
    };
    let with_picture = match u.picture {
        Some(p) => with_family.push((picture_claim(), ClaimModel::Text(p@))),
        None => with_family,
    };
    match u.expiry {
        Some(e) => with_picture.push((expiry_claim(), ClaimModel::Number(Some(e)))),
        None => with_picture,
    }
}

fn find_claim<'a>(claims: &'a Vec<Claim>, name: &String) -> (r: Option<&'a ClaimValue>)
    ensures
        match r {
            Some(v) => claim_lookup(claims_view(claims@), name@) == Some(v@),
            None => claim_lookup(claims_view(claims@), name@) is None,
        },
{
    let ghost cv = claims_view(claims@);
    let mut i: usize = 0;
    assert(cv.skip(0) =~= cv);
    while i < claims.len()
        invariant
            i <= claims@.len(),
            cv == claims_view(claims@),
            claim_lookup(cv, name@) == claim_lookup(cv.skip(i as int), name@),
        decreases claims.len() - i,
    {
        assert(cv.skip(i as int)[0] == claims@[i as int]@);
        if claims[i].name == *name {
            return Some(&claims[i].value);
        }
        assert(cv.skip(i as int).drop_first() =~= cv.skip(i + 1));
        i = i + 1;
    }
    None
}

fn text_of(claims: &Vec<Claim>, name: &String) -> (r: Option<String>)
    ensures
        opt_text(r) == text_claim(claims_view(claims@), name@),
{
    match find_claim(claims, name) {
        Some(ClaimValue::Text(s)) => Some(s.clone()),
        _ => None,
    }
}

fn owned(s: &str) -> (r: String)
    ensures
        r@ == s@,
{
    s.to_owned()
}

/// The identity that verified claims describe, checked at time `now` (Unix
/// seconds): `sub`, `email`, `name` and `given_name` must be strings and
/// `expiry` an integer not before `now`; `email_verified` defaults to false,
/// and `family_name` and `picture` may be absent.
pub fn user_from_claims(claims: &Vec<Claim>, now: i64) -> (r: Result<GoogleUser, AuthError>)
    ensures
        match r {
            Ok(u) => claims_error(claims_view(claims@), now) is None && user_of_claims(
                u,
                claims_view(claims@),
            ),
            Err(e) => claims_error(claims_view(claims@), now) == Some(e),
        },
{
    proof {
        reveal_strlit("sub");
        reveal_strlit("expiry");
        reveal_strlit("email");
        reveal_strlit("email_verified");
        reveal_strlit("name");
        reveal_strlit("given_name");
        reveal_strlit("family_name");
        reveal_strlit("picture");
    }
    let sub_key = owned("sub");
    let expiry_key = owned("expiry");
    let email_key = owned("email");
    let verified_key = owned("email_verified");
    let name_key = owned("name");
    let given_key = owned("given_name");
    let family_key = owned("family_name");
    let picture_key = owned("picture");
    assert(sub_key@ =~= sub_claim());
    assert(expiry_key@ =~= expiry_claim());
    assert(email_key@ =~= email_claim());
    assert(verified_key@ =~= email_verified_claim());
    assert(name_key@ =~= name_claim());
    assert(given_key@ =~= given_name_claim());
    assert(family_key@ =~= family_name_claim());
    assert(picture_key@ =~= picture_claim());
    let sub = match text_of(claims, &sub_key) {
        Some(s) => s,
        None => {
            return Err(AuthError::MissingSub);
        },
    };
    let expiry = match find_claim(claims, &expiry_key) {
        Some(ClaimValue::Number(Some(e))) => *e,
        _ => {
            return Err(AuthError::MissingExpiry);
        },
    };
    if now > expiry {
        return Err(AuthError::Expired);
    }
    let email = match text_of(claims, &email_key) {
        Some(s) => s,
        None => {
            return Err(AuthError::MissingEmail);
        },
    };
    let verified_email = match find_claim(claims, &verified_key) {
        Some(ClaimValue::Flag(b)) => *b,
        _ => false,
    };
    let name = match text_of(claims, &name_key) {
        Some(s) => s,
        None => {
            return Err(AuthError::MissingName);
        },
    };
    let given_name = match text_of(claims, &given_key) {
        Some(s) => s,
        None => {
            return Err(AuthError::MissingGivenName);
        },
    };
    let family_name = text_of(claims, &family_key);
    let picture = text_of(claims, &picture_key);
    Ok(GoogleUser {
        sub,
        email,
        verified_email,
        name,
        given_name,
        family_name,
        picture,
        expiry: Some(expiry),
    })
}

impl GoogleUser {
    /// The claims of a token minted for this identity.
    pub fn to_claims(&self) -> (r: Vec<Claim>)
        ensures
            claims_view(r@) == user_claims(*self),
    {
        proof {
            reveal_strlit("sub");
            reveal_strlit("expiry");
            reveal_strlit("email");
            reveal_strlit("email_verified");
            reveal_strlit("name");
            reveal_strlit("given_name");
            reveal_strlit("family_name");
            reveal_strlit("picture");
        }
        let sub_key = owned("sub");
        let email_key = owned("email");
        let verified_key = owned("email_verified");
        let name_key = owned("name");
        let given_key = owned("given_name");
        assert(sub_key@ =~= sub_claim());
        assert(email_key@ =~= email_claim());
        assert(verified_key@ =~= email_verified_claim());
        assert(name_key@ =~= name_claim());
        assert(given_key@ =~= given_name_claim());
        let mut r: Vec<Claim> = Vec::new();
        r.push(Claim { name: sub_key, value: ClaimValue::Text(self.sub.clone()) });
        r.push(Claim { name: email_key, value: ClaimValue::Text(self.email.clone()) });
        r.push(Claim { name: verified_key, value: ClaimValue::Flag(self.verified_email) });
        r.push(Claim { name: name_key, value: ClaimValue::Text(self.name.clone()) });
        r.push(Claim { name: given_key, value: ClaimValue::Text(self.given_name.clone()) });
        let ghost base = claims_view(r@);
        match &self.family_name {
            Some(f) => {
                let key = owned("family_name");
                assert(key@ =~= family_name_claim());
                r.push(Claim { name: key, value: ClaimValue::Text(f.clone()) });
            },
            None => {},
        }
        let ghost with_family = claims_view(r@);
        match &self.picture {
            Some(p) => {
                let key = owned("picture");
                assert(key@ =~= picture_claim());
                r.push(Claim { name: key, value: ClaimValue::Text(p.clone()) });
            },
            None => {},
        }
        let ghost with_picture = claims_view(r@);
        match self.expiry {
            Some(e) => {
                let key = owned("expiry");
                assert(key@ =~= expiry_claim());
                r.push(Claim { name: key, value: ClaimValue::Number(Some(e)) });
            },
            None => {},
        }
        proof {
            let u = *self;
            assert(base =~= seq![
                (sub_claim(), ClaimModel::Text(u.sub@)),
                (email_claim(), ClaimModel::Text(u.email@)),
                (email_verified_claim(), ClaimModel::Flag(u.verified_email)),
                (name_claim(), ClaimModel::Text(u.name@)),
                (given_name_claim(), ClaimModel::Text(u.given_name@)),
            ]);
            assert(with_family =~= match u.family_name {
                Some(f) => base.push((family_name_claim(), ClaimModel::Text(f@))),
                None => base,
            });
            assert(with_picture =~= match u.picture {
                Some(p) => with_family.push((picture_claim(), ClaimModel::Text(p@))),
                None => with_family,
            });
            assert(claims_view(r@) =~= user_claims(u));
        }
        r
    }
}

proof fn lemma_lookup_found(cs: Seq<(Seq<char>, ClaimModel)>, name: Seq<char>, i: int)
    requires
        0 <= i < cs.len(),
        cs[i].0 == name,
        forall|j: int| 0 <= j < i ==> cs[j].0 != name,
    ensures
        claim_lookup(cs, name) == Some(cs[i].1),
    decreases i,
{
    if i > 0 {
        lemma_lookup_found(cs.drop_first(), name, i - 1);
    }
}

proof fn lemma_lookup_absent(cs: Seq<(Seq<char>, ClaimModel)>, name: Seq<char>)
    requires
        forall|j: int| 0 <= j < cs.len() ==> cs[j].0 != name,
    ensures
        claim_lookup(cs, name) is None,
    decreases cs.len(),
{
    if cs.len() > 0 {
        lemma_lookup_absent(cs.drop_first(), name);
    }
}

/// Finds `name` in `cs` where it stands once, or not at all.
proof fn lemma_lookup_unique(cs: Seq<(Seq<char>, ClaimModel)>, name: Seq<char>)
    requires
        forall|i: int, j: int| 0 <= i < j < cs.len() ==> cs[i].0 != cs[j].0,
    ensures
        forall|i: int| 0 <= i < cs.len() && cs[i].0 == name ==> claim_lookup(cs, name) == Some(cs[i].1),
        (forall|i: int| 0 <= i < cs.len() ==> cs[i].0 != name) ==> claim_lookup(cs, name) is None,
{
    assert forall|i: int| 0 <= i < cs.len() && cs[i].0 == name implies claim_lookup(cs, name) == Some(cs[i].1) by {
        lemma_lookup_found(cs, name, i);
    }
    if forall|i: int| 0 <= i < cs.len() ==> cs[i].0 != name {
        lemma_lookup_absent(cs, name);
    }
}

/// Reading back the claims minted for an identity whose expiry is not before
/// `now` succeeds, and gives that identity again, field for field.
pub proof fn lemma_claims_round_trip(u: GoogleUser, now: i64)
    requires
        u.expiry matches Some(e) && now <= e,
    ensures
        claims_error(user_claims(u), now) is None,
        user_of_claims(u, user_claims(u)),
{
    let cs = user_claims(u);
    assert forall|i: int, j: int| 0 <= i < j < cs.len() implies cs[i].0 != cs[j].0 by {
        assert(cs[i].0.len() != cs[j].0.len());
    }
    lemma_lookup_unique(cs, sub_claim());
    lemma_lookup_unique(cs, email_claim());
    lemma_lookup_unique(cs, email_verified_claim());
    lemma_lookup_unique(cs, name_claim());
    lemma_lookup_unique(cs, given_name_claim());
    lemma_lookup_unique(cs, family_name_claim());
    lemma_lookup_unique(cs, picture_claim());
    lemma_lookup_unique(cs, expiry_claim());
    assert(cs[0].0 == sub_claim());
    assert(cs[1].0 == email_claim());
    assert(cs[2].0 == email_verified_claim());
    assert(cs[3].0 == name_claim());
    assert(cs[4].0 == given_name_claim());
    assert(cs[cs.len() - 1].0 == expiry_claim());
    if u.family_name is Some {
        assert(cs[5].0 == family_name_claim());
    } else {
        assert forall|i: int| 0 <= i < cs.len() implies cs[i].0 != family_name_claim() by {
            assert(cs[i].0.len() != family_name_claim().len());
        }
    }
    if u.picture is Some {
        let k = if u.family_name is Some { 6int } else { 5int };
        assert(cs[k].0 == picture_claim());
    } else {
        assert forall|i: int| 0 <= i < cs.len() implies cs[i].0 != picture_claim() by {
            assert(cs[i].0.len() != picture_claim().len());
        }
    }
}

#[verifier::external_type_specification]
#[verifier::external_body]
pub struct ExJwtError(jwt::Error);

/// The token that jwt's `sign_with_key` makes for a claim set under an
/// HMAC-SHA256 key, or `None` where it fails.
pub uninterp spec fn jwt_token_of(secret: Seq<u8>, claims: Seq<(Seq<char>, ClaimModel)>) -> Option<Seq<char>>;

/// The claims that jwt's `verify_with_key` reads from a token under an
/// HMAC-SHA256 key, or `None` where it refuses the token.
pub uninterp spec fn jwt_claims_of(secret: Seq<u8>, token: Seq<char>) -> Option<Seq<(Seq<char>, ClaimModel)>>;

/// The server-wide secret that session tokens are signed with.
pub struct JwtKey {
    pub secret: Vec<u8>,
}

impl JwtKey {
    /// A key over `secret`. HMAC takes a key of any length, so this always
    /// succeeds.
    pub fn new(secret: &[u8]) -> (r: Result<JwtKey, jwt::Error>)
        ensures
            r matches Ok(k) && k.secret@ == secret@,
    {
        let mut bytes: Vec<u8> = Vec::new();
        let mut i: usize = 0;
        while i < secret.len()
            invariant
                i <= secret@.len(),
                bytes@ == secret@.subrange(0, i as int),
            decreases secret.len() - i,
        {
            bytes.push(secret[i]);
            assert(bytes@ =~= secret@.subrange(0, i + 1));
            i = i + 1;
        }
        assert(bytes@ =~= secret@);
        Ok(JwtKey { secret: bytes })
    }

    /// Relies on jwt's `SignWithKey` for a `BTreeMap<&str, Value>`
    /// under `Hmac<Sha256>`: the token depends on the key and the claims
    /// alone, and `VerifyWithKey` under the same key reads back the map that
    /// was signed: the claims sorted by name, the last of a repeated name
    /// kept, each value as JSON gives it back (`Number(None)` was `null`).
    #[verifier::external_body]
    pub fn sign(&self, claims: &Vec<Claim>) -> (r: Result<String, jwt::Error>)
        ensures
            match r {
                Ok(t) => jwt_token_of(self.secret@, claims_view(claims@)) == Some(t@),
                Err(_) => jwt_token_of(self.secret@, claims_view(claims@)) is None,
            },
            r matches Ok(t) ==> (jwt_claims_of(self.secret@, t@) matches Some(e) && name_sorted(e)
                && lists_claims(e, claims_view(claims@))),
    {
        let key = <hmac::Hmac<sha2::Sha256> as hmac::Mac>::new_from_slice(&self.secret)
            .expect("HMAC takes a key of any length");
        let map: BTreeMap<&str, Value> = claims.iter().map(|c| (c.name.as_str(), match &c.value {
            ClaimValue::Text(s) => Value::from(s.as_str()),
            ClaimValue::Number(Some(n)) => Value::from(*n),
            ClaimValue::Flag(b) => Value::Bool(*b),
            _ => Value::Null,
        })).collect();
        jwt::SignWithKey::sign_with_key(&map, &key)
    }

    /// Relies on jwt's `VerifyWithKey` into a `BTreeMap<String, Value>`
    /// under `Hmac<Sha256>`: the outcome depends on the key and the token alone.
    #[verifier::external_body]
    pub fn verify(&self, token: &str) -> (r: Result<Vec<Claim>, jwt::Error>)
        ensures
            match r {
                Ok(c) => jwt_claims_of(self.secret@, token@) == Some(claims_view(c@)),
                Err(_) => jwt_claims_of(self.secret@, token@) is None,
            },
    {
        let key = <hmac::Hmac<sha2::Sha256> as hmac::Mac>::new_from_slice(&self.secret)
            .expect("HMAC takes a key of any length");
        let map: BTreeMap<String, Value> = jwt::VerifyWithKey::verify_with_key(token, &key)?;
        Ok(map.into_iter().map(|(name, v)| Claim { name, value: match v {
            Value::String(s) => ClaimValue::Text(s),
            Value::Number(n) => ClaimValue::Number(n.as_i64()),
            Value::Bool(b) => ClaimValue::Flag(b),
            _ => ClaimValue::Other,
        } }).collect())
    }
}

/// Relies on `str::strip_prefix`: what follows `prefix` in `s`, when `s`
/// starts with it.
#[verifier::external_body]
pub(crate) fn strip_prefix<'a>(s: &'a str, prefix: &str) -> (r: Option<&'a str>)
    ensures
        match r {
            Some(rest) => starts_with(s@, prefix@) && rest@ == s@.skip(prefix@.len() as int),
            None => !starts_with(s@, prefix@),
        },
{
    s.strip_prefix(prefix)
}

pub open spec fn starts_with(s: Seq<char>, prefix: Seq<char>) -> bool {
    prefix.len() <= s.len() && s.subrange(0, prefix.len() as int) == prefix
}

pub open spec fn bearer_prefix() -> Seq<char> {
    seq!['B', 'e', 'a', 'r', 'e', 'r', ' ']
}

/// What a request's `Authorization` header yields under `key` at time `now`.
pub open spec fn session_result_ok(
    header: Option<Seq<char>>,
    secret: Seq<u8>,
    now: i64,
    r: Result<GoogleUser, AuthError>,
) -> bool {
    match header {
        None => r == Err::<GoogleUser, AuthError>(AuthError::MissingHeader),
        Some(h) => if !starts_with(h, bearer_prefix()) {
            r == Err::<GoogleUser, AuthError>(AuthError::InvalidTokenFormat)
        } else {
            match jwt_claims_of(secret, h.skip(7)) {
                None => r == Err::<GoogleUser, AuthError>(AuthError::InvalidToken),
                Some(cs) => match r {
                    Ok(u) => claims_error(cs, now) is None && user_of_claims(u, cs),
                    Err(e) => claims_error(cs, now) == Some(e),
                },
            }
        },
    }
}

/// Authenticates a request by its `Authorization: Bearer <token>` header at
/// time `now` (Unix seconds).
pub fn authenticate(auth_header: Option<&str>, key: &JwtKey, now: i64) -> (r: Result<GoogleUser, AuthError>)
    ensures
        session_result_ok(
            match auth_header {
                Some(h) => Some(h@),
                None => None,
            },
            key.secret@,
            now,
            r,
        ),
{
    let header = match auth_header {
        Some(h) => h,
        None => {
            return Err(AuthError::MissingHeader);
        },
    };
    proof {
        reveal_strlit("Bearer ");
    }
    let prefix = "Bearer ";
    assert(prefix@ =~= bearer_prefix());
    let token = match strip_prefix(header, prefix) {
        Some(t) => t,
        None => {
            return Err(AuthError::InvalidTokenFormat);
        },
    };
    let claims = match key.verify(token) {
        Ok(c) => c,
        Err(_) => {
            return Err(AuthError::InvalidToken);
        },
    };
    user_from_claims(&claims, now)
}

/// How long a minted session token stays valid, in seconds.
pub const SESSION_TTL_SECS: i64 = 604800;

/// The expiry of a session minted at `now`: `SESSION_TTL_SECS` later, or the
/// largest time where that does not fit.
pub open spec fn session_expiry(now: i64) -> i64 {
    if now <= i64::MAX - SESSION_TTL_SECS {
        (now + SESSION_TTL_SECS) as i64
    } else {
        i64::MAX
    }
}

impl GoogleUser {
    /// The claims of a session token minted for this identity at `now`: its
    /// own claims, with `expiry` set to `session_expiry(now)`.
    pub fn session_claims(&self, now: i64) -> (r: Vec<Claim>)
        ensures
            claims_view(r@) == user_claims(GoogleUser { expiry: Some(session_expiry(now)), ..*self }),
    {
        let expiry = if now <= i64::MAX - SESSION_TTL_SECS {
            now + SESSION_TTL_SECS
        } else {
            i64::MAX
        };
        let session = GoogleUser {
            sub: self.sub.clone(),
            email: self.email.clone(),
            verified_email: self.verified_email,
            name: self.name.clone(),
            given_name: self.given_name.clone(),
            family_name: self.family_name.clone(),
            picture: self.picture.clone(),
            expiry: Some(expiry),
        };
        session.to_claims()
    }
}

/// Order of names as `String` orders them: by code point, lexicographically.
pub open spec fn chars_lt(a: Seq<char>, b: Seq<char>) -> bool
    decreases a.len(),
{
    if a.len() == 0 {
        b.len() > 0
    } else if b.len() == 0 {
        false
    } else if a[0] != b[0] {
        (a[0] as u32) < (b[0] as u32)
    } else {
        chars_lt(a.drop_first(), b.drop_first())
    }
}

proof fn lemma_chars_lt_irreflexive(a: Seq<char>)
    ensures
        !chars_lt(a, a),
    decreases a.len(),
{
    if a.len() > 0 {
        lemma_chars_lt_irreflexive(a.drop_first());
    }
}

/// Names strictly ascending.
pub open spec fn name_sorted(e: Seq<(Seq<char>, ClaimModel)>) -> bool {
    forall|i: int, j: int| 0 <= i < j < e.len() ==> chars_lt(#[trigger] e[i].0, #[trigger] e[j].0)
}

/// The value of the last claim called `name`.
pub open spec fn last_claim(cs: Seq<(Seq<char>, ClaimModel)>, name: Seq<char>) -> Option<ClaimModel>
    decreases cs.len(),
{
    if cs.len() == 0 {
        None
    } else if cs.last().0 == name {
        Some(cs.last().1)
    } else {
        last_claim(cs.drop_last(), name)
    }
}

/// A value as it reads back from JSON: a number that is not an `i64` was
/// written as `null`.
pub open spec fn read_back(v: ClaimModel) -> ClaimModel {
    match v {
        ClaimModel::Number(None) => ClaimModel::Other,
        _ => v,
    }
}

/// `e` lists each name of `cs` once, with the read-back value of its last
/// claim.
pub open spec fn lists_claims(e: Seq<(Seq<char>, ClaimModel)>, cs: Seq<(Seq<char>, ClaimModel)>) -> bool {
    &&& forall|i: int|
        0 <= i < e.len() ==> (#[trigger] last_claim(cs, e[i].0) matches Some(v) && e[i].1
            == read_back(v))
    &&& forall|j: int| 0 <= j < cs.len() ==> exists|i: int| 0 <= i < e.len() && e[i].0 == (#[trigger] cs[j]).0
}

proof fn lemma_last_claim_unique(cs: Seq<(Seq<char>, ClaimModel)>, j: int)
    requires
        0 <= j < cs.len(),
        forall|a: int, b: int| 0 <= a < b < cs.len() ==> cs[a].0 != cs[b].0,
    ensures
        last_claim(cs, cs[j].0) == Some(cs[j].1),
    decreases cs.len(),
{
    if j < cs.len() - 1 {
        assert(cs[j].0 != cs.last().0);
        assert(cs.drop_last()[j] == cs[j]);
        lemma_last_claim_unique(cs.drop_last(), j);
    }
}

proof fn lemma_last_claim_absent(cs: Seq<(Seq<char>, ClaimModel)>, name: Seq<char>)
    requires
        forall|j: int| 0 <= j < cs.len() ==> cs[j].0 != name,
    ensures
        last_claim(cs, name) is None,
    decreases cs.len(),
{
    if cs.len() > 0 {
        assert(cs.last().0 != name);
        lemma_last_claim_absent(cs.drop_last(), name);
    }
}

/// Reading back, at a `now` not after its expiry, the claims that a token
/// minted for an identity carries gives that identity again: `sign` states
/// that verifying the token yields such a listing, and `authenticate` reads
/// it with `user_from_claims`.
pub proof fn lemma_token_round_trip(u: GoogleUser, e: Seq<(Seq<char>, ClaimModel)>, now: i64)
    requires
        u.expiry matches Some(x) && now <= x,
        name_sorted(e),
        lists_claims(e, user_claims(u)),
    ensures
        claims_error(e, now) is None,
        user_of_claims(u, e),
{
    let cs = user_claims(u);
    lemma_claims_round_trip(u, now);
    assert forall|a: int, b: int| 0 <= a < b < cs.len() implies cs[a].0 != cs[b].0 by {
        assert(cs[a].0.len() != cs[b].0.len());
    }
    assert forall|a: int, b: int| 0 <= a < b < e.len() implies e[a].0 != e[b].0 by {
        assert(chars_lt(e[a].0, e[b].0));
        lemma_chars_lt_irreflexive(e[a].0);
    }
    assert forall|n: Seq<char>| claim_lookup(e, n) == claim_lookup(cs, n) by {
        lemma_lookup_unique(e, n);
        lemma_lookup_unique(cs, n);
        if exists|j: int| 0 <= j < cs.len() && cs[j].0 == n {
            let j = choose|j: int| 0 <= j < cs.len() && cs[j].0 == n;
            let i = choose|i: int| 0 <= i < e.len() && e[i].0 == (#[trigger] cs[j]).0;
            lemma_last_claim_unique(cs, j);
            assert(last_claim(cs, e[i].0) == Some(cs[j].1));
            assert(cs[j].1 !is Number || cs[j].1 != ClaimModel::Number(None));
        } else {
            assert forall|i: int| 0 <= i < e.len() implies e[i].0 != n by {
                if e[i].0 == n {
                    lemma_last_claim_absent(cs, n);
                    assert(last_claim(cs, e[i].0) is Some);
                }
            }
        }
    }
    assert(claim_lookup(e, sub_claim()) == claim_lookup(cs, sub_claim()));
    assert(claim_lookup(e, email_claim()) == claim_lookup(cs, email_claim()));
    assert(claim_lookup(e, email_verified_claim()) == claim_lookup(cs, email_verified_claim()));
    assert(claim_lookup(e, name_claim()) == claim_lookup(cs, name_claim()));
    assert(claim_lookup(e, given_name_claim()) == claim_lookup(cs, given_name_claim()));
    assert(claim_lookup(e, family_name_claim()) == claim_lookup(cs, family_name_claim()));
    assert(claim_lookup(e, picture_claim()) == claim_lookup(cs, picture_claim()));
    assert(claim_lookup(e, expiry_claim()) == claim_lookup(cs, expiry_claim()));
}

} // verus!
