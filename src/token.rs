use vstd::prelude::*;

verus! {

/// How long a session token stays valid after it is issued, in seconds.
pub const TOKEN_TTL_SECS: u64 = 3600;

/// The HS256 signature that jsonwebtoken computes over `message` with `key`,
/// in unpadded base64url.
pub uninterp spec fn hs256_signature(message: Seq<char>, key: Seq<u8>) -> Seq<char>;

/// The subject and expiry that jsonwebtoken decodes from the header and
/// claims segments `message` of a token (signature and expiry left
/// unchecked), or `None` where it decodes none.
pub uninterp spec fn jwt_claims(message: Seq<char>) -> Option<(Seq<char>, u64)>;

/// The token that jsonwebtoken encodes for `subject` and `expires_at` under
/// `key`.
pub uninterp spec fn jwt_of(subject: Seq<char>, expires_at: u64, key: Seq<u8>) -> Seq<char>;

/// Why a token was refused.
#[derive(Debug, Clone, Copy, PartialEq, Eq, Structural)]
pub enum TokenError {
    /// The token is not three base64url segments joined by dots, or its
    /// header or claims cannot be read.
    Malformed,
    /// The signature segment does not match the header and claims.
    InvalidSignature,
    /// The token's expiry time has been reached.
    Expired,
}

impl TokenError {
    /// The message reported to a client for this error.
    pub fn message(&self) -> (r: String)
        ensures
            *self == TokenError::Malformed ==> r@ == "InvalidToken"@,
            *self == TokenError::InvalidSignature ==> r@ == "InvalidSignature"@,
            *self == TokenError::Expired ==> r@ == "ExpiredSignature"@,
    {
        match self {
            TokenError::Malformed => "InvalidToken".to_string(),
            TokenError::InvalidSignature => "InvalidSignature".to_string(),
            TokenError::Expired => "ExpiredSignature".to_string(),
        }
    }
}

/// The session claims carried by a token.
#[derive(Debug)]
pub struct Claims {
    pub subject: String,
    /// Unix time, in seconds, from which the token is no longer accepted.
    pub expires_at: u64,
}

impl View for Claims {
    type V = (Seq<char>, u64);

    open spec fn view(&self) -> (Seq<char>, u64) {
        (self.subject@, self.expires_at)
    }
}

/// No token could be issued: the clock is so far ahead that its expiry would not fit.
#[derive(Debug, Clone, Copy, PartialEq, Eq, Structural)]
pub struct IssueFailed;

pub open spec fn is_b64url(c: char) -> bool {
    ('A' <= c && c <= 'Z') || ('a' <= c && c <= 'z') || ('0' <= c && c <= '9') || c == '-' || c
        == '_'
}

/// Index of the first '.' at or after `from`, or the length when there is none.
pub open spec fn find_dot(s: Seq<char>, from: int) -> int
    decreases s.len() - from,
{
    if from >= s.len() {
        s.len() as int
    } else if s[from] == '.' {
        from
    } else {
        find_dot(s, from + 1)
    }
}

pub open spec fn first_dot(s: Seq<char>) -> int {
    find_dot(s, 0)
}

pub open spec fn second_dot(s: Seq<char>) -> int {
    find_dot(s, first_dot(s) + 1)
}

/// Three non-empty base64url segments (header, claims, signature) joined by
/// two dots.
pub open spec fn well_formed_token(s: Seq<char>) -> bool {
    let d1 = first_dot(s);
    let d2 = second_dot(s);
    &&& 0 < d1
    &&& d1 + 1 < d2
    &&& d2 + 1 < s.len()
    &&& forall|i: int| 0 <= i < s.len() && i != d1 && i != d2 ==> is_b64url(#[trigger] s[i])
}

/// The part of a token that its signature covers: header, dot, claims.
pub open spec fn signing_input(s: Seq<char>) -> Seq<char> {
    s.take(second_dot(s))
}

/// The signature segment of a token.
pub open spec fn signature_part(s: Seq<char>) -> Seq<char> {
    s.skip(second_dot(s) + 1)
}

pub open spec fn signature_holds(token: Seq<char>, key: Seq<u8>) -> bool {
    signature_part(token) == hs256_signature(signing_input(token), key)
}

/// What validating `token` under `key` at time `now` yields: the structure
/// (segments, readable header and claims) is checked first, then the
/// signature, then the expiry.
pub open spec fn validation_of(token: Seq<char>, key: Seq<u8>, now: u64) -> Result<
    (Seq<char>, u64),
    TokenError,
> {
    if !well_formed_token(token) {
        Err(TokenError::Malformed)
    } else {
        match jwt_claims(signing_input(token)) {
            None => Err(TokenError::Malformed),
            Some(c) => if !signature_holds(token, key) {
                Err(TokenError::InvalidSignature)
            } else if now < c.1 {
                Ok(c)
            } else {
                Err(TokenError::Expired)
            },
        }
    }
}

/// `token` is a signed token for `subject` that expires at `expires_at`.
pub open spec fn issued_for(token: Seq<char>, subject: Seq<char>, expires_at: u64, key: Seq<u8>) -> bool {
    &&& well_formed_token(token)
    &&& signature_holds(token, key)
    &&& jwt_claims(signing_input(token)) == Some((subject, expires_at))
}

/// Relies on `jsonwebtoken::encode` with the default header (HS256) on the
/// claims `{"sub": subject, "exp": expires_at}`: it joins the base64url header,
/// the base64url claims and their HS256 signature with dots, and `decode`
/// reads the same claims back. With an HMAC key, an HMAC header and a map
/// with string keys it does not fail, and its result depends on its
/// arguments alone.
#[verifier::external_body]
fn jwt_encode(subject: &str, expires_at: u64, key: &[u8]) -> (r: Option<String>)
    ensures
        r is Some,
        r matches Some(t) ==> t@ == jwt_of(subject@, expires_at, key@),
        r matches Some(t) ==> issued_for(t@, subject@, expires_at, key@),
{
    let mut claims = serde_json::Map::new();
    claims.insert("sub".to_string(), serde_json::Value::from(subject));
    claims.insert("exp".to_string(), serde_json::Value::from(expires_at));
    let key = jsonwebtoken::EncodingKey::from_secret(key);
    jsonwebtoken::encode(&jsonwebtoken::Header::default(), &claims, &key).ok()
}

/// Relies on `jsonwebtoken::crypto::verify` with HS256, which re-signs
/// `message` and compares the result with `signature` in constant time; for
/// HMAC it never fails.
#[verifier::external_body]
fn jwt_signature_matches(signature: &str, message: &str, key: &[u8]) -> (r: bool)
    ensures
        r == (signature@ == hs256_signature(message@, key@)),
{
    let key = jsonwebtoken::DecodingKey::from_secret(key);
    jsonwebtoken::crypto::verify(signature, message.as_bytes(), &key, jsonwebtoken::Algorithm::HS256)
        .unwrap_or(false)
}

/// Relies on `jsonwebtoken::decode`, with signature and expiry checks off,
/// for the `sub` and `exp` claims of `token`. It then reads only the part
/// before the last dot, which for a well-formed token is its signing input.
#[verifier::external_body]
fn jwt_decode(token: &str) -> (r: Option<(String, u64)>)
    requires
        well_formed_token(token@),
    ensures
        r matches Some(c) ==> jwt_claims(signing_input(token@)) == Some((c.0@, c.1)),
        r is None ==> jwt_claims(signing_input(token@)) is None,
{
    let mut validation = jsonwebtoken::Validation::new(jsonwebtoken::Algorithm::HS256);
    validation.validate_exp = false;
    validation.insecure_disable_signature_validation();
    let key = jsonwebtoken::DecodingKey::from_secret(&[]);
    let data = jsonwebtoken::decode::<serde_json::Map<String, serde_json::Value>>(token, &key, &validation).ok()?;
    match (data.claims.get("sub"), data.claims.get("exp")) {
        (Some(serde_json::Value::String(s)), Some(serde_json::Value::Number(e))) => Some((s.clone(), e.as_u64()?)),
        _ => None,
    }
}

/// Relies on `jsonwebtoken::get_current_timestamp` for the current Unix time
/// in seconds; nothing is known of the value.
#[verifier::external_body]
pub(crate) fn current_timestamp() -> (r: u64) {
    jsonwebtoken::get_current_timestamp()
}

fn b64url_char(c: char) -> (r: bool)
    ensures
        r == is_b64url(c),
{
    ('A' <= c && c <= 'Z') || ('a' <= c && c <= 'z') || ('0' <= c && c <= '9') || c == '-' || c
        == '_'
}

fn find_dot_from(s: &str, n: usize, from: usize) -> (r: usize)
    requires
        n == s@.len(),
        from <= n,
    ensures
        r == find_dot(s@, from as int),
        from <= r <= n,
{
    let mut i: usize = from;
    while i < n
        invariant
            from <= i <= n,
            n == s@.len(),
            find_dot(s@, from as int) == find_dot(s@, i as int),
        decreases n - i,
    {
        if s.get_char(i) == '.' {
            return i;
        }
        i = i + 1;
    }
    i
}

fn b64url_except(s: &str, n: usize, d1: usize, d2: usize) -> (r: bool)
    requires
        n == s@.len(),
    ensures
        r == forall|i: int| 0 <= i < n && i != d1 && i != d2 ==> is_b64url(#[trigger] s@[i]),
{
    let mut i: usize = 0;
    while i < n
        invariant
            i <= n,
            n == s@.len(),
            forall|j: int| 0 <= j < i && j != d1 && j != d2 ==> is_b64url(#[trigger] s@[j]),
        decreases n - i,
    {
        if i != d1 && i != d2 && !b64url_char(s.get_char(i)) {
            return false;
        }
        i = i + 1;
    }
    true
}

/// Issues a token for `subject` that expires `TOKEN_TTL_SECS` after `now`.
/// The token depends on the subject, the time and the key alone.
pub fn issue_token(subject: &str, key: &[u8], now: u64) -> (r: String)
    requires
        now <= u64::MAX - TOKEN_TTL_SECS,
    ensures
        r@ == jwt_of(subject@, (now + TOKEN_TTL_SECS) as u64, key@),
        issued_for(r@, subject@, (now + TOKEN_TTL_SECS) as u64, key@),
{
    jwt_encode(subject, now + TOKEN_TTL_SECS, key).unwrap()
}

/// Issues a token for `subject` that expires `TOKEN_TTL_SECS` after the
/// current time (so its expiry is at least `TOKEN_TTL_SECS`). It fails only
/// where the clock is so far ahead that the expiry would not fit.
pub fn generate_token(subject: &str, key: &[u8]) -> (r: Result<String, IssueFailed>)
    ensures
        r matches Ok(t) ==> exists|expires_at: u64|
            expires_at >= TOKEN_TTL_SECS && t@ == #[trigger] jwt_of(subject@, expires_at, key@)
                && issued_for(t@, subject@, expires_at, key@),
{
    let now = current_timestamp();
    if now > u64::MAX - TOKEN_TTL_SECS {
        return Err(IssueFailed);
    }
    let t = issue_token(subject, key, now);
    let ghost e: u64 = (now + TOKEN_TTL_SECS) as u64;
    assert(e >= TOKEN_TTL_SECS && t@ == jwt_of(subject@, e, key@) && issued_for(t@, subject@, e, key@));
    Ok(t)
}

/// Validates a token at time `now`: a malformed token is refused before its
/// signature is checked, and a genuine one is refused once it has expired.
pub fn validate_token(token: &str, key: &[u8], now: u64) -> (r: Result<Claims, TokenError>)
    ensures
        match r {
            Ok(c) => validation_of(token@, key@, now) == Ok::<(Seq<char>, u64), TokenError>(c@),
            Err(e) => validation_of(token@, key@, now) == Err::<(Seq<char>, u64), TokenError>(e),
        },
{
    let n = token.unicode_len();
    let d1 = find_dot_from(token, n, 0);
    if d1 == 0 || d1 >= n {
        return Err(TokenError::Malformed);
    }
    let d2 = find_dot_from(token, n, d1 + 1);
    if d2 <= d1 + 1 || d2 >= n - 1 {
        return Err(TokenError::Malformed);
    }
    if !b64url_except(token, n, d1, d2) {
        return Err(TokenError::Malformed);
    }
    let (subject, expires_at) = match jwt_decode(token) {
        None => return Err(TokenError::Malformed),
        Some(c) => c,
    };
    let message = token.substring_char(0, d2);
    let signature = token.substring_char(d2 + 1, n);
    if !jwt_signature_matches(signature, message, key) {
        return Err(TokenError::InvalidSignature);
    }
    if now < expires_at {
        Ok(Claims { subject, expires_at })
    } else {
        Err(TokenError::Expired)
    }
}

/// A token validates, with the subject and expiry it was issued for, at any
/// time before its expiry.
pub proof fn lemma_issued_token_validates(
    token: Seq<char>,
    subject: Seq<char>,
    expires_at: u64,
    key: Seq<u8>,
    now: u64,
)
    requires
        issued_for(token, subject, expires_at, key),
        now < expires_at,
    ensures
        validation_of(token, key, now) == Ok::<(Seq<char>, u64), TokenError>((subject, expires_at)),
{
}

/// Tokens issued for different subjects differ.
pub proof fn lemma_distinct_subjects_distinct_tokens(
    t1: Seq<char>,
    t2: Seq<char>,
    s1: Seq<char>,
    s2: Seq<char>,
    expires_at: u64,
    key: Seq<u8>,
)
    requires
        issued_for(t1, s1, expires_at, key),
        issued_for(t2, s2, expires_at, key),
        s1 != s2,
    ensures
        t1 != t2,
{
}

/// A genuine token validated at or after its expiry is refused as expired,
/// never as badly signed.
pub proof fn lemma_expired_token_refused(
    token: Seq<char>,
    subject: Seq<char>,
    expires_at: u64,
    key: Seq<u8>,
    now: u64,
)
    requires
        issued_for(token, subject, expires_at, key),
        expires_at <= now,
    ensures
        validation_of(token, key, now) == Err::<(Seq<char>, u64), TokenError>(TokenError::Expired),
{
}

/// The first dot at or after `from` lies between `from` and the end, and is a
/// dot unless it is the end.
pub proof fn lemma_find_dot_bounds(s: Seq<char>, from: int)
    requires
        0 <= from <= s.len(),
    ensures
        from <= find_dot(s, from) <= s.len(),
        find_dot(s, from) < s.len() ==> s[find_dot(s, from)] == '.',
    decreases s.len() - from,
{
    if from < s.len() && s[from] != '.' {
        lemma_find_dot_bounds(s, from + 1);
    }
}

/// Two strings that agree up to the first dot of one from `from` on have
/// that dot in the same place.
proof fn lemma_find_dot_agrees(s: Seq<char>, t: Seq<char>, from: int)
    requires
        0 <= from,
        s.len() == t.len(),
        forall|i: int| from <= i < s.len() && i <= find_dot(s, from) ==> s[i] == t[i],
    ensures
        find_dot(s, from) == find_dot(t, from),
    decreases s.len() - from,
{
    if from < s.len() {
        lemma_find_dot_bounds(s, from);
        assert(s[from] == t[from]);
        if s[from] != '.' {
            lemma_find_dot_agrees(s, t, from + 1);
        }
    }
}

/// A genuine token with one character of its signature changed to another
/// base64url character is refused as badly signed, whenever it is validated.
pub proof fn lemma_altered_signature_refused(
    token: Seq<char>,
    altered: Seq<char>,
    k: int,
    subject: Seq<char>,
    expires_at: u64,
    key: Seq<u8>,
    now: u64,
)
    requires
        issued_for(token, subject, expires_at, key),
        altered.len() == token.len(),
        second_dot(token) < k < token.len(),
        altered[k] != token[k],
        is_b64url(altered[k]),
        forall|i: int| 0 <= i < token.len() && i != k ==> altered[i] == token[i],
    ensures
        validation_of(altered, key, now) == Err::<(Seq<char>, u64), TokenError>(
            TokenError::InvalidSignature,
        ),
{
    let d1 = first_dot(token);
    let d2 = second_dot(token);
    lemma_find_dot_agrees(token, altered, 0);
    lemma_find_dot_agrees(token, altered, d1 + 1);
    assert(well_formed_token(altered));
    assert(signing_input(altered) =~= signing_input(token));
    assert(signature_part(altered)[k - d2 - 1] == altered[k]);
    assert(signature_part(token)[k - d2 - 1] == token[k]);
    assert(signature_part(altered) != signature_part(token));
}

} // verus!
