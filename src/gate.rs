use crate::token::{
    current_timestamp, issued_for, validate_token, validation_of, well_formed_token, Claims,
    TokenError,
};
use vstd::prelude::*;

verus! {

/// The characters that Unicode classes as white space, as `char::is_whitespace`
/// does.
pub open spec fn is_space(c: char) -> bool {
    ('\u{9}' <= c && c <= '\u{d}') || c == ' ' || c == '\u{85}' || c == '\u{a0}' || c
        == '\u{1680}' || ('\u{2000}' <= c && c <= '\u{200a}') || c == '\u{2028}' || c
        == '\u{2029}' || c == '\u{202f}' || c == '\u{205f}' || c == '\u{3000}'
}

/// The maximal runs of non-space characters of `s`, in order.
pub open spec fn words(s: Seq<char>) -> Seq<Seq<char>>
    decreases s.len(),
{
    if s.len() == 0 {
        seq![]
    } else {
        let w = words(s.drop_last());
        let c = s.last();
        if is_space(c) {
            w
        } else if s.len() >= 2 && !is_space(s[s.len() - 2]) {
            w.update(w.len() - 1, w.last().push(c))
        } else {
            w.push(seq![c])
        }
    }
}

/// The credential of an `Authorization` value: the second of exactly two
/// words (scheme and credential).
pub open spec fn credential_of(value: Seq<char>) -> Option<Seq<char>> {
    let w = words(value);
    if w.len() == 2 {
        Some(w[1])
    } else {
        None
    }
}

/// The `Authorization` header of a request, as it arrives with a request.
#[derive(Debug)]
pub enum AuthHeader {
    Absent,
    /// Present, but not readable as visible ASCII text.
    Unreadable,
    Text(String),
}

/// What became of looking up a token's subject among the stored credentials.
#[derive(Debug, Clone, Copy, PartialEq, Eq, Structural)]
pub enum SubjectLookup {
    Found,
    Missing,
    Failed,
}

/// Why a request to a protected route was refused.
#[derive(Debug, Clone, Copy, PartialEq, Eq, Structural)]
pub enum GateRejection {
    MissingHeader,
    UnreadableHeader,
    BadTokenFormat,
    Token(TokenError),
    SubjectUnknown,
    LookupFailed,
}

pub open spec fn rejection_status(e: GateRejection) -> u16 {
    match e {
        GateRejection::MissingHeader => 400,
        GateRejection::UnreadableHeader => 400,
        GateRejection::BadTokenFormat => 400,
        GateRejection::Token(_) => 400,
        GateRejection::SubjectUnknown => 401,
        GateRejection::LookupFailed => 401,
    }
}

impl GateRejection {
    /// The HTTP status the request is refused with.
    pub fn status(&self) -> (r: u16)
        ensures
            r == rejection_status(*self),
    {
        match self {
            GateRejection::MissingHeader => 400,
            GateRejection::UnreadableHeader => 400,
            GateRejection::BadTokenFormat => 400,
            GateRejection::Token(_) => 400,
            GateRejection::SubjectUnknown => 401,
            GateRejection::LookupFailed => 401,
        }
    }

    /// The message the request is refused with.
    pub fn message(&self) -> (r: String)
        ensures
            *self == GateRejection::MissingHeader ==> r@ == "Missing headers"@,
            *self == GateRejection::UnreadableHeader ==> r@ == "Invalid Authorization header"@,
            *self == GateRejection::BadTokenFormat ==> r@ == "Invalid Token Format"@,
            *self == GateRejection::Token(TokenError::Malformed) ==> r@ == "InvalidToken"@,
            *self == GateRejection::Token(TokenError::InvalidSignature) ==> r@
                == "InvalidSignature"@,
            *self == GateRejection::Token(TokenError::Expired) ==> r@ == "ExpiredSignature"@,
            *self == GateRejection::SubjectUnknown ==> r@ == "Unauthorized"@,
            *self == GateRejection::LookupFailed ==> r@ == "Unauthorized"@,
    {
        match self {
            GateRejection::MissingHeader => "Missing headers".to_string(),
            GateRejection::UnreadableHeader => "Invalid Authorization header".to_string(),
            GateRejection::BadTokenFormat => "Invalid Token Format".to_string(),
            GateRejection::Token(e) => e.message(),
            GateRejection::SubjectUnknown => "Unauthorized".to_string(),
            GateRejection::LookupFailed => "Unauthorized".to_string(),
        }
    }
}

/// What the header alone decides: the claims of a valid token,
/// or why the request is refused.
pub open spec fn header_verdict(header: AuthHeader, key: Seq<u8>, now: u64) -> Result<
    (Seq<char>, u64),
    GateRejection,
> {
    match header {
        AuthHeader::Absent => Err(GateRejection::MissingHeader),
        AuthHeader::Unreadable => Err(GateRejection::UnreadableHeader),
        AuthHeader::Text(v) => text_verdict(v@, key, now),
    }
}

/// What a readable `Authorization` value decides.
pub open spec fn text_verdict(value: Seq<char>, key: Seq<u8>, now: u64) -> Result<
    (Seq<char>, u64),
    GateRejection,
> {
    match credential_of(value) {
        None => Err(GateRejection::BadTokenFormat),
        Some(t) => match validation_of(t, key, now) {
            Ok(c) => Ok(c),
            Err(e) => Err(GateRejection::Token(e)),
        },
    }
}

pub open spec fn no_space(s: Seq<char>) -> bool {
    forall|i: int| 0 <= i < s.len() ==> !is_space(#[trigger] s[i])
}

/// Appending a run of non-space characters to text that is empty or ends in
/// a space adds that run as one more word.
proof fn lemma_words_append_word(p: Seq<char>, t: Seq<char>)
    requires
        p.len() == 0 || is_space(p.last()),
        t.len() > 0,
        no_space(t),
    ensures
        words(p + t) == words(p).push(t),
    decreases t.len(),
{
    let s = p + t;
    assert(s.last() == t.last());
    if t.len() == 1 {
        assert(s.drop_last() =~= p);
        assert(t =~= seq![t.last()]);
        if s.len() >= 2 {
            assert(s[s.len() - 2] == p.last());
        }
    } else {
        let u = t.drop_last();
        assert(s.drop_last() =~= p + u);
        lemma_words_append_word(p, u);
        assert(s[s.len() - 2] == t[t.len() - 2]);
        assert(u.push(t.last()) =~= t);
    }
}

/// A value made of a scheme, one space and a credential, neither holding a
/// space, has that credential.
pub proof fn lemma_credential_of_pair(scheme: Seq<char>, credential: Seq<char>)
    requires
        scheme.len() > 0,
        credential.len() > 0,
        no_space(scheme),
        no_space(credential),
    ensures
        credential_of(scheme + seq![' '] + credential) == Some(credential),
{
    let e = Seq::<char>::empty();
    lemma_words_append_word(e, scheme);
    assert(e + scheme =~= scheme);
    let p = scheme + seq![' '];
    assert(p.drop_last() =~= scheme);
    assert(words(p) == words(scheme));
    lemma_words_append_word(p, credential);
}

/// A well-formed token holds no space.
proof fn lemma_token_has_no_space(token: Seq<char>)
    requires
        well_formed_token(token),
    ensures
        no_space(token),
{
    assert forall|i: int| 0 <= i < token.len() implies !is_space(#[trigger] token[i]) by {
        if i != crate::token::first_dot(token) && i != crate::token::second_dot(token) {
            assert(crate::token::is_b64url(token[i]));
        } else {
            crate::token::lemma_find_dot_bounds(token, 0);
            crate::token::lemma_find_dot_bounds(token, crate::token::first_dot(token) + 1);
        }
    }
}

/// A request whose `Authorization` value is a scheme, one space and a token
/// issued for `subject` is let through with that subject at any time before
/// the token expires.
pub proof fn lemma_bearer_token_accepted(
    scheme: Seq<char>,
    token: Seq<char>,
    subject: Seq<char>,
    expires_at: u64,
    key: Seq<u8>,
    now: u64,
)
    requires
        scheme.len() > 0,
        no_space(scheme),
        issued_for(token, subject, expires_at, key),
        now < expires_at,
    ensures
        text_verdict(scheme + seq![' '] + token, key, now) == Ok::<(Seq<char>, u64), GateRejection>(
            (subject, expires_at),
        ),
{
    lemma_token_has_no_space(token);
    lemma_credential_of_pair(scheme, token);
}

/// The same request made at or after the token's expiry is refused as
/// expired, never as badly signed.
pub proof fn lemma_bearer_token_expired(
    scheme: Seq<char>,
    token: Seq<char>,
    subject: Seq<char>,
    expires_at: u64,
    key: Seq<u8>,
    now: u64,
)
    requires
        scheme.len() > 0,
        no_space(scheme),
        issued_for(token, subject, expires_at, key),
        expires_at <= now,
    ensures
        text_verdict(scheme + seq![' '] + token, key, now) == Err::<(Seq<char>, u64), GateRejection>(
            GateRejection::Token(TokenError::Expired),
        ),
{
    lemma_token_has_no_space(token);
    lemma_credential_of_pair(scheme, token);
}

pub fn space_char(c: char) -> (r: bool)
    ensures
        r == is_space(c),
{
    ('\u{9}' <= c && c <= '\u{d}') || c == ' ' || c == '\u{85}' || c == '\u{a0}' || c
        == '\u{1680}' || ('\u{2000}' <= c && c <= '\u{200a}') || c == '\u{2028}' || c
        == '\u{2029}' || c == '\u{202f}' || c == '\u{205f}' || c == '\u{3000}'
}

/// The start and end (exclusive) of each word of `s`, in order.
pub fn word_spans(s: &str) -> (r: Vec<(usize, usize)>)
    ensures
        r@.len() == words(s@).len(),
        forall|k: int|
            #![trigger r@[k]]
            0 <= k < r@.len() ==> {
                &&& r@[k].0 <= r@[k].1 <= s@.len()
                &&& s@.subrange(r@[k].0 as int, r@[k].1 as int) == words(s@)[k]
            },
{
    let n = s.unicode_len();
    let mut spans: Vec<(usize, usize)> = Vec::new();
    let mut in_word = false;
    let mut i: usize = 0;
    while i < n
        invariant
            i <= n,
            n == s@.len(),
            in_word == (i > 0 && !is_space(s@[i - 1])),
            in_word ==> spans@.len() > 0 && spans@.last().1 == i,
            spans@.len() == words(s@.take(i as int)).len(),
            forall|k: int|
                #![trigger spans@[k]]
                0 <= k < spans@.len() ==> {
                    &&& spans@[k].0 <= spans@[k].1 <= i
                    &&& s@.subrange(spans@[k].0 as int, spans@[k].1 as int) == words(
                        s@.take(i as int),
                    )[k]
                },
        decreases n - i,
    {
        let c = s.get_char(i);
        let ghost prev = s@.take(i as int);
        let ghost next = s@.take(i + 1);
        assert(next.drop_last() =~= prev);
        assert(next.last() == c);
        if space_char(c) {
            assert(words(next) == words(prev));
            in_word = false;
        } else if in_word {
            assert(next[next.len() - 2] == s@[i - 1]);
            let last = spans.pop().unwrap();
            let ghost w = words(prev);
            assert(s@.subrange(last.0 as int, i + 1) =~= s@.subrange(last.0 as int, i as int).push(
                c,
            ));
            spans.push((last.0, i + 1));
            assert(words(next) == w.update(w.len() - 1, w.last().push(c)));
        } else {
            assert(i > 0 ==> next[next.len() - 2] == s@[i - 1]);
            spans.push((i, i + 1));
            assert(s@.subrange(i as int, i + 1) =~= seq![c]);
            assert(words(next) == words(prev).push(seq![c]));
            in_word = true;
        }
        i = i + 1;
    }
    assert(s@.take(n as int) =~= s@);
    assert(words(s@.take(n as int)) == words(s@));
    spans
}

/// Checks the `Authorization` header of a request: it must be present, hold
/// exactly a scheme and a credential, and the credential must be a valid,
/// unexpired token.
pub fn check_header(header: &AuthHeader, key: &[u8], now: u64) -> (r: Result<Claims, GateRejection>)
    ensures
        match r {
            Ok(c) => header_verdict(*header, key@, now) == Ok::<(Seq<char>, u64), GateRejection>(
                c@,
            ),
            Err(e) => header_verdict(*header, key@, now) == Err::<(Seq<char>, u64), GateRejection>(
                e,
            ),
        },
{
    match header {
        AuthHeader::Absent => Err(GateRejection::MissingHeader),
        AuthHeader::Unreadable => Err(GateRejection::UnreadableHeader),
        AuthHeader::Text(v) => {
            let spans = word_spans(v.as_str());
            if spans.len() != 2 {
                return Err(GateRejection::BadTokenFormat);
            }
            let (a, b) = spans[1];
            let token = v.as_str().substring_char(a, b);
            match validate_token(token, key, now) {
                Ok(c) => Ok(c),
                Err(e) => Err(GateRejection::Token(e)),
            }
        },
    }
}

/// Checks the `Authorization` header of a request against the current time.
pub fn authorize(header: &AuthHeader, key: &[u8]) -> (r: Result<Claims, GateRejection>)
    ensures
        exists|now: u64|
            match r {
                Ok(c) => #[trigger] header_verdict(*header, key@, now) == Ok::<
                    (Seq<char>, u64),
                    GateRejection,
                >(c@),
                Err(e) => #[trigger] header_verdict(*header, key@, now) == Err::<
                    (Seq<char>, u64),
                    GateRejection,
                >(e),
            },
{
    let now = current_timestamp();
    check_header(header, key, now)
}

/// The last step of authorization: a request whose token names a subject that is
/// still stored goes through, carrying that subject; any other is refused.
pub fn admit_subject(claims: Claims, lookup: SubjectLookup) -> (r: Result<String, GateRejection>)
    ensures
        lookup == SubjectLookup::Found ==> (r matches Ok(s) && s@ == claims.subject@),
        lookup == SubjectLookup::Missing ==> r == Err::<String, GateRejection>(
            GateRejection::SubjectUnknown,
        ),
        lookup == SubjectLookup::Failed ==> r == Err::<String, GateRejection>(
            GateRejection::LookupFailed,
        ),
{
    match lookup {
        SubjectLookup::Found => Ok(claims.subject),
        SubjectLookup::Missing => Err(GateRejection::SubjectUnknown),
        SubjectLookup::Failed => Err(GateRejection::LookupFailed),
    }
}

} // verus!
