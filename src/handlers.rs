use crate::password::{
    argon2_accepts, hash_password, hashable, is_hash_of, verification_of, verify_password,
    HashingFailed,
};
use crate::token::{current_timestamp, issue_token, issued_for, jwt_of, TOKEN_TTL_SECS};
use vstd::prelude::*;

verus! {

/// A stored credential: an identifier and the PHC hash of its password.
#[derive(Debug)]
pub struct Credential {
    pub identifier: String,
    pub password_hash: String,
}

/// An HTTP reply: its status, its message, and the value it carries, if any.
#[derive(Debug)]
pub struct Reply {
    pub status: u16,
    pub message: String,
    pub data: Option<String>,
}

/// What became of looking up a credential by identifier.
#[derive(Debug)]
pub enum CredentialLookup {
    Found(Credential),
    Missing,
    Failed,
}

/// What became of looking up an identity record by key.
#[derive(Debug, Clone, Copy, PartialEq, Eq, Structural)]
pub enum RecordLookup {
    Found,
    Missing,
    Failed,
}

pub open spec fn is_internal_error(r: Reply) -> bool {
    r.status == 500 && r.message@ == "Internal Server Error"@ && r.data is None
}

pub open spec fn is_reply(r: Reply, status: u16, message: Seq<char>) -> bool {
    r.status == status && r.message@ == message && r.data is None
}

fn internal_error() -> (r: Reply)
    ensures
        is_internal_error(r),
{
    Reply { status: 500, message: "Internal Server Error".to_string(), data: None }
}

/// Builds the credential to store at signup. The password is kept only as an
/// argon2id hash that verifies it; hashing fails, with a generic server
/// error, only for a password too long for argon2.
pub fn signup_record(identifier: String, password: &str) -> (r: Result<Credential, Reply>)
    ensures
        hashable(password@) ==> r is Ok,
        r matches Ok(c) ==> c.identifier@ == identifier@ && is_hash_of(password@, c.password_hash@),
        r matches Err(e) ==> is_internal_error(e),
{
    match hash_password(password) {
        Ok(h) => Ok(Credential { identifier, password_hash: h }),
        Err(_) => Err(internal_error()),
    }
}

/// The reply to a signup, from the key the store gave the new record, or
/// `None` where the insert failed.
pub fn signup_reply(inserted_id: Option<String>) -> (r: Reply)
    ensures
        inserted_id is None ==> is_internal_error(r),
        inserted_id matches Some(id) ==> r.status == 201 && r.message@ == "Auth created"@ && (
        r.data matches Some(d) && d@ == id@),
{
    match inserted_id {
        Some(id) => Reply { status: 201, message: "Auth created".to_string(), data: Some(id) },
        None => internal_error(),
    }
}

/// The identifier of a found credential.
pub open spec fn identifier_of(lookup: CredentialLookup) -> Seq<char> {
    match lookup {
        CredentialLookup::Found(c) => c.identifier@,
        _ => Seq::empty(),
    }
}

/// The lookup found a credential and the password verifies against it.
pub open spec fn login_accepts(lookup: CredentialLookup, password: Seq<char>) -> bool {
    lookup matches CredentialLookup::Found(c) && verification_of(password, c.password_hash@) == Ok::<
        bool,
        HashingFailed,
    >(true)
}

/// The reply that refuses a login: 404 for an unknown identifier, 401 for a
/// wrong password, and a generic server error where the store or the stored
/// hash failed.
pub open spec fn login_refusal(lookup: CredentialLookup, password: Seq<char>, r: Reply) -> bool {
    match lookup {
        CredentialLookup::Missing => is_reply(r, 404, "Credential does not exist"@),
        CredentialLookup::Failed => is_internal_error(r),
        CredentialLookup::Found(c) => match verification_of(password, c.password_hash@) {
            Err(_) => is_internal_error(r),
            Ok(false) => is_reply(r, 401, "Invalid Password"@),
            Ok(true) => false,
        },
    }
}

/// The reply that admits a login at time `now`: 200 with the token issued
/// for the stored identifier.
pub open spec fn token_reply(r: Reply, identifier: Seq<char>, key: Seq<u8>, now: u64) -> bool {
    &&& r.status == 200
    &&& r.message@ == "You are logged in"@
    &&& r.data matches Some(t)
    &&& t@ == jwt_of(identifier, (now + TOKEN_TTL_SECS) as u64, key)
    &&& issued_for(t@, identifier, (now + TOKEN_TTL_SECS) as u64, key)
}

/// Looks the password up against what the store found: the stored
/// identifier when it verifies, else the refusing reply.
fn check_credentials(lookup: CredentialLookup, password: &str) -> (r: Result<String, Reply>)
    ensures
        r is Ok == login_accepts(lookup, password@),
        r matches Ok(id) ==> id@ == identifier_of(lookup),
        r matches Err(e) ==> login_refusal(lookup, password@, e),
{
    match lookup {
        CredentialLookup::Missing => Err(
            Reply { status: 404, message: "Credential does not exist".to_string(), data: None },
        ),
        CredentialLookup::Failed => Err(internal_error()),
        CredentialLookup::Found(c) => match verify_password(password, c.password_hash.as_str()) {
            Err(_) => Err(internal_error()),
            Ok(false) => Err(
                Reply { status: 401, message: "Invalid Password".to_string(), data: None },
            ),
            Ok(true) => Ok(c.identifier),
        },
    }
}

fn token_for(identifier: &str, key: &[u8], now: u64) -> (r: Reply)
    requires
        now <= u64::MAX - TOKEN_TTL_SECS,
    ensures
        token_reply(r, identifier@, key@, now),
{
    let t = issue_token(identifier, key, now);
    Reply { status: 200, message: "You are logged in".to_string(), data: Some(t) }
}

/// The reply to a login attempt at time `now`, given what the lookup of its
/// identifier found: 404 for an unknown identifier, 401 for a wrong password,
/// and 200 with a fresh token for the stored identifier otherwise.
pub fn login_reply_at(lookup: CredentialLookup, password: &str, key: &[u8], now: u64) -> (r: Reply)
    requires
        now <= u64::MAX - TOKEN_TTL_SECS,
    ensures
        login_accepts(lookup, password@) ==> token_reply(r, identifier_of(lookup), key@, now),
        !login_accepts(lookup, password@) ==> login_refusal(lookup, password@, r),
{
    match check_credentials(lookup, password) {
        Err(reply) => reply,
        Ok(id) => token_for(id.as_str(), key, now),
    }
}

/// The reply to a login attempt at the current time, which is read only once
/// the password has been accepted. Where the clock is so far ahead that a
/// token's expiry would not fit, it is a server error.
pub fn login_reply(lookup: CredentialLookup, password: &str, key: &[u8]) -> (r: Reply)
    ensures
        !login_accepts(lookup, password@) ==> login_refusal(lookup, password@, r),
        login_accepts(lookup, password@) ==> is_internal_error(r) || exists|now: u64|
            now <= u64::MAX - TOKEN_TTL_SECS && #[trigger] token_reply(
                r,
                identifier_of(lookup),
                key@,
                now,
            ),
{
    match check_credentials(lookup, password) {
        Err(reply) => reply,
        Ok(id) => {
            let now = current_timestamp();
            if now > u64::MAX - TOKEN_TTL_SECS {
                return internal_error();
            }
            token_for(id.as_str(), key, now)
        },
    }
}

/// A password other than the one a stored hash was made from, where argon2
/// rejects it, is refused with 401 "Invalid Password" and gets no token.
pub proof fn lemma_wrong_password_refused(
    lookup: CredentialLookup,
    stored_from: Seq<char>,
    password: Seq<char>,
    r: Reply,
)
    requires
        lookup matches CredentialLookup::Found(c) && is_hash_of(stored_from, c.password_hash@),
        lookup matches CredentialLookup::Found(c) && !argon2_accepts(password, c.password_hash@),
    ensures
        !login_accepts(lookup, password),
        login_refusal(lookup, password, r) == is_reply(r, 401, "Invalid Password"@),
{
}

/// The reply to the protected greeting route for an authenticated subject.
pub fn protected_reply(subject: &str) -> (r: Reply)
    ensures
        r.status == 200,
        r.message@ == "Hello. You are logged in using "@ + subject@,
        r.data is None,
{
    let message = "Hello. You are logged in using ".to_string().concat(subject);
    Reply { status: 200, message, data: None }
}

/// The reply to creating an identity record, from the key the store gave it,
/// or `None` where the insert failed.
pub fn create_reply(inserted_id: Option<String>) -> (r: Reply)
    ensures
        inserted_id is None ==> is_internal_error(r),
        inserted_id matches Some(id) ==> r.status == 201 && r.message@ == "Identity created"@ && (
        r.data matches Some(d) && d@ == id@),
{
    match inserted_id {
        Some(id) => Reply { status: 201, message: "Identity created".to_string(), data: Some(id) },
        None => internal_error(),
    }
}

/// The reply to fetching one identity record.
pub fn fetch_reply(lookup: RecordLookup) -> (r: Reply)
    ensures
        lookup == RecordLookup::Found ==> is_reply(r, 200, "Fetched"@),
        lookup == RecordLookup::Missing ==> is_reply(r, 404, "Identity does not exist"@),
        lookup == RecordLookup::Failed ==> is_internal_error(r),
{
    match lookup {
        RecordLookup::Found => Reply { status: 200, message: "Fetched".to_string(), data: None },
        RecordLookup::Missing => Reply {
            status: 404,
            message: "Identity does not exist".to_string(),
            data: None,
        },
        RecordLookup::Failed => internal_error(),
    }
}

/// The reply to listing all identity records, given whether the store
/// delivered them.
pub fn fetch_all_reply(delivered: bool) -> (r: Reply)
    ensures
        delivered ==> is_reply(r, 200, "Fetched all identities"@),
        !delivered ==> is_internal_error(r),
{
    if delivered {
        Reply { status: 200, message: "Fetched all identities".to_string(), data: None }
    } else {
        internal_error()
    }
}

/// The reply to an update, from the store's counts of matched and modified
/// records, or `None` where the update failed.
pub fn update_reply(counts: Option<(u64, u64)>) -> (r: Reply)
    ensures
        counts is None ==> is_internal_error(r),
        counts matches Some(c) ==> {
            &&& c.0 == 0 ==> is_reply(r, 404, "Document not found"@)
            &&& c.0 != 0 && c.1 == 0 ==> is_reply(r, 200, "No changes made"@)
            &&& c.0 != 0 && c.1 != 0 ==> is_reply(r, 200, "Updated"@)
        },
{
    match counts {
        None => internal_error(),
        Some((matched, modified)) => {
            if matched == 0 {
                Reply { status: 404, message: "Document not found".to_string(), data: None }
            } else if modified == 0 {
                Reply { status: 200, message: "No changes made".to_string(), data: None }
            } else {
                Reply { status: 200, message: "Updated".to_string(), data: None }
            }
        },
    }
}

/// The reply to a deletion, from the store's count of deleted records, or
/// `None` where the deletion failed.
pub fn delete_reply(deleted: Option<u64>) -> (r: Reply)
    ensures
        deleted is None ==> is_internal_error(r),
        deleted == Some(1u64) ==> is_reply(r, 200, "Deleted"@),
        deleted matches Some(n) && n != 1 ==> is_reply(r, 404, "Document not found"@),
{
    match deleted {
        None => internal_error(),
        Some(n) => {
            if n == 1 {
                Reply { status: 200, message: "Deleted".to_string(), data: None }
            } else {
                Reply { status: 404, message: "Document not found".to_string(), data: None }
            }
        },
    }
}

} // verus!
