use restful_auth::token::{generate_token, issue_token, validate_token, TokenError, TOKEN_TTL_SECS};

const KEY: &[u8] = b"secret_key";
const NOW: u64 = 1_700_000_000;

fn flip_bit(token: &str, index: usize, bit: u32) -> String {
    let mut bytes = token.as_bytes().to_vec();
    bytes[index] ^= 1u8 << bit;
    String::from_utf8(bytes).unwrap()
}

fn is_b64url(b: u8) -> bool {
    b.is_ascii_alphanumeric() || b == b'-' || b == b'_'
}

#[test]
fn issued_token_validates_with_its_subject() {
    let t = issue_token("a@b.com", KEY, NOW);
    assert!(!t.is_empty());
    let c = validate_token(&t, KEY, NOW).unwrap();
    assert_eq!(c.subject, "a@b.com");
    assert_eq!(c.expires_at, NOW + 3600);
    let c = validate_token(&t, KEY, NOW + 3599).unwrap();
    assert_eq!(c.subject, "a@b.com");
}

#[test]
fn token_has_three_segments() {
    let t = issue_token("a@b.com", KEY, NOW);
    assert_eq!(t.split('.').count(), 3);
}

#[test]
fn ttl_is_one_hour() {
    assert_eq!(TOKEN_TTL_SECS, 3600);
}

#[test]
fn expired_token_is_refused_as_expired() {
    let t = issue_token("a@b.com", KEY, NOW);
    assert_eq!(validate_token(&t, KEY, NOW + 3600).err(), Some(TokenError::Expired));
    assert_eq!(validate_token(&t, KEY, NOW + 100_000).err(), Some(TokenError::Expired));
}

#[test]
fn flipped_signature_bit_is_refused() {
    let t = issue_token("a@b.com", KEY, NOW);
    let start = t.rfind('.').unwrap() + 1;
    let mut checked = 0;
    for i in start..t.len() {
        for bit in 0..7 {
            let altered = flip_bit(&t, i, bit);
            let r = validate_token(&altered, KEY, NOW).err();
            if is_b64url(altered.as_bytes()[i]) {
                assert_eq!(r, Some(TokenError::InvalidSignature));
                checked += 1;
            } else {
                assert_eq!(r, Some(TokenError::Malformed));
            }
        }
    }
    assert!(checked > 0);
}

#[test]
fn other_key_is_refused_as_badly_signed() {
    let t = issue_token("a@b.com", KEY, NOW);
    assert_eq!(validate_token(&t, b"another_key", NOW).err(), Some(TokenError::InvalidSignature));
}

#[test]
fn malformed_tokens_are_refused_first() {
    for t in ["", "abc", "a.b", "a..c", ".b.c", "a.b.", "a.b.c.d", "a.b.c d", "a.b.c="] {
        assert_eq!(validate_token(t, KEY, NOW).err(), Some(TokenError::Malformed), "{}", t);
    }
}

#[test]
fn unreadable_header_or_claims_is_malformed_before_signature() {
    assert_eq!(validate_token("abc.def.ghi", KEY, NOW).err(), Some(TokenError::Malformed));
    let t = issue_token("a@b.com", KEY, NOW);
    let parts: Vec<&str> = t.split('.').collect();
    let bad_claims = format!("{}.{}.{}", parts[0], "e30", parts[2]);
    assert_eq!(validate_token(&bad_claims, KEY, NOW).err(), Some(TokenError::Malformed));
    let bad_header = format!("{}.{}.{}", "e30", parts[1], parts[2]);
    assert_eq!(validate_token(&bad_header, KEY, NOW).err(), Some(TokenError::Malformed));
}

#[test]
fn readable_token_with_foreign_signature_is_badly_signed() {
    let t = issue_token("a@b.com", KEY, NOW);
    let parts: Vec<&str> = t.split('.').collect();
    let forged = format!("{}.{}.{}", parts[0], parts[1], "AAAAAAAAAAAAAAAAAAAAAAAAAAAAAAAAAAAAAAAAAAA");
    assert_eq!(validate_token(&forged, KEY, NOW).err(), Some(TokenError::InvalidSignature));
}

#[test]
fn issuing_is_deterministic_for_subject_time_and_key() {
    assert_eq!(issue_token("a@b.com", KEY, NOW), issue_token("a@b.com", KEY, NOW));
    assert_ne!(issue_token("a@b.com", KEY, NOW), issue_token("c@d.com", KEY, NOW));
    assert_ne!(issue_token("a@b.com", KEY, NOW), issue_token("a@b.com", KEY, NOW + 1));
}

#[test]
fn token_error_messages() {
    assert_eq!(TokenError::Malformed.message(), "InvalidToken");
    assert_eq!(TokenError::InvalidSignature.message(), "InvalidSignature");
    assert_eq!(TokenError::Expired.message(), "ExpiredSignature");
}

#[test]
fn generated_token_is_valid_now() {
    let t = generate_token("x@y.org", KEY).unwrap();
    let now = std::time::SystemTime::now()
        .duration_since(std::time::UNIX_EPOCH)
        .unwrap()
        .as_secs();
    let c = validate_token(&t, KEY, now).unwrap();
    assert_eq!(c.subject, "x@y.org");
    assert!(c.expires_at > now);
    assert!(c.expires_at <= now + 3600 + 5);
}
