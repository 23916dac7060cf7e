use restful_auth::gate::{admit_subject, authorize, check_header, word_spans, AuthHeader, GateRejection, SubjectLookup};
use restful_auth::token::{issue_token, TokenError};

const KEY: &[u8] = b"secret_key";
const NOW: u64 = 1_700_000_000;

fn text(s: &str) -> AuthHeader {
    AuthHeader::Text(s.to_string())
}

#[test]
fn words_of_a_header() {
    assert_eq!(word_spans("Bearer abc"), vec![(0, 6), (7, 10)]);
    assert_eq!(word_spans("  a \t bc  "), vec![(2, 3), (6, 8)]);
    assert!(word_spans("").is_empty());
    assert!(word_spans("   ").is_empty());
    assert_eq!(word_spans("one"), vec![(0, 3)]);
    assert_eq!(word_spans("Bearer\u{3000}abc"), vec![(0, 6), (7, 10)]);
    assert_eq!(word_spans("a\u{a0}b\nc"), vec![(0, 1), (2, 3), (4, 5)]);
}

#[test]
fn missing_header_is_a_bad_request() {
    let e = check_header(&AuthHeader::Absent, KEY, NOW).err().unwrap();
    assert_eq!(e, GateRejection::MissingHeader);
    assert_eq!(e.status(), 400);
    assert_eq!(e.message(), "Missing headers");
}

#[test]
fn unreadable_header_is_a_bad_request() {
    let e = check_header(&AuthHeader::Unreadable, KEY, NOW).err().unwrap();
    assert_eq!(e, GateRejection::UnreadableHeader);
    assert_eq!(e.status(), 400);
    assert_eq!(e.message(), "Invalid Authorization header");
}

#[test]
fn header_without_two_words_is_refused() {
    for h in ["Bearer", "", "Bearer a b", "   "] {
        let e = check_header(&text(h), KEY, NOW).err().unwrap();
        assert_eq!(e, GateRejection::BadTokenFormat);
        assert_eq!(e.status(), 400);
        assert_eq!(e.message(), "Invalid Token Format");
    }
}

#[test]
fn valid_bearer_token_passes() {
    let t = issue_token("a@b.com", KEY, NOW);
    let c = check_header(&text(&format!("Bearer {}", t)), KEY, NOW + 1).unwrap();
    assert_eq!(c.subject, "a@b.com");
    let c = check_header(&text(&format!("  Bearer\t{}  ", t)), KEY, NOW + 1).unwrap();
    assert_eq!(c.subject, "a@b.com");
}

#[test]
fn expired_bearer_token_is_refused_with_expiry_message() {
    let t = issue_token("a@b.com", KEY, NOW);
    let e = check_header(&text(&format!("Bearer {}", t)), KEY, NOW + 4000).err().unwrap();
    assert_eq!(e, GateRejection::Token(TokenError::Expired));
    assert_eq!(e.status(), 400);
    assert_eq!(e.message(), "ExpiredSignature");
}

#[test]
fn garbage_bearer_token_is_refused() {
    let e = check_header(&text("Bearer nonsense"), KEY, NOW).err().unwrap();
    assert_eq!(e, GateRejection::Token(TokenError::Malformed));
    assert_eq!(e.status(), 400);
    assert_eq!(e.message(), "InvalidToken");
}

#[test]
fn authorize_uses_the_clock() {
    let now = std::time::SystemTime::now()
        .duration_since(std::time::UNIX_EPOCH)
        .unwrap()
        .as_secs();
    let fresh = issue_token("a@b.com", KEY, now);
    assert_eq!(authorize(&text(&format!("Bearer {}", fresh)), KEY).unwrap().subject, "a@b.com");
    let old = issue_token("a@b.com", KEY, now - 7200);
    assert_eq!(
        authorize(&text(&format!("Bearer {}", old)), KEY).err(),
        Some(GateRejection::Token(TokenError::Expired))
    );
}

#[test]
fn subject_lookup_decides_admission() {
    let t = issue_token("a@b.com", KEY, NOW);
    let header = text(&format!("Bearer {}", t));
    let c = check_header(&header, KEY, NOW).unwrap();
    assert_eq!(admit_subject(c, SubjectLookup::Found).unwrap(), "a@b.com");
    let c = check_header(&header, KEY, NOW).unwrap();
    let e = admit_subject(c, SubjectLookup::Missing).err().unwrap();
    assert_eq!(e, GateRejection::SubjectUnknown);
    assert_eq!(e.status(), 401);
    let c = check_header(&header, KEY, NOW).unwrap();
    let e = admit_subject(c, SubjectLookup::Failed).err().unwrap();
    assert_eq!(e, GateRejection::LookupFailed);
    assert_eq!(e.status(), 401);
}
