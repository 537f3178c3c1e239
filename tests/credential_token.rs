use duopow::credential::{payload_segment, uid_from_claim, uid_from_credential, CredentialError};

#[test]
fn payload_segment_is_second_part() {
    assert_eq!(payload_segment(b"a.b.c"), Some(b"b".to_vec()));
    assert_eq!(payload_segment(b"a.b"), Some(b"b".to_vec()));
    assert_eq!(payload_segment(b"a..c"), Some(Vec::new()));
    assert_eq!(payload_segment(b".xyz.c.d"), Some(b"xyz".to_vec()));
    assert_eq!(payload_segment(b"abc"), None);
    assert_eq!(payload_segment(b""), None);
}

#[test]
fn reads_subject_from_credential() {
    assert_eq!(uid_from_credential("eyJhbGciOiJIUzI1NiJ9.eyJzdWIiOjQyfQ.c2ln"), Ok(42));
    assert_eq!(
        uid_from_credential("eyJhbGciOiJIUzI1NiJ9.eyJzdWIiOjEyMzQ1Njc4OTAxLCJleHAiOjF9.c2ln"),
        Ok(12345678901)
    );
}

#[test]
fn credential_errors() {
    assert_eq!(uid_from_credential("no-dots-here"), Err(CredentialError::NoPayload));
    assert_eq!(uid_from_credential("a.!!!.c"), Err(CredentialError::NotBase64));
    assert_eq!(uid_from_credential("a.eyJzdWIiOjQyfQ==.c"), Err(CredentialError::NotBase64));
    assert_eq!(uid_from_credential("a.bm90IGpzb24.c"), Err(CredentialError::NotJson));
    assert_eq!(uid_from_credential("a.eyJuYW1lIjoieCJ9.c"), Err(CredentialError::NoSubject));
    assert_eq!(uid_from_credential("a.eyJzdWIiOiI0MiJ9.c"), Err(CredentialError::NoSubject));
}

#[test]
fn claim_gives_subject_or_error() {
    assert_eq!(uid_from_claim(Some(Some(42))), Ok(42));
    assert_eq!(uid_from_claim(Some(None)), Err(CredentialError::NoSubject));
    assert_eq!(uid_from_claim(None), Err(CredentialError::NotJson));
}
