//! Bearer credentials: signed tokens of three `.`-separated parts whose middle
//! part, in base64, is a JSON object naming the account in its `sub` claim.
//! Reading the account id is local: nothing is sent anywhere.
use vstd::prelude::*;
use vstd::string::*;

verus! {

#[verifier::external_type_specification]
#[verifier::external_body]
pub struct ExDecodeError(base64::DecodeError);

#[verifier::external_type_specification]
#[verifier::external_body]
pub struct ExJsonError(serde_json::Error);

/// Why a credential names no account.
#[derive(Clone, Copy, Debug, PartialEq, Eq, Structural)]
pub enum CredentialError {
    /// The token has no `.`, so no payload part.
    NoPayload,
    /// The payload part is not unpadded standard base64.
    NotBase64,
    /// The decoded payload is not JSON.
    NotJson,
    /// The payload has no `sub` claim that is an unsigned 64-bit integer.
    NoSubject,
}

/// What unpadded standard base64 text decodes to; none where it is not such
/// text.
pub uninterp spec fn base64_decoded(text: Seq<u8>) -> Option<Seq<u8>>;

/// The `sub` claim of a JSON payload: none where the bytes are not JSON, and
/// `Some(None)` where the claim is missing or not an unsigned 64-bit integer.
pub uninterp spec fn subject_claim(payload: Seq<u8>) -> Option<Option<u64>>;

/// Relies on base64's `BASE64_STANDARD_NO_PAD` engine and its `decode`.
#[verifier::external_body]
fn decode_base64(text: &[u8]) -> (r: Result<Vec<u8>, base64::DecodeError>)
    ensures
        match r {
            Ok(v) => base64_decoded(text@) == Some(v@),
            Err(_) => base64_decoded(text@) is None,
        },
{
    base64::Engine::decode(&base64::prelude::BASE64_STANDARD_NO_PAD, text)
}

/// Relies on `serde_json::from_slice` into a `serde_json::Value`, then on
/// indexing it by `"sub"` and `Value::as_u64`.
#[verifier::external_body]
fn read_subject(payload: &[u8]) -> (r: Result<Option<u64>, serde_json::Error>)
    ensures
        match r {
            Ok(c) => subject_claim(payload@) == Some(c),
            Err(_) => subject_claim(payload@) is None,
        },
{
    serde_json::from_slice::<serde_json::Value>(payload).map(|v| v["sub"].as_u64())
}

/// The index of the first `.` in `s` at or after `from`, or the length of `s`
/// where there is none.
pub open spec fn dot_from(s: Seq<u8>, from: int) -> int
    decreases s.len() - from,
{
    if from < 0 || from >= s.len() {
        s.len() as int
    } else if s[from] == 0x2e {
        from
    } else {
        dot_from(s, from + 1)
    }
}

/// The second `.`-separated part of a token; none where the token has no `.`.
pub open spec fn payload_part(token: Seq<u8>) -> Option<Seq<u8>> {
    let first: int = dot_from(token, 0);
    if first >= token.len() {
        None
    } else {
        Some(token.subrange(first + 1, dot_from(token, first + 1)))
    }
}

/// The account id that a read `sub` claim gives (see `subject_claim`).
pub open spec fn claim_subject(claim: Option<Option<u64>>) -> Result<u64, CredentialError> {
    match claim {
        None => Err(CredentialError::NotJson),
        Some(None) => Err(CredentialError::NoSubject),
        Some(Some(id)) => Ok(id),
    }
}

/// The account id that a token names, or why it names none.
pub open spec fn credential_subject(token: Seq<u8>) -> Result<u64, CredentialError> {
    match payload_part(token) {
        None => Err(CredentialError::NoPayload),
        Some(part) => match base64_decoded(part) {
            None => Err(CredentialError::NotBase64),
            Some(payload) => claim_subject(subject_claim(payload)),
        },
    }
}

fn find_dot(s: &[u8], from: usize) -> (r: usize)
    requires
        from <= s@.len(),
    ensures
        r == dot_from(s@, from as int),
        from <= r <= s@.len(),
{
    let mut i: usize = from;
    while i < s.len() && s[i] != 0x2e
        invariant
            from <= i <= s@.len(),
            dot_from(s@, i as int) == dot_from(s@, from as int),
        decreases s@.len() - i,
    {
        i += 1;
    }
    i
}

/// The second `.`-separated part of a token, which carries its claims.
pub fn payload_segment(token: &[u8]) -> (r: Option<Vec<u8>>)
    ensures
        match payload_part(token@) {
            Some(p) => r matches Some(v) && v@ == p,
            None => r is None,
        },
{
    let first: usize = find_dot(token, 0);
    if first >= token.len() {
        return None;
    }
    let end: usize = find_dot(token, first + 1);
    let mut part: Vec<u8> = Vec::new();
    let mut i: usize = first + 1;
    while i < end
        invariant
            first + 1 <= i <= end <= token@.len(),
            part@ == token@.subrange(first + 1, i as int),
        decreases end - i,
    {
        part.push(token[i]);
        i += 1;
        assert(part@ =~= token@.subrange(first + 1, i as int));
    }
    Some(part)
}

/// The account id that a bearer credential names in its `sub` claim.
pub fn uid_from_credential(token: &str) -> (r: Result<u64, CredentialError>)
    ensures
        r == credential_subject(token.spec_bytes()),
{
    let bytes = token.as_bytes();
    let part = match payload_segment(bytes) {
        Some(p) => p,
        None => return Err(CredentialError::NoPayload),
    };
    let payload = match decode_base64(part.as_slice()) {
        Ok(p) => p,
        Err(_) => return Err(CredentialError::NotBase64),
    };
    let claim = match read_subject(payload.as_slice()) {
        Ok(c) => Some(c),
        Err(_) => None,
    };
    uid_from_claim(claim)
}

/// The account id that a read `sub` claim gives: none where the payload was
/// not JSON, or where the claim is missing or not an unsigned 64-bit integer.
pub fn uid_from_claim(claim: Option<Option<u64>>) -> (r: Result<u64, CredentialError>)
    ensures
        r == claim_subject(claim),
{
    match claim {
        None => Err(CredentialError::NotJson),
        Some(None) => Err(CredentialError::NoSubject),
        Some(Some(id)) => Ok(id),
    }
}

} // verus!
