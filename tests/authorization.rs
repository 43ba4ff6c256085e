use std::time::{SystemTime, UNIX_EPOCH};
use wascap::prelude::{Actor, Claims, KeyPair};
use wascc_authz::{
    enforce_validation, AllowAll, AuthError, AuthorizationContext, BindError, CallError, EmbeddedToken, Grant, Validation,
};

const EMPTY_MODULE: &[u8] = b"\0asm\x01\0\0\0";

fn now() -> u64 {
    SystemTime::now().duration_since(UNIX_EPOCH).unwrap().as_secs()
}

fn signed_module(subject: &str, caps: &[&str], not_before: Option<u64>, expires: Option<u64>) -> Vec<u8> {
    let issuer = KeyPair::new_account();
    let claims = Claims::<Actor>::with_dates(
        "test actor".to_string(),
        issuer.public_key(),
        subject.to_string(),
        Some(caps.iter().map(|c| c.to_string()).collect()),
        None,
        not_before,
        expires,
        false,
        None,
        None,
    );
    wascap::wasm::embed_claims(EMPTY_MODULE, &claims, &issuer).unwrap()
}

fn signed_by(issuer_field: &str, subject: &str) -> Vec<u8> {
    let issuer = KeyPair::new_account();
    let claims = Claims::<Actor>::with_dates(
        "test actor".to_string(),
        issuer_field.to_string(),
        subject.to_string(),
        Some(vec!["cap:a".to_string()]),
        None,
        None,
        None,
        false,
        None,
        None,
    );
    wascap::wasm::embed_claims(EMPTY_MODULE, &claims, &issuer).unwrap()
}

fn jwt_of(module: &[u8]) -> String {
    wascap::wasm::extract_claims(module).unwrap().unwrap().jwt
}

// The empty module with a `jwt` custom section holding `jwt`; the module
// hash in the token covers the module without that section.
fn with_jwt(jwt: &str) -> Vec<u8> {
    let mut payload = vec![3u8];
    payload.extend_from_slice(b"jwt");
    payload.extend_from_slice(jwt.as_bytes());
    let mut module = EMPTY_MODULE.to_vec();
    module.push(0);
    let mut n = payload.len();
    loop {
        let byte = (n & 0x7f) as u8;
        n >>= 7;
        if n == 0 {
            module.push(byte);
            break;
        }
        module.push(byte | 0x80);
    }
    module.extend_from_slice(&payload);
    module
}

fn grant(subject: &str, caps: &[&str]) -> Grant {
    Grant {
        subject: subject.to_string(),
        issuer: "ISSUER".to_string(),
        issued_at: 0,
        expires_at: None,
        not_before: None,
        capabilities: Some(caps.iter().map(|c| c.to_string()).collect()),
    }
}

fn token(grant: Grant) -> EmbeddedToken {
    EmbeddedToken { jwt: "header.claims.signature".to_string(), grant }
}

fn validation(signature_valid: bool, expired: bool, cannot_use_yet: bool) -> Validation {
    Validation {
        signature_valid,
        expired,
        cannot_use_yet,
        not_before_human: "in 2 hours".to_string(),
    }
}

#[test]
fn valid_module_yields_its_grant() {
    let ctx = AuthorizationContext::new(AllowAll);
    let module = signed_module("MODULE1", &["wascc:keyvalue", "wascc:messaging"], None, None);
    let g = ctx.extract_and_validate(&module).unwrap();
    assert_eq!(g.subject, "MODULE1");
    assert_eq!(
        g.capabilities,
        Some(vec!["wascc:keyvalue".to_string(), "wascc:messaging".to_string()])
    );
    assert!(g.has_capability("wascc:keyvalue"));
    assert!(!g.has_capability("wascc:http_server"));
}

#[test]
fn expired_module_is_refused() {
    let ctx = AuthorizationContext::new(AllowAll);
    let module = signed_module("MODULE1", &["wascc:keyvalue"], None, Some(now() - 3600));
    assert_eq!(ctx.extract_and_validate(&module), Err(AuthError::Expired));
}

#[test]
fn early_module_is_refused() {
    let ctx = AuthorizationContext::new(AllowAll);
    let module = signed_module("MODULE1", &["wascc:keyvalue"], Some(now() + 7200), None);
    assert!(matches!(ctx.extract_and_validate(&module), Err(AuthError::NotYetValid(_))));
}

#[test]
fn module_without_token_is_refused() {
    let ctx = AuthorizationContext::new(AllowAll);
    assert_eq!(ctx.extract_and_validate(EMPTY_MODULE), Err(AuthError::MissingToken));
}

#[test]
fn unparsable_module_is_invalid() {
    let ctx = AuthorizationContext::new(AllowAll);
    assert_eq!(ctx.extract_and_validate(b"not a module"), Err(AuthError::InvalidSignature));
}

#[test]
fn timestamp_past_calendar_range_is_invalid() {
    let ctx = AuthorizationContext::new(AllowAll);
    let module = signed_module("MODULE1", &[], None, Some(9_000_000_000_000));
    assert_eq!(ctx.extract_and_validate(&module), Err(AuthError::InvalidSignature));
}

#[test]
fn tampered_module_is_invalid() {
    let ctx = AuthorizationContext::new(AllowAll);
    let mut module = signed_module("MODULE1", &["wascc:keyvalue"], None, None);
    // a second custom section changes the module hash the token was signed for
    module.extend_from_slice(&[0, 3, 1, b'x', 0]);
    assert_eq!(ctx.extract_and_validate(&module), Err(AuthError::InvalidSignature));
}

#[test]
fn validation_checks_in_order() {
    assert_eq!(enforce_validation(validation(false, true, true)), Err(AuthError::InvalidSignature));
    assert_eq!(enforce_validation(validation(true, true, true)), Err(AuthError::Expired));
    assert_eq!(
        enforce_validation(validation(true, false, true)),
        Err(AuthError::NotYetValid("in 2 hours".to_string()))
    );
    assert_eq!(enforce_validation(validation(true, false, false)), Ok(()));
}

#[test]
fn admission_applies_checks_then_policy() {
    let ctx = AuthorizationContext::new(AllowAll);
    let g = ctx.decide_admission(token(grant("S", &["cap:a"])), validation(true, false, false)).unwrap();
    assert_eq!(g.subject, "S");
    assert_eq!(
        ctx.decide_admission(token(grant("S", &["cap:a"])), validation(true, true, false)).map(|g| g.subject),
        Err(AuthError::Expired)
    );
}

#[test]
fn registered_capability_is_authorized() {
    let mut ctx = AuthorizationContext::new(AllowAll);
    ctx.register(1, grant("SUBJECT", &["cap:a"]));
    assert!(ctx.is_authorized(1, "cap:a"));
    assert!(!ctx.is_authorized(1, "cap:b"));
    assert!(!ctx.is_authorized(2, "cap:a"));
}

#[test]
fn subject_may_invoke_itself() {
    let mut ctx = AuthorizationContext::new(AllowAll);
    ctx.register(5, grant("SELF", &[]));
    assert!(ctx.is_authorized(5, "SELF"));
    let mut no_caps = grant("BARE", &[]);
    no_caps.capabilities = None;
    ctx.register(6, no_caps);
    assert!(ctx.is_authorized(6, "BARE"));
    assert!(!ctx.is_authorized(6, "cap:a"));
}

#[test]
fn unregistered_handle_is_denied() {
    let mut ctx = AuthorizationContext::new(AllowAll);
    ctx.register(7, grant("GONE", &["cap:a"]));
    assert_eq!(ctx.lookup_subject(7), "GONE");
    ctx.unregister(7);
    assert!(!ctx.is_authorized(7, "cap:a"));
    assert!(!ctx.is_authorized(7, "GONE"));
    assert_eq!(ctx.lookup_subject(7), "actor:7");
    assert!(ctx.lookup_grant("GONE").is_none());
}

#[test]
fn unknown_handle_reads_as_fallback() {
    let ctx = AuthorizationContext::new(AllowAll);
    assert_eq!(ctx.lookup_subject(18446744073709551615), "actor:18446744073709551615");
    assert_eq!(ctx.lookup_subject(0), "actor:0");
}

#[test]
fn register_twice_keeps_latest() {
    let mut ctx = AuthorizationContext::new(AllowAll);
    ctx.register(3, grant("FIRST", &["cap:a"]));
    ctx.register(3, grant("SECOND", &["cap:b"]));
    assert_eq!(ctx.lookup_subject(3), "SECOND");
    assert!(ctx.is_authorized(3, "cap:b"));
    assert!(!ctx.is_authorized(3, "cap:a"));
    ctx.register(4, grant("SECOND", &["cap:c"]));
    assert!(ctx.is_authorized(3, "cap:c"));
    assert!(!ctx.is_authorized(3, "cap:b"));
}

#[test]
fn unregister_drops_grant_of_sibling_instances() {
    let mut ctx = AuthorizationContext::new(AllowAll);
    ctx.register(1, grant("TWIN", &["cap:a"]));
    ctx.register(2, grant("TWIN", &["cap:a"]));
    ctx.unregister(1);
    assert_eq!(ctx.lookup_subject(2), "TWIN");
    assert!(!ctx.is_authorized(2, "cap:a"));
}

#[test]
fn lookup_and_snapshot_list_grants() {
    let mut ctx = AuthorizationContext::new(AllowAll);
    ctx.register(1, grant("A", &["cap:a"]));
    ctx.register(2, grant("B", &["cap:b"]));
    ctx.register(3, grant("A", &["cap:c"]));
    let a = ctx.lookup_grant("A").unwrap();
    assert_eq!(a.capabilities, Some(vec!["cap:c".to_string()]));
    let mut all: Vec<(String, Option<Vec<String>>)> =
        ctx.snapshot_all().into_iter().map(|(s, g)| (s, g.capabilities)).collect();
    all.sort();
    assert_eq!(
        all,
        vec![
            ("A".to_string(), Some(vec!["cap:c".to_string()])),
            ("B".to_string(), Some(vec!["cap:b".to_string()])),
        ]
    );
}

#[test]
fn binding_needs_granted_capability() {
    let mut ctx = AuthorizationContext::new(AllowAll);
    ctx.register(1, grant("ACTOR1", &["wascc:keyvalue"]));
    assert_eq!(ctx.check_binding("ACTOR1", "wascc:keyvalue"), Ok(()));
    assert_eq!(
        ctx.check_binding("ACTOR1", "wascc:http_server"),
        Err(BindError::CapabilityNotGranted)
    );
    assert_eq!(ctx.check_binding("NOBODY", "wascc:keyvalue"), Err(BindError::UnknownSubject));
}

#[test]
fn end_to_end_call_is_gated() {
    let mut ctx = AuthorizationContext::new(AllowAll);
    let module = signed_module("ACTOR1", &["wascc:keyvalue"], None, None);
    let g = ctx.extract_and_validate(&module).unwrap();
    ctx.register(42, g);
    assert_eq!(ctx.check_binding("ACTOR1", "wascc:keyvalue"), Ok(()));
    assert!(ctx.is_authorized(42, "wascc:keyvalue"));
    assert!(!ctx.is_authorized(42, "wascc:http_server"));
    assert_eq!(ctx.lookup_subject(42), "ACTOR1");
}


#[test]
fn call_refusals_are_told_apart() {
    let mut ctx = AuthorizationContext::new(AllowAll);
    ctx.register(9, grant("CALLER", &["cap:a"]));
    assert_eq!(ctx.authorize_call(9, "cap:a"), Ok(()));
    assert_eq!(ctx.authorize_call(9, "CALLER"), Ok(()));
    assert_eq!(ctx.authorize_call(9, "cap:b"), Err(CallError::AuthorizationDenied));
    assert_eq!(ctx.authorize_call(10, "cap:a"), Err(CallError::UnknownHandle));
    ctx.unregister(9);
    assert_eq!(ctx.authorize_call(9, "cap:a"), Err(CallError::UnknownHandle));
}

#[test]
fn rebuilt_module_keeps_its_grant() {
    let ctx = AuthorizationContext::new(AllowAll);
    let jwt = jwt_of(&signed_module("MODULE1", &["cap:a"], None, None));
    assert_eq!(ctx.extract_and_validate(&with_jwt(&jwt)).unwrap().subject, "MODULE1");
}

#[test]
fn short_signature_is_invalid() {
    let ctx = AuthorizationContext::new(AllowAll);
    let jwt = jwt_of(&signed_module("MODULE1", &["cap:a"], None, None));
    let cut = &jwt[..jwt.len() - 10];
    assert_eq!(ctx.extract_and_validate(&with_jwt(cut)), Err(AuthError::InvalidSignature));
}

#[test]
fn forged_signature_is_invalid() {
    let ctx = AuthorizationContext::new(AllowAll);
    let jwt = jwt_of(&signed_module("MODULE1", &["cap:a"], None, None));
    let dot = jwt.rfind('.').unwrap();
    let forged = format!("{}.{}", &jwt[..dot], "A".repeat(86));
    assert_eq!(ctx.extract_and_validate(&with_jwt(&forged)), Err(AuthError::InvalidSignature));
}

#[test]
fn short_issuer_is_invalid() {
    let ctx = AuthorizationContext::new(AllowAll);
    assert_eq!(ctx.extract_and_validate(&signed_by("ABC", "MODULE1")), Err(AuthError::InvalidSignature));
}

#[test]
fn top_of_range_expiry_is_accepted() {
    let ctx = AuthorizationContext::new(AllowAll);
    let module = signed_module("MODULE1", &["cap:a"], None, Some(u64::MAX));
    assert_eq!(ctx.extract_and_validate(&module).unwrap().subject, "MODULE1");
}

#[test]
fn forged_signature_with_high_last_byte_is_invalid() {
    let ctx = AuthorizationContext::new(AllowAll);
    let jwt = jwt_of(&signed_module("MODULE1", &["cap:a"], None, None));
    let dot = jwt.rfind('.').unwrap();
    let forged = format!("{}.{}A", &jwt[..dot], "_".repeat(85));
    assert_eq!(ctx.extract_and_validate(&with_jwt(&forged)), Err(AuthError::InvalidSignature));
}
