use std::time::{SystemTime, UNIX_EPOCH};

use jsonwebtoken::{encode, DecodingKey, EncodingKey, Header};
use lore_auth::ids::{Context, RepositoryId};
use lore_auth::jose::{claims_segment, Algorithm};
use lore_auth::server::jwk::{
    default_max_stale_seconds, default_refresh_interval_seconds, JWKServiceError, JWKServiceKey,
    JWKServiceSettings, JwkServiceImpl, KeyLookup,
};
use lore_auth::server::jwt::{
    verify_authorization, AuthorizationToken, Claims, JWTUserInfo, JwtVerifier, JwtVerifierError,
    ResourcePermission, VerifyAction, VerifyEvent,
};
use lore_auth::server::repository_metadata_get;
use lore_auth::server::repository_create::Address;
use lore_auth::status::{Code, Status};
use serde_json::Value;

const SECRET: &str = "the-secret";
const KEY_SET: &str =
    r#"{"keys":[{"kty":"oct","kid":"the kid","alg":"HS256","k":"dGhlLXNlY3JldA"}]}"#;

fn repository(hex: &str) -> RepositoryId {
    Context::from_hex(hex).unwrap().into()
}

fn strings(items: &[&str]) -> Vec<String> {
    items.iter().map(|item| item.to_string()).collect()
}

fn soon() -> u64 {
    SystemTime::now().duration_since(UNIX_EPOCH).unwrap().as_secs() + 5
}

fn token_with_resource(resource_id: &str, permission: &[&str]) -> AuthorizationToken {
    AuthorizationToken {
        audience: strings(&["test"]),
        env: "test".to_string(),
        expires: 1234,
        user_id: "test".to_string(),
        idp: "test".to_string(),
        issuer: "test".to_string(),
        name: "test".to_string(),
        preferred_username: "test".to_string(),
        groups: None,
        is_service_account: Some(false),
        issued_at: 123,
        resources: Some(vec![ResourcePermission {
            resource_id: resource_id.to_string(),
            permission: strings(permission),
        }]),
    }
}

#[test]
fn resource_permission_matches_wildcard_resource() {
    let wildcard_resource_permission = ResourcePermission {
        permission: vec![],
        resource_id: "urc-*".to_string(),
    };
    let non_wildcard_resource_permission = ResourcePermission {
        permission: vec![],
        resource_id: "urc-123456".to_string(),
    };
    assert!(wildcard_resource_permission.is_wildcard_resource());
    assert!(!non_wildcard_resource_permission.is_wildcard_resource());
}

#[test]
fn resource_permission_matches_repository() {
    let test_repository_id = "urc-0194b726b34e72b0b45550b88a967076".to_string();
    let unrelated_repository_id = "urc-0192ae48ccf17060bc1ba9d04f6acb2f".to_string();
    let wildcard_resource_permission = ResourcePermission {
        permission: vec![],
        resource_id: "urc-*".to_string(),
    };
    let regular_resource_permission = ResourcePermission {
        permission: vec![],
        resource_id: test_repository_id.clone(),
    };
    assert!(!wildcard_resource_permission.matches_repository(&test_repository_id));
    assert!(!wildcard_resource_permission.matches_repository(&unrelated_repository_id));
    assert!(regular_resource_permission.matches_repository(&test_repository_id));
    assert!(!regular_resource_permission.matches_repository(&unrelated_repository_id));
}

#[test]
fn verify_authorization_allows_repo_from_token() {
    let token = token_with_resource("urc-0194b726b34e72b0b45550b88a967076", &["write"]);
    verify_authorization(&token, repository("0194b726b34e72b0b45550b88a967076"))
        .expect("verify auth failed");
    verify_authorization(&token, repository("f6ca55437aa34198ba0f0fdc33154d51"))
        .expect_err("verify auth should have failed");
}

#[test]
fn verify_authorization_rejects_wildcard_token() {
    let token = token_with_resource("urc-*", &["write"]);
    for hex in [
        "0194b726b34e72b0b45550b88a967076",
        "f6ca55437aa34198ba0f0fdc33154d51",
        "54006a8ca619475881f7083d625a7947",
    ] {
        verify_authorization(&token, repository(hex))
            .expect_err("wildcard authorization must be rejected");
    }
}

#[test]
fn verify_authorization_requires_a_known_permission() {
    let mut token = token_with_resource("urc-0194b726b34e72b0b45550b88a967076", &["admin"]);
    token.audience = strings(&["lore"]);
    verify_authorization(&token, repository("0194b726b34e72b0b45550b88a967076"))
        .expect_err("unknown permission must be rejected");
}

#[test]
fn verify_authorization_needs_exactly_one_resource() {
    let id = repository("0194b726b34e72b0b45550b88a967076");
    let mut token = token_with_resource("urc-0194b726b34e72b0b45550b88a967076", &["read"]);
    assert!(verify_authorization(&token, id).is_ok());
    let resource = token.resources.as_ref().unwrap()[0].clone();
    token.resources = Some(vec![resource.clone(), resource]);
    assert!(matches!(verify_authorization(&token, id), Err(JwtVerifierError::NotAuthorized)));
    token.resources = Some(vec![]);
    assert!(verify_authorization(&token, id).is_err());
    token.resources = None;
    assert!(verify_authorization(&token, id).is_err());
}

// Claims as they are sent: `aud` is a string or a list.
fn claims_value(aud: Value, idp: Option<&str>) -> Value {
    let mut map = serde_json::Map::new();
    map.insert("sub".to_string(), Value::from("the u"));
    map.insert("iss".to_string(), Value::from("the issuer"));
    map.insert("iat".to_string(), Value::from(1u64));
    map.insert("aud".to_string(), aud);
    map.insert("env".to_string(), Value::from("the env"));
    map.insert("name".to_string(), Value::from("the name"));
    map.insert("preferred_username".to_string(), Value::from("pu"));
    map.insert("is_service_account".to_string(), Value::from(false));
    map.insert("exp".to_string(), Value::from(soon()));
    if let Some(idp) = idp {
        map.insert("idp".to_string(), Value::from(idp));
    }
    Value::Object(map)
}

fn list(items: &[&str]) -> Value {
    Value::from(strings(items))
}

fn encode_jwt(claims: &Value) -> String {
    let mut header = Header::new(jsonwebtoken::Algorithm::HS256);
    header.kid = Some("the kid".into());
    encode(&header, claims, &EncodingKey::from_secret(SECRET.as_ref())).unwrap()
}

fn text_of(value: &Value, name: &str) -> String {
    value[name].as_str().unwrap().to_string()
}

fn parse(claims: &[u8]) -> Result<Claims, jsonwebtoken::errors::Error> {
    let value: Value = serde_json::from_slice(claims)?;
    let _: String = serde_json::from_value(value["env"].clone())?;
    Ok(claims_of(value))
}

fn claims_of(value: Value) -> Claims {
    let audience = match &value["aud"] {
        Value::String(one) => vec![one.clone()],
        many => many.as_array().unwrap().iter().map(|v| v.as_str().unwrap().to_string()).collect(),
    };
    if value["idp"].is_string() {
        Claims::Authorization(AuthorizationToken {
            user_id: text_of(&value, "sub"),
            issuer: text_of(&value, "iss"),
            issued_at: value["iat"].as_u64().unwrap(),
            expires: value["exp"].as_u64().unwrap(),
            audience,
            env: text_of(&value, "env"),
            name: text_of(&value, "name"),
            preferred_username: text_of(&value, "preferred_username"),
            resources: None,
            groups: None,
            is_service_account: value["is_service_account"].as_bool(),
            idp: text_of(&value, "idp"),
        })
    } else {
        Claims::User(JWTUserInfo {
            user_id: text_of(&value, "sub"),
            issuer: text_of(&value, "iss"),
            issued_at: value["iat"].as_u64().unwrap(),
            audience,
            env: text_of(&value, "env"),
            name: text_of(&value, "name"),
            preferred_username: text_of(&value, "preferred_username"),
            is_service_account: value["is_service_account"].as_bool(),
            expires: value["exp"].as_u64().unwrap(),
        })
    }
}

fn rules(audience: &[&str]) -> JwtVerifier {
    JwtVerifier {
        jwt_issuer: None,
        jwt_audience: Some(strings(audience)),
        algorithm: Algorithm::HS256,
        required_environment: None,
    }
}

fn agreed_key() -> JWKServiceKey {
    JWKServiceKey {
        decoding_key: DecodingKey::from_secret(SECRET.as_ref()),
        algorithm: Algorithm::HS256,
    }
}

fn verify_with(
    guard: &JwtVerifier,
    token: &str,
    mut reply: Option<Result<JWKServiceKey, JWKServiceError>>,
) -> Result<AuthorizationToken, JwtVerifierError> {
    let (mut state, mut action) = guard.verify_token(token);
    loop {
        let event = match action {
            VerifyAction::GetKey { kid } => {
                assert_eq!(kid, "the kid");
                VerifyEvent::Key { reply: reply.take().unwrap() }
            }
            VerifyAction::ParseClaims { claims } => VerifyEvent::Claims { parsed: parse(&claims) },
            VerifyAction::Finish { result } => return result,
        };
        (state, action) = guard.step(state, event);
    }
}

fn verify(guard: &JwtVerifier, token: &str) -> Result<AuthorizationToken, JwtVerifierError> {
    verify_with(guard, token, Some(Ok(agreed_key())))
}

fn authorization(claims: &Value, audience: &[&str]) -> AuthorizationToken {
    AuthorizationToken {
        user_id: "the u".to_string(),
        issuer: "the issuer".to_string(),
        issued_at: 1,
        audience: strings(audience),
        env: "the env".to_string(),
        name: "the name".to_string(),
        preferred_username: "pu".to_string(),
        resources: None,
        groups: None,
        is_service_account: Some(false),
        expires: claims["exp"].as_u64().unwrap(),
        idp: "the idp".to_string(),
    }
}

#[test]
fn verify_string_audience_in_authn_token_against_multiple_allowed() {
    let guard = rules(&["urc.example.com", "URC_test"]);
    let encoded = encode_jwt(&claims_value(Value::from("URC_test"), None));
    let verified = verify(&guard, &encoded).unwrap();
    assert_eq!(verified.audience, vec!["URC_test".to_string()]);
    assert_eq!(verified.idp, "");
    assert_eq!(verified.resources, None);
}

#[test]
fn verify_string_audience_in_authz_token_against_multiple_allowed() {
    let guard = rules(&["urc.example.com", "URC_test"]);
    let claims = claims_value(Value::from("URC_test"), Some("the idp"));
    let verified = verify(&guard, &encode_jwt(&claims)).unwrap();
    assert_eq!(verified, authorization(&claims, &["URC_test"]));
}

#[test]
fn verify_single_audience_against_multiple_allowed() {
    let guard = rules(&["urc.example.com", "Lore"]);
    let authz = claims_value(list(&["Lore"]), Some("the idp"));
    let authn = claims_value(list(&["Lore"]), None);
    let verified_authz = verify(&guard, &encode_jwt(&authz)).unwrap();
    let verified_authn = verify(&guard, &encode_jwt(&authn)).unwrap();
    assert_eq!(verified_authz, authorization(&authz, &["Lore"]));
    assert_eq!(verified_authn.audience, strings(&["Lore"]));
}

#[test]
fn verify_multiple_audience_against_multiple_allowed() {
    let guard = rules(&["urc.example.com", "Lore"]);
    let claims = claims_value(list(&["urc.example.com", "Lore"]), Some("the idp"));
    let verified = verify(&guard, &encode_jwt(&claims)).unwrap();
    assert_eq!(verified, authorization(&claims, &["urc.example.com", "Lore"]));
}

#[test]
fn verify_multiple_audience_against_single_allowed() {
    let guard = rules(&["Lore"]);
    let claims = claims_value(list(&["urc.example.com", "Lore"]), Some("the idp"));
    let verified = verify(&guard, &encode_jwt(&claims)).unwrap();
    assert_eq!(verified, authorization(&claims, &["urc.example.com", "Lore"]));
}

#[test]
fn rejects_unrecognised_audience() {
    let guard = rules(&["skein"]);
    let token = encode_jwt(&claims_value(list(&["Lore"]), Some("the idp")));
    let refused = verify(&guard, &token).unwrap_err();
    assert!(matches!(refused, JwtVerifierError::ValidationFailed(_)));
    assert!(!refused.is_expiry());
    assert!(!JwtVerifierError::NotAuthorized.is_expiry());
}

#[test]
fn production_contract_requires_both_mandatory_audiences() {
    let guard = JwtVerifier {
        jwt_issuer: Some("the issuer".to_string()),
        jwt_audience: Some(strings(&["lore", "portals.sh"])),
        algorithm: Algorithm::HS256,
        required_environment: Some("the env".to_string()),
    };
    let one = encode_jwt(&claims_value(list(&["lore"]), Some("the idp")));
    assert!(matches!(verify(&guard, &one), Err(JwtVerifierError::AudienceMismatch)));
    let other = encode_jwt(&claims_value(list(&["portals.sh"]), Some("the idp")));
    assert!(matches!(verify(&guard, &other), Err(JwtVerifierError::AudienceMismatch)));
    let both = encode_jwt(&claims_value(list(&["portals.sh", "lore"]), Some("the idp")));
    assert!(verify(&guard, &both).is_ok());
}

#[test]
fn tokens_of_another_environment_or_issuer_are_rejected() {
    let mut guard = rules(&["Lore"]);
    let token = encode_jwt(&claims_value(list(&["Lore"]), Some("the idp")));
    guard.required_environment = Some("another env".to_string());
    assert!(matches!(verify(&guard, &token), Err(JwtVerifierError::EnvironmentMismatch)));
    guard.required_environment = None;
    guard.jwt_issuer = Some("another issuer".to_string());
    assert!(matches!(verify(&guard, &token), Err(JwtVerifierError::ValidationFailed(_))));
}

#[test]
fn tokens_that_have_expired_or_are_signed_otherwise_are_rejected() {
    let guard = rules(&["Lore"]);
    let mut claims = claims_value(list(&["Lore"]), Some("the idp"));
    claims["exp"] = Value::from(1000u64);
    let expired = encode_jwt(&claims);
    let refused = verify(&guard, &expired).unwrap_err();
    assert!(matches!(refused, JwtVerifierError::ValidationFailed(_)));
    assert!(refused.is_expiry());
    let token = encode_jwt(&claims_value(list(&["Lore"]), Some("the idp")));
    let other = JWKServiceKey {
        decoding_key: DecodingKey::from_secret("another-secret".as_ref()),
        algorithm: Algorithm::HS256,
    };
    assert!(matches!(
        verify_with(&guard, &token, Some(Ok(other))),
        Err(JwtVerifierError::ValidationFailed(_))
    ));
}

#[test]
fn claims_that_cannot_be_parsed_are_the_first_reason() {
    let guard = rules(&["Lore"]);
    let mut claims = claims_value(list(&["Lore"]), Some("the idp"));
    claims["exp"] = Value::from(1000u64);
    let kind = |claims: &Value| match verify(&guard, &encode_jwt(claims)) {
        Err(JwtVerifierError::ValidationFailed(error)) => error.into_kind(),
        _ => panic!("the token is not valid"),
    };
    assert!(matches!(kind(&claims), jsonwebtoken::errors::ErrorKind::ExpiredSignature));
    claims["env"] = Value::from(1u64);
    assert!(matches!(kind(&claims), jsonwebtoken::errors::ErrorKind::Json(_)));
}

#[test]
fn tokens_are_asked_about_step_by_step() {
    let guard = rules(&["Lore"]);
    let sent = claims_value(list(&["Lore"]), Some("the idp"));
    let token = encode_jwt(&sent);
    let (state, action) = guard.verify_token(&token);
    assert!(matches!(action, VerifyAction::GetKey { kid } if kid == "the kid"));
    let (state, action) = guard.step(state, VerifyEvent::Key { reply: Ok(agreed_key()) });
    let claims = match action {
        VerifyAction::ParseClaims { claims } => claims,
        _ => panic!("the claims are parsed next"),
    };
    assert_eq!(serde_json::from_slice::<Value>(&claims).unwrap(), sent);
    let (_, action) = guard.step(state, VerifyEvent::Claims { parsed: parse(&claims) });
    match action {
        VerifyAction::Finish { result } => {
            assert_eq!(result.unwrap(), authorization(&sent, &["Lore"]));
        }
        _ => panic!("the token is accepted"),
    }
}

#[test]
fn claims_that_nobody_reads_need_not_be_text() {
    let guard = rules(&["Lore"]);
    let valid = claims_value(list(&["Lore"]), Some("the idp"));
    let mut bytes = serde_json::to_vec(&valid).unwrap();
    bytes.pop();
    bytes.extend_from_slice(b",\"extra\":\"\xff\"}");
    let header = encode_jwt(&valid).split('.').next().unwrap().to_string();
    let engine = base64::prelude::BASE64_URL_SAFE_NO_PAD;
    let message = format!("{header}.{}", base64::Engine::encode(&engine, &bytes));
    let signature = jsonwebtoken::crypto::sign(
        message.as_bytes(),
        &EncodingKey::from_secret(SECRET.as_ref()),
        jsonwebtoken::Algorithm::HS256,
    )
    .unwrap();
    let token = format!("{message}.{signature}");
    let (state, _) = guard.verify_token(&token);
    let (state, action) = guard.step(state, VerifyEvent::Key { reply: Ok(agreed_key()) });
    assert!(matches!(action, VerifyAction::ParseClaims { claims } if claims == bytes));
    let parsed = Ok(claims_of(valid.clone()));
    let (_, action) = guard.step(state, VerifyEvent::Claims { parsed });
    assert!(matches!(action, VerifyAction::Finish { result: Ok(_) }));
}

#[test]
fn claims_stand_between_the_last_two_dots() {
    assert_eq!(claims_segment("a.b.c"), "b");
    assert_eq!(claims_segment("x.a.b.c"), "b");
    assert_eq!(claims_segment("a..c"), "");
    assert_eq!(claims_segment("a.b"), "");
    assert_eq!(claims_segment("a"), "");
}

#[test]
fn headers_must_name_the_algorithm_and_the_key() {
    let guard = rules(&["Lore"]);
    let claims = claims_value(list(&["Lore"]), Some("the idp"));
    let key = EncodingKey::from_secret(SECRET.as_ref());
    let mut header = Header::new(jsonwebtoken::Algorithm::HS256);
    let unnamed = encode(&header, &claims, &key).unwrap();
    assert!(matches!(guard.key_id(&unnamed), Err(JwtVerifierError::HeaderKIDMissing)));
    header.kid = Some(" \t ".into());
    let blank = encode(&header, &claims, &key).unwrap();
    assert!(matches!(guard.key_id(&blank), Err(JwtVerifierError::HeaderKIDMissing)));
    let mut header = Header::new(jsonwebtoken::Algorithm::HS512);
    header.kid = Some("the kid".into());
    let stronger = encode(&header, &claims, &key).unwrap();
    assert!(matches!(guard.key_id(&stronger), Err(JwtVerifierError::AlgorithmNotAllowed)));
    assert!(matches!(guard.key_id("no token"), Err(JwtVerifierError::ValidationFailed(_))));
}

#[test]
fn keys_must_be_found_and_be_for_the_algorithm() {
    let guard = rules(&["Lore"]);
    let token = encode_jwt(&claims_value(list(&["Lore"]), Some("the idp")));
    assert!(matches!(
        verify_with(&guard, &token, Some(Err(JWKServiceError::NotFound))),
        Err(JwtVerifierError::KeyNotFound(JWKServiceError::NotFound))
    ));
    let mut key = agreed_key();
    key.algorithm = Algorithm::RS256;
    assert!(matches!(
        verify_with(&guard, &token, Some(Ok(key))),
        Err(JwtVerifierError::AlgorithmNotAllowed)
    ));
}

#[test]
fn verifier_errors_are_described() {
    assert_eq!(JwtVerifierError::NotAuthorized.message(), "JWT authorization failed");
    assert_eq!(
        JwtVerifierError::KeyNotFound(JWKServiceError::NotFound).message(),
        "JWT header could not be parsed"
    );
    assert_eq!(JWKServiceError::NotFound.message(), "Key for kid not found");
    assert_eq!(JWKServiceError::InternalError.message(), "Internal Error");
}

#[test]
fn an_empty_token_is_the_default() {
    let token = AuthorizationToken::default();
    assert_eq!(token.user_id, "");
    assert_eq!(token.audience, Vec::<String>::new());
    assert_eq!(token.resources, None);
}

fn service() -> JwkServiceImpl {
    JwkServiceImpl::new(JWKServiceSettings::default())
}

#[test]
fn settings_have_their_defaults() {
    assert_eq!(default_refresh_interval_seconds(), 60);
    assert_eq!(default_max_stale_seconds(), 600);
    let settings = JWKServiceSettings::default();
    assert_eq!(settings.endpoint, "");
    assert_eq!(settings.refresh_interval_seconds, 60);
    assert_eq!(settings.max_stale_seconds, 600);
}

const SECOND: u128 = 1_000_000_000;

fn fetched(set: &str, now: u128) -> JwkServiceImpl {
    let mut service = service();
    service.fetch_new_keys(Some((true, set.to_string())), now).unwrap();
    service
}

#[test]
fn fetched_keys_verify_tokens() {
    assert!(matches!(service().get_cached_key("the kid"), Err(JWKServiceError::NotFound)));
    let service = fetched(KEY_SET, 7);
    let key = match service.get_key("the kid", 7) {
        KeyLookup::Ready(key) => key,
        KeyLookup::Fetch { .. } => panic!("a fresh key needs no fetch"),
    };
    assert_eq!(key.algorithm, Algorithm::HS256);
    let token = encode_jwt(&claims_value(list(&["Lore"]), Some("the idp")));
    assert!(verify_with(&rules(&["Lore"]), &token, Some(Ok(key))).is_ok());
}

#[test]
fn keys_are_fetched_when_they_are_unknown_or_old() {
    let start = 5 * SECOND;
    assert!(matches!(
        service().get_key("the kid", start),
        KeyLookup::Fetch { cached: None, age: None }
    ));
    let service = fetched(KEY_SET, start);
    assert!(matches!(service.get_key("the kid", start + 60 * SECOND), KeyLookup::Ready(_)));
    match service.get_key("the kid", start + 60 * SECOND + 1) {
        KeyLookup::Fetch { cached: Some(_), age } => assert_eq!(age, Some(60 * SECOND + 1)),
        _ => panic!("an old key needs a fetch"),
    }
    assert!(matches!(
        service.get_key("other", start),
        KeyLookup::Fetch { cached: None, age: Some(0) }
    ));
}

#[test]
fn a_desired_key_that_is_known_needs_no_fetch() {
    assert!(service().needs_fetch(Some("the kid")));
    let service = fetched(KEY_SET, 0);
    assert!(matches!(
        service.get_key("the kid", 61 * SECOND),
        KeyLookup::Fetch { cached: Some(_), .. }
    ));
    assert!(!service.needs_fetch(Some("the kid")));
    assert!(service.needs_fetch(Some("other")));
    assert!(service.needs_fetch(None));
}

#[test]
fn a_successful_fetch_makes_the_keys_new() {
    let mut service = service();
    assert_eq!(service.last_successful_refresh, None);
    assert_eq!(service.age(9), None);
    service.fetch_new_keys(Some((true, KEY_SET.to_string())), 10).unwrap();
    assert_eq!(service.last_successful_refresh, Some(10));
    assert_eq!((service.age(10), service.age(25), service.age(3)), (Some(0), Some(15), Some(0)));
    assert!(service.fetch_new_keys(None, 20).is_err());
    assert_eq!(service.last_successful_refresh, Some(10));
    service.fetch_new_keys(Some((true, KEY_SET.to_string())), 30).unwrap();
    assert_eq!(service.last_successful_refresh, Some(30));
}

#[test]
fn stale_keys_are_used_for_a_while() {
    let service = fetched(KEY_SET, SECOND);
    let failed = || Err(JWKServiceError::InternalError);
    let at = |now: u128| match service.get_key("the kid", now) {
        KeyLookup::Ready(key) => Ok(key),
        KeyLookup::Fetch { cached, age } => service.after_fetch("the kid", cached, age, failed()),
    };
    assert!(at(601 * SECOND).is_ok());
    assert!(matches!(at(601 * SECOND + 1), Err(JWKServiceError::InternalError)));
    let kid = "the kid";
    assert!(service.after_fetch(kid, Some(agreed_key()), None, failed()).is_err());
    assert!(service.after_fetch(kid, None, Some(0), failed()).is_err());
    assert!(service.after_fetch(kid, None, Some(700 * SECOND), Ok(())).is_ok());
    assert!(matches!(
        service.after_fetch("gone", Some(agreed_key()), Some(0), Ok(())),
        Err(JWKServiceError::NotFound)
    ));
}

#[test]
fn a_failed_fetch_keeps_the_keys() {
    let mut service = fetched(KEY_SET, 1);
    assert!(matches!(service.fetch_new_keys(None, 2), Err(JWKServiceError::InternalError)));
    assert!(matches!(
        service.fetch_new_keys(Some((false, KEY_SET.to_string())), 2),
        Err(JWKServiceError::InternalError)
    ));
    assert!(matches!(
        service.fetch_new_keys(Some((true, "no json".to_string())), 2),
        Err(JWKServiceError::ParseError(_))
    ));
    for (set, internal) in [
        (r#"{"keys":[{"kty":"oct","alg":"HS256","k":"AA"}]}"#, true),
        (r#"{"keys":[{"kty":"oct","kid":"x","k":"AA"}]}"#, true),
        (r#"{"keys":[{"kty":"oct","kid":"x","alg":"RSA-OAEP","k":"AA"}]}"#, false),
        (r#"{"keys":[{"kty":"oct","kid":"x","alg":"HS256","k":"?"}]}"#, false),
    ] {
        let error = service.fetch_new_keys(Some((true, set.to_string())), 2).unwrap_err();
        assert_eq!(matches!(error, JWKServiceError::InternalError), internal);
        assert_eq!(matches!(error, JWKServiceError::DecodingError(_)), !internal);
        assert!(service.get_cached_key("the kid").is_ok());
        assert_eq!(service.last_successful_refresh, Some(1));
    }
}

#[test]
fn a_fetch_replaces_all_keys() {
    let mut service = fetched(KEY_SET, 0);
    let set = r#"{"keys":[{"kty":"oct","kid":"a","alg":"HS256","k":"AA"},
        {"kty":"oct","kid":"b","alg":"HS384","k":"AA"},
        {"kty":"oct","kid":"a","alg":"HS512","k":"AA"}]}"#;
    service.fetch_new_keys(Some((true, set.to_string())), 1).unwrap();
    assert!(matches!(service.get_cached_key("the kid"), Err(JWKServiceError::NotFound)));
    assert_eq!(service.get_cached_key("a").ok().unwrap().algorithm, Algorithm::HS512);
    assert_eq!(service.get_cached_key("b").ok().unwrap().algorithm, Algorithm::HS384);
}

#[test]
fn algorithms_have_their_names() {
    assert_eq!(Algorithm::EdDSA.name(), "EdDSA");
    assert_eq!(Algorithm::PS512.name(), "PS512");
}

#[test]
fn metadata_is_looked_up_for_those_who_may_read_it() {
    let id = Context::from_hex("0194b726b34e72b0b45550b88a967076").unwrap();
    let token = token_with_resource("urc-0194b726b34e72b0b45550b88a967076", &["read"]);
    let found = repository_metadata_get::handler(Ok(token.clone()), id).ok().unwrap();
    assert!(found == RepositoryId::from(id));
    let other = Context { value: 1 };
    let denied = repository_metadata_get::handler(Ok(token.clone()), other).err().unwrap();
    assert_eq!(denied.code, Code::PermissionDenied);
    assert_eq!(denied.message, "Repository access denied");
    let missing = repository_metadata_get::handler(Ok(token), Context { value: 0 }).err().unwrap();
    assert_eq!(missing.code, Code::InvalidArgument);
    assert_eq!(missing.message, "Missing repository id");
    let unknown = Err(Status::new(Code::Unauthenticated, "who"));
    let refused = repository_metadata_get::handler(unknown, id).err().unwrap();
    assert_eq!(refused.code, Code::Unauthenticated);
    assert_eq!(refused.message, "who");
}

#[test]
fn metadata_addresses_are_given_unchanged() {
    let address = repository_metadata_get::respond(Ok(Address { bytes: vec![1, 2, 3] }));
    assert_eq!(address.unwrap().bytes, vec![1, 2, 3]);
    let error = repository_metadata_get::respond(Err("no such hash".to_string())).unwrap_err();
    assert_eq!(error.code, Code::NotFound);
    assert_eq!(error.message, "no such hash");
}
