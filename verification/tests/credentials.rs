use jsonwebtoken::{encode, EncodingKey, Header};
use lore_auth::credential::cipher::{
    generate_encryption_key_nonce, get_encryption, get_encryption_key_with_nonce,
    load_or_init_encryption, Encryption, KeySource,
};
use lore_auth::credential::domain::{
    comparable_host, domain_in_root_domains, domain_is_under, get_domain_or_empty, host_or_empty,
    normalized_domain, select_host, Host, UrlParts,
};
use lore_auth::credential::error::TokenStoreError;
use lore_auth::credential::identities::{
    identity_entries, list_identities, load_identity, IdentityEntry,
};
use lore_auth::credential::jwt::{
    insecure_decode_token, user_info_from_token, verify_jwt_usage_for_remote, JWTUserInfo,
    JwtUsageError, UserInfo,
};
use lore_auth::credential::secret_store::{
    base_path, encryption_key_target, get_secret_from_store, secret_from_file, secret_from_keyring,
    secret_to_file, secret_to_keyring, set_secret_in_store, store_fallback_file,
    strict_security_mode, token_map_file, use_secure_store, BasePath, FileFailure, KeyringOutcome,
    ReadAction, WriteAction,
};
use lore_auth::credential::store_key::{
    can_split, is_entry_for_auth_url, split_remote_resource, split_store_key,
    try_split_remote_resource,
};
use lore_auth::credential::token_map::{
    load_identities, load_refresh_token, load_user_token, remove_all_tokens_for_auth_url,
    remove_user_token, remove_user_tokens_for_auth_url, store_refresh_token,
    store_token_of_domain, store_user_token,
    tokens_only_for_recipient_domain, vulnerable_all_tokens, IdentityToken, RemoteIdentity,
    TokenMap, TokenStore,
};
use serde_json::Value;

fn strings(items: &[&str]) -> Vec<String> {
    items.iter().map(|item| item.to_string()).collect()
}

#[test]
fn recipient_domain_requires_a_label_boundary() {
    let roots = vec!["portals.sh".to_string()];
    assert!(domain_in_root_domains("portals.sh", &roots));
    assert!(domain_in_root_domains("lore.portals.sh", &roots));
    assert!(!domain_in_root_domains("evilportals.sh", &roots));
    assert!(!domain_in_root_domains("portals.sh.evil.example", &roots));
}

#[test]
fn recipient_domain_normalizes_urls_case_and_trailing_dot() {
    let roots = vec!["https://PORTALS.sh/issuer".to_string()];
    assert!(domain_in_root_domains("Lore.Portals.SH.", &roots));
}

#[test]
fn domains_are_normalized() {
    assert_eq!(normalized_domain("  Example.COM.. ").as_deref(), Some("example.com"));
    assert_eq!(normalized_domain("https://user@Auth.Example.com:8443/x").as_deref(), Some("auth.example.com"));
    assert_eq!(normalized_domain("127.0.0.1").as_deref(), Some("127.0.0.1"));
    assert_eq!(normalized_domain("[::1]").as_deref(), Some("::1"));
    assert_eq!(normalized_domain("http://[::1]:80/").as_deref(), Some("::1"));
    assert_eq!(normalized_domain("   "), None);
    assert_eq!(normalized_domain("exa mple"), None);
    assert_eq!(normalized_domain("m\u{fc}nchen.example").as_deref(), Some("xn--mnchen-3ya.example"));
}

#[test]
fn urls_have_domains() {
    assert_eq!(get_domain_or_empty("https://Auth.Example.com:8443/x"), "auth.example.com");
    assert_eq!(get_domain_or_empty("auth.example.com"), "");
    assert_eq!(get_domain_or_empty("mailto:user@example.com"), "");
    let parts = UrlParts { host: Some("h".to_string()), path: "/p".to_string() };
    assert_eq!(host_or_empty(Some(parts)), "h");
    assert_eq!(host_or_empty(Some(UrlParts { host: None, path: "p".to_string() })), "");
    assert_eq!(host_or_empty(None), "");
}

#[test]
fn addresses_and_odd_roots_are_compared_as_they_are() {
    assert!(domain_in_root_domains("10.0.0.1", &strings(&["http://10.0.0.1:41337"])));
    assert!(!domain_in_root_domains("210.0.0.1", &strings(&["10.0.0.1"])));
    assert!(!domain_in_root_domains("portals.sh", &strings(&["", " "])));
    assert!(!domain_in_root_domains("", &strings(&["portals.sh"])));
    assert!(!domain_in_root_domains("portals.sh", &[].to_vec()));
    assert!(domain_in_root_domains("portals.sh", &strings(&["other.example", "portals.sh"])));
    assert!(domain_is_under("a.b", "a.b"));
    assert!(!domain_is_under("b", "a.b"));
}

#[test]
fn hosts_are_selected_from_urls() {
    let url = UrlParts { host: Some("Auth.Example.com.".to_string()), path: "/".to_string() };
    assert_eq!(select_host("ignored", Some(url)), "auth.example.com");
    let opaque = UrlParts { host: None, path: "x".to_string() };
    assert_eq!(select_host("Data:x", Some(opaque)), "data:x");
    assert_eq!(select_host("Plain.", None), "plain");
    assert_eq!(comparable_host(Some(Host::Domain("A.".to_string()))).as_deref(), Some("a"));
    assert_eq!(comparable_host(None), None);
}

fn claims(issuer: &str, audience: &[&str]) -> JWTUserInfo {
    JWTUserInfo {
        issuer: issuer.to_string(),
        user_id: "u1".to_string(),
        name: "Name".to_string(),
        preferred_username: None,
        is_service_account: None,
        expires: 1_700_000_000,
        audience: strings(audience),
    }
}

#[test]
fn tokens_may_be_sent_to_their_issuer_and_audience() {
    let jwt = claims("https://auth.example.com", &["portals.sh", "lore"]);
    assert_eq!(
        jwt.acceptable_root_domains(),
        strings(&["https://auth.example.com", "portals.sh", "lore"])
    );
    assert!(verify_jwt_usage_for_remote(&jwt, "auth.example.com").is_ok());
    assert!(verify_jwt_usage_for_remote(&jwt, "x.portals.sh").is_ok());
    let JwtUsageError::Internal { context } =
        verify_jwt_usage_for_remote(&jwt, "evil.example").unwrap_err();
    assert_eq!(context, "JWT 'aud' does not specify remote domain 'evil.example'");
}

#[test]
fn claims_are_read_without_a_key() {
    let mut map = serde_json::Map::new();
    map.insert("sub".to_string(), Value::from("u1"));
    map.insert("exp".to_string(), Value::from(1000u64));
    let sent = Value::Object(map);
    let header = Header::new(jsonwebtoken::Algorithm::HS256);
    let token = encode(&header, &sent, &EncodingKey::from_secret(b"anything")).unwrap();
    let claims = insecure_decode_token(&token).unwrap();
    let read: Value = serde_json::from_slice(&claims).unwrap();
    assert_eq!(read, sent);
    assert!(insecure_decode_token("not a token").is_err());
}

#[test]
fn users_are_shown_from_their_claims() {
    let mut jwt = claims("i", &[]);
    let info = user_info_from_token("tok".to_string(), Some(jwt)).unwrap();
    assert_eq!(info.id, "u1");
    assert_eq!(info.name, "Name");
    assert_eq!(info.token, "tok");
    assert_eq!(info.preferred_username, "");
    assert!(!info.is_service_account);
    assert_eq!(info.expires, 1_700_000_000_000);
    jwt = claims("i", &[]);
    jwt.preferred_username = Some("pu".to_string());
    jwt.is_service_account = Some(true);
    let info = user_info_from_token("tok".to_string(), Some(jwt)).unwrap();
    assert_eq!(info.preferred_username, "pu");
    assert!(info.is_service_account);
    assert!(user_info_from_token("tok".to_string(), None).is_none());
    assert_eq!(UserInfo::default().expires, 0);
}

#[test]
fn split_remote_resource_new_format() {
    let (auth, resource) =
        split_remote_resource("https://auth.example.com/00112233445566778899aabbccddeeff");
    assert_eq!(auth, "https://auth.example.com");
    assert_eq!(resource, "00112233445566778899aabbccddeeff");
}

#[test]
fn split_remote_resource_legacy_format() {
    let (auth, resource) =
        split_remote_resource("https://auth.example.com/urc-00112233445566778899aabbccddeeff");
    assert_eq!(auth, "https://auth.example.com");
    assert_eq!(resource, "urc-00112233445566778899aabbccddeeff");
}

#[test]
fn split_remote_resource_no_resource() {
    let (auth, resource) = split_remote_resource("https://auth.example.com");
    assert_eq!(auth, "https://auth.example.com");
    assert!(resource.is_empty());
}

#[test]
fn split_remote_resource_scheme_with_hostname() {
    let (auth, resource) =
        split_remote_resource("ucs-auth://auth.example.com/aabbccdd00112233aabbccdd00112233");
    assert_eq!(auth, "ucs-auth://auth.example.com");
    assert_eq!(resource, "aabbccdd00112233aabbccdd00112233");
}

#[test]
fn hosts_that_look_like_resources_are_not_split() {
    let (auth, resource) = split_remote_resource("https://urc-auth.example.com/x");
    assert_eq!(auth, "https://urc-auth.example.com/x");
    assert_eq!(resource, "");
    let (auth, resource) = split_remote_resource("no url at all");
    assert_eq!(auth, "no url at all");
    assert_eq!(resource, "");
    let (auth, resource) = split_remote_resource("https://a.example/base/urc-x");
    assert_eq!(auth, "https://a.example/base");
    assert_eq!(resource, "urc-x");
}

#[test]
fn keys_that_cannot_be_cut_are_told_apart() {
    assert!(try_split_remote_resource("https://auth.example.com/urc-x").is_some());
    // The path is longer than the key, or the cut falls into a character.
    assert!(can_split("ab/urc-x", Some("/urc-x")));
    assert!(!can_split("ab", Some("/urc-x")));
    assert!(!can_split("\u{e9}urc-x", Some("/urc-x")));
    let (auth, resource) = split_store_key("ab/urc-x", Some("/urc-x"));
    assert_eq!((auth.as_str(), resource.as_str()), ("ab", "urc-x"));
    let (auth, resource) = split_store_key("ab/urc-x", None);
    assert_eq!((auth.as_str(), resource.as_str()), ("ab/urc-x", ""));
}

#[test]
fn is_entry_for_auth_url_base() {
    assert!(is_entry_for_auth_url("https://auth.example.com", "https://auth.example.com"));
}

#[test]
fn is_entry_for_auth_url_new_format() {
    assert!(is_entry_for_auth_url(
        "https://auth.example.com/00112233445566778899aabbccddeeff",
        "https://auth.example.com"
    ));
}

#[test]
fn is_entry_for_auth_url_legacy_format() {
    assert!(is_entry_for_auth_url(
        "https://auth.example.com/urc-00112233445566778899aabbccddeeff",
        "https://auth.example.com"
    ));
}

#[test]
fn is_entry_for_auth_url_different_host() {
    assert!(!is_entry_for_auth_url(
        "https://other.example.com/00112233445566778899aabbccddeeff",
        "https://auth.example.com"
    ));
}

#[test]
fn is_entry_for_auth_url_non_hex_suffix() {
    assert!(!is_entry_for_auth_url(
        "https://auth.example.com/not-a-resource",
        "https://auth.example.com"
    ));
}

const AUTH: &str = "https://auth.example.com";
const RESOURCE: &str = "https://auth.example.com/00112233445566778899aabbccddeeff";

fn store(entries: &[(&str, &str, &str)]) -> TokenStore {
    let mut store = TokenStore::new();
    for (endpoint, user, token) in entries {
        store_user_token(
            &mut store,
            endpoint,
            user,
            token.to_string(),
            strings(&["portals.sh"]),
        );
    }
    store
}

fn found(store: &TokenStore, endpoint: &str, user: &str) -> Option<String> {
    load_user_token(store, endpoint, user, vulnerable_all_tokens()).ok()
}

#[test]
fn stored_tokens_are_found() {
    let mut store = store(&[(AUTH, "alice", "t1"), ("https://auth.example.com//", "bob", "t2")]);
    assert_eq!(found(&store, "https://auth.example.com/", "alice").as_deref(), Some("t1"));
    assert_eq!(found(&store, AUTH, "bob").as_deref(), Some("t2"));
    assert_eq!(found(&store, AUTH, "carol"), None);
    assert_eq!(found(&store, "https://other.example.com", "alice"), None);
    assert_eq!(found(&store, "//", "alice"), None);
    assert_eq!(found(&store, AUTH, ""), None);
    assert!(matches!(
        load_user_token(&store, "", "alice", vulnerable_all_tokens()),
        Err(TokenStoreError::TokenNotFound)
    ));
    store_token_of_domain(&mut store, AUTH, "alice", "t3".to_string(), vec![], "d".to_string());
    assert_eq!(found(&store, AUTH, "alice").as_deref(), Some("t3"));
    assert_eq!(found(&store, AUTH, "bob").as_deref(), Some("t2"));
    let map = store.map.as_ref().unwrap();
    assert_eq!(map.remotes.len(), 1);
    assert_eq!(map.remotes[0].token.len(), 2);
    assert_eq!(map.remotes[0].token[0].acceptable_root_domains, strings(&["d"]));
    assert_eq!(
        map.remotes[0].token[1].acceptable_root_domains,
        strings(&["portals.sh", "auth.example.com"])
    );
}

#[test]
fn refresh_tokens_live_apart_from_tokens() {
    let mut store = store(&[(AUTH, "alice", "t1"), (AUTH, "bob", "t2")]);
    assert!(matches!(
        load_refresh_token(&store, AUTH, "alice"),
        Err(TokenStoreError::TokenNotFound)
    ));
    store_refresh_token(&mut store, "https://auth.example.com/", "alice", "r1".to_string()).unwrap();
    assert_eq!(load_refresh_token(&store, AUTH, "alice").unwrap(), "r1");
    assert!(load_refresh_token(&store, AUTH, "bob").is_err());
    assert_eq!(found(&store, AUTH, "alice").as_deref(), Some("t1"));
    store_token_of_domain(&mut store, AUTH, "alice", "t3".to_string(), vec![], "d".to_string());
    assert_eq!(load_refresh_token(&store, AUTH, "alice").unwrap(), "r1");
    store_refresh_token(&mut store, AUTH, "alice", "r2".to_string()).unwrap();
    assert_eq!(load_refresh_token(&store, AUTH, "alice").unwrap(), "r2");
    assert!(matches!(
        store_refresh_token(&mut store, AUTH, "carol", "r".to_string()),
        Err(TokenStoreError::TokenNotFound)
    ));
    assert!(store_refresh_token(&mut TokenStore::new(), AUTH, "alice", "r".to_string()).is_err());
}

#[test]
fn a_user_is_removed_from_a_service_and_its_resources() {
    let other = "https://other.example.com";
    let mut store = store(&[
        (AUTH, "alice", "t1"),
        (AUTH, "bob", "t2"),
        (RESOURCE, "alice", "t3"),
        (other, "alice", "t4"),
    ]);
    assert!(remove_user_tokens_for_auth_url(&mut store, "https://auth.example.com/", "alice"));
    assert_eq!(found(&store, AUTH, "alice"), None);
    assert_eq!(found(&store, RESOURCE, "alice"), None);
    assert_eq!(found(&store, AUTH, "bob").as_deref(), Some("t2"));
    assert_eq!(found(&store, other, "alice").as_deref(), Some("t4"));
    assert_eq!(store.map.as_ref().unwrap().remotes.len(), 2);
    assert!(!remove_user_tokens_for_auth_url(&mut store, AUTH, "alice"));
    assert!(!remove_user_tokens_for_auth_url(&mut TokenStore::new(), AUTH, "alice"));
}

#[test]
fn all_tokens_of_a_service_are_removed() {
    let other = "https://other.example.com";
    let mut store = store(&[(AUTH, "alice", "t1"), (RESOURCE, "bob", "t3"), (other, "alice", "t4")]);
    assert!(remove_all_tokens_for_auth_url(&mut store, "https://auth.example.com/"));
    assert_eq!(found(&store, AUTH, "alice"), None);
    assert_eq!(found(&store, RESOURCE, "bob"), None);
    assert_eq!(found(&store, other, "alice").as_deref(), Some("t4"));
    assert!(!remove_all_tokens_for_auth_url(&mut store, AUTH));
}

#[test]
fn a_user_is_removed_from_one_entry() {
    let mut store = store(&[(AUTH, "alice", "t1"), (AUTH, "bob", "t2"), (RESOURCE, "alice", "t3")]);
    assert!(!remove_user_token(&mut store, "https://auth.example.com/", "alice"));
    assert!(remove_user_token(&mut store, AUTH, "alice"));
    assert_eq!(found(&store, AUTH, "alice"), None);
    assert_eq!(found(&store, RESOURCE, "alice").as_deref(), Some("t3"));
    assert_eq!(load_identities(&store, AUTH), strings(&["bob"]));
    assert!(remove_user_token(&mut store, AUTH, "bob"));
    assert_eq!(store.map.as_ref().unwrap().remotes.len(), 1);
}

#[test]
fn identities_are_listed_in_order() {
    let store = store(&[(AUTH, "bob", "t1"), (AUTH, "alice", "t2")]);
    assert_eq!(load_identities(&store, AUTH), strings(&["bob", "alice"]));
    assert_eq!(load_identities(&store, "https://auth.example.com/"), Vec::<String>::new());
    assert_eq!(load_identities(&TokenStore::new(), AUTH), Vec::<String>::new());
}

#[test]
fn filters_keep_tokens_from_other_domains() {
    let store = store(&[(AUTH, "alice", "t1")]);
    let find = |domain: &str, strict: bool| {
        let filter = tokens_only_for_recipient_domain(domain.to_string(), strict);
        load_user_token(&store, AUTH, "alice", filter).ok()
    };
    assert_eq!(find("lore.portals.sh", true).as_deref(), Some("t1"));
    assert_eq!(find("auth.example.com", true).as_deref(), Some("t1"));
    assert_eq!(find("evil.example", false), None);
    let mut old = TokenStore::new();
    old.load(Some(TokenMap {
        remotes: vec![RemoteIdentity {
            remote: AUTH.to_string(),
            token: vec![IdentityToken {
                user_id: "alice".to_string(),
                token: "old".to_string(),
                acceptable_root_domains: vec![],
                refresh_token: None,
            }],
        }],
    }));
    let lax = tokens_only_for_recipient_domain("evil.example".to_string(), false);
    assert_eq!(load_user_token(&old, AUTH, "alice", lax).unwrap(), "old");
    let strict = tokens_only_for_recipient_domain("evil.example".to_string(), true);
    assert!(load_user_token(&old, AUTH, "alice", strict).is_err());
}

#[test]
fn the_store_is_loaded_once_and_reloaded_before_changes() {
    let mut cache = TokenStore::new();
    assert!(cache.needs_load());
    cache.load(None);
    assert!(cache.needs_load());
    cache.reset_tokens();
    assert!(cache.needs_load());
    cache.load(store(&[(AUTH, "alice", "t1")]).map);
    assert!(!cache.needs_load());
    cache.load(store(&[(AUTH, "bob", "t2")]).map);
    assert_eq!(load_identities(&cache, AUTH), strings(&["alice"]));
    cache.reload_token_map(None);
    assert_eq!(load_identities(&cache, AUTH), strings(&["alice"]));
    cache.reload_token_map(store(&[(AUTH, "bob", "t2")]).map);
    assert_eq!(load_identities(&cache, AUTH), strings(&["bob"]));
    cache.reset_tokens();
    assert!(!cache.needs_load());
    assert_eq!(load_identities(&cache, AUTH), Vec::<String>::new());
}

#[test]
fn entries_are_described_without_their_tokens() {
    let store = store(&[(AUTH, "alice", "t1")]);
    assert_eq!(
        store.map.unwrap().remotes[0].describe(),
        "remote: https://auth.example.com, token: [...]"
    );
}

#[test]
fn all_identities_are_shown() {
    let store = store(&[(AUTH, "alice", "t1"), (RESOURCE, "bob", "t2"), (AUTH, "carol", "t3")]);
    let entries = identity_entries(&store).unwrap();
    let shown: Vec<(String, String, String)> = entries
        .iter()
        .map(|e| (e.auth_url.clone(), e.resource.clone(), e.identity.user_id.clone()))
        .collect();
    let expected: Vec<(String, String, String)> = [
        (AUTH, "", "alice"),
        (AUTH, "", "carol"),
        (AUTH, "00112233445566778899aabbccddeeff", "bob"),
    ]
    .iter()
    .map(|(a, b, c)| (a.to_string(), b.to_string(), c.to_string()))
    .collect();
    assert_eq!(shown, expected);
    assert_eq!(identity_entries(&TokenStore::new()).unwrap().len(), 0);
}

fn entry() -> IdentityEntry {
    let store = store(&[(AUTH, "alice", "t1")]);
    identity_entries(&store).unwrap().remove(0)
}

#[test]
fn tokens_are_shown_only_when_asked_for() {
    let info = || user_info_from_token("plain".to_string(), Some(claims("i", &[])));
    let shown = load_identity(entry(), Some(("plain".to_string(), info())), true);
    assert_eq!(shown.user_id, "alice");
    assert_eq!(shown.expires_ms, 1_700_000_000_000);
    assert_eq!(shown.token, "plain");
    assert_eq!(shown.acceptable_root_domains, strings(&["portals.sh", "auth.example.com"]));
    let hidden = load_identity(entry(), Some(("plain".to_string(), info())), false);
    assert_eq!(hidden.token, "");
    assert_eq!(hidden.expires_ms, 1_700_000_000_000);
    let unread = load_identity(entry(), Some(("plain".to_string(), None)), true);
    assert_eq!((unread.expires_ms, unread.token.as_str()), (0, "plain"));
    let locked = load_identity(entry(), None, true);
    assert_eq!((locked.expires_ms, locked.token.as_str()), (0, ""));
}

fn context(error: TokenStoreError) -> String {
    match error {
        TokenStoreError::Internal { context } => context,
        TokenStoreError::TokenNotFound => panic!("unexpected"),
    }
}

#[test]
fn kept_identities_are_listed_one_by_one() {
    let mut store = TokenStore::new();
    for user in ["alice", "bob"] {
        store_user_token(&mut store, AUTH, user, format!("sealed {user}"), vec![]);
    }
    let entries = identity_entries(&store).unwrap();
    let decrypted = vec![Some(("plain".to_string(), None)), None];
    let list = list_identities(entries, decrypted, true);
    let shown: Vec<_> = list.iter().map(|info| (&*info.user_id, &*info.token)).collect();
    assert_eq!(shown, vec![("alice", "plain"), ("bob", "")]);
}

#[test]
fn tokens_may_be_given_to_the_endpoint_they_came_from() {
    let mut store = TokenStore::new();
    let endpoint = "https://Auth.Example.com:8443//";
    store_user_token(&mut store, endpoint, "alice", "t".to_string(), strings(&["portals.sh"]));
    let remote = &store.map.as_ref().unwrap().remotes[0];
    assert_eq!(remote.remote, "https://Auth.Example.com:8443");
    assert_eq!(
        remote.token[0].acceptable_root_domains,
        strings(&["portals.sh", "auth.example.com"])
    );
    store_user_token(&mut store, "no url", "bob", "t".to_string(), vec![]);
    let remote = &store.map.as_ref().unwrap().remotes[1];
    assert_eq!(remote.token[0].acceptable_root_domains, strings(&[""]));
}

#[test]
fn encrypted_tokens_are_given_back() {
    let mut encryption = get_encryption(generate_encryption_key_nonce()).unwrap();
    assert_eq!(encryption.nonce, 1);
    assert_eq!(encryption.key.len(), 32);
    let mut seen: Vec<String> = vec![];
    for token in ["", "token", "\u{fc}\u{1f600}", "token"] {
        let used = encryption.advance(Ok(())).unwrap();
        let text = used.encrypt_token(token).unwrap();
        assert_ne!(text, token);
        assert!(!seen.contains(&text));
        let bytes = base64::Engine::decode(&base64::prelude::BASE64_STANDARD, &text).unwrap();
        assert_eq!(bytes.len(), token.len() + 36);
        assert_eq!(bytes[..4], used.nonce.to_le_bytes());
        assert_eq!(encryption.decrypt_token(&text).unwrap(), token);
        assert_eq!(encryption.try_decrypt_token(&text).unwrap().unwrap(), token);
        seen.push(text);
    }
    assert_eq!(encryption.nonce, 5);
}

#[test]
fn encryption_is_the_same_everywhere() {
    let encryption = Encryption { key: vec![7; 32], nonce: 0x0102_0304 };
    let text = encryption.encrypt_token("hi").unwrap();
    let bytes = base64::Engine::decode(&base64::prelude::BASE64_STANDARD, &text).unwrap();
    // The nonce, lowest byte first, then two bytes, their padding and a tag.
    assert_eq!(bytes[..4], [4, 3, 2, 1]);
    assert_eq!(bytes.len(), 4 + 2 + 16 + 16);
    let mut nonce = [0u8; 12];
    nonce[8..].copy_from_slice(&[1, 2, 3, 4]);
    let key = ring::aead::UnboundKey::new(&ring::aead::AES_256_GCM, &[7; 32]).unwrap();
    let mut sealed = b"hi\0\0\0\0\0\0\0\0\0\0\0\0\0\0\0\0".to_vec();
    ring::aead::LessSafeKey::new(key)
        .seal_in_place_append_tag(
            ring::aead::Nonce::assume_unique_for_key(nonce),
            ring::aead::Aad::empty(),
            &mut sealed,
        )
        .unwrap();
    assert_eq!(bytes[4..], sealed[..]);
}

#[test]
fn what_cannot_be_decrypted_is_reported() {
    let encryption = Encryption { key: vec![7; 32], nonce: 1 };
    let other = Encryption { key: vec![8; 32], nonce: 1 };
    let text = encryption.encrypt_token("hi").unwrap();
    assert_eq!(context(other.decrypt_token(&text).unwrap_err()), "Failed to decrypt user token");
    assert_eq!(
        context(encryption.decrypt_token("no base 64!").unwrap_err()),
        "Failed to decrypt user token"
    );
    assert!(encryption.try_decrypt_token("AAA=").is_none());
    let short = Encryption { key: vec![7; 31], nonce: 1 };
    assert_eq!(context(short.decrypt_token(&text).unwrap_err()), "Failed to create unbound key");
    assert_eq!(context(short.encrypt_token("hi").unwrap_err()), "Failed to create unbound key");
    // Sealed bytes that are no text.
    let key = ring::aead::UnboundKey::new(&ring::aead::AES_256_GCM, &[7; 32]).unwrap();
    let mut sealed = vec![0xff; 17];
    ring::aead::LessSafeKey::new(key)
        .seal_in_place_append_tag(
            ring::aead::Nonce::assume_unique_for_key([0; 12]),
            ring::aead::Aad::empty(),
            &mut sealed,
        )
        .unwrap();
    let mut bytes = vec![0; 4];
    bytes.append(&mut sealed);
    assert_eq!(
        context(encryption.open_token(bytes).unwrap_err()),
        "Failed to decrypt user token"
    );
}

#[test]
fn nonces_are_written_down_before_they_are_used() {
    let mut encryption = Encryption { key: vec![1, 2], nonce: 0x1ff };
    assert_eq!(encryption.next_secret(), vec![0, 2, 0, 0, 1, 2]);
    let failed = encryption.advance(Err(TokenStoreError::internal("disk full")));
    assert_eq!(context(failed.unwrap_err()), "disk full");
    assert_eq!(encryption.nonce, 0x1ff);
    let used = encryption.advance(Ok(())).unwrap();
    assert_eq!(used.nonce, 0x1ff);
    assert_eq!(encryption.nonce, 0x200);
}

#[test]
fn secrets_are_read_back() {
    let secret = get_encryption_key_with_nonce(&vec![9, 8, 7], 0xa1b2_c3d4);
    assert_eq!(secret, vec![0xd4, 0xc3, 0xb2, 0xa1, 9, 8, 7]);
    let encryption = get_encryption(secret).unwrap();
    assert_eq!((encryption.key, encryption.nonce), (vec![9, 8, 7], 0xa1b2_c3d4));
    assert_eq!(
        context(get_encryption(vec![1, 2, 3, 4]).unwrap_err()),
        "Failed to decrypt user token"
    );
}

#[test]
fn a_new_key_is_made_where_none_is_kept() {
    let first = match load_or_init_encryption(vec![]) {
        KeySource::New { secret } => secret,
        KeySource::Stored(_) => panic!("nothing was kept"),
    };
    let second = match load_or_init_encryption(vec![1, 2, 3, 4]) {
        KeySource::New { secret } => secret,
        KeySource::Stored(_) => panic!("nothing was kept"),
    };
    assert_eq!(first.len(), 36);
    assert_eq!(first[..4], [1, 0, 0, 0]);
    assert_ne!(first, second);
    match load_or_init_encryption(first.clone()) {
        KeySource::Stored(found) => assert_eq!(found.key, first[4..].to_vec()),
        KeySource::New { .. } => panic!("a key was kept"),
    }
}

#[test]
fn settings_choose_the_stores() {
    let set = |value: &str| Some(value.to_string());
    assert!(use_secure_store(&None));
    assert!(use_secure_store(&set("keyring")));
    assert!(!use_secure_store(&set("fallback")));
    assert!(!strict_security_mode(&None));
    assert!(strict_security_mode(&set("STRICT")));
    assert!(strict_security_mode(&set("strict")));
    assert!(!strict_security_mode(&set("strict ")));
    assert!(matches!(base_path(None), BasePath::User));
    assert!(matches!(base_path(set("")), BasePath::User));
    assert!(matches!(base_path(set("/x")), BasePath::Configured { path } if path == "/x"));
    assert_eq!(token_map_file(), "tokens.toml");
    assert_eq!(store_fallback_file(encryption_key_target()), "sec-lore_encryption_key");
}

#[test]
fn secrets_are_read_from_the_right_store() {
    assert!(matches!(get_secret_from_store(true, true), ReadAction::Keyring));
    assert!(matches!(get_secret_from_store(false, false), ReadAction::File));
    assert!(matches!(
        get_secret_from_store(false, true),
        ReadAction::Finish { result: Ok(secret) } if secret.is_empty()
    ));
    assert!(matches!(
        secret_from_keyring(true, Some(vec![1])),
        ReadAction::Finish { result: Ok(secret) } if secret == vec![1]
    ));
    assert!(matches!(secret_from_keyring(false, None), ReadAction::File));
    assert!(matches!(
        secret_from_keyring(true, None),
        ReadAction::Finish { result: Ok(secret) } if secret.is_empty()
    ));
    assert_eq!(secret_from_file(Ok(Some(vec![1, 2]))).unwrap(), vec![1, 2]);
    assert_eq!(secret_from_file(Ok(None)).unwrap(), Vec::<u8>::new());
    for (failure, text) in [
        (FileFailure::Path, "Failed to make fallback path"),
        (FileFailure::Lock, "Failed to lock store file"),
        (FileFailure::Access, "Failed to read secret from fallback path"),
    ] {
        assert_eq!(context(secret_from_file(Err(failure)).unwrap_err()), text);
    }
}

#[test]
fn secrets_are_written_to_the_right_store() {
    let refusal = "OS secure storage is required in strict security mode";
    assert!(matches!(set_secret_in_store(true, false), WriteAction::Keyring));
    assert!(matches!(
        set_secret_in_store(false, false),
        WriteAction::File { from_now_on: false }
    ));
    assert!(matches!(
        set_secret_in_store(false, true),
        WriteAction::Finish { result: Err(TokenStoreError::Internal { context }) } if context == refusal
    ));
    assert!(matches!(
        secret_to_keyring(true, KeyringOutcome::Stored),
        WriteAction::Finish { result: Ok(()) }
    ));
    assert!(matches!(
        secret_to_keyring(false, KeyringOutcome::Failed),
        WriteAction::File { from_now_on: true }
    ));
    assert!(matches!(
        secret_to_keyring(false, KeyringOutcome::Unavailable),
        WriteAction::File { from_now_on: false }
    ));
    for outcome in [KeyringOutcome::Failed, KeyringOutcome::Unavailable] {
        assert!(matches!(
            secret_to_keyring(true, outcome),
            WriteAction::Finish { result: Err(TokenStoreError::Internal { context }) } if context == refusal
        ));
    }
    assert!(secret_to_file(Ok(())).is_ok());
    for (failure, text) in [
        (FileFailure::Path, "Failed to make fallback path"),
        (FileFailure::Lock, "Failed to lock store file"),
        (FileFailure::Access, "Failed to write secret to fallback path"),
        (FileFailure::Permissions, "Failed to secure fallback key permissions"),
    ] {
        assert_eq!(context(secret_to_file(Err(failure)).unwrap_err()), text);
    }
}
