use lore_auth::client::auth::{
    completion_message, expiry_text, handle_info_command, handle_login_command, identity_lines, is_showable,
    lines_of_identity, user_lines, AuthLoginArgs, CollectedIdentity, InfoEvent, Line, LoginPlan,
    Reporting, UserToken,
};
use lore_auth::client::names::{find_name, group_user_ids, handle_list_command, resolve_user_ids};

fn owned(text: &str) -> Option<String> {
    Some(text.to_string())
}

fn login(token_type: Option<&str>, token: Option<&str>, token_stdin: bool) -> AuthLoginArgs {
    AuthLoginArgs {
        token_type: token_type.map(str::to_string),
        token: token.map(str::to_string),
        token_stdin,
        auth_url: owned("ucs-auth://auth.example.com"),
        remote_url: owned("lore://host"),
        no_browser: true,
    }
}

const RULE: &str = "--token-type and exactly one of --token or --token-stdin are required for non-interactive login";

fn refusal(plan: LoginPlan) -> String {
    match plan {
        LoginPlan::Refused { message } => message,
        _ => panic!("the login should be refused"),
    }
}

#[test]
fn logins_follow_their_arguments() {
    match handle_login_command(&login(None, None, false), None) {
        LoginPlan::Interactive { remote_url, no_browser } => {
            assert_eq!(remote_url.as_deref(), Some("lore://host"));
            assert!(no_browser);
        }
        _ => panic!("without a token the user logs in"),
    }
    match handle_login_command(&login(Some("eg1"), Some("tok"), false), None) {
        LoginPlan::WithToken { remote_url, token, token_type, auth_url } => {
            assert_eq!(remote_url.as_deref(), Some("lore://host"));
            assert_eq!((token.as_str(), token_type.as_str()), ("tok", "eg1"));
            assert_eq!(auth_url.as_deref(), Some("ucs-auth://auth.example.com"));
        }
        _ => panic!("a token logs in"),
    }
    assert_eq!(refusal(handle_login_command(&login(Some("eg1"), None, false), None)), RULE);
    assert_eq!(refusal(handle_login_command(&login(None, Some("tok"), false), None)), RULE);
    let read = Some(Ok("tok".to_string()));
    assert_eq!(refusal(handle_login_command(&login(None, None, true), read)), RULE);
}

#[test]
fn tokens_are_read_from_the_standard_input() {
    let read = Some(Ok(" tok \r\n".to_string()));
    match handle_login_command(&login(Some("lore"), None, true), read) {
        LoginPlan::WithToken { token, .. } => assert_eq!(token, "tok"),
        _ => panic!("a token logs in"),
    }
    let blank = Some(Ok(" \n".to_string()));
    assert_eq!(
        refusal(handle_login_command(&login(Some("lore"), None, true), blank)),
        "Authentication token read from stdin is empty"
    );
    let broken = Some(Err("closed".to_string()));
    assert_eq!(
        refusal(handle_login_command(&login(Some("lore"), None, true), broken)),
        "Failed to read authentication token from stdin: closed"
    );
}

fn identity(auth_url: &str, user_id: &str) -> CollectedIdentity {
    CollectedIdentity {
        auth_url: auth_url.to_string(),
        resource: String::new(),
        user_id: user_id.to_string(),
        authorized_domains: String::new(),
        expires: 0,
        token: String::new(),
    }
}

fn shown(lines: &[Line]) -> Vec<String> {
    lines
        .iter()
        .map(|line| format!("{}{} {}", if line.indented { "  " } else { "" }, line.header, line.text))
        .collect()
}

#[test]
fn expiries_are_written_as_dates() {
    assert_eq!(expiry_text(0), None);
    assert_eq!(expiry_text(947_638_923_004).as_deref(), Some("Wed, 12 Jan 2000 01:02:03 +0000"));
    assert_eq!(expiry_text(253_402_300_799_999).as_deref(), Some("Fri, 31 Dec 9999 23:59:59 +0000"));
    assert_eq!(expiry_text(8_210_266_876_800_000), None);
    assert!(is_showable(8_210_266_876_800_000));
    assert!(!is_showable(8_210_266_876_799_999));
    assert!(!is_showable(253_402_300_800_000));
    assert!(is_showable(0));
    let earliest = -8_334_601_228_800_000i64;
    assert!(!is_showable(earliest as u64));
    assert!(is_showable((earliest - 1) as u64));
    assert_eq!(expiry_text((earliest - 1) as u64), None);
    assert_eq!(expiry_text(u64::MAX).as_deref(), Some("Wed, 31 Dec 1969 23:59:59 +0000"));
}

#[test]
fn identities_are_shown_line_by_line() {
    let mut data = identity("https://auth", "u1");
    assert_eq!(shown(&identity_lines(&data, &None)), vec!["Auth URL: https://auth", "  User ID: u1"]);
    data.resource = "urc-x".to_string();
    data.authorized_domains = "a, b".to_string();
    data.expires = 947_638_923_004;
    data.token = "tok".to_string();
    assert_eq!(
        shown(&identity_lines(&data, &owned("Ann"))),
        vec![
            "Auth URL: https://auth",
            "  Resource: urc-x",
            "  User: Ann (u1)",
            "  Domains: a, b",
            "  Expires: Wed, 12 Jan 2000 01:02:03 +0000",
            "  Token: tok",
        ]
    );
    assert_eq!(
        shown(&lines_of_identity(&identity("x", "y"), &None, &owned("never"))),
        vec!["Auth URL: x", "  User ID: y", "  Expires: never"]
    );
}

#[test]
fn users_are_shown_line_by_line() {
    assert_eq!(shown(&user_lines("u1", "Ann")), vec!["ID: u1", "Name: Ann"]);
    let event = InfoEvent::UserInfo { id: "u1".to_string(), name: "Ann".to_string() };
    assert_eq!(shown(&handle_info_command(&event)), vec!["ID: u1", "Name: Ann"]);
    let data = UserToken {
        id: "u1".to_string(),
        name: "Ann".to_string(),
        preferred_username: "ann".to_string(),
        is_service_account: true,
        expires: 947_638_923_004,
        token: "tok".to_string(),
    };
    assert_eq!(
        shown(&handle_info_command(&InfoEvent::UserToken { data })),
        vec![
            "ID: u1",
            "Name: Ann",
            "Username: ann",
            " Service account",
            "Expires: Wed, 12 Jan 2000 01:02:03 +0000",
            "Token: tok",
        ]
    );
    assert_eq!(shown(&handle_info_command(&InfoEvent::Other)), Vec::<String>::new());
}

#[test]
fn users_are_grouped_by_service() {
    let identities = vec![
        identity("b", "u3"),
        identity("a", "u1"),
        identity("b", "u1"),
        identity("b", "u3"),
        identity("b", "U"),
    ];
    let groups: Vec<(String, Vec<String>)> =
        group_user_ids(&identities).into_iter().map(|g| (g.auth_url, g.user_ids)).collect();
    assert_eq!(groups.len(), 2);
    for (url, ids) in groups {
        match url.as_str() {
            "a" => assert_eq!(ids, vec!["u1"]),
            "b" => assert_eq!(ids, vec!["U", "u1", "u3"]),
            _ => panic!("there is no such service"),
        }
    }
    assert_eq!(group_user_ids(&vec![]).len(), 0);
}

#[test]
fn names_are_found_by_user() {
    let names = vec![
        ("u1".to_string(), "Ann".to_string()),
        ("u2".to_string(), "Bob".to_string()),
        ("u1".to_string(), "Anne".to_string()),
    ];
    assert_eq!(find_name(&names, "u1").as_deref(), Some("Anne"));
    assert_eq!(find_name(&names, "u2").as_deref(), Some("Bob"));
    assert_eq!(find_name(&names, "u3"), None);
    assert_eq!(resolve_user_ids(0, names.clone()), names);
    assert_eq!(resolve_user_ids(1, names), vec![]);
}

#[test]
fn lists_show_names_where_they_are_known() {
    let identities = vec![identity("a", "u1"), identity("b", "u2")];
    let names = vec![("u2".to_string(), "Bob".to_string())];
    assert_eq!(
        shown(&handle_list_command(&identities, &names)),
        vec!["Auth URL: a", "  User ID: u1", "Auth URL: b", "  User: Bob (u2)"]
    );
}

#[test]
fn success_is_reported() {
    assert_eq!(completion_message(Reporting::Login, 0), Some("Authentication successful"));
    assert_eq!(completion_message(Reporting::Logout, 0), Some("Logged out"));
    assert_eq!(completion_message(Reporting::Clear, 0), Some("Auth store cleared"));
    assert_eq!(completion_message(Reporting::Clear, 1), None);
}
