//! The commands that log users in and out and show who is logged in.
//!
//! The commands are carried out elsewhere. What stands here decides what is asked for and what is
//! shown.
use vstd::prelude::*;
use vstd::string::*;

use crate::model;
use crate::text;

verus! {

/// The arguments of the group of authentication commands.
pub struct AuthArgs {
    pub command: AuthCommands,
}

/// The arguments of a login.
pub struct AuthLoginArgs {
    /// The kind of token for a login without interaction.
    pub token_type: Option<String>,
    /// The token for a login without interaction.
    pub token: Option<String>,
    /// Whether the token is read from the standard input, so that it never appears among the
    /// arguments.
    pub token_stdin: bool,
    /// The URL of the authentication service.
    pub auth_url: Option<String>,
    /// The URL of the server.
    pub remote_url: Option<String>,
    /// Whether no browser is opened.
    pub no_browser: bool,
}

/// The arguments of a logout.
pub struct AuthLogoutCliArgs {
    pub auth_url: Option<String>,
    pub resource: Option<String>,
    pub user_id: Option<String>,
}

/// The arguments of the list of identities.
pub struct AuthListArgs {
    /// Whether tokens are shown.
    pub with_token: bool,
}

/// The arguments of the information on users.
pub struct AuthInfoCliArgs {
    /// The users to show; the current one where there are none.
    pub user_ids: Vec<String>,
    /// Whether tokens are shown.
    pub with_token: bool,
}

/// The authentication commands.
pub enum AuthCommands {
    Login(AuthLoginArgs),
    Info(AuthInfoCliArgs),
    List(AuthListArgs),
    Logout(AuthLogoutCliArgs),
    Clear,
}

/// What a login command does.
#[derive(Debug)]
pub enum LoginPlan {
    /// Logs in with a token.
    WithToken {
        remote_url: Option<String>,
        token: String,
        token_type: String,
        auth_url: Option<String>,
    },
    /// Logs in with the help of the user.
    Interactive { remote_url: Option<String>, no_browser: bool },
    /// Does nothing but report why.
    Refused { message: String },
}

/// The model of [`LoginPlan`].
pub enum LoginPlanView {
    WithToken {
        remote_url: Option<Seq<char>>,
        token: Seq<char>,
        token_type: Seq<char>,
        auth_url: Option<Seq<char>>,
    },
    Interactive { remote_url: Option<Seq<char>>, no_browser: bool },
    Refused { message: Seq<char> },
}

impl View for LoginPlan {
    type V = LoginPlanView;

    open spec fn view(&self) -> LoginPlanView {
        match *self {
            LoginPlan::WithToken { remote_url, token, token_type, auth_url } =>
                LoginPlanView::WithToken {
                    remote_url: model::opt_view(remote_url),
                    token: token@,
                    token_type: token_type@,
                    auth_url: model::opt_view(auth_url),
                },
            LoginPlan::Interactive { remote_url, no_browser } => LoginPlanView::Interactive {
                remote_url: model::opt_view(remote_url),
                no_browser,
            },
            LoginPlan::Refused { message } => LoginPlanView::Refused { message: message@ },
        }
    }
}

/// The token in what was read from the standard input, or why there is none.
pub open spec fn token_read(read: Result<Seq<char>, Seq<char>>) -> Result<Seq<char>, Seq<char>> {
    match read {
        Err(error) => Err("Failed to read authentication token from stdin: "@ + error),
        Ok(input) => if text::trim_white(input).len() == 0 {
            Err("Authentication token read from stdin is empty"@)
        } else {
            Ok(text::trim_white(input))
        },
    }
}

/// What a login command does, where `stdin` is the token from the standard input, if one was asked
/// for.
pub open spec fn plan(args: AuthLoginArgs, stdin: Option<Seq<char>>) -> LoginPlanView {
    let token = match args.token {
        Some(token) => Some(token@),
        None => stdin,
    };
    match (args.token_type, token) {
        (Some(token_type), Some(token)) => LoginPlanView::WithToken {
            remote_url: model::opt_view(args.remote_url),
            token,
            token_type: token_type@,
            auth_url: model::opt_view(args.auth_url),
        },
        _ => if args.token_type is Some || args.token is Some || args.token_stdin {
            LoginPlanView::Refused {
                message:
                    "--token-type and exactly one of --token or --token-stdin are required for non-interactive login"@,
            }
        } else {
            LoginPlanView::Interactive {
                remote_url: model::opt_view(args.remote_url),
                no_browser: args.no_browser,
            }
        },
    }
}

/// Takes the token out of what was read from the standard input.
pub fn read_token(read: Result<String, String>) -> (r: Result<String, String>)
    ensures
        model::result_view(r) == token_read(model::result_view(read)),
{
    match read {
        Err(error) => {
            let mut message = "Failed to read authentication token from stdin: ".to_owned();
            message.append(error.as_str());
            Err(message)
        },
        Ok(input) => {
            let token = text::trim(input.as_str());
            if token.as_str().is_empty() {
                Err("Authentication token read from stdin is empty".to_owned())
            } else {
                Ok(token)
            }
        },
    }
}

/// Decides what a login command does. Where the token is to come from the standard input, `read` is
/// what was read from there.
pub fn handle_login_command(args: &AuthLoginArgs, read: Option<Result<String, String>>) -> (r:
    LoginPlan)
    requires
        args.token_stdin == (read is Some),
    ensures
        r@ == (match read {
            None => plan(*args, None),
            Some(read) => match token_read(model::result_view(read)) {
                Ok(token) => plan(*args, Some(token)),
                Err(message) => LoginPlanView::Refused { message },
            },
        }),
{
    let token_from_stdin = match read {
        Some(read) => match read_token(read) {
            Ok(token) => Some(token),
            Err(message) => return LoginPlan::Refused { message },
        },
        None => None,
    };
    let token = match &args.token {
        Some(token) => Some(token.clone()),
        None => token_from_stdin,
    };
    match (&args.token_type, token) {
        (Some(token_type), Some(token)) => LoginPlan::WithToken {
            remote_url: model::clone_opt_string(&args.remote_url),
            token,
            token_type: token_type.clone(),
            auth_url: model::clone_opt_string(&args.auth_url),
        },
        (_, _) => {
            if args.token_type.is_some() || args.token.is_some() || args.token_stdin {
                LoginPlan::Refused {
                    message:
                        "--token-type and exactly one of --token or --token-stdin are required for non-interactive login".to_owned(),
                }
            } else {
                LoginPlan::Interactive {
                    remote_url: model::clone_opt_string(&args.remote_url),
                    no_browser: args.no_browser,
                }
            }
        },
    }
}

/// A token that is given is used as it is, and one from the standard input only where none is
/// given; without a kind of token no token is ever used.
pub proof fn tokens_are_used_only_with_their_kind(args: AuthLoginArgs, stdin: Option<Seq<char>>)
    ensures
        plan(args, stdin) is WithToken ==> args.token_type is Some && (args.token is Some || stdin
            is Some),
        plan(args, stdin) matches LoginPlanView::WithToken { token, .. } ==> token == (
        match args.token {
            Some(given) => given@,
            None => stdin->0,
        }),
        plan(args, stdin) is Interactive ==> args.token_type is None && args.token is None
            && !args.token_stdin,
{
}

/// A line of output: a header, which is set off, and what follows it.
#[derive(Debug)]
pub struct Line {
    pub indented: bool,
    pub header: String,
    pub text: String,
}

/// The model of [`Line`].
#[verifier::ext_equal]
pub struct LineView {
    pub indented: bool,
    pub header: Seq<char>,
    pub text: Seq<char>,
}

impl View for Line {
    type V = LineView;

    open spec fn view(&self) -> LineView {
        LineView { indented: self.indented, header: self.header@, text: self.text@ }
    }
}

/// The line of a header and a text.
pub open spec fn line(indented: bool, header: Seq<char>, text: Seq<char>) -> LineView {
    LineView { indented, header, text }
}

fn make_line(indented: bool, header: &str, text: &str) -> (r: Line)
    ensures
        r@ == line(indented, header@, text@),
{
    Line { indented, header: header.to_owned(), text: text.to_owned() }
}

fn add_line(lines: &mut Vec<Line>, indented: bool, header: &str, text: &str)
    ensures
        model::seq_view(final(lines)@) == model::seq_view(old(lines)@).push(
            line(indented, header@, text@),
        ),
{
    let ghost before = model::seq_view(lines@);
    lines.push(make_line(indented, header, text));
    assert(model::seq_view(lines@) =~= before.push(line(indented, header@, text@)));
}

/// The time of the given number of milliseconds since the epoch, as `chrono` writes it in the form
/// of mail messages.
pub uninterp spec fn rfc2822_text(millis: i64) -> Seq<char>;

/// Whether the time lies in the years 0 to 9999, for which that form is defined.
pub open spec fn has_rfc2822(millis: i64) -> bool {
    -62_167_219_200_000 <= millis <= 253_402_300_799_999
}

/// Whether `chrono` has no time for this number of milliseconds.
pub open spec fn is_out_of_range(millis: i64) -> bool {
    millis < -8_334_601_228_800_000 || millis > 8_210_266_876_799_999
}

/// Calls `chrono::DateTime::from_timestamp_millis` and, on the time that it gives, `to_rfc2822`. The
/// first gives no time outside the range of `chrono`; the second panics outside the years 0 to 9999.
#[verifier::external_body]
fn format_millis(millis: i64) -> (r: Option<String>)
    requires
        has_rfc2822(millis) || is_out_of_range(millis),
    ensures
        model::opt_view(r) == (if has_rfc2822(millis) {
            Some(rfc2822_text(millis))
        } else {
            None
        }),
{
    chrono::DateTime::from_timestamp_millis(millis).map(|time| time.to_rfc2822())
}

/// The signed number with the same bits.
pub open spec fn as_signed(n: u64) -> i64 {
    if n <= i64::MAX {
        n as i64
    } else {
        (n - 0x1_0000_0000_0000_0000) as i64
    }
}

/// Whether an expiry can be shown, or need not be.
pub open spec fn can_show(expires: u64) -> bool {
    expires == 0 || has_rfc2822(as_signed(expires)) || is_out_of_range(as_signed(expires))
}

/// The text of an expiry in milliseconds since the epoch; there is none for zero and for what is no
/// time.
pub open spec fn expiry(expires: u64) -> Option<Seq<char>> {
    if expires > 0 && has_rfc2822(as_signed(expires)) {
        Some(rfc2822_text(as_signed(expires)))
    } else {
        None
    }
}

fn to_signed(n: u64) -> (r: i64)
    ensures
        r == as_signed(n),
{
    if n <= 0x7fff_ffff_ffff_ffff {
        n as i64
    } else {
        -((0xffff_ffff_ffff_ffff - n) as i64) - 1
    }
}

/// Whether an expiry can be shown, or need not be.
pub fn is_showable(expires: u64) -> (r: bool)
    ensures
        r == can_show(expires),
{
    let millis = to_signed(expires);
    expires == 0 || (-62_167_219_200_000 <= millis && millis <= 253_402_300_799_999) || millis
        < -8_334_601_228_800_000 || millis > 8_210_266_876_799_999
}

/// Gives the text of an expiry in milliseconds since the epoch.
pub fn expiry_text(expires: u64) -> (r: Option<String>)
    requires
        can_show(expires),
    ensures
        model::opt_view(r) == expiry(expires),
{
    if expires == 0 {
        return None;
    }
    format_millis(to_signed(expires))
}

/// An identity that is listed.
#[derive(Clone, Debug)]
pub struct CollectedIdentity {
    pub auth_url: String,
    pub resource: String,
    pub user_id: String,
    pub authorized_domains: String,
    pub expires: u64,
    pub token: String,
}

/// A line where there is something to show.
pub open spec fn optional_line(header: Seq<char>, text: Seq<char>) -> Seq<LineView> {
    if text.len() > 0 {
        seq![line(true, header, text)]
    } else {
        seq![]
    }
}

/// The line of an expiry, where there is one.
pub open spec fn expiry_line(indented: bool, expires: Option<Seq<char>>) -> Seq<LineView> {
    match expires {
        Some(text) => seq![line(indented, "Expires:"@, text)],
        None => seq![],
    }
}

/// The line of a user: with the user's name where it is known.
pub open spec fn user_line(user_id: Seq<char>, name: Option<Seq<char>>) -> LineView {
    match name {
        Some(name) => line(true, "User:"@, name + " ("@ + user_id + ")"@),
        None => line(true, "User ID:"@, user_id),
    }
}

/// The lines of a listed identity.
pub open spec fn identity_view(
    data: CollectedIdentity,
    name: Option<Seq<char>>,
    expires: Option<Seq<char>>,
) -> Seq<LineView> {
    seq![line(false, "Auth URL:"@, data.auth_url@)] + optional_line("Resource:"@, data.resource@)
        + seq![user_line(data.user_id@, name)] + optional_line(
        "Domains:"@,
        data.authorized_domains@,
    ) + expiry_line(true, expires) + optional_line("Token:"@, data.token@)
}

fn add_optional_line(lines: &mut Vec<Line>, header: &str, text: &str)
    ensures
        model::seq_view(final(lines)@) == model::seq_view(old(lines)@) + optional_line(
            header@,
            text@,
        ),
{
    let ghost before = model::seq_view(lines@);
    if !text.is_empty() {
        add_line(lines, true, header, text);
    }
    assert(model::seq_view(lines@) =~= before + optional_line(header@, text@));
}

fn add_expiry_line(lines: &mut Vec<Line>, indented: bool, expires: &Option<String>)
    ensures
        model::seq_view(final(lines)@) == model::seq_view(old(lines)@) + expiry_line(
            indented,
            model::opt_view(*expires),
        ),
{
    let ghost before = model::seq_view(lines@);
    if let Some(time) = expires {
        add_line(lines, indented, "Expires:", time.as_str());
    }
    assert(model::seq_view(lines@) =~= before + expiry_line(indented, model::opt_view(*expires)));
}

/// Gives the lines of a listed identity, where `expires` is the text of its expiry.
pub fn lines_of_identity(
    data: &CollectedIdentity,
    name: &Option<String>,
    expires: &Option<String>,
) -> (lines: Vec<Line>)
    ensures
        model::seq_view(lines@) == identity_view(
            *data,
            model::opt_view(*name),
            model::opt_view(*expires),
        ),
{
    let mut lines: Vec<Line> = Vec::new();
    assert(model::seq_view(lines@) =~= seq![]);
    add_line(&mut lines, false, "Auth URL:", data.auth_url.as_str());
    assert(model::seq_view(lines@) =~= seq![line(false, "Auth URL:"@, data.auth_url@)]);
    add_optional_line(&mut lines, "Resource:", data.resource.as_str());
    let ghost before = model::seq_view(lines@);
    match name {
        Some(name) => {
            let mut user = name.clone();
            user.append(" (");
            user.append(data.user_id.as_str());
            user.append(")");
            add_line(&mut lines, true, "User:", user.as_str());
        },
        None => {
            add_line(&mut lines, true, "User ID:", data.user_id.as_str());
        },
    }
    assert(model::seq_view(lines@) =~= before + seq![
        user_line(data.user_id@, model::opt_view(*name)),
    ]);
    add_optional_line(&mut lines, "Domains:", data.authorized_domains.as_str());
    add_expiry_line(&mut lines, true, expires);
    add_optional_line(&mut lines, "Token:", data.token.as_str());
    lines
}

/// Gives the lines of a listed identity.
pub fn identity_lines(data: &CollectedIdentity, name: &Option<String>) -> (lines: Vec<Line>)
    requires
        can_show(data.expires),
    ensures
        model::seq_view(lines@) == identity_view(
            *data,
            model::opt_view(*name),
            expiry(data.expires),
        ),
{
    let expires = expiry_text(data.expires);
    lines_of_identity(data, name, &expires)
}

/// What is known of a user with a token.
#[derive(Debug)]
pub struct UserToken {
    pub id: String,
    pub name: String,
    pub preferred_username: String,
    pub is_service_account: bool,
    pub expires: u64,
    pub token: String,
}

/// The lines of a user.
pub open spec fn user_view(id: Seq<char>, name: Seq<char>) -> Seq<LineView> {
    seq![line(false, "ID:"@, id), line(false, "Name:"@, name)]
}

/// The lines of a user with a token.
pub open spec fn token_view(data: UserToken, expires: Option<Seq<char>>) -> Seq<LineView> {
    let service = if data.is_service_account {
        seq![line(false, ""@, "Service account"@)]
    } else {
        seq![]
    };
    user_view(data.id@, data.name@) + seq![
        line(false, "Username:"@, data.preferred_username@),
    ] + service + expiry_line(false, expires) + seq![line(false, "Token:"@, data.token@)]
}

/// Gives the lines of a user.
pub fn user_lines(id: &str, name: &str) -> (lines: Vec<Line>)
    ensures
        model::seq_view(lines@) == user_view(id@, name@),
{
    let mut lines: Vec<Line> = Vec::new();
    add_line(&mut lines, false, "ID:", id);
    add_line(&mut lines, false, "Name:", name);
    assert(model::seq_view(lines@) =~= user_view(id@, name@));
    lines
}

/// Gives the lines of a user with a token, where `expires` is the text of its expiry.
pub fn lines_of_user_token(data: &UserToken, expires: &Option<String>) -> (lines: Vec<Line>)
    ensures
        model::seq_view(lines@) == token_view(*data, model::opt_view(*expires)),
{
    let mut lines = user_lines(data.id.as_str(), data.name.as_str());
    let ghost user = model::seq_view(lines@);
    add_line(&mut lines, false, "Username:", data.preferred_username.as_str());
    assert(model::seq_view(lines@) =~= user + seq![
        line(false, "Username:"@, data.preferred_username@),
    ]);
    let ghost before = model::seq_view(lines@);
    if data.is_service_account {
        add_line(&mut lines, false, "", "Service account");
        assert(model::seq_view(lines@) =~= before + seq![line(false, ""@, "Service account"@)]);
    } else {
        assert(before =~= before + seq![]);
    }
    add_expiry_line(&mut lines, false, expires);
    let ghost before = model::seq_view(lines@);
    add_line(&mut lines, false, "Token:", data.token.as_str());
    assert(model::seq_view(lines@) =~= before + seq![line(false, "Token:"@, data.token@)]);
    lines
}

/// Gives the lines of a user with a token.
pub fn user_token_lines(data: &UserToken) -> (lines: Vec<Line>)
    requires
        can_show(data.expires),
    ensures
        model::seq_view(lines@) == token_view(*data, expiry(data.expires)),
{
    let expires = expiry_text(data.expires);
    lines_of_user_token(data, &expires)
}

/// What is reported while users are looked up.
#[derive(Debug)]
pub enum InfoEvent {
    /// A user.
    UserInfo { id: String, name: String },
    /// A user with a token.
    UserToken { data: UserToken },
    /// Something that is not shown.
    Other,
}

/// The lines of what is reported while users are looked up.
pub open spec fn info_view(event: InfoEvent) -> Seq<LineView> {
    match event {
        InfoEvent::UserInfo { id, name } => user_view(id@, name@),
        InfoEvent::UserToken { data } => token_view(data, expiry(data.expires)),
        InfoEvent::Other => seq![],
    }
}

/// Gives the lines of what is reported while users are looked up.
pub fn handle_info_command(event: &InfoEvent) -> (lines: Vec<Line>)
    requires
        event matches InfoEvent::UserToken { data } ==> can_show(data.expires),
    ensures
        model::seq_view(lines@) == info_view(*event),
{
    match event {
        InfoEvent::UserInfo { id, name } => user_lines(id.as_str(), name.as_str()),
        InfoEvent::UserToken { data } => user_token_lines(data),
        InfoEvent::Other => {
            let lines: Vec<Line> = Vec::new();
            assert(model::seq_view(lines@) =~= seq![]);
            lines
        },
    }
}

/// The commands that report that they are done.
#[derive(Debug, Clone, Copy)]
pub enum Reporting {
    Login,
    Logout,
    Clear,
}

/// Gives what a command reports once it ended with `status`: nothing where it failed.
pub fn completion_message(command: Reporting, status: i32) -> (message: Option<&'static str>)
    ensures
        message is Some <==> status == 0,
        message matches Some(text) ==> text@ == (match command {
            Reporting::Login => "Authentication successful"@,
            Reporting::Logout => "Logged out"@,
            Reporting::Clear => "Auth store cleared"@,
        }),
{
    if status != 0 {
        return None;
    }
    match command {
        Reporting::Login => Some("Authentication successful"),
        Reporting::Logout => Some("Logged out"),
        Reporting::Clear => Some("Auth store cleared"),
    }
}

} // verus!
