//! What holds of the authentication commands, said of their arguments and of what is shown.
use vstd::prelude::*;

use crate::client::auth;
use crate::client::auth::{
    AuthLoginArgs, CollectedIdentity, InfoEvent, Line, LineView, LoginPlan, UserToken,
};
use crate::client::names;
use crate::client::names::{EndpointUsers, EndpointUsersView};
use crate::text;

verus! {

/// Whether two optional texts are the same.
pub open spec fn same_option(a: Option<String>, b: Option<String>) -> bool {
    match (a, b) {
        (Some(a), Some(b)) => a@ == b@,
        (None, None) => true,
        _ => false,
    }
}

/// A login uses a token exactly where a kind of token and a token are given, and then it hands both
/// on as they are, with the two URLs of the arguments. Where only one of them is given, it is
/// refused; and where neither is, the user helps, as the arguments say.
pub proof fn login_hands_on_its_arguments(
    args: AuthLoginArgs,
    stdin: Option<Seq<char>>,
    r: LoginPlan,
)
    requires
        r@ == auth::plan(args, stdin),
    ensures
        match r {
            LoginPlan::WithToken { remote_url, token, token_type, auth_url } => {
                &&& args.token_type matches Some(kind) && token_type@ == kind@
                &&& match args.token {
                    Some(given) => token@ == given@,
                    None => stdin == Some(token@),
                }
                &&& same_option(remote_url, args.remote_url)
                &&& same_option(auth_url, args.auth_url)
            },
            LoginPlan::Interactive { remote_url, no_browser } => {
                &&& args.token_type is None && args.token is None && !args.token_stdin
                &&& same_option(remote_url, args.remote_url)
                &&& no_browser == args.no_browser
            },
            LoginPlan::Refused { message } => {
                &&& args.token_type is Some || args.token is Some || args.token_stdin
                &&& args.token_type is None || (args.token is None && stdin is None)
                &&& message@
                    == "--token-type and exactly one of --token or --token-stdin are required for non-interactive login"@
            },
        },
{
}

/// The token from the standard input is what was read, without the white space around it; nothing
/// else than white space is no token; and what could not be read is reported.
pub proof fn token_is_read_without_white_space(read: Result<Seq<char>, Seq<char>>)
    ensures
        match read {
            Err(error) => auth::token_read(read) == Err::<Seq<char>, Seq<char>>(
                "Failed to read authentication token from stdin: "@ + error,
            ),
            Ok(input) => if exists|i: int|
                0 <= i < input.len() && !#[trigger] text::is_white_space(input[i]) {
                auth::token_read(read) == Ok::<Seq<char>, Seq<char>>(text::trim_white(input))
            } else {
                auth::token_read(read) == Err::<Seq<char>, Seq<char>>(
                    "Authentication token read from stdin is empty"@,
                )
            },
        },
{
    if let Ok(input) = read {
        crate::text_laws::trimmed_text_is_empty_where_all_is_white(input);
    }
}

/// A line is what was put into it.
pub proof fn line_is_what_it_shows(shown: Line, indented: bool, header: Seq<char>, text: Seq<char>)
    requires
        shown@ == auth::line(indented, header, text),
    ensures
        shown.indented == indented,
        shown.header@ == header,
        shown.text@ == text,
{
}

/// Whether a line with this header is among `lines`.
pub open spec fn has_header(lines: Seq<LineView>, header: Seq<char>) -> bool {
    exists|i: int| 0 <= i < lines.len() && (#[trigger] lines[i]).header == header
}

/// Whether the lines with this header are exactly the ones with this text.
pub open spec fn shows(lines: Seq<LineView>, header: Seq<char>, text: Seq<char>) -> bool {
    &&& has_header(lines, header)
    &&& forall|i: int|
        0 <= i < lines.len() && (#[trigger] lines[i]).header == header ==> lines[i].text == text
}

proof fn lemma_headers_differ()
    ensures
        "Auth URL:"@ != "Resource:"@,
        "Auth URL:"@ != "User:"@,
        "Auth URL:"@ != "User ID:"@,
        "Auth URL:"@ != "Domains:"@,
        "Auth URL:"@ != "Expires:"@,
        "Auth URL:"@ != "Token:"@,
        "Resource:"@ != "User:"@,
        "Resource:"@ != "User ID:"@,
        "Resource:"@ != "Domains:"@,
        "Resource:"@ != "Expires:"@,
        "Resource:"@ != "Token:"@,
        "User:"@ != "User ID:"@,
        "User:"@ != "Domains:"@,
        "User:"@ != "Expires:"@,
        "User:"@ != "Token:"@,
        "User ID:"@ != "Domains:"@,
        "User ID:"@ != "Expires:"@,
        "User ID:"@ != "Token:"@,
        "Domains:"@ != "Expires:"@,
        "Domains:"@ != "Token:"@,
        "Expires:"@ != "Token:"@,
        "ID:"@ != "Name:"@,
        "ID:"@ != "Username:"@,
        "ID:"@ != ""@,
        "ID:"@ != "Expires:"@,
        "ID:"@ != "Token:"@,
        "Name:"@ != "Username:"@,
        "Name:"@ != ""@,
        "Name:"@ != "Expires:"@,
        "Name:"@ != "Token:"@,
        "Username:"@ != ""@,
        "Username:"@ != "Expires:"@,
        "Username:"@ != "Token:"@,
        ""@ != "Expires:"@,
        ""@ != "Token:"@,
{
    reveal_strlit("Auth URL:");
    reveal_strlit("Resource:");
    reveal_strlit("User:");
    reveal_strlit("User ID:");
    reveal_strlit("Domains:");
    reveal_strlit("Expires:");
    reveal_strlit("Token:");
    reveal_strlit("ID:");
    reveal_strlit("Name:");
    reveal_strlit("Username:");
    reveal_strlit("");
    assert("Auth URL:"@[0] == 'A' && "Resource:"@[0] == 'R' && "User:"@[0] == 'U');
    assert("Domains:"@[0] == 'D' && "Expires:"@[0] == 'E' && "Token:"@[0] == 'T');
    assert("ID:"@[0] == 'I' && "Name:"@[0] == 'N' && "User ID:"@[0] == 'U');
    assert("Username:"@[0] == 'U');
    assert("User:"@.len() == 5 && "User ID:"@.len() == 8 && ""@.len() == 0);
    assert("ID:"@.len() == 3 && "Name:"@.len() == 5 && "Username:"@.len() == 9);
    assert("Expires:"@.len() == 8 && "Token:"@.len() == 6);
}

/// What is listed of an identity, line by line: its service comes first, then its resource, its
/// user, its domains, its expiry and its token, each behind its own header and only where there is
/// something to show. The user is shown with the name where that is known.
pub proof fn listed_identity_shows_its_fields(
    data: CollectedIdentity,
    name: Option<Seq<char>>,
    expires: Option<Seq<char>>,
)
    ensures
        ({
            let lines = auth::identity_view(data, name, expires);
            &&& lines[0].header == "Auth URL:"@
            &&& lines[0].text == data.auth_url@
            &&& !lines[0].indented
            &&& forall|i: int| 0 < i < lines.len() ==> (#[trigger] lines[i]).indented
            &&& shows(lines, "Auth URL:"@, data.auth_url@)
            &&& data.resource@.len() > 0 ==> shows(lines, "Resource:"@, data.resource@)
            &&& data.resource@.len() == 0 ==> !has_header(lines, "Resource:"@)
            &&& name matches Some(name) ==> shows(
                lines,
                "User:"@,
                name + " ("@ + data.user_id@ + ")"@,
            ) && !has_header(lines, "User ID:"@)
            &&& name is None ==> shows(lines, "User ID:"@, data.user_id@) && !has_header(
                lines,
                "User:"@,
            )
            &&& data.authorized_domains@.len() > 0 ==> shows(
                lines,
                "Domains:"@,
                data.authorized_domains@,
            )
            &&& data.authorized_domains@.len() == 0 ==> !has_header(lines, "Domains:"@)
            &&& expires matches Some(time) ==> shows(lines, "Expires:"@, time)
            &&& expires is None ==> !has_header(lines, "Expires:"@)
            &&& data.token@.len() > 0 ==> shows(lines, "Token:"@, data.token@) && lines[lines.len()
                - 1].header == "Token:"@
            &&& data.token@.len() == 0 ==> !has_header(lines, "Token:"@)
        }),
{
    lemma_headers_differ();
    let lines = auth::identity_view(data, name, expires);
    let resource = auth::optional_line("Resource:"@, data.resource@);
    let domains = auth::optional_line("Domains:"@, data.authorized_domains@);
    let expiry = auth::expiry_line(true, expires);
    let token = auth::optional_line("Token:"@, data.token@);
    let a: int = 1;
    let b: int = a + resource.len();
    let c: int = b + 1;
    let d: int = c + domains.len();
    let e: int = d + expiry.len();
    assert(lines.len() == e + token.len());
    assert(lines[0] == auth::line(false, "Auth URL:"@, data.auth_url@));
    if resource.len() > 0 {
        assert(lines[a] == resource[0]);
    }
    assert(lines[b] == auth::user_line(data.user_id@, name));
    if domains.len() > 0 {
        assert(lines[c] == domains[0]);
    }
    if expiry.len() > 0 {
        assert(lines[d] == expiry[0]);
    }
    if token.len() > 0 {
        assert(lines[e] == token[0]);
    }
    assert forall|i: int| #![trigger lines[i]] 0 <= i < lines.len() implies ({
        ||| i == 0
        ||| i == a && resource.len() > 0
        ||| i == b
        ||| i == c && domains.len() > 0
        ||| i == d && expiry.len() > 0
        ||| i == e && token.len() > 0
    }) by {}
}

/// What is shown of a user with a token: who it is, that it is a service account where it is one, the
/// expiry where there is one, and the token last.
pub proof fn user_with_token_shows_its_fields(data: UserToken, expires: Option<Seq<char>>)
    ensures
        ({
            let lines = auth::token_view(data, expires);
            &&& lines[0].header == "ID:"@ && lines[0].text == data.id@
            &&& lines[1].header == "Name:"@ && lines[1].text == data.name@
            &&& lines[2].header == "Username:"@ && lines[2].text == data.preferred_username@
            &&& data.is_service_account ==> shows(lines, ""@, "Service account"@)
            &&& !data.is_service_account ==> !has_header(lines, ""@)
            &&& expires matches Some(time) ==> shows(lines, "Expires:"@, time)
            &&& expires is None ==> !has_header(lines, "Expires:"@)
            &&& lines[lines.len() - 1].header == "Token:"@
            &&& lines[lines.len() - 1].text == data.token@
            &&& forall|i: int| 0 <= i < lines.len() ==> !(#[trigger] lines[i]).indented
            &&& lines.len() == 4 + (if data.is_service_account {
                1int
            } else {
                0
            }) + (if expires is Some {
                1int
            } else {
                0
            })
        }),
{
    lemma_headers_differ();
    let lines = auth::token_view(data, expires);
    let user = auth::user_view(data.id@, data.name@);
    let expiry = auth::expiry_line(false, expires);
    let service: int = if data.is_service_account {
        1
    } else {
        0
    };
    let d: int = 3 + service;
    let e: int = d + expiry.len();
    assert(lines.len() == e + 1);
    assert(lines[0] == user[0]);
    assert(lines[1] == user[1]);
    assert(lines[2] == auth::line(false, "Username:"@, data.preferred_username@));
    if service == 1 {
        assert(lines[3] == auth::line(false, ""@, "Service account"@));
    }
    if expiry.len() > 0 {
        assert(lines[d] == expiry[0]);
    }
    assert(lines[e] == auth::line(false, "Token:"@, data.token@));
    assert forall|i: int| #![trigger lines[i]] 0 <= i < lines.len() implies ({
        ||| i == 0
        ||| i == 1
        ||| i == 2
        ||| i == 3 && service == 1
        ||| i == d && expiry.len() > 0
        ||| i == e
    }) by {}
}

/// What is shown while users are looked up: of a user the identifier and the name, of a user with a
/// token more, and nothing of anything else.
pub proof fn reported_users_are_shown(event: InfoEvent)
    ensures
        match event {
            InfoEvent::UserInfo { id, name } => {
                let lines = auth::info_view(event);
                &&& lines.len() == 2
                &&& lines[0].header == "ID:"@ && lines[0].text == id@ && !lines[0].indented
                &&& lines[1].header == "Name:"@ && lines[1].text == name@ && !lines[1].indented
            },
            InfoEvent::UserToken { data } => auth::info_view(event) == auth::token_view(
                data,
                auth::expiry(data.expires),
            ),
            InfoEvent::Other => auth::info_view(event).len() == 0,
        },
{
}

/// The expiry that is shown is the time of that number of milliseconds, read as a signed number; none
/// is shown for zero and for what lies outside the years 0 to 9999.
pub proof fn expiry_is_shown_as_a_time(expires: u64)
    ensures
        ({
            let millis = if expires < 0x8000_0000_0000_0000 {
                expires as int
            } else {
                expires - 0x1_0000_0000_0000_0000
            };
            if expires != 0 && -62_167_219_200_000 <= millis <= 253_402_300_799_999 {
                auth::expiry(expires) == Some(auth::rfc2822_text(millis as i64))
            } else {
                auth::expiry(expires) is None
            }
        }),
{
}

/// An expiry can be shown, or need not be, exactly where it is zero, lies in the years 0 to 9999, or
/// is no time at all.
pub proof fn showable_expiries(expires: u64)
    ensures
        auth::can_show(expires) <==> {
            let millis = if expires < 0x8000_0000_0000_0000 {
                expires as int
            } else {
                expires - 0x1_0000_0000_0000_0000
            };
            ||| expires == 0
            ||| -62_167_219_200_000 <= millis <= 253_402_300_799_999
            ||| millis < -8_334_601_228_800_000
            ||| millis > 8_210_266_876_799_999
        },
{
}

/// The name of a user is the last one that was answered for the user, and there is none where none
/// was.
pub proof fn last_answered_name_counts(
    answered: Seq<(Seq<char>, Seq<char>)>,
    user_id: Seq<char>,
)
    ensures
        match names::name_of(answered, user_id) {
            Some(name) => exists|i: int|
                {
                    &&& 0 <= i < answered.len()
                    &&& (#[trigger] answered[i]).0 == user_id
                    &&& answered[i].1 == name
                    &&& forall|j: int|
                        i < j < answered.len() ==> (#[trigger] answered[j]).0 != user_id
                },
            None => forall|j: int|
                0 <= j < answered.len() ==> (#[trigger] answered[j]).0 != user_id,
        },
    decreases answered.len(),
{
    if answered.len() > 0 {
        let less = answered.drop_last();
        let last = answered.len() - 1;
        if answered[last].0 != user_id {
            last_answered_name_counts(less, user_id);
            match names::name_of(less, user_id) {
                Some(name) => {
                    let i = choose|i: int|
                        {
                            &&& 0 <= i < less.len()
                            &&& (#[trigger] less[i]).0 == user_id
                            &&& less[i].1 == name
                            &&& forall|j: int|
                                i < j < less.len() ==> (#[trigger] less[j]).0 != user_id
                        };
                    assert(answered[i] == less[i]);
                    assert forall|j: int| i < j < answered.len() implies (#[trigger] answered[j]).0
                        != user_id by {
                        if j < last {
                            assert(less[j] == answered[j]);
                        }
                    }
                },
                None => {
                    assert forall|j: int| 0 <= j < answered.len() implies (
                    #[trigger] answered[j]).0 != user_id by {
                        if j < last {
                            assert(less[j] == answered[j]);
                        }
                    }
                },
            }
        } else {
            assert(answered[last].0 == user_id);
        }
    }
}

/// The list goes identity by identity: what is added for one are its own lines, with the name that
/// is known of its user and its own expiry.
pub proof fn identities_are_listed_one_by_one(
    identities: Seq<CollectedIdentity>,
    last: CollectedIdentity,
    answered: Seq<(Seq<char>, Seq<char>)>,
)
    ensures
        names::listing(Seq::empty(), answered).len() == 0,
        names::listing(identities.push(last), answered) == names::listing(identities, answered)
            + auth::identity_view(
            last,
            names::name_of(answered, last.user_id@),
            auth::expiry(last.expires),
        ),
{
    assert(identities.push(last).drop_last() =~= identities);
}

/// Whether the user is among those who are asked for at the service.
pub open spec fn is_asked_for(
    groups: Seq<EndpointUsersView>,
    auth_url: Seq<char>,
    user_id: Seq<char>,
) -> bool {
    exists|i: int|
        0 <= i < groups.len() && (#[trigger] groups[i]).auth_url == auth_url
            && groups[i].user_ids.contains(user_id)
}

/// Whether the user has an identity at the service.
pub open spec fn has_identity(
    identities: Seq<CollectedIdentity>,
    auth_url: Seq<char>,
    user_id: Seq<char>,
) -> bool {
    exists|k: int|
        0 <= k < identities.len() && (#[trigger] identities[k]).auth_url@ == auth_url
            && identities[k].user_id@ == user_id
}

/// Names are asked for once per service, and there exactly for the users who have an identity there,
/// each once and in order.
pub proof fn users_are_asked_for_where_they_are(
    identities: Seq<CollectedIdentity>,
    groups: Seq<EndpointUsersView>,
)
    requires
        names::is_grouping(identities, groups),
    ensures
        forall|auth_url: Seq<char>, user_id: Seq<char>|
            is_asked_for(groups, auth_url, user_id) <==> #[trigger] has_identity(
                identities,
                auth_url,
                user_id,
            ),
        forall|i: int, j: int|
            0 <= i < groups.len() && 0 <= j < groups.len() && (#[trigger] groups[i]).auth_url == (
            #[trigger] groups[j]).auth_url ==> i == j,
        forall|i: int, u: int, v: int|
            #![trigger groups[i].user_ids[u], groups[i].user_ids[v]]
            0 <= i < groups.len() && 0 <= u < v < groups[i].user_ids.len() ==> text::text_before(
                groups[i].user_ids[u],
                groups[i].user_ids[v],
            ),
{
    assert forall|auth_url: Seq<char>, user_id: Seq<char>|
        is_asked_for(groups, auth_url, user_id) <==> #[trigger] has_identity(
            identities,
            auth_url,
            user_id,
        ) by {
        if is_asked_for(groups, auth_url, user_id) {
            let i = choose|i: int|
                0 <= i < groups.len() && (#[trigger] groups[i]).auth_url == auth_url
                    && groups[i].user_ids.contains(user_id);
            assert(names::is_listed(identities, groups[i].auth_url, user_id));
            let k = choose|k: int|
                0 <= k < identities.len() && (#[trigger] identities[k]).auth_url@ == auth_url
                    && identities[k].user_id@ == user_id;
            assert(identities[k].user_id@ == user_id);
        }
        if has_identity(identities, auth_url, user_id) {
            let k = choose|k: int|
                0 <= k < identities.len() && (#[trigger] identities[k]).auth_url@ == auth_url
                    && identities[k].user_id@ == user_id;
            assert(names::is_grouped(groups, identities[k]));
        }
    }
    assert forall|i: int, j: int|
        0 <= i < groups.len() && 0 <= j < groups.len() && (#[trigger] groups[i]).auth_url == (
        #[trigger] groups[j]).auth_url implies i == j by {
        if i < j {
            assert(groups[i].auth_url != groups[j].auth_url);
        } else if j < i {
            assert(groups[j].auth_url != groups[i].auth_url);
        }
    }
    assert forall|i: int, u: int, v: int|
        #![trigger groups[i].user_ids[u], groups[i].user_ids[v]]
        0 <= i < groups.len() && 0 <= u < v < groups[i].user_ids.len() implies text::text_before(
        groups[i].user_ids[u],
        groups[i].user_ids[v],
    ) by {
        assert(names::in_order(groups[i].user_ids));
    }
}

/// Users and names stay in their order, and a group is what it holds.
pub proof fn names_belong_to_their_users(
    pairs: Seq<(String, String)>,
    i: int,
    group: EndpointUsers,
    u: int,
)
    requires
        0 <= i < pairs.len(),
        0 <= u < group.user_ids@.len(),
    ensures
        names::name_views(pairs).len() == pairs.len(),
        names::name_views(pairs)[i].0 == pairs[i].0@,
        names::name_views(pairs)[i].1 == pairs[i].1@,
        group@.auth_url == group.auth_url@,
        group@.user_ids.len() == group.user_ids@.len(),
        group@.user_ids[u] == group.user_ids@[u]@,
{
}

} // verus!
