//! What holds of the tokens that are kept, said of the entries one by one.
use vstd::prelude::*;

use crate::credential::domain;
use crate::credential::identities;
use crate::credential::identities::{IdentityEntry, IdentityEntryView, StoredIdentityInfo};
use crate::credential::jwt::{JWTUserInfo, UserInfo, UserInfoView};
use crate::credential::store_key;
use crate::credential::token_map;
use crate::credential::token_map::{
    IdentityToken, IdentityTokenView, RemoteIdentity, RemoteIdentityView, TokenStore,
};
use crate::model;
use crate::text;

verus! {

/// Whether entry `i` is the first with the key `remote`.
pub open spec fn is_first_entry(
    remotes: Seq<RemoteIdentityView>,
    remote: Seq<char>,
    i: int,
) -> bool {
    &&& 0 <= i < remotes.len()
    &&& remotes[i].remote == remote
    &&& forall|k: int| 0 <= k < i ==> (#[trigger] remotes[k]).remote != remote
}

/// Whether no entry has the key `remote`.
pub open spec fn has_no_entry(remotes: Seq<RemoteIdentityView>, remote: Seq<char>) -> bool {
    forall|k: int| 0 <= k < remotes.len() ==> (#[trigger] remotes[k]).remote != remote
}

/// Whether token `j` is the first of a user.
pub open spec fn is_first_token(
    tokens: Seq<IdentityTokenView>,
    user_id: Seq<char>,
    j: int,
) -> bool {
    &&& 0 <= j < tokens.len()
    &&& tokens[j].user_id == user_id
    &&& forall|k: int| 0 <= k < j ==> (#[trigger] tokens[k]).user_id != user_id
}

/// Whether no token is the user's.
pub open spec fn has_no_token(tokens: Seq<IdentityTokenView>, user_id: Seq<char>) -> bool {
    forall|k: int| 0 <= k < tokens.len() ==> (#[trigger] tokens[k]).user_id != user_id
}

proof fn lemma_no_entry(remotes: Seq<RemoteIdentityView>, remote: Seq<char>)
    requires
        has_no_entry(remotes, remote),
    ensures
        token_map::remote_index(remotes, remote) is None,
{
    token_map::lemma_remote_index(remotes, remote);
    if let Some(i) = token_map::remote_index(remotes, remote) {
        assert(remotes[i].remote != remote);
    }
}

proof fn lemma_no_token(tokens: Seq<IdentityTokenView>, user_id: Seq<char>)
    requires
        has_no_token(tokens, user_id),
    ensures
        token_map::user_index(tokens, user_id) is None,
{
    token_map::lemma_user_index(tokens, user_id);
    if let Some(i) = token_map::user_index(tokens, user_id) {
        assert(tokens[i].user_id != user_id);
    }
}

/// The token that is stored carries what was given: the user, the encrypted token, and the domains it
/// is meant for, with that of its endpoint after them. It has no refresh token of its own.
pub proof fn new_token_carries_what_was_given(
    user_id: Seq<char>,
    token: Seq<char>,
    domains: Seq<Seq<char>>,
    auth_domain: Seq<char>,
)
    ensures
        ({
            let new = token_map::new_token(user_id, token, domains, auth_domain);
            &&& new.user_id == user_id
            &&& new.token == token
            &&& new.refresh_token is None
            &&& new.acceptable_root_domains.len() == domains.len() + 1
            &&& new.acceptable_root_domains.take(domains.len() as int) == domains
            &&& new.acceptable_root_domains[domains.len() as int] == auth_domain
        }),
{
    let new = token_map::new_token(user_id, token, domains, auth_domain);
    assert(new.acceptable_root_domains.take(domains.len() as int) =~= domains);
}

/// To store a token where the service is not known adds an entry with it at the end, and changes no
/// other.
pub proof fn storing_at_a_new_service_adds_an_entry(
    remotes: Seq<RemoteIdentityView>,
    remote: Seq<char>,
    new: IdentityTokenView,
)
    requires
        has_no_entry(remotes, remote),
    ensures
        ({
            let after = token_map::put_remote(remotes, remote, new);
            &&& after.len() == remotes.len() + 1
            &&& after.take(remotes.len() as int) == remotes
            &&& after[remotes.len() as int].remote == remote
            &&& after[remotes.len() as int].token == seq![new]
        }),
{
    lemma_no_entry(remotes, remote);
    assert(token_map::put_remote(remotes, remote, new).take(remotes.len() as int) =~= remotes);
}

/// To store a token where the service is known changes only the first entry of the service, and in
/// it only the first token of the user, which keeps its refresh token; where the user has none, the
/// token is added at the end.
pub proof fn storing_changes_one_token(
    remotes: Seq<RemoteIdentityView>,
    remote: Seq<char>,
    new: IdentityTokenView,
    i: int,
)
    requires
        is_first_entry(remotes, remote, i),
    ensures
        ({
            let after = token_map::put_remote(remotes, remote, new);
            let before = remotes[i].token;
            &&& after.len() == remotes.len()
            &&& forall|k: int|
                0 <= k < remotes.len() && k != i ==> #[trigger] after[k] == remotes[k]
            &&& after[i].remote == remote
            &&& has_no_token(before, new.user_id) ==> after[i].token == before.push(new)
            &&& forall|j: int| #[trigger]
                is_first_token(before, new.user_id, j) ==> {
                    &&& after[i].token.len() == before.len()
                    &&& forall|k: int|
                        0 <= k < before.len() && k != j ==> #[trigger] after[i].token[k]
                            == before[k]
                    &&& after[i].token[j].user_id == new.user_id
                    &&& after[i].token[j].token == new.token
                    &&& after[i].token[j].acceptable_root_domains == new.acceptable_root_domains
                    &&& after[i].token[j].refresh_token == before[j].refresh_token
                }
        }),
{
    token_map::lemma_remote_index_is(remotes, remote, i);
    let before = remotes[i].token;
    if has_no_token(before, new.user_id) {
        lemma_no_token(before, new.user_id);
    }
    assert forall|j: int| #[trigger] is_first_token(before, new.user_id, j) implies ({
        let after = token_map::put_remote(remotes, remote, new);
        &&& after[i].token.len() == before.len()
        &&& forall|k: int|
            0 <= k < before.len() && k != j ==> #[trigger] after[i].token[k] == before[k]
        &&& after[i].token[j].user_id == new.user_id
        &&& after[i].token[j].token == new.token
        &&& after[i].token[j].acceptable_root_domains == new.acceptable_root_domains
        &&& after[i].token[j].refresh_token == before[j].refresh_token
    }) by {
        token_map::lemma_user_index_is(before, new.user_id, j);
    }
}

/// The token that is found is that of the first token of the user, in the first entry of the service,
/// that the filter accepts. Slashes at the end of the URL make no difference.
pub proof fn first_accepted_token_is_found(
    remotes: Seq<RemoteIdentityView>,
    auth_endpoint: Seq<char>,
    user_id: Seq<char>,
    accepts: spec_fn(IdentityTokenView) -> bool,
    i: int,
    j: int,
)
    requires
        text::trim_end(auth_endpoint, '/').len() > 0,
        user_id.len() > 0,
        is_first_entry(remotes, text::trim_end(auth_endpoint, '/'), i),
        0 <= j < remotes[i].token.len(),
        remotes[i].token[j].user_id == user_id,
        accepts(remotes[i].token[j]),
        forall|k: int|
            0 <= k < j ==> !(accepts(#[trigger] remotes[i].token[k]) && remotes[i].token[k].user_id
                == user_id),
    ensures
        token_map::find_token(remotes, auth_endpoint, user_id, accepts) == Some(
            remotes[i].token[j].token,
        ),
{
    token_map::lemma_remote_index_is(remotes, text::trim_end(auth_endpoint, '/'), i);
    token_map::lemma_chosen_index_is(remotes[i].token, user_id, accepts, j);
}

/// No token is found where the URL or the user is empty, where the service is not known, and where
/// the filter accepts none of the user's tokens in the first entry of the service.
pub proof fn no_token_is_found_where_none_is_accepted(
    remotes: Seq<RemoteIdentityView>,
    auth_endpoint: Seq<char>,
    user_id: Seq<char>,
    accepts: spec_fn(IdentityTokenView) -> bool,
)
    requires
        ({
            let remote = text::trim_end(auth_endpoint, '/');
            ||| remote.len() == 0
            ||| user_id.len() == 0
            ||| has_no_entry(remotes, remote)
            ||| exists|i: int| #[trigger]
                is_first_entry(remotes, remote, i) && forall|k: int|
                    0 <= k < remotes[i].token.len() ==> !(accepts(#[trigger] remotes[i].token[k])
                        && remotes[i].token[k].user_id == user_id)
        }),
    ensures
        token_map::find_token(remotes, auth_endpoint, user_id, accepts) is None,
{
    let remote = text::trim_end(auth_endpoint, '/');
    if remote.len() > 0 && user_id.len() > 0 {
        if has_no_entry(remotes, remote) {
            lemma_no_entry(remotes, remote);
        } else {
            let i = choose|i: int| #[trigger]
                is_first_entry(remotes, remote, i) && forall|k: int|
                    0 <= k < remotes[i].token.len() ==> !(accepts(#[trigger] remotes[i].token[k])
                        && remotes[i].token[k].user_id == user_id);
            token_map::lemma_remote_index_is(remotes, remote, i);
            token_map::lemma_none_chosen(remotes[i].token, user_id, accepts);
        }
    }
}

/// The refresh token that is found is that of the first token of the user in the first entry of the
/// service, and there is none where there is no such token.
pub proof fn refresh_token_is_that_of_the_first_token(
    remotes: Seq<RemoteIdentityView>,
    auth_endpoint: Seq<char>,
    user_id: Seq<char>,
)
    ensures
        ({
            let remote = text::trim_end(auth_endpoint, '/');
            let found = token_map::find_refresh_token(remotes, auth_endpoint, user_id);
            &&& has_no_entry(remotes, remote) ==> found is None
            &&& forall|i: int| #[trigger]
                is_first_entry(remotes, remote, i) ==> {
                    &&& has_no_token(remotes[i].token, user_id) ==> found is None
                    &&& forall|j: int| #[trigger]
                        is_first_token(remotes[i].token, user_id, j) ==> found
                            == remotes[i].token[j].refresh_token
                }
        }),
{
    let remote = text::trim_end(auth_endpoint, '/');
    let found = token_map::find_refresh_token(remotes, auth_endpoint, user_id);
    if has_no_entry(remotes, remote) {
        lemma_no_entry(remotes, remote);
    }
    assert forall|i: int| #[trigger] is_first_entry(remotes, remote, i) implies {
        &&& has_no_token(remotes[i].token, user_id) ==> found is None
        &&& forall|j: int| #[trigger]
            is_first_token(remotes[i].token, user_id, j) ==> found
                == remotes[i].token[j].refresh_token
    } by {
        token_map::lemma_remote_index_is(remotes, remote, i);
        if has_no_token(remotes[i].token, user_id) {
            lemma_no_token(remotes[i].token, user_id);
        }
        assert forall|j: int| #[trigger] is_first_token(remotes[i].token, user_id, j) implies found
            == remotes[i].token[j].refresh_token by {
            token_map::lemma_user_index_is(remotes[i].token, user_id, j);
        }
    }
}

/// To store a refresh token changes nothing but the refresh token of the user's first token in the
/// first entry of the service.
pub proof fn storing_a_refresh_token_changes_just_that(
    remotes: Seq<RemoteIdentityView>,
    remote: Seq<char>,
    user_id: Seq<char>,
    refresh_token: Seq<char>,
    i: int,
    j: int,
)
    requires
        is_first_entry(remotes, remote, i),
        is_first_token(remotes[i].token, user_id, j),
    ensures
        token_map::has_user_in(remotes, remote, user_id),
        ({
            let after = token_map::put_refresh(remotes, remote, user_id, refresh_token);
            let before = remotes[i].token;
            &&& after.len() == remotes.len()
            &&& forall|k: int|
                0 <= k < remotes.len() && k != i ==> #[trigger] after[k] == remotes[k]
            &&& after[i].remote == remotes[i].remote
            &&& after[i].token.len() == before.len()
            &&& forall|k: int|
                0 <= k < before.len() && k != j ==> #[trigger] after[i].token[k] == before[k]
            &&& after[i].token[j].user_id == before[j].user_id
            &&& after[i].token[j].token == before[j].token
            &&& after[i].token[j].acceptable_root_domains == before[j].acceptable_root_domains
            &&& after[i].token[j].refresh_token == Some(refresh_token)
        }),
{
    token_map::lemma_remote_index_is(remotes, remote, i);
    token_map::lemma_user_index_is(remotes[i].token, user_id, j);
}

/// A user has a token in an entry exactly where the first entry with that key holds one.
pub proof fn user_is_known_where_a_token_is(
    remotes: Seq<RemoteIdentityView>,
    remote: Seq<char>,
    user_id: Seq<char>,
)
    ensures
        token_map::has_user_in(remotes, remote, user_id) <==> exists|i: int, j: int|
            #[trigger] is_first_entry(remotes, remote, i) && #[trigger] is_first_token(
                remotes[i].token,
                user_id,
                j,
            ),
{
    token_map::lemma_remote_index(remotes, remote);
    if let Some(i) = token_map::remote_index(remotes, remote) {
        token_map::lemma_user_index(remotes[i].token, user_id);
        assert(is_first_entry(remotes, remote, i));
        if let Some(j) = token_map::user_index(remotes[i].token, user_id) {
            assert(is_first_token(remotes[i].token, user_id, j));
        }
    }
    if exists|i: int, j: int|
        #[trigger] is_first_entry(remotes, remote, i) && #[trigger] is_first_token(
            remotes[i].token,
            user_id,
            j,
        ) {
        let (i, j) = choose|i: int, j: int|
            #[trigger] is_first_entry(remotes, remote, i) && #[trigger] is_first_token(
                remotes[i].token,
                user_id,
                j,
            );
        token_map::lemma_remote_index_is(remotes, remote, i);
        token_map::lemma_user_index_is(remotes[i].token, user_id, j);
    }
}

/// To remove the tokens of a user keeps every other token, in order, and drops all of the user's.
pub proof fn removing_a_user_keeps_the_others(
    tokens: Seq<IdentityTokenView>,
    last: IdentityTokenView,
    user_id: Seq<char>,
)
    ensures
        token_map::without_user(Seq::empty(), user_id).len() == 0,
        token_map::without_user(tokens.push(last), user_id) == (if last.user_id == user_id {
            token_map::without_user(tokens, user_id)
        } else {
            token_map::without_user(tokens, user_id).push(last)
        }),
{
    reveal(Seq::filter);
    token_map::lemma_without_user_push(tokens, last, user_id);
}

/// To remove a service keeps every entry, in order, that is neither of the service nor of one of its
/// resources, as it is.
pub proof fn removing_a_service_keeps_the_others(
    remotes: Seq<RemoteIdentityView>,
    last: RemoteIdentityView,
    auth_url: Seq<char>,
)
    ensures
        token_map::without_service(Seq::empty(), auth_url).len() == 0,
        token_map::without_service(remotes.push(last), auth_url) == (if belongs_to(
            last.remote,
            auth_url,
        ) {
            token_map::without_service(remotes, auth_url)
        } else {
            token_map::without_service(remotes, auth_url).push(last)
        }),
{
    reveal(Seq::filter);
    assert(remotes.push(last).drop_last() =~= remotes);
    entries_of_a_service(last.remote, auth_url);
}

/// To remove the tokens of a user at a service keeps, in order, every entry that is neither of the
/// service nor of one of its resources; of the others it keeps the tokens of other users, and the
/// entry only where there are any.
pub proof fn removing_a_user_at_a_service_keeps_the_others(
    remotes: Seq<RemoteIdentityView>,
    last: RemoteIdentityView,
    auth_url: Seq<char>,
    user_id: Seq<char>,
)
    ensures
        token_map::without_user_at(Seq::empty(), auth_url, user_id).len() == 0,
        ({
            let before = token_map::without_user_at(remotes, auth_url, user_id);
            let after = token_map::without_user_at(remotes.push(last), auth_url, user_id);
            let others = token_map::without_user(last.token, user_id);
            if !belongs_to(last.remote, auth_url) {
                after == before.push(last)
            } else if others.len() == 0 {
                after == before
            } else {
                after == before.push(RemoteIdentityView { remote: last.remote, token: others })
            }
        }),
{
    reveal(Seq::filter_map);
    assert(remotes.push(last).drop_last() =~= remotes);
    entries_of_a_service(last.remote, auth_url);
    let before = token_map::without_user_at(remotes, auth_url, user_id);
    let after = token_map::without_user_at(remotes.push(last), auth_url, user_id);
    match token_map::kept(last, auth_url, user_id) {
        Some(entry) => {
            assert(after =~= before.push(entry));
        },
        None => {
            assert(after =~= before);
        },
    }
}

/// To remove the tokens of a user under one key changes only the first entry with that key: it keeps
/// the tokens of other users, and goes where there are none.
pub proof fn removing_a_user_under_a_key_keeps_the_others(
    remotes: Seq<RemoteIdentityView>,
    remote: Seq<char>,
    user_id: Seq<char>,
)
    ensures
        has_no_entry(remotes, remote) ==> token_map::without_user_in(remotes, remote, user_id)
            == remotes,
        forall|i: int| #[trigger]
            is_first_entry(remotes, remote, i) ==> {
                let after = token_map::without_user_in(remotes, remote, user_id);
                let others = token_map::without_user(remotes[i].token, user_id);
                if others.len() == 0 {
                    after == remotes.take(i) + remotes.skip(i + 1)
                } else {
                    &&& after.len() == remotes.len()
                    &&& forall|k: int|
                        0 <= k < remotes.len() && k != i ==> #[trigger] after[k] == remotes[k]
                    &&& after[i].remote == remote
                    &&& after[i].token == others
                }
            },
{
    if has_no_entry(remotes, remote) {
        lemma_no_entry(remotes, remote);
    }
    assert forall|i: int| #[trigger] is_first_entry(remotes, remote, i) implies ({
        let after = token_map::without_user_in(remotes, remote, user_id);
        let others = token_map::without_user(remotes[i].token, user_id);
        if others.len() == 0 {
            after == remotes.take(i) + remotes.skip(i + 1)
        } else {
            &&& after.len() == remotes.len()
            &&& forall|k: int|
                0 <= k < remotes.len() && k != i ==> #[trigger] after[k] == remotes[k]
            &&& after[i].remote == remote
            &&& after[i].token == others
        }
    }) by {
        token_map::lemma_remote_index_is(remotes, remote, i);
        assert(remotes.remove(i) =~= remotes.take(i) + remotes.skip(i + 1));
    }
}

/// Something is reported as removed exactly where there was something: an entry of the service or one
/// of its resources, and in it, where one user is removed, a token of that user.
pub proof fn removal_is_reported_where_there_was_something(
    remotes: Seq<RemoteIdentityView>,
    auth_url: Seq<char>,
    user_id: Seq<char>,
)
    ensures
        token_map::has_service(remotes, auth_url) <==> exists|i: int|
            0 <= i < remotes.len() && belongs_to((#[trigger] remotes[i]).remote, auth_url),
        token_map::has_user_at(remotes, auth_url, user_id) <==> exists|i: int|
            0 <= i < remotes.len() && belongs_to((#[trigger] remotes[i]).remote, auth_url)
                && !has_no_token(remotes[i].token, user_id),
{
    assert forall|i: int| 0 <= i < remotes.len() implies (belongs_to(
        (#[trigger] remotes[i]).remote,
        auth_url,
    ) <==> store_key::is_entry(remotes[i].remote, auth_url)) && (token_map::user_index(
        remotes[i].token,
        user_id,
    ) is Some <==> !has_no_token(remotes[i].token, user_id)) by {
        entries_of_a_service(remotes[i].remote, auth_url);
        token_map::lemma_user_index(remotes[i].token, user_id);
        if has_no_token(remotes[i].token, user_id) {
            lemma_no_token(remotes[i].token, user_id);
        }
    }
}

/// Whether `remote` is the URL of a service, or that URL, a slash and the name of a resource: 32
/// hexadecimal digits, or anything that starts with `urc-`.
pub open spec fn belongs_to(remote: Seq<char>, auth_url: Seq<char>) -> bool {
    remote == auth_url || exists|name: Seq<char>|
        remote == #[trigger] (auth_url + seq!['/'] + name) && {
            ||| name.len() == 32 && forall|i: int|
                #![trigger name[i]]
                0 <= i < 32 ==> '0' <= name[i] <= '9' || 'a' <= name[i] <= 'f' || 'A' <= name[i]
                    <= 'F'
            ||| name.len() >= 4 && name.take(4) == seq!['u', 'r', 'c', '-']
        }
}

/// The entries of a service are those under its URL and under those of its resources.
pub proof fn entries_of_a_service(remote: Seq<char>, auth_url: Seq<char>)
    ensures
        store_key::is_entry(remote, auth_url) <==> belongs_to(remote, auth_url),
{
    reveal_strlit("/");
    reveal_strlit("urc-");
    assert("/"@ =~= seq!['/']);
    let front = auth_url + "/"@;
    if store_key::is_entry(remote, auth_url) && remote != auth_url {
        let name = remote.skip(front.len() as int);
        assert(remote =~= auth_url + seq!['/'] + name) by {
            assert forall|i: int| 0 <= i < remote.len() implies remote[i] == (auth_url + seq!['/']
                + name)[i] by {
                if i < front.len() {
                    assert(front[i] == remote[i]);
                }
            }
        }
        if store_key::is_legacy(name) {
            assert(name.take(4) =~= seq!['u', 'r', 'c', '-']);
        } else {
            crate::text_laws::hex_id_is_32_digits(name);
        }
    }
    if belongs_to(remote, auth_url) && remote != auth_url {
        let name = choose|name: Seq<char>|
            remote == #[trigger] (auth_url + seq!['/'] + name) && {
                ||| name.len() == 32 && forall|i: int|
                    #![trigger name[i]]
                    0 <= i < 32 ==> '0' <= name[i] <= '9' || 'a' <= name[i] <= 'f' || 'A'
                        <= name[i] <= 'F'
                ||| name.len() >= 4 && name.take(4) == seq!['u', 'r', 'c', '-']
            };
        assert(front.is_prefix_of(remote));
        assert(remote.skip(front.len() as int) =~= name);
        if name.len() >= 4 && name.take(4) == seq!['u', 'r', 'c', '-'] {
            assert forall|i: int| 0 <= i < 4 implies "urc-"@[i] == name[i] by {
                assert(name.take(4)[i] == name[i]);
            }
            assert(store_key::is_legacy(name));
        } else {
            crate::text_laws::hex_id_is_32_digits(name);
        }
    }
}

/// The users of an entry are listed in order, each as often as there are tokens.
pub proof fn users_are_listed_in_order(tokens: Seq<IdentityTokenView>, j: int)
    requires
        0 <= j < tokens.len(),
    ensures
        token_map::users(tokens).len() == tokens.len(),
        token_map::users(tokens)[j] == tokens[j].user_id,
{
}

/// The tokens under a key are those of the first entry with it.
pub proof fn tokens_under_a_key_are_those_of_the_first_entry(
    remotes: Seq<RemoteIdentityView>,
    remote: Seq<char>,
)
    ensures
        has_no_entry(remotes, remote) ==> token_map::tokens_at(remotes, remote) is None,
        forall|i: int| #[trigger]
            is_first_entry(remotes, remote, i) ==> token_map::tokens_at(remotes, remote) == Some(
                remotes[i].token,
            ),
{
    if has_no_entry(remotes, remote) {
        lemma_no_entry(remotes, remote);
    }
    assert forall|i: int| #[trigger] is_first_entry(remotes, remote, i) implies token_map::tokens_at(
        remotes,
        remote,
    ) == Some(remotes[i].token) by {
        token_map::lemma_remote_index_is(remotes, remote, i);
    }
}

/// What is known of a token and of an entry is what their fields hold.
pub proof fn entries_are_what_they_hold(token: IdentityToken, entry: RemoteIdentity, j: int)
    requires
        0 <= j < entry.token@.len(),
    ensures
        token@.user_id == token.user_id@,
        token@.token == token.token@,
        token@.acceptable_root_domains.len() == token.acceptable_root_domains@.len(),
        forall|k: int|
            0 <= k < token.acceptable_root_domains@.len() ==> #[trigger]
                token@.acceptable_root_domains[k] == token.acceptable_root_domains@[k]@,
        match (token.refresh_token, token@.refresh_token) {
            (Some(kept), Some(seen)) => seen == kept@,
            (None, None) => true,
            _ => false,
        },
        entry@.remote == entry.remote@,
        entry@.token.len() == entry.token@.len(),
        entry@.token[j] == entry.token@[j]@,
{
}

/// What is shown of an entry is its own: where it is kept, whose it is and for whom. The expiry is
/// that of the decrypted token, and the token itself is shown only where it was asked for.
pub proof fn shown_identity_is_that_of_the_entry(
    entry: IdentityEntry,
    decrypted: Option<(String, Option<UserInfo>)>,
    include_token: bool,
    info: StoredIdentityInfo,
)
    requires
        info@ == identities::shown(
            entry@,
            identities::decrypted_view(decrypted),
            include_token,
        ),
    ensures
        info.auth_url@ == entry.auth_url@,
        info.resource@ == entry.resource@,
        info.user_id@ == entry.identity.user_id@,
        info.acceptable_root_domains@.len() == entry.identity.acceptable_root_domains@.len(),
        forall|k: int|
            0 <= k < info.acceptable_root_domains@.len() ==> (
            #[trigger] info.acceptable_root_domains@[k])@
                == entry.identity.acceptable_root_domains@[k]@,
        match decrypted {
            Some((token, user)) => {
                &&& info.token@ == (if include_token {
                    token@
                } else {
                    Seq::empty()
                })
                &&& info.expires_ms == (match user {
                    Some(user) => user.expires,
                    None => 0,
                })
            },
            None => info.token@.len() == 0 && info.expires_ms == 0,
        },
{
    let ours = model::seq_view(info.acceptable_root_domains@);
    let theirs = model::seq_view(entry.identity.acceptable_root_domains@);
    assert(ours == theirs);
    assert(ours.len() == info.acceptable_root_domains@.len());
    assert(theirs.len() == entry.identity.acceptable_root_domains@.len());
    assert forall|k: int| 0 <= k < ours.len() implies (#[trigger] info.acceptable_root_domains@[k])@
        == entry.identity.acceptable_root_domains@[k]@ by {
        assert(ours[k] == theirs[k]);
    }
}

/// The list of entries goes key by key and, under each key, token by token: what is added for a key
/// are its tokens, in order, each with the two parts of the key.
pub proof fn entries_are_listed_key_by_key(
    remotes: Seq<RemoteIdentityView>,
    parts: Seq<(Seq<char>, Seq<char>)>,
    last: RemoteIdentityView,
    j: int,
)
    requires
        0 <= j < last.token.len(),
    ensures
        identities::entries_of(Seq::empty(), parts).len() == 0,
        ({
            let before = identities::entries_of(remotes, parts);
            let after = identities::entries_of(remotes.push(last), parts);
            let n = before.len() as int;
            &&& after.len() == n + last.token.len()
            &&& after.take(n) == before
            &&& after[n + j].auth_url == parts[remotes.len() as int].0
            &&& after[n + j].resource == parts[remotes.len() as int].1
            &&& after[n + j].identity == last.token[j]
        }),
{
    let before = identities::entries_of(remotes, parts);
    let after = identities::entries_of(remotes.push(last), parts);
    assert(remotes.push(last).drop_last() =~= remotes);
    assert(after.take(before.len() as int) =~= before);
}

/// The keys are split one by one.
pub proof fn each_key_is_split(remotes: Seq<RemoteIdentityView>, i: int)
    requires
        0 <= i < remotes.len(),
    ensures
        identities::all_split(remotes).len() == remotes.len(),
        identities::all_split(remotes)[i] == store_key::split(
            remotes[i].remote,
            store_key::path_of(remotes[i].remote),
        ),
{
}

/// A token that is chosen by a filter is one of the user's for which the filter said yes, whatever
/// the filter goes by; and it said no to all of the user's tokens before it.
pub proof fn chosen_token_is_one_of_the_users<F: Fn(&IdentityToken) -> bool>(
    tokens: Seq<IdentityToken>,
    user_id: Seq<char>,
    filter: F,
    r: Option<Seq<char>>,
)
    requires
        token_map::chosen_by(tokens, user_id, filter, r),
    ensures
        match r {
            Some(token) => exists|i: int|
                {
                    &&& 0 <= i < tokens.len()
                    &&& (#[trigger] tokens[i]).user_id@ == user_id
                    &&& tokens[i].token@ == token
                    &&& call_ensures(filter, (&tokens[i],), true)
                    &&& forall|j: int|
                        0 <= j < i && (#[trigger] tokens[j]).user_id@ == user_id ==> call_ensures(
                            filter,
                            (&tokens[j],),
                            false,
                        )
                },
            None => forall|j: int|
                0 <= j < tokens.len() && (#[trigger] tokens[j]).user_id@ == user_id
                    ==> call_ensures(filter, (&tokens[j],), false),
        },
{
    match r {
        Some(token) => {
            let i = choose|i: int|
                {
                    &&& 0 <= i < tokens.len()
                    &&& (#[trigger] tokens[i]).user_id@ == user_id
                    &&& tokens[i].token@ == token
                    &&& call_ensures(filter, (&tokens[i],), true)
                    &&& forall|j: int|
                        0 <= j < i ==> token_map::refuses(filter, #[trigger] tokens[j], user_id)
                };
            assert forall|j: int|
                0 <= j < i && (#[trigger] tokens[j]).user_id@ == user_id implies call_ensures(
                filter,
                (&tokens[j],),
                false,
            ) by {
                assert(token_map::refuses(filter, tokens[j], user_id));
            }
        },
        None => {
            assert forall|j: int|
                0 <= j < tokens.len() && (#[trigger] tokens[j]).user_id@
                    == user_id implies call_ensures(filter, (&tokens[j],), false) by {
                assert(token_map::refuses(filter, tokens[j], user_id));
            }
        },
    }
}

/// What is known of a store is what its map holds, and nothing before it was read.
pub proof fn store_is_what_its_map_holds(store: TokenStore, i: int)
    ensures
        match store.map {
            Some(map) => {
                &&& store@ == Some(store.remotes())
                &&& store.remotes().len() == map.remotes@.len()
                &&& 0 <= i < map.remotes@.len() ==> store.remotes()[i] == map.remotes@[i]@
            },
            None => store@ is None && store.remotes().len() == 0,
        },
{
}

/// What is shown of all entries is what is shown of each, in order.
pub proof fn each_entry_is_shown(
    entries: Seq<IdentityEntryView>,
    decrypted: Seq<Option<(Seq<char>, Option<UserInfoView>)>>,
    include_token: bool,
    i: int,
)
    requires
        0 <= i < entries.len(),
    ensures
        identities::all_shown(entries, decrypted, include_token).len() == entries.len(),
        identities::all_shown(entries, decrypted, include_token)[i] == identities::shown(
            entries[i],
            decrypted[i],
            include_token,
        ),
{
}

/// The two parts of each key stay in their order, and the path of a key is that of its URL.
pub proof fn parts_stay_in_order(pairs: Seq<(String, String)>, i: int, key: Seq<char>)
    requires
        0 <= i < pairs.len(),
    ensures
        identities::pair_views(pairs).len() == pairs.len(),
        identities::pair_views(pairs)[i].0 == pairs[i].0@,
        identities::pair_views(pairs)[i].1 == pairs[i].1@,
        match domain::url_parts(key) {
            Some(url) => store_key::path_of(key) == Some(url.path),
            None => store_key::path_of(key) is None,
        },
{
}

/// All keys can be split exactly where each of them can.
pub proof fn all_keys_are_split_where_each_can_be(remotes: Seq<RemoteIdentityView>)
    ensures
        identities::all_splittable(remotes) <==> forall|i: int|
            #![trigger remotes[i]]
            0 <= i < remotes.len() ==> store_key::splittable(
                remotes[i].remote,
                store_key::path_of(remotes[i].remote),
            ),
{
}

/// What is known of a user is what the fields hold.
pub proof fn user_is_what_is_held(info: UserInfo)
    ensures
        info@.id == info.id@,
        info@.name == info.name@,
        info@.token == info.token@,
        info@.preferred_username == info.preferred_username@,
        info@.is_service_account == info.is_service_account,
        info@.expires == info.expires,
{
}

/// Whether what is shown of a user is what the claims of the token say: who it is, with the expiry in
/// milliseconds, and the token as it is.
pub open spec fn is_info_of(token: Seq<char>, claims: JWTUserInfo, info: UserInfo) -> bool {
    &&& info.id@ == claims.user_id@
    &&& info.name@ == claims.name@
    &&& info.token@ == token
    &&& claims.preferred_username matches Some(name) ==> info.preferred_username@ == name@
    &&& claims.preferred_username is None ==> info.preferred_username@.len() == 0
    &&& info.is_service_account <==> claims.is_service_account == Some(true)
    &&& info.expires == 1000 * claims.expires
}

} // verus!
