//! What holds of the operations on the map of all tokens, taken together.
use vstd::prelude::*;

use crate::credential::cipher;
use crate::credential::cipher::EncryptionView;
use crate::credential::domain;
use crate::credential::store_key;
use crate::credential::token_map;
use crate::credential::token_map::{IdentityTokenView, RemoteIdentityView};
use crate::text;

verus! {

/// No key and, at one key, no user occurs twice.
pub open spec fn unique(remotes: Seq<RemoteIdentityView>) -> bool {
    &&& forall|i: int, j: int|
        0 <= i < j < remotes.len() ==> (#[trigger] remotes[i]).remote != (#[trigger] remotes[j]).remote
    &&& forall|i: int| 0 <= i < remotes.len() ==> unique_users((#[trigger] remotes[i]).token)
}

/// No user occurs twice.
pub open spec fn unique_users(tokens: Seq<IdentityTokenView>) -> bool {
    forall|i: int, j: int|
        0 <= i < j < tokens.len() ==> (#[trigger] tokens[i]).user_id != (#[trigger] tokens[j]).user_id
}

/// Whether what `accepts` decides does not depend on refresh tokens.
pub open spec fn ignores_refresh(accepts: spec_fn(IdentityTokenView) -> bool) -> bool {
    forall|a: IdentityTokenView, b: IdentityTokenView|
        a.user_id == b.user_id && a.token == b.token && a.acceptable_root_domains
            == b.acceptable_root_domains ==> #[trigger] accepts(a) == #[trigger] accepts(b)
}

/// The filters for a recipient and for every token do not depend on refresh tokens.
pub proof fn filters_ignore_refresh(domain: Seq<char>, strict: bool)
    ensures
        ignores_refresh(token_map::for_recipient(domain, strict)),
        ignores_refresh(token_map::every_token()),
{
}

proof fn lemma_chosen(
    tokens: Seq<IdentityTokenView>,
    user_id: Seq<char>,
    accepts: spec_fn(IdentityTokenView) -> bool,
)
    ensures
        match token_map::chosen_index(tokens, user_id, accepts) {
            Some(i) => 0 <= i < tokens.len() && accepts(tokens[i]) && tokens[i].user_id == user_id
                && forall|j: int|
                0 <= j < i ==> !(accepts(#[trigger] tokens[j]) && tokens[j].user_id == user_id),
            None => forall|j: int|
                0 <= j < tokens.len() ==> !(accepts(#[trigger] tokens[j]) && tokens[j].user_id
                    == user_id),
        },
    decreases tokens.len(),
{
    if tokens.len() > 0 {
        let earlier = tokens.drop_last();
        lemma_chosen(earlier, user_id, accepts);
        assert forall|j: int| 0 <= j < earlier.len() implies (#[trigger] tokens[j])
            == earlier[j] by {}
    }
}

/// Whether two tokens are the same to a user and a filter, or neither is the user's.
spec fn agree(
    a: IdentityTokenView,
    b: IdentityTokenView,
    user_id: Seq<char>,
    accepts: spec_fn(IdentityTokenView) -> bool,
) -> bool {
    a.user_id == user_id || b.user_id == user_id ==> a.user_id == b.user_id && a.token == b.token
        && accepts(a) == accepts(b)
}

/// Two lists in which the tokens of a user are the same, at the same places, give the same choice.
proof fn lemma_same_choice(
    a: Seq<IdentityTokenView>,
    b: Seq<IdentityTokenView>,
    user_id: Seq<char>,
    accepts: spec_fn(IdentityTokenView) -> bool,
)
    requires
        a.len() <= b.len(),
        forall|i: int| 0 <= i < a.len() ==> #[trigger] agree(a[i], b[i], user_id, accepts),
        forall|i: int| a.len() <= i < b.len() ==> (#[trigger] b[i]).user_id != user_id,
    ensures
        token_map::chosen_index(a, user_id, accepts) == token_map::chosen_index(
            b,
            user_id,
            accepts,
        ),
    decreases b.len(),
{
    if b.len() > a.len() {
        let shorter = b.drop_last();
        assert forall|i: int| 0 <= i < shorter.len() implies (#[trigger] shorter[i]) == b[i] by {}
        assert(b[b.len() - 1].user_id != user_id);
        assert forall|i: int| 0 <= i < a.len() implies #[trigger] agree(
            a[i],
            shorter[i],
            user_id,
            accepts,
        ) by {
            assert(agree(a[i], b[i], user_id, accepts));
        }
        lemma_same_choice(a, shorter, user_id, accepts);
    } else if a.len() > 0 {
        let x = a.drop_last();
        let y = b.drop_last();
        assert forall|i: int| 0 <= i < x.len() implies #[trigger] agree(
            x[i],
            y[i],
            user_id,
            accepts,
        ) by {
            assert(agree(a[i], b[i], user_id, accepts));
        }
        lemma_same_choice(x, y, user_id, accepts);
        assert(agree(a[a.len() - 1], b[b.len() - 1], user_id, accepts));
    }
}

proof fn lemma_tokens_at_put(
    remotes: Seq<RemoteIdentityView>,
    remote: Seq<char>,
    new: IdentityTokenView,
    other: Seq<char>,
)
    ensures
        token_map::tokens_at(token_map::put_remote(remotes, remote, new), other) == (if other
            == remote {
            Some(
                match token_map::tokens_at(remotes, remote) {
                    Some(tokens) => token_map::put_token(tokens, new),
                    None => seq![new],
                },
            )
        } else {
            token_map::tokens_at(remotes, other)
        }),
{
    let after = token_map::put_remote(remotes, remote, new);
    token_map::lemma_remote_index(remotes, remote);
    token_map::lemma_remote_index(remotes, other);
    match token_map::remote_index(remotes, other) {
        Some(i) => {
            assert forall|j: int| 0 <= j < i implies (#[trigger] after[j]).remote != other by {
                assert(remotes[j].remote != other);
            }
            token_map::lemma_remote_index_is(after, other, i);
        },
        None => if other == remote {
            assert forall|j: int| 0 <= j < remotes.len() implies (#[trigger] after[j]).remote
                != other by {
                assert(remotes[j].remote != other);
            }
            token_map::lemma_remote_index_is(after, other, remotes.len() as int);
        } else {
            token_map::lemma_remote_index(after, other);
            if token_map::remote_index(after, other) is Some {
                let k = token_map::remote_index(after, other)->0;
                if k < remotes.len() {
                    assert(remotes[k].remote != other);
                    assert(after[k].remote == remotes[k].remote);
                }
            }
        },
    }
}

/// What was stored is found: after a token is stored for a user at a service, that token is what a
/// filter that lets it through finds for the user there.
pub proof fn stored_token_is_found(
    remotes: Seq<RemoteIdentityView>,
    auth_endpoint: Seq<char>,
    new: IdentityTokenView,
    accepts: spec_fn(IdentityTokenView) -> bool,
)
    requires
        text::trim_end(auth_endpoint, '/').len() > 0,
        new.user_id.len() > 0,
        ignores_refresh(accepts),
        accepts(new),
    ensures
        token_map::find_token(
            token_map::put_remote(remotes, text::trim_end(auth_endpoint, '/'), new),
            auth_endpoint,
            new.user_id,
            accepts,
        ) == Some(new.token),
{
    let remote = text::trim_end(auth_endpoint, '/');
    lemma_tokens_at_put(remotes, remote, new, remote);
    let after = token_map::tokens_at(
        token_map::put_remote(remotes, remote, new),
        remote,
    )->0;
    lemma_chosen(after, new.user_id, accepts);
    match token_map::tokens_at(remotes, remote) {
        Some(tokens) => {
            token_map::lemma_user_index(tokens, new.user_id);
            match token_map::user_index(tokens, new.user_id) {
                Some(i) => {
                    assert(accepts(after[i]) == accepts(new));
                    assert(after[i].user_id == new.user_id);
                    let found = token_map::chosen_index(after, new.user_id, accepts);
                    assert(found is Some);
                    if found->0 < i {
                        assert(tokens[found->0].user_id != new.user_id);
                    }
                },
                None => {
                    let i = tokens.len() as int;
                    assert(after[i] == new);
                    let found = token_map::chosen_index(after, new.user_id, accepts);
                    assert(found is Some);
                    if found->0 < i {
                        assert(tokens[found->0].user_id != new.user_id);
                    }
                },
            }
        },
        None => {
            assert(after[0] == new);
        },
    }
}

/// What was stored is given back: the text that is found after a token was encrypted and stored for
/// a user at a service is one that decrypting with the same key turns into the token.
pub proof fn stored_token_can_be_decrypted(
    remotes: Seq<RemoteIdentityView>,
    auth_endpoint: Seq<char>,
    user_id: Seq<char>,
    token: Seq<char>,
    encryption: EncryptionView,
    acceptable_root_domains: Seq<Seq<char>>,
    auth_domain: Seq<char>,
)
    requires
        text::trim_end(auth_endpoint, '/').len() > 0,
        user_id.len() > 0,
        cipher::padded(token).len() <= cipher::MAX_SEALED,
    ensures
        ({
            let new = token_map::new_token(
                user_id,
                cipher::encrypted_text(encryption, token),
                acceptable_root_domains,
                auth_domain,
            );
            let after = token_map::put_remote(remotes, text::trim_end(auth_endpoint, '/'), new);
            token_map::find_token(
                after,
                auth_endpoint,
                user_id,
                token_map::every_token(),
            ) matches Some(found) && cipher::is_encrypted(encryption.key, token, found)
        }),
{
    let new = token_map::new_token(
        user_id,
        cipher::encrypted_text(encryption, token),
        acceptable_root_domains,
        auth_domain,
    );
    filters_ignore_refresh(auth_domain, true);
    stored_token_is_found(remotes, auth_endpoint, new, token_map::every_token());
    cipher::encrypted_token_is_encrypted(encryption, token);
}

/// A token that came from an endpoint may be given to that endpoint's domain, whatever else it is
/// meant for.
pub proof fn stored_token_may_return_to_its_endpoint(
    user_id: Seq<char>,
    token: Seq<char>,
    acceptable_root_domains: Seq<Seq<char>>,
    auth_domain: Seq<char>,
    strict: bool,
)
    requires
        domain::normalized(auth_domain) is Some,
    ensures
        token_map::for_recipient(auth_domain, strict)(
            token_map::new_token(user_id, token, acceptable_root_domains, auth_domain),
        ),
{
    let roots = acceptable_root_domains.push(auth_domain);
    let forms = domain::all_normalized(roots);
    assert(forms[acceptable_root_domains.len() as int] == domain::normalized(auth_domain));
}

/// Storing a token leaves the tokens of other users, and those at other services, as they were.
pub proof fn storing_leaves_other_tokens(
    remotes: Seq<RemoteIdentityView>,
    auth_endpoint: Seq<char>,
    new: IdentityTokenView,
    other_endpoint: Seq<char>,
    other_user: Seq<char>,
    accepts: spec_fn(IdentityTokenView) -> bool,
)
    requires
        text::trim_end(other_endpoint, '/') != text::trim_end(auth_endpoint, '/') || other_user
            != new.user_id,
    ensures
        ({
            let after = token_map::put_remote(remotes, text::trim_end(auth_endpoint, '/'), new);
            &&& token_map::find_token(after, other_endpoint, other_user, accepts)
                == token_map::find_token(remotes, other_endpoint, other_user, accepts)
            &&& token_map::find_refresh_token(after, other_endpoint, other_user)
                == token_map::find_refresh_token(remotes, other_endpoint, other_user)
        }),
{
    let remote = text::trim_end(auth_endpoint, '/');
    let other = text::trim_end(other_endpoint, '/');
    lemma_tokens_at_put(remotes, remote, new, other);
    if other == remote {
        let after = token_map::tokens_at(token_map::put_remote(remotes, remote, new), remote)->0;
        let tokens = match token_map::tokens_at(remotes, remote) {
            Some(tokens) => tokens,
            None => Seq::empty(),
        };
        token_map::lemma_user_index(tokens, new.user_id);
        assert forall|i: int| 0 <= i < tokens.len() implies #[trigger] agree(
            tokens[i],
            after[i],
            other_user,
            accepts,
        ) by {}
        lemma_same_choice(tokens, after, other_user, accepts);
        lemma_chosen(after, other_user, accepts);
        if token_map::chosen_index(after, other_user, accepts) is Some {
            let i = token_map::chosen_index(after, other_user, accepts)->0;
            lemma_chosen(tokens, other_user, accepts);
            assert(after[i].token == tokens[i].token);
        }
        token_map::lemma_user_index(tokens, other_user);
        token_map::lemma_user_index(after, other_user);
        match token_map::user_index(tokens, other_user) {
            Some(i) => {
                assert forall|j: int| 0 <= j < i implies (#[trigger] after[j]).user_id
                    != other_user by {
                    assert(tokens[j].user_id != other_user);
                }
                token_map::lemma_user_index_is(after, other_user, i);
            },
            None => {
                if token_map::user_index(after, other_user) is Some {
                    let k = token_map::user_index(after, other_user)->0;
                    if k < tokens.len() {
                        assert(tokens[k].user_id != other_user);
                    }
                }
            },
        }
    }
}

/// Storing a token keeps the refresh token that the user has there.
pub proof fn storing_keeps_refresh_token(
    remotes: Seq<RemoteIdentityView>,
    auth_endpoint: Seq<char>,
    new: IdentityTokenView,
)
    requires
        new.refresh_token is None,
    ensures
        token_map::find_refresh_token(
            token_map::put_remote(remotes, text::trim_end(auth_endpoint, '/'), new),
            auth_endpoint,
            new.user_id,
        ) == token_map::find_refresh_token(remotes, auth_endpoint, new.user_id),
{
    let remote = text::trim_end(auth_endpoint, '/');
    lemma_tokens_at_put(remotes, remote, new, remote);
    let after = token_map::tokens_at(token_map::put_remote(remotes, remote, new), remote)->0;
    match token_map::tokens_at(remotes, remote) {
        Some(tokens) => {
            token_map::lemma_user_index(tokens, new.user_id);
            match token_map::user_index(tokens, new.user_id) {
                Some(i) => {
                    assert forall|j: int| 0 <= j < i implies (#[trigger] after[j]).user_id
                        != new.user_id by {
                        assert(tokens[j].user_id != new.user_id);
                    }
                    token_map::lemma_user_index_is(after, new.user_id, i);
                },
                None => {
                    assert forall|j: int| 0 <= j < tokens.len() implies (#[trigger] after[j]).user_id
                        != new.user_id by {
                        assert(tokens[j].user_id != new.user_id);
                    }
                    token_map::lemma_user_index_is(after, new.user_id, tokens.len() as int);
                },
            }
        },
        None => {
            token_map::lemma_user_index_is(after, new.user_id, 0);
        },
    }
}

proof fn lemma_tokens_at_update(
    remotes: Seq<RemoteIdentityView>,
    remote: Seq<char>,
    token: Seq<IdentityTokenView>,
    other: Seq<char>,
)
    requires
        token_map::remote_index(remotes, remote) is Some,
    ensures
        token_map::tokens_at(
            remotes.update(
                token_map::remote_index(remotes, remote)->0,
                RemoteIdentityView { remote, token },
            ),
            other,
        ) == (if other == remote {
            Some(token)
        } else {
            token_map::tokens_at(remotes, other)
        }),
{
    let at = token_map::remote_index(remotes, remote)->0;
    let after = remotes.update(at, RemoteIdentityView { remote, token });
    token_map::lemma_remote_index(remotes, remote);
    token_map::lemma_remote_index(remotes, other);
    token_map::lemma_remote_index(after, other);
    assert forall|j: int| 0 <= j < remotes.len() implies (#[trigger] after[j]).remote
        == remotes[j].remote by {}
    match token_map::remote_index(remotes, other) {
        Some(i) => {
            assert forall|j: int| 0 <= j < i implies (#[trigger] after[j]).remote != other by {
                assert(remotes[j].remote != other);
            }
            assert(after[i].remote == other);
            token_map::lemma_remote_index_is(after, other, i);
        },
        None => {
            if token_map::remote_index(after, other) is Some {
                let k = token_map::remote_index(after, other)->0;
                assert(remotes[k].remote != other);
            }
        },
    }
}

/// A refresh token that was stored is found, and nothing else changes: not the token of the user
/// there, and nothing of other users or at other services.
pub proof fn stored_refresh_token_is_found(
    remotes: Seq<RemoteIdentityView>,
    auth_endpoint: Seq<char>,
    user_id: Seq<char>,
    refresh_token: Seq<char>,
    other_endpoint: Seq<char>,
    other_user: Seq<char>,
    accepts: spec_fn(IdentityTokenView) -> bool,
)
    requires
        token_map::has_user_in(remotes, text::trim_end(auth_endpoint, '/'), user_id),
        ignores_refresh(accepts),
    ensures
        ({
            let remote = text::trim_end(auth_endpoint, '/');
            let after = token_map::put_refresh(remotes, remote, user_id, refresh_token);
            let same = text::trim_end(other_endpoint, '/') == remote && other_user == user_id;
            &&& token_map::find_refresh_token(after, auth_endpoint, user_id) == Some(refresh_token)
            &&& !same ==> token_map::find_refresh_token(after, other_endpoint, other_user)
                == token_map::find_refresh_token(remotes, other_endpoint, other_user)
            &&& token_map::find_token(after, other_endpoint, other_user, accepts)
                == token_map::find_token(remotes, other_endpoint, other_user, accepts)
        }),
{
    let remote = text::trim_end(auth_endpoint, '/');
    let other = text::trim_end(other_endpoint, '/');
    let i = token_map::remote_index(remotes, remote)->0;
    let tokens = remotes[i].token;
    token_map::lemma_user_index(tokens, user_id);
    let j = token_map::user_index(tokens, user_id)->0;
    let changed = IdentityTokenView { refresh_token: Some(refresh_token), ..tokens[j] };
    let after = tokens.update(j, changed);
    lemma_tokens_at_update(remotes, remote, after, remote);
    lemma_tokens_at_update(remotes, remote, after, other);
    assert forall|k: int| 0 <= k < tokens.len() implies (#[trigger] after[k]).user_id
        == tokens[k].user_id by {}
    assert forall|k: int| 0 <= k < j implies (#[trigger] after[k]).user_id != user_id by {
        assert(tokens[k].user_id != user_id);
    }
    token_map::lemma_user_index_is(after, user_id, j);
    if other == remote {
        assert(accepts(changed) == accepts(tokens[j]));
        lemma_same_choice(tokens, after, other_user, accepts);
        lemma_chosen(tokens, other_user, accepts);
        token_map::lemma_user_index(tokens, other_user);
        token_map::lemma_user_index(after, other_user);
        match token_map::user_index(tokens, other_user) {
            Some(k) => {
                assert forall|m: int| 0 <= m < k implies (#[trigger] after[m]).user_id
                    != other_user by {
                    assert(tokens[m].user_id != other_user);
                }
                assert(after[k].user_id == other_user);
                token_map::lemma_user_index_is(after, other_user, k);
            },
            None => {
                if token_map::user_index(after, other_user) is Some {
                    let k = token_map::user_index(after, other_user)->0;
                    assert(tokens[k].user_id != other_user);
                }
            },
        }
    }
}

proof fn lemma_tokens_at_push(
    remotes: Seq<RemoteIdentityView>,
    entry: RemoteIdentityView,
    remote: Seq<char>,
)
    ensures
        token_map::tokens_at(remotes.push(entry), remote) == (match token_map::tokens_at(
            remotes,
            remote,
        ) {
            Some(tokens) => Some(tokens),
            None => if entry.remote == remote {
                Some(entry.token)
            } else {
                None
            },
        }),
{
    let after = remotes.push(entry);
    assert(after.drop_last() =~= remotes);
    token_map::lemma_remote_index(remotes, remote);
}

proof fn lemma_without_service_push(
    remotes: Seq<RemoteIdentityView>,
    entry: RemoteIdentityView,
    auth_url: Seq<char>,
)
    ensures
        token_map::without_service(remotes.push(entry), auth_url) == (if store_key::is_entry(
            entry.remote,
            auth_url,
        ) {
            token_map::without_service(remotes, auth_url)
        } else {
            token_map::without_service(remotes, auth_url).push(entry)
        }),
{
    reveal(Seq::filter);
    assert(remotes.push(entry).drop_last() =~= remotes);
}

proof fn lemma_without_user_at_push(
    remotes: Seq<RemoteIdentityView>,
    entry: RemoteIdentityView,
    auth_url: Seq<char>,
    user_id: Seq<char>,
)
    ensures
        token_map::without_user_at(remotes.push(entry), auth_url, user_id) == (
        match token_map::kept(entry, auth_url, user_id) {
            Some(left) => token_map::without_user_at(remotes, auth_url, user_id).push(left),
            None => token_map::without_user_at(remotes, auth_url, user_id),
        }),
{
    assert(remotes.push(entry).drop_last() =~= remotes);
    if token_map::kept(entry, auth_url, user_id) is Some {
        let left = token_map::kept(entry, auth_url, user_id)->0;
        assert(token_map::without_user_at(remotes, auth_url, user_id) + seq![left]
            =~= token_map::without_user_at(remotes, auth_url, user_id).push(left));
    }
}

proof fn lemma_all_but_last(remotes: Seq<RemoteIdentityView>)
    requires
        remotes.len() > 0,
    ensures
        remotes == remotes.drop_last().push(remotes.last()),
{
    assert(remotes =~= remotes.drop_last().push(remotes.last()));
}

proof fn lemma_tokens_after_service(
    remotes: Seq<RemoteIdentityView>,
    auth_url: Seq<char>,
    remote: Seq<char>,
)
    ensures
        token_map::tokens_at(token_map::without_service(remotes, auth_url), remote) == (
        if store_key::is_entry(remote, auth_url) {
            None
        } else {
            token_map::tokens_at(remotes, remote)
        }),
    decreases remotes.len(),
{
    if remotes.len() == 0 {
        reveal(Seq::filter);
    } else {
        let earlier = remotes.drop_last();
        lemma_all_but_last(remotes);
        lemma_tokens_after_service(earlier, auth_url, remote);
        lemma_without_service_push(earlier, remotes.last(), auth_url);
        lemma_tokens_at_push(earlier, remotes.last(), remote);
        lemma_tokens_at_push(
            token_map::without_service(earlier, auth_url),
            remotes.last(),
            remote,
        );
    }
}

/// After all tokens at a service are removed, none is found there or at its resources, for any
/// user, and what is found elsewhere is as it was.
pub proof fn removed_service_has_no_tokens(
    remotes: Seq<RemoteIdentityView>,
    auth_url: Seq<char>,
    auth_endpoint: Seq<char>,
    user_id: Seq<char>,
    accepts: spec_fn(IdentityTokenView) -> bool,
)
    ensures
        ({
            let after = token_map::without_service(remotes, auth_url);
            if store_key::is_entry(text::trim_end(auth_endpoint, '/'), auth_url) {
                &&& token_map::find_token(after, auth_endpoint, user_id, accepts) is None
                &&& token_map::find_refresh_token(after, auth_endpoint, user_id) is None
            } else {
                &&& token_map::find_token(after, auth_endpoint, user_id, accepts)
                    == token_map::find_token(remotes, auth_endpoint, user_id, accepts)
                &&& token_map::find_refresh_token(after, auth_endpoint, user_id)
                    == token_map::find_refresh_token(remotes, auth_endpoint, user_id)
            }
        }),
{
    lemma_tokens_after_service(remotes, auth_url, text::trim_end(auth_endpoint, '/'));
}

/// What is left of tokens once those of a user are removed: nothing where no token is left.
spec fn tokens_left(
    tokens: Option<Seq<IdentityTokenView>>,
    user_id: Seq<char>,
) -> Option<Seq<IdentityTokenView>> {
    match tokens {
        Some(tokens) => if token_map::without_user(tokens, user_id).len() == 0 {
            None
        } else {
            Some(token_map::without_user(tokens, user_id))
        },
        None => None,
    }
}

proof fn lemma_unique_all_but_last(remotes: Seq<RemoteIdentityView>)
    requires
        remotes.len() > 0,
        unique(remotes),
    ensures
        unique(remotes.drop_last()),
        token_map::tokens_at(remotes.drop_last(), remotes.last().remote) is None,
{
    let earlier = remotes.drop_last();
    assert forall|i: int| 0 <= i < earlier.len() implies (#[trigger] earlier[i])
        == remotes[i] by {}
    token_map::lemma_remote_index(earlier, remotes.last().remote);
    if token_map::remote_index(earlier, remotes.last().remote) is Some {
        let i = token_map::remote_index(earlier, remotes.last().remote)->0;
        assert(remotes[i].remote != remotes[remotes.len() - 1].remote);
    }
}

proof fn lemma_tokens_after_user_at(
    remotes: Seq<RemoteIdentityView>,
    auth_url: Seq<char>,
    user_id: Seq<char>,
    remote: Seq<char>,
)
    requires
        unique(remotes),
    ensures
        token_map::tokens_at(token_map::without_user_at(remotes, auth_url, user_id), remote) == (
        if store_key::is_entry(remote, auth_url) {
            tokens_left(token_map::tokens_at(remotes, remote), user_id)
        } else {
            token_map::tokens_at(remotes, remote)
        }),
    decreases remotes.len(),
{
    if remotes.len() > 0 {
        let earlier = remotes.drop_last();
        let entry = remotes.last();
        lemma_all_but_last(remotes);
        lemma_unique_all_but_last(remotes);
        lemma_tokens_after_user_at(earlier, auth_url, user_id, remote);
        lemma_without_user_at_push(earlier, entry, auth_url, user_id);
        lemma_tokens_at_push(earlier, entry, remote);
        let left = token_map::kept(entry, auth_url, user_id);
        if left is Some {
            lemma_tokens_at_push(
                token_map::without_user_at(earlier, auth_url, user_id),
                left->0,
                remote,
            );
        }
    }
}

/// The text of the chosen token.
spec fn choice(
    tokens: Seq<IdentityTokenView>,
    user_id: Seq<char>,
    accepts: spec_fn(IdentityTokenView) -> bool,
) -> Option<Seq<char>> {
    match token_map::chosen_index(tokens, user_id, accepts) {
        Some(i) => Some(tokens[i].token),
        None => None,
    }
}

/// The refresh token of a user's first token.
spec fn refresh_of(tokens: Seq<IdentityTokenView>, user_id: Seq<char>) -> Option<Seq<char>> {
    match token_map::user_index(tokens, user_id) {
        Some(i) => tokens[i].refresh_token,
        None => None,
    }
}

proof fn lemma_choice_push(
    tokens: Seq<IdentityTokenView>,
    token: IdentityTokenView,
    user_id: Seq<char>,
    accepts: spec_fn(IdentityTokenView) -> bool,
)
    ensures
        choice(tokens.push(token), user_id, accepts) == (match choice(tokens, user_id, accepts) {
            Some(text) => Some(text),
            None => if accepts(token) && token.user_id == user_id {
                Some(token.token)
            } else {
                None
            },
        }),
        token_map::user_index(tokens.push(token), user_id) is Some <==> token_map::user_index(
            tokens,
            user_id,
        ) is Some || token.user_id == user_id,
        refresh_of(tokens.push(token), user_id) == (if token_map::user_index(tokens, user_id) is Some {
            refresh_of(tokens, user_id)
        } else if token.user_id == user_id {
            token.refresh_token
        } else {
            None
        }),
{
    assert(tokens.push(token).drop_last() =~= tokens);
    lemma_chosen(tokens, user_id, accepts);
    token_map::lemma_user_index(tokens, user_id);
}

proof fn lemma_choice_without_user(
    tokens: Seq<IdentityTokenView>,
    removed: Seq<char>,
    user_id: Seq<char>,
    accepts: spec_fn(IdentityTokenView) -> bool,
)
    ensures
        ({
            let after = token_map::without_user(tokens, removed);
            if user_id == removed {
                &&& choice(after, user_id, accepts) is None
                &&& token_map::user_index(after, user_id) is None
            } else {
                &&& choice(after, user_id, accepts) == choice(tokens, user_id, accepts)
                &&& refresh_of(after, user_id) == refresh_of(tokens, user_id)
                &&& token_map::user_index(after, user_id) is Some <==> token_map::user_index(
                    tokens,
                    user_id,
                ) is Some
            }
        }),
    decreases tokens.len(),
{
    if tokens.len() == 0 {
        reveal(Seq::filter);
    } else {
        let earlier = tokens.drop_last();
        let last = tokens.last();
        assert(tokens =~= earlier.push(last));
        lemma_choice_without_user(earlier, removed, user_id, accepts);
        token_map::lemma_without_user_push(earlier, last, removed);
        lemma_choice_push(earlier, last, user_id, accepts);
        lemma_choice_push(
            token_map::without_user(earlier, removed),
            last,
            user_id,
            accepts,
        );
    }
}

/// What a removal of a user's tokens at `remote` leaves to be found there, given what is left of the
/// tokens there.
proof fn lemma_found_after_removal(
    remotes: Seq<RemoteIdentityView>,
    after: Seq<RemoteIdentityView>,
    removed: Seq<char>,
    auth_endpoint: Seq<char>,
    user_id: Seq<char>,
    accepts: spec_fn(IdentityTokenView) -> bool,
)
    requires
        ({
            let remote = text::trim_end(auth_endpoint, '/');
            token_map::tokens_at(after, remote) == tokens_left(
                token_map::tokens_at(remotes, remote),
                removed,
            )
        }),
    ensures
        if user_id == removed {
            &&& token_map::find_token(after, auth_endpoint, user_id, accepts) is None
            &&& token_map::find_refresh_token(after, auth_endpoint, user_id) is None
        } else {
            &&& token_map::find_token(after, auth_endpoint, user_id, accepts)
                == token_map::find_token(remotes, auth_endpoint, user_id, accepts)
            &&& token_map::find_refresh_token(after, auth_endpoint, user_id)
                == token_map::find_refresh_token(remotes, auth_endpoint, user_id)
        },
{
    let remote = text::trim_end(auth_endpoint, '/');
    match token_map::tokens_at(remotes, remote) {
        Some(tokens) => {
            lemma_choice_without_user(tokens, removed, user_id, accepts);
            lemma_choice_without_user(
                tokens,
                removed,
                user_id,
                token_map::every_token(),
            );
        },
        None => {},
    }
}

/// After the tokens of a user at a service are removed, none of this user is found there or at its
/// resources; what is found for other users, and elsewhere, is as it was.
pub proof fn removed_user_has_no_tokens(
    remotes: Seq<RemoteIdentityView>,
    auth_url: Seq<char>,
    removed: Seq<char>,
    auth_endpoint: Seq<char>,
    user_id: Seq<char>,
    accepts: spec_fn(IdentityTokenView) -> bool,
)
    requires
        unique(remotes),
    ensures
        ({
            let after = token_map::without_user_at(remotes, auth_url, removed);
            if store_key::is_entry(text::trim_end(auth_endpoint, '/'), auth_url) && user_id
                == removed {
                &&& token_map::find_token(after, auth_endpoint, user_id, accepts) is None
                &&& token_map::find_refresh_token(after, auth_endpoint, user_id) is None
            } else {
                &&& token_map::find_token(after, auth_endpoint, user_id, accepts)
                    == token_map::find_token(remotes, auth_endpoint, user_id, accepts)
                &&& token_map::find_refresh_token(after, auth_endpoint, user_id)
                    == token_map::find_refresh_token(remotes, auth_endpoint, user_id)
            }
        }),
{
    let after = token_map::without_user_at(remotes, auth_url, removed);
    let remote = text::trim_end(auth_endpoint, '/');
    lemma_tokens_after_user_at(remotes, auth_url, removed, remote);
    if store_key::is_entry(remote, auth_url) {
        lemma_found_after_removal(remotes, after, removed, auth_endpoint, user_id, accepts);
    }
}

proof fn lemma_tokens_after_user_in(
    remotes: Seq<RemoteIdentityView>,
    remote: Seq<char>,
    user_id: Seq<char>,
    other: Seq<char>,
)
    requires
        unique(remotes),
    ensures
        token_map::tokens_at(token_map::without_user_in(remotes, remote, user_id), other) == (
        if other == remote {
            tokens_left(token_map::tokens_at(remotes, remote), user_id)
        } else {
            token_map::tokens_at(remotes, other)
        }),
{
    let after = token_map::without_user_in(remotes, remote, user_id);
    token_map::lemma_remote_index(remotes, remote);
    if token_map::remote_index(remotes, remote) is Some {
        let at = token_map::remote_index(remotes, remote)->0;
        let left = token_map::without_user(remotes[at].token, user_id);
        if left.len() > 0 {
            lemma_tokens_at_update(remotes, remote, left, other);
        } else {
            token_map::lemma_remote_index(after, other);
            token_map::lemma_remote_index(remotes, other);
            assert forall|k: int| 0 <= k < after.len() implies (#[trigger] after[k]) == remotes[if k
                < at {
                k
            } else {
                k + 1
            }] by {}
            match token_map::remote_index(remotes, other) {
                Some(i) => if other != remote {
                    let k = if i < at { i } else { i - 1 };
                    assert(after[k] == remotes[i]);
                    assert forall|m: int| 0 <= m < k implies (#[trigger] after[m]).remote
                        != other by {
                        let n = if m < at { m } else { m + 1 };
                        assert(remotes[n].remote != other);
                    }
                    token_map::lemma_remote_index_is(after, other, k);
                } else {
                    if token_map::remote_index(after, other) is Some {
                        let k = token_map::remote_index(after, other)->0;
                        let n = if k < at { k } else { k + 1 };
                        assert(remotes[n].remote == remotes[at].remote);
                    }
                },
                None => {
                    if token_map::remote_index(after, other) is Some {
                        let k = token_map::remote_index(after, other)->0;
                        let n = if k < at { k } else { k + 1 };
                        assert(remotes[n].remote != other);
                    }
                },
            }
        }
    }
}

/// After the tokens of a user at one key are removed, none of this user is found there; what is
/// found for other users, and elsewhere, is as it was.
pub proof fn removed_entry_has_no_tokens(
    remotes: Seq<RemoteIdentityView>,
    endpoint: Seq<char>,
    removed: Seq<char>,
    auth_endpoint: Seq<char>,
    user_id: Seq<char>,
    accepts: spec_fn(IdentityTokenView) -> bool,
)
    requires
        unique(remotes),
    ensures
        ({
            let after = token_map::without_user_in(remotes, endpoint, removed);
            if text::trim_end(auth_endpoint, '/') == endpoint && user_id == removed {
                &&& token_map::find_token(after, auth_endpoint, user_id, accepts) is None
                &&& token_map::find_refresh_token(after, auth_endpoint, user_id) is None
            } else {
                &&& token_map::find_token(after, auth_endpoint, user_id, accepts)
                    == token_map::find_token(remotes, auth_endpoint, user_id, accepts)
                &&& token_map::find_refresh_token(after, auth_endpoint, user_id)
                    == token_map::find_refresh_token(remotes, auth_endpoint, user_id)
            }
        }),
{
    let after = token_map::without_user_in(remotes, endpoint, removed);
    let remote = text::trim_end(auth_endpoint, '/');
    lemma_tokens_after_user_in(remotes, endpoint, removed, remote);
    if remote == endpoint {
        lemma_found_after_removal(remotes, after, removed, auth_endpoint, user_id, accepts);
    }
}

/// In strict mode a token that is found for a recipient may be given to it: it was kept for that
/// user and names a domain of the recipient.
pub proof fn found_token_is_for_recipient(
    remotes: Seq<RemoteIdentityView>,
    auth_endpoint: Seq<char>,
    user_id: Seq<char>,
    recipient: Seq<char>,
)
    requires
        token_map::find_token(
            remotes,
            auth_endpoint,
            user_id,
            token_map::for_recipient(recipient, true),
        ) is Some,
    ensures
        exists|i: int, j: int|
            0 <= i < remotes.len() && 0 <= j < (#[trigger] remotes[i]).token.len() && {
                let token = #[trigger] remotes[i].token[j];
                &&& remotes[i].remote == text::trim_end(auth_endpoint, '/')
                &&& token.user_id == user_id
                &&& domain::in_root_domains(recipient, token.acceptable_root_domains)
                &&& token_map::find_token(
                    remotes,
                    auth_endpoint,
                    user_id,
                    token_map::for_recipient(recipient, true),
                ) == Some(token.token)
            },
{
    let remote = text::trim_end(auth_endpoint, '/');
    let accepts = token_map::for_recipient(recipient, true);
    token_map::lemma_remote_index(remotes, remote);
    let i = token_map::remote_index(remotes, remote)->0;
    lemma_chosen(remotes[i].token, user_id, accepts);
    let j = token_map::chosen_index(remotes[i].token, user_id, accepts)->0;
    assert(accepts(remotes[i].token[j]));
}

/// Storing a token keeps keys and users unique.
pub proof fn storing_keeps_uniqueness(
    remotes: Seq<RemoteIdentityView>,
    remote: Seq<char>,
    new: IdentityTokenView,
)
    requires
        unique(remotes),
    ensures
        unique(token_map::put_remote(remotes, remote, new)),
{
    let after = token_map::put_remote(remotes, remote, new);
    token_map::lemma_remote_index(remotes, remote);
    match token_map::remote_index(remotes, remote) {
        Some(at) => {
            let tokens = remotes[at].token;
            let changed = token_map::put_token(tokens, new);
            token_map::lemma_user_index(tokens, new.user_id);
            assert forall|i: int, j: int| 0 <= i < j < changed.len() implies (
            #[trigger] changed[i]).user_id != (#[trigger] changed[j]).user_id by {
                if j < tokens.len() {
                    assert(tokens[i].user_id != tokens[j].user_id);
                } else {
                    assert(tokens[i].user_id != new.user_id);
                }
            }
            assert(unique_users(changed));
            assert forall|i: int, j: int| 0 <= i < j < after.len() implies (#[trigger] after[i]).remote
                != (#[trigger] after[j]).remote by {
                assert(remotes[i].remote != remotes[j].remote);
            }
            assert forall|i: int| 0 <= i < after.len() implies unique_users(
                (#[trigger] after[i]).token,
            ) by {
                assert(unique_users(remotes[i].token));
            }
        },
        None => {
            assert forall|i: int, j: int| 0 <= i < j < after.len() implies (#[trigger] after[i]).remote
                != (#[trigger] after[j]).remote by {
                assert(remotes[i].remote != remote);
                if j < remotes.len() {
                    assert(remotes[i].remote != remotes[j].remote);
                }
            }
            assert forall|i: int| 0 <= i < after.len() implies unique_users(
                (#[trigger] after[i]).token,
            ) by {
                if i < remotes.len() {
                    assert(unique_users(remotes[i].token));
                }
            }
        },
    }
}

proof fn lemma_unique_push(remotes: Seq<RemoteIdentityView>, entry: RemoteIdentityView)
    requires
        unique(remotes),
        unique_users(entry.token),
        token_map::tokens_at(remotes, entry.remote) is None,
    ensures
        unique(remotes.push(entry)),
{
    let after = remotes.push(entry);
    token_map::lemma_remote_index(remotes, entry.remote);
    assert forall|i: int, j: int| 0 <= i < j < after.len() implies (#[trigger] after[i]).remote != (
    #[trigger] after[j]).remote by {
        assert(after[i] == remotes[i]);
        if j < remotes.len() {
            assert(remotes[i].remote != remotes[j].remote);
        } else {
            assert(remotes[i].remote != entry.remote);
        }
    }
    assert forall|i: int| 0 <= i < after.len() implies unique_users((#[trigger] after[i]).token) by {
        if i < remotes.len() {
            assert(unique_users(remotes[i].token));
        }
    }
}

proof fn lemma_unique_without_user(tokens: Seq<IdentityTokenView>, user_id: Seq<char>)
    requires
        unique_users(tokens),
    ensures
        unique_users(token_map::without_user(tokens, user_id)),
    decreases tokens.len(),
{
    if tokens.len() == 0 {
        reveal(Seq::filter);
    } else {
        let earlier = tokens.drop_last();
        let last = tokens.last();
        assert(tokens =~= earlier.push(last));
        assert forall|i: int, j: int| 0 <= i < j < earlier.len() implies (
        #[trigger] earlier[i]).user_id != (#[trigger] earlier[j]).user_id by {
            assert(tokens[i].user_id != tokens[j].user_id);
        }
        lemma_unique_without_user(earlier, user_id);
        token_map::lemma_without_user_push(earlier, last, user_id);
        let left = token_map::without_user(earlier, user_id);
        let after = token_map::without_user(tokens, user_id);
        if last.user_id != user_id {
            token_map::lemma_user_index(left, last.user_id);
            lemma_choice_without_user(
                earlier,
                user_id,
                last.user_id,
                token_map::every_token(),
            );
            token_map::lemma_user_index(earlier, last.user_id);
            if token_map::user_index(earlier, last.user_id) is Some {
                let k = token_map::user_index(earlier, last.user_id)->0;
                assert(tokens[k].user_id != tokens[tokens.len() - 1].user_id);
            }
            assert forall|i: int, j: int| 0 <= i < j < after.len() implies (
            #[trigger] after[i]).user_id != (#[trigger] after[j]).user_id by {
                assert(after[i] == left[i]);
                if j < left.len() {
                    assert(left[i].user_id != left[j].user_id);
                } else {
                    assert(left[i].user_id != last.user_id);
                }
            }
        }
    }
}

proof fn lemma_unique_without_user_at(
    remotes: Seq<RemoteIdentityView>,
    auth_url: Seq<char>,
    user_id: Seq<char>,
)
    requires
        unique(remotes),
    ensures
        unique(token_map::without_user_at(remotes, auth_url, user_id)),
    decreases remotes.len(),
{
    if remotes.len() > 0 {
        let earlier = remotes.drop_last();
        let entry = remotes.last();
        lemma_all_but_last(remotes);
        lemma_unique_all_but_last(remotes);
        lemma_unique_without_user_at(earlier, auth_url, user_id);
        lemma_without_user_at_push(earlier, entry, auth_url, user_id);
        lemma_tokens_after_user_at(earlier, auth_url, user_id, entry.remote);
        assert(unique_users(remotes[remotes.len() - 1].token));
        lemma_unique_without_user(entry.token, user_id);
        let left = token_map::kept(entry, auth_url, user_id);
        if left is Some {
            lemma_unique_push(
                token_map::without_user_at(earlier, auth_url, user_id),
                left->0,
            );
        }
    }
}

proof fn lemma_unique_without_service(remotes: Seq<RemoteIdentityView>, auth_url: Seq<char>)
    requires
        unique(remotes),
    ensures
        unique(token_map::without_service(remotes, auth_url)),
    decreases remotes.len(),
{
    if remotes.len() == 0 {
        reveal(Seq::filter);
    } else {
        let earlier = remotes.drop_last();
        let entry = remotes.last();
        lemma_all_but_last(remotes);
        lemma_unique_all_but_last(remotes);
        lemma_unique_without_service(earlier, auth_url);
        lemma_without_service_push(earlier, entry, auth_url);
        lemma_tokens_after_service(earlier, auth_url, entry.remote);
        assert(unique_users(remotes[remotes.len() - 1].token));
        if !store_key::is_entry(entry.remote, auth_url) {
            lemma_unique_push(token_map::without_service(earlier, auth_url), entry);
        }
    }
}

/// Removing tokens keeps keys and users unique.
pub proof fn removing_keeps_uniqueness(
    remotes: Seq<RemoteIdentityView>,
    remote: Seq<char>,
    user_id: Seq<char>,
)
    requires
        unique(remotes),
    ensures
        unique(token_map::without_user_at(remotes, remote, user_id)),
        unique(token_map::without_service(remotes, remote)),
        unique(token_map::without_user_in(remotes, remote, user_id)),
{
    lemma_unique_without_user_at(remotes, remote, user_id);
    lemma_unique_without_service(remotes, remote);
    let after = token_map::without_user_in(remotes, remote, user_id);
    token_map::lemma_remote_index(remotes, remote);
    if token_map::remote_index(remotes, remote) is Some {
        let at = token_map::remote_index(remotes, remote)->0;
        assert(unique_users(remotes[at].token));
        lemma_unique_without_user(remotes[at].token, user_id);
        let removed = token_map::without_user(remotes[at].token, user_id).len() == 0;
        assert forall|i: int, j: int| 0 <= i < j < after.len() implies (#[trigger] after[i]).remote
            != (#[trigger] after[j]).remote by {
            let m = if removed && i >= at { i + 1 } else { i };
            let n = if removed && j >= at { j + 1 } else { j };
            assert(after[i].remote == remotes[m].remote);
            assert(after[j].remote == remotes[n].remote);
            assert(remotes[m].remote != remotes[n].remote);
        }
        assert forall|i: int| 0 <= i < after.len() implies unique_users(
            (#[trigger] after[i]).token,
        ) by {
            let m = if removed && i >= at { i + 1 } else { i };
            assert(unique_users(remotes[m].token));
        }
    }
}

/// Storing a refresh token keeps keys and users unique.
pub proof fn refreshing_keeps_uniqueness(
    remotes: Seq<RemoteIdentityView>,
    remote: Seq<char>,
    user_id: Seq<char>,
    refresh_token: Seq<char>,
)
    requires
        unique(remotes),
        token_map::has_user_in(remotes, remote, user_id),
    ensures
        unique(token_map::put_refresh(remotes, remote, user_id, refresh_token)),
{
    let after = token_map::put_refresh(remotes, remote, user_id, refresh_token);
    token_map::lemma_remote_index(remotes, remote);
    let at = token_map::remote_index(remotes, remote)->0;
    token_map::lemma_user_index(remotes[at].token, user_id);
    assert forall|i: int, j: int| 0 <= i < j < after.len() implies (#[trigger] after[i]).remote != (
    #[trigger] after[j]).remote by {
        assert(remotes[i].remote != remotes[j].remote);
    }
    assert forall|i: int| 0 <= i < after.len() implies unique_users((#[trigger] after[i]).token) by {
        assert(unique_users(remotes[i].token));
        assert forall|a: int, b: int| 0 <= a < b < after[i].token.len() implies (
        #[trigger] after[i].token[a]).user_id != (#[trigger] after[i].token[b]).user_id by {
            assert(remotes[i].token[a].user_id != remotes[i].token[b].user_id);
        }
    }
}

proof fn lemma_without_user_twice(tokens: Seq<IdentityTokenView>, user_id: Seq<char>)
    ensures
        token_map::without_user(token_map::without_user(tokens, user_id), user_id)
            == token_map::without_user(tokens, user_id),
    decreases tokens.len(),
{
    if tokens.len() == 0 {
        reveal(Seq::filter);
    } else {
        let earlier = tokens.drop_last();
        let last = tokens.last();
        assert(tokens =~= earlier.push(last));
        lemma_without_user_twice(earlier, user_id);
        token_map::lemma_without_user_push(earlier, last, user_id);
        token_map::lemma_without_user_push(token_map::without_user(earlier, user_id), last, user_id);
    }
}

/// To remove a second time changes nothing, and says so.
pub proof fn removing_twice_is_removing_once(
    remotes: Seq<RemoteIdentityView>,
    auth_url: Seq<char>,
    user_id: Seq<char>,
)
    ensures
        ({
            let once = token_map::without_user_at(remotes, auth_url, user_id);
            &&& token_map::without_user_at(once, auth_url, user_id) == once
            &&& !token_map::has_user_at(once, auth_url, user_id)
        }),
        ({
            let once = token_map::without_service(remotes, auth_url);
            &&& token_map::without_service(once, auth_url) == once
            &&& !token_map::has_service(once, auth_url)
        }),
    decreases remotes.len(),
{
    if remotes.len() == 0 {
        reveal(Seq::filter);
    } else {
        let earlier = remotes.drop_last();
        let entry = remotes.last();
        lemma_all_but_last(remotes);
        removing_twice_is_removing_once(earlier, auth_url, user_id);
        lemma_without_user_at_push(earlier, entry, auth_url, user_id);
        lemma_without_service_push(earlier, entry, auth_url);
        let users_once = token_map::without_user_at(earlier, auth_url, user_id);
        let service_once = token_map::without_service(earlier, auth_url);
        lemma_without_user_twice(entry.token, user_id);
        let left = token_map::kept(entry, auth_url, user_id);
        if left is Some {
            lemma_without_user_at_push(users_once, left->0, auth_url, user_id);
            lemma_choice_without_user(
                entry.token,
                user_id,
                user_id,
                token_map::every_token(),
            );
            let once = users_once.push(left->0);
            if token_map::has_user_at(once, auth_url, user_id) {
                let i = choose|i: int|
                    0 <= i < once.len() && store_key::is_entry((#[trigger] once[i]).remote, auth_url)
                        && token_map::user_index(once[i].token, user_id) is Some;
                if i < users_once.len() {
                    assert(users_once[i] == once[i]);
                }
            }
        }
        if !store_key::is_entry(entry.remote, auth_url) {
            lemma_without_service_push(service_once, entry, auth_url);
            let once = service_once.push(entry);
            if token_map::has_service(once, auth_url) {
                let i = choose|i: int|
                    0 <= i < once.len() && store_key::is_entry((#[trigger] once[i]).remote, auth_url);
                if i < service_once.len() {
                    assert(service_once[i] == once[i]);
                }
            }
        }
    }
}

} // verus!
