//! The tokens of users, by service and user.
//!
//! A token is kept encrypted. The map of all tokens lives in a file; [`TokenStore`] is what is
//! known of it in memory, and says when the file has to be read or written.
use vstd::prelude::*;
use vstd::string::*;

use crate::credential::domain;
use crate::credential::error::TokenStoreError;
use crate::credential::store_key;
use crate::model;
use crate::text;

verus! {

/// The token of a user at a service.
#[derive(Debug)]
pub struct IdentityToken {
    pub user_id: String,
    /// The encrypted token, in base 64.
    pub token: String,
    /// The domains that the token may be given to.
    pub acceptable_root_domains: Vec<String>,
    /// The encrypted refresh token, in base 64. It is replaced apart from the token.
    pub refresh_token: Option<String>,
}

/// The model of [`IdentityToken`].
#[verifier::ext_equal]
pub struct IdentityTokenView {
    pub user_id: Seq<char>,
    pub token: Seq<char>,
    pub acceptable_root_domains: Seq<Seq<char>>,
    pub refresh_token: Option<Seq<char>>,
}

impl View for IdentityToken {
    type V = IdentityTokenView;

    open spec fn view(&self) -> IdentityTokenView {
        IdentityTokenView {
            user_id: self.user_id@,
            token: self.token@,
            acceptable_root_domains: model::seq_view(self.acceptable_root_domains@),
            refresh_token: model::opt_view(self.refresh_token),
        }
    }
}

impl Clone for IdentityToken {
    fn clone(&self) -> (copy: IdentityToken)
        ensures
            copy@ == self@,
    {
        IdentityToken {
            user_id: self.user_id.clone(),
            token: self.token.clone(),
            acceptable_root_domains: model::clone_strings(&self.acceptable_root_domains),
            refresh_token: model::clone_opt_string(&self.refresh_token),
        }
    }
}

/// The tokens at a service, or at one of its resources.
#[derive(Clone)]
pub struct RemoteIdentity {
    /// The key of the service or the resource.
    pub remote: String,
    pub token: Vec<IdentityToken>,
}

/// The model of [`RemoteIdentity`].
#[verifier::ext_equal]
pub struct RemoteIdentityView {
    pub remote: Seq<char>,
    pub token: Seq<IdentityTokenView>,
}

impl View for RemoteIdentity {
    type V = RemoteIdentityView;

    open spec fn view(&self) -> RemoteIdentityView {
        RemoteIdentityView { remote: self.remote@, token: model::seq_view(self.token@) }
    }
}

impl RemoteIdentity {
    /// Describes the entry without giving away its tokens.
    pub fn describe(&self) -> (text: String)
        ensures
            text@ == "remote: "@ + self.remote@ + ", token: [...]"@,
    {
        let mut text = "remote: ".to_owned();
        text.append(self.remote.as_str());
        text.append(", token: [...]");
        text
    }
}

/// All tokens.
#[derive(Clone)]
pub struct TokenMap {
    pub remotes: Vec<RemoteIdentity>,
}

impl View for TokenMap {
    type V = Seq<RemoteIdentityView>;

    open spec fn view(&self) -> Seq<RemoteIdentityView> {
        model::seq_view(self.remotes@)
    }
}

impl Default for TokenMap {
    fn default() -> (map: TokenMap)
        ensures
            map@ == Seq::<RemoteIdentityView>::empty(),
    {
        let map = TokenMap { remotes: Vec::new() };
        assert(map@ =~= Seq::<RemoteIdentityView>::empty());
        map
    }
}

/// The first entry with the key `remote`.
pub open spec fn remote_index(remotes: Seq<RemoteIdentityView>, remote: Seq<char>) -> Option<int>
    decreases remotes.len(),
{
    if remotes.len() == 0 {
        None
    } else {
        match remote_index(remotes.drop_last(), remote) {
            Some(i) => Some(i),
            None => if remotes.last().remote == remote {
                Some(remotes.len() - 1)
            } else {
                None
            },
        }
    }
}

/// The first token of the user `user_id`.
pub open spec fn user_index(tokens: Seq<IdentityTokenView>, user_id: Seq<char>) -> Option<int>
    decreases tokens.len(),
{
    if tokens.len() == 0 {
        None
    } else {
        match user_index(tokens.drop_last(), user_id) {
            Some(i) => Some(i),
            None => if tokens.last().user_id == user_id {
                Some(tokens.len() - 1)
            } else {
                None
            },
        }
    }
}

/// The first entry with a key is one, and none comes before it.
pub proof fn lemma_remote_index(remotes: Seq<RemoteIdentityView>, remote: Seq<char>)
    ensures
        match remote_index(remotes, remote) {
            Some(i) => 0 <= i < remotes.len() && remotes[i].remote == remote && forall|j: int|
                0 <= j < i ==> (#[trigger] remotes[j]).remote != remote,
            None => forall|j: int| 0 <= j < remotes.len() ==> (#[trigger] remotes[j]).remote != remote,
        },
    decreases remotes.len(),
{
    if remotes.len() > 0 {
        let earlier = remotes.drop_last();
        lemma_remote_index(earlier, remote);
        assert forall|j: int| 0 <= j < earlier.len() implies (#[trigger] remotes[j])
            == earlier[j] by {}
    }
}

/// The first token of a user is one, and none comes before it.
pub proof fn lemma_user_index(tokens: Seq<IdentityTokenView>, user_id: Seq<char>)
    ensures
        match user_index(tokens, user_id) {
            Some(i) => 0 <= i < tokens.len() && tokens[i].user_id == user_id && forall|j: int|
                0 <= j < i ==> (#[trigger] tokens[j]).user_id != user_id,
            None => forall|j: int|
                0 <= j < tokens.len() ==> (#[trigger] tokens[j]).user_id != user_id,
        },
    decreases tokens.len(),
{
    if tokens.len() > 0 {
        let earlier = tokens.drop_last();
        lemma_user_index(earlier, user_id);
        assert forall|j: int| 0 <= j < earlier.len() implies (#[trigger] tokens[j])
            == earlier[j] by {}
    }
}

/// The first entry with a key is the only one that is such and has none before it.
pub proof fn lemma_remote_index_is(remotes: Seq<RemoteIdentityView>, remote: Seq<char>, i: int)
    requires
        0 <= i < remotes.len(),
        remotes[i].remote == remote,
        forall|j: int| 0 <= j < i ==> (#[trigger] remotes[j]).remote != remote,
    ensures
        remote_index(remotes, remote) == Some(i),
{
    lemma_remote_index(remotes, remote);
    let found = remote_index(remotes, remote);
    if found is None {
        assert(remotes[i].remote != remote);
    } else if found->0 < i {
        assert(remotes[found->0].remote != remote);
    } else if found->0 > i {
        assert(remotes[i].remote != remote);
    }
}

/// The first token of a user is the only one that is such and has none before it.
pub proof fn lemma_user_index_is(tokens: Seq<IdentityTokenView>, user_id: Seq<char>, i: int)
    requires
        0 <= i < tokens.len(),
        tokens[i].user_id == user_id,
        forall|j: int| 0 <= j < i ==> (#[trigger] tokens[j]).user_id != user_id,
    ensures
        user_index(tokens, user_id) == Some(i),
{
    lemma_user_index(tokens, user_id);
    let found = user_index(tokens, user_id);
    if found is None {
        assert(tokens[i].user_id != user_id);
    } else if found->0 < i {
        assert(tokens[found->0].user_id != user_id);
    } else if found->0 > i {
        assert(tokens[i].user_id != user_id);
    }
}

fn find_remote(remotes: &Vec<RemoteIdentity>, remote: &str) -> (r: Option<usize>)
    ensures
        match r {
            Some(i) => remote_index(model::seq_view(remotes@), remote@) == Some(i as int) && i
                < remotes@.len(),
            None => remote_index(model::seq_view(remotes@), remote@) is None,
        },
{
    let ghost views = model::seq_view(remotes@);
    let mut i: usize = 0;
    while i < remotes.len()
        invariant
            i <= remotes@.len(),
            views == model::seq_view(remotes@),
            forall|j: int| 0 <= j < i ==> (#[trigger] views[j]).remote != remote@,
        decreases remotes@.len() - i,
    {
        assert(views[i as int] == remotes@[i as int]@);
        if text::same_text(remotes[i].remote.as_str(), remote) {
            proof {
                lemma_remote_index_is(views, remote@, i as int);
            }
            return Some(i);
        }
        i = i + 1;
    }
    proof {
        lemma_remote_index(views, remote@);
    }
    None
}

fn find_user(tokens: &Vec<IdentityToken>, user_id: &str) -> (r: Option<usize>)
    ensures
        match r {
            Some(i) => user_index(model::seq_view(tokens@), user_id@) == Some(i as int) && i
                < tokens@.len(),
            None => user_index(model::seq_view(tokens@), user_id@) is None,
        },
{
    let ghost views = model::seq_view(tokens@);
    let mut i: usize = 0;
    while i < tokens.len()
        invariant
            i <= tokens@.len(),
            views == model::seq_view(tokens@),
            forall|j: int| 0 <= j < i ==> (#[trigger] views[j]).user_id != user_id@,
        decreases tokens@.len() - i,
    {
        assert(views[i as int] == tokens@[i as int]@);
        if text::same_text(tokens[i].user_id.as_str(), user_id) {
            proof {
                lemma_user_index_is(views, user_id@, i as int);
            }
            return Some(i);
        }
        i = i + 1;
    }
    proof {
        lemma_user_index(views, user_id@);
    }
    None
}

/// `tokens` with the token of a user put in the place of the user's first, whose refresh token
/// stays, or at the end where the user has none.
pub open spec fn put_token(tokens: Seq<IdentityTokenView>, new: IdentityTokenView) -> Seq<
    IdentityTokenView,
> {
    match user_index(tokens, new.user_id) {
        Some(i) => tokens.update(
            i,
            IdentityTokenView { refresh_token: tokens[i].refresh_token, ..new },
        ),
        None => tokens.push(new),
    }
}

/// `remotes` with the token of a user at `remote` put in.
pub open spec fn put_remote(
    remotes: Seq<RemoteIdentityView>,
    remote: Seq<char>,
    new: IdentityTokenView,
) -> Seq<RemoteIdentityView> {
    match remote_index(remotes, remote) {
        Some(i) => remotes.update(
            i,
            RemoteIdentityView { remote, token: put_token(remotes[i].token, new) },
        ),
        None => remotes.push(RemoteIdentityView { remote, token: seq![new] }),
    }
}

fn put(tokens: &mut Vec<IdentityToken>, new: IdentityToken)
    ensures
        model::seq_view(final(tokens)@) == put_token(model::seq_view(old(tokens)@), new@),
{
    let ghost before = model::seq_view(tokens@);
    let mut new = new;
    match find_user(tokens, new.user_id.as_str()) {
        Some(i) => {
            let refresh = model::clone_opt_string(&tokens[i].refresh_token);
            assert(before[i as int] == tokens@[i as int]@);
            new.refresh_token = refresh;
            tokens.set(i, new);
            assert(model::seq_view(tokens@) =~= before.update(i as int, new@));
        },
        None => {
            tokens.push(new);
            assert(model::seq_view(tokens@) =~= before.push(new@));
        },
    }
}

impl TokenMap {
    fn put(&mut self, remote: &str, new: IdentityToken)
        ensures
            final(self)@ == put_remote(old(self)@, remote@, new@),
    {
        let ghost before = self@;
        match find_remote(&self.remotes, remote) {
            Some(i) => {
                proof {
                    lemma_remote_index(before, remote@);
                }
                assert(before[i as int] == self.remotes@[i as int]@);
                let mut entry = self.remotes.remove(i);
                put(&mut entry.token, new);
                self.remotes.insert(i, entry);
                assert(self@ =~= put_remote(before, remote@, new@));
            },
            None => {
                let mut token: Vec<IdentityToken> = Vec::new();
                token.push(new);
                assert(model::seq_view(token@) =~= seq![new@]);
                self.remotes.push(RemoteIdentity { remote: remote.to_owned(), token });
                assert(self@ =~= put_remote(before, remote@, new@));
            },
        }
    }
}

/// `tokens` without those of the user `user_id`.
pub open spec fn without_user(tokens: Seq<IdentityTokenView>, user_id: Seq<char>) -> Seq<
    IdentityTokenView,
> {
    tokens.filter(|token: IdentityTokenView| token.user_id != user_id)
}

/// What is left of an entry once a user's tokens at the service `auth_url` and its resources are
/// removed; nothing is where no token is left.
pub open spec fn kept(entry: RemoteIdentityView, auth_url: Seq<char>, user_id: Seq<char>) -> Option<
    RemoteIdentityView,
> {
    if !store_key::is_entry(entry.remote, auth_url) {
        Some(entry)
    } else {
        let token = without_user(entry.token, user_id);
        if token.len() == 0 {
            None
        } else {
            Some(RemoteIdentityView { remote: entry.remote, token })
        }
    }
}

/// `remotes` without the tokens of a user at the service `auth_url` and its resources.
pub open spec fn without_user_at(
    remotes: Seq<RemoteIdentityView>,
    auth_url: Seq<char>,
    user_id: Seq<char>,
) -> Seq<RemoteIdentityView> {
    remotes.filter_map(|entry: RemoteIdentityView| kept(entry, auth_url, user_id))
}

/// `remotes` without the entries of the service `auth_url` and its resources.
pub open spec fn without_service(remotes: Seq<RemoteIdentityView>, auth_url: Seq<char>) -> Seq<
    RemoteIdentityView,
> {
    remotes.filter(|entry: RemoteIdentityView| !store_key::is_entry(entry.remote, auth_url))
}

/// `remotes` without the tokens of a user in the first entry with the key `remote`; without that
/// entry where no token is left in it.
pub open spec fn without_user_in(
    remotes: Seq<RemoteIdentityView>,
    remote: Seq<char>,
    user_id: Seq<char>,
) -> Seq<RemoteIdentityView> {
    match remote_index(remotes, remote) {
        Some(i) => {
            let token = without_user(remotes[i].token, user_id);
            if token.len() == 0 {
                remotes.remove(i)
            } else {
                remotes.update(i, RemoteIdentityView { remote, token })
            }
        },
        None => remotes,
    }
}

/// Whether a user has a token at the service `auth_url` or one of its resources.
pub open spec fn has_user_at(
    remotes: Seq<RemoteIdentityView>,
    auth_url: Seq<char>,
    user_id: Seq<char>,
) -> bool {
    exists|i: int|
        0 <= i < remotes.len() && store_key::is_entry((#[trigger] remotes[i]).remote, auth_url)
            && user_index(remotes[i].token, user_id) is Some
}

/// Whether there is an entry of the service `auth_url` or one of its resources.
pub open spec fn has_service(remotes: Seq<RemoteIdentityView>, auth_url: Seq<char>) -> bool {
    exists|i: int|
        0 <= i < remotes.len() && store_key::is_entry((#[trigger] remotes[i]).remote, auth_url)
}

/// Whether a user has a token in the first entry with the key `remote`.
pub open spec fn has_user_in(
    remotes: Seq<RemoteIdentityView>,
    remote: Seq<char>,
    user_id: Seq<char>,
) -> bool {
    remote_index(remotes, remote) matches Some(i) && user_index(remotes[i].token, user_id) is Some
}

/// A token put at the end is left there unless it is the user's.
pub proof fn lemma_without_user_push(
    tokens: Seq<IdentityTokenView>,
    token: IdentityTokenView,
    user_id: Seq<char>,
)
    ensures
        without_user(tokens.push(token), user_id) == (if token.user_id == user_id {
            without_user(tokens, user_id)
        } else {
            without_user(tokens, user_id).push(token)
        }),
{
    reveal(Seq::filter);
    assert(tokens.push(token).drop_last() =~= tokens);
}

/// Removes the tokens of a user, and says whether there were any.
fn drop_user(tokens: &mut Vec<IdentityToken>, user_id: &str) -> (removed: bool)
    ensures
        model::seq_view(final(tokens)@) == without_user(model::seq_view(old(tokens)@), user_id@),
        removed == (user_index(model::seq_view(old(tokens)@), user_id@) is Some),
{
    let ghost before = model::seq_view(tokens@);
    let ghost all = tokens@;
    let mut removed = false;
    let mut i: usize = 0;
    let ghost mut done: int = 0;
    proof {
        reveal(Seq::filter);
        lemma_user_index(before, user_id@);
        assert(before.take(0) =~= Seq::<IdentityTokenView>::empty());
        assert(without_user(before.take(0), user_id@) =~= Seq::<IdentityTokenView>::empty());
        assert(tokens@ =~= Seq::<IdentityToken>::empty() + all.skip(0));
    }
    while i < tokens.len()
        invariant
            before == model::seq_view(all),
            0 <= done <= all.len(),
            i <= tokens@.len(),
            tokens@.len() == i + all.len() - done,
            tokens@.skip(i as int) =~= all.skip(done),
            model::seq_view(tokens@.take(i as int)) == without_user(before.take(done), user_id@),
            removed == exists|j: int|
                0 <= j < done && (#[trigger] before[j]).user_id == user_id@,
        decreases tokens@.len() - i,
    {
        assert(tokens@[i as int] == tokens@.skip(i as int)[0]);
        assert(before[done] == tokens@[i as int]@);
        assert(before.take(done + 1) =~= before.take(done).push(before[done]));
        proof {
            lemma_without_user_push(before.take(done), before[done], user_id@);
        }
        let ghost kept = tokens@.take(i as int);
        let ghost rest = tokens@.skip(i as int);
        let ghost earlier = model::seq_view(kept);
        if text::same_text(tokens[i].user_id.as_str(), user_id) {
            tokens.remove(i);
            removed = true;
            assert(tokens@.take(i as int) =~= kept);
            assert(tokens@.skip(i as int) =~= rest.skip(1));
        } else {
            i = i + 1;
            assert(tokens@.take(i as int) =~= kept.push(rest[0]));
            assert(tokens@.skip(i as int) =~= rest.skip(1));
            assert(model::seq_view(tokens@.take(i as int)) =~= earlier.push(before[done]));
        }
        proof {
            done = done + 1;
            assert(all.skip(done) =~= rest.skip(1));
        }
    }
    proof {
        assert(done == all.len());
        assert(before.take(done) =~= before);
        assert(tokens@.take(i as int) =~= tokens@);
        if removed {
            let j = choose|j: int| 0 <= j < done && (#[trigger] before[j]).user_id == user_id@;
            assert(before[j].user_id == user_id@);
        }
    }
    removed
}

impl TokenMap {
    fn drop_user_at(&mut self, auth_url: &str, user_id: &str) -> (modified: bool)
        ensures
            final(self)@ == without_user_at(old(self)@, auth_url@, user_id@),
            modified == has_user_at(old(self)@, auth_url@, user_id@),
    {
        let ghost before = self@;
        let ghost all = self.remotes@;
        let mut modified = false;
        let mut i: usize = 0;
        let ghost mut done: int = 0;
        proof {
            assert(before.take(0) =~= Seq::<RemoteIdentityView>::empty());
            assert(model::seq_view(self.remotes@.take(0)) =~= without_user_at(
                before.take(0),
                auth_url@,
                user_id@,
            ));
        }
        while i < self.remotes.len()
            invariant
                before == model::seq_view(all),
                0 <= done <= all.len(),
                i <= self.remotes@.len(),
                self.remotes@.len() == i + all.len() - done,
                self.remotes@.skip(i as int) =~= all.skip(done),
                model::seq_view(self.remotes@.take(i as int)) == without_user_at(
                    before.take(done),
                    auth_url@,
                    user_id@,
                ),
                modified == exists|j: int|
                    0 <= j < done && store_key::is_entry((#[trigger] before[j]).remote, auth_url@)
                        && user_index(before[j].token, user_id@) is Some,
            decreases self.remotes@.len() - i,
        {
            assert(self.remotes@[i as int] == self.remotes@.skip(i as int)[0]);
            assert(before[done] == self.remotes@[i as int]@);
            assert(before.take(done + 1).drop_last() =~= before.take(done));
            let ghost front = self.remotes@.take(i as int);
            let ghost rest = self.remotes@.skip(i as int);
            let ghost earlier = model::seq_view(front);
            if store_key::is_entry_for_auth_url(self.remotes[i].remote.as_str(), auth_url) {
                let mut entry = self.remotes.remove(i);
                assert(self.remotes@.take(i as int) =~= front);
                assert(self.remotes@.skip(i as int) =~= rest.skip(1));
                if drop_user(&mut entry.token, user_id) {
                    modified = true;
                    assert(store_key::is_entry(before[done].remote, auth_url@));
                }
                if entry.token.len() > 0 {
                    self.remotes.insert(i, entry);
                    i = i + 1;
                    assert(self.remotes@.take(i as int) =~= front.push(entry));
                    assert(self.remotes@.skip(i as int) =~= rest.skip(1));
                    assert(model::seq_view(self.remotes@.take(i as int)) =~= earlier + seq![
                        entry@,
                    ]);
                }
            } else {
                i = i + 1;
                assert(self.remotes@.take(i as int) =~= front.push(rest[0]));
                assert(self.remotes@.skip(i as int) =~= rest.skip(1));
                assert(model::seq_view(self.remotes@.take(i as int)) =~= earlier + seq![
                    before[done],
                ]);
            }
            proof {
                done = done + 1;
                assert(all.skip(done) =~= rest.skip(1));
            }
        }
        assert(before.take(done) =~= before);
        assert(self.remotes@.take(i as int) =~= self.remotes@);
        modified
    }

    fn drop_service(&mut self, auth_url: &str) -> (modified: bool)
        ensures
            final(self)@ == without_service(old(self)@, auth_url@),
            modified == has_service(old(self)@, auth_url@),
    {
        let ghost before = self@;
        let ghost all = self.remotes@;
        let mut modified = false;
        let mut i: usize = 0;
        let ghost mut done: int = 0;
        proof {
            reveal(Seq::filter);
            assert(before.take(0) =~= Seq::<RemoteIdentityView>::empty());
            assert(model::seq_view(self.remotes@.take(0)) =~= without_service(
                before.take(0),
                auth_url@,
            ));
        }
        while i < self.remotes.len()
            invariant
                before == model::seq_view(all),
                0 <= done <= all.len(),
                i <= self.remotes@.len(),
                self.remotes@.len() == i + all.len() - done,
                self.remotes@.skip(i as int) =~= all.skip(done),
                model::seq_view(self.remotes@.take(i as int)) == without_service(
                    before.take(done),
                    auth_url@,
                ),
                modified == exists|j: int|
                    0 <= j < done && store_key::is_entry((#[trigger] before[j]).remote, auth_url@),
            decreases self.remotes@.len() - i,
        {
            proof {
                reveal(Seq::filter);
            }
            assert(self.remotes@[i as int] == self.remotes@.skip(i as int)[0]);
            assert(before[done] == self.remotes@[i as int]@);
            assert(before.take(done + 1).drop_last() =~= before.take(done));
            let ghost front = self.remotes@.take(i as int);
            let ghost rest = self.remotes@.skip(i as int);
            let ghost earlier = model::seq_view(front);
            if store_key::is_entry_for_auth_url(self.remotes[i].remote.as_str(), auth_url) {
                self.remotes.remove(i);
                modified = true;
                assert(self.remotes@.take(i as int) =~= front);
                assert(self.remotes@.skip(i as int) =~= rest.skip(1));
            } else {
                i = i + 1;
                assert(self.remotes@.take(i as int) =~= front.push(rest[0]));
                assert(self.remotes@.skip(i as int) =~= rest.skip(1));
                assert(model::seq_view(self.remotes@.take(i as int)) =~= earlier.push(
                    before[done],
                ));
            }
            proof {
                done = done + 1;
                assert(all.skip(done) =~= rest.skip(1));
            }
        }
        assert(before.take(done) =~= before);
        assert(self.remotes@.take(i as int) =~= self.remotes@);
        modified
    }

    fn drop_user_in(&mut self, remote: &str, user_id: &str) -> (modified: bool)
        ensures
            final(self)@ == without_user_in(old(self)@, remote@, user_id@),
            modified == has_user_in(old(self)@, remote@, user_id@),
    {
        let ghost before = self@;
        match find_remote(&self.remotes, remote) {
            Some(i) => {
                proof {
                    lemma_remote_index(before, remote@);
                }
                assert(before[i as int] == self.remotes@[i as int]@);
                let mut entry = self.remotes.remove(i);
                let modified = drop_user(&mut entry.token, user_id);
                if entry.token.len() > 0 {
                    self.remotes.insert(i, entry);
                }
                assert(self@ =~= without_user_in(before, remote@, user_id@));
                modified
            },
            None => false,
        }
    }
}

/// Whether `filter` decides as `accepts` says.
pub open spec fn decides<F: Fn(&IdentityToken) -> bool>(
    filter: F,
    accepts: spec_fn(IdentityTokenView) -> bool,
) -> bool {
    forall|token: &IdentityToken, r: bool| #[trigger]
        call_ensures(filter, (token,), r) ==> r == accepts(token@)
}

/// Accepts the tokens that may be given to `domain`. Tokens that do not say for whom they are, as
/// older ones do not, are accepted only outside the strict mode.
pub open spec fn for_recipient(domain: Seq<char>, strict: bool) -> spec_fn(IdentityTokenView) -> bool {
    |token: IdentityTokenView|
        if token.acceptable_root_domains.len() == 0 {
            !strict
        } else {
            domain::in_root_domains(domain, token.acceptable_root_domains)
        }
}

/// Accepts every token.
pub open spec fn every_token() -> spec_fn(IdentityTokenView) -> bool {
    |token: IdentityTokenView| true
}

/// Gives a filter that accepts the tokens that may be given to `domain`.
pub fn tokens_only_for_recipient_domain(domain: String, strict: bool) -> (filter: impl Fn(
    &IdentityToken,
) -> bool)
    ensures
        forall|token: &IdentityToken| #[trigger] call_requires(filter, (token,)),
        decides(filter, for_recipient(domain@, strict)),
{
    let filter = move |token: &IdentityToken| -> (r: bool)
        ensures
            r == for_recipient(domain@, strict)(token@),
        {
            if token.acceptable_root_domains.len() == 0 {
                !strict
            } else {
                domain::domain_in_root_domains(domain.as_str(), &token.acceptable_root_domains)
            }
        };
    filter
}

/// Gives a filter that accepts every token. A token that it lets through must not be sent to
/// anyone whom it is not for.
pub fn vulnerable_all_tokens() -> (filter: impl Fn(&IdentityToken) -> bool)
    ensures
        forall|token: &IdentityToken| #[trigger] call_requires(filter, (token,)),
        decides(filter, every_token()),
{
    let filter = |token: &IdentityToken| -> (r: bool)
        ensures
            r,
        { true };
    filter
}

/// The first token of a user that `accepts` lets through.
pub open spec fn chosen_index(
    tokens: Seq<IdentityTokenView>,
    user_id: Seq<char>,
    accepts: spec_fn(IdentityTokenView) -> bool,
) -> Option<int>
    decreases tokens.len(),
{
    if tokens.len() == 0 {
        None
    } else {
        match chosen_index(tokens.drop_last(), user_id, accepts) {
            Some(i) => Some(i),
            None => if accepts(tokens.last()) && tokens.last().user_id == user_id {
                Some(tokens.len() - 1)
            } else {
                None
            },
        }
    }
}

/// Whether `filter` refuses the token, where it is of the user.
pub open spec fn refuses<F: Fn(&IdentityToken) -> bool>(
    filter: F,
    token: IdentityToken,
    user_id: Seq<char>,
) -> bool {
    token.user_id@ == user_id ==> call_ensures(filter, (&token,), false)
}

/// Whether `r` is the first of `tokens` that is of the user and that `filter` lets through, or
/// nothing where it refuses them all.
pub open spec fn chosen_by<F: Fn(&IdentityToken) -> bool>(
    tokens: Seq<IdentityToken>,
    user_id: Seq<char>,
    filter: F,
    r: Option<Seq<char>>,
) -> bool {
    match r {
        Some(token) => exists|i: int|
            {
                &&& 0 <= i < tokens.len()
                &&& (#[trigger] tokens[i]).user_id@ == user_id
                &&& tokens[i].token@ == token
                &&& call_ensures(filter, (&tokens[i],), true)
                &&& forall|j: int| 0 <= j < i ==> refuses(filter, #[trigger] tokens[j], user_id)
            },
        None => forall|j: int|
            0 <= j < tokens.len() ==> refuses(filter, #[trigger] tokens[j], user_id),
    }
}

/// The tokens in the first entry with the key `remote`.
pub open spec fn tokens_at(remotes: Seq<RemoteIdentityView>, remote: Seq<char>) -> Option<
    Seq<IdentityTokenView>,
> {
    match remote_index(remotes, remote) {
        Some(i) => Some(remotes[i].token),
        None => None,
    }
}

/// The encrypted token of a user at a service, as far as `accepts` lets it through. Slashes at the
/// end of the service's URL make no difference.
pub open spec fn find_token(
    remotes: Seq<RemoteIdentityView>,
    auth_endpoint: Seq<char>,
    user_id: Seq<char>,
    accepts: spec_fn(IdentityTokenView) -> bool,
) -> Option<Seq<char>> {
    let remote = text::trim_end(auth_endpoint, '/');
    if remote.len() == 0 || user_id.len() == 0 {
        None
    } else {
        match tokens_at(remotes, remote) {
            Some(tokens) => match chosen_index(tokens, user_id, accepts) {
                Some(i) => Some(tokens[i].token),
                None => None,
            },
            None => None,
        }
    }
}

/// The encrypted refresh token of a user at a service.
pub open spec fn find_refresh_token(
    remotes: Seq<RemoteIdentityView>,
    auth_endpoint: Seq<char>,
    user_id: Seq<char>,
) -> Option<Seq<char>> {
    match tokens_at(remotes, text::trim_end(auth_endpoint, '/')) {
        Some(tokens) => match user_index(tokens, user_id) {
            Some(i) => tokens[i].refresh_token,
            None => None,
        },
        None => None,
    }
}

/// `remotes` with the refresh token of a user's first token at `remote` replaced.
pub open spec fn put_refresh(
    remotes: Seq<RemoteIdentityView>,
    remote: Seq<char>,
    user_id: Seq<char>,
    refresh_token: Seq<char>,
) -> Seq<RemoteIdentityView> {
    let i = remote_index(remotes, remote)->0;
    let tokens = remotes[i].token;
    let j = user_index(tokens, user_id)->0;
    remotes.update(
        i,
        RemoteIdentityView {
            remote,
            token: tokens.update(
                j,
                IdentityTokenView { refresh_token: Some(refresh_token), ..tokens[j] },
            ),
        },
    )
}

/// The users of `tokens`.
pub open spec fn users(tokens: Seq<IdentityTokenView>) -> Seq<Seq<char>> {
    tokens.map_values(|token: IdentityTokenView| token.user_id)
}

/// The first token that is chosen is the only one that can be and has none such before it.
pub proof fn lemma_chosen_index_is(
    tokens: Seq<IdentityTokenView>,
    user_id: Seq<char>,
    accepts: spec_fn(IdentityTokenView) -> bool,
    n: int,
)
    requires
        0 <= n < tokens.len(),
        accepts(tokens[n]),
        tokens[n].user_id == user_id,
        forall|j: int|
            0 <= j < n ==> !(accepts(#[trigger] tokens[j]) && tokens[j].user_id == user_id),
    ensures
        chosen_index(tokens, user_id, accepts) == Some(n),
    decreases tokens.len(),
{
    let earlier = tokens.drop_last();
    assert forall|j: int| 0 <= j < earlier.len() implies (#[trigger] earlier[j])
        == tokens[j] by {}
    if n < earlier.len() {
        lemma_chosen_index_is(earlier, user_id, accepts, n);
    } else {
        lemma_none_chosen(earlier, user_id, accepts);
    }
}

/// Where no token can be chosen, none is.
pub proof fn lemma_none_chosen(
    tokens: Seq<IdentityTokenView>,
    user_id: Seq<char>,
    accepts: spec_fn(IdentityTokenView) -> bool,
)
    requires
        forall|j: int|
            0 <= j < tokens.len() ==> !(accepts(#[trigger] tokens[j]) && tokens[j].user_id == user_id),
    ensures
        chosen_index(tokens, user_id, accepts) is None,
    decreases tokens.len(),
{
    if tokens.len() > 0 {
        let earlier = tokens.drop_last();
        assert forall|j: int| 0 <= j < earlier.len() implies (#[trigger] earlier[j])
            == tokens[j] by {}
        lemma_none_chosen(earlier, user_id, accepts);
    }
}

/// Finds the first token of a user that `filter` lets through.
fn choose_token<F: Fn(&IdentityToken) -> bool>(
    tokens: &Vec<IdentityToken>,
    user_id: &str,
    filter: F,
) -> (r: Option<String>)
    requires
        forall|token: &IdentityToken| #[trigger] call_requires(filter, (token,)),
    ensures
        forall|accepts: spec_fn(IdentityTokenView) -> bool| #[trigger]
            decides(filter, accepts) ==> model::opt_view(r) == (match chosen_index(
                model::seq_view(tokens@),
                user_id@,
                accepts,
            ) {
                Some(i) => Some(model::seq_view(tokens@)[i].token),
                None => None,
            }),
        chosen_by(tokens@, user_id@, filter, model::opt_view(r)),
{
    let ghost views = model::seq_view(tokens@);
    let mut i: usize = 0;
    while i < tokens.len()
        invariant
            i <= tokens@.len(),
            views == model::seq_view(tokens@),
            forall|token: &IdentityToken| #[trigger] call_requires(filter, (token,)),
            forall|j: int| 0 <= j < i ==> refuses(filter, #[trigger] tokens@[j], user_id@),
            forall|accepts: spec_fn(IdentityTokenView) -> bool, j: int| #[trigger]
                decides(filter, accepts) && 0 <= j < i ==> !(accepts(#[trigger] views[j])
                    && views[j].user_id == user_id@),
        decreases tokens@.len() - i,
    {
        assert(views[i as int] == tokens@[i as int]@);
        let accepted = filter(&tokens[i]);
        if accepted && text::same_text(tokens[i].user_id.as_str(), user_id) {
            proof {
                assert forall|accepts: spec_fn(IdentityTokenView) -> bool| #[trigger]
                    decides(filter, accepts) implies chosen_index(views, user_id@, accepts) == Some(
                    i as int,
                ) by {
                    lemma_chosen_index_is(views, user_id@, accepts, i as int);
                }
            }
            return Some(tokens[i].token.clone());
        }
        i = i + 1;
    }
    proof {
        assert forall|accepts: spec_fn(IdentityTokenView) -> bool| #[trigger]
            decides(filter, accepts) implies chosen_index(views, user_id@, accepts) is None by {
            lemma_none_chosen(views, user_id@, accepts);
        }
    }
    None
}

/// What is known in memory of the map of all tokens: nothing before it was read.
pub struct TokenStore {
    pub map: Option<TokenMap>,
}

impl View for TokenStore {
    type V = Option<Seq<RemoteIdentityView>>;

    open spec fn view(&self) -> Option<Seq<RemoteIdentityView>> {
        model::opt_view(self.map)
    }
}

impl TokenStore {
    /// The entries that are known.
    pub open spec fn remotes(&self) -> Seq<RemoteIdentityView> {
        match self@ {
            Some(remotes) => remotes,
            None => Seq::empty(),
        }
    }

    /// A store of which nothing is known yet.
    pub fn new() -> (store: TokenStore)
        ensures
            store@ is None,
    {
        TokenStore { map: None }
    }

    /// Whether the file has to be read before tokens are looked up.
    pub fn needs_load(&self) -> (r: bool)
        ensures
            r == (self@ is None),
    {
        self.map.is_none()
    }

    /// Takes in what was read before tokens are looked up. What is known already stays.
    pub fn load(&mut self, loaded: Option<TokenMap>)
        ensures
            final(self)@ == (if old(self)@ is Some {
                old(self)@
            } else {
                model::opt_view(loaded)
            }),
    {
        if self.map.is_none() {
            self.map = loaded;
        }
    }

    /// Takes in what was read before tokens are changed, since the file may have been changed
    /// elsewhere. What is known stays where nothing could be read.
    pub fn reload_token_map(&mut self, loaded: Option<TokenMap>)
        ensures
            final(self)@ == (if loaded is Some {
                model::opt_view(loaded)
            } else {
                old(self)@
            }),
    {
        if loaded.is_some() {
            self.map = loaded;
        }
    }

    /// Forgets all tokens. A store of which nothing is known stays so: the file is read when it is
    /// needed.
    pub fn reset_tokens(&mut self)
        ensures
            final(self)@ == (match old(self)@ {
                Some(_) => Some(Seq::<RemoteIdentityView>::empty()),
                None => None,
            }),
    {
        if self.map.is_some() {
            self.map = Some(TokenMap::default());
        }
    }
}

/// The token of a user that came from the endpoint of `auth_domain`: it may be given to the domains
/// it is meant for and, since it came from there, to that endpoint.
pub open spec fn new_token(
    user_id: Seq<char>,
    token: Seq<char>,
    acceptable_root_domains: Seq<Seq<char>>,
    auth_domain: Seq<char>,
) -> IdentityTokenView {
    IdentityTokenView {
        user_id,
        token,
        acceptable_root_domains: acceptable_root_domains.push(auth_domain),
        refresh_token: None,
    }
}

/// Keeps the encrypted token of a user, in place of the one that was kept. A refresh token stays.
/// The token may also be given to the domain of the endpoint that it came from. The map has to be
/// written afterwards.
pub fn store_user_token(
    store: &mut TokenStore,
    auth_endpoint: &str,
    identity: &str,
    encrypted_token: String,
    acceptable_root_domains: Vec<String>,
)
    ensures
        final(store)@ == Some(
            put_remote(
                old(store).remotes(),
                text::trim_end(auth_endpoint@, '/'),
                new_token(
                    identity@,
                    encrypted_token@,
                    model::seq_view(acceptable_root_domains@),
                    domain::host_or_nothing(
                        domain::url_parts(text::trim_end(auth_endpoint@, '/')),
                    ),
                ),
            ),
        ),
{
    let endpoint = text::trim_end_matches(auth_endpoint, '/');
    let auth_domain = domain::get_domain_or_empty(endpoint.as_str());
    store_token_of_domain(
        store,
        auth_endpoint,
        identity,
        encrypted_token,
        acceptable_root_domains,
        auth_domain,
    );
}

/// Keeps the encrypted token of a user that came from the endpoint of `auth_domain`, in place of the
/// one that was kept. A refresh token stays. The map has to be written afterwards.
pub fn store_token_of_domain(
    store: &mut TokenStore,
    auth_endpoint: &str,
    identity: &str,
    encrypted_token: String,
    acceptable_root_domains: Vec<String>,
    auth_domain: String,
)
    ensures
        final(store)@ == Some(
            put_remote(
                old(store).remotes(),
                text::trim_end(auth_endpoint@, '/'),
                new_token(
                    identity@,
                    encrypted_token@,
                    model::seq_view(acceptable_root_domains@),
                    auth_domain@,
                ),
            ),
        ),
{
    let ghost domains = model::seq_view(acceptable_root_domains@);
    let remote = text::trim_end_matches(auth_endpoint, '/');
    let mut roots = acceptable_root_domains;
    roots.push(auth_domain);
    assert(model::seq_view(roots@) =~= domains.push(auth_domain@));
    let new = IdentityToken {
        user_id: identity.to_owned(),
        token: encrypted_token,
        acceptable_root_domains: roots,
        refresh_token: None,
    };
    let mut map = match store.map.take() {
        Some(map) => map,
        None => TokenMap::default(),
    };
    map.put(remote.as_str(), new);
    store.map = Some(map);
}

/// Gives the first encrypted token of a user at a service that `filter` lets through.
pub fn load_user_token<F: Fn(&IdentityToken) -> bool>(
    store: &TokenStore,
    auth_endpoint: &str,
    identity: &str,
    filter: F,
) -> (r: Result<String, TokenStoreError>)
    requires
        forall|token: &IdentityToken| #[trigger] call_requires(filter, (token,)),
    ensures
        r matches Err(error) ==> error is TokenNotFound,
        forall|accepts: spec_fn(IdentityTokenView) -> bool| #[trigger]
            decides(filter, accepts) ==> model::opt_view(model::ok(r)) == find_token(
                store.remotes(),
                auth_endpoint@,
                identity@,
                accepts,
            ),
        if text::trim_end(auth_endpoint@, '/').len() == 0 || identity@.len() == 0 {
            r is Err
        } else {
            match remote_index(store.remotes(), text::trim_end(auth_endpoint@, '/')) {
                Some(i) => chosen_by(
                    store.map->0.remotes@[i].token@,
                    identity@,
                    filter,
                    model::opt_view(model::ok(r)),
                ),
                None => r is Err,
            }
        },
{
    let remote = text::trim_end_matches(auth_endpoint, '/');
    if remote.as_str().is_empty() || identity.is_empty() {
        return Err(TokenStoreError::TokenNotFound);
    }
    if let Some(map) = &store.map {
        if let Some(i) = find_remote(&map.remotes, remote.as_str()) {
            assert(map@[i as int] == map.remotes@[i as int]@);
            return match choose_token(&map.remotes[i].token, identity, filter) {
                Some(token) => Ok(token),
                None => Err(TokenStoreError::TokenNotFound),
            };
        }
    }
    Err(TokenStoreError::TokenNotFound)
}

/// Removes the tokens of a user at a service and its resources. The map has to be written
/// afterwards where the result is true.
pub fn remove_user_tokens_for_auth_url(
    store: &mut TokenStore,
    auth_url: &str,
    identity: &str,
) -> (modified: bool)
    ensures
        final(store)@ == (match old(store)@ {
            Some(remotes) => Some(
                without_user_at(remotes, text::trim_end(auth_url@, '/'), identity@),
            ),
            None => None,
        }),
        modified == has_user_at(
            old(store).remotes(),
            text::trim_end(auth_url@, '/'),
            identity@,
        ),
{
    let url = text::trim_end_matches(auth_url, '/');
    match store.map.take() {
        Some(map) => {
            let mut map = map;
            let modified = map.drop_user_at(url.as_str(), identity);
            store.map = Some(map);
            modified
        },
        None => false,
    }
}

/// Removes all tokens at a service and its resources. The map has to be written afterwards where
/// the result is true.
pub fn remove_all_tokens_for_auth_url(store: &mut TokenStore, auth_url: &str) -> (modified: bool)
    ensures
        final(store)@ == (match old(store)@ {
            Some(remotes) => Some(without_service(remotes, text::trim_end(auth_url@, '/'))),
            None => None,
        }),
        modified == has_service(old(store).remotes(), text::trim_end(auth_url@, '/')),
{
    let url = text::trim_end_matches(auth_url, '/');
    match store.map.take() {
        Some(map) => {
            let mut map = map;
            let modified = map.drop_service(url.as_str());
            store.map = Some(map);
            modified
        },
        None => false,
    }
}

/// Removes the tokens of a user in the entry with that very key. The map has to be written
/// afterwards where the result is true.
pub fn remove_user_token(store: &mut TokenStore, endpoint: &str, identity: &str) -> (modified: bool)
    ensures
        final(store)@ == (match old(store)@ {
            Some(remotes) => Some(without_user_in(remotes, endpoint@, identity@)),
            None => None,
        }),
        modified == has_user_in(old(store).remotes(), endpoint@, identity@),
{
    match store.map.take() {
        Some(map) => {
            let mut map = map;
            let modified = map.drop_user_in(endpoint, identity);
            store.map = Some(map);
            modified
        },
        None => false,
    }
}

/// Gives the users who have tokens in the entry with that very key.
pub fn load_identities(store: &TokenStore, auth_endpoint: &str) -> (identities: Vec<String>)
    ensures
        model::seq_view(identities@) == (match tokens_at(store.remotes(), auth_endpoint@) {
            Some(tokens) => users(tokens),
            None => Seq::empty(),
        }),
{
    let mut identities: Vec<String> = Vec::new();
    assert(model::seq_view(identities@) =~= Seq::<Seq<char>>::empty());
    if let Some(map) = &store.map {
        if let Some(at) = find_remote(&map.remotes, auth_endpoint) {
            let tokens = &map.remotes[at].token;
            let ghost views = model::seq_view(tokens@);
            assert(map@[at as int] == map.remotes@[at as int]@);
            let mut i: usize = 0;
            while i < tokens.len()
                invariant
                    i <= tokens@.len(),
                    views == model::seq_view(tokens@),
                    model::seq_view(identities@) == users(views.take(i as int)),
                decreases tokens@.len() - i,
            {
                let ghost earlier = model::seq_view(identities@);
                identities.push(tokens[i].user_id.clone());
                assert(model::seq_view(identities@) =~= earlier.push(views[i as int].user_id));
                i = i + 1;
                assert(users(views.take(i as int)) =~= users(views.take(i - 1)).push(
                    views[i - 1].user_id,
                ));
            }
            assert(views.take(i as int) =~= views);
        }
    }
    identities
}

/// Keeps the encrypted refresh token of a user who has a token at the service. The map has to be
/// written afterwards where that succeeds.
pub fn store_refresh_token(
    store: &mut TokenStore,
    auth_endpoint: &str,
    identity: &str,
    encrypted_refresh: String,
) -> (r: Result<(), TokenStoreError>)
    ensures
        ({
            let remotes = old(store).remotes();
            let remote = text::trim_end(auth_endpoint@, '/');
            if has_user_in(remotes, remote, identity@) {
                r is Ok && final(store)@ == Some(
                    put_refresh(remotes, remote, identity@, encrypted_refresh@),
                )
            } else {
                r matches Err(error) && error is TokenNotFound && final(store)@ == old(store)@
            }
        }),
{
    let remote = text::trim_end_matches(auth_endpoint, '/');
    let ghost before = store.remotes();
    match store.map.take() {
        Some(map) => {
            let mut map = map;
            if let Some(i) = find_remote(&map.remotes, remote.as_str()) {
                proof {
                    lemma_remote_index(before, remote@);
                }
                assert(before[i as int] == map.remotes@[i as int]@);
                if let Some(j) = find_user(&map.remotes[i].token, identity) {
                    let mut entry = map.remotes.remove(i);
                    let ghost tokens = model::seq_view(entry.token@);
                    let mut token = entry.token.remove(j);
                    assert(tokens[j as int] == token@);
                    token.refresh_token = Some(encrypted_refresh);
                    entry.token.insert(j, token);
                    assert(model::seq_view(entry.token@) =~= tokens.update(j as int, token@));
                    map.remotes.insert(i, entry);
                    assert(map@ =~= put_refresh(before, remote@, identity@, encrypted_refresh@));
                    store.map = Some(map);
                    return Ok(());
                }
            }
            store.map = Some(map);
            Err(TokenStoreError::TokenNotFound)
        },
        None => Err(TokenStoreError::TokenNotFound),
    }
}

/// Gives the encrypted refresh token of a user at a service.
pub fn load_refresh_token(store: &TokenStore, auth_endpoint: &str, identity: &str) -> (r: Result<
    String,
    TokenStoreError,
>)
    ensures
        r matches Err(error) ==> error is TokenNotFound,
        model::opt_view(model::ok(r)) == find_refresh_token(
            store.remotes(),
            auth_endpoint@,
            identity@,
        ),
{
    let remote = text::trim_end_matches(auth_endpoint, '/');
    if let Some(map) = &store.map {
        if let Some(i) = find_remote(&map.remotes, remote.as_str()) {
            let tokens = &map.remotes[i].token;
            assert(map@[i as int] == map.remotes@[i as int]@);
            if let Some(j) = find_user(tokens, identity) {
                assert(model::seq_view(tokens@)[j as int] == tokens@[j as int]@);
                if let Some(refresh) = &tokens[j].refresh_token {
                    return Ok(refresh.clone());
                }
            }
        }
    }
    Err(TokenStoreError::TokenNotFound)
}

} // verus!
