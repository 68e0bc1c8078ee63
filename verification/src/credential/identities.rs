//! The list of all identities for which tokens are kept.
use vstd::prelude::*;

use crate::credential::jwt::{UserInfo, UserInfoView};
use crate::credential::store_key;
use crate::credential::token_map::{
    IdentityToken, IdentityTokenView, RemoteIdentityView, TokenMap, TokenStore,
};
use crate::model;

verus! {

/// What is shown of a token that is kept.
#[derive(Clone, Debug)]
pub struct StoredIdentityInfo {
    pub auth_url: String,
    /// The name of the resource; empty for authentication tokens.
    pub resource: String,
    pub user_id: String,
    pub acceptable_root_domains: Vec<String>,
    /// The expiry in milliseconds since the epoch, or zero where it is not known.
    pub expires_ms: u64,
    /// The token itself, only where it was asked for.
    pub token: String,
}

/// The model of [`StoredIdentityInfo`].
pub struct StoredIdentityInfoView {
    pub auth_url: Seq<char>,
    pub resource: Seq<char>,
    pub user_id: Seq<char>,
    pub acceptable_root_domains: Seq<Seq<char>>,
    pub expires_ms: u64,
    pub token: Seq<char>,
}

impl View for StoredIdentityInfo {
    type V = StoredIdentityInfoView;

    open spec fn view(&self) -> StoredIdentityInfoView {
        StoredIdentityInfoView {
            auth_url: self.auth_url@,
            resource: self.resource@,
            user_id: self.user_id@,
            acceptable_root_domains: model::seq_view(self.acceptable_root_domains@),
            expires_ms: self.expires_ms,
            token: self.token@,
        }
    }
}

/// A token that is kept, with the service and the resource it is for.
#[derive(Debug)]
pub struct IdentityEntry {
    pub auth_url: String,
    pub resource: String,
    pub identity: IdentityToken,
}

/// The model of [`IdentityEntry`].
pub struct IdentityEntryView {
    pub auth_url: Seq<char>,
    pub resource: Seq<char>,
    pub identity: IdentityTokenView,
}

impl View for IdentityEntry {
    type V = IdentityEntryView;

    open spec fn view(&self) -> IdentityEntryView {
        IdentityEntryView {
            auth_url: self.auth_url@,
            resource: self.resource@,
            identity: self.identity@,
        }
    }
}

/// The entries of the tokens at one key, which was split into `parts`.
pub open spec fn entries_at(
    tokens: Seq<IdentityTokenView>,
    parts: (Seq<char>, Seq<char>),
) -> Seq<IdentityEntryView> {
    tokens.map_values(
        |identity: IdentityTokenView|
            IdentityEntryView { auth_url: parts.0, resource: parts.1, identity },
    )
}

/// The entries of all tokens, where `parts` holds what each key was split into: key by key, and
/// token by token at each key.
pub open spec fn entries_of(
    remotes: Seq<RemoteIdentityView>,
    parts: Seq<(Seq<char>, Seq<char>)>,
) -> Seq<IdentityEntryView>
    decreases remotes.len(),
{
    if remotes.len() == 0 {
        seq![]
    } else {
        entries_of(remotes.drop_last(), parts) + entries_at(
            remotes.last().token,
            parts[remotes.len() - 1],
        )
    }
}

/// Whether every key can be split.
pub open spec fn all_splittable(remotes: Seq<RemoteIdentityView>) -> bool {
    forall|i: int|
        0 <= i < remotes.len() ==> store_key::splittable(
            (#[trigger] remotes[i]).remote,
            store_key::path_of(remotes[i].remote),
        )
}

/// What each key is split into.
pub open spec fn all_split(remotes: Seq<RemoteIdentityView>) -> Seq<(Seq<char>, Seq<char>)> {
    remotes.map_values(
        |entry: RemoteIdentityView|
            store_key::split(entry.remote, store_key::path_of(entry.remote)),
    )
}

/// The views of pairs of texts.
pub open spec fn pair_views(pairs: Seq<(String, String)>) -> Seq<(Seq<char>, Seq<char>)> {
    pairs.map_values(|pair: (String, String)| (pair.0@, pair.1@))
}

/// Lists the entries of all tokens, where `parts` holds what each key was split into.
pub fn collect_entries(map: &TokenMap, parts: &Vec<(String, String)>) -> (entries: Vec<
    IdentityEntry,
>)
    requires
        parts@.len() == map@.len(),
    ensures
        model::seq_view(entries@) == entries_of(map@, pair_views(parts@)),
{
    let ghost remotes = map@;
    let ghost pairs = pair_views(parts@);
    let mut entries: Vec<IdentityEntry> = Vec::new();
    let mut i: usize = 0;
    assert(remotes.take(0) =~= Seq::<RemoteIdentityView>::empty());
    assert(model::seq_view(entries@) =~= entries_of(remotes.take(0), pairs));
    while i < map.remotes.len()
        invariant
            i <= map.remotes@.len(),
            remotes == map@,
            pairs == pair_views(parts@),
            parts@.len() == remotes.len(),
            model::seq_view(entries@) == entries_of(remotes.take(i as int), pairs),
        decreases map.remotes@.len() - i,
    {
        let tokens = &map.remotes[i].token;
        let ghost views = model::seq_view(tokens@);
        let ghost earlier = model::seq_view(entries@);
        assert(remotes[i as int] == map.remotes@[i as int]@);
        let mut j: usize = 0;
        assert(earlier + entries_at(views.take(0), pairs[i as int]) =~= earlier);
        while j < tokens.len()
            invariant
                j <= tokens@.len(),
                views == model::seq_view(tokens@),
                i < parts@.len(),
                pairs == pair_views(parts@),
                model::seq_view(entries@) == earlier + entries_at(
                    views.take(j as int),
                    pairs[i as int],
                ),
            decreases tokens@.len() - j,
        {
            let ghost before = model::seq_view(entries@);
            entries.push(
                IdentityEntry {
                    auth_url: parts[i].0.clone(),
                    resource: parts[i].1.clone(),
                    identity: tokens[j].clone(),
                },
            );
            proof {
                let added = IdentityEntryView {
                    auth_url: pairs[i as int].0,
                    resource: pairs[i as int].1,
                    identity: views[j as int],
                };
                assert(views[j as int] == tokens@[j as int]@);
                assert(model::seq_view(entries@) =~= before.push(added));
                assert(entries_at(views.take(j + 1), pairs[i as int]) =~= entries_at(
                    views.take(j as int),
                    pairs[i as int],
                ).push(added));
            }
            j = j + 1;
        }
        assert(views.take(j as int) =~= views);
        i = i + 1;
        assert(remotes.take(i as int).drop_last() =~= remotes.take(i - 1));
    }
    assert(remotes.take(i as int) =~= remotes);
    entries
}

fn split_keys(map: &TokenMap) -> (r: Option<Vec<(String, String)>>)
    ensures
        if all_splittable(map@) {
            r matches Some(parts) && parts@.len() == map@.len() && pair_views(parts@) == all_split(
                map@,
            )
        } else {
            r is None
        },
{
    let mut parts: Vec<(String, String)> = Vec::new();
    let mut i: usize = 0;
    while i < map.remotes.len()
        invariant
            i <= map.remotes@.len(),
            parts@.len() == i,
            forall|j: int|
                0 <= j < i ==> store_key::splittable(
                    (#[trigger] map@[j]).remote,
                    store_key::path_of(map@[j].remote),
                ),
            forall|j: int|
                0 <= j < i ==> ((#[trigger] parts@[j]).0@, parts@[j].1@) == store_key::split(
                    map@[j].remote,
                    store_key::path_of(map@[j].remote),
                ),
        decreases map.remotes@.len() - i,
    {
        assert(map@[i as int] == map.remotes@[i as int]@);
        match store_key::try_split_remote_resource(map.remotes[i].remote.as_str()) {
            Some(pair) => {
                parts.push(pair);
            },
            None => {
                return None;
            },
        }
        i = i + 1;
    }
    assert(pair_views(parts@) =~= all_split(map@));
    Some(parts)
}

/// Lists the entries of all tokens, where every key can be split.
pub fn identity_entries(store: &TokenStore) -> (r: Option<Vec<IdentityEntry>>)
    ensures
        if all_splittable(store.remotes()) {
            r matches Some(entries) && model::seq_view(entries@) == entries_of(
                store.remotes(),
                all_split(store.remotes()),
            )
        } else {
            r is None
        },
{
    match &store.map {
        Some(map) => match split_keys(map) {
            Some(parts) => Some(collect_entries(map, &parts)),
            None => None,
        },
        None => {
            let entries: Vec<IdentityEntry> = Vec::new();
            assert(model::seq_view(entries@) =~= Seq::<IdentityEntryView>::empty());
            Some(entries)
        },
    }
}

/// What is shown of an entry, given its token and what that says of the user, where it could be
/// decrypted.
pub open spec fn shown(
    entry: IdentityEntryView,
    decrypted: Option<(Seq<char>, Option<UserInfoView>)>,
    include_token: bool,
) -> StoredIdentityInfoView {
    StoredIdentityInfoView {
        auth_url: entry.auth_url,
        resource: entry.resource,
        user_id: entry.identity.user_id,
        acceptable_root_domains: entry.identity.acceptable_root_domains,
        expires_ms: match decrypted {
            Some((_, Some(info))) => info.expires,
            _ => 0,
        },
        token: match decrypted {
            Some((token, _)) => if include_token {
                token
            } else {
                seq![]
            },
            None => seq![],
        },
    }
}

/// What decrypting a token gave: the token and what it says of the user.
pub open spec fn decrypted_view(decrypted: Option<(String, Option<UserInfo>)>) -> Option<
    (Seq<char>, Option<UserInfoView>),
> {
    match decrypted {
        Some((token, info)) => Some((token@, model::opt_view(info))),
        None => None,
    }
}

/// Gives what is shown of an entry. The token itself is shown only with `include_token`.
pub fn load_identity(
    entry: IdentityEntry,
    decrypted: Option<(String, Option<UserInfo>)>,
    include_token: bool,
) -> (info: StoredIdentityInfo)
    ensures
        info@ == shown(
            entry@,
            decrypted_view(decrypted),
            include_token,
        ),
{
    let (expires_ms, token) = match decrypted {
        Some((token, info)) => {
            let expires: u64 = match info {
                Some(info) => info.expires,
                None => 0,
            };
            let shown_token = if include_token {
                token
            } else {
                String::new()
            };
            (expires, shown_token)
        },
        None => (0, String::new()),
    };
    StoredIdentityInfo {
        auth_url: entry.auth_url,
        resource: entry.resource,
        user_id: entry.identity.user_id,
        acceptable_root_domains: entry.identity.acceptable_root_domains,
        expires_ms,
        token,
    }
}

/// What is shown of all entries, given what decrypting the token of each gave: one after the other,
/// each of them.
pub open spec fn all_shown(
    entries: Seq<IdentityEntryView>,
    decrypted: Seq<Option<(Seq<char>, Option<UserInfoView>)>>,
    include_token: bool,
) -> Seq<StoredIdentityInfoView> {
    Seq::new(entries.len(), |i: int| shown(entries[i], decrypted[i], include_token))
}

/// Gives what is shown of all entries, given what decrypting the token of each gave.
pub fn list_identities(
    entries: Vec<IdentityEntry>,
    decrypted: Vec<Option<(String, Option<UserInfo>)>>,
    include_token: bool,
) -> (list: Vec<StoredIdentityInfo>)
    requires
        entries@.len() == decrypted@.len(),
    ensures
        model::seq_view(list@) == all_shown(
            model::seq_view(entries@),
            decrypted@.map_values(
                |d: Option<(String, Option<UserInfo>)>| decrypted_view(d),
            ),
            include_token,
        ),
{
    let ghost all = entries@;
    let ghost opened = decrypted@;
    let count: usize = entries.len();
    let mut rest = entries;
    let mut rest_opened = decrypted;
    let mut list: Vec<StoredIdentityInfo> = Vec::new();
    let mut done: usize = 0;
    while done < count
        invariant
            done <= count,
            all.len() == opened.len() == count,
            rest@ == all.skip(done as int),
            rest_opened@ == opened.skip(done as int),
            list@.len() == done,
            forall|i: int|
                0 <= i < done ==> (#[trigger] list@[i])@ == shown(
                    all[i]@,
                    decrypted_view(opened[i]),
                    include_token,
                ),
        decreases count - done,
    {
        let entry = rest.remove(0);
        let opened_entry = rest_opened.remove(0);
        list.push(load_identity(entry, opened_entry, include_token));
        done = done + 1;
        assert(rest@ =~= all.skip(done as int));
        assert(rest_opened@ =~= opened.skip(done as int));
    }
    assert(model::seq_view(list@) =~= all_shown(
        model::seq_view(all),
        opened.map_values(|d: Option<(String, Option<UserInfo>)>| decrypted_view(d)),
        include_token,
    ));
    list
}

/// The number of tokens that are kept.
pub open spec fn token_count(remotes: Seq<RemoteIdentityView>) -> nat
    decreases remotes.len(),
{
    if remotes.len() == 0 {
        0
    } else {
        token_count(remotes.drop_last()) + remotes.last().token.len()
    }
}

/// Every token that is kept is listed, and nothing else is.
pub proof fn every_token_is_listed(
    remotes: Seq<RemoteIdentityView>,
    parts: Seq<(Seq<char>, Seq<char>)>,
    i: int,
    j: int,
)
    requires
        0 <= i < remotes.len(),
        0 <= j < remotes[i].token.len(),
    ensures
        entries_of(remotes, parts).len() == token_count(remotes),
        entries_of(remotes, parts).contains(
            IdentityEntryView {
                auth_url: parts[i].0,
                resource: parts[i].1,
                identity: remotes[i].token[j],
            },
        ),
{
    lemma_entry_count(remotes, parts);
    lemma_listed(remotes, parts, i, j);
}

proof fn lemma_entry_count(
    remotes: Seq<RemoteIdentityView>,
    parts: Seq<(Seq<char>, Seq<char>)>,
)
    ensures
        entries_of(remotes, parts).len() == token_count(remotes),
    decreases remotes.len(),
{
    if remotes.len() > 0 {
        lemma_entry_count(remotes.drop_last(), parts);
    }
}

proof fn lemma_listed(
    remotes: Seq<RemoteIdentityView>,
    parts: Seq<(Seq<char>, Seq<char>)>,
    i: int,
    j: int,
)
    requires
        0 <= i < remotes.len(),
        0 <= j < remotes[i].token.len(),
    ensures
        entries_of(remotes, parts).contains(
            IdentityEntryView {
                auth_url: parts[i].0,
                resource: parts[i].1,
                identity: remotes[i].token[j],
            },
        ),
    decreases remotes.len(),
{
    let wanted = IdentityEntryView {
        auth_url: parts[i].0,
        resource: parts[i].1,
        identity: remotes[i].token[j],
    };
    let earlier = entries_of(remotes.drop_last(), parts);
    let all = entries_of(remotes, parts);
    if i < remotes.len() - 1 {
        lemma_listed(remotes.drop_last(), parts, i, j);
        let k = earlier.index_of(wanted);
        assert(all[k] == wanted);
    } else {
        assert(all[earlier.len() + j] == wanted);
    }
}

} // verus!
