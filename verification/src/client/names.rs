//! The names of the users whose identities are listed.
//!
//! Names are asked for once per authentication service, with every user only once.
use vstd::prelude::*;

use crate::client::auth;
use crate::client::auth::{CollectedIdentity, Line, LineView};
use crate::model;
use crate::text;

verus! {

/// The users whose names are asked for at a service.
#[derive(Debug)]
pub struct EndpointUsers {
    pub auth_url: String,
    pub user_ids: Vec<String>,
}

/// The model of [`EndpointUsers`].
pub struct EndpointUsersView {
    pub auth_url: Seq<char>,
    pub user_ids: Seq<Seq<char>>,
}

impl View for EndpointUsers {
    type V = EndpointUsersView;

    open spec fn view(&self) -> EndpointUsersView {
        EndpointUsersView { auth_url: self.auth_url@, user_ids: model::seq_view(self.user_ids@) }
    }
}

/// Whether each text stands before those that follow it; so none occurs twice.
pub open spec fn in_order(texts: Seq<Seq<char>>) -> bool {
    forall|i: int, j: int|
        0 <= i < j < texts.len() ==> text::text_before(#[trigger] texts[i], #[trigger] texts[j])
}

/// Whether one of `identities` is that of `user_id` at `auth_url`.
pub open spec fn is_listed(
    identities: Seq<CollectedIdentity>,
    auth_url: Seq<char>,
    user_id: Seq<char>,
) -> bool {
    exists|i: int|
        0 <= i < identities.len() && (#[trigger] identities[i]).auth_url@ == auth_url
            && identities[i].user_id@ == user_id
}

/// Whether `groups` holds exactly the users of `identities`, by service: no service twice, the users
/// of each in order, and each user at each service where one of the identities is.
pub open spec fn is_grouping(
    identities: Seq<CollectedIdentity>,
    groups: Seq<EndpointUsersView>,
) -> bool {
    &&& forall|i: int, j: int|
        0 <= i < j < groups.len() ==> (#[trigger] groups[i]).auth_url != (#[trigger] groups[j]).auth_url
    &&& forall|i: int| 0 <= i < groups.len() ==> in_order((#[trigger] groups[i]).user_ids)
    &&& forall|i: int| 0 <= i < groups.len() ==> (#[trigger] groups[i]).user_ids.len() > 0
    &&& forall|i: int, user_id: Seq<char>|
        0 <= i < groups.len() && (#[trigger] groups[i]).user_ids.contains(user_id) ==> #[trigger]
            is_listed(identities, groups[i].auth_url, user_id)
    &&& forall|k: int|
        0 <= k < identities.len() ==> is_grouped(groups, #[trigger] identities[k])
}

/// Whether the user of `identity` is in the group of its service.
pub open spec fn is_grouped(groups: Seq<EndpointUsersView>, identity: CollectedIdentity) -> bool {
    exists|i: int|
        0 <= i < groups.len() && (#[trigger] groups[i]).auth_url == identity.auth_url@
            && groups[i].user_ids.contains(identity.user_id@)
}

/// Puts a text into its place, unless it is there.
fn insert_in_order(texts: &mut Vec<String>, new: &str)
    requires
        in_order(model::seq_view(old(texts)@)),
    ensures
        in_order(model::seq_view(final(texts)@)),
        model::seq_view(final(texts)@).len() > 0,
        forall|t: Seq<char>| #[trigger]
            model::seq_view(final(texts)@).contains(t) <==> model::seq_view(old(texts)@).contains(t)
                || t == new@,
{
    let ghost before = model::seq_view(texts@);
    let ghost all = texts@;
    let mut i: usize = 0;
    while i < texts.len() && text::text_less(texts[i].as_str(), new)
        invariant
            texts@ == all,
            before == model::seq_view(all),
            i <= texts@.len(),
            forall|j: int| 0 <= j < i ==> text::text_before(#[trigger] before[j], new@),
        decreases texts@.len() - i,
    {
        assert(before[i as int] == texts@[i as int]@);
        i = i + 1;
    }
    if i < texts.len() && text::same_text(texts[i].as_str(), new) {
        assert(before[i as int] == new@);
        return ;
    }
    proof {
        assert forall|j: int| i <= j < before.len() implies text::text_before(
            new@,
            #[trigger] before[j],
        ) by {
            assert(before[i as int] == texts@[i as int]@);
            text::lemma_text_order(before[i as int], new@, new@);
            if j > i {
                text::lemma_text_order(new@, before[i as int], before[j]);
            }
        }
    }
    let owned = new.to_owned();
    texts.insert(i, owned);
    proof {
        let after = model::seq_view(texts@);
        assert(after =~= before.insert(i as int, new@));
        assert forall|a: int, b: int| 0 <= a < b < after.len() implies text::text_before(
            #[trigger] after[a],
            #[trigger] after[b],
        ) by {
            let x = if a < i { a } else { a - 1 };
            let y = if b < i { b } else { b - 1 };
            if a != i && b != i {
                assert(text::text_before(before[x], before[y]));
            }
        }
        assert forall|t: Seq<char>| #[trigger] after.contains(t) <==> before.contains(t) || t
            == new@ by {
            if after.contains(t) {
                let k = after.index_of(t);
                if k < i {
                    assert(before[k] == t);
                } else if k > i {
                    assert(before[k - 1] == t);
                }
            }
            if before.contains(t) {
                let k = before.index_of(t);
                if k < i {
                    assert(after[k] == t);
                } else {
                    assert(after[k + 1] == t);
                }
            }
            assert(after[i as int] == new@);
        }
    }
}

fn find_group(groups: &Vec<EndpointUsers>, auth_url: &str) -> (r: Option<usize>)
    ensures
        match r {
            Some(i) => i < groups@.len() && groups@[i as int].auth_url@ == auth_url@,
            None => forall|i: int|
                0 <= i < groups@.len() ==> (#[trigger] groups@[i]).auth_url@ != auth_url@,
        },
{
    let mut i: usize = 0;
    while i < groups.len()
        invariant
            i <= groups@.len(),
            forall|j: int| 0 <= j < i ==> (#[trigger] groups@[j]).auth_url@ != auth_url@,
        decreases groups@.len() - i,
    {
        if text::same_text(groups[i].auth_url.as_str(), auth_url) {
            return Some(i);
        }
        i = i + 1;
    }
    None
}

/// Adds the user of one more identity to the groups.
fn add_to_group(
    groups: &mut Vec<EndpointUsers>,
    identities: &Vec<CollectedIdentity>,
    at: usize,
)
    requires
        at < identities@.len(),
        is_grouping(identities@.take(at as int), model::seq_view(old(groups)@)),
    ensures
        is_grouping(identities@.take(at + 1), model::seq_view(final(groups)@)),
{
    let ghost earlier = identities@.take(at as int);
    let ghost all = identities@.take(at + 1);
    let ghost before = model::seq_view(groups@);
    let identity = &identities[at];
    let ghost url = identity.auth_url@;
    let ghost user = identity.user_id@;
    assert(all =~= earlier.push(*identity));
    assert(all[at as int] == *identity);
    proof {
        assert forall|u: Seq<char>, id: Seq<char>| #[trigger] is_listed(earlier, u, id) implies is_listed(
            all,
            u,
            id,
        ) by {
            let i = choose|i: int|
                0 <= i < earlier.len() && (#[trigger] earlier[i]).auth_url@ == u
                    && earlier[i].user_id@ == id;
            assert(all[i] == earlier[i]);
        }
        assert(is_listed(all, url, user));
    }
    let ghost mut changed: int = 0;
    match find_group(groups, identity.auth_url.as_str()) {
        Some(i) => {
            assert(before[i as int] == groups@[i as int]@);
            let mut group = groups.remove(i);
            assert(in_order(before[i as int].user_ids));
            insert_in_order(&mut group.user_ids, identity.user_id.as_str());
            groups.insert(i, group);
            proof {
                changed = i as int;
                assert(model::seq_view(groups@) =~= before.update(i as int, group@));
            }
        },
        None => {
            let mut user_ids: Vec<String> = Vec::new();
            assert(in_order(model::seq_view(user_ids@)));
            assert(model::seq_view(user_ids@) =~= seq![]);
            insert_in_order(&mut user_ids, identity.user_id.as_str());
            let group = EndpointUsers { auth_url: identity.auth_url.clone(), user_ids };
            groups.push(group);
            proof {
                changed = before.len() as int;
                assert(model::seq_view(groups@) =~= before.push(group@));
                assert forall|i: int| 0 <= i < before.len() implies (#[trigger] before[i]).auth_url
                    != url by {
                    assert(before[i].auth_url == groups@[i].auth_url@);
                }
            }
        },
    }
    proof {
        let after = model::seq_view(groups@);
        assert(after[changed].auth_url == url);
        assert(after[changed].user_ids.contains(user));
        assert forall|i: int, j: int| 0 <= i < j < after.len() implies (#[trigger] after[i]).auth_url
            != (#[trigger] after[j]).auth_url by {
            if i < before.len() && j < before.len() {
                assert(before[i].auth_url != before[j].auth_url);
            }
        }
        assert forall|i: int| 0 <= i < after.len() implies in_order((#[trigger] after[i]).user_ids)
            && after[i].user_ids.len() > 0 by {
            if i != changed {
                assert(after[i] == before[i]);
            }
        }
        assert forall|i: int, id: Seq<char>|
            0 <= i < after.len() && (#[trigger] after[i]).user_ids.contains(id) implies #[trigger] is_listed(
            all,
            after[i].auth_url,
            id,
        ) by {
            if i < before.len() && before[i].user_ids.contains(id) {
                assert(is_listed(earlier, before[i].auth_url, id));
            } else {
                assert(i == changed && id == user);
            }
        }
        assert forall|k: int| 0 <= k < all.len() implies is_grouped(after, #[trigger] all[k]) by {
            if k < at {
                assert(all[k] == earlier[k]);
                assert(is_grouped(before, earlier[k]));
                let i = choose|i: int|
                    0 <= i < before.len() && (#[trigger] before[i]).auth_url == earlier[k].auth_url@
                        && before[i].user_ids.contains(earlier[k].user_id@);
                assert(after[i].auth_url == before[i].auth_url);
                assert(after[i].user_ids.contains(earlier[k].user_id@));
            } else {
                assert(after[changed].auth_url == url);
            }
        }
    }
}

/// Groups the users of `identities` by service.
pub fn group_user_ids(identities: &Vec<CollectedIdentity>) -> (groups: Vec<EndpointUsers>)
    ensures
        is_grouping(identities@, model::seq_view(groups@)),
{
    let mut groups: Vec<EndpointUsers> = Vec::new();
    let mut i: usize = 0;
    assert(is_grouping(identities@.take(0), model::seq_view(groups@)));
    while i < identities.len()
        invariant
            i <= identities@.len(),
            is_grouping(identities@.take(i as int), model::seq_view(groups@)),
        decreases identities@.len() - i,
    {
        add_to_group(&mut groups, identities, i);
        i = i + 1;
    }
    assert(identities@.take(i as int) =~= identities@);
    groups
}

/// The name of a user among those that were answered: the last one.
pub open spec fn name_of(names: Seq<(Seq<char>, Seq<char>)>, user_id: Seq<char>) -> Option<Seq<char>>
    decreases names.len(),
{
    if names.len() == 0 {
        None
    } else if names.last().0 == user_id {
        Some(names.last().1)
    } else {
        name_of(names.drop_last(), user_id)
    }
}

/// The views of pairs of a user and a name.
pub open spec fn name_views(names: Seq<(String, String)>) -> Seq<(Seq<char>, Seq<char>)> {
    names.map_values(|pair: (String, String)| (pair.0@, pair.1@))
}

/// Finds the name of a user among those that were answered.
pub fn find_name(names: &Vec<(String, String)>, user_id: &str) -> (name: Option<String>)
    ensures
        model::opt_view(name) == name_of(name_views(names@), user_id@),
{
    let ghost views = name_views(names@);
    let mut i: usize = names.len();
    assert(views.take(i as int) =~= views);
    while i > 0
        invariant
            i <= names@.len(),
            views == name_views(names@),
            name_of(views, user_id@) == name_of(views.take(i as int), user_id@),
        decreases i,
    {
        i = i - 1;
        assert(views.take(i + 1).last() == views[i as int]);
        assert(views[i as int] == (names@[i as int].0@, names@[i as int].1@));
        assert(views.take(i + 1).drop_last() =~= views.take(i as int));
        if text::same_text(names[i].0.as_str(), user_id) {
            return Some(names[i].1.clone());
        }
    }
    None
}

/// Gives the names that were answered, where asking for them ended with `status`: none where it
/// failed.
pub fn resolve_user_ids(status: u8, names: Vec<(String, String)>) -> (resolved: Vec<
    (String, String),
>)
    ensures
        status == 0 ==> resolved == names,
        status != 0 ==> resolved@.len() == 0,
{
    if status != 0 {
        Vec::new()
    } else {
        names
    }
}

/// The lines of the listed identities, one after the other, with the names that are known.
pub open spec fn listing(
    identities: Seq<CollectedIdentity>,
    names: Seq<(Seq<char>, Seq<char>)>,
) -> Seq<LineView>
    decreases identities.len(),
{
    if identities.len() == 0 {
        seq![]
    } else {
        let last = identities.last();
        listing(identities.drop_last(), names) + auth::identity_view(
            last,
            name_of(names, last.user_id@),
            auth::expiry(last.expires),
        )
    }
}

/// Gives the lines of the listed identities, with the names that are known.
pub fn handle_list_command(
    identities: &Vec<CollectedIdentity>,
    names: &Vec<(String, String)>,
) -> (lines: Vec<Line>)
    requires
        forall|i: int|
            0 <= i < identities@.len() ==> auth::can_show((#[trigger] identities@[i]).expires),
    ensures
        model::seq_view(lines@) == listing(identities@, name_views(names@)),
{
    let ghost known = name_views(names@);
    let mut lines: Vec<Line> = Vec::new();
    let mut i: usize = 0;
    assert(identities@.take(0) =~= Seq::<CollectedIdentity>::empty());
    assert(model::seq_view(lines@) =~= listing(identities@.take(0), known));
    while i < identities.len()
        invariant
            i <= identities@.len(),
            known == name_views(names@),
            forall|j: int|
                0 <= j < identities@.len() ==> auth::can_show((#[trigger] identities@[j]).expires),
            model::seq_view(lines@) == listing(identities@.take(i as int), known),
        decreases identities@.len() - i,
    {
        let ghost before = lines@;
        let name = find_name(names, identities[i].user_id.as_str());
        let mut more = auth::identity_lines(&identities[i], &name);
        let ghost added = more@;
        lines.append(&mut more);
        proof {
            assert(lines@ =~= before + added);
            assert(model::seq_view(lines@) =~= model::seq_view(before) + model::seq_view(added));
            assert(identities@.take(i + 1).drop_last() =~= identities@.take(i as int));
            assert(identities@.take(i + 1).last() == identities@[i as int]);
        }
        i = i + 1;
    }
    assert(identities@.take(i as int) =~= identities@);
    lines
}

} // verus!
