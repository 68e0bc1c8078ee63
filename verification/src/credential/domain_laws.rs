//! What holds of the domains that a token may be given to, said of the names themselves.
use vstd::prelude::*;

use crate::credential::domain;
use crate::credential::domain::{Host, HostView, UrlParts, UrlPartsView};
use crate::credential::jwt::JWTUserInfo;
use crate::credential::token_map;
use crate::credential::token_map::IdentityTokenView;
use crate::text;

verus! {

/// A domain is under a root exactly where it is some front followed by the root, and the front is
/// empty or ends with a dot.
pub proof fn domain_under_a_root_ends_with_it(domain: Seq<char>, root: Seq<char>)
    ensures
        domain::is_under(domain, root) <==> exists|front: Seq<char>|
            domain == #[trigger] (front + root) && (front.len() == 0 || front[front.len() - 1]
                == '.'),
{
    reveal_strlit(".");
    let suffix = "."@ + root;
    if domain::is_under(domain, root) {
        if domain == root {
            assert(domain =~= Seq::<char>::empty() + root);
        } else {
            let n = domain.len() - suffix.len();
            let front = domain.take(n + 1);
            let end = domain.subrange(n, domain.len() as int);
            assert(end == suffix);
            assert(front[n] == end[0]);
            assert(domain =~= front + root) by {
                assert forall|i: int| 0 <= i < domain.len() implies domain[i] == (front + root)[i] by {
                    if i > n {
                        assert(end[i - n] == suffix[i - n]);
                    }
                }
            }
        }
    }
    if exists|front: Seq<char>|
        domain == #[trigger] (front + root) && (front.len() == 0 || front[front.len() - 1] == '.') {
        let front = choose|front: Seq<char>|
            domain == #[trigger] (front + root) && (front.len() == 0 || front[front.len() - 1]
                == '.');
        domain::subdomain_needs_label_boundary(front, root);
    }
}

/// A domain that is not longer than a root is under it only where the two are the same: no token
/// goes to a parent of the domain that it is meant for.
pub proof fn parents_and_siblings_are_not_under(domain: Seq<char>, root: Seq<char>)
    ensures
        domain::is_under(domain, root) ==> domain.len() >= root.len() && domain.skip(
            domain.len() - root.len(),
        ) == root,
        domain::is_under(domain, root) && domain::is_under(root, domain) ==> domain == root,
        domain.len() <= root.len() && domain != root ==> !domain::is_under(domain, root),
{
    domain_under_a_root_ends_with_it(domain, root);
    domain_under_a_root_ends_with_it(root, domain);
    if domain::is_under(domain, root) {
        let front = choose|front: Seq<char>|
            domain == #[trigger] (front + root) && (front.len() == 0 || front[front.len() - 1]
                == '.');
        assert(domain.skip(domain.len() - root.len()) =~= root);
        if domain.len() == root.len() {
            assert(domain =~= root);
        }
    }
}

/// Whether `form` is some front followed by `root`, where the front is empty or ends with a dot.
pub open spec fn ends_with_root(form: Seq<char>, root: Seq<char>) -> bool {
    exists|front: Seq<char>|
        form == #[trigger] (front + root) && (front.len() == 0 || front[front.len() - 1] == '.')
}

/// A domain is accepted exactly where its form is that of one of the roots, or ends with a dot and
/// it. What has no form, as the roots that have none, is never accepted.
pub proof fn accepted_domain_ends_with_a_root(domain: Seq<char>, roots: Seq<Seq<char>>)
    ensures
        domain::in_root_domains(domain, roots) <==> domain::normalized(domain) is Some && exists|
            i: int,
        |
            0 <= i < roots.len() && domain::normalized(#[trigger] roots[i]) is Some
                && ends_with_root(domain::normalized(domain)->0, domain::normalized(roots[i])->0),
{
    let forms = domain::all_normalized(roots);
    let form = domain::normalized(domain)->0;
    assert forall|i: int| 0 <= i < roots.len() && (#[trigger] forms[i]) is Some implies forms[i]
        == domain::normalized(roots[i]) && (domain::is_under(form, forms[i]->0) <==> ends_with_root(
        form,
        domain::normalized(roots[i])->0,
    )) by {
        domain_under_a_root_ends_with_it(form, forms[i]->0);
    }
    if domain::in_root_domains(domain, roots) {
        let i = choose|i: int|
            0 <= i < forms.len() && (#[trigger] forms[i]) is Some && domain::is_under(
                form,
                forms[i]->0,
            );
        assert(domain::normalized(roots[i]) is Some);
    }
    if domain::normalized(domain) is Some && exists|i: int|
        0 <= i < roots.len() && domain::normalized(#[trigger] roots[i]) is Some && ends_with_root(
            form,
            domain::normalized(roots[i])->0,
        ) {
        let i = choose|i: int|
            0 <= i < roots.len() && domain::normalized(#[trigger] roots[i]) is Some
                && ends_with_root(form, domain::normalized(roots[i])->0);
        assert(forms[i] is Some);
    }
}

/// The host that is compared is that of the URL where there is one, else the text itself, without the
/// dots at its end and in small letters.
pub proof fn compared_host_is_that_of_the_url(value: Seq<char>, url: Option<UrlParts>)
    ensures
        ({
            let host = match url {
                Some(parts) => match parts.host {
                    Some(host) => host@,
                    None => value,
                },
                None => value,
            };
            domain::host_text(value, crate::model::opt_view(url)) == text::lower(
                text::trim_end(host, '.'),
            )
        }),
        url matches Some(parts) ==> parts@.path == parts.path@,
{
}

/// A domain is under one of several roots exactly where it and one of them have a form, and it ends
/// with that root.
pub proof fn one_root_is_enough(domain: Option<Seq<char>>, roots: Seq<Option<Seq<char>>>)
    ensures
        domain::is_under_any(domain, roots) <==> domain is Some && exists|i: int|
            0 <= i < roots.len() && (#[trigger] roots[i]) is Some && ends_with_root(
                domain->0,
                roots[i]->0,
            ),
{
    assert forall|i: int| 0 <= i < roots.len() && domain is Some && (
    #[trigger] roots[i]) is Some implies (domain::is_under(domain->0, roots[i]->0)
        <==> ends_with_root(domain->0, roots[i]->0)) by {
        domain_under_a_root_ends_with_it(domain->0, roots[i]->0);
    }
}

/// A token with these claims is meant for the domain of its issuer and for its audience, in order.
pub proof fn token_is_meant_for_issuer_and_audience(jwt: JWTUserInfo, i: int)
    requires
        0 <= i < jwt.audience@.len(),
    ensures
        jwt.root_domains().len() == 1 + jwt.audience@.len(),
        jwt.root_domains()[0] == jwt.issuer@,
        jwt.root_domains()[i + 1] == jwt.audience@[i]@,
{
}

/// The form of a host is its name, without the dots at its end and in small letters, or its address
/// as it is; what is no host has none.
pub proof fn form_of_a_host(host: Option<Host>)
    ensures
        domain::domain_text(crate::model::opt_view(host)) == match host {
            Some(Host::Domain(name)) => Some(text::lower(text::trim_end(name@, '.'))),
            Some(Host::Address(address)) => Some(address@),
            None => None,
        },
{
}

/// White space around a domain makes no difference, what is nothing else has no form, and the form of
/// anything else is that of its host.
pub proof fn white_space_makes_no_difference(value: Seq<char>)
    ensures
        ({
            let trimmed = text::trim_white(value);
            if trimmed.len() == 0 {
                domain::normalized(value) is None
            } else {
                let host = match domain::url_parts(trimmed) {
                    Some(parts) => match parts.host {
                        Some(host) => host,
                        None => trimmed,
                    },
                    None => trimmed,
                };
                domain::normalized(value) == match domain::host_of(
                    text::lower(text::trim_end(host, '.')),
                ) {
                    Some(HostView::Domain(name)) => Some(text::lower(text::trim_end(name, '.'))),
                    Some(HostView::Address(address)) => Some(address),
                    None => None,
                }
            }
        }),
{
}

/// The domain of an endpoint is the host of its URL, and nothing where it is no URL or has no host.
pub proof fn domain_of_an_endpoint_is_its_host(url: Option<UrlPartsView>)
    ensures
        match url {
            Some(parts) => match parts.host {
                Some(host) => domain::host_or_nothing(url) == host,
                None => domain::host_or_nothing(url).len() == 0,
            },
            None => domain::host_or_nothing(url).len() == 0,
        },
{
}

/// A token is given to a domain exactly where it names a root that the domain is accepted under; one
/// that names none, as older ones do, only outside the strict mode.
pub proof fn token_is_given_to_its_recipients(
    recipient: Seq<char>,
    strict: bool,
    token: IdentityTokenView,
)
    ensures
        token_map::for_recipient(recipient, strict)(token) <==> {
            ||| token.acceptable_root_domains.len() == 0 && !strict
            ||| token.acceptable_root_domains.len() > 0 && domain::in_root_domains(
                recipient,
                token.acceptable_root_domains,
            )
        },
        token_map::every_token()(token),
{
}

} // verus!
