//! To which domains a token may be given.
use vstd::prelude::*;
use vstd::string::*;

use crate::model;
use crate::text;

verus! {

/// What a URL says of its host and its path.
#[derive(Debug)]
pub struct UrlParts {
    pub host: Option<String>,
    pub path: String,
}

/// The model of [`UrlParts`].
pub struct UrlPartsView {
    pub host: Option<Seq<char>>,
    pub path: Seq<char>,
}

impl View for UrlParts {
    type V = UrlPartsView;

    open spec fn view(&self) -> UrlPartsView {
        UrlPartsView { host: model::opt_view(self.host), path: self.path@ }
    }
}

/// The host and the path of a URL, where the text is one: what `url::Url::parse` reads.
pub uninterp spec fn url_parts(value: Seq<char>) -> Option<UrlPartsView>;

/// Calls `url::Url::parse`, and gives the host and the path, which is percent-encoded and so has
/// ASCII characters only. Nothing but the text is read.
#[verifier::external_body]
pub(crate) fn parse_url(value: &str) -> (r: Option<UrlParts>)
    ensures
        model::opt_view(r) == url_parts(value@),
        r matches Some(parts) ==> vstd::utf8::is_ascii_chars(parts.path@),
{
    let url = url::Url::parse(value).ok()?;
    Some(UrlParts { host: url.host_str().map(|host| host.to_owned()), path: url.path().to_owned() })
}

/// A host: a domain name or the text of an address.
#[derive(Debug)]
pub enum Host {
    Domain(String),
    Address(String),
}

/// The model of [`Host`].
pub enum HostView {
    Domain(Seq<char>),
    Address(Seq<char>),
}

impl View for Host {
    type V = HostView;

    open spec fn view(&self) -> HostView {
        match *self {
            Host::Domain(name) => HostView::Domain(name@),
            Host::Address(address) => HostView::Address(address@),
        }
    }
}

/// The host that a text writes, where it writes one: what `url::Host::parse` reads.
pub uninterp spec fn host_of(value: Seq<char>) -> Option<HostView>;

/// Calls `url::Host::parse`, which reads nothing but the text. Addresses of both kinds are given as
/// text.
#[verifier::external_body]
pub(crate) fn parse_host(value: &str) -> (r: Option<Host>)
    ensures
        model::opt_view(r) == host_of(value@),
{
    match url::Host::parse(value).ok()? {
        url::Host::Domain(domain) => Some(Host::Domain(domain)),
        url::Host::Ipv4(address) => Some(Host::Address(address.to_string())),
        url::Host::Ipv6(address) => Some(Host::Address(address.to_string())),
    }
}

/// The host to look at: that of the URL, where `value` is one that has a host, else `value` itself;
/// without dots at its end and in lower case.
pub open spec fn host_text(value: Seq<char>, url: Option<UrlPartsView>) -> Seq<char> {
    let host = match url {
        Some(parts) => match parts.host {
            Some(host) => host,
            None => value,
        },
        None => value,
    };
    text::lower(text::trim_end(host, '.'))
}

/// The form in which hosts are compared.
pub open spec fn domain_text(host: Option<HostView>) -> Option<Seq<char>> {
    match host {
        Some(HostView::Domain(name)) => Some(text::lower(text::trim_end(name, '.'))),
        Some(HostView::Address(address)) => Some(address),
        None => None,
    }
}

/// The form in which the domain of `value`, a URL or a bare host, is compared.
pub open spec fn normalized(value: Seq<char>) -> Option<Seq<char>> {
    let value = text::trim_white(value);
    if value.len() == 0 {
        None
    } else {
        domain_text(host_of(host_text(value, url_parts(value))))
    }
}

/// Whether `domain` is `root` or a domain below it.
pub open spec fn is_under(domain: Seq<char>, root: Seq<char>) -> bool {
    domain == root || ("."@ + root).is_suffix_of(domain)
}

/// Whether `domain` is one of `roots` or a domain below one of them, where each is the form of a
/// domain if it has one.
pub open spec fn is_under_any(domain: Option<Seq<char>>, roots: Seq<Option<Seq<char>>>) -> bool {
    domain is Some && exists|i: int|
        0 <= i < roots.len() && (#[trigger] roots[i]) is Some && is_under(domain->0, roots[i]->0)
}

/// The form of each of `values`.
pub open spec fn all_normalized(values: Seq<Seq<char>>) -> Seq<Option<Seq<char>>> {
    values.map_values(|value: Seq<char>| normalized(value))
}

/// Whether the domain of `domain` is the domain of one of `root_domains` or below one of them.
pub open spec fn in_root_domains(domain: Seq<char>, root_domains: Seq<Seq<char>>) -> bool {
    is_under_any(normalized(domain), all_normalized(root_domains))
}

/// Gives the host to look at.
pub fn select_host(value: &str, url: Option<UrlParts>) -> (host: String)
    ensures
        host@ == host_text(value@, model::opt_view(url)),
{
    let host = match url {
        Some(parts) => match parts.host {
            Some(host) => host,
            None => value.to_owned(),
        },
        None => value.to_owned(),
    };
    text::to_ascii_lowercase(text::trim_end_matches(host.as_str(), '.').as_str())
}

/// The host of a URL, empty where there is none.
pub open spec fn host_or_nothing(url: Option<UrlPartsView>) -> Seq<char> {
    match url {
        Some(parts) => match parts.host {
            Some(host) => host,
            None => Seq::empty(),
        },
        None => Seq::empty(),
    }
}

/// Gives the host of a URL, empty where there is none.
pub fn host_or_empty(url: Option<UrlParts>) -> (host: String)
    ensures
        host@ == host_or_nothing(model::opt_view(url)),
{
    match url {
        Some(parts) => match parts.host {
            Some(host) => host,
            None => String::new(),
        },
        None => String::new(),
    }
}

/// Gives the domain of the URL that `value` is, empty where it is none or has no host.
pub fn get_domain_or_empty(value: &str) -> (domain: String)
    ensures
        domain@ == host_or_nothing(url_parts(value@)),
{
    host_or_empty(parse_url(value))
}

/// Gives the form in which hosts are compared.
pub fn comparable_host(host: Option<Host>) -> (domain: Option<String>)
    ensures
        model::opt_view(domain) == domain_text(model::opt_view(host)),
{
    match host {
        Some(Host::Domain(name)) => Some(
            text::to_ascii_lowercase(text::trim_end_matches(name.as_str(), '.').as_str()),
        ),
        Some(Host::Address(address)) => Some(address),
        None => None,
    }
}

/// Gives the form in which the domain of `value` is compared.
pub fn normalized_domain(value: &str) -> (domain: Option<String>)
    ensures
        model::opt_view(domain) == normalized(value@),
{
    let trimmed = text::trim(value);
    if trimmed.as_str().is_empty() {
        return None;
    }
    let url = parse_url(trimmed.as_str());
    let host = select_host(trimmed.as_str(), url);
    comparable_host(parse_host(host.as_str()))
}

/// Whether `domain` is `root` or a domain below it.
pub fn domain_is_under(domain: &str, root: &str) -> (r: bool)
    ensures
        r == is_under(domain@, root@),
{
    if text::same_text(domain, root) {
        return true;
    }
    let mut suffix = ".".to_owned();
    suffix.append(root);
    text::ends_with(domain, suffix.as_str())
}

/// Whether `domain` is one of `roots` or a domain below one of them.
pub fn domain_is_under_any(domain: &Option<String>, roots: &Vec<Option<String>>) -> (r: bool)
    ensures
        r == is_under_any(
            model::opt_view(*domain),
            model::opt_views(roots@),
        ),
{
    let ghost forms = model::opt_views(roots@);
    let name = match domain {
        Some(name) => name,
        None => return false,
    };
    let mut i: usize = 0;
    while i < roots.len()
        invariant
            model::opt_view(*domain) == Some(name@),
            i <= roots@.len(),
            forms == model::opt_views(roots@),
            forall|j: int|
                0 <= j < i ==> !((#[trigger] forms[j]) is Some && is_under(name@, forms[j]->0)),
        decreases roots@.len() - i,
    {
        assert(forms[i as int] == model::opt_view(roots@[i as int]));
        if let Some(root) = &roots[i] {
            if domain_is_under(name.as_str(), root.as_str()) {
                return true;
            }
        }
        i = i + 1;
    }
    false
}

/// Whether the domain of `domain` is the domain of one of `root_domains` or below one of them.
pub fn domain_in_root_domains(domain: &str, root_domains: &Vec<String>) -> (r: bool)
    ensures
        r == in_root_domains(domain@, model::seq_view(root_domains@)),
{
    let ghost values = model::seq_view(root_domains@);
    let normal = normalized_domain(domain);
    let mut roots: Vec<Option<String>> = Vec::new();
    let mut i: usize = 0;
    while i < root_domains.len()
        invariant
            i <= root_domains@.len(),
            roots@.len() == i,
            values == model::seq_view(root_domains@),
            forall|j: int|
                0 <= j < i ==> model::opt_view(#[trigger] roots@[j]) == normalized(values[j]),
        decreases root_domains@.len() - i,
    {
        assert(values[i as int] == root_domains@[i as int]@);
        roots.push(normalized_domain(root_domains[i].as_str()));
        i = i + 1;
    }
    assert(model::opt_views(roots@) =~= all_normalized(
        values,
    ));
    domain_is_under_any(&normal, &roots)
}

/// A domain that merely ends with the letters of another is not below it: what stands before must
/// be empty or end with a dot.
pub proof fn subdomain_needs_label_boundary(front: Seq<char>, root: Seq<char>)
    ensures
        is_under(front + root, root) <==> front.len() == 0 || front.last() == '.',
{
    reveal_strlit(".");
    let domain = front + root;
    let suffix = "."@ + root;
    if front.len() == 0 {
        assert(domain =~= root);
    } else {
        assert(domain.len() != root.len());
        let from = domain.len() - suffix.len();
        if front.last() == '.' {
            assert(domain.subrange(from as int, domain.len() as int) =~= suffix);
        }
        if suffix.is_suffix_of(domain) {
            assert(suffix[0] == domain[from as int]);
            assert(domain[from as int] == front.last());
        }
    }
}

/// To accept more roots never refuses a domain that was accepted.
pub proof fn more_roots_accept_more(domain: Seq<char>, roots: Seq<Seq<char>>, more: Seq<Seq<char>>)
    requires
        in_root_domains(domain, roots),
        forall|i: int| 0 <= i < roots.len() ==> more.contains(#[trigger] roots[i]),
    ensures
        in_root_domains(domain, more),
{
    let forms = all_normalized(roots);
    let i = choose|i: int|
        0 <= i < forms.len() && (#[trigger] forms[i]) is Some && is_under(
            normalized(domain)->0,
            forms[i]->0,
        );
    assert(more.contains(roots[i]));
    let j = more.index_of(roots[i]);
    assert(all_normalized(more)[j] == forms[i]);
}

} // verus!
