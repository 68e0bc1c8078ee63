//! The connection to the authorization service that keeps the owners of repositories.
use vstd::arithmetic::power2::*;
use vstd::prelude::*;
use vstd::slice::*;
use vstd::string::*;

use crate::model;
use crate::status::{Code, Status, StatusView};
use crate::text;

verus! {

/// A refused call to the authorization service: its code, its message, and the whole of it written
/// out for a log.
#[derive(Debug)]
pub struct RebacFailure {
    pub code: Code,
    pub message: String,
    pub rendered: String,
}

/// The model of [`RebacFailure`].
pub struct RebacFailureView {
    pub code: Code,
    pub message: Seq<char>,
    pub rendered: Seq<char>,
}

impl View for RebacFailure {
    type V = RebacFailureView;

    open spec fn view(&self) -> RebacFailureView {
        RebacFailureView {
            code: self.code,
            message: self.message@,
            rendered: self.rendered@,
        }
    }
}

/// The part of a refusal that tells that a repository name lacks its organization.
pub open spec fn missing_context(message: Seq<char>) -> bool {
    exists|i: int| text::occurs_at(message, "Missing resource context in resourceName"@, i)
}

/// What the client is told after the service was asked to make the caller the owner of a
/// repository.
pub open spec fn create_resource_result(reply: Result<(), RebacFailureView>) -> Result<
    (),
    StatusView,
> {
    match reply {
        Ok(_) => Ok(()),
        Err(failure) => match failure.code {
            Code::AlreadyExists => Ok(()),
            Code::PermissionDenied => Err(
                StatusView {
                    code: Code::PermissionDenied,
                    message: "Failed to create repository, permission denied"@,
                },
            ),
            Code::Unauthenticated => Err(
                StatusView {
                    code: Code::Unauthenticated,
                    message: "Failed to create repository, reauthenticate"@,
                },
            ),
            Code::NotFound => Err(
                StatusView {
                    code: Code::FailedPrecondition,
                    message: "A required Auth entity was not found"@,
                },
            ),
            _ => if failure.code == Code::InvalidArgument && missing_context(failure.message) {
                Err(
                    StatusView {
                        code: Code::InvalidArgument,
                        message: "Invalid repository name - missing Organization context"@,
                    },
                )
            } else {
                Err(
                    StatusView {
                        code: Code::Internal,
                        message: "Failed to call auth create_resource: "@ + failure.rendered,
                    },
                )
            },
        },
    }
}

/// What the client is told after the service was asked whether a repository may be deleted.
pub open spec fn delete_resource_result(reply: Result<(), RebacFailureView>) -> Result<
    (),
    StatusView,
> {
    match reply {
        Ok(_) => Ok(()),
        Err(failure) => match failure.code {
            Code::PermissionDenied => Err(
                StatusView { code: Code::PermissionDenied, message: "Delete resource denied"@ },
            ),
            Code::Unauthenticated => Err(
                StatusView {
                    code: Code::Unauthenticated,
                    message: "Delete resource failed - unauthenticated"@,
                },
            ),
            _ => Err(
                StatusView {
                    code: Code::Internal,
                    message: "Failed to call auth delete_resource: "@ + failure.rendered,
                },
            ),
        },
    }
}

/// What the client is told after the service was told that a repository is gone.
pub open spec fn confirm_deleted_result(reply: Result<(), RebacFailureView>) -> Result<
    (),
    StatusView,
> {
    match reply {
        Ok(_) => Ok(()),
        Err(failure) => if failure.code == Code::PermissionDenied || failure.code
            == Code::Unauthenticated {
            Err(
                StatusView {
                    code: Code::PermissionDenied,
                    message: "Repository deletion confirmation denied"@,
                },
            )
        } else {
            Err(
                StatusView {
                    code: Code::Internal,
                    message: "Failed to confirm auth resource deletion: "@ + failure.rendered,
                },
            )
        },
    }
}

/// Tells the client what became of making the caller the owner of a repository.
///
/// An owner that was recorded before counts as success.
pub fn repository_create_auth_resource(reply: Result<(), RebacFailure>) -> (result: Result<
    (),
    Status,
>)
    ensures
        model::unit_result_view(result) == create_resource_result(model::unit_result_view(reply)),
{
    let failure = match reply {
        Ok(_) => return Ok(()),
        Err(failure) => failure,
    };
    match failure.code {
        Code::AlreadyExists => Ok(()),
        Code::PermissionDenied => Err(
            Status::new(Code::PermissionDenied, "Failed to create repository, permission denied"),
        ),
        Code::Unauthenticated => Err(
            Status::new(Code::Unauthenticated, "Failed to create repository, reauthenticate"),
        ),
        Code::NotFound => Err(
            Status::new(Code::FailedPrecondition, "A required Auth entity was not found"),
        ),
        _ => {
            if failure.code == Code::InvalidArgument && text::contains(
                failure.message.as_str(),
                "Missing resource context in resourceName",
            ) {
                Err(
                    Status::new(
                        Code::InvalidArgument,
                        "Invalid repository name - missing Organization context",
                    ),
                )
            } else {
                Err(
                    Status::with_detail(
                        Code::Internal,
                        "Failed to call auth create_resource: ",
                        failure.rendered.as_str(),
                    ),
                )
            }
        },
    }
}

/// Tells the client whether a repository may be deleted.
pub fn repository_delete_auth_resource(reply: Result<(), RebacFailure>) -> (result: Result<
    (),
    Status,
>)
    ensures
        model::unit_result_view(result) == delete_resource_result(model::unit_result_view(reply)),
{
    let failure = match reply {
        Ok(_) => return Ok(()),
        Err(failure) => failure,
    };
    match failure.code {
        Code::PermissionDenied => Err(
            Status::new(Code::PermissionDenied, "Delete resource denied"),
        ),
        Code::Unauthenticated => Err(
            Status::new(Code::Unauthenticated, "Delete resource failed - unauthenticated"),
        ),
        _ => Err(
            Status::with_detail(
                Code::Internal,
                "Failed to call auth delete_resource: ",
                failure.rendered.as_str(),
            ),
        ),
    }
}

/// Tells the client what became of confirming that a repository is gone.
pub fn repository_confirm_auth_resource_deleted(reply: Result<(), RebacFailure>) -> (result: Result<
    (),
    Status,
>)
    ensures
        model::unit_result_view(result) == confirm_deleted_result(model::unit_result_view(reply)),
{
    let failure = match reply {
        Ok(_) => return Ok(()),
        Err(failure) => failure,
    };
    if failure.code == Code::PermissionDenied || failure.code == Code::Unauthenticated {
        Err(Status::new(Code::PermissionDenied, "Repository deletion confirmation denied"))
    } else {
        Err(
            Status::with_detail(
                Code::Internal,
                "Failed to confirm auth resource deletion: ",
                failure.rendered.as_str(),
            ),
        )
    }
}

/// A URL over plain HTTP.
#[derive(Debug)]
pub struct HttpUrl {
    /// The host, with what stands before it in the authority.
    pub host: String,
    /// The port, empty where none is named.
    pub port: String,
    /// The path, the query and the fragment.
    pub tail: String,
}

/// The model of [`HttpUrl`].
pub struct HttpUrlView {
    pub host: Seq<char>,
    pub port: Seq<char>,
    pub tail: Seq<char>,
}

impl View for HttpUrl {
    type V = HttpUrlView;

    open spec fn view(&self) -> HttpUrlView {
        HttpUrlView { host: self.host@, port: self.port@, tail: self.tail@ }
    }
}

/// Whether the path, the query or the fragment of a URL begins with `c`, so that no authority holds
/// it.
pub open spec fn ends_authority(c: char) -> bool {
    c == '/' || c == '?' || c == '#'
}

/// The length of the authority with which `rest`, a URL without its scheme, begins.
pub open spec fn authority_len(rest: Seq<char>) -> nat
    decreases rest.len(),
{
    if rest.len() == 0 || ends_authority(rest[0]) {
        0
    } else {
        1 + authority_len(rest.drop_first())
    }
}

/// The position of the colon before the port of an authority: the last one, unless a closing bracket
/// or an at sign comes after it, so that it belongs to an address or to what stands before the host.
pub open spec fn port_colon(authority: Seq<char>) -> Option<int>
    decreases authority.len(),
{
    if authority.len() == 0 || authority.last() == ']' || authority.last() == '@' {
        None
    } else if authority.last() == ':' {
        Some(authority.len() - 1)
    } else {
        port_colon(authority.drop_last())
    }
}

/// The parts of a URL over plain HTTP.
pub open spec fn http_url(url: Seq<char>) -> Option<HttpUrlView> {
    if "http://"@.is_prefix_of(url) {
        let rest = url.skip("http://"@.len() as int);
        let authority = rest.take(authority_len(rest) as int);
        let tail = rest.skip(authority_len(rest) as int);
        Some(
            match port_colon(authority) {
                Some(i) => HttpUrlView {
                    host: authority.take(i),
                    port: authority.skip(i + 1),
                    tail,
                },
                None => HttpUrlView { host: authority, port: Seq::empty(), tail },
            },
        )
    } else {
        None
    }
}

/// The address of the service for `url`. Over plain HTTP, port 8087 is filled in where no port is
/// named, and a path of slashes only is then dropped. It takes the place of port 80 where nothing or
/// one slash follows.
pub open spec fn rebac_endpoint(url: Seq<char>) -> Seq<char> {
    match http_url(url) {
        Some(parts) => if parts.port.len() == 0 {
            "http://"@ + parts.host + ":8087"@ + (if text::trim_end(parts.tail, '/').len() == 0 {
                Seq::empty()
            } else {
                parts.tail
            })
        } else if parts.port == "80"@ && (parts.tail.len() == 0 || parts.tail == "/"@) {
            "http://"@ + parts.host + ":8087"@ + parts.tail
        } else {
            url
        },
        None => url,
    }
}

fn colon_of(authority: &[char]) -> (colon: Option<usize>)
    ensures
        match colon {
            Some(i) => i < authority@.len() && port_colon(authority@) == Some(i as int),
            None => port_colon(authority@) is None,
        },
{
    let mut n: usize = authority.len();
    assert(authority@.take(n as int) =~= authority@);
    while n > 0 && authority[n - 1] != ']' && authority[n - 1] != '@'
        invariant
            n <= authority@.len(),
            port_colon(authority@.take(n as int)) == port_colon(authority@),
        decreases n,
    {
        if authority[n - 1] == ':' {
            return Some(n - 1);
        }
        assert(authority@.take(n as int).drop_last() =~= authority@.take(n - 1));
        n = n - 1;
    }
    None
}

fn split_http_url(url: &str) -> (parts: Option<HttpUrl>)
    ensures
        model::opt_view(parts) == http_url(url@),
{
    let rest = match text::strip_prefix(url, "http://") {
        Some(rest) => text::chars_of(rest.as_str()),
        None => return None,
    };
    let mut n: usize = 0;
    assert(rest@.skip(0) =~= rest@);
    while n < rest.len() && rest[n] != '/' && rest[n] != '?' && rest[n] != '#'
        invariant
            n <= rest@.len(),
            authority_len(rest@) == n + authority_len(rest@.skip(n as int)),
        decreases rest@.len() - n,
    {
        assert(rest@.skip(n as int).drop_first() =~= rest@.skip(n + 1));
        n = n + 1;
    }
    let authority = slice_subrange(rest.as_slice(), 0, n);
    assert(authority@ =~= rest@.take(n as int));
    let after = slice_subrange(rest.as_slice(), n, rest.len());
    assert(after@ =~= rest@.skip(n as int));
    let tail = text::string_of(after);
    match colon_of(authority) {
        Some(i) => {
            let host = slice_subrange(authority, 0, i);
            assert(host@ =~= authority@.take(i as int));
            let port = slice_subrange(authority, i + 1, n);
            assert(port@ =~= authority@.skip(i + 1));
            Some(HttpUrl { host: text::string_of(host), port: text::string_of(port), tail })
        },
        None => {
            let port = String::new();
            assert(port@ =~= Seq::empty());
            Some(HttpUrl { host: text::string_of(authority), port, tail })
        },
    }
}

fn with_service_port(host: &str, tail: &str) -> (url: String)
    ensures
        url@ == "http://"@ + host@ + ":8087"@ + tail@,
{
    let mut url = "http://".to_owned();
    url.append(host);
    url.append(":8087");
    url.append(tail);
    url
}

/// Finds the address of the service: `override_url` where it is set, else `auth_url`, with the
/// port of the service filled in.
pub fn rebac_url(override_url: Option<String>, auth_url: String) -> (endpoint: String)
    ensures
        endpoint@ == rebac_endpoint(
            match override_url {
                Some(url) => url@,
                None => auth_url@,
            },
        ),
{
    let url = match override_url {
        Some(url) => url,
        None => auth_url,
    };
    match split_http_url(url.as_str()) {
        Some(parts) => {
            if parts.port.as_str().is_empty() {
                if text::trim_end_matches(parts.tail.as_str(), '/').as_str().is_empty() {
                    proof {
                        reveal_strlit("");
                        assert(""@ =~= Seq::<char>::empty());
                    }
                    with_service_port(parts.host.as_str(), "")
                } else {
                    with_service_port(parts.host.as_str(), parts.tail.as_str())
                }
            } else if text::same_text(parts.port.as_str(), "80") && (
            parts.tail.as_str().is_empty() || text::same_text(parts.tail.as_str(), "/")) {
                with_service_port(parts.host.as_str(), parts.tail.as_str())
            } else {
                url
            }
        },
        None => url,
    }
}

/// Whether `authority` holds nothing that ends an authority.
spec fn is_authority(authority: Seq<char>) -> bool {
    forall|i: int| 0 <= i < authority.len() ==> !ends_authority(#[trigger] authority[i])
}

proof fn lemma_authority(rest: Seq<char>)
    ensures
        authority_len(rest) <= rest.len(),
        is_authority(rest.take(authority_len(rest) as int)),
        authority_len(rest) < rest.len() ==> ends_authority(rest[authority_len(rest) as int]),
    decreases rest.len(),
{
    if rest.len() > 0 && !ends_authority(rest[0]) {
        let less = rest.drop_first();
        lemma_authority(less);
        let n = authority_len(rest) as int;
        assert forall|i: int| 0 <= i < n implies !ends_authority(#[trigger] rest.take(n)[i]) by {
            if i > 0 {
                assert(less.take(n - 1)[i - 1] == rest[i]);
            }
        }
    }
}

proof fn lemma_authority_len(authority: Seq<char>, tail: Seq<char>)
    requires
        is_authority(authority),
        tail.len() > 0 ==> ends_authority(tail[0]),
    ensures
        authority_len(authority + tail) == authority.len(),
    decreases authority.len(),
{
    let rest = authority + tail;
    if authority.len() > 0 {
        assert(!ends_authority(authority[0]));
        assert(rest.drop_first() =~= authority.drop_first() + tail);
        lemma_authority_len(authority.drop_first(), tail);
    }
}

proof fn lemma_colon(authority: Seq<char>)
    ensures
        port_colon(authority) matches Some(i) ==> 0 <= i < authority.len(),
    decreases authority.len(),
{
    if authority.len() > 0 {
        lemma_colon(authority.drop_last());
    }
}

proof fn lemma_service_port(host: Seq<char>, tail: Seq<char>)
    requires
        is_authority(host),
        tail.len() > 0 ==> ends_authority(tail[0]),
    ensures
        http_url("http://"@ + host + ":8087"@ + tail) == Some(
            HttpUrlView { host, port: "8087"@, tail },
        ),
{
    reveal_strlit("http://");
    reveal_strlit(":8087");
    reveal_strlit("8087");
    reveal_with_fuel(port_colon, 6);
    let authority = host + ":8087"@;
    let url = "http://"@ + host + ":8087"@ + tail;
    assert(url.skip("http://"@.len() as int) =~= authority + tail);
    assert("http://"@.is_prefix_of(url));
    lemma_authority_len(authority, tail);
    assert((authority + tail).take(authority.len() as int) =~= authority);
    assert((authority + tail).skip(authority.len() as int) =~= tail);
    assert(authority.drop_last().drop_last().drop_last().drop_last() =~= host.push(':'));
    assert(authority.take(host.len() as int) =~= host);
    assert(authority.skip(host.len() as int + 1) =~= "8087"@);
}

/// The address of the service for a URL over plain HTTP has the same host. It names port 8087 where
/// no port was named, whatever the path is, and where port 80 was named and nothing or one slash
/// follows; any other port stays.
pub proof fn service_keeps_the_host(url: Seq<char>)
    requires
        http_url(url) is Some,
    ensures
        http_url(rebac_endpoint(url)) matches Some(found) && {
            let named = http_url(url)->0;
            &&& found.host == named.host
            &&& found.port == (if named.port.len() == 0 || (named.port == "80"@ && (
            named.tail.len() == 0 || named.tail == "/"@)) {
                "8087"@
            } else {
                named.port
            })
        },
{
    let parts = http_url(url)->0;
    let rest = url.skip("http://"@.len() as int);
    let authority = rest.take(authority_len(rest) as int);
    lemma_authority(rest);
    lemma_colon(authority);
    assert(is_authority(parts.host)) by {
        assert forall|i: int| 0 <= i < parts.host.len() implies !ends_authority(
            #[trigger] parts.host[i],
        ) by {
            assert(parts.host[i] == authority[i]);
        }
    }
    assert(parts.tail.len() > 0 ==> ends_authority(parts.tail[0]));
    lemma_service_port(parts.host, parts.tail);
    lemma_service_port(parts.host, Seq::empty());
}

/// Whether the connection to `url` is encrypted.
pub fn uses_tls(url: &str) -> (tls: bool)
    ensures
        tls == "https://"@.is_prefix_of(url@),
{
    text::starts_with(url, "https://")
}

/// The number of attempts that `setting` allows: a positive number, or `default`.
pub open spec fn attempts_allowed(setting: Option<Seq<char>>, default: u32) -> u32 {
    match setting {
        Some(value) => match text::u32_value(value) {
            Some(n) => if n > 0 {
                n
            } else {
                default
            },
            None => default,
        },
        None => default,
    }
}

/// Reads how many attempts `setting` allows.
pub fn max_attempts(setting: Option<String>, default: u32) -> (n: u32)
    ensures
        n == attempts_allowed(model::opt_view(setting), default),
{
    match setting {
        Some(value) => match text::parse_u32(value.as_str()) {
            Some(n) => if n > 0 {
                n
            } else {
                default
            },
            None => default,
        },
        None => default,
    }
}

/// How long to wait, and for how long the waits may grow.
#[derive(Clone, Copy, Debug)]
pub struct Backoff {
    /// The first wait, in milliseconds.
    pub base_ms: u64,
    /// How often the wait doubles at most.
    pub doublings: u32,
}

impl Backoff {
    /// Whether no wait overflows.
    pub open spec fn wf(self) -> bool {
        self.doublings < 64 && self.base_ms * pow2(self.doublings as nat) <= u64::MAX
    }

    /// The wait after the given attempt, the first being 1.
    pub open spec fn wait_ms(self, attempt: u32) -> nat {
        self.base_ms as nat * pow2(
            if attempt - 1 < self.doublings {
                (attempt - 1) as nat
            } else {
                self.doublings as nat
            },
        )
    }
}

/// The waits between attempts to connect for a request.
pub fn connect_backoff() -> (backoff: Backoff)
    ensures
        backoff == (Backoff { base_ms: 250, doublings: 4 }),
        backoff.wf(),
{
    proof {
        lemma2_to64();
    }
    Backoff { base_ms: 250, doublings: 4 }
}

/// The waits between attempts to connect for a readiness probe.
pub fn readiness_backoff() -> (backoff: Backoff)
    ensures
        backoff == (Backoff { base_ms: 100, doublings: 3 }),
        backoff.wf(),
{
    proof {
        lemma2_to64();
    }
    Backoff { base_ms: 100, doublings: 3 }
}

/// What follows a failed attempt.
#[derive(Clone, Copy, Debug, PartialEq, Eq, Structural)]
pub enum Retry {
    /// Wait, then make the given attempt.
    After { wait_ms: u64, attempt: u32 },
    /// That was the last attempt.
    GiveUp,
}

/// What follows the failure of `attempt`, the first being 1, of `max` attempts.
pub open spec fn retry_after(backoff: Backoff, attempt: u32, max: u32) -> Retry {
    if attempt < max {
        Retry::After { wait_ms: backoff.wait_ms(attempt) as u64, attempt: (attempt + 1) as u32 }
    } else {
        Retry::GiveUp
    }
}

/// Decides what follows the failure of `attempt`, the first being 1, of `max` attempts.
pub fn after_failure(backoff: Backoff, attempt: u32, max: u32) -> (retry: Retry)
    requires
        backoff.wf(),
        attempt >= 1,
    ensures
        retry == retry_after(backoff, attempt, max),
        backoff.wait_ms(attempt) <= u64::MAX,
{
    let mut wait_ms: u64 = backoff.base_ms;
    let n: u32 = if attempt - 1 < backoff.doublings {
        attempt - 1
    } else {
        backoff.doublings
    };
    let mut i: u32 = 0;
    proof {
        lemma2_to64();
        assert(pow2(0) == 1);
        assert(backoff.base_ms * pow2(0) == backoff.base_ms) by (nonlinear_arith)
            requires
                pow2(0) == 1,
        ;
    }
    while i < n
        invariant
            i <= n <= backoff.doublings,
            backoff.wf(),
            wait_ms == backoff.base_ms * pow2(i as nat),
        decreases n - i,
    {
        proof {
            lemma_doubled(backoff.base_ms as nat, i as nat, backoff.doublings as nat);
        }
        wait_ms = wait_ms * 2;
        i = i + 1;
    }
    proof {
        lemma_wait_bound(backoff.base_ms as nat, n as nat, backoff.doublings as nat);
    }
    if attempt < max {
        Retry::After { wait_ms, attempt: attempt + 1 }
    } else {
        Retry::GiveUp
    }
}

proof fn lemma_wait_bound(base: nat, i: nat, n: nat)
    requires
        i <= n,
    ensures
        base * pow2(i) <= base * pow2(n),
    decreases n - i,
{
    if i < n {
        lemma_pow2_strictly_increases(i, n);
        assert(base * pow2(i) <= base * pow2(n)) by (nonlinear_arith)
            requires
                pow2(i) < pow2(n),
        ;
    }
}

proof fn lemma_doubled(base: nat, i: nat, n: nat)
    requires
        i < n,
    ensures
        base * pow2(i) * 2 == base * pow2(i + 1),
        base * pow2(i + 1) <= base * pow2(n),
{
    lemma_pow2_unfold(i + 1);
    assert(base * pow2(i) * 2 == base * (2 * pow2(i))) by (nonlinear_arith);
    lemma_wait_bound(base, i + 1, n);
}

/// The attempts that are made from `attempt` on when every one of them fails.
pub open spec fn failing_attempts(backoff: Backoff, attempt: u32, max: u32) -> nat
    decreases max - attempt,
{
    match retry_after(backoff, attempt, max) {
        Retry::After { attempt: next, .. } => 1 + failing_attempts(backoff, next, max),
        Retry::GiveUp => 1,
    }
}

/// A service that never answers is tried exactly as often as allowed.
pub proof fn attempts_are_exhausted(backoff: Backoff, max: u32)
    requires
        max >= 1,
    ensures
        failing_attempts(backoff, 1, max) == max,
{
    lemma_failing_attempts(backoff, 1, max);
}

proof fn lemma_failing_attempts(backoff: Backoff, attempt: u32, max: u32)
    requires
        1 <= attempt <= max,
    ensures
        failing_attempts(backoff, attempt, max) == max - attempt + 1,
    decreases max - attempt,
{
    if attempt < max {
        lemma_failing_attempts(backoff, (attempt + 1) as u32, max);
    }
}

/// Waits never shrink, and never exceed the first one doubled as often as allowed.
pub proof fn waits_grow_to_a_bound(backoff: Backoff, earlier: u32, later: u32)
    requires
        1 <= earlier <= later,
    ensures
        backoff.wait_ms(earlier) <= backoff.wait_ms(later),
        backoff.wait_ms(later) <= backoff.base_ms * pow2(backoff.doublings as nat),
{
    let cap = backoff.doublings as nat;
    let i = if earlier - 1 < cap {
        (earlier - 1) as nat
    } else {
        cap
    };
    let j = if later - 1 < cap {
        (later - 1) as nat
    } else {
        cap
    };
    lemma_wait_bound(backoff.base_ms as nat, i, j);
    lemma_wait_bound(backoff.base_ms as nat, j, cap);
}

/// Why no connection to the service could be made.
#[derive(Clone, Copy, Debug, PartialEq, Eq, Structural)]
pub enum ConnectFailure {
    /// The address cannot be used.
    Endpoint,
    /// An encrypted connection cannot be set up.
    Tls,
    /// The last attempt has failed.
    Unavailable,
}

impl ConnectFailure {
    /// What the client is told.
    pub fn status(self) -> (status: Status)
        ensures
            status@ == (StatusView {
                code: Code::Internal,
                message: match self {
                    ConnectFailure::Endpoint => "Failed to create rebac endpoint"@,
                    ConnectFailure::Tls => "Failed to configure TLS for rebac"@,
                    ConnectFailure::Unavailable => "Failed to connect to rebac service"@,
                },
            }),
    {
        match self {
            ConnectFailure::Endpoint => Status::new(
                Code::Internal,
                "Failed to create rebac endpoint",
            ),
            ConnectFailure::Tls => Status::new(
                Code::Internal,
                "Failed to configure TLS for rebac",
            ),
            ConnectFailure::Unavailable => Status::new(
                Code::Internal,
                "Failed to connect to rebac service",
            ),
        }
    }
}

} // verus!
