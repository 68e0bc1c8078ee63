//! What holds of the connection to the authorization service and of the readiness probe, said of the
//! addresses, the answers and the waits.
use vstd::arithmetic::power2::*;
use vstd::prelude::*;

use crate::ids::{Context, RepositoryId};
use crate::model;
use crate::server::health;
use crate::server::jwt;
use crate::server::jwt::AuthorizationToken;
use crate::server::rebac;
use crate::server::rebac::{Backoff, RebacFailure, Retry};
use crate::server::repository_metadata_get;
use crate::status::{Code, Status, StatusView};
use crate::text;

verus! {

/// Whether `s` holds `part` somewhere.
pub open spec fn holds(s: Seq<char>, part: Seq<char>) -> bool {
    exists|front: Seq<char>, back: Seq<char>| s == #[trigger] (front + part + back)
}

proof fn lemma_holds(s: Seq<char>, part: Seq<char>)
    ensures
        holds(s, part) <==> exists|i: int| text::occurs_at(s, part, i),
{
    if holds(s, part) {
        let (front, back) = choose|front: Seq<char>, back: Seq<char>|
            s == #[trigger] (front + part + back);
        assert(s.subrange(front.len() as int, (front.len() + part.len()) as int) =~= part);
        assert(text::occurs_at(s, part, front.len() as int));
    }
    if exists|i: int| text::occurs_at(s, part, i) {
        let i = choose|i: int| text::occurs_at(s, part, i);
        assert(s =~= s.take(i) + part + s.skip(i + part.len())) by {
            assert forall|k: int| 0 <= k < s.len() implies s[k] == (s.take(i) + part + s.skip(
                i + part.len(),
            ))[k] by {
                if i <= k < i + part.len() {
                    assert(s.subrange(i, i + part.len())[k - i] == s[k]);
                }
            }
        }
    }
}

/// To make the caller the owner of a repository succeeds where the service did it or had done it
/// before. Every refusal is told by its own code; one that is not foreseen is internal and written
/// out.
pub proof fn owner_answer_is_told(reply: Result<(), RebacFailure>, result: Result<(), Status>)
    requires
        model::unit_result_view(result) == rebac::create_resource_result(
            model::unit_result_view(reply),
        ),
    ensures
        result is Ok <==> reply is Ok || reply->Err_0.code == Code::AlreadyExists,
        (reply matches Err(failure) && result matches Err(status)) ==> {
            let failure = reply->Err_0;
            let status = result->Err_0;
            let unnamed = failure.code == Code::InvalidArgument && holds(
                failure.message@,
                "Missing resource context in resourceName"@,
            );
            &&& failure.code == Code::PermissionDenied ==> status.code == Code::PermissionDenied
                && status.message@ == "Failed to create repository, permission denied"@
            &&& failure.code == Code::Unauthenticated ==> status.code == Code::Unauthenticated
                && status.message@ == "Failed to create repository, reauthenticate"@
            &&& failure.code == Code::NotFound ==> status.code == Code::FailedPrecondition
                && status.message@ == "A required Auth entity was not found"@
            &&& unnamed ==> status.code == Code::InvalidArgument && status.message@
                == "Invalid repository name - missing Organization context"@
            &&& failure.code != Code::PermissionDenied && failure.code != Code::Unauthenticated
                && failure.code != Code::NotFound && !unnamed ==> status.code == Code::Internal
                && status.message@ == "Failed to call auth create_resource: "@ + failure.rendered@
        },
{
    if let Err(failure) = reply {
        lemma_holds(failure.message@, "Missing resource context in resourceName"@);
    }
}

/// A deletion is allowed only where the service says so, and its refusals are told by their codes.
pub proof fn deletion_answer_is_told(reply: Result<(), RebacFailure>, result: Result<(), Status>)
    requires
        model::unit_result_view(result) == rebac::delete_resource_result(
            model::unit_result_view(reply),
        ),
    ensures
        result is Ok <==> reply is Ok,
        reply is Err ==> {
            let failure = reply->Err_0;
            let status = result->Err_0;
            if failure.code == Code::PermissionDenied {
                status.code == Code::PermissionDenied && status.message@
                    == "Delete resource denied"@
            } else if failure.code == Code::Unauthenticated {
                status.code == Code::Unauthenticated && status.message@
                    == "Delete resource failed - unauthenticated"@
            } else {
                status.code == Code::Internal && status.message@
                    == "Failed to call auth delete_resource: "@ + failure.rendered@
            }
        },
{
}

/// A deletion is confirmed only where the service says so, and its refusals are told.
pub proof fn confirmation_answer_is_told(reply: Result<(), RebacFailure>, result: Result<(), Status>)
    requires
        model::unit_result_view(result) == rebac::confirm_deleted_result(
            model::unit_result_view(reply),
        ),
    ensures
        result is Ok <==> reply is Ok,
        reply is Err ==> {
            let failure = reply->Err_0;
            let status = result->Err_0;
            if failure.code == Code::PermissionDenied || failure.code == Code::Unauthenticated {
                status.code == Code::PermissionDenied && status.message@
                    == "Repository deletion confirmation denied"@
            } else {
                status.code == Code::Internal && status.message@
                    == "Failed to confirm auth resource deletion: "@ + failure.rendered@
            }
        },
{
}

/// A setting counts exactly where it writes a positive number; else the default does.
pub proof fn positive_settings_count(setting: Option<Seq<char>>, default: u32)
    ensures
        ({
            let allowed = rebac::attempts_allowed(setting, default);
            match setting {
                Some(value) => match text::u32_value(value) {
                    Some(n) => (n > 0 ==> allowed == n) && (n == 0 ==> allowed == default),
                    None => allowed == default,
                },
                None => allowed == default,
            }
        }),
{
}

/// The first wait is the base. Each wait is twice the one before, as often as it may double; then it
/// stays.
pub proof fn waits_double(backoff: Backoff, attempt: u32)
    requires
        1 <= attempt < u32::MAX,
    ensures
        backoff.wait_ms(1) == backoff.base_ms,
        attempt <= backoff.doublings ==> backoff.wait_ms((attempt + 1) as u32) == 2
            * backoff.wait_ms(attempt),
        attempt > backoff.doublings ==> backoff.wait_ms((attempt + 1) as u32) == backoff.wait_ms(
            attempt,
        ),
{
    lemma2_to64();
    let base = backoff.base_ms as nat;
    assert(base * 1 == base);
    if attempt <= backoff.doublings {
        let k = (attempt - 1) as nat;
        lemma_pow2_unfold(k + 1);
        assert(base * (2 * pow2(k)) == 2 * (base * pow2(k))) by (nonlinear_arith);
    }
}

/// After a failed attempt the next one is made, after its wait, unless it was the last one.
pub proof fn attempts_go_on_until_the_last(backoff: Backoff, attempt: u32, max: u32)
    requires
        backoff.wait_ms(attempt) <= u64::MAX,
    ensures
        match rebac::retry_after(backoff, attempt, max) {
            Retry::After { wait_ms, attempt: next } => attempt < max && next == attempt + 1
                && wait_ms == backoff.wait_ms(attempt),
            Retry::GiveUp => attempt >= max,
        },
{
}

/// Whether `host` holds nothing that ends an authority, and no colon.
pub open spec fn is_plain_host(host: Seq<char>) -> bool {
    forall|i: int|
        #![trigger host[i]]
        0 <= i < host.len() ==> host[i] != '/' && host[i] != '?' && host[i] != '#' && host[i] != ':'
            && host[i] != ']' && host[i] != '@'
}

/// Whether `tail` can follow an authority: it is empty, or begins a path, a query or a fragment.
pub open spec fn is_tail(tail: Seq<char>) -> bool {
    tail.len() > 0 ==> tail[0] == '/' || tail[0] == '?' || tail[0] == '#'
}

proof fn lemma_authority(authority: Seq<char>, tail: Seq<char>)
    requires
        forall|i: int|
            #![trigger authority[i]]
            0 <= i < authority.len() ==> authority[i] != '/' && authority[i] != '?' && authority[i]
                != '#',
        is_tail(tail),
    ensures
        rebac::authority_len(authority + tail) == authority.len(),
    decreases authority.len(),
{
    let rest = authority + tail;
    if authority.len() > 0 {
        assert(rest[0] == authority[0]);
        assert(rest.drop_first() =~= authority.drop_first() + tail);
        lemma_authority(authority.drop_first(), tail);
    }
}

proof fn lemma_no_colon(host: Seq<char>)
    requires
        is_plain_host(host),
    ensures
        rebac::port_colon(host) is None,
    decreases host.len(),
{
    if host.len() > 0 {
        assert(host[host.len() - 1] == host.last());
        lemma_no_colon(host.drop_last());
    }
}

proof fn lemma_colon(host: Seq<char>, port: Seq<char>)
    requires
        is_plain_host(port),
    ensures
        rebac::port_colon(host + seq![':'] + port) == Some(host.len() as int),
    decreases port.len(),
{
    let authority = host + seq![':'] + port;
    if port.len() > 0 {
        assert(authority.last() == port[port.len() - 1]);
        assert(authority.drop_last() =~= host + seq![':'] + port.drop_last());
        lemma_colon(host, port.drop_last());
    } else {
        assert(authority.last() == ':');
    }
}

proof fn lemma_http(authority: Seq<char>, tail: Seq<char>)
    requires
        forall|i: int|
            #![trigger authority[i]]
            0 <= i < authority.len() ==> authority[i] != '/' && authority[i] != '?' && authority[i]
                != '#',
        is_tail(tail),
    ensures
        ({
            let url = "http://"@ + authority + tail;
            let rest = url.skip("http://"@.len() as int);
            &&& "http://"@.is_prefix_of(url)
            &&& rest == authority + tail
            &&& rest.take(rebac::authority_len(rest) as int) == authority
            &&& rest.skip(rebac::authority_len(rest) as int) == tail
        }),
{
    let url = "http://"@ + authority + tail;
    assert(url.skip("http://"@.len() as int) =~= authority + tail);
    lemma_authority(authority, tail);
    assert((authority + tail).take(authority.len() as int) =~= authority);
    assert((authority + tail).skip(authority.len() as int) =~= tail);
}

/// Where a URL over plain HTTP names no port, port 8087 is put behind its host, and what follows the
/// host stays, but for a mere slash, which goes.
pub proof fn missing_port_is_put_behind_the_host(host: Seq<char>, tail: Seq<char>)
    requires
        is_plain_host(host),
        is_tail(tail),
    ensures
        tail.len() == 0 || tail == seq!['/'] ==> rebac::rebac_endpoint("http://"@ + host + tail)
            == "http://"@ + host + ":8087"@,
        tail.len() > 0 && tail[tail.len() - 1] != '/' ==> rebac::rebac_endpoint(
            "http://"@ + host + tail,
        ) == "http://"@ + host + ":8087"@ + tail,
{
    lemma_http(host, tail);
    lemma_no_colon(host);
    crate::text_laws::trimmed_end_is_the_run(tail, '/');
    assert("http://"@ + host + ":8087"@ + Seq::<char>::empty() =~= "http://"@ + host + ":8087"@);
}

/// Where a URL over plain HTTP names port 80 and nothing or a mere slash follows, 8087 takes its
/// place; with any other port it stays as it is.
pub proof fn port_80_gives_way(host: Seq<char>, port: Seq<char>, tail: Seq<char>)
    requires
        is_plain_host(host),
        is_plain_host(port),
        port.len() > 0,
        is_tail(tail),
    ensures
        ({
            let url = "http://"@ + (host + seq![':'] + port) + tail;
            if port == seq!['8', '0'] && (tail.len() == 0 || tail == seq!['/']) {
                rebac::rebac_endpoint(url) == "http://"@ + host + ":8087"@ + tail
            } else {
                rebac::rebac_endpoint(url) == url
            }
        }),
{
    reveal_strlit("80");
    reveal_strlit("/");
    assert("80"@ =~= seq!['8', '0']);
    assert("/"@ =~= seq!['/']);
    let authority = host + seq![':'] + port;
    assert forall|i: int| #![trigger authority[i]] 0 <= i < authority.len() implies authority[i]
        != '/' && authority[i] != '?' && authority[i] != '#' by {
        if i < host.len() {
            assert(authority[i] == host[i]);
        } else if i > host.len() {
            assert(authority[i] == port[i - host.len() - 1]);
        }
    }
    lemma_http(authority, tail);
    lemma_colon(host, port);
    assert(authority.take(host.len() as int) =~= host);
    assert(authority.skip(host.len() as int + 1) =~= port);
}

/// Any URL that is not over plain HTTP stays as it is.
pub proof fn other_urls_stay(url: Seq<char>)
    requires
        !"http://"@.is_prefix_of(url),
    ensures
        rebac::rebac_endpoint(url) == url,
{
}

/// The first line of an answer ends before the first line feed, and a carriage return right before
/// that does not belong to it.
pub proof fn first_line_ends_at_the_line_feed(line: Seq<char>, rest: Seq<char>)
    requires
        !line.contains('\n'),
    ensures
        line.len() == 0 || line[line.len() - 1] != '\r' ==> health::first_line(
            line + seq!['\n'] + rest,
        ) == line && health::first_line(line + seq!['\r', '\n'] + rest) == line,
        health::first_line(line) == line,
{
    lemma_front(line, seq!['\n'] + rest);
    assert(line + (seq!['\n'] + rest) =~= line + seq!['\n'] + rest);
    lemma_front(line.push('\r'), seq!['\n'] + rest);
    assert(line.push('\r') + (seq!['\n'] + rest) =~= line + seq!['\r', '\n'] + rest);
    assert(line.push('\r').drop_last() =~= line);
    lemma_front(line, Seq::empty());
    assert(line + Seq::<char>::empty() =~= line);
    if line.len() > 0 {
        assert(line.last() == line[line.len() - 1]);
    }
}

proof fn lemma_front(line: Seq<char>, rest: Seq<char>)
    requires
        !line.contains('\n') || (line.len() > 0 && line.last() == '\r' && !line.drop_last().contains(
            '\n',
        )),
        rest.len() > 0 ==> rest[0] == '\n',
    ensures
        text::before_char(line + rest, '\n') == line,
{
    let whole = line + rest;
    crate::text_laws::front_ends_at_the_first(whole, '\n');
    let t = text::before_char(whole, '\n');
    assert forall|i: int| 0 <= i < line.len() implies line[i] != '\n' by {
        if line.contains('\n') && i < line.len() - 1 {
            assert(line.drop_last()[i] == line[i]);
        }
    }
    if t.len() < line.len() {
        assert(whole[t.len() as int] == line[t.len() as int]);
    }
    if t.len() > line.len() {
        assert(whole[line.len() as int] == rest[0]);
    }
    assert(t =~= line);
}

/// A server is ready exactly where the first line of its answer reports success in one of the two
/// versions of the protocol.
pub proof fn success_has_two_forms(line: Seq<char>)
    ensures
        health::is_success(line) <==> line == "HTTP/1.1 200 OK"@ || line == "HTTP/1.0 200 OK"@,
{
}

/// The service is probed at the host that its URL names, with or without encryption: with the port
/// that is named, and with 8087 where none is.
pub proof fn probe_goes_to_the_named_host(host: Seq<char>, tail: Seq<char>)
    requires
        !host.contains('/'),
        tail.len() > 0 ==> tail[0] == '/',
    ensures
        ({
            let address = if host.contains(':') {
                host
            } else {
                host + ":8087"@
            };
            &&& health::probe_address_of("http://"@ + host + tail) == address
            &&& health::probe_address_of("https://"@ + host + tail) == address
        }),
{
    reveal_strlit("http://");
    reveal_strlit("https://");
    let plain = "http://"@ + host + tail;
    let secret = "https://"@ + host + tail;
    assert(plain.skip("http://"@.len() as int) =~= host + tail);
    assert(secret.skip("https://"@.len() as int) =~= host + tail);
    assert("http://"@.is_prefix_of(plain));
    assert("https://"@.is_prefix_of(secret));
    assert(!"http://"@.is_prefix_of(secret)) by {
        assert(secret[4] == 's');
        assert("http://"@[4] == ':');
    }
    let whole = host + tail;
    crate::text_laws::front_ends_at_the_first(whole, '/');
    let t = text::before_char(whole, '/');
    if t.len() < host.len() {
        assert(whole[t.len() as int] == host[t.len() as int]);
    }
    if t.len() > host.len() {
        assert(whole[host.len() as int] == tail[0]);
    }
    assert(t =~= host);
}

/// A service that is not there is reported with its address, the number of attempts and the last
/// failure.
pub proof fn unavailable_service_is_named(address: Seq<char>, max: u32, error: Seq<char>)
    ensures
        health::unavailable(address, max, error) == "ReBAC endpoint at "@ + address
            + " remained unavailable after "@ + text::decimal(max as nat)
            + " readiness attempts: "@ + error,
{
}

/// The metadata of a repository is looked up exactly for a known caller who names a repository and
/// whose token allows access to it; and then it is that very repository. Who is not known is told
/// why, first; then that no repository is named.
pub proof fn metadata_is_looked_up_for_the_permitted(
    authorization: Result<AuthorizationToken, Status>,
    id: Context,
)
    ensures
        ({
            let r = repository_metadata_get::permitted(authorization, id);
            match authorization {
                Err(status) => r == Err::<RepositoryId, StatusView>(
                    StatusView { code: status.code, message: status.message@ },
                ),
                Ok(token) => if id.value == 0 {
                    r matches Err(status) && status.code == Code::InvalidArgument
                        && status.message == "Missing repository id"@
                } else if jwt::authorized(token@, RepositoryId { context: id }) {
                    r matches Ok(found) && found.context == id
                } else {
                    r matches Err(status) && status.code == Code::PermissionDenied
                        && status.message == "Repository access denied"@
                },
            }
        }),
{
}

/// A text that begins with neither scheme is taken for an address as it is, up to its first slash.
pub proof fn bare_addresses_are_probed(host: Seq<char>, tail: Seq<char>)
    requires
        !host.contains('/'),
        tail.len() > 0 ==> tail[0] == '/',
        !"http://"@.is_prefix_of(host + tail),
        !"https://"@.is_prefix_of(host + tail),
    ensures
        health::probe_address_of(host + tail) == (if host.contains(':') {
            host
        } else {
            host + ":8087"@
        }),
{
    let whole = host + tail;
    crate::text_laws::front_ends_at_the_first(whole, '/');
    let t = text::before_char(whole, '/');
    if t.len() < host.len() {
        assert(whole[t.len() as int] == host[t.len() as int]);
    }
    if t.len() > host.len() {
        assert(whole[host.len() as int] == tail[0]);
    }
    assert(t =~= host);
}

/// A status is its code and its message.
pub proof fn status_is_its_code_and_message(status: Status)
    ensures
        status@.code == status.code,
        status@.message == status.message@,
{
}

} // verus!
