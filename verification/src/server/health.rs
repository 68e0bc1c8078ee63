//! The probe that says whether a server is ready.
//!
//! The server is asked over HTTP, and the authorization service beside it is connected to; both
//! happen elsewhere.
use vstd::prelude::*;
use vstd::slice::*;
use vstd::string::*;

use crate::server::rebac;
use crate::server::rebac::Retry;
use crate::text;

verus! {

/// Gives the address at which the server is asked.
pub fn health_address(setting: Option<String>) -> (address: String)
    ensures
        address@ == (match setting {
            Some(address) => address@,
            None => "127.0.0.1:41339"@,
        }),
{
    match setting {
        Some(address) => address,
        None => "127.0.0.1:41339".to_owned(),
    }
}

/// Gives what is sent to the server.
pub fn health_request() -> (request: &'static str)
    ensures
        request@
            == "GET /health_check HTTP/1.1\r\nHost: localhost\r\nConnection: close\r\n\r\n"@,
{
    "GET /health_check HTTP/1.1\r\nHost: localhost\r\nConnection: close\r\n\r\n"
}

/// The first line of a text, without its end: a line feed, with a carriage return before it or not.
pub open spec fn first_line(response: Seq<char>) -> Seq<char> {
    let line = text::before_char(response, '\n');
    if line.len() < response.len() && line.len() > 0 && line.last() == '\r' {
        line.drop_last()
    } else {
        line
    }
}

/// Gives the first line of a text.
pub fn status_line(response: &str) -> (line: String)
    ensures
        line@ == first_line(response@),
{
    let line = text::chars_of(text::up_to(response, '\n').as_str());
    let all = text::chars_of(response);
    let n: usize = line.len();
    if n < all.len() && n > 0 && line[n - 1] == '\r' {
        let kept = slice_subrange(line.as_slice(), 0, n - 1);
        assert(kept@ =~= line@.drop_last());
        text::string_of(kept)
    } else {
        text::string_of(line.as_slice())
    }
}

/// Whether a line reports success.
pub open spec fn is_success(line: Seq<char>) -> bool {
    line == "HTTP/1.1 200 OK"@ || line == "HTTP/1.0 200 OK"@
}

/// Checks what the server answered; where it does not report success, gives the line that it
/// reported instead.
pub fn check_response(response: &str) -> (r: Result<(), String>)
    ensures
        r is Ok <==> is_success(first_line(response@)),
        r matches Err(line) ==> line@ == first_line(response@),
{
    let line = status_line(response);
    if text::same_text(line.as_str(), "HTTP/1.1 200 OK") || text::same_text(
        line.as_str(),
        "HTTP/1.0 200 OK",
    ) {
        Ok(())
    } else {
        Err(line)
    }
}

/// The part of a URL between its scheme and its path.
pub open spec fn authority(url: Seq<char>) -> Seq<char> {
    let rest = if "http://"@.is_prefix_of(url) {
        url.skip("http://"@.len() as int)
    } else if "https://"@.is_prefix_of(url) {
        url.skip("https://"@.len() as int)
    } else {
        url
    };
    text::before_char(rest, '/')
}

/// The address of the authorization service at `url`: with port 8087 where none is named.
pub open spec fn probe_address_of(url: Seq<char>) -> Seq<char> {
    if authority(url).contains(':') {
        authority(url)
    } else {
        authority(url) + ":8087"@
    }
}

/// Gives the address of the authorization service at `url`.
pub fn probe_address(url: &str) -> (address: String)
    ensures
        address@ == probe_address_of(url@),
{
    let rest = match text::strip_prefix(url, "http://") {
        Some(rest) => rest,
        None => match text::strip_prefix(url, "https://") {
            Some(rest) => rest,
            None => url.to_owned(),
        },
    };
    let host = text::up_to(rest.as_str(), '/');
    proof {
        text::lemma_count_char(host@, ':');
    }
    if text::count_matches(host.as_str(), ':') > 0 {
        host
    } else {
        host.concat(":8087")
    }
}

/// The number of attempts where none is configured.
pub fn default_max_attempts() -> (n: u32)
    ensures
        n == 4,
{
    4
}

/// Gives how long, in milliseconds, one attempt to connect may take.
pub fn connect_timeout_ms(timeout_ms: u64) -> (ms: u64)
    ensures
        ms == (if timeout_ms < 500 {
            timeout_ms
        } else {
            500
        }),
{
    if timeout_ms < 500 {
        timeout_ms
    } else {
        500
    }
}

/// What follows an attempt to connect to the authorization service.
#[derive(Debug)]
pub enum ProbeStep {
    /// It is there.
    Ready,
    /// Wait, then make the given attempt.
    Wait { wait_ms: u64, attempt: u32 },
    /// It is not there.
    Failed { message: String },
}

/// What is reported of a service that is not there.
pub open spec fn unavailable(address: Seq<char>, max: u32, error: Seq<char>) -> Seq<char> {
    "ReBAC endpoint at "@ + address + " remained unavailable after "@ + text::decimal(max as nat)
        + " readiness attempts: "@ + error
}

/// Decides what follows an attempt, the first being 1, of `max` attempts, given what became of it.
pub fn after_probe(address: &str, attempt: u32, max: u32, outcome: Result<(), String>) -> (step:
    ProbeStep)
    requires
        attempt >= 1,
    ensures
        match outcome {
            Ok(_) => step is Ready,
            Err(error) => if attempt < max {
                step == (ProbeStep::Wait {
                    wait_ms: (rebac::Backoff { base_ms: 100, doublings: 3 }).wait_ms(attempt) as u64,
                    attempt: (attempt + 1) as u32,
                })
            } else {
                step matches ProbeStep::Failed { message } && message@ == unavailable(
                    address@,
                    max,
                    error@,
                )
            },
        },
{
    match outcome {
        Ok(_) => ProbeStep::Ready,
        Err(error) => match rebac::after_failure(rebac::readiness_backoff(), attempt, max) {
            Retry::After { wait_ms, attempt } => ProbeStep::Wait { wait_ms, attempt },
            Retry::GiveUp => {
                let mut message = "ReBAC endpoint at ".to_owned();
                message.append(address);
                message.append(" remained unavailable after ");
                message.append(text::to_decimal(max as u64).as_str());
                message.append(" readiness attempts: ");
                message.append(error.as_str());
                ProbeStep::Failed { message }
            },
        },
    }
}

} // verus!
