use lore_auth::allocator::{
    needs_aligned_call, tracks_block, RpmallocGlobalStatistics, RpmallocHeapStatistics,
};
use lore_auth::ids::{Context, RepositoryId};
use lore_auth::server::health::{
    after_probe, check_response, connect_timeout_ms, default_max_attempts, health_address,
    health_request, probe_address, status_line, ProbeStep,
};
use lore_auth::server::rebac::{
    after_failure, connect_backoff, max_attempts, readiness_backoff, rebac_url, uses_tls,
    ConnectFailure, Retry,
};
use lore_auth::status::{Code, Status};
use lore_auth::text;

#[test]
fn the_port_of_the_service_is_filled_in() {
    let at = |url: &str| rebac_url(None, url.to_string());
    assert_eq!(at("http://127.0.0.1"), "http://127.0.0.1:8087");
    assert_eq!(at("http://127.0.0.1/"), "http://127.0.0.1:8087");
    assert_eq!(at("http://host:80"), "http://host:8087");
    assert_eq!(at("http://host:80/"), "http://host:8087/");
    assert_eq!(at("http://host:9000"), "http://host:9000");
    assert_eq!(at("https://host"), "https://host");
    assert_eq!(at("http://host/path"), "http://host:8087/path");
    assert_eq!(at("http://host/path/"), "http://host:8087/path/");
    assert_eq!(at("http://host/a:80"), "http://host:8087/a:80");
    assert_eq!(at("http://host//"), "http://host:8087");
    assert_eq!(at("http://host?q=1"), "http://host:8087?q=1");
    assert_eq!(at("http://host:"), "http://host:8087");
    assert_eq!(at("http://[::1]"), "http://[::1]:8087");
    assert_eq!(at("http://[::1]/"), "http://[::1]:8087");
    assert_eq!(at("http://[::1]:80"), "http://[::1]:8087");
    assert_eq!(at("http://[::1]:9000/x"), "http://[::1]:9000/x");
    assert_eq!(at("http://user:80@host"), "http://user:80@host:8087");
    assert_eq!(at("http://host:80/path"), "http://host:80/path");
    assert_eq!(at("http://host:80//"), "http://host:80//");
    assert_eq!(at("http://host:9000/a:80"), "http://host:9000/a:80");
    assert_eq!(at("http://[::80]:80"), "http://[::80]:8087");
    assert_eq!(at("http://host:9000/"), "http://host:9000/");
    assert_eq!(at("https://host:80"), "https://host:80");
    assert_eq!(rebac_url(Some("http://a:1".to_string()), "http://b:2".to_string()), "http://a:1");
    assert!(uses_tls("https://host"));
    assert!(!uses_tls("http://host"));
}

#[test]
fn attempts_are_positive_numbers() {
    let read = |value: &str| max_attempts(Some(value.to_string()), 8);
    assert_eq!(max_attempts(None, 8), 8);
    assert_eq!(read("3"), 3);
    assert_eq!(read("+3"), 3);
    assert_eq!(read("0"), 8);
    assert_eq!(read("-1"), 8);
    assert_eq!(read(" 3"), 8);
    assert_eq!(read("4294967296"), 8);
}

#[test]
fn waits_double_up_to_a_limit() {
    let waits = |backoff, max| {
        let mut waits = vec![];
        let mut attempt = 1;
        while let Retry::After { wait_ms, attempt: next } = after_failure(backoff, attempt, max) {
            waits.push(wait_ms);
            attempt = next;
        }
        waits
    };
    assert_eq!(waits(connect_backoff(), 8), vec![250, 500, 1000, 2000, 4000, 4000, 4000]);
    assert_eq!(waits(readiness_backoff(), 6), vec![100, 200, 400, 800, 800]);
    assert_eq!(waits(connect_backoff(), 1), Vec::<u64>::new());
}

#[test]
fn connection_failures_are_reported() {
    for (failure, message) in [
        (ConnectFailure::Endpoint, "Failed to create rebac endpoint"),
        (ConnectFailure::Tls, "Failed to configure TLS for rebac"),
        (ConnectFailure::Unavailable, "Failed to connect to rebac service"),
    ] {
        let status = failure.status();
        assert_eq!((status.code, status.message.as_str()), (Code::Internal, message));
    }
}

#[test]
fn healthy_servers_answer_with_success() {
    assert_eq!(health_address(None), "127.0.0.1:41339");
    assert_eq!(health_address(Some("h:1".to_string())), "h:1");
    assert!(health_request().starts_with("GET /health_check HTTP/1.1\r\n"));
    assert!(check_response("HTTP/1.1 200 OK\r\nx: y\r\n\r\n").is_ok());
    assert!(check_response("HTTP/1.0 200 OK").is_ok());
    assert_eq!(
        check_response("HTTP/1.1 503 Service Unavailable\r\n").unwrap_err(),
        "HTTP/1.1 503 Service Unavailable"
    );
    assert_eq!(check_response("").unwrap_err(), "");
    assert_eq!(check_response("\nHTTP/1.1 200 OK").unwrap_err(), "");
    for text in ["a\r\nb", "a\nb", "a\r", "a", "\r\n", "a\r\r\n"] {
        assert_eq!(status_line(text), text.lines().next().unwrap());
    }
}

#[test]
fn the_service_is_probed_at_its_port() {
    assert_eq!(probe_address("http://127.0.0.1"), "127.0.0.1:8087");
    assert_eq!(probe_address("https://host:9/x"), "host:9");
    assert_eq!(probe_address("host/x"), "host:8087");
    assert_eq!(default_max_attempts(), 4);
    assert_eq!(connect_timeout_ms(4000), 500);
    assert_eq!(connect_timeout_ms(20), 20);
    assert!(matches!(after_probe("h:1", 1, 4, Ok(())), ProbeStep::Ready));
    assert!(matches!(
        after_probe("h:1", 2, 4, Err("refused".to_string())),
        ProbeStep::Wait { wait_ms: 200, attempt: 3 }
    ));
    match after_probe("h:1", 4, 4, Err("refused".to_string())) {
        ProbeStep::Failed { message } => assert_eq!(
            message,
            "ReBAC endpoint at h:1 remained unavailable after 4 readiness attempts: refused"
        ),
        _ => panic!("the last attempt has failed"),
    }
}

#[test]
fn identifiers_are_written_in_hexadecimal() {
    let id = Context::from_hex("0194B726b34e72b0b45550b88a967076").unwrap();
    assert_eq!(id.to_hex(), "0194b726b34e72b0b45550b88a967076");
    let repository: RepositoryId = id.into();
    assert_eq!(repository.resource_id(), "urc-0194b726b34e72b0b45550b88a967076");
    assert!(Context::from_hex("0194b726b34e72b0b45550b88a96707").is_none());
    assert!(Context::from_hex("g194b726b34e72b0b45550b88a967076").is_none());
    assert!(Context { value: 0 }.is_zero());
    assert_eq!(Context { value: u128::MAX }.to_hex(), "f".repeat(32));
}

#[test]
fn statuses_carry_details() {
    let status = Status::with_detail(Code::Internal, "what: ", "why");
    assert_eq!((status.code, status.message.as_str()), (Code::Internal, "what: why"));
}

#[test]
fn texts_are_handled_as_std_does() {
    for sample in ["", " a b ", "\u{3000}x\u{85}", "aBc", "//a//", "\u{e9}t\u{c9}", "a.b..", "\u{200b}"] {
        assert_eq!(text::trim(sample), sample.trim());
        assert_eq!(text::trim_end_matches(sample, '/'), sample.trim_end_matches('/'));
        assert_eq!(text::to_ascii_lowercase(sample), sample.to_ascii_lowercase());
        assert_eq!(text::byte_len(sample), sample.len());
        assert_eq!(text::count_matches(sample, '.'), sample.matches('.').count());
        assert_eq!(text::up_to(sample, '.'), sample.split('.').next().unwrap());
        for part in ["a", "b", ".", "//", "B"] {
            assert_eq!(text::starts_with(sample, part), sample.starts_with(part));
            assert_eq!(text::ends_with(sample, part), sample.ends_with(part));
            assert_eq!(text::contains(sample, part), sample.contains(part));
            assert_eq!(text::strip_prefix(sample, part).as_deref(), sample.strip_prefix(part));
            assert_eq!(text::text_less(sample, part), sample < part);
        }
    }
    assert_eq!(text::rfind("a/b/c", "/"), Some(3));
    assert_eq!(text::rfind("abc", "/"), None);
    assert!(text::eq_ignore_ascii_case("StRict", "sTRICT"));
    assert!(!text::eq_ignore_ascii_case("strict", "strictly"));
    assert_eq!(text::to_decimal(0), "0");
    assert_eq!(text::to_decimal(u64::MAX), u64::MAX.to_string());
    for number in ["0", "7", "+7", "", "+", "007", "4294967295", "4294967296", "1a", "-1"] {
        assert_eq!(text::parse_u32(number), number.parse::<u32>().ok());
    }
}

#[test]
fn the_allocator_has_its_rules() {
    assert!(!needs_aligned_call(16));
    assert!(needs_aligned_call(32));
    assert!(tracks_block(true, false));
    assert!(!tracks_block(true, true));
    assert!(!tracks_block(false, false));
    assert_eq!(RpmallocHeapStatistics::default().mapped_bytes, 0);
    assert_eq!(RpmallocGlobalStatistics::default().heap_count, 0);
}
