use std::collections::VecDeque;

use hy2_multiport::address::{read_ip, IpAddr};
use hy2_multiport::config::AddressFamily;
use hy2_multiport::dns::{
    random_jitter_seconds, refresh_delay, resolve_initial, resolve_lookup, unix_now, valid_candidates,
    DnsAnswer, DnsStatus, Health, NameResolver, MIN_REFRESH,
};
use hy2_multiport::time::Duration;

struct FakeResolver {
    answers: std::sync::Mutex<VecDeque<Result<DnsAnswer, String>>>,
}

impl FakeResolver {
    fn with(answers: Vec<Result<DnsAnswer, String>>) -> Self {
        Self {
            answers: std::sync::Mutex::new(answers.into()),
        }
    }
}

impl NameResolver for FakeResolver {
    fn lookup(&self, _: &str) -> Result<DnsAnswer, String> {
        self.answers
            .lock()
            .unwrap()
            .pop_front()
            .unwrap_or_else(|| Err("fake resolver exhausted".to_owned()))
    }
}

fn ip(text: &str) -> IpAddr {
    read_ip(text).unwrap()
}

fn answer(values: &[&str], ttl: u64) -> DnsAnswer {
    DnsAnswer {
        addresses: values.iter().map(|value| ip(value)).collect(),
        ttl: Duration::from_secs(ttl),
    }
}

fn shown(state: &DnsStatus) -> String {
    state.active_address.unwrap().to_text()
}

#[test]
fn active_dns_address_is_stable_then_sorted_on_removal() {
    let resolver = FakeResolver::with(vec![Ok(answer(&["198.51.100.9", "198.51.100.2"], 120))]);
    let mut state =
        resolve_initial("example.test", AddressFamily::Ipv4, None, &resolver, 100).unwrap();
    assert_eq!(state.active_address.unwrap().to_text(), "198.51.100.2");
    let changed = state
        .accept_answer(
            AddressFamily::Ipv4,
            answer(&["198.51.100.9", "198.51.100.2"], 120),
            200,
            0,
        )
        .unwrap();
    assert!(!changed);
    let changed = state
        .accept_answer(AddressFamily::Ipv4, answer(&["198.51.100.9"], 120), 300, 0)
        .unwrap();
    assert!(changed);
    assert_eq!(state.active_address.unwrap().to_text(), "198.51.100.9");
}

#[test]
fn failure_is_degraded_with_active_address_and_cached_start_has_one_hour_limit() {
    let resolver = FakeResolver::with(vec![Err("offline".to_owned())]);
    let cached = DnsStatus {
        host: "example.test".into(),
        active_address: Some(ip("198.51.100.3")),
        last_success_unix: Some(1),
        next_refresh_unix: Some(2),
        cache_written_unix: Some(100),
        status: Health::Healthy,
        failure_reason: None,
    };
    let restored = resolve_initial(
        "example.test",
        AddressFamily::Ipv4,
        Some(&cached),
        &resolver,
        3_700,
    )
    .unwrap();
    assert_eq!(restored.status, Health::Degraded);
    assert!(resolve_initial(
        "example.test",
        AddressFamily::Ipv4,
        Some(&cached),
        &resolver,
        3_701
    )
    .is_err());
    let mut running = restored;
    running.record_failure("still offline".to_owned(), 3_800);
    assert_eq!(running.status, Health::Degraded);
    assert_eq!(running.next_refresh_unix, Some(3_860));
    assert_eq!(running.failure_reason.as_deref(), Some("still offline"));
}

#[test]
fn refresh_is_half_ttl_and_clamped() {
    assert_eq!(
        refresh_delay(Duration::from_secs(10), 0),
        Duration::from_secs(MIN_REFRESH)
    );
    assert_eq!(
        refresh_delay(Duration::from_mins(150), 0),
        Duration::from_mins(15)
    );
    assert_eq!(
        refresh_delay(Duration::from_mins(2), 15),
        Duration::from_secs(75)
    );
}

#[test]
fn dns_filters_wrong_family_and_disallowed_addresses() {
    let mut state = DnsStatus::new("example.test".into());
    assert!(state
        .accept_answer(AddressFamily::Ipv4, answer(&["::1", "127.0.0.1"], 60), 0, 0)
        .is_err());
    assert_eq!(
        state
            .accept_answer(AddressFamily::Ipv6, answer(&["::1", "10.0.0.1"], 60), 0, 0)
            .unwrap_err(),
        "DNS answer for example.test has no allowed IPv6 address"
    );
    assert_eq!(state, DnsStatus::new("example.test".into()));
}

#[test]
fn candidates_are_sorted_by_text_and_unique() {
    let found = valid_candidates(
        AddressFamily::Ipv4,
        &answer(&["10.0.0.9", "9.0.0.1", "10.0.0.10", "127.0.0.1", "10.0.0.9", "::2"], 1).addresses,
        "h",
    )
    .unwrap();
    let texts: Vec<String> = found.iter().map(|address| address.to_text()).collect();
    assert_eq!(texts, ["10.0.0.10", "10.0.0.9", "9.0.0.1"]);
}

#[test]
fn an_answer_sets_every_time() {
    let mut state = DnsStatus::new("h".into());
    assert_eq!(state.status, Health::Failed);
    assert_eq!(state.cache_age_seconds(5), None);
    assert!(!state.can_restore_cache(5));
    assert!(state
        .accept_answer(AddressFamily::Ipv4, answer(&["10.0.0.1"], 300), 1_000, 7)
        .unwrap());
    assert_eq!(shown(&state), "10.0.0.1");
    assert_eq!(state.last_success_unix, Some(1_000));
    assert_eq!(state.cache_written_unix, Some(1_000));
    assert_eq!(state.next_refresh_unix, Some(1_157));
    assert_eq!(state.status, Health::Healthy);
    assert_eq!(state.cache_age_seconds(4_600), Some(3_600));
    assert!(state.can_restore_cache(4_600));
    assert!(!state.can_restore_cache(4_601));
    assert_eq!(state.cache_age_seconds(10), Some(0));
}

#[test]
fn a_failure_without_an_address_is_failed() {
    let mut state = DnsStatus::new("h".into());
    state.record_failure("down".to_owned(), 10);
    assert_eq!(state.status, Health::Failed);
    assert_eq!(state.next_refresh_unix, Some(70));
}

#[test]
fn a_literal_host_needs_no_lookup() {
    let resolver = FakeResolver::with(vec![]);
    let state = resolve_initial("10.0.0.7", AddressFamily::Ipv4, None, &resolver, 100).unwrap();
    assert_eq!(shown(&state), "10.0.0.7");
    assert_eq!(state.next_refresh_unix, Some(550));
    assert_eq!(
        resolve_initial("127.0.0.1", AddressFamily::Ipv4, None, &resolver, 100).unwrap_err(),
        "configuration error: profile \"127.0.0.1\" remote target 127.0.0.1 is not allowed"
    );
}

#[test]
fn a_first_lookup_goes_on_from_the_cache_of_its_host() {
    let mut cached = DnsStatus::new("h".into());
    cached
        .accept_answer(AddressFamily::Ipv4, answer(&["10.0.0.9"], 60), 100, 0)
        .unwrap();
    let both = || Ok(answer(&["10.0.0.1", "10.0.0.9"], 60));
    let kept = resolve_lookup("h", AddressFamily::Ipv4, Some(&cached), both(), 0, 200).unwrap();
    assert_eq!(shown(&kept), "10.0.0.9");
    let other = resolve_lookup("g", AddressFamily::Ipv4, Some(&cached), both(), 0, 200).unwrap();
    assert_eq!(shown(&other), "10.0.0.1");
    let restored = resolve_lookup(
        "h",
        AddressFamily::Ipv4,
        Some(&cached),
        Err("gone".to_owned()),
        0,
        200,
    )
    .unwrap();
    assert_eq!(shown(&restored), "10.0.0.9");
    assert_eq!(
        restored.failure_reason.as_deref(),
        Some("DNS lookup failed; restored cache: gone")
    );
    assert_eq!(restored.next_refresh_unix, Some(260));
    assert_eq!(
        resolve_lookup(
            "g",
            AddressFamily::Ipv4,
            Some(&cached),
            Err("gone".to_owned()),
            0,
            200
        )
        .unwrap_err(),
        "initial DNS lookup for g failed and no fresh cache exists: gone"
    );
}

#[test]
fn the_order_of_an_answer_does_not_matter() {
    let mut a = DnsStatus::new("h".into());
    let mut b = DnsStatus::new("h".into());
    a.accept_answer(
        AddressFamily::Ipv6,
        answer(&["fd00::2", "fd00::1", "fd00::2"], 60),
        1,
        3,
    )
    .unwrap();
    b.accept_answer(AddressFamily::Ipv6, answer(&["fd00::1", "fd00::2"], 60), 1, 3)
        .unwrap();
    assert_eq!(a, b);
    assert_eq!(shown(&a), "fd00::1");
}

#[test]
fn jitter_is_random_within_its_bound() {
    let drawn: Vec<u64> = (0..200).map(|_| random_jitter_seconds()).collect();
    assert!(drawn.iter().all(|jitter| *jitter <= 15));
    assert!(drawn.iter().any(|jitter| *jitter != drawn[0]));
    assert!(drawn.iter().any(|jitter| *jitter != 15));
}

#[test]
fn the_clock_before_the_epoch_counts_as_zero() {
    assert_eq!(unix_now(Some(12)), 12);
    assert_eq!(unix_now(None), 0);
}
