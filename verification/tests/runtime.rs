use std::collections::VecDeque;

use hy2_multiport::address::{read_ip, IpAddr};
use hy2_multiport::commit::{next_state, Commit, Outcome, Step};
use hy2_multiport::config::{
    AddressFamily, Config, ListenPorts, Profile, Protocol, SourceMode, Target, ValidatedProfile,
};
use hy2_multiport::control::{LogEvent, Note, Request};
use hy2_multiport::dns::{DnsAnswer, DnsStatus, Health, NameResolver};
use hy2_multiport::host::InterfaceAddress;
use hy2_multiport::nft::{
    external_hook_conflicts, generate_batch, inspect, own_tables, preflight,
    reject_external_hook_conflicts, route_targets, BaseChain, OwnTables, TableName,
};
use hy2_multiport::profile::{
    build_active_profiles, profile_status, resolved_profiles, ActiveProfile, ResolvedProfile,
};
use hy2_multiport::refresh::{degrade, refresh_profile, refresh_profiles, refreshed_state, Plan};
use hy2_multiport::runtime::{
    apply_response, give_up_switch, initial_state, DaemonData, DaemonPaths, Reaction,
};
use hy2_multiport::settings::{
    fresh_adjustments, merge_adjustments, remembered, stale_values, OriginalValues,
    RouteLocalnetAdjustment,
};
use hy2_multiport::state::{load, load_optional, LoadFailure, RuntimeState, StateFile};
use hy2_multiport::time::Duration;

struct Resolver(std::sync::Mutex<VecDeque<Result<DnsAnswer, String>>>);

impl NameResolver for Resolver {
    fn lookup(&self, _: &str) -> Result<DnsAnswer, String> {
        self.0.lock().unwrap().pop_front().unwrap()
    }
}

fn resolver(answers: Vec<Result<DnsAnswer, String>>) -> Resolver {
    Resolver(std::sync::Mutex::new(answers.into()))
}

fn ip(text: &str) -> IpAddr {
    read_ip(text).unwrap()
}

fn answer(addresses: &[&str], ttl: u64) -> DnsAnswer {
    DnsAnswer {
        addresses: addresses.iter().map(|address| ip(address)).collect(),
        ttl: Duration::from_secs(ttl),
    }
}

fn profile(name: &str, listen_address: &str, port: u16, target: Target) -> Profile {
    Profile {
        name: name.to_owned(),
        family: AddressFamily::Ipv4,
        listen_address: listen_address.to_owned(),
        protocols: vec![Protocol::Tcp],
        source_cidrs: vec![],
        allow_route_localnet: true,
        listen_ports: ListenPorts {
            range_start: None,
            range_end: None,
            suffix: None,
            ports: Some(vec![port]),
        },
        target,
    }
}

fn remote(host: &str) -> Target {
    Target::Remote {
        host: host.to_owned(),
        port: 443,
        source_mode: Some(SourceMode::Preserve),
    }
}

fn config(profiles: Vec<Profile>) -> Config {
    Config {
        schema_version: 1,
        allow_external_chains: false,
        profiles,
    }
}

fn validated(profiles: Vec<Profile>) -> Vec<ValidatedProfile> {
    Config::from_toml(Ok(config(profiles)))
        .unwrap()
        .validate()
        .unwrap()
}

fn adjustment(interface: &str, original: bool) -> RouteLocalnetAdjustment {
    RouteLocalnetAdjustment {
        interface: interface.to_owned(),
        original,
    }
}

fn original(entries: &[(&str, bool)]) -> OriginalValues {
    let mut values = OriginalValues::new();
    for (interface, value) in entries {
        values.insert((*interface).to_owned(), *value);
    }
    values
}

fn failed(error: &str) -> Outcome {
    Outcome::Failed {
        error: error.to_owned(),
    }
}

fn active(name: &str, host: &str, address: &str, due: u64) -> ActiveProfile {
    let mut built = build_active_profiles(
        validated(vec![profile(name, "10.0.0.1", 443, remote(host))]),
        &RuntimeState::empty(0),
        &resolver(vec![Ok(answer(&[address], 120))]),
        0,
    )
    .unwrap();
    let mut one = built.remove(0);
    one.dns.as_mut().unwrap().next_refresh_unix = Some(due);
    one
}

#[test]
fn profile_status_marks_default_source_as_public() {
    let mut dns = profile("dns", "192.0.2.10", 53, Target::Redirect { port: 5353 });
    dns.protocols = vec![Protocol::Udp];
    dns.allow_route_localnet = false;
    let validated = validated(vec![dns]).remove(0);
    let status = profile_status(&ActiveProfile {
        resolved: ResolvedProfile {
            validated,
            destination: None,
        },
        dns: None,
    });
    assert!(status.publicly_exposed);
    assert_eq!(status.health, Health::Healthy);
    assert_eq!(status.target_kind, "redirect");
    assert_eq!(status.target_port, 5353);
    assert_eq!(status.target_host, None);
    assert_eq!(status.target_address, None);
    assert_eq!(status.source_cidrs, ["0.0.0.0/0"]);
}

#[test]
fn dns_initial_load_uses_cached_profile_by_name() {
    let mut one = profile("remote", "192.0.2.10", 443, remote("example.test"));
    one.allow_route_localnet = false;
    let valid = validated(vec![one]);
    let resolver = resolver(vec![Ok(DnsAnswer {
        addresses: vec![ip("198.51.100.2")],
        ttl: Duration::from_mins(1),
    })]);
    let profiles = build_active_profiles(valid, &RuntimeState::empty(0), &resolver, 10).unwrap();
    assert_eq!(
        profiles[0].resolved.destination.unwrap().to_text(),
        "198.51.100.2"
    );
    assert_eq!(
        profiles[0].resolved.validated.profile.family,
        AddressFamily::Ipv4
    );
}

#[test]
fn merges_original_route_localnet_value_across_reload() {
    let original = original(&[("eth0", false)]);
    let merged = merge_adjustments(
        vec![RouteLocalnetAdjustment {
            interface: "eth0".to_owned(),
            original: true,
        }],
        &original,
    );
    assert!(!merged[0].original);
}

#[test]
fn the_cached_address_of_a_profile_is_restored_by_its_name() {
    let mut prior = RuntimeState::empty(0);
    prior
        .profiles
        .push(profile_status(&active("other", "h.test", "10.9.9.9", 0)));
    prior
        .profiles
        .push(profile_status(&active("web", "h.test", "10.1.1.1", 0)));
    let built = build_active_profiles(
        validated(vec![profile("web", "10.0.0.1", 443, remote("h.test"))]),
        &prior,
        &resolver(vec![Err("offline".to_owned())]),
        60,
    )
    .unwrap();
    assert_eq!(built[0].resolved.destination, Some(ip("10.1.1.1")));
    assert_eq!(built[0].dns.as_ref().unwrap().status, Health::Degraded);
    assert_eq!(
        build_active_profiles(
            validated(vec![profile("new", "10.0.0.1", 443, remote("h.test"))]),
            &prior,
            &resolver(vec![Err("offline".to_owned())]),
            60,
        )
        .unwrap_err(),
        "profile \"new\": initial DNS lookup for h.test failed and no fresh cache exists: offline"
    );
}

#[test]
fn one_unresolved_host_refuses_all() {
    let profiles = validated(vec![
        profile("a", "10.0.0.1", 1, remote("a.test")),
        profile("b", "10.0.0.1", 2, remote("b.test")),
        profile("c", "10.0.0.1", 3, remote("10.5.5.5")),
    ]);
    let built = build_active_profiles(
        profiles,
        &RuntimeState::empty(0),
        &resolver(vec![Ok(answer(&["10.2.2.2"], 60)), Err("nx".to_owned())]),
        5,
    );
    assert!(built.unwrap_err().starts_with("profile \"b\": initial DNS lookup"));
}

#[test]
fn targets_have_their_addresses() {
    let built = build_active_profiles(
        validated(vec![
            profile("a", "10.0.0.1", 1, remote("10.5.5.5")),
            profile("b", "10.0.0.1", 2, Target::LoopbackDnat { port: 8443 }),
            profile("c", "10.0.0.1", 3, Target::Redirect { port: 8443 }),
        ]),
        &RuntimeState::empty(0),
        &resolver(vec![]),
        5,
    )
    .unwrap();
    let targets: Vec<Option<IpAddr>> = resolved_profiles(&built)
        .iter()
        .map(|resolved| resolved.target_address())
        .collect();
    assert_eq!(targets, [Some(ip("10.5.5.5")), Some(ip("127.0.0.1")), None]);
    let status = profile_status(&built[1]);
    assert_eq!(status.target_kind, "loopback-dnat");
    assert_eq!(status.target_host.as_deref(), Some("127.0.0.1"));
    assert_eq!(status.target_address.as_deref(), Some("127.0.0.1"));
    assert_eq!(profile_status(&built[0]).source_mode, Some(SourceMode::Preserve));
}

#[test]
fn a_source_list_is_public_where_it_holds_every_source() {
    let public = |sources: &[&str]| {
        let mut one = profile("a", "10.0.0.1", 1, Target::Redirect { port: 2 });
        one.source_cidrs = sources.iter().map(|source| (*source).to_owned()).collect();
        let built = build_active_profiles(
            validated(vec![one]),
            &RuntimeState::empty(0),
            &resolver(vec![]),
            5,
        )
        .unwrap();
        profile_status(&built[0]).publicly_exposed
    };
    assert!(public(&["0.0.0.0/0", "10.0.0.0/8"]));
    assert!(public(&["10.0.0.0/8", "0.0.0.0/0"]));
    assert!(public(&[]));
    assert!(!public(&["10.0.0.0/8", "192.168.0.0/16"]));
}

#[test]
fn settings_are_sorted_out_by_what_is_remembered() {
    let prior = original(&[("eth1", true), ("eth0", false), ("eth2", false)]);
    let listed: Vec<String> = prior.to_list().into_iter().map(|entry| entry.interface).collect();
    assert_eq!(listed, ["eth0", "eth1", "eth2"]);
    let adjusted = vec![adjustment("eth1", true), adjustment("wg0", false)];
    assert_eq!(
        fresh_adjustments(&adjusted, &prior),
        vec![adjustment("wg0", false)]
    );
    assert_eq!(
        stale_values(&prior, &adjusted),
        original(&[("eth0", false), ("eth2", false)])
    );
    assert_eq!(
        remembered(&vec![adjustment("a", true), adjustment("a", false)]).get("a"),
        Some(false)
    );
    assert_eq!(prior.get("eth9"), None);
    assert!(prior.contains_key("eth1"));
}

#[test]
fn a_transaction_checks_before_it_changes() {
    let candidates = vec![active("web", "h.test", "10.1.1.1", 90)];
    let mut prior = RuntimeState::empty(7);
    prior.route_localnet_original = original(&[("eth0", false), ("eth9", true)]);
    let mut data = DaemonData::new(prior.clone());
    let mut commit = Commit::new(candidates, prior, "CLI apply".to_owned(), false);
    assert_eq!(commit.step, Step::CheckHooks);
    assert_eq!(data.advance(&mut commit, Outcome::Done, 1), None);
    assert_eq!(commit.step, Step::Preflight);
    data.advance(
        &mut commit,
        Outcome::Inspected {
            adjustments: vec![adjustment("eth0", true), adjustment("eth1", true)],
        },
        1,
    );
    let adjusted = vec![adjustment("eth0", false), adjustment("eth1", true)];
    assert_eq!(
        commit.step,
        Step::ListTables {
            adjusted: adjusted.clone()
        }
    );
    let own = OwnTables {
        ipv4: true,
        ipv6: false,
    };
    data.advance(&mut commit, Outcome::Listed { own }, 2);
    let batch = generate_batch(&resolved_profiles(&commit.candidates), own);
    assert!(batch.starts_with("delete table ip port_forward_v4\ntable ip "));
    assert!(batch.contains("dnat to 10.1.1.1:443"));
    assert_eq!(
        commit.step,
        Step::CheckBatch {
            adjusted: adjusted.clone(),
            batch: batch.clone()
        }
    );
    data.advance(&mut commit, Outcome::Done, 2);
    assert_eq!(
        commit.step,
        Step::Enable {
            adjusted: adjusted.clone(),
            batch: batch.clone()
        }
    );
    data.advance(&mut commit, Outcome::Done, 3);
    assert_eq!(
        commit.step,
        Step::Apply {
            adjusted: adjusted.clone(),
            batch
        }
    );
    assert!(data.active.is_empty());
    data.advance(&mut commit, Outcome::Done, 4);
    assert_eq!(
        commit.step,
        Step::RestoreStale {
            adjusted,
            stale: original(&[("eth9", true)])
        }
    );
    let note = data.advance(&mut commit, failed("busy"), 5).unwrap();
    assert_eq!(
        note.message,
        "nft commit succeeded but stale route_localnet restoration failed: busy"
    );
    assert_eq!(note.level, "error");
    assert_eq!(data.state.config_version, 0);
    let note = data.advance(&mut commit, Outcome::Done, 6).unwrap();
    assert_eq!(note.message, "configuration reload committed (CLI apply)");
    assert_eq!(commit.step, Step::Finished { outcome: Ok(()) });
    assert_eq!(data.state.config_version, 1);
    assert_eq!(data.state.nft_rules_version, 1);
    assert_eq!(data.state.daemon_started_unix, 7);
    assert_eq!(data.state.updated_unix, 5);
    assert_eq!(
        data.state.route_localnet_original,
        original(&[("eth0", false), ("eth1", true)])
    );
    assert_eq!(data.active.len(), 1);
    assert_eq!(data.logs.len(), 2);
}

#[test]
fn a_failed_transaction_keeps_the_data() {
    let failing = |outcomes: Vec<Outcome>, allow: bool| {
        let mut prior = RuntimeState::empty(7);
        prior.route_localnet_original = original(&[("eth0", false)]);
        let mut data = DaemonData::new(prior.clone());
        let mut commit = Commit::new(
            vec![active("web", "h.test", "10.1.1.1", 90)],
            prior.clone(),
            "startup".to_owned(),
            allow,
        );
        for outcome in outcomes {
            data.advance(&mut commit, outcome, 9);
        }
        assert_eq!(data.state, prior);
        assert!(data.active.is_empty());
        let events: Vec<(u64, String, String)> = data
            .logs
            .into_iter()
            .map(|event| (event.timestamp_unix, event.level, event.message))
            .collect();
        (commit.step, events)
    };
    let inspected = || Outcome::Inspected {
        adjustments: vec![adjustment("eth0", true), adjustment("eth1", true)],
    };
    let listed = || Outcome::Listed {
        own: OwnTables {
            ipv4: false,
            ipv6: false,
        },
    };
    let refused = |error: &str| Step::Finished {
        outcome: Err(error.to_owned()),
    };
    let logged = |error: &str| {
        vec![(
            9,
            "error".to_owned(),
            format!("configuration reload failed (startup): {error}"),
        )]
    };
    assert_eq!(
        failing(vec![failed("docker")], false),
        (
            refused("nft hook conflict preflight: docker"),
            logged("nft hook conflict preflight: docker")
        )
    );
    assert_eq!(
        failing(vec![failed("no address")], true),
        (
            refused("network preflight: no address"),
            logged("network preflight: no address")
        )
    );
    assert_eq!(
        failing(vec![inspected(), failed("no tables")], true),
        (refused("no tables"), logged("no tables"))
    );
    assert_eq!(
        failing(vec![inspected(), listed(), failed("syntax")], true),
        (refused("syntax"), logged("syntax"))
    );
    assert_eq!(
        failing(vec![inspected(), listed(), Outcome::Done, failed("sysctl")], true),
        (refused("sysctl"), vec![])
    );
    assert_eq!(
        failing(
            vec![inspected(), listed(), Outcome::Done, Outcome::Done, failed("apply")],
            true
        ),
        (
            Step::RollBack {
                fresh: vec![adjustment("eth1", true)],
                error: "apply".to_owned()
            },
            logged("apply")
        )
    );
    assert_eq!(
        failing(
            vec![
                inspected(),
                listed(),
                Outcome::Done,
                Outcome::Done,
                failed("apply"),
                failed("x")
            ],
            true
        ),
        (refused("apply"), logged("apply"))
    );
}

#[test]
fn an_unsaved_transaction_is_in_force_all_the_same() {
    let prior = RuntimeState::empty(0);
    let mut data = DaemonData::new(prior.clone());
    let mut commit = Commit::new(
        vec![active("web", "h.test", "10.1.1.1", 90)],
        prior,
        "startup".to_owned(),
        true,
    );
    data.advance(&mut commit, Outcome::Inspected { adjustments: vec![] }, 1);
    let own = OwnTables {
        ipv4: true,
        ipv6: true,
    };
    data.advance(&mut commit, Outcome::Listed { own }, 1);
    for _ in 0..4 {
        data.advance(&mut commit, Outcome::Done, 2);
    }
    assert_eq!(data.advance(&mut commit, failed("disk full"), 3), None);
    assert_eq!(
        commit.step,
        Step::Finished {
            outcome: Err("disk full".to_owned())
        }
    );
    assert_eq!(data.state.config_version, 1);
    assert_eq!(data.state.daemon_started_unix, 2);
    assert!(data.allow_external_chains);
    assert_eq!(data.active.len(), 1);
}

#[test]
fn version_counters_stop_at_their_end() {
    let mut prior = RuntimeState::empty(0);
    prior.config_version = u64::MAX;
    let next = next_state(&prior, &vec![], &vec![], 3);
    assert_eq!(next.config_version, u64::MAX);
    assert_eq!(next.nft_rules_version, 1);
}

#[test]
fn a_reload_begins_with_a_deployable_configuration() {
    let begin = |content: Result<Result<Config, String>, String>| {
        let mut data = DaemonData::new(RuntimeState::empty(0));
        let (events, begun) =
            data.begin_reload("/c.toml", content, &resolver(vec![]), "startup", 10);
        assert!(events.is_empty());
        assert!(data.logs.is_empty());
        begun
    };
    assert_eq!(
        begin(Err("denied".to_owned())).unwrap_err(),
        "cannot read configuration /c.toml: denied: denied"
    );
    assert_eq!(
        begin(Ok(Err("line 1".to_owned()))).unwrap_err(),
        "invalid TOML: line 1: line 1"
    );
    let documentation = config(vec![profile("a", "192.0.2.1", 1, remote("10.5.5.5"))]);
    assert!(begin(Ok(Ok(documentation))).unwrap_err().contains("documentation-reserved"));
    let mut real = config(vec![profile("a", "10.0.0.1", 1, remote("10.5.5.5"))]);
    real.allow_external_chains = true;
    let commit = begin(Ok(Ok(real))).unwrap();
    assert_eq!(commit.step, Step::Preflight);
    assert_eq!(commit.reason, "startup");
    assert_eq!(commit.candidates.len(), 1);
    let strict = config(vec![profile("a", "10.0.0.1", 1, remote("10.5.5.5"))]);
    assert_eq!(begin(Ok(Ok(strict))).unwrap().step, Step::CheckHooks);
}

#[test]
fn a_reload_that_falls_back_to_a_cached_address_warns() {
    let mut prior = RuntimeState::empty(0);
    prior
        .profiles
        .push(profile_status(&active("web", "h.test", "10.1.1.1", 0)));
    let mut data = DaemonData::new(prior);
    let wanted = config(vec![
        profile("web", "10.0.0.1", 443, remote("h.test")),
        profile("api", "10.0.0.1", 444, remote("i.test")),
    ]);
    let (events, begun) = data.begin_reload(
        "/c.toml",
        Ok(Ok(wanted)),
        &resolver(vec![Err("offline".to_owned()), Ok(answer(&["10.4.4.4"], 60))]),
        "CLI apply",
        60,
    );
    let commit = begun.unwrap();
    assert_eq!(commit.candidates[0].resolved.destination, Some(ip("10.1.1.1")));
    assert_eq!(
        events,
        [LogEvent {
            timestamp_unix: 60,
            level: "warn".to_owned(),
            message:
                "DNS cache fallback for profile web: DNS lookup failed; restored cache: offline"
                    .to_owned()
        }]
    );
    assert_eq!(data.logs, events);
}

#[test]
fn a_host_name_that_refuses_a_reload_is_an_error() {
    let mut data = DaemonData::new(RuntimeState::empty(3));
    let wanted = config(vec![profile("web", "10.0.0.1", 443, remote("h.test"))]);
    let (events, begun) = data.begin_reload(
        "/c.toml",
        Ok(Ok(wanted)),
        &resolver(vec![Err("offline".to_owned())]),
        "CLI apply",
        60,
    );
    let reason =
        "profile \"web\": initial DNS lookup for h.test failed and no fresh cache exists: offline";
    assert_eq!(begun.unwrap_err(), reason);
    assert_eq!(
        events,
        [LogEvent {
            timestamp_unix: 60,
            level: "error".to_owned(),
            message: format!("configuration reload failed (CLI apply): {reason}")
        }]
    );
    assert_eq!(data.logs, events);
    assert_eq!(data.state, RuntimeState::empty(3));
    assert!(data.active.is_empty());
}

#[test]
fn no_remote_profile_is_left_out_of_the_batch() {
    let built = build_active_profiles(
        validated(vec![
            profile("a", "10.0.0.1", 1, remote("a.test")),
            profile("b", "10.0.0.1", 2, remote("10.5.5.5")),
        ]),
        &RuntimeState::empty(0),
        &resolver(vec![Ok(answer(&["10.2.2.2"], 60))]),
        5,
    )
    .unwrap();
    let cycle = refresh_profiles(&built, &resolver(vec![Err("down".to_owned())]), 500);
    let degraded = degrade(built.clone(), &cycle.active, "no", 500);
    for active in [&built, &cycle.active, &degraded] {
        let batch = generate_batch(
            &resolved_profiles(active),
            OwnTables {
                ipv4: true,
                ipv6: false,
            },
        );
        assert!(batch.contains("tcp dport { 1 } dnat to 10.2.2.2:443\n"));
        assert!(batch.contains("tcp dport { 2 } dnat to 10.5.5.5:443\n"));
    }
}

#[test]
fn a_refresh_switches_or_degrades() {
    let switched = refresh_profile(
        active("web", "h.test", "10.1.1.1", 50),
        Ok(answer(&["10.2.2.2"], 240)),
        5,
        60,
    );
    assert!(switched.switched);
    assert_eq!(switched.profile.resolved.destination, Some(ip("10.2.2.2")));
    assert_eq!(switched.profile.dns.as_ref().unwrap().next_refresh_unix, Some(185));
    assert_eq!(
        switched.note.unwrap().message,
        "DNS address switched for profile web to 10.2.2.2"
    );
    let kept = refresh_profile(
        active("web", "h.test", "10.1.1.1", 50),
        Ok(answer(&["10.2.2.2", "10.1.1.1"], 240)),
        0,
        60,
    );
    assert!(!kept.switched);
    assert_eq!(kept.note, None);
    let rejected = refresh_profile(
        active("web", "h.test", "10.1.1.1", 50),
        Ok(answer(&["127.0.0.1"], 240)),
        0,
        60,
    );
    assert_eq!(rejected.profile.resolved.destination, Some(ip("10.1.1.1")));
    assert_eq!(
        rejected.note.unwrap().message,
        "DNS answer rejected for profile web: DNS answer for h.test has no allowed IPv4 address"
    );
    let lost = refresh_profile(
        active("web", "h.test", "10.1.1.1", 50),
        Err("timeout".to_owned()),
        0,
        60,
    );
    let status = lost.profile.dns.unwrap();
    assert_eq!(status.status, Health::Degraded);
    assert_eq!(status.failure_reason.as_deref(), Some("DNS refresh failed: timeout"));
    assert_eq!(
        lost.note.unwrap(),
        Note {
            level: "warn".to_owned(),
            message: "DNS refresh failed for profile web: timeout".to_owned()
        }
    );
}

#[test]
fn only_profiles_that_are_due_are_refreshed() {
    let profiles = vec![
        active("a", "a.test", "10.1.1.1", 61),
        active("b", "b.test", "10.1.1.2", 60),
    ];
    let cycle = refresh_profiles(
        &profiles,
        &resolver(vec![Ok(answer(&["10.1.1.3"], 600))]),
        60,
    );
    assert!(cycle.switched && cycle.attempted);
    assert_eq!(cycle.active[0], profiles[0]);
    assert_eq!(cycle.active[1].resolved.destination, Some(ip("10.1.1.3")));
    let next = cycle.active[1].dns.as_ref().unwrap().next_refresh_unix.unwrap();
    assert!((360..=375).contains(&next));
    assert_eq!(cycle.notes.len(), 1);
}

#[test]
fn a_refresh_is_planned_by_what_changed() {
    let mut data = DaemonData::new(RuntimeState::empty(0));
    let idle = data.begin_refresh(&resolver(vec![]), 60);
    assert_eq!(data.settle_refresh(idle, 60).0, Plan::Idle);
    data.active = vec![active("a", "a.test", "10.1.1.1", 50)];
    let cycle = data.begin_refresh(&resolver(vec![Err("down".to_owned())]), 60);
    assert!(data.logs.is_empty());
    let (plan, events) = data.settle_refresh(cycle, 64);
    let Plan::Keep { active } = plan else {
        panic!("nothing to keep");
    };
    assert_eq!(active[0].dns.as_ref().unwrap().next_refresh_unix, Some(120));
    assert_eq!(
        events,
        [LogEvent {
            timestamp_unix: 64,
            level: "warn".to_owned(),
            message: "DNS refresh failed for profile a: down".to_owned()
        }]
    );
    assert_eq!(data.logs, events);
    assert_eq!(data.active[0].dns.as_ref().unwrap().status, Health::Healthy);
    let cycle = data.begin_refresh(&resolver(vec![Ok(answer(&["10.3.3.3"], 60))]), 60);
    let (plan, _) = data.settle_refresh(cycle, 65);
    let Plan::Switch { active } = plan else {
        panic!("no switch");
    };
    let commit = data.begin_switch(active);
    assert_eq!(commit.reason, "DNS target switch");
    assert_eq!(commit.step, Step::CheckHooks);
}

#[test]
fn a_failed_switch_keeps_the_destinations() {
    let before = vec![
        active("a", "a.test", "10.1.1.1", 50),
        active("b", "b.test", "10.1.1.2", 50),
    ];
    let mut after = before.clone();
    after[1].resolved.destination = Some(ip("10.9.9.9"));
    let degraded = degrade(before.clone(), &after, "nft said no", 70);
    assert_eq!(degraded[0], before[0]);
    assert_eq!(degraded[1].resolved, before[1].resolved);
    let status = degraded[1].dns.as_ref().unwrap();
    assert_eq!(status.status, Health::Degraded);
    assert_eq!(
        status.failure_reason.as_deref(),
        Some("nft target switch failed: nft said no")
    );
    let commit = Commit::new(after, RuntimeState::empty(3), "DNS target switch".to_owned(), false);
    let (active, next) = give_up_switch(before, &commit, "nft said no", 70, 85);
    assert_eq!(active, degraded);
    assert_eq!(active[1].dns.as_ref().unwrap().next_refresh_unix, Some(130));
    assert_eq!(next, refreshed_state(&RuntimeState::empty(3), &active, 85));
    assert_eq!(next.updated_unix, 85);
    assert_eq!(next.profiles[1].health, Health::Degraded);
    let mut data = DaemonData::new(RuntimeState::empty(3));
    data.adopt(active.clone(), next.clone());
    assert_eq!(data.state, next);
    assert_eq!(data.active, active);
}

#[test]
fn clients_are_answered_from_the_data() {
    let mut data = DaemonData::new(RuntimeState::empty(4));
    data.log(LogEvent {
        timestamp_unix: 1,
        level: "info".to_owned(),
        message: "m".to_owned(),
    });
    assert_eq!(data.react(Ok(Request::Apply)), Reaction::Reload);
    let Reaction::Reply { response } = data.react(Ok(Request::Status)) else {
        panic!("no reply");
    };
    assert_eq!(response.state, Some(RuntimeState::empty(4)));
    assert_eq!((response.ok, response.message.as_str()), (true, "ok"));
    let Reaction::Reply { response } = data.react(Ok(Request::Logs)) else {
        panic!("no reply");
    };
    assert_eq!(response.logs.unwrap().len(), 1);
    assert_eq!(
        response.message,
        "in-memory daemon event stream; durable logs are journald/syslog"
    );
    let Reaction::Reply { response } = data.react(Err("bad".to_owned())) else {
        panic!("no reply");
    };
    assert_eq!((response.ok, response.message.as_str()), (false, "bad"));
    assert_eq!(apply_response(Ok(())).message, "full reload applied");
    let refused = apply_response(Err("syntax".to_owned()));
    assert!(!refused.ok);
    assert_eq!(
        refused.message,
        "full reload rejected; existing rules retained: syntax"
    );
}

#[test]
fn a_peer_that_is_not_root_is_turned_away() {
    let mut data = DaemonData::new(RuntimeState::empty(4));
    assert_eq!(data.turn_away(Some(0), 8), None);
    assert_eq!(data.turn_away(None, 8), None);
    assert!(data.logs.is_empty());
    let refusal = data.turn_away(Some(1000), 9).unwrap();
    assert!(!refusal.ok);
    assert_eq!(refusal.message, "control socket accepts root peers only");
    assert_eq!((refusal.state, refusal.logs), (None, None));
    assert_eq!(
        data.logs,
        [LogEvent {
            timestamp_unix: 9,
            level: "warn".to_owned(),
            message: "rejected non-root Unix socket peer".to_owned()
        }]
    );
    assert_eq!(data.state, RuntimeState::empty(4));
}

#[test]
fn the_log_holds_the_last_events() {
    let mut data = DaemonData::new(RuntimeState::empty(0));
    for time in 0..300 {
        data.log(LogEvent {
            timestamp_unix: time,
            level: "info".to_owned(),
            message: String::new(),
        });
    }
    assert_eq!(data.logs.len(), 256);
    assert_eq!(data.logs[0].timestamp_unix, 44);
    assert_eq!(data.logs[255].timestamp_unix, 299);
}

#[test]
fn the_state_file_may_be_missing() {
    let missing = || {
        load(
            "/s.json",
            StateFile::Unreadable {
                not_found: true,
                error: "gone".to_owned(),
            },
        )
    };
    assert_eq!(
        missing().unwrap_err(),
        LoadFailure {
            not_found: true,
            reason: "cannot read state /s.json: gone".to_owned()
        }
    );
    assert_eq!(load_optional(missing(), 5).unwrap(), RuntimeState::empty(5));
    assert_eq!(initial_state(missing(), 5), (RuntimeState::empty(5), None));
    let invalid = || {
        load(
            "/s.json",
            StateFile::Invalid {
                error: "eof".to_owned(),
            },
        )
    };
    assert_eq!(
        load_optional(invalid(), 5).unwrap_err(),
        "invalid state JSON in /s.json: eof"
    );
    assert_eq!(
        initial_state(invalid(), 5),
        (
            RuntimeState::empty(5),
            Some("port-forwardd: state cache ignored: invalid state JSON in /s.json: eof".to_owned())
        )
    );
    let kept = load(
        "/s.json",
        StateFile::State {
            state: RuntimeState::empty(1),
        },
    );
    assert_eq!(initial_state(kept, 5), (RuntimeState::empty(1), None));
}

#[test]
fn an_installed_daemon_has_its_paths() {
    let paths = DaemonPaths::defaults();
    assert_eq!(paths.config, "/etc/port-forward/config.toml");
    assert_eq!(paths.socket, "/run/port-forwardd.sock");
    assert_eq!(paths.state, "/var/lib/port-forward/state.json");
}

#[test]
fn a_status_without_dns_is_never_stale() {
    let fresh = DnsStatus::new("h".to_owned());
    assert_eq!(fresh.cache_age_seconds(1), None);
}

fn resolved(target: Target, destination: Option<&str>) -> ResolvedProfile {
    let mut one = profile("p", "10.0.0.1", 443, target);
    one.source_cidrs = vec!["10.0.0.0/8".to_owned(), "192.168.0.0/16".to_owned()];
    ResolvedProfile {
        validated: validated(vec![one]).remove(0),
        destination: destination.map(ip),
    }
}

fn resolved_v6(destination: &str) -> ResolvedProfile {
    let mut one = profile(
        "six",
        "fd00::1",
        53,
        Target::Remote {
            host: destination.to_owned(),
            port: 5353,
            source_mode: None,
        },
    );
    one.family = AddressFamily::Ipv6;
    one.protocols = vec![Protocol::Tcp, Protocol::Udp];
    ResolvedProfile {
        validated: validated(vec![one]).remove(0),
        destination: Some(ip(destination)),
    }
}

const INCOMING: &str = "ip daddr 10.0.0.1 ip saddr { 10.0.0.0/8, 192.168.0.0/16 } tcp dport { 443 }";

#[test]
fn a_batch_holds_the_rules_of_its_profiles() {
    let masqueraded = Target::Remote {
        host: "10.5.5.5".to_owned(),
        port: 8443,
        source_mode: Some(SourceMode::Masquerade),
    };
    let none = OwnTables {
        ipv4: false,
        ipv6: false,
    };
    let batch = generate_batch(
        &vec![resolved(masqueraded, Some("10.5.5.5")), resolved_v6("fd00::5")],
        none,
    );
    assert_eq!(
        batch,
        format!("table ip port_forward_v4 {{\n\tchain prerouting {{\n\t\ttype nat hook prerouting priority -100; policy accept;\n\t\t{INCOMING} dnat to 10.5.5.5:8443\n\t}}\n\tchain forward {{\n\t\ttype filter hook forward priority 0; policy accept;\n\t\tct state established,related accept\n\t\tip daddr 10.5.5.5 tcp dport 8443 ct status dnat accept\n\t}}\n\tchain postrouting {{\n\t\ttype nat hook postrouting priority 100; policy accept;\n\t\tip daddr 10.5.5.5 tcp dport 8443 ct status dnat masquerade\n\t}}\n}}\ntable ip6 port_forward_v6 {{\n\tchain prerouting {{\n\t\ttype nat hook prerouting priority -100; policy accept;\n\t\tip6 daddr fd00::1 ip6 saddr {{ ::/0 }} tcp dport {{ 53 }} dnat to [fd00::5]:5353\n\t\tip6 daddr fd00::1 ip6 saddr {{ ::/0 }} udp dport {{ 53 }} dnat to [fd00::5]:5353\n\t}}\n\tchain forward {{\n\t\ttype filter hook forward priority 0; policy accept;\n\t\tct state established,related accept\n\t\tip6 daddr fd00::5 tcp dport 5353 ct status dnat accept\n\t\tip6 daddr fd00::5 udp dport 5353 ct status dnat accept\n\t}}\n\tchain postrouting {{\n\t\ttype nat hook postrouting priority 100; policy accept;\n\t}}\n}}\n")
    );
    let preserved = generate_batch(&vec![resolved(remote("10.5.5.5"), Some("10.5.5.5"))], none);
    assert!(!preserved.contains("masquerade"));
    let local = generate_batch(
        &vec![
            resolved(Target::Redirect { port: 8443 }, None),
            resolved(Target::LoopbackDnat { port: 9443 }, None),
        ],
        OwnTables {
            ipv4: true,
            ipv6: true,
        },
    );
    assert!(local.starts_with("delete table ip port_forward_v4\ndelete table ip6 port_forward_v6\ntable ip "));
    assert!(local.contains(&format!("{INCOMING} redirect to :8443\n")));
    assert!(local.contains(&format!("{INCOMING} dnat to 127.0.0.1:9443\n")));
}

#[test]
fn our_tables_are_known_by_family_and_name() {
    let table = |family: &str, name: &str| TableName {
        family: family.to_owned(),
        name: name.to_owned(),
    };
    let found = |tables: Vec<TableName>| {
        let own = own_tables(&tables);
        (own.ipv4, own.ipv6)
    };
    assert_eq!(found(vec![]), (false, false));
    assert_eq!(
        found(vec![
            table("ip6", "port_forward_v4"),
            table("ip", "port_forward_v6"),
            table("inet", "port_forward_v4"),
            table("ip", "nat"),
        ]),
        (false, false)
    );
    assert_eq!(found(vec![table("ip", "nat"), table("ip", "port_forward_v4")]), (true, false));
    assert_eq!(found(vec![table("ip6", "port_forward_v6")]), (false, true));
}

#[test]
fn chains_of_others_conflict_at_our_hooks() {
    let chain = |family: &str, table: &str, hook: &str| BaseChain {
        family: family.to_owned(),
        table: table.to_owned(),
        hook: hook.to_owned(),
    };
    let found = external_hook_conflicts(&vec![
        chain("ip", "port_forward_v4", "prerouting"),
        chain("ip6", "port_forward_v6", "forward"),
        chain("ip", "filter", "input"),
        chain("inet", "docker", "forward"),
        chain("ip6", "port_forward_v4", "postrouting"),
    ]);
    assert_eq!(found, ["inet/docker/forward", "ip6/port_forward_v4/postrouting"]);
    assert_eq!(
        reject_external_hook_conflicts(&found).unwrap_err(),
        "external nftables base chains use the same hooks: inet/docker/forward, ip6/port_forward_v4/postrouting"
    );
    assert!(reject_external_hook_conflicts(&vec![]).is_ok());
}

#[test]
fn the_network_is_inspected_for_a_profile() {
    let at = |interface: &str, address: &str| InterfaceAddress {
        interface: interface.to_owned(),
        address: ip(address),
    };
    let redirect = resolved(Target::Redirect { port: 1 }, None);
    let loopback = resolved(Target::LoopbackDnat { port: 1 }, None);
    let once = vec![at("lo", "127.0.0.1"), at("eth0", "10.0.0.1")];
    let twice = vec![at("eth1", "10.0.0.1"), at("eth0", "10.0.0.1")];
    assert_eq!(inspect(&redirect, &twice), Ok(None));
    assert_eq!(inspect(&loopback, &once), Ok(Some("eth0".to_owned())));
    assert_eq!(
        inspect(&loopback, &twice).unwrap_err(),
        "profile \"p\" listen_address 10.0.0.1 is on more than one interface; loopback-dnat needs exactly one"
    );
    assert_eq!(
        inspect(&redirect, &vec![]).unwrap_err(),
        "profile \"p\" listen_address 10.0.0.1 is not assigned to this host"
    );
    let profiles = vec![loopback.clone(), redirect, loopback];
    assert_eq!(preflight(&profiles, &once), Ok(vec!["eth0".to_owned()]));
    assert!(preflight(&profiles, &twice).unwrap_err().contains("more than one interface"));
    assert_eq!(
        route_targets(&vec![resolved_v6("fd00::5"), resolved(remote("10.5.5.5"), Some("10.5.5.5"))]),
        vec![ip("fd00::5")]
    );
}
