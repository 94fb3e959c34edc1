use hy2_multiport::address::{read_ip, IpAddr};
use hy2_multiport::config::{
    decimal_width, is_documentation_address, validate_target_address, AddressFamily, Config,
    ConfigError, ListenPorts, Profile, Protocol, SourceMode, Target,
};
use hy2_multiport::host::InterfaceAddress;
use hy2_multiport::wizard::{
    interactive_wizard, plan_init, InitPlan, Question, Wizard, TODO_CONFIG,
};
use toml::{Table, Value};

fn ip(text: &str) -> IpAddr {
    read_ip(text).unwrap()
}

fn text_of(table: &Table, key: &str) -> Result<String, String> {
    match table.get(key).and_then(Value::as_str) {
        Some(value) => Ok(value.to_owned()),
        None => Err(format!("missing text {key}")),
    }
}

fn number_of(table: &Table, key: &str) -> Option<u32> {
    table
        .get(key)
        .and_then(Value::as_integer)
        .map(|value| u32::try_from(value).unwrap())
}

fn texts_of(table: &Table, key: &str) -> Vec<String> {
    match table.get(key).and_then(Value::as_array) {
        Some(values) => values
            .iter()
            .map(|value| value.as_str().unwrap().to_owned())
            .collect(),
        None => Vec::new(),
    }
}

fn target_of(table: &Table) -> Result<Target, String> {
    let port = u16::try_from(number_of(table, "port").unwrap()).unwrap();
    match text_of(table, "kind")?.as_str() {
        "remote" => Ok(Target::Remote {
            host: text_of(table, "host")?,
            port,
            source_mode: match table.get("source_mode").and_then(Value::as_str) {
                Some("masquerade") => Some(SourceMode::Masquerade),
                Some("preserve") => Some(SourceMode::Preserve),
                Some(other) => return Err(format!("unknown source mode {other}")),
                None => None,
            },
        }),
        "redirect" => Ok(Target::Redirect { port }),
        "loopback-dnat" => Ok(Target::LoopbackDnat { port }),
        other => Err(format!("unknown kind {other}")),
    }
}

fn profile_of(table: &Table) -> Result<Profile, String> {
    let ports = table.get("listen_ports").and_then(Value::as_table).unwrap();
    Ok(Profile {
        name: text_of(table, "name")?,
        family: match text_of(table, "family")?.as_str() {
            "ipv4" => AddressFamily::Ipv4,
            "ipv6" => AddressFamily::Ipv6,
            other => return Err(format!("unknown family {other}")),
        },
        listen_address: text_of(table, "listen_address")?,
        protocols: texts_of(table, "protocols")
            .iter()
            .map(|name| match name.as_str() {
                "tcp" => Protocol::Tcp,
                _ => Protocol::Udp,
            })
            .collect(),
        source_cidrs: texts_of(table, "source_cidrs"),
        allow_route_localnet: table
            .get("allow_route_localnet")
            .and_then(Value::as_bool)
            .unwrap_or(false),
        listen_ports: ListenPorts {
            range_start: number_of(ports, "range_start"),
            range_end: number_of(ports, "range_end"),
            suffix: number_of(ports, "suffix"),
            ports: ports.get("ports").and_then(Value::as_array).map(|values| {
                values
                    .iter()
                    .map(|value| u16::try_from(value.as_integer().unwrap()).unwrap())
                    .collect()
            }),
        },
        target: target_of(table.get("target").and_then(Value::as_table).unwrap())?,
    })
}

fn parse(body: &str) -> Result<Config, String> {
    let table = match toml::from_str::<Table>(body) {
        Ok(table) => table,
        Err(error) => return Err(error.to_string()),
    };
    let mut profiles = Vec::new();
    if let Some(values) = table.get("profiles").and_then(Value::as_array) {
        for value in values {
            profiles.push(profile_of(value.as_table().unwrap())?);
        }
    }
    Ok(Config {
        schema_version: number_of(&table, "schema_version").unwrap(),
        allow_external_chains: table
            .get("allow_external_chains")
            .and_then(Value::as_bool)
            .unwrap_or(false),
        profiles,
    })
}

fn from_toml(body: &str) -> Result<Config, ConfigError> {
    Config::from_toml(parse(body))
}

fn config(body: &str) -> Config {
    from_toml(body).expect("valid config")
}

const REMOTE: &str = r#"
schema_version = 1
[[profiles]]
name = "web"
family = "ipv4"
listen_address = "192.0.2.10"
protocols = ["tcp", "udp"]
[profiles.listen_ports]
range_start = 20000
range_end = 65536
suffix = 443
[profiles.target]
kind = "remote"
host = "198.51.100.7"
port = 443
source_mode = "masquerade"
"#;

const REDIRECT: &str = r#"
schema_version = 1
[[profiles]]
name = "dns"
family = "ipv4"
listen_address = "10.0.0.10"
protocols = ["udp"]
[profiles.listen_ports]
ports = [53]
[profiles.target]
kind = "redirect"
port = 5353
"#;

fn refusal(body: &str) -> String {
    from_toml(body).unwrap_err().message()
}

#[test]
fn parses_and_projects_tail_ports() {
    let profiles = config(REMOTE).validate().unwrap();
    assert_eq!(
        profiles[0].listen_ports,
        vec![
            20_443, 21_443, 22_443, 23_443, 24_443, 25_443, 26_443, 27_443, 28_443, 29_443, 30_443,
            31_443, 32_443, 33_443, 34_443, 35_443, 36_443, 37_443, 38_443, 39_443, 40_443, 41_443,
            42_443, 43_443, 44_443, 45_443, 46_443, 47_443, 48_443, 49_443, 50_443, 51_443, 52_443,
            53_443, 54_443, 55_443, 56_443, 57_443, 58_443, 59_443, 60_443, 61_443, 62_443, 63_443,
            64_443, 65_443
        ]
    );
}

#[test]
fn accepts_end_exclusive_65536() {
    let ports = ListenPorts {
        range_start: Some(65_000),
        range_end: Some(65_536),
        suffix: Some(5),
        ports: None,
    }
    .project()
    .unwrap();
    assert_eq!(*ports.last().unwrap(), 65_535);
}

#[test]
fn rejects_duplicate_listener_even_with_sources() {
    let duplicate = REMOTE.replace("name = \"web\"", "name = \"web2\"");
    let combined = format!(
        "{REMOTE}\n{}",
        duplicate.replace("schema_version = 1\n", "")
    );
    assert!(from_toml(&combined).is_err());
    assert_eq!(
        refusal(&combined),
        "configuration error: overlapping listener ipv4 Tcp 192.0.2.10:20443"
    );
}

#[test]
fn rejects_ipv6_source_mode_and_loopback_without_opt_in() {
    let ipv6 = REMOTE
        .replace("family = \"ipv4\"", "family = \"ipv6\"")
        .replace("192.0.2.10", "2001:db8::10")
        .replace("198.51.100.7", "2001:db8::7");
    assert!(from_toml(&ipv6).is_err());
    assert_eq!(
        refusal(&ipv6),
        "configuration error: profile \"web\" IPv6 remote target forbids source_mode/NAT66"
    );
    let loopback = REMOTE.replace(
        "kind = \"remote\"\nhost = \"198.51.100.7\"\nport = 443\nsource_mode = \"masquerade\"",
        "kind = \"loopback-dnat\"\nport = 443",
    );
    assert!(from_toml(&loopback).is_err());
    assert_eq!(
        refusal(&loopback),
        "configuration error: profile \"web\" loopback-dnat requires allow_route_localnet = true"
    );
}

#[test]
fn default_source_is_public_and_bad_targets_are_rejected() {
    let redirect = r#"
schema_version = 1
[[profiles]]
name = "dns"
family = "ipv6"
listen_address = "2001:db8::10"
protocols = ["udp"]
[profiles.listen_ports]
ports = [2053]
[profiles.target]
kind = "redirect"
port = 53
"#;
    let profile = config(redirect).validate().unwrap().remove(0);
    assert_eq!(profile.source_cidrs, ["::/0"]);
    assert!(validate_target_address(AddressFamily::Ipv4, ip("127.0.0.1"), "x").is_err());
    assert!(validate_target_address(AddressFamily::Ipv6, ip("fe80::1"), "x").is_err());
}

#[test]
fn external_chain_coexistence_is_opt_in() {
    assert!(!config("schema_version = 1").allow_external_chains);
    assert!(config("schema_version = 1\nallow_external_chains = true").allow_external_chains);
}

#[test]
fn deployable_validation_rejects_documentation_addresses_and_todos() {
    let documentation = REMOTE;
    assert!(from_toml(documentation)
        .unwrap()
        .validate_deployable()
        .unwrap_err()
        .message()
        .contains("documentation-reserved"));

    let todo = REMOTE
        .replace("192.0.2.10", "10.0.0.10")
        .replace("198.51.100.7", "10.0.0.7")
        .replace("name = \"web\"", "name = \"TODO-profile\"")
        .replace("198.51.100.0/24", "10.0.0.0/24");
    assert!(from_toml(&todo)
        .unwrap()
        .validate_deployable()
        .unwrap_err()
        .message()
        .contains("TODO"));
}

#[test]
fn errors_tell_their_kind() {
    let unreadable = Config::from_path("/etc/x.toml", Err("no such file".to_owned())).unwrap_err();
    assert_eq!(
        unreadable.message(),
        "cannot read configuration /etc/x.toml: no such file"
    );
    let invalid = Config::from_path("/etc/x.toml", Ok(Err("bad".to_owned()))).unwrap_err();
    assert_eq!(invalid, ConfigError::Toml("bad".to_owned()));
    assert_eq!(invalid.message(), "invalid TOML: bad");
    assert_eq!(
        refusal("schema_version = 2"),
        "configuration error: schema_version must be 1, got 2"
    );
}

#[test]
fn profiles_are_held_to_the_rules() {
    let cases = [
        (
            REDIRECT.replace("name = \"dns\"", "name = \"  \""),
            "profile name may not be empty",
        ),
        (
            REDIRECT.replace("10.0.0.10", "10.0.0.010"),
            "profile \"dns\" has invalid listen_address \"10.0.0.010\"",
        ),
        (
            REDIRECT.replace("10.0.0.10", "fd00::1"),
            "profile \"dns\" listen_address does not match family",
        ),
        (
            REDIRECT.replace("[\"udp\"]", "[]"),
            "profile \"dns\" protocols must be a non-empty tcp/udp set",
        ),
        (
            REDIRECT.replace("[\"udp\"]", "[\"udp\", \"udp\"]"),
            "profile \"dns\" protocols contains duplicates",
        ),
        (
            REDIRECT.replace("[\"udp\"]", "[\"udp\"]\nsource_cidrs = [\"10.0.0.0\"]"),
            "profile \"dns\" invalid source CIDR \"10.0.0.0\"",
        ),
        (
            REDIRECT.replace("[\"udp\"]", "[\"udp\"]\nsource_cidrs = [\"::/0\"]"),
            "profile \"dns\" source CIDR \"::/0\" does not match family",
        ),
        (
            REDIRECT.replace("[\"udp\"]", "[\"udp\"]\nsource_cidrs = [\"10.0.0.0/33\"]"),
            "profile \"dns\" source CIDR \"10.0.0.0/33\" has an invalid prefix length",
        ),
        (
            REDIRECT.replace(
                "[\"udp\"]",
                "[\"udp\"]\nsource_cidrs = [\"10.0.0.0/8\", \"10.0.0.0/8\"]",
            ),
            "profile \"dns\" source_cidrs contains duplicates",
        ),
        (
            REMOTE.replace("\"198.51.100.7\"", "\" \""),
            "profile \"web\" remote host may not be empty",
        ),
        (
            REMOTE.replace("source_mode = \"masquerade\"", ""),
            "profile \"web\" IPv4 remote target requires source_mode",
        ),
        (
            REMOTE.replace("198.51.100.7", "fd00::1"),
            "profile \"web\" remote target fd00::1 does not match family",
        ),
        (
            REMOTE.replace("198.51.100.7", "224.0.0.1"),
            "profile \"web\" remote target 224.0.0.1 is not allowed",
        ),
        (
            REDIRECT
                .replace("ipv4", "ipv6")
                .replace("10.0.0.10", "fd00::1")
                .replace("redirect", "loopback-dnat"),
            "profile \"dns\" loopback-dnat is IPv4 only; use redirect for IPv6",
        ),
    ];
    for (body, reason) in cases {
        assert_eq!(refusal(&body), format!("configuration error: {reason}"));
    }
    let twice = format!("{REDIRECT}{}", REDIRECT.replace("schema_version = 1\n", ""));
    assert_eq!(
        refusal(&twice),
        "configuration error: duplicate profile name \"dns\""
    );
}

#[test]
fn ports_are_held_to_the_rules() {
    let ports = |range_start, range_end, suffix, ports| ListenPorts {
        range_start,
        range_end,
        suffix,
        ports,
    };
    let cases = [
        (
            ports(Some(1), None, None, Some(vec![1])),
            "listen_ports range_start/range_end/suffix and ports are mutually exclusive",
        ),
        (
            ports(None, None, None, None),
            "listen_ports needs either range_start/range_end/suffix or ports",
        ),
        (
            ports(Some(1), Some(10), None, None),
            "range port projection requires range_start, range_end, and suffix",
        ),
        (
            ports(Some(10), Some(10), Some(1), None),
            "invalid right-open port range [10, 10)",
        ),
        (
            ports(Some(0), Some(10), Some(1), None),
            "invalid right-open port range [0, 10)",
        ),
        (
            ports(Some(1), Some(65_537), Some(1), None),
            "invalid right-open port range [1, 65537)",
        ),
        (
            ports(Some(1), Some(10), Some(443), None),
            "port range [1, 10) has no ports ending in 443",
        ),
        (
            ports(Some(1), Some(65_536), Some(4_000_000_000), None),
            "port range [1, 65536) has no ports ending in 4000000000",
        ),
        (
            ports(None, None, None, Some(vec![])),
            "listen_ports ports may not be empty",
        ),
        (
            ports(None, None, None, Some(vec![2, 1, 2])),
            "listen_ports ports contains duplicates",
        ),
    ];
    for (description, reason) in cases {
        assert_eq!(
            description.project().unwrap_err(),
            ConfigError::Semantic(reason.to_owned())
        );
    }
    assert_eq!(
        ports(None, None, None, Some(vec![3053, 2053]))
            .project()
            .unwrap(),
        vec![2053, 3053]
    );
    assert_eq!(
        ports(Some(1), Some(40), Some(0), None).project().unwrap(),
        vec![10, 20, 30]
    );
    assert_eq!(
        ports(Some(3), Some(24), Some(3), None).project().unwrap(),
        vec![3, 13, 23]
    );
    assert_eq!(decimal_width(0), 1);
    assert_eq!(decimal_width(443), 3);
    assert_eq!(decimal_width(u32::MAX), 10);
}

#[test]
fn deployment_asks_for_real_values() {
    let deployable = |body: &str| config(body).validate_deployable();
    assert_eq!(deployable(REDIRECT).unwrap().len(), 1);
    assert_eq!(
        deployable("schema_version = 1").unwrap_err().message(),
        "configuration error: profiles must contain at least one complete forwarding profile; run port-forward init"
    );
    assert_eq!(
        deployable(&REDIRECT.replace("\"dns\"", "\"tOdO\"")).unwrap_err().message(),
        "configuration error: profile \"tOdO\" field name still contains TODO value \"tOdO\"; complete the first-use wizard or edit the field before start"
    );
    assert_eq!(
        deployable(&REDIRECT.replace("10.0.0.10", "203.0.113.1")).unwrap_err().message(),
        "configuration error: profile \"dns\" listen_address 203.0.113.1 is a documentation-reserved address; replace it with an address assigned to this host"
    );
    assert_eq!(
        deployable(&REDIRECT.replace("[\"udp\"]", "[\"udp\"]\nsource_cidrs = [\"192.0.2.0/24\"]"))
            .unwrap_err()
            .message(),
        "configuration error: profile \"dns\" source CIDR \"192.0.2.0/24\" uses a documentation-reserved address; replace source_cidrs"
    );
    let remote = REMOTE.replace("192.0.2.10", "10.0.0.10");
    assert_eq!(
        deployable(&remote).unwrap_err().message(),
        "configuration error: profile \"web\" remote target 198.51.100.7 is documentation-reserved; replace target.host with a real destination"
    );
    assert_eq!(
        deployable(&remote.replace("198.51.100.7", "todo.example")).unwrap_err().message(),
        "configuration error: profile \"web\" field target.host still contains TODO value \"todo.example\"; complete the first-use wizard or edit the field before start"
    );
    assert!(deployable(&remote.replace("198.51.100.7", "origin.example")).is_ok());
}

#[test]
fn names_in_messages_are_quoted_and_escaped() {
    let body = REDIRECT
        .replace("name = \"dns\"", "name = 'a\"b'")
        .replace("10.0.0.10", "x");
    assert_eq!(
        refusal(&body),
        "configuration error: profile \"a\\\"b\" has invalid listen_address \"x\""
    );
}

#[test]
fn documentation_ranges_are_known() {
    for address in ["192.0.2.1", "198.51.100.255", "203.0.113.0", "2001:db8::1", "2001:db8:ffff::"] {
        assert!(is_documentation_address(ip(address)));
    }
    for address in ["192.0.3.1", "198.51.101.0", "10.0.0.1", "2001:db9::1", "fd00::1"] {
        assert!(!is_documentation_address(ip(address)));
    }
}

#[test]
fn target_addresses_are_checked_by_class() {
    for address in ["10.0.0.1", "192.168.1.1", "8.8.8.8", "0.0.0.1", "255.255.255.254"] {
        assert!(validate_target_address(AddressFamily::Ipv4, ip(address), "p").is_ok());
    }
    for address in ["127.9.9.9", "0.0.0.0", "224.0.0.1", "239.255.255.255", "255.255.255.255"] {
        assert!(validate_target_address(AddressFamily::Ipv4, ip(address), "p").is_err());
    }
    for address in ["fd00::1", "2001:db8::1", "fec0::1"] {
        assert!(validate_target_address(AddressFamily::Ipv6, ip(address), "p").is_ok());
    }
    for address in ["::", "::1", "ff02::1", "fe80::1", "febf::1"] {
        assert!(validate_target_address(AddressFamily::Ipv6, ip(address), "p").is_err());
    }
    assert_eq!(
        validate_target_address(AddressFamily::Ipv4, ip("::1"), "p").unwrap_err().message(),
        "configuration error: profile \"p\" remote target ::1 does not match family"
    );
}

#[test]
fn families_and_protocols_have_their_names() {
    assert!(AddressFamily::Ipv4.matches(ip("1.2.3.4")));
    assert!(!AddressFamily::Ipv4.matches(ip("::")));
    assert!(AddressFamily::Ipv6.matches(ip("::")));
    assert_eq!(AddressFamily::Ipv4.any_source(), "0.0.0.0/0");
    assert_eq!(AddressFamily::Ipv6.any_source(), "::/0");
    assert_eq!(Protocol::Tcp.nft_name(), "tcp");
    assert_eq!(Protocol::Udp.nft_name(), "udp");
}

#[test]
fn accepted_listeners_are_disjoint() {
    let other = REDIRECT
        .replace("schema_version = 1\n", "")
        .replace("name = \"dns\"", "name = \"other\"");
    let taken = format!("{REDIRECT}{other}");
    assert!(from_toml(&taken).is_err());
    let apart = format!("{REDIRECT}{}", other.replace("[53]", "[54]"));
    assert_eq!(config(&apart).validate().unwrap().len(), 2);
    let tcp = format!("{REDIRECT}{}", other.replace("udp", "tcp"));
    assert_eq!(config(&tcp).validate().unwrap().len(), 2);
}

#[test]
fn template_init_writes_explicit_non_startable_todos() {
    assert_eq!(
        plan_init("config.toml", false, true, true),
        InitPlan::Template { notice: None }
    );
    assert!(TODO_CONFIG.contains("TODO-listen-address"));
    let parsed = parse(TODO_CONFIG);
    assert_eq!(parsed.as_ref().unwrap().profiles[0].name, "TODO-profile-name");
    assert!(Config::from_path("config.toml", Ok(parsed)).is_err());
}

fn told(lines: &[&str]) -> Wizard {
    let mut wizard = Wizard::start(Ok(vec![
        InterfaceAddress {
            interface: "eth0".to_owned(),
            address: ip("10.0.0.1"),
        },
        InterfaceAddress {
            interface: "eth1".to_owned(),
            address: ip("fd00::1"),
        },
    ]))
    .unwrap();
    for line in lines {
        wizard.answer(line).unwrap();
    }
    assert_eq!(wizard.question, Question::Nothing);
    wizard
}

#[test]
fn what_the_wizard_writes_is_one_profile_with_its_answers() {
    let redirect = told(&["1", "", "", "", "", "", ""]);
    let parsed = parse(&redirect.configuration()).unwrap();
    assert_eq!(
        parsed,
        Config {
            schema_version: 1,
            allow_external_chains: false,
            profiles: vec![Profile {
                name: "first-forward".to_owned(),
                family: AddressFamily::Ipv4,
                listen_address: "10.0.0.1".to_owned(),
                protocols: vec![Protocol::Tcp],
                source_cidrs: vec!["0.0.0.0/0".to_owned()],
                allow_route_localnet: false,
                listen_ports: ListenPorts {
                    range_start: None,
                    range_end: None,
                    suffix: None,
                    ports: Some(vec![443]),
                },
                target: Target::Redirect { port: 8443 },
            }],
        }
    );
    assert_eq!(
        interactive_wizard(&redirect, Ok(parsed)).unwrap(),
        redirect.configuration()
    );
    let remote = told(&[
        "1", "both", "80", "remote", "81", "10.0.0.0/8", "a \"b\" \\c", "origin.test", "preserve",
    ]);
    let parsed = parse(&remote.configuration()).unwrap();
    assert_eq!(parsed.profiles[0].name, "a \"b\" \\c");
    assert_eq!(parsed.profiles[0].protocols, [Protocol::Tcp, Protocol::Udp]);
    assert_eq!(
        parsed.profiles[0].target,
        Target::Remote {
            host: "origin.test".to_owned(),
            port: 81,
            source_mode: Some(SourceMode::Preserve),
        }
    );
    assert!(interactive_wizard(&remote, Ok(parsed)).is_ok());
    let loopback = told(&["1", "udp", "80", "loopback-dnat", "81", "", "local"]);
    let parsed = parse(&loopback.configuration()).unwrap();
    assert!(parsed.profiles[0].allow_route_localnet);
    assert_eq!(parsed.profiles[0].target, Target::LoopbackDnat { port: 81 });
    assert!(interactive_wizard(&loopback, Ok(parsed)).is_ok());
}

#[test]
fn the_wizard_refuses_a_bad_source_and_a_bad_literal_target() {
    for lines in [
        vec!["1", "", "", "", "", "nowhere", ""],
        vec!["1", "", "", "", "", "fd00::/8", ""],
        vec!["2", "", "", "remote", "", "", "", "10.5.5.5"],
        vec!["1", "", "", "remote", "", "", "", "127.0.0.1", ""],
    ] {
        let wizard = told(&lines);
        let parsed = parse(&wizard.configuration());
        assert!(parsed.is_ok());
        assert!(interactive_wizard(&wizard, parsed).is_err());
    }
}

#[test]
fn families_and_protocols_are_ordered() {
    assert!(AddressFamily::Ipv4 < AddressFamily::Ipv6);
    assert!(Protocol::Tcp < Protocol::Udp);
}
