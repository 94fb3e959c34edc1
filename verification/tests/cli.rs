use hy2_multiport::address::{read_ip, IpAddr};
use hy2_multiport::config::{
    AddressFamily, Config, ConfigError, ListenPorts, Profile, Protocol, Target,
};
use hy2_multiport::control::{
    accept_response, bind_socket, decode_request, frame_line, payload_of, receive_request, LogEvent,
    Request, Response, SocketPath, MAX_REQUEST_BYTES,
};
use hy2_multiport::dns::{DnsStatus, Health};
use hy2_multiport::doctor::{
    check_line, command_doctor_check, config_doctor_check, doctor_report,
    external_hook_doctor_check, init_doctor_check, local_addresses_doctor_check,
    nft_table_doctor_check, setup_line, socket_doctor_check, Findings, NftFindings,
};
use hy2_multiport::host::{
    effective_root, local_interface_addresses, parse_addresses, CommandOutput, InterfaceAddress,
};
use hy2_multiport::service::{
    command_output, log_command, log_line, not_ready, offline_logs, readiness, run_service_action,
    select_service_manager, service_command, service_failure_diagnostics, service_is_active,
    service_log_hint, service_manager, service_with_valid_config, status_command, ActionResult,
    LogFiles, Readiness, ServiceAction, ServiceManager, NO_MANAGER,
};
use hy2_multiport::state::{mark_refresh_expired, render_human, ProfileStatus, RuntimeState};
use hy2_multiport::wizard::{
    init_report, interactive_wizard, plan_init, prompt, prompt_port, InitPlan, Question, Wizard,
    TODO_CONFIG,
};

fn ip(text: &str) -> IpAddr {
    read_ip(text).unwrap()
}

fn ran(success: bool, stdout: &str, stderr: &str) -> CommandOutput {
    CommandOutput {
        success,
        stdout: stdout.to_owned(),
        stderr: stderr.to_owned(),
    }
}

fn status() -> ProfileStatus {
    ProfileStatus {
        name: "p".into(),
        family: AddressFamily::Ipv4,
        protocols: vec![],
        listen_address: "192.0.2.1".into(),
        listen_ports: vec![],
        source_cidrs: vec![],
        publicly_exposed: true,
        target_kind: "remote".into(),
        target_port: 1,
        target_host: Some("x".into()),
        target_address: Some("198.51.100.1".into()),
        source_mode: None,
        dns: Some(DnsStatus {
            host: "x".into(),
            active_address: Some(ip("198.51.100.1")),
            last_success_unix: None,
            next_refresh_unix: Some(1),
            cache_written_unix: Some(0),
            status: Health::Healthy,
            failure_reason: None,
        }),
        health: Health::Healthy,
        failure_reason: None,
    }
}

fn template_config() -> Config {
    Config {
        schema_version: 1,
        allow_external_chains: false,
        profiles: vec![Profile {
            name: "TODO-profile-name".to_owned(),
            family: AddressFamily::Ipv4,
            listen_address: "TODO-listen-address".to_owned(),
            protocols: vec![Protocol::Tcp],
            source_cidrs: vec!["TODO-source-cidr".to_owned()],
            allow_route_localnet: false,
            listen_ports: ListenPorts {
                range_start: None,
                range_end: None,
                suffix: None,
                ports: Some(vec![443]),
            },
            target: Target::Redirect { port: 8443 },
        }],
    }
}

fn real_config() -> Config {
    let mut config = template_config();
    config.profiles[0].name = "web".to_owned();
    config.profiles[0].listen_address = "10.0.0.1".to_owned();
    config.profiles[0].source_cidrs = vec![];
    config
}

fn missing_config() -> Result<Config, ConfigError> {
    Config::from_path("missing.toml", Err("not found".to_owned()))
}

fn findings() -> Findings {
    Findings {
        nft: None,
        has_ip: true,
        addresses: Ok(vec![]),
        config_path: "missing.toml".to_owned(),
        config: missing_config(),
        socket_path: "socket".to_owned(),
        is_socket: Err("not found".to_owned()),
        manager: None,
    }
}

#[test]
fn cached_status_marks_overdue_dns_when_daemon_is_down() {
    let mut state = RuntimeState::empty(0);
    state.profiles.push(status());
    assert_eq!(
        mark_refresh_expired(state, 2).profiles[0].health,
        Health::Degraded
    );
}

#[test]
fn service_manager_selection_requires_a_usable_manager() {
    for has_systemctl in [false, true] {
        for has_rc_service in [false, true] {
            assert_eq!(
                select_service_manager(true, true, has_systemctl, has_rc_service),
                if has_systemctl {
                    Some(ServiceManager::Systemd)
                } else if has_rc_service {
                    Some(ServiceManager::OpenRc)
                } else {
                    None
                }
            );
        }
    }
    assert_eq!(select_service_manager(false, false, true, true), None);
    assert_eq!(
        select_service_manager(false, true, true, true),
        Some(ServiceManager::OpenRc)
    );
}

#[test]
fn init_never_overwrites_an_existing_config() {
    for force_template in [false, true] {
        for interactive in [false, true] {
            assert_eq!(
                plan_init("config.toml", true, force_template, interactive),
                InitPlan::Refuse {
                    reason: "拒绝覆盖已有配置 config.toml。请先备份并手动编辑，或运行 port-forward validate。".to_owned()
                }
            );
        }
    }
}

#[test]
fn doctor_reports_missing_config_as_an_actionable_error() {
    let report = doctor_report(&findings());
    assert!(report
        .checks
        .iter()
        .any(|check| check.name == "配置" && check.status == "error"));
    assert_eq!(report.checks.len(), 6);
    assert_eq!(
        report.checks[3].detail,
        "missing.toml：cannot read configuration missing.toml: not found"
    );
}

#[test]
fn missing_socket_logs_use_service_fallback() {
    assert_eq!(
        offline_logs("missing.sock", None),
        "daemon 未运行，显示启动日志（控制 socket 不存在：missing.sock）。\n未检测到 systemd/OpenRC；查看直接启动命令的终端输出\n"
    );
    assert_eq!(
        offline_logs("missing.sock", Some("told".to_owned())),
        "daemon 未运行，显示启动日志（控制 socket 不存在：missing.sock）。\ntold"
    );
}

#[test]
fn startup_never_succeeds_when_socket_is_missing() {
    for before_deadline in [false, true] {
        for active in [false, true] {
            assert_ne!(readiness(before_deadline, active, false), Readiness::Ready);
        }
    }
    assert_eq!(readiness(false, true, true), Readiness::TimedOut);
    assert_eq!(readiness(true, true, true), Readiness::Ready);
    assert_eq!(readiness(true, false, true), Readiness::Wait);
    assert!(not_ready("missing.sock").contains("（missing.sock）"));
}

#[test]
fn an_overdue_refresh_is_told_only_where_there_is_one() {
    let mut state = RuntimeState::empty(0);
    state.profiles.push(status());
    let fresh = mark_refresh_expired(state.clone(), 0);
    assert_eq!(fresh, state);
    let stale = mark_refresh_expired(state, 1);
    assert_eq!(
        stale.profiles[0].failure_reason.as_deref(),
        Some("daemon unavailable; DNS refresh is overdue")
    );
    assert_eq!(mark_refresh_expired(stale.clone(), 1), stale);
}

#[test]
fn a_state_is_summarized() {
    let mut state = RuntimeState::empty(0);
    let mut first = status();
    first.protocols = vec![Protocol::Tcp, Protocol::Udp];
    first.listen_ports = vec![443, 8443];
    state.profiles.push(first);
    let mut second = status();
    second.family = AddressFamily::Ipv6;
    second.target_address = None;
    second.target_host = None;
    second.publicly_exposed = false;
    second.dns = None;
    second.health = Health::Failed;
    state.profiles.push(second);
    assert_eq!(
        render_human(&state, 30),
        "config version: 0\nnft rules version: 0\nprofiles: 2\n- p: Ipv4 [Tcp, Udp] 192.0.2.1:[443, 8443] -> 198.51.100.1:1 [healthy, public; cache 30s]\n- p: Ipv6 [] 192.0.2.1:[] -> -:1 [failed; cache -]\n"
    );
}

#[test]
fn request_lines_have_a_bounded_length() {
    let refused = Err("invalid control request length".to_owned());
    assert_eq!(receive_request(""), refused);
    assert_eq!(
        receive_request(&"x".repeat(MAX_REQUEST_BYTES + 1)),
        refused
    );
    assert_eq!(receive_request(&"é".repeat(MAX_REQUEST_BYTES / 2 + 1)), refused);
    assert!(receive_request(&"x".repeat(MAX_REQUEST_BYTES)).is_ok());
    assert_eq!(
        receive_request("{\"command\":\"status\"} \r\n").unwrap(),
        "{\"command\":\"status\"}"
    );
    assert_eq!(payload_of(" {} \n"), " {}");
    assert_eq!(decode_request(Ok(Request::Logs)), Ok(Request::Logs));
    assert_eq!(
        decode_request(Err("eof".to_owned())),
        Err("invalid control request JSON".to_owned())
    );
    assert_eq!(frame_line(vec![123, 125]), vec![123, 125, 10]);
}

#[test]
fn a_refused_request_is_an_error_to_the_client() {
    let fine = Response::success("done".to_owned());
    assert_eq!(accept_response(fine).unwrap().message, "done");
    assert_eq!(
        accept_response(Response::failure("no".to_owned())).unwrap_err(),
        "daemon rejected request: no"
    );
}

#[test]
fn only_a_stale_socket_is_replaced() {
    assert_eq!(bind_socket("/s", SocketPath::Missing), Ok(false));
    assert_eq!(bind_socket("/s", SocketPath::Socket), Ok(true));
    assert_eq!(
        bind_socket("/s", SocketPath::SomethingElse),
        Err("refusing to replace non-socket control path /s".to_owned())
    );
    assert_eq!(
        bind_socket(
            "/s",
            SocketPath::Unknown {
                error: "denied".to_owned()
            }
        ),
        Err("cannot inspect socket /s: denied".to_owned())
    );
}

#[test]
fn interface_addresses_are_parsed() {
    let output = "lo UNKNOWN 127.0.0.1/8 ::1/128\neth0 UP 10.0.0.1/24 fd00::1/64 junk 0.0.0.0/0\n\nwg0 DOWN\neth1@if2 UP 10.0.0.2\r\n";
    let expected = [
        ("lo", "127.0.0.1"),
        ("lo", "::1"),
        ("eth0", "10.0.0.1"),
        ("eth0", "fd00::1"),
        ("eth1@if2", "10.0.0.2"),
    ];
    let found = parse_addresses(output);
    assert_eq!(found.len(), expected.len());
    for (entry, (interface, address)) in found.iter().zip(expected) {
        assert_eq!(entry.interface, interface);
        assert_eq!(entry.address, ip(address));
    }
    assert_eq!(
        local_interface_addresses(Ok(ran(false, "", " no device \n"))).unwrap_err(),
        "ip -brief address 失败：no device"
    );
    assert_eq!(
        local_interface_addresses(Err("not found".to_owned())).unwrap_err(),
        "无法执行 ip -brief address: not found"
    );
    assert_eq!(
        local_interface_addresses(Ok(ran(true, "lo UNKNOWN ::1/128", ""))).unwrap().len(),
        1
    );
}

#[test]
fn the_effective_user_is_read_from_the_status() {
    assert!(effective_root("Name:\tx\nUid:\t1000\t0\t0\t0\nGid:\t0\n"));
    assert!(!effective_root("Uid:\t0\t1000\t0\t0\n"));
    assert!(!effective_root("Uid:\t0\n"));
    assert!(!effective_root("xUid:\t0\t0\t0\n"));
    assert!(!effective_root(""));
}

#[test]
fn services_are_managed_by_commands() {
    let words = |command: hy2_multiport::service::CommandLine| {
        format!("{} {}", command.program, command.arguments.join(" "))
    };
    assert_eq!(
        words(service_command(ServiceManager::Systemd, ServiceAction::Restart)),
        "systemctl restart port-forwardd.service"
    );
    assert_eq!(
        words(service_command(ServiceManager::OpenRc, ServiceAction::Stop)),
        "rc-service port-forwardd stop"
    );
    assert_eq!(
        words(service_is_active(ServiceManager::Systemd)),
        "systemctl is-active --quiet port-forwardd.service"
    );
    assert_eq!(
        words(service_is_active(ServiceManager::OpenRc)),
        "rc-service port-forwardd status"
    );
    assert_eq!(
        words(status_command(ServiceManager::Systemd)),
        "systemctl status port-forwardd.service --no-pager -l"
    );
    let files = |messages, syslog, daemon_log| LogFiles {
        messages,
        syslog,
        daemon_log,
    };
    let none = files(false, false, false);
    assert_eq!(
        words(log_command(ServiceManager::Systemd, false, none).unwrap()),
        "journalctl -u port-forwardd -n 100 --no-pager"
    );
    assert_eq!(
        words(log_command(ServiceManager::OpenRc, false, files(false, true, true)).unwrap()),
        "tail -n 100 /var/log/syslog"
    );
    assert_eq!(
        words(log_command(ServiceManager::OpenRc, false, files(true, true, true)).unwrap()),
        "tail -n 100 /var/log/messages"
    );
    assert_eq!(
        words(log_command(ServiceManager::OpenRc, false, files(false, false, true)).unwrap()),
        "tail -n 100 /var/log/daemon.log"
    );
    assert_eq!(log_command(ServiceManager::OpenRc, false, none), None);
}

#[test]
fn service_results_are_told() {
    assert_eq!(service_manager(None).unwrap_err(), NO_MANAGER);
    assert_eq!(
        service_manager(Some(ServiceManager::OpenRc)),
        Ok(ServiceManager::OpenRc)
    );
    assert_eq!(
        run_service_action(
            ServiceManager::Systemd,
            ServiceAction::Stop,
            Ok(ran(true, "", ""))
        ),
        ActionResult::Performed {
            message: "服务操作成功：systemctl stop port-forwardd".to_owned()
        }
    );
    assert_eq!(
        run_service_action(
            ServiceManager::Systemd,
            ServiceAction::Start,
            Ok(ran(true, "", ""))
        ),
        ActionResult::AwaitReady
    );
    assert_eq!(
        run_service_action(
            ServiceManager::OpenRc,
            ServiceAction::Start,
            Ok(ran(false, " out ", "  "))
        ),
        ActionResult::Failed {
            message: "服务操作失败：rc-service start port-forwardd：out\n".to_owned()
        }
    );
    assert_eq!(
        run_service_action(
            ServiceManager::OpenRc,
            ServiceAction::Start,
            Ok(ran(false, "", ""))
        ),
        ActionResult::Failed {
            message: "服务操作失败：rc-service start port-forwardd：命令未输出详情\n".to_owned()
        }
    );
    assert_eq!(
        run_service_action(
            ServiceManager::OpenRc,
            ServiceAction::Start,
            Err("not found".to_owned())
        ),
        ActionResult::NotRun {
            message: "无法执行 rc-service: not found".to_owned()
        }
    );
    let command = status_command(ServiceManager::OpenRc);
    assert_eq!(
        command_output(&command, Ok(ran(false, "", "stopped\n"))),
        "$ rc-service port-forwardd status\nstopped"
    );
    assert_eq!(
        command_output(&command, Ok(ran(true, "", ""))),
        "$ rc-service port-forwardd status\n（命令未输出详情）"
    );
    assert_eq!(
        command_output(&command, Err("not found".to_owned())),
        "$ rc-service port-forwardd status\n（无法运行：not found）"
    );
    assert_eq!(
        service_failure_diagnostics(ServiceManager::OpenRc, "S", None),
        "服务状态与启动日志：\nS\nOpenRC 未发现 journald 或常见 syslog 文件；请检查系统日志服务。"
    );
    assert_eq!(
        service_failure_diagnostics(ServiceManager::Systemd, "S", Some("L".to_owned())),
        "服务状态与最近启动日志（请保留其中的 nft/config 错误）：\nS\nL"
    );
    assert_eq!(
        log_line(&LogEvent {
            timestamp_unix: 12,
            level: "warn".to_owned(),
            message: "m".to_owned()
        }),
        "12 warn m"
    );
    assert!(service_log_hint(Some(ServiceManager::Systemd)).contains("journalctl"));
    assert!(service_log_hint(Some(ServiceManager::OpenRc)).contains("syslog"));
}

#[test]
fn a_service_is_started_with_a_valid_configuration_only() {
    let start = |loaded: Option<Result<Config, ConfigError>>| {
        service_with_valid_config("/c.toml", &loaded, Some(ServiceManager::Systemd))
    };
    assert_eq!(start(Some(Ok(real_config()))), Ok(()));
    assert_eq!(
        start(None).unwrap_err(),
        "未执行服务操作：缺少配置 /c.toml。运行：sudo port-forward init\n日志查看：sudo journalctl -u port-forwardd -n 100 --no-pager"
    );
    assert_eq!(
        start(Some(missing_config())).unwrap_err(),
        "未执行服务操作：配置 /c.toml 无效：cannot read configuration missing.toml: not found\n修复后运行：sudo port-forward validate\n日志查看：sudo journalctl -u port-forwardd -n 100 --no-pager"
    );
}

#[test]
fn checks_tell_what_was_found() {
    let line = |check: hy2_multiport::doctor::DoctorCheck| check_line(&check);
    assert_eq!(line(command_doctor_check("nft", "nft", true)), "[ok] nft：找到 nft");
    assert_eq!(
        line(command_doctor_check("ip", "ip", false)),
        "[error] ip：未找到 ip；请安装所需系统包"
    );
    assert_eq!(
        line(config_doctor_check("/c.toml", &Ok(real_config()))),
        "[ok] 配置：/c.toml 通过语义验证"
    );
    let found = vec![
        InterfaceAddress {
            interface: "lo".to_owned(),
            address: ip("127.0.0.1"),
        },
        InterfaceAddress {
            interface: "eth0".to_owned(),
            address: ip("fd00::1"),
        },
    ];
    assert_eq!(
        line(local_addresses_doctor_check(&Ok(found))),
        "[ok] 本机接口地址：lo:127.0.0.1, eth0:fd00::1"
    );
    assert_eq!(
        line(local_addresses_doctor_check(&Ok(vec![]))),
        "[warning] 本机接口地址：未发现可用 IPv4/IPv6 地址"
    );
    assert_eq!(
        line(local_addresses_doctor_check(&Err("x".to_owned()))),
        "[error] 本机接口地址：无法读取 `ip -brief address`：x"
    );
    assert_eq!(
        line(socket_doctor_check("/s", &Ok(true))),
        "[ok] 控制 socket：/s 存在"
    );
    assert_eq!(
        line(socket_doctor_check("/s", &Ok(false))),
        "[warning] 控制 socket：/s 存在但不是 Unix socket"
    );
    assert_eq!(
        line(socket_doctor_check("/s", &Err("x".to_owned()))),
        "[warning] 控制 socket：/s 不可用：x"
    );
    assert_eq!(
        line(init_doctor_check(Some(ServiceManager::Systemd))),
        "[ok] 服务管理：检测到 systemd"
    );
    assert_eq!(
        line(init_doctor_check(Some(ServiceManager::OpenRc))),
        "[ok] 服务管理：检测到 OpenRC"
    );
    assert_eq!(init_doctor_check(None).detail, NO_MANAGER);
    assert_eq!(
        line(nft_table_doctor_check("ip", "t", &Ok(ran(true, "", "")))),
        "[ok] 自有 nft table ip t：已安装"
    );
    assert_eq!(
        line(nft_table_doctor_check("ip", "t", &Ok(ran(false, "", " gone ")))),
        "[warning] 自有 nft table ip t：未安装或无法查询：gone"
    );
    assert_eq!(
        line(nft_table_doctor_check("ip", "t", &Err("x".to_owned()))),
        "[warning] 自有 nft table ip t：无法运行 nft：x"
    );
    let mut open = real_config();
    open.allow_external_chains = true;
    let hooks = |config: Config, conflicts: Result<Vec<String>, String>| {
        external_hook_doctor_check(&Ok(config), &conflicts)
    };
    assert_eq!(
        line(hooks(real_config(), Ok(vec![]))),
        "[ok] 外部 nft hook：未检测到冲突；allow_external_chains=false"
    );
    let two = || Ok(vec!["a".to_owned(), "b".to_owned()]);
    assert!(line(hooks(open, two())).starts_with("[warning] 外部 nft hook：检测到 a, b；allow_external_chains=true。"));
    assert!(line(hooks(real_config(), two())).starts_with("[error] 外部 nft hook：检测到 a, b；allow_external_chains=false，"));
    assert_eq!(
        line(hooks(real_config(), Err("x".to_owned()))),
        "[warning] 外部 nft hook：无法只读检查 nft hook：x"
    );
    assert_eq!(
        setup_line(&command_doctor_check("nft", "nft", true)),
        "[OK] nft：找到 nft"
    );
    assert!(setup_line(&init_doctor_check(None)).starts_with("[WARN] "));
    assert!(setup_line(&command_doctor_check("ip", "ip", false)).starts_with("[ERROR] "));
}

#[test]
fn nftables_is_diagnosed_where_it_is() {
    let mut found = findings();
    found.nft = Some(NftFindings {
        ipv4_table: Ok(ran(true, "", "")),
        ipv6_table: Err("x".to_owned()),
        conflicts: Ok(vec![]),
    });
    let report = doctor_report(&found);
    let names: Vec<&str> = report.checks.iter().map(|check| check.name.as_str()).collect();
    assert_eq!(
        names,
        [
            "nft",
            "ip",
            "本机接口地址",
            "配置",
            "控制 socket",
            "服务管理",
            "自有 nft table ip port_forward_v4",
            "自有 nft table ip6 port_forward_v6",
            "外部 nft hook"
        ]
    );
}

fn wizard() -> Wizard {
    Wizard::start(Ok(vec![
        InterfaceAddress {
            interface: "eth0".to_owned(),
            address: ip("10.0.0.1"),
        },
        InterfaceAddress {
            interface: "eth1".to_owned(),
            address: ip("fd00::1"),
        },
        InterfaceAddress {
            interface: "doc0".to_owned(),
            address: ip("192.0.2.1"),
        },
    ]))
    .unwrap()
}

fn told(lines: &[&str]) -> Result<Wizard, String> {
    let mut wizard = wizard();
    for line in lines {
        wizard.answer(line)?;
    }
    Ok(wizard)
}

#[test]
fn the_wizard_offers_the_addresses_of_the_host() {
    assert_eq!(
        wizard().listing(),
        "本机接口地址：\n  1) 10.0.0.1  (eth0)\n  2) fd00::1  (eth1)\n  3) 192.0.2.1  (doc0)\n"
    );
    assert_eq!(wizard().prompt_text(), "选择监听地址序号，或直接输入地址：");
    assert!(Wizard::start(Ok(vec![])).unwrap_err().starts_with("未从 `ip -brief address`"));
    assert_eq!(Wizard::start(Err("no ip".to_owned())).unwrap_err(), "no ip");
}

#[test]
fn defaults_make_a_redirect() {
    let wizard = told(&["1\n", "\n", "", "", "", "", ""]).unwrap();
    assert_eq!(wizard.question, Question::Nothing);
    assert_eq!(
        wizard.configuration(),
        "# Created by `port-forward init`; review before start.\nschema_version = 1\nallow_external_chains = false\n\n[[profiles]]\nname = \"first-forward\"\nfamily = \"ipv4\"\nlisten_address = \"10.0.0.1\"\nprotocols = [\"tcp\"]\nsource_cidrs = [\"0.0.0.0/0\"]\n\n[profiles.listen_ports]\nports = [443]\n\n[profiles.target]\nkind = \"redirect\"\nport = 8443\n"
    );
    assert!(toml::from_str::<toml::Table>(&wizard.configuration()).is_ok());
    assert_eq!(
        interactive_wizard(&wizard, Ok(real_config())).unwrap(),
        wizard.configuration()
    );
    assert_eq!(
        interactive_wizard(&wizard, Ok(template_config())).unwrap_err(),
        "向导输入未通过语义验证；未创建配置，请重新运行 init: configuration error: profile \"TODO-profile-name\" has invalid listen_address \"TODO-listen-address\""
    );
}

#[test]
fn a_remote_target_asks_for_its_host() {
    let wizard = told(&["10.0.0.1", "both", "8443", "remote", "443", "10.0.0.0/8", "web", "origin.test", "preserve"]).unwrap();
    assert_eq!(wizard.question, Question::Nothing);
    let body = wizard.configuration();
    assert!(body.contains("protocols = [\"tcp\", \"udp\"]\nsource_cidrs = [\"10.0.0.0/8\"]"));
    assert!(body.ends_with("kind = \"remote\"\nport = 443\nhost = \"origin.test\"\nsource_mode = \"preserve\"\n"));
    let ipv6 = told(&["2", "udp", "53", "remote", "53", "", "dns", "fd00::5"]).unwrap();
    assert_eq!(ipv6.question, Question::Nothing);
    let body = ipv6.configuration();
    assert!(body.contains("family = \"ipv6\"\nlisten_address = \"fd00::1\""));
    assert!(body.contains("source_cidrs = [\"::/0\"]"));
    assert!(body.ends_with("port = 53\nhost = \"fd00::5\"\n"));
}

#[test]
fn a_loopback_target_opts_into_route_localnet() {
    let wizard = told(&["0", "tcp", "443", "loopback-dnat", "443", "", "local"]).unwrap();
    assert!(wizard
        .configuration()
        .contains("listen_address = \"10.0.0.1\"\nallow_route_localnet = true\nprotocols = [\"tcp\"]\n"));
}

#[test]
fn refused_answers_are_told() {
    let cases: [(&[&str], &str); 16] = [
        (&[" "], "该字段不能为空；请重新运行 init"),
        (&["9"], "监听地址 \"9\" 不是有效 IP 地址；请重新运行 init"),
        (&["3"], "监听地址 192.0.2.1 是文档保留地址；请重新运行 init 并选择本机真实地址"),
        (&["10.9.9.9"], "监听地址 10.9.9.9 不属于上面列出的本机接口；请重新运行 init 并选择本机地址"),
        (&["1", "sctp"], "不支持的协议 \"sctp\"；请输入 tcp、udp 或 both"),
        (&["1", "", "0"], "监听端口 必须是 1 到 65535；请重新运行 init"),
        (&["1", "", "65536"], "监听端口 必须是 1 到 65535；请重新运行 init"),
        (&["1", "", "", "dnat"], "不支持的目标类型 \"dnat\""),
        (&["2", "", "", "loopback-dnat"], "loopback-dnat 仅支持 IPv4；IPv6 请使用 redirect"),
        (&["1", "", "", "", "x"], "目标端口 必须是 1 到 65535；请重新运行 init"),
        (&["1", "", "", "", "", "", "my-Todo"], "配置名称不能包含 TODO"),
        (&["1", "", "", "remote", "", "", "", ""], "该字段不能为空；请重新运行 init"),
        (&["1", "", "", "remote", "", "", "", "todo.test"], "远程目标不能包含 TODO"),
        (&["1", "", "", "remote", "", "", "", "2001:db8::1"], "远程目标 2001:db8::1 是文档保留地址；请使用真实目标"),
        (&["1", "", "", "remote", "", "", "", "h", "snat"], "来源模式必须是 masquerade 或 preserve"),
        (&["+4"], "监听地址 \"+4\" 不是有效 IP 地址；请重新运行 init"),
    ];
    for (lines, reason) in cases {
        assert_eq!(told(lines).unwrap_err(), reason);
    }
}

#[test]
fn prompts_fall_back_to_their_defaults() {
    assert_eq!(prompt("  x y \n", Some("d")).unwrap(), "x y");
    assert_eq!(prompt(" \n", Some("d")).unwrap(), "d");
    assert!(prompt("", None).is_err());
    assert_eq!(prompt_port("端口", "+443"), Ok(443));
    let waiting = told(&["2", "", "", "", ""]).unwrap();
    assert_eq!(waiting.prompt_text(), "允许来源 CIDR（默认代表向全网公开） [::/0]：");
}

#[test]
fn an_initialisation_is_planned_and_reported() {
    assert_eq!(
        plan_init("c", false, false, false),
        InitPlan::Template {
            notice: Some("未检测到交互式终端；不会复制文档保留地址示例，改为生成明确的 TODO 配置。".to_owned())
        }
    );
    assert_eq!(plan_init("c", false, false, true), InitPlan::Ask);
    assert_eq!(
        init_report("c", TODO_CONFIG),
        "已创建首次使用配置：c\n[ERROR] 该配置含 TODO，刻意不能启动。请在交互式终端运行：sudo port-forward init --config c\n验证：sudo port-forward validate --config c\n诊断：sudo port-forward doctor --config c\n启动：仅在 validate 与 doctor 无 ERROR 后运行 sudo port-forward start\n"
    );
    assert!(init_report("c", "schema_version = 1").contains("[OK] 已写入向导选择的真实字段"));
}
