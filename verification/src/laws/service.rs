//! What the command line runs, and what it tells of the host.

use vstd::prelude::*;

use crate::address;
use crate::config;
use crate::config::{Config, ConfigError};
use crate::control::LogEvent;
use crate::doctor;
use crate::doctor::{CheckView, DoctorCheck, DoctorReport, Findings};
use crate::host;
use crate::host::{CommandOutput, InterfaceAddress, InterfaceAddressView};
use crate::number;
use crate::service;
use crate::service::{
    ActionResult, CommandLine, LogFiles, Readiness, ServiceAction, ServiceManager,
};
use crate::text;
use crate::wizard;
use crate::wizard::InitPlan;

verus! {

// Services.

/// systemd is used where it runs and `systemctl` is there; else OpenRC where it is there
/// and `rc-service` too; else there is no manager.
pub proof fn law_manager_is_one_that_runs(
    systemd: bool,
    openrc: bool,
    systemctl: bool,
    rc_service: bool,
    r: Option<ServiceManager>,
)
    requires
        call_ensures(
            service::select_service_manager,
            (systemd, openrc, systemctl, rc_service),
            r,
        ),
    ensures
        r == Some(ServiceManager::Systemd) <==> systemd && systemctl,
        r == Some(ServiceManager::OpenRc) <==> !(systemd && systemctl) && openrc && rc_service,
        r is None <==> !(systemd && systemctl) && !(openrc && rc_service),
{
}

/// The word for an action.
pub open spec fn word(action: ServiceAction) -> Seq<char> {
    match action {
        ServiceAction::Start => "start"@,
        ServiceAction::Stop => "stop"@,
        ServiceAction::Restart => "restart"@,
    }
}

/// An action is asked of the manager of the host, for our service.
pub proof fn law_action_is_asked_of_the_manager(
    manager: ServiceManager,
    action: ServiceAction,
    r: CommandLine,
)
    requires
        call_ensures(service::service_command, (manager, action), r),
    ensures
        manager == ServiceManager::Systemd ==> r@.program == "systemctl"@ && r@.arguments == seq![
            word(action),
            "port-forwardd.service"@,
        ],
        manager == ServiceManager::OpenRc ==> r@.program == "rc-service"@ && r@.arguments == seq![
            "port-forwardd"@,
            word(action),
        ],
{
}

/// An action that could not be run, or that failed, is told with its reason; a stop that
/// succeeded is done, and a start or a restart that succeeded is waited for.
pub proof fn law_action_is_told_by_its_outcome(
    manager: ServiceManager,
    action: ServiceAction,
    outcome: Result<CommandOutput, String>,
    r: ActionResult,
)
    requires
        call_ensures(service::run_service_action, (manager, action, outcome), r),
    ensures
        r is NotRun <==> outcome is Err,
        r is Failed <==> outcome is Ok && !outcome->Ok_0.success,
        r is Performed <==> outcome is Ok && outcome->Ok_0.success && action
            == ServiceAction::Stop,
        r is AwaitReady <==> outcome is Ok && outcome->Ok_0.success && action
            != ServiceAction::Stop,
        r matches ActionResult::Failed { message } ==> ({
            let output = outcome->Ok_0;
            let detail = if text::trim(output.stderr@).len() > 0 {
                text::trim(output.stderr@)
            } else if text::trim(output.stdout@).len() > 0 {
                text::trim(output.stdout@)
            } else {
                "命令未输出详情"@
            };
            message@ == "服务操作失败："@ + ((if manager == ServiceManager::Systemd {
                "systemctl"@
            } else {
                "rc-service"@
            }) + " "@ + word(action) + " port-forwardd"@) + "："@ + detail + "\n"@
        }),
{
}

/// A service is ready where it is active and its socket can be used, before the time is
/// up.
pub proof fn law_ready_is_active_with_a_socket(
    in_time: bool,
    active: bool,
    usable: bool,
    r: Readiness,
)
    requires
        call_ensures(service::readiness, (in_time, active, usable), r),
    ensures
        r == Readiness::TimedOut <==> !in_time,
        r == Readiness::Ready <==> in_time && active && usable,
        r == Readiness::Wait <==> in_time && !(active && usable),
{
}

/// A manager is asked whether our service is active.
pub proof fn law_activity_is_asked_of_the_manager(manager: ServiceManager, r: CommandLine)
    requires
        call_ensures(service::service_is_active, (manager,), r),
    ensures
        manager == ServiceManager::Systemd ==> r@.program == "systemctl"@ && r@.arguments == seq![
            "is-active"@,
            "--quiet"@,
            "port-forwardd.service"@,
        ],
        manager == ServiceManager::OpenRc ==> r@.program == "rc-service"@ && r@.arguments == seq![
            "port-forwardd"@,
            "status"@,
        ],
{
}

/// A manager is asked for the status of our service.
pub proof fn law_status_is_asked_of_the_manager(manager: ServiceManager, r: CommandLine)
    requires
        call_ensures(service::status_command, (manager,), r),
    ensures
        manager == ServiceManager::Systemd ==> r@.program == "systemctl"@ && r@.arguments == seq![
            "status"@,
            "port-forwardd.service"@,
            "--no-pager"@,
            "-l"@,
        ],
        manager == ServiceManager::OpenRc ==> r@.program == "rc-service"@ && r@.arguments == seq![
            "port-forwardd"@,
            "status"@,
        ],
{
}

/// The start log is that of the journal where there is one, else the end of the first of
/// the known files that is there.
pub proof fn law_log_is_the_journal_or_a_file(
    manager: ServiceManager,
    journal: bool,
    files: LogFiles,
    r: Option<CommandLine>,
)
    requires
        call_ensures(service::log_command, (manager, journal, files), r),
    ensures
        ({
            let has_journal = manager == ServiceManager::Systemd || journal;
            let tail = |path: Seq<char>| seq!["-n"@, "100"@, path];
            &&& has_journal ==> r is Some && r->0@.program == "journalctl"@ && r->0@.arguments
                == seq!["-u"@, "port-forwardd"@, "-n"@, "100"@, "--no-pager"@]
            &&& !has_journal && files.messages ==> r is Some && r->0@.program == "tail"@
                && r->0@.arguments == tail("/var/log/messages"@)
            &&& !has_journal && !files.messages && files.syslog ==> r is Some && r->0@.program
                == "tail"@ && r->0@.arguments == tail("/var/log/syslog"@)
            &&& !has_journal && !files.messages && !files.syslog && files.daemon_log ==> r is Some
                && r->0@.program == "tail"@ && r->0@.arguments == tail("/var/log/daemon.log"@)
            &&& !has_journal && !files.messages && !files.syslog && !files.daemon_log ==> r is None
        }),
{
}

/// A service is acted on only with a configuration that is there and can be deployed.
pub proof fn law_service_needs_a_deployable_configuration(
    path: &str,
    loaded: &Option<Result<Config, ConfigError>>,
    selected: Option<ServiceManager>,
    r: Result<(), String>,
)
    requires
        call_ensures(service::service_with_valid_config, (path, loaded, selected), r),
    ensures
        r is Ok <==> (*loaded matches Some(Ok(c)) && config::deployable_fault(c@) is None),
{
}

/// An event is told with its time, its level and its text.
pub proof fn law_event_is_told_in_a_line(event: &LogEvent, r: String)
    requires
        call_ensures(service::log_line, (event,), r),
    ensures
        r@ == number::decimal(event.timestamp_unix as nat) + " "@ + event.level@ + " "@
            + event.message@,
{
}

// The diagnosis.

/// A command that is missing is an error.
pub proof fn law_missing_command_is_an_error(
    name: &str,
    command: &str,
    found: bool,
    r: DoctorCheck,
)
    requires
        call_ensures(doctor::command_doctor_check, (name, command, found), r),
    ensures
        r.name@ == name@,
        found ==> r.status@ == "ok"@,
        !found ==> r.status@ == "error"@,
{
}

/// A configuration is well exactly where it is loaded and can be deployed; else it is an
/// error that tells why.
pub proof fn law_configuration_is_well_where_it_is_deployable(
    path: &str,
    loaded: &Result<Config, ConfigError>,
    r: DoctorCheck,
)
    requires
        call_ensures(doctor::config_doctor_check, (path, loaded), r),
    ensures
        r.name@ == "配置"@,
        (*loaded matches Ok(c) && config::deployable_fault(c@) is None) ==> r.status@ == "ok"@,
        !(*loaded matches Ok(c) && config::deployable_fault(c@) is None) ==> r.status@
            == "error"@,
        *loaded matches Err(e) ==> r.detail@ == path@ + "："@ + e.spec_message(),
{
}

/// Chains of others at our hooks are an error, or a warning where the configuration allows
/// to coexist with them; without any, all is well. What could not be looked at is a
/// warning.
pub proof fn law_external_hooks_are_diagnosed(
    loaded: &Result<Config, ConfigError>,
    conflicts: &Result<Vec<String>, String>,
    r: DoctorCheck,
)
    requires
        call_ensures(doctor::external_hook_doctor_check, (loaded, conflicts), r),
    ensures
        ({
            let allowed = *loaded matches Ok(c) && c.allow_external_chains;
            &&& r.name@ == "外部 nft hook"@
            &&& (*conflicts matches Ok(v) && v@.len() == 0) ==> r.status@ == "ok"@
            &&& (*conflicts matches Ok(v) && v@.len() > 0) && allowed ==> r.status@ == "warning"@
            &&& (*conflicts matches Ok(v) && v@.len() > 0) && !allowed ==> r.status@ == "error"@
            &&& *conflicts is Err ==> r.status@ == "warning"@
        }),
{
}

/// The addresses of the host are well where there are some; none are a warning, and a
/// listing that failed is an error.
pub proof fn law_addresses_are_diagnosed(
    found: &Result<Vec<InterfaceAddress>, String>,
    r: DoctorCheck,
)
    requires
        call_ensures(doctor::local_addresses_doctor_check, (found,), r),
    ensures
        r.name@ == "本机接口地址"@,
        (*found matches Ok(v) && v@.len() > 0) ==> r.status@ == "ok"@ && r.detail@ == text::joined(
            host::interface_views(found->Ok_0@).map_values(
                |a: InterfaceAddressView| a.interface + ":"@ + address::shown(a.address),
            ),
            ", "@,
        ),
        (*found matches Ok(v) && v@.len() == 0) ==> r.status@ == "warning"@,
        *found is Err ==> r.status@ == "error"@,
{
    if *found is Ok {
        let all = host::interface_views(found->Ok_0@);
        assert(all.map_values(|a: InterfaceAddressView| doctor::address_text(a))
            =~= all.map_values(
            |a: InterfaceAddressView| a.interface + ":"@ + address::shown(a.address),
        ));
    }
}

/// The control path is well exactly where a socket is there, and else a warning.
pub proof fn law_socket_is_diagnosed(path: &str, found: &Result<bool, String>, r: DoctorCheck)
    requires
        call_ensures(doctor::socket_doctor_check, (path, found), r),
    ensures
        r.name@ == "控制 socket"@,
        *found == Ok::<bool, String>(true) ==> r.status@ == "ok"@,
        *found != Ok::<bool, String>(true) ==> r.status@ == "warning"@,
{
}

/// One of our tables is well exactly where it could be listed, and else a warning.
pub proof fn law_table_is_diagnosed(
    family: &str,
    table: &str,
    listed: &Result<CommandOutput, String>,
    r: DoctorCheck,
)
    requires
        call_ensures(doctor::nft_table_doctor_check, (family, table, listed), r),
    ensures
        r.name@ == "自有 nft table "@ + family@ + " "@ + table@,
        (*listed matches Ok(output) && output.success) ==> r.status@ == "ok"@,
        !(*listed matches Ok(output) && output.success) ==> r.status@ == "warning"@,
{
}

proof fn lemma_six_in_front(
    a: CheckView,
    b: CheckView,
    c: CheckView,
    d: CheckView,
    e: CheckView,
    f: CheckView,
    more: Seq<CheckView>,
)
    ensures
        ({
            let all = seq![a, b, c, d, e, f] + more;
            &&& all.len() == 6 + more.len()
            &&& more.len() == 0 ==> all == seq![a, b, c, d, e, f]
            &&& all[0] == a && all[1] == b && all[2] == c && all[3] == d && all[4] == e && all[5]
                == f
        }),
{
    let six = seq![a, b, c, d, e, f];
    if more.len() == 0 {
        assert(six + more =~= six);
    }
}

/// The checks that are always made.
pub proof fn law_report_begins_with_the_general_checks(found: &Findings, r: DoctorReport)
    requires
        call_ensures(doctor::doctor_report, (found,), r),
    ensures
        ({
            let checks = doctor::check_views(r.checks@);
            &&& checks.len() == if found.nft is Some {
                9nat
            } else {
                6nat
            }
            &&& checks[0] == doctor::command_check("nft"@, "nft"@, found.nft is Some)
            &&& checks[1] == doctor::command_check("ip"@, "ip"@, found.has_ip)
            &&& checks[2] == doctor::addresses_check(found.addresses)
            &&& checks[3] == doctor::config_check(found.config_path@, found.config)
            &&& checks[4] == doctor::socket_check(found.socket_path@, found.is_socket)
            &&& checks[5] == doctor::manager_check(found.manager)
        }),
{
    let more = match found.nft {
        Some(nft) => doctor::nft_checks(nft, found.config),
        None => Seq::empty(),
    };
    lemma_six_in_front(
        doctor::command_check("nft"@, "nft"@, found.nft is Some),
        doctor::command_check("ip"@, "ip"@, found.has_ip),
        doctor::addresses_check(found.addresses),
        doctor::config_check(found.config_path@, found.config),
        doctor::socket_check(found.socket_path@, found.is_socket),
        doctor::manager_check(found.manager),
        more,
    );
}

/// Where nftables is there, a report ends with the checks of our two tables and of the
/// hooks.
pub proof fn law_report_ends_with_the_checks_of_nftables(found: &Findings, r: DoctorReport)
    requires
        call_ensures(doctor::doctor_report, (found,), r),
        found.nft is Some,
    ensures
        ({
            let checks = doctor::check_views(r.checks@);
            let nft = found.nft->0;
            &&& checks.len() == 9
            &&& checks[6] == doctor::table_check("ip"@, "port_forward_v4"@, nft.ipv4_table)
            &&& checks[7] == doctor::table_check("ip6"@, "port_forward_v6"@, nft.ipv6_table)
            &&& checks[8] == doctor::hook_check(
                found.config is Ok && found.config->Ok_0.allow_external_chains,
                nft.conflicts,
            )
        }),
{
    let general = doctor::general_checks(*found);
    let more = doctor::nft_checks(found.nft->0, found.config);
    assert(general.len() == 6);
    assert(more.len() == 3);
    assert(doctor::checks_of(*found) == general + more);
    assert forall|i: int| 0 <= i < 3 implies #[trigger] (general + more)[6 + i] == more[i] by {}
    assert((general + more)[6] == more[0]);
    assert((general + more)[7] == more[1]);
    assert((general + more)[8] == more[2]);
}

/// A check is shown with its label, its name and its detail.
pub proof fn law_check_is_shown_with_its_label(c: &DoctorCheck, r: String)
    requires
        call_ensures(doctor::setup_line, (c,), r),
    ensures
        c.status@ == "ok"@ ==> r@ == "["@ + "OK"@ + "] "@ + c.name@ + "："@ + c.detail@,
        c.status@ == "warning"@ ==> r@ == "["@ + "WARN"@ + "] "@ + c.name@ + "："@ + c.detail@,
        c.status@ == "error"@ ==> r@ == "["@ + "ERROR"@ + "] "@ + c.name@ + "："@ + c.detail@,
{
    reveal_strlit("ok");
    reveal_strlit("warning");
    reveal_strlit("error");
    assert("ok"@.len() == 2);
    assert("warning"@.len() == 7);
    assert("error"@.len() == 5);
}

// The first use.

/// A configuration that is there is never overwritten; the template is written where it is
/// asked for or nobody can be asked, and the wizard asks in every other case.
pub proof fn law_configuration_is_never_overwritten(
    path: &str,
    exists: bool,
    template: bool,
    interactive: bool,
    r: InitPlan,
)
    requires
        call_ensures(wizard::plan_init, (path, exists, template, interactive), r),
    ensures
        r is Refuse <==> exists,
        r is Template <==> !exists && (template || !interactive),
        r is Ask <==> !exists && !template && interactive,
{
}

/// A command is told with its words and what it printed, or why it could not be run.
pub proof fn law_command_is_told_with_what_it_printed(
    command: &CommandLine,
    outcome: Result<CommandOutput, String>,
    r: String,
)
    requires
        call_ensures(service::command_output, (command, outcome), r),
    ensures
        ({
            let head = "$ "@ + command@.program + " "@ + text::joined(command@.arguments, " "@)
                + "\n"@;
            match outcome {
                Ok(output) => r@ == head + if text::trim(output.stdout@).len() > 0 {
                    text::trim(output.stdout@)
                } else if text::trim(output.stderr@).len() > 0 {
                    text::trim(output.stderr@)
                } else {
                    "（命令未输出详情）"@
                },
                Err(error) => r@ == head + ("（无法运行："@ + error@ + "）"@),
            }
        }),
{
}

/// Where the logs of the service are to be found.
pub proof fn law_log_hint_is_that_of_the_manager(selected: Option<ServiceManager>, r: &'static str)
    requires
        call_ensures(service::service_log_hint, (selected,), r),
    ensures
        selected == Some(ServiceManager::Systemd) ==> r@
            == "sudo journalctl -u port-forwardd -n 100 --no-pager"@,
        selected == Some(ServiceManager::OpenRc) ==> r@
            == "sudo rc-service port-forwardd status；并查看系统 syslog"@,
        selected is None ==> r@ == "未检测到 systemd/OpenRC；查看直接启动命令的终端输出"@,
{
}

/// A diagnosis tells the status and the logs.
pub proof fn law_diagnosis_tells_the_status_and_the_logs(
    manager: ServiceManager,
    status: &str,
    logs: Option<String>,
    r: String,
)
    requires
        call_ensures(service::service_failure_diagnostics, (manager, status, logs), r),
    ensures
        ({
            let heading = if manager == ServiceManager::Systemd {
                "服务状态与最近启动日志（请保留其中的 nft/config 错误）：\n"@
            } else {
                "服务状态与启动日志：\n"@
            };
            &&& logs matches Some(told) ==> r@ == heading + status@ + "\n"@ + told@
            &&& logs is None ==> r@ == heading + status@ + "\n"@ + service::NO_OPENRC_LOGS@
        }),
{
}

/// A manager is well where there is one, and else a warning.
pub proof fn law_manager_is_diagnosed(selected: Option<ServiceManager>, r: DoctorCheck)
    requires
        call_ensures(doctor::init_doctor_check, (selected,), r),
    ensures
        r.name@ == "服务管理"@,
        selected is Some ==> r.status@ == "ok"@,
        selected is None ==> r.status@ == "warning"@,
{
}

/// Without a manager no service can be acted on.
pub proof fn law_service_needs_a_manager(
    selected: Option<ServiceManager>,
    r: Result<ServiceManager, String>,
)
    requires
        call_ensures(service::service_manager, (selected,), r),
    ensures
        selected matches Some(manager) ==> r == Ok::<ServiceManager, String>(manager),
        selected is None ==> r is Err,
{
}

/// Without the daemon the start log is told, or where to look for it.
pub proof fn law_offline_logs_tell_the_start_log(
    socket: &str,
    diagnosed: Option<String>,
    r: String,
)
    requires
        call_ensures(service::offline_logs, (socket, diagnosed), r),
    ensures
        ({
            let head = "daemon 未运行，显示启动日志（控制 socket 不存在："@ + socket@ + "）。\n"@;
            &&& diagnosed matches Some(told) ==> r@ == head + told@
            &&& diagnosed is None ==> r@ == head + (
            "未检测到 systemd/OpenRC；查看直接启动命令的终端输出"@ + "\n"@)
        }),
{
}

/// A check is listed with its status, its name and its detail.
pub proof fn law_check_is_listed_with_its_status(c: &DoctorCheck, r: String)
    requires
        call_ensures(doctor::check_line, (c,), r),
    ensures
        r@ == "["@ + c.status@ + "] "@ + c.name@ + "："@ + c.detail@,
{
}

/// What was initialised is told with its path; a template is told to be an error until it
/// is completed.
pub proof fn law_template_is_told_to_be_incomplete(path: &str, content: &str, r: String)
    requires
        call_ensures(wizard::init_report, (path, content), r),
    ensures
        ({
            let head = "已创建首次使用配置："@ + path@ + "\n"@;
            let tail = "验证：sudo port-forward validate --config "@;
            &&& content@ == wizard::TODO_CONFIG@ ==> exists|rest: Seq<char>|
                r@ == #[trigger] (head + (
                "[ERROR] 该配置含 TODO，刻意不能启动。请在交互式终端运行：sudo port-forward init --config "@
                    + path@ + "\n"@) + tail + rest)
            &&& content@ != wizard::TODO_CONFIG@ ==> exists|rest: Seq<char>|
                r@ == #[trigger] (head
                    + "[OK] 已写入向导选择的真实字段；仍请检查规则顺序和暴露范围。\n"@ + tail + rest)
        }),
{
    let head = "已创建首次使用配置："@ + path@ + "\n"@;
    let tail = "验证：sudo port-forward validate --config "@;
    let rest = path@ + "\n诊断：sudo port-forward doctor --config "@ + path@
        + "\n启动：仅在 validate 与 doctor 无 ERROR 后运行 sudo port-forward start\n"@;
    let verdict = if content@ == wizard::TODO_CONFIG@ {
        "[ERROR] 该配置含 TODO，刻意不能启动。请在交互式终端运行：sudo port-forward init --config "@
            + path@ + "\n"@
    } else {
        "[OK] 已写入向导选择的真实字段；仍请检查规则顺序和暴露范围。\n"@
    };
    assert(r@ =~= head + verdict + tail + rest);
}

/// A start that did not get ready is told with the socket that was waited for.
pub proof fn law_late_start_names_its_socket(socket: &str, r: String)
    requires
        call_ensures(service::not_ready, (socket,), r),
    ensures
        r@ == "服务启动未就绪：10 秒内未同时满足 daemon active 与控制 socket 存在（"@ + socket@
            + "）。systemctl/rc-service 返回成功不代表 daemon 已启动。\n"@,
{
}

} // verus!
