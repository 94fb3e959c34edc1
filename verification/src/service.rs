//! Managing the system service: which commands are run and what is told of them.

use vstd::prelude::*;

use crate::config;
use crate::config::{Config, ConfigError};
use crate::control::{LogEvent, LogEventView};
use crate::host::CommandOutput;
use crate::number;
use crate::text;

verus! {

#[derive(Clone, Copy, Debug, PartialEq, Eq, Structural)]
pub enum ServiceManager {
    Systemd,
    OpenRc,
}

#[derive(Clone, Copy, Debug, PartialEq, Eq, Structural)]
pub enum ServiceAction {
    Start,
    Stop,
    Restart,
}

/// A command and its arguments.
#[derive(Debug, PartialEq, Eq)]
pub struct CommandLine {
    pub program: String,
    pub arguments: Vec<String>,
}

#[verifier::ext_equal]
pub struct CommandLineView {
    pub program: Seq<char>,
    pub arguments: Seq<Seq<char>>,
}

impl View for CommandLine {
    type V = CommandLineView;

    open spec fn view(&self) -> CommandLineView {
        CommandLineView { program: self.program@, arguments: text::texts(self.arguments@) }
    }
}

/// The manager that runs and whose command is there: systemd before OpenRC.
pub open spec fn usable_manager(
    systemd_runtime: bool,
    openrc_available: bool,
    has_systemctl: bool,
    has_rc_service: bool,
) -> Option<ServiceManager> {
    if systemd_runtime && has_systemctl {
        Some(ServiceManager::Systemd)
    } else if openrc_available && has_rc_service {
        Some(ServiceManager::OpenRc)
    } else {
        None
    }
}

/// Selects the service manager: `has_systemctl` and `has_rc_service` tell whether the
/// commands are there.
#[must_use]
pub fn select_service_manager(
    systemd_runtime: bool,
    openrc_available: bool,
    has_systemctl: bool,
    has_rc_service: bool,
) -> (r: Option<ServiceManager>)
    ensures
        r == usable_manager(systemd_runtime, openrc_available, has_systemctl, has_rc_service),
{
    if systemd_runtime && has_systemctl {
        Some(ServiceManager::Systemd)
    } else if openrc_available && has_rc_service {
        Some(ServiceManager::OpenRc)
    } else {
        None
    }
}

/// The text that tells of a host without a usable service manager.
pub const NO_MANAGER: &'static str =
    "未检测到可用的 systemd 或 OpenRC；无法管理服务。可直接运行 sudo port-forwardd，或安装支持的 init 系统。";

/// The selected manager; without one, services cannot be managed.
pub fn service_manager(selected: Option<ServiceManager>) -> (r: Result<ServiceManager, String>)
    ensures
        match selected {
            Some(manager) => r == Ok::<ServiceManager, String>(manager),
            None => r matches Err(e) && e@ == NO_MANAGER@,
        },
{
    match selected {
        Some(manager) => Ok(manager),
        None => Err(NO_MANAGER.to_owned()),
    }
}

/// Where the logs of the service are found.
pub open spec fn spec_log_hint(selected: Option<ServiceManager>) -> Seq<char> {
    match selected {
        Some(ServiceManager::Systemd) => "sudo journalctl -u port-forwardd -n 100 --no-pager"@,
        Some(ServiceManager::OpenRc) =>
            "sudo rc-service port-forwardd status；并查看系统 syslog"@,
        None => "未检测到 systemd/OpenRC；查看直接启动命令的终端输出"@,
    }
}

/// Where the logs of the service are found.
#[must_use]
pub fn service_log_hint(selected: Option<ServiceManager>) -> (r: &'static str)
    ensures
        r@ == spec_log_hint(selected),
{
    match selected {
        Some(ServiceManager::Systemd) => "sudo journalctl -u port-forwardd -n 100 --no-pager",
        Some(ServiceManager::OpenRc) => "sudo rc-service port-forwardd status；并查看系统 syslog",
        None => "未检测到 systemd/OpenRC；查看直接启动命令的终端输出",
    }
}

/// What keeps the service from being started: the configuration file is missing, or
/// what was loaded from it cannot be deployed.
pub open spec fn start_obstacle(
    path: Seq<char>,
    loaded: Option<Result<Config, ConfigError>>,
    hint: Seq<char>,
) -> Option<Seq<char>> {
    match loaded {
        None => Some(
            "未执行服务操作：缺少配置 "@ + path + "。运行：sudo port-forward init\n日志查看："@ + hint,
        ),
        Some(loaded) => match config::loading_fault(loaded) {
            Some(error) => Some(
                "未执行服务操作：配置 "@ + path + " 无效："@ + error
                    + "\n修复后运行：sudo port-forward validate\n日志查看："@ + hint,
            ),
            None => None,
        },
    }
}

/// Checks that the service can be started with the configuration at `path`; `loaded`
/// is what was loaded from the file, where there is one.
pub fn service_with_valid_config(
    path: &str,
    loaded: &Option<Result<Config, ConfigError>>,
    selected: Option<ServiceManager>,
) -> (r: Result<(), String>)
    ensures
        match start_obstacle(path@, *loaded, spec_log_hint(selected)) {
            None => r is Ok,
            Some(text) => r matches Err(e) && e@ == text,
        },
{
    let hint = service_log_hint(selected);
    match loaded {
        None => Err(
            "未执行服务操作：缺少配置 ".to_owned().concat(path).concat(
                "。运行：sudo port-forward init\n日志查看：",
            ).concat(hint),
        ),
        Some(loaded) => match config::check_loaded(loaded) {
            Ok(_) => Ok(()),
            Err(error) => Err(
                "未执行服务操作：配置 ".to_owned().concat(path).concat(" 无效：").concat(
                    error.as_str(),
                ).concat("\n修复后运行：sudo port-forward validate\n日志查看：").concat(hint),
            ),
        },
    }
}

/// The program of a service manager.
pub open spec fn spec_program(manager: ServiceManager) -> Seq<char> {
    match manager {
        ServiceManager::Systemd => "systemctl"@,
        ServiceManager::OpenRc => "rc-service"@,
    }
}

/// The word for an action.
pub open spec fn spec_action_word(action: ServiceAction) -> Seq<char> {
    match action {
        ServiceAction::Start => "start"@,
        ServiceAction::Stop => "stop"@,
        ServiceAction::Restart => "restart"@,
    }
}

/// The program of a service manager.
pub fn program(manager: ServiceManager) -> (r: &'static str)
    ensures
        r@ == spec_program(manager),
{
    match manager {
        ServiceManager::Systemd => "systemctl",
        ServiceManager::OpenRc => "rc-service",
    }
}

/// The word for an action.
pub fn action_word(action: ServiceAction) -> (r: &'static str)
    ensures
        r@ == spec_action_word(action),
{
    match action {
        ServiceAction::Start => "start",
        ServiceAction::Stop => "stop",
        ServiceAction::Restart => "restart",
    }
}

/// A command line with two arguments.
fn command_of_two(program: &str, first: &str, second: &str) -> (r: CommandLine)
    ensures
        r@ == (CommandLineView { program: program@, arguments: seq![first@, second@] }),
{
    let mut arguments: Vec<String> = Vec::new();
    arguments.push(first.to_owned());
    arguments.push(second.to_owned());
    let r = CommandLine { program: program.to_owned(), arguments };
    proof {
        assert(text::texts(r.arguments@) =~= seq![first@, second@]);
    }
    r
}

/// The command that performs an action.
pub open spec fn action_command(manager: ServiceManager, action: ServiceAction) -> CommandLineView {
    CommandLineView {
        program: spec_program(manager),
        arguments: match manager {
            ServiceManager::Systemd => seq![spec_action_word(action), "port-forwardd.service"@],
            ServiceManager::OpenRc => seq!["port-forwardd"@, spec_action_word(action)],
        },
    }
}

/// The command that performs an action.
#[must_use]
pub fn service_command(manager: ServiceManager, action: ServiceAction) -> (r: CommandLine)
    ensures
        r@ == action_command(manager, action),
{
    match manager {
        ServiceManager::Systemd => command_of_two(
            program(manager),
            action_word(action),
            "port-forwardd.service",
        ),
        ServiceManager::OpenRc => command_of_two(
            program(manager),
            "port-forwardd",
            action_word(action),
        ),
    }
}

/// `first` where it says something, else `second` where that says something, else
/// `neither`; both without the white space around them.
pub open spec fn telling(first: Seq<char>, second: Seq<char>, neither: Seq<char>) -> Seq<char> {
    if text::trim(first).len() > 0 {
        text::trim(first)
    } else if text::trim(second).len() > 0 {
        text::trim(second)
    } else {
        neither
    }
}

/// The first of the outputs that says something, without the white space around it.
fn tell(first: &str, second: &str, neither: &str) -> (r: String)
    ensures
        r@ == telling(first@, second@, neither@),
{
    let a = text::trim_chars(text::chars_of(first));
    if a.len() > 0 {
        return text::string_of(&a);
    }
    let b = text::trim_chars(text::chars_of(second));
    if b.len() > 0 {
        return text::string_of(&b);
    }
    neither.to_owned()
}

/// What the service was asked to do, as it is told.
pub open spec fn action_text(manager: ServiceManager, action: ServiceAction) -> Seq<char> {
    spec_program(manager) + " "@ + spec_action_word(action) + " port-forwardd"@
}

/// Writes what the service was asked to do.
fn write_action(manager: ServiceManager, action: ServiceAction) -> (r: String)
    ensures
        r@ == action_text(manager, action),
{
    program(manager).to_owned().concat(" ").concat(action_word(action)).concat(" port-forwardd")
}

/// How the command of a service action went, and what comes next.
#[derive(Debug, PartialEq, Eq)]
pub enum ActionResult {
    /// The action was performed; this is told.
    Performed { message: String },
    /// The daemon has to become ready.
    AwaitReady,
    /// The action failed; the diagnosis is told behind this text.
    Failed { message: String },
    /// The command could not be run.
    NotRun { message: String },
}

/// Takes the outcome of the command of a service action: a service that was stopped is
/// done, one that was started has to become ready.
pub fn run_service_action(
    manager: ServiceManager,
    action: ServiceAction,
    outcome: Result<CommandOutput, String>,
) -> (r: ActionResult)
    ensures
        match outcome {
            Err(error) => r matches ActionResult::NotRun { message } && message@ == "无法执行 "@
                + spec_program(manager) + ": "@ + error@,
            Ok(output) => if !output.success {
                r matches ActionResult::Failed { message } && message@ == "服务操作失败："@
                    + action_text(manager, action) + "："@ + telling(
                    output.stderr@,
                    output.stdout@,
                    "命令未输出详情"@,
                ) + "\n"@
            } else if action == ServiceAction::Stop {
                r matches ActionResult::Performed { message } && message@ == "服务操作成功："@
                    + action_text(manager, action)
            } else {
                r is AwaitReady
            },
        },
{
    match outcome {
        Err(error) => ActionResult::NotRun {
            message: "无法执行 ".to_owned().concat(program(manager)).concat(": ").concat(
                error.as_str(),
            ),
        },
        Ok(output) => {
            if !output.success {
                let detail = tell(
                    output.stderr.as_str(),
                    output.stdout.as_str(),
                    "命令未输出详情",
                );
                ActionResult::Failed {
                    message: "服务操作失败：".to_owned().concat(
                        write_action(manager, action).as_str(),
                    ).concat("：").concat(detail.as_str()).concat("\n"),
                }
            } else {
                match action {
                    ServiceAction::Stop => ActionResult::Performed {
                        message: "服务操作成功：".to_owned().concat(
                            write_action(manager, action).as_str(),
                        ),
                    },
                    _ => ActionResult::AwaitReady,
                }
            }
        },
    }
}

/// What is told once the daemon is ready.
pub const READY: &'static str = "服务已真正就绪：daemon active 且控制 socket 可用。";

/// Whether the daemon is ready.
#[derive(Clone, Copy, Debug, PartialEq, Eq, Structural)]
pub enum Readiness {
    Ready,
    /// Look again a little later.
    Wait,
    /// The time is up.
    TimedOut,
}

/// Says whether the daemon is ready: before the deadline, once the service is active
/// and its socket can be used, both at a time.
#[must_use]
pub fn readiness(before_deadline: bool, active: bool, socket_usable: bool) -> (r: Readiness)
    ensures
        r == if !before_deadline {
            Readiness::TimedOut
        } else if active && socket_usable {
            Readiness::Ready
        } else {
            Readiness::Wait
        },
{
    if !before_deadline {
        Readiness::TimedOut
    } else if active && socket_usable {
        Readiness::Ready
    } else {
        Readiness::Wait
    }
}

/// The text that tells of a daemon that did not become ready; the diagnosis is told
/// behind it.
#[must_use]
pub fn not_ready(socket: &str) -> (r: String)
    ensures
        r@ == "服务启动未就绪：10 秒内未同时满足 daemon active 与控制 socket 存在（"@ + socket@
            + "）。systemctl/rc-service 返回成功不代表 daemon 已启动。\n"@,
{
    "服务启动未就绪：10 秒内未同时满足 daemon active 与控制 socket 存在（".to_owned().concat(
        socket,
    ).concat("）。systemctl/rc-service 返回成功不代表 daemon 已启动。\n")
}

/// The command that asks whether the service is active.
pub open spec fn activity_command(manager: ServiceManager) -> CommandLineView {
    match manager {
        ServiceManager::Systemd => CommandLineView {
            program: "systemctl"@,
            arguments: seq!["is-active"@, "--quiet"@, "port-forwardd.service"@],
        },
        ServiceManager::OpenRc => CommandLineView {
            program: "rc-service"@,
            arguments: seq!["port-forwardd"@, "status"@],
        },
    }
}

/// The command that asks whether the service is active.
#[must_use]
pub fn service_is_active(manager: ServiceManager) -> (r: CommandLine)
    ensures
        r@ == activity_command(manager),
{
    match manager {
        ServiceManager::Systemd => {
            let mut arguments: Vec<String> = Vec::new();
            arguments.push("is-active".to_owned());
            arguments.push("--quiet".to_owned());
            arguments.push("port-forwardd.service".to_owned());
            proof {
                assert(text::texts(arguments@) =~= seq![
                    "is-active"@,
                    "--quiet"@,
                    "port-forwardd.service"@,
                ]);
            }
            CommandLine { program: "systemctl".to_owned(), arguments }
        },
        ServiceManager::OpenRc => command_of_two("rc-service", "port-forwardd", "status"),
    }
}

// Diagnosis.

/// The command that shows the status of the service.
pub open spec fn spec_status_command(manager: ServiceManager) -> CommandLineView {
    match manager {
        ServiceManager::Systemd => CommandLineView {
            program: "systemctl"@,
            arguments: seq!["status"@, "port-forwardd.service"@, "--no-pager"@, "-l"@],
        },
        ServiceManager::OpenRc => CommandLineView {
            program: "rc-service"@,
            arguments: seq!["port-forwardd"@, "status"@],
        },
    }
}

/// The command that shows the journal of the service.
pub open spec fn spec_journal_command() -> CommandLineView {
    CommandLineView {
        program: "journalctl"@,
        arguments: seq!["-u"@, "port-forwardd"@, "-n"@, "100"@, "--no-pager"@],
    }
}

/// The command that shows the end of a log file.
pub open spec fn spec_tail_command(path: Seq<char>) -> CommandLineView {
    CommandLineView { program: "tail"@, arguments: seq!["-n"@, "100"@, path] }
}

/// The command that shows the status of the service.
#[must_use]
pub fn status_command(manager: ServiceManager) -> (r: CommandLine)
    ensures
        r@ == spec_status_command(manager),
{
    match manager {
        ServiceManager::Systemd => {
            let mut arguments: Vec<String> = Vec::new();
            arguments.push("status".to_owned());
            arguments.push("port-forwardd.service".to_owned());
            arguments.push("--no-pager".to_owned());
            arguments.push("-l".to_owned());
            proof {
                assert(text::texts(arguments@) =~= seq![
                    "status"@,
                    "port-forwardd.service"@,
                    "--no-pager"@,
                    "-l"@,
                ]);
            }
            CommandLine { program: "systemctl".to_owned(), arguments }
        },
        ServiceManager::OpenRc => command_of_two("rc-service", "port-forwardd", "status"),
    }
}

/// The command that shows the journal of the service.
fn journal_command() -> (r: CommandLine)
    ensures
        r@ == spec_journal_command(),
{
    let mut arguments: Vec<String> = Vec::new();
    arguments.push("-u".to_owned());
    arguments.push("port-forwardd".to_owned());
    arguments.push("-n".to_owned());
    arguments.push("100".to_owned());
    arguments.push("--no-pager".to_owned());
    proof {
        assert(text::texts(arguments@) =~= seq![
            "-u"@,
            "port-forwardd"@,
            "-n"@,
            "100"@,
            "--no-pager"@,
        ]);
    }
    CommandLine { program: "journalctl".to_owned(), arguments }
}

/// The command that shows the end of a log file.
fn tail_command(path: &str) -> (r: CommandLine)
    ensures
        r@ == spec_tail_command(path@),
{
    let mut arguments: Vec<String> = Vec::new();
    arguments.push("-n".to_owned());
    arguments.push("100".to_owned());
    arguments.push(path.to_owned());
    proof {
        assert(text::texts(arguments@) =~= seq!["-n"@, "100"@, path@]);
    }
    CommandLine { program: "tail".to_owned(), arguments }
}

/// Which log files are there.
#[derive(Clone, Copy, Debug, PartialEq, Eq, Structural)]
pub struct LogFiles {
    /// `/var/log/messages`
    pub messages: bool,
    /// `/var/log/syslog`
    pub syslog: bool,
    /// `/var/log/daemon.log`
    pub daemon_log: bool,
}

/// The command that shows the logs of the service: the journal where it is there, and
/// under OpenRC else the first log file that is there.
pub open spec fn log_source(
    manager: ServiceManager,
    has_journal: bool,
    files: LogFiles,
) -> Option<CommandLineView> {
    if manager == ServiceManager::Systemd || has_journal {
        Some(spec_journal_command())
    } else if files.messages {
        Some(spec_tail_command("/var/log/messages"@))
    } else if files.syslog {
        Some(spec_tail_command("/var/log/syslog"@))
    } else if files.daemon_log {
        Some(spec_tail_command("/var/log/daemon.log"@))
    } else {
        None
    }
}

/// The model of an optional command line.
pub open spec fn option_command(c: Option<CommandLine>) -> Option<CommandLineView> {
    match c {
        Some(c) => Some(c@),
        None => None,
    }
}

/// The command that shows the logs of the service.
#[must_use]
pub fn log_command(manager: ServiceManager, has_journal: bool, files: LogFiles) -> (r: Option<
    CommandLine,
>)
    ensures
        option_command(r) == log_source(manager, has_journal, files),
{
    if manager == ServiceManager::Systemd || has_journal {
        Some(journal_command())
    } else if files.messages {
        Some(tail_command("/var/log/messages"))
    } else if files.syslog {
        Some(tail_command("/var/log/syslog"))
    } else if files.daemon_log {
        Some(tail_command("/var/log/daemon.log"))
    } else {
        None
    }
}

/// What is told where OpenRC has no logs.
pub const NO_OPENRC_LOGS: &'static str =
    "OpenRC 未发现 journald 或常见 syslog 文件；请检查系统日志服务。";

/// A command and what it said, as they are told.
pub open spec fn command_report(
    command: CommandLineView,
    outcome: Result<CommandOutput, String>,
) -> Seq<char> {
    "$ "@ + command.program + " "@ + text::joined(command.arguments, " "@) + "\n"@ + match outcome {
        Ok(output) => telling(output.stdout@, output.stderr@, "（命令未输出详情）"@),
        Err(error) => "（无法运行："@ + error@ + "）"@,
    }
}

/// Tells of a command and of what it said.
#[must_use]
pub fn command_output(command: &CommandLine, outcome: Result<CommandOutput, String>) -> (r: String)
    ensures
        r@ == command_report(command@, outcome),
{
    let detail = match outcome {
        Ok(output) => tell(
            output.stdout.as_str(),
            output.stderr.as_str(),
            "（命令未输出详情）",
        ),
        Err(error) => "（无法运行：".to_owned().concat(error.as_str()).concat("）"),
    };
    "$ ".to_owned().concat(command.program.as_str()).concat(" ").concat(
        text::join(&command.arguments, " ").as_str(),
    ).concat("\n").concat(detail.as_str())
}

/// The diagnosis of a service that failed: its status, and its logs or what is told
/// where there are none.
pub open spec fn diagnosis(
    manager: ServiceManager,
    status: Seq<char>,
    logs: Option<Seq<char>>,
) -> Seq<char> {
    let heading = match manager {
        ServiceManager::Systemd =>
            "服务状态与最近启动日志（请保留其中的 nft/config 错误）：\n"@,
        ServiceManager::OpenRc => "服务状态与启动日志：\n"@,
    };
    heading + status + "\n"@ + match logs {
        Some(logs) => logs,
        None => NO_OPENRC_LOGS@,
    }
}

/// The diagnosis of a service that failed.
#[must_use]
pub fn service_failure_diagnostics(
    manager: ServiceManager,
    status: &str,
    logs: Option<String>,
) -> (r: String)
    ensures
        r@ == diagnosis(manager, status@, text::option_text(logs)),
{
    let heading = match manager {
        ServiceManager::Systemd =>
            "服务状态与最近启动日志（请保留其中的 nft/config 错误）：\n",
        ServiceManager::OpenRc => "服务状态与启动日志：\n",
    };
    let logs = match logs {
        Some(logs) => logs,
        None => NO_OPENRC_LOGS.to_owned(),
    };
    heading.to_owned().concat(status).concat("\n").concat(logs.as_str())
}

// Logs.

/// What is told where the daemon does not run, in front of the diagnosis of its service
/// or, without a manager, of where its logs are found.
pub open spec fn offline_text(socket: Seq<char>, told: Seq<char>) -> Seq<char> {
    "daemon 未运行，显示启动日志（控制 socket 不存在："@ + socket + "）。\n"@ + told
}

/// What is told where the daemon does not run; `diagnosed` is there where a service
/// manager is.
#[must_use]
pub fn offline_logs(socket: &str, diagnosed: Option<String>) -> (r: String)
    ensures
        r@ == offline_text(
            socket@,
            match diagnosed {
                Some(told) => told@,
                None => spec_log_hint(None) + "\n"@,
            },
        ),
{
    let told = match diagnosed {
        Some(told) => told,
        None => service_log_hint(None).to_owned().concat("\n"),
    };
    "daemon 未运行，显示启动日志（控制 socket 不存在：".to_owned().concat(socket).concat(
        "）。\n",
    ).concat(told.as_str())
}

/// The line of an event.
pub open spec fn event_line(e: LogEventView) -> Seq<char> {
    number::decimal(e.timestamp_unix as nat) + " "@ + e.level + " "@ + e.message
}

/// The line of an event.
#[must_use]
pub fn log_line(event: &LogEvent) -> (r: String)
    ensures
        r@ == event_line(event@),
{
    number::decimal_text(event.timestamp_unix).concat(" ").concat(event.level.as_str()).concat(
        " ",
    ).concat(event.message.as_str())
}

} // verus!
