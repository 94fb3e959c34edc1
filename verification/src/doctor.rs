//! The diagnosis of a host: what was found, told as a list of checks.

use vstd::prelude::*;

use crate::address;
use crate::config;
use crate::config::{Config, ConfigError};
use crate::host;
use crate::host::{CommandOutput, InterfaceAddress, InterfaceAddressView};
use crate::service;
use crate::service::ServiceManager;
use crate::text;

verus! {

/// One check and how it went: `ok`, `warning` or `error`.
#[derive(Debug, PartialEq, Eq)]
pub struct DoctorCheck {
    pub name: String,
    pub status: String,
    pub detail: String,
}

/// The checks of a diagnosis, in order.
#[derive(Debug, PartialEq, Eq)]
pub struct DoctorReport {
    pub checks: Vec<DoctorCheck>,
}

#[verifier::ext_equal]
pub struct CheckView {
    pub name: Seq<char>,
    pub status: Seq<char>,
    pub detail: Seq<char>,
}

impl View for DoctorCheck {
    type V = CheckView;

    open spec fn view(&self) -> CheckView {
        CheckView { name: self.name@, status: self.status@, detail: self.detail@ }
    }
}

/// The models of a list of checks.
pub open spec fn check_views(v: Seq<DoctorCheck>) -> Seq<CheckView> {
    v.map_values(|c: DoctorCheck| c@)
}

/// A check that went well.
pub open spec fn passed(name: Seq<char>, detail: Seq<char>) -> CheckView {
    CheckView { name, status: "ok"@, detail }
}

/// A check that is worth a look.
pub open spec fn warned(name: Seq<char>, detail: Seq<char>) -> CheckView {
    CheckView { name, status: "warning"@, detail }
}

/// A check that failed.
pub open spec fn erred(name: Seq<char>, detail: Seq<char>) -> CheckView {
    CheckView { name, status: "error"@, detail }
}

/// A check with its parts.
fn check(name: &str, status: &str, detail: String) -> (r: DoctorCheck)
    ensures
        r@ == (CheckView { name: name@, status: status@, detail: detail@ }),
{
    DoctorCheck { name: name.to_owned(), status: status.to_owned(), detail }
}

/// The check for a command.
pub open spec fn command_check(name: Seq<char>, command: Seq<char>, found: bool) -> CheckView {
    if found {
        passed(name, "找到 "@ + command)
    } else {
        erred(name, "未找到 "@ + command + "；请安装所需系统包"@)
    }
}

/// Checks that a command is there.
#[must_use]
pub fn command_doctor_check(name: &str, command: &str, found: bool) -> (r: DoctorCheck)
    ensures
        r@ == command_check(name@, command@, found),
{
    if found {
        check(name, "ok", "找到 ".to_owned().concat(command))
    } else {
        check(
            name,
            "error",
            "未找到 ".to_owned().concat(command).concat("；请安装所需系统包"),
        )
    }
}

/// The check for the configuration at `path`.
pub open spec fn config_check(path: Seq<char>, loaded: Result<Config, ConfigError>) -> CheckView {
    match config::loading_fault(loaded) {
        None => passed("配置"@, path + " 通过语义验证"@),
        Some(error) => erred("配置"@, path + "："@ + error),
    }
}

/// Checks that the configuration at `path` can be deployed; `loaded` is what was
/// loaded from it.
#[must_use]
pub fn config_doctor_check(path: &str, loaded: &Result<Config, ConfigError>) -> (r: DoctorCheck)
    ensures
        r@ == config_check(path@, *loaded),
{
    match config::check_loaded(loaded) {
        Ok(_) => check("配置", "ok", path.to_owned().concat(" 通过语义验证")),
        Err(error) => check(
            "配置",
            "error",
            path.to_owned().concat("：").concat(error.as_str()),
        ),
    }
}

/// `interface:address`
pub open spec fn address_text(a: InterfaceAddressView) -> Seq<char> {
    a.interface + ":"@ + address::shown(a.address)
}

/// The check for the addresses of the interfaces.
pub open spec fn addresses_check(found: Result<Vec<InterfaceAddress>, String>) -> CheckView {
    match found {
        Ok(v) => if v@.len() > 0 {
            passed(
                "本机接口地址"@,
                text::joined(
                    host::interface_views(v@).map_values(
                        |a: InterfaceAddressView| address_text(a),
                    ),
                    ", "@,
                ),
            )
        } else {
            warned("本机接口地址"@, "未发现可用 IPv4/IPv6 地址"@)
        },
        Err(error) => erred("本机接口地址"@, "无法读取 `ip -brief address`："@ + error@),
    }
}

/// The addresses between commas.
fn write_addresses(v: &Vec<InterfaceAddress>) -> (r: String)
    ensures
        r@ == text::joined(
            host::interface_views(v@).map_values(|a: InterfaceAddressView| address_text(a)),
            ", "@,
        ),
{
    let mut parts: Vec<String> = Vec::new();
    let mut i: usize = 0;
    while i < v.len()
        invariant
            i <= v.len(),
            parts@.len() == i,
            forall|j: int| 0 <= j < i ==> (#[trigger] parts@[j])@ == address_text(v@[j]@),
        decreases v.len() - i,
    {
        parts.push(
            v[i].interface.clone().concat(":").concat(v[i].address.to_text().as_str()),
        );
        i = i + 1;
    }
    proof {
        assert(text::texts(parts@) =~= host::interface_views(v@).map_values(
            |a: InterfaceAddressView| address_text(a),
        ));
    }
    text::join(&parts, ", ")
}

/// Checks the addresses of the interfaces.
#[must_use]
pub fn local_addresses_doctor_check(found: &Result<Vec<InterfaceAddress>, String>) -> (r:
    DoctorCheck)
    ensures
        r@ == addresses_check(*found),
{
    match found {
        Ok(v) => {
            if v.len() > 0 {
                check("本机接口地址", "ok", write_addresses(v))
            } else {
                check("本机接口地址", "warning", "未发现可用 IPv4/IPv6 地址".to_owned())
            }
        },
        Err(error) => check(
            "本机接口地址",
            "error",
            "无法读取 `ip -brief address`：".to_owned().concat(error.as_str()),
        ),
    }
}

/// The configuration allows coexistence with external chains; one that could not be
/// loaded does not.
pub open spec fn coexistence(loaded: Result<Config, ConfigError>) -> bool {
    match loaded {
        Ok(config) => config.allow_external_chains,
        Err(_) => false,
    }
}

/// `true` or `false`
pub open spec fn truth(b: bool) -> Seq<char> {
    if b {
        "true"@
    } else {
        "false"@
    }
}

/// The check for hooks of external chains.
pub open spec fn hook_check(allowed: bool, conflicts: Result<Vec<String>, String>) -> CheckView {
    match conflicts {
        Ok(v) => if v@.len() == 0 {
            passed(
                "外部 nft hook"@,
                "未检测到冲突；allow_external_chains="@ + truth(allowed),
            )
        } else if allowed {
            warned(
                "外部 nft hook"@,
                "检测到 "@ + text::joined(text::texts(v@), ", "@)
                    + "；allow_external_chains=true。请人工确认 NetBird/其他规则的优先级与数据流；doctor 不会修改外部 table/chain。"@,
            )
        } else {
            erred(
                "外部 nft hook"@,
                "检测到 "@ + text::joined(text::texts(v@), ", "@)
                    + "；allow_external_chains=false，daemon 会拒绝启动。确认规则顺序后才手动在配置中设为 true；不会自动更改。"@,
            )
        },
        Err(error) => warned("外部 nft hook"@, "无法只读检查 nft hook："@ + error@),
    }
}

/// Checks for hooks of external chains.
#[must_use]
pub fn external_hook_doctor_check(
    loaded: &Result<Config, ConfigError>,
    conflicts: &Result<Vec<String>, String>,
) -> (r: DoctorCheck)
    ensures
        r@ == hook_check(coexistence(*loaded), *conflicts),
{
    let allowed = match loaded {
        Ok(config) => config.allow_external_chains,
        Err(_) => false,
    };
    match conflicts {
        Ok(v) => {
            if v.len() == 0 {
                let truth = if allowed {
                    "true"
                } else {
                    "false"
                };
                check(
                    "外部 nft hook",
                    "ok",
                    "未检测到冲突；allow_external_chains=".to_owned().concat(truth),
                )
            } else if allowed {
                check(
                    "外部 nft hook",
                    "warning",
                    "检测到 ".to_owned().concat(text::join(v, ", ").as_str()).concat(
                        "；allow_external_chains=true。请人工确认 NetBird/其他规则的优先级与数据流；doctor 不会修改外部 table/chain。",
                    ),
                )
            } else {
                check(
                    "外部 nft hook",
                    "error",
                    "检测到 ".to_owned().concat(text::join(v, ", ").as_str()).concat(
                        "；allow_external_chains=false，daemon 会拒绝启动。确认规则顺序后才手动在配置中设为 true；不会自动更改。",
                    ),
                )
            }
        },
        Err(error) => check(
            "外部 nft hook",
            "warning",
            "无法只读检查 nft hook：".to_owned().concat(error.as_str()),
        ),
    }
}

/// The check for the control socket; what stands at its path is a socket or not, or
/// cannot be looked at.
pub open spec fn socket_check(path: Seq<char>, is_socket: Result<bool, String>) -> CheckView {
    match is_socket {
        Ok(true) => passed("控制 socket"@, path + " 存在"@),
        Ok(false) => warned("控制 socket"@, path + " 存在但不是 Unix socket"@),
        Err(error) => warned("控制 socket"@, path + " 不可用："@ + error@),
    }
}

/// Checks the control socket.
#[must_use]
pub fn socket_doctor_check(path: &str, is_socket: &Result<bool, String>) -> (r: DoctorCheck)
    ensures
        r@ == socket_check(path@, *is_socket),
{
    match is_socket {
        Ok(true) => check("控制 socket", "ok", path.to_owned().concat(" 存在")),
        Ok(false) => check(
            "控制 socket",
            "warning",
            path.to_owned().concat(" 存在但不是 Unix socket"),
        ),
        Err(error) => check(
            "控制 socket",
            "warning",
            path.to_owned().concat(" 不可用：").concat(error.as_str()),
        ),
    }
}

/// The check for the service manager.
pub open spec fn manager_check(selected: Option<ServiceManager>) -> CheckView {
    match selected {
        Some(ServiceManager::Systemd) => passed("服务管理"@, "检测到 systemd"@),
        Some(ServiceManager::OpenRc) => passed("服务管理"@, "检测到 OpenRC"@),
        None => warned("服务管理"@, service::NO_MANAGER@),
    }
}

/// Checks the service manager.
#[must_use]
pub fn init_doctor_check(selected: Option<ServiceManager>) -> (r: DoctorCheck)
    ensures
        r@ == manager_check(selected),
{
    match selected {
        Some(ServiceManager::Systemd) => check("服务管理", "ok", "检测到 systemd".to_owned()),
        Some(ServiceManager::OpenRc) => check("服务管理", "ok", "检测到 OpenRC".to_owned()),
        None => check("服务管理", "warning", service::NO_MANAGER.to_owned()),
    }
}

/// The check for a table of our own.
pub open spec fn table_check(
    family: Seq<char>,
    table: Seq<char>,
    listed: Result<CommandOutput, String>,
) -> CheckView {
    let name = "自有 nft table "@ + family + " "@ + table;
    match listed {
        Ok(output) => if output.success {
            passed(name, "已安装"@)
        } else {
            warned(name, "未安装或无法查询："@ + text::trim(output.stderr@))
        },
        Err(error) => warned(name, "无法运行 nft："@ + error@),
    }
}

/// Checks that a table of our own is there.
#[must_use]
pub fn nft_table_doctor_check(
    family: &str,
    table: &str,
    listed: &Result<CommandOutput, String>,
) -> (r: DoctorCheck)
    ensures
        r@ == table_check(family@, table@, *listed),
{
    let name = "自有 nft table ".to_owned().concat(family).concat(" ").concat(table);
    match listed {
        Ok(output) => {
            if output.success {
                check(name.as_str(), "ok", "已安装".to_owned())
            } else {
                check(
                    name.as_str(),
                    "warning",
                    "未安装或无法查询：".to_owned().concat(
                        host::trimmed(output.stderr.as_str()).as_str(),
                    ),
                )
            }
        },
        Err(error) => check(
            name.as_str(),
            "warning",
            "无法运行 nft：".to_owned().concat(error.as_str()),
        ),
    }
}

/// What nftables tells, where its command is there.
#[derive(Debug, PartialEq, Eq)]
pub struct NftFindings {
    /// The listing of the IPv4 table.
    pub ipv4_table: Result<CommandOutput, String>,
    /// The listing of the IPv6 table.
    pub ipv6_table: Result<CommandOutput, String>,
    /// The hooks of external chains that conflict.
    pub conflicts: Result<Vec<String>, String>,
}

/// What was found on the host.
#[derive(Debug, PartialEq, Eq)]
pub struct Findings {
    /// What nftables tells, where its command is there.
    pub nft: Option<NftFindings>,
    /// The `ip` command is there.
    pub has_ip: bool,
    pub addresses: Result<Vec<InterfaceAddress>, String>,
    pub config_path: String,
    pub config: Result<Config, ConfigError>,
    pub socket_path: String,
    pub is_socket: Result<bool, String>,
    pub manager: Option<ServiceManager>,
}

/// The checks that need no nftables, in order.
pub open spec fn general_checks(f: Findings) -> Seq<CheckView> {
    seq![
        command_check("nft"@, "nft"@, f.nft is Some),
        command_check("ip"@, "ip"@, f.has_ip),
        addresses_check(f.addresses),
        config_check(f.config_path@, f.config),
        socket_check(f.socket_path@, f.is_socket),
        manager_check(f.manager),
    ]
}

/// The checks of what nftables tells, in order.
pub open spec fn nft_checks(nft: NftFindings, config: Result<Config, ConfigError>) -> Seq<CheckView> {
    seq![
        table_check("ip"@, "port_forward_v4"@, nft.ipv4_table),
        table_check("ip6"@, "port_forward_v6"@, nft.ipv6_table),
        hook_check(coexistence(config), nft.conflicts),
    ]
}

/// The checks of what was found, in order.
pub open spec fn checks_of(f: Findings) -> Seq<CheckView> {
    match f.nft {
        Some(nft) => general_checks(f) + nft_checks(nft, f.config),
        None => general_checks(f),
    }
}

/// Adds a check.
fn add_check(checks: &mut Vec<DoctorCheck>, c: DoctorCheck)
    ensures
        check_views(final(checks)@) == check_views(old(checks)@).push(c@),
{
    let ghost before = checks@;
    checks.push(c);
    proof {
        assert(check_views(checks@) =~= check_views(before).push(c@));
    }
}

/// The checks that need no nftables.
fn check_generally(found: &Findings) -> (r: Vec<DoctorCheck>)
    ensures
        check_views(r@) == general_checks(*found),
{
    let mut checks: Vec<DoctorCheck> = Vec::new();
    proof {
        assert(check_views(checks@) =~= Seq::empty());
    }
    add_check(&mut checks, command_doctor_check("nft", "nft", found.nft.is_some()));
    add_check(&mut checks, command_doctor_check("ip", "ip", found.has_ip));
    add_check(&mut checks, local_addresses_doctor_check(&found.addresses));
    add_check(&mut checks, config_doctor_check(found.config_path.as_str(), &found.config));
    add_check(&mut checks, socket_doctor_check(found.socket_path.as_str(), &found.is_socket));
    add_check(&mut checks, init_doctor_check(found.manager));
    checks
}

/// Adds the checks of what nftables tells.
fn check_nft(
    checks: &mut Vec<DoctorCheck>,
    nft: &NftFindings,
    config: &Result<Config, ConfigError>,
)
    ensures
        check_views(final(checks)@) == check_views(old(checks)@) + nft_checks(*nft, *config),
{
    let ghost before = check_views(checks@);
    let ipv4 = nft_table_doctor_check("ip", "port_forward_v4", &nft.ipv4_table);
    let ipv6 = nft_table_doctor_check("ip6", "port_forward_v6", &nft.ipv6_table);
    let hooks = external_hook_doctor_check(config, &nft.conflicts);
    let ghost views = (ipv4@, ipv6@, hooks@);
    add_check(checks, ipv4);
    add_check(checks, ipv6);
    add_check(checks, hooks);
    proof {
        assert(check_views(checks@) =~= before + seq![views.0, views.1, views.2]);
    }
}

/// Tells what was found as a list of checks.
#[must_use]
pub fn doctor_report(found: &Findings) -> (r: DoctorReport)
    ensures
        check_views(r.checks@) == checks_of(*found),
{
    let mut checks = check_generally(found);
    match &found.nft {
        Some(nft) => {
            check_nft(&mut checks, nft, &found.config);
        },
        None => {},
    }
    DoctorReport { checks }
}

/// The line of a check in a diagnosis.
#[must_use]
pub fn check_line(c: &DoctorCheck) -> (r: String)
    ensures
        r@ == "["@ + c@.status + "] "@ + c@.name + "："@ + c@.detail,
{
    "[".to_owned().concat(c.status.as_str()).concat("] ").concat(c.name.as_str()).concat(
        "：",
    ).concat(c.detail.as_str())
}

/// The label of a status behind the first use.
pub open spec fn label(status: Seq<char>) -> Seq<char> {
    if status == "ok"@ {
        "OK"@
    } else if status == "warning"@ {
        "WARN"@
    } else {
        "ERROR"@
    }
}

/// The line of a check behind the first use.
#[must_use]
pub fn setup_line(c: &DoctorCheck) -> (r: String)
    ensures
        r@ == "["@ + label(c@.status) + "] "@ + c@.name + "："@ + c@.detail,
{
    let label = if text::same(c.status.as_str(), "ok") {
        "OK"
    } else if text::same(c.status.as_str(), "warning") {
        "WARN"
    } else {
        "ERROR"
    };
    "[".to_owned().concat(label).concat("] ").concat(c.name.as_str()).concat("：").concat(
        c.detail.as_str(),
    )
}

} // verus!
