//! The first use: the template, the questions of the wizard and the configuration
//! that its answers make.

use vstd::prelude::*;

use crate::address;
use crate::address::{IpAddr, Ipv4Addr};
use crate::config;
use crate::config::{
    AddressFamily, Config, ConfigView, ListenPortsView, ProfileView, Protocol, SourceMode,
    TargetView,
};
use crate::host;
use crate::host::{InterfaceAddress, InterfaceAddressView};
use crate::number;
use crate::text;

verus! {

/// The configuration that is written without a dialogue: it cannot be started before
/// its placeholders are replaced.
pub const TODO_CONFIG: &'static str =
    "# HY2-MultiPort first-use template. It is deliberately NOT startable.\n# Replace every TODO value by running `sudo port-forward init` in a terminal,\n# or edit this file with real values and then validate it.\nschema_version = 1\nallow_external_chains = false\n\n[[profiles]]\nname = \"TODO-profile-name\"\nfamily = \"ipv4\"\nlisten_address = \"TODO-listen-address\"\nprotocols = [\"tcp\"]\nsource_cidrs = [\"TODO-source-cidr\"]\n\n[profiles.listen_ports]\nports = [443]\n\n[profiles.target]\nkind = \"redirect\"\nport = 8443\n";

/// What an initialisation does.
#[derive(Debug, PartialEq, Eq)]
pub enum InitPlan {
    /// It refuses, with this text.
    Refuse { reason: String },
    /// It writes the template; `notice` is told first.
    Template { notice: Option<String> },
    /// It asks the questions of the wizard.
    Ask,
}

/// Decides what an initialisation does: a configuration that is there is never
/// overwritten, and without a terminal, or where it is asked for, the template is
/// written.
#[must_use]
pub fn plan_init(path: &str, exists: bool, force_template: bool, interactive: bool) -> (r: InitPlan)
    ensures
        exists ==> (r matches InitPlan::Refuse { reason } && reason@ == "拒绝覆盖已有配置 "@
            + path@ + "。请先备份并手动编辑，或运行 port-forward validate。"@),
        !exists && force_template ==> r == (InitPlan::Template { notice: None }),
        !exists && !force_template && !interactive ==> (r matches InitPlan::Template {
            notice: Some(notice),
        } && notice@
            == "未检测到交互式终端；不会复制文档保留地址示例，改为生成明确的 TODO 配置。"@),
        !exists && !force_template && interactive ==> r is Ask,
{
    if exists {
        InitPlan::Refuse {
            reason: "拒绝覆盖已有配置 ".to_owned().concat(path).concat(
                "。请先备份并手动编辑，或运行 port-forward validate。",
            ),
        }
    } else if force_template {
        InitPlan::Template { notice: None }
    } else if !interactive {
        InitPlan::Template {
            notice: Some(
                "未检测到交互式终端；不会复制文档保留地址示例，改为生成明确的 TODO 配置。".to_owned(),
            ),
        }
    } else {
        InitPlan::Ask
    }
}

/// What is told once the configuration was written.
pub open spec fn init_summary(path: Seq<char>, from_template: bool) -> Seq<char> {
    "已创建首次使用配置："@ + path + "\n"@ + (if from_template {
        "[ERROR] 该配置含 TODO，刻意不能启动。请在交互式终端运行：sudo port-forward init --config "@
            + path + "\n"@
    } else {
        "[OK] 已写入向导选择的真实字段；仍请检查规则顺序和暴露范围。\n"@
    }) + "验证：sudo port-forward validate --config "@ + path
        + "\n诊断：sudo port-forward doctor --config "@ + path
        + "\n启动：仅在 validate 与 doctor 无 ERROR 后运行 sudo port-forward start\n"@
}

/// What is told once `content` was written to `path`.
#[must_use]
pub fn init_report(path: &str, content: &str) -> (r: String)
    ensures
        r@ == init_summary(path@, content@ == TODO_CONFIG@),
{
    let verdict = if text::same(content, TODO_CONFIG) {
        "[ERROR] 该配置含 TODO，刻意不能启动。请在交互式终端运行：sudo port-forward init --config ".to_owned().concat(
        path).concat("\n")
    } else {
        "[OK] 已写入向导选择的真实字段；仍请检查规则顺序和暴露范围。\n".to_owned()
    };
    "已创建首次使用配置：".to_owned().concat(path).concat("\n").concat(verdict.as_str()).concat(
        "验证：sudo port-forward validate --config ",
    ).concat(path).concat("\n诊断：sudo port-forward doctor --config ").concat(path).concat(
        "\n启动：仅在 validate 与 doctor 无 ERROR 后运行 sudo port-forward start\n",
    )
}

// Prompts.

/// What a line answers: its text without the white space around it, or the default
/// where that is empty.
pub open spec fn answer_of(line: Seq<char>, default: Option<Seq<char>>) -> Result<
    Seq<char>,
    Seq<char>,
> {
    if text::trim(line).len() > 0 {
        Ok(text::trim(line))
    } else {
        match default {
            Some(value) => Ok(value),
            None => Err("该字段不能为空；请重新运行 init"@),
        }
    }
}

/// The model of an answer or of the text of a failure.
pub open spec fn answer_view(r: Result<String, String>) -> Result<Seq<char>, Seq<char>> {
    match r {
        Ok(v) => Ok(v@),
        Err(e) => Err(e@),
    }
}

/// The view of an optional borrowed text.
pub open spec fn option_str(v: Option<&str>) -> Option<Seq<char>> {
    match v {
        Some(s) => Some(s@),
        None => None,
    }
}

/// What a line answers to a prompt with the default.
pub fn prompt(line: &str, default: Option<&str>) -> (r: Result<String, String>)
    ensures
        answer_view(r) == answer_of(line@, option_str(default)),
{
    let value = text::trim_chars(text::chars_of(line));
    if value.len() > 0 {
        return Ok(text::string_of(&value));
    }
    match default {
        Some(value) => Ok(value.to_owned()),
        None => Err("该字段不能为空；请重新运行 init".to_owned()),
    }
}

/// The text of a prompt.
pub open spec fn spec_prompt_text(label: Seq<char>, default: Option<Seq<char>>) -> Seq<char> {
    match default {
        Some(value) => label + " ["@ + value + "]："@,
        None => label + "："@,
    }
}

/// The port that `value` gives, if it is one.
pub open spec fn port_of(value: Seq<char>) -> Option<u16> {
    match number::unsigned(value, 65535) {
        Some(port) => if port == 0 {
            None
        } else {
            Some(port as u16)
        },
        None => None,
    }
}

/// The port that the answer to the prompt `label` gives.
pub fn prompt_port(label: &str, value: &str) -> (r: Result<u16, String>)
    ensures
        match port_of(value@) {
            Some(port) => r == Ok::<u16, String>(port),
            None => r matches Err(e) && e@ == label@ + " 必须是 1 到 65535；请重新运行 init"@,
        },
{
    match number::read_unsigned(&text::chars_of(value), 65535) {
        Some(port) => {
            if port != 0 {
                return Ok(port as u16);
            }
        },
        None => {},
    }
    Err(label.to_owned().concat(" 必须是 1 到 65535；请重新运行 init"))
}

// The dialogue.

#[derive(Clone, Copy, Debug, PartialEq, Eq, Structural)]
pub enum TargetKind {
    Redirect,
    Remote,
    LoopbackDnat,
}

/// What the wizard asks next.
#[derive(Clone, Copy, Debug, PartialEq, Eq, Structural)]
pub enum Question {
    Listener,
    Protocols,
    ListenPort,
    Target,
    TargetPort,
    Source,
    Name,
    RemoteHost,
    RemoteSourceMode,
    /// Nothing: every answer is there.
    Nothing,
}

/// The answers so far.
#[derive(Debug, PartialEq, Eq)]
pub struct Draft {
    pub listen_address: String,
    pub listen_ip: IpAddr,
    /// The list of protocols as it is written.
    pub protocols: String,
    pub listen_port: u16,
    pub target_kind: TargetKind,
    pub target_port: u16,
    pub source_cidr: String,
    pub name: String,
    pub host: String,
    pub source_mode: String,
}

/// The wizard: the addresses of this host, the answers so far, and the next question.
#[derive(Debug, PartialEq, Eq)]
pub struct Wizard {
    pub addresses: Vec<InterfaceAddress>,
    pub question: Question,
    pub draft: Draft,
}

#[verifier::ext_equal]
pub struct DraftView {
    pub listen_address: Seq<char>,
    pub listen_ip: IpAddr,
    pub protocols: Seq<char>,
    pub listen_port: u16,
    pub target_kind: TargetKind,
    pub target_port: u16,
    pub source_cidr: Seq<char>,
    pub name: Seq<char>,
    pub host: Seq<char>,
    pub source_mode: Seq<char>,
}

#[verifier::ext_equal]
pub struct WizardView {
    pub addresses: Seq<InterfaceAddressView>,
    pub question: Question,
    pub draft: DraftView,
}

impl View for Draft {
    type V = DraftView;

    open spec fn view(&self) -> DraftView {
        DraftView {
            listen_address: self.listen_address@,
            listen_ip: self.listen_ip,
            protocols: self.protocols@,
            listen_port: self.listen_port,
            target_kind: self.target_kind,
            target_port: self.target_port,
            source_cidr: self.source_cidr@,
            name: self.name@,
            host: self.host@,
            source_mode: self.source_mode@,
        }
    }
}

impl View for Wizard {
    type V = WizardView;

    open spec fn view(&self) -> WizardView {
        WizardView {
            addresses: host::interface_views(self.addresses@),
            question: self.question,
            draft: self.draft@,
        }
    }
}

/// The family of an address.
pub open spec fn family_of(ip: IpAddr) -> AddressFamily {
    match ip {
        IpAddr::V4(_) => AddressFamily::Ipv4,
        IpAddr::V6(_) => AddressFamily::Ipv6,
    }
}

/// The family of an address.
fn family(ip: IpAddr) -> (r: AddressFamily)
    ensures
        r == family_of(ip),
{
    match ip {
        IpAddr::V4(_) => AddressFamily::Ipv4,
        IpAddr::V6(_) => AddressFamily::Ipv6,
    }
}

/// The label of a question.
pub open spec fn spec_label(q: Question) -> Seq<char> {
    match q {
        Question::Listener => "选择监听地址序号，或直接输入地址"@,
        Question::Protocols => "协议（tcp / udp / both）"@,
        Question::ListenPort => "监听端口"@,
        Question::Target => "目标类型（redirect / remote / loopback-dnat）"@,
        Question::TargetPort => "目标端口"@,
        Question::Source => "允许来源 CIDR（默认代表向全网公开）"@,
        Question::Name => "配置名称"@,
        Question::RemoteHost => "远程目标 IP 或 FQDN"@,
        Question::RemoteSourceMode => "IPv4 远程目标来源模式（masquerade / preserve）"@,
        Question::Nothing => ""@,
    }
}

/// The label of a question.
pub fn label(q: Question) -> (r: &'static str)
    ensures
        r@ == spec_label(q),
{
    match q {
        Question::Listener => "选择监听地址序号，或直接输入地址",
        Question::Protocols => "协议（tcp / udp / both）",
        Question::ListenPort => "监听端口",
        Question::Target => "目标类型（redirect / remote / loopback-dnat）",
        Question::TargetPort => "目标端口",
        Question::Source => "允许来源 CIDR（默认代表向全网公开）",
        Question::Name => "配置名称",
        Question::RemoteHost => "远程目标 IP 或 FQDN",
        Question::RemoteSourceMode => "IPv4 远程目标来源模式（masquerade / preserve）",
        Question::Nothing => "",
    }
}

/// The default answer to a question.
pub open spec fn spec_default(q: Question, ip: IpAddr) -> Option<Seq<char>> {
    match q {
        Question::Listener => None,
        Question::Protocols => Some("tcp"@),
        Question::ListenPort => Some("443"@),
        Question::Target => Some("redirect"@),
        Question::TargetPort => Some("8443"@),
        Question::Source => Some(family_of(ip).spec_any_source()),
        Question::Name => Some("first-forward"@),
        Question::RemoteHost => None,
        Question::RemoteSourceMode => Some("masquerade"@),
        Question::Nothing => None,
    }
}

/// The default answer to a question.
fn default_answer(q: Question, ip: IpAddr) -> (r: Option<&'static str>)
    ensures
        option_str(r) == spec_default(q, ip),
{
    match q {
        Question::Listener => None,
        Question::Protocols => Some("tcp"),
        Question::ListenPort => Some("443"),
        Question::Target => Some("redirect"),
        Question::TargetPort => Some("8443"),
        Question::Source => Some(family(ip).any_source()),
        Question::Name => Some("first-forward"),
        Question::RemoteHost => None,
        Question::RemoteSourceMode => Some("masquerade"),
        Question::Nothing => None,
    }
}

/// The address that an answer chooses: that at the number, counted from one, or the
/// answer itself.
pub open spec fn chosen_listener(addresses: Seq<InterfaceAddressView>, value: Seq<char>) -> Seq<
    char,
> {
    match number::unsigned(value, usize::MAX as nat) {
        Some(n) => {
            let k = if n == 0 {
                0
            } else {
                n - 1
            };
            if k < addresses.len() {
                address::shown(addresses[k as int].address)
            } else {
                value
            }
        },
        None => value,
    }
}

/// `ip` is an address of this host.
pub open spec fn local(addresses: Seq<InterfaceAddressView>, ip: IpAddr) -> bool {
    exists|i: int| 0 <= i < addresses.len() && (#[trigger] addresses[i]).address == ip
}

/// What keeps an address from being listened on.
pub open spec fn listener_fault(addresses: Seq<InterfaceAddressView>, chosen: Seq<char>) -> Option<
    Seq<char>,
> {
    match address::ip_of(chosen) {
        None => Some(
            "监听地址 "@ + text::quoted(chosen) + " 不是有效 IP 地址；请重新运行 init"@,
        ),
        Some(ip) => if config::documentation_address(ip) {
            Some(
                "监听地址 "@ + address::shown(ip)
                    + " 是文档保留地址；请重新运行 init 并选择本机真实地址"@,
            )
        } else if !local(addresses, ip) {
            Some(
                "监听地址 "@ + address::shown(ip)
                    + " 不属于上面列出的本机接口；请重新运行 init 并选择本机地址"@,
            )
        } else {
            None
        },
    }
}

/// The list of protocols that an answer gives, as it is written.
pub open spec fn protocol_list(value: Seq<char>) -> Option<Seq<char>> {
    if value == "tcp"@ {
        Some("[\"tcp\"]"@)
    } else if value == "udp"@ {
        Some("[\"udp\"]"@)
    } else if value == "both"@ {
        Some("[\"tcp\", \"udp\"]"@)
    } else {
        None
    }
}

/// The kind of target that an answer gives.
pub open spec fn kind_of(value: Seq<char>) -> Option<TargetKind> {
    if value == "redirect"@ {
        Some(TargetKind::Redirect)
    } else if value == "remote"@ {
        Some(TargetKind::Remote)
    } else if value == "loopback-dnat"@ {
        Some(TargetKind::LoopbackDnat)
    } else {
        None
    }
}

/// The name of a kind of target.
pub open spec fn kind_name(kind: TargetKind) -> Seq<char> {
    match kind {
        TargetKind::Redirect => "redirect"@,
        TargetKind::Remote => "remote"@,
        TargetKind::LoopbackDnat => "loopback-dnat"@,
    }
}

/// What keeps a host from being a remote target.
pub open spec fn host_fault(value: Seq<char>) -> Option<Seq<char>> {
    if text::holds_todo(value) {
        Some("远程目标不能包含 TODO"@)
    } else {
        match address::ip_of(value) {
            Some(ip) => if config::documentation_address(ip) {
                Some("远程目标 "@ + address::shown(ip) + " 是文档保留地址；请使用真实目标"@)
            } else {
                None
            },
            None => None,
        }
    }
}

impl WizardView {
    /// The wizard with the draft, and `question` next.
    pub open spec fn moved(self, question: Question, draft: DraftView) -> WizardView {
        WizardView { question, draft, ..self }
    }

    /// The wizard behind an answer to the question at hand, or why the answer is
    /// refused.
    pub open spec fn answered(self, value: Seq<char>) -> Result<WizardView, Seq<char>> {
        let d = self.draft;
        match self.question {
            Question::Listener => {
                let chosen = chosen_listener(self.addresses, value);
                match listener_fault(self.addresses, chosen) {
                    Some(e) => Err(e),
                    None => Ok(
                        self.moved(
                            Question::Protocols,
                            DraftView {
                                listen_address: chosen,
                                listen_ip: address::ip_of(chosen)->0,
                                ..d
                            },
                        ),
                    ),
                }
            },
            Question::Protocols => match protocol_list(value) {
                Some(protocols) => Ok(
                    self.moved(Question::ListenPort, DraftView { protocols, ..d }),
                ),
                None => Err(
                    "不支持的协议 "@ + text::quoted(value) + "；请输入 tcp、udp 或 both"@,
                ),
            },
            Question::ListenPort => match port_of(value) {
                Some(listen_port) => Ok(
                    self.moved(Question::Target, DraftView { listen_port, ..d }),
                ),
                None => Err(spec_label(self.question) + " 必须是 1 到 65535；请重新运行 init"@),
            },
            Question::Target => match kind_of(value) {
                None => Err("不支持的目标类型 "@ + text::quoted(value)),
                Some(target_kind) => if target_kind == TargetKind::LoopbackDnat && family_of(
                    d.listen_ip,
                ) != AddressFamily::Ipv4 {
                    Err("loopback-dnat 仅支持 IPv4；IPv6 请使用 redirect"@)
                } else {
                    Ok(self.moved(Question::TargetPort, DraftView { target_kind, ..d }))
                },
            },
            Question::TargetPort => match port_of(value) {
                Some(target_port) => Ok(
                    self.moved(Question::Source, DraftView { target_port, ..d }),
                ),
                None => Err(spec_label(self.question) + " 必须是 1 到 65535；请重新运行 init"@),
            },
            Question::Source => Ok(
                self.moved(Question::Name, DraftView { source_cidr: value, ..d }),
            ),
            Question::Name => if text::holds_todo(value) {
                Err("配置名称不能包含 TODO"@)
            } else {
                Ok(
                    self.moved(
                        if d.target_kind == TargetKind::Remote {
                            Question::RemoteHost
                        } else {
                            Question::Nothing
                        },
                        DraftView { name: value, ..d },
                    ),
                )
            },
            Question::RemoteHost => match host_fault(value) {
                Some(e) => Err(e),
                None => Ok(
                    self.moved(
                        if family_of(d.listen_ip) == AddressFamily::Ipv4 {
                            Question::RemoteSourceMode
                        } else {
                            Question::Nothing
                        },
                        DraftView { host: value, ..d },
                    ),
                ),
            },
            Question::RemoteSourceMode => if value == "masquerade"@ || value == "preserve"@ {
                Ok(self.moved(Question::Nothing, DraftView { source_mode: value, ..d }))
            } else {
                Err("来源模式必须是 masquerade 或 preserve"@)
            },
            Question::Nothing => Ok(self),
        }
    }
}

/// Whether `ip` is an address of this host.
fn is_local(addresses: &Vec<InterfaceAddress>, ip: IpAddr) -> (r: bool)
    ensures
        r == local(host::interface_views(addresses@), ip),
{
    let ghost all = host::interface_views(addresses@);
    let mut i: usize = 0;
    while i < addresses.len()
        invariant
            i <= addresses.len(),
            all == host::interface_views(addresses@),
            forall|j: int| 0 <= j < i ==> (#[trigger] all[j]).address != ip,
        decreases addresses.len() - i,
    {
        proof {
            assert(all[i as int] == addresses@[i as int]@);
        }
        if addresses[i].address == ip {
            return true;
        }
        i = i + 1;
    }
    false
}

/// The address that an answer chooses.
fn choose_listener(addresses: &Vec<InterfaceAddress>, value: &str) -> (r: String)
    ensures
        r@ == chosen_listener(host::interface_views(addresses@), value@),
{
    match number::read_unsigned(&text::chars_of(value), usize::MAX as u64) {
        Some(n) => {
            let k: u64 = n.saturating_sub(1);
            if k < addresses.len() as u64 {
                return addresses[k as usize].address.to_text();
            }
        },
        None => {},
    }
    value.to_owned()
}

/// The address that is listened on, or why it cannot be.
fn check_listener(addresses: &Vec<InterfaceAddress>, chosen: &str) -> (r: Result<IpAddr, String>)
    ensures
        match listener_fault(host::interface_views(addresses@), chosen@) {
            None => r is Ok && Some(r->Ok_0) == address::ip_of(chosen@),
            Some(text) => r matches Err(e) && e@ == text,
        },
{
    match address::read_ip(chosen) {
        None => Err(
            "监听地址 ".to_owned().concat(text::quote(chosen).as_str()).concat(
                " 不是有效 IP 地址；请重新运行 init",
            ),
        ),
        Some(ip) => {
            if config::is_documentation_address(ip) {
                Err(
                    "监听地址 ".to_owned().concat(ip.to_text().as_str()).concat(
                        " 是文档保留地址；请重新运行 init 并选择本机真实地址",
                    ),
                )
            } else if !is_local(addresses, ip) {
                Err(
                    "监听地址 ".to_owned().concat(ip.to_text().as_str()).concat(
                        " 不属于上面列出的本机接口；请重新运行 init 并选择本机地址",
                    ),
                )
            } else {
                Ok(ip)
            }
        },
    }
}

/// The list of protocols that an answer gives, as it is written.
fn read_protocols(value: &str) -> (r: Result<String, String>)
    ensures
        match protocol_list(value@) {
            Some(list) => r matches Ok(v) && v@ == list,
            None => r matches Err(e) && e@ == "不支持的协议 "@ + text::quoted(value@)
                + "；请输入 tcp、udp 或 both"@,
        },
{
    if text::same(value, "tcp") {
        Ok("[\"tcp\"]".to_owned())
    } else if text::same(value, "udp") {
        Ok("[\"udp\"]".to_owned())
    } else if text::same(value, "both") {
        Ok("[\"tcp\", \"udp\"]".to_owned())
    } else {
        Err(
            "不支持的协议 ".to_owned().concat(text::quote(value).as_str()).concat(
                "；请输入 tcp、udp 或 both",
            ),
        )
    }
}

/// The kind of target that an answer gives.
fn read_kind(value: &str) -> (r: Option<TargetKind>)
    ensures
        r == kind_of(value@),
{
    if text::same(value, "redirect") {
        Some(TargetKind::Redirect)
    } else if text::same(value, "remote") {
        Some(TargetKind::Remote)
    } else if text::same(value, "loopback-dnat") {
        Some(TargetKind::LoopbackDnat)
    } else {
        None
    }
}

/// Checks that a host can be a remote target.
fn check_host(value: &str) -> (r: Result<(), String>)
    ensures
        match host_fault(value@) {
            None => r is Ok,
            Some(text) => r matches Err(e) && e@ == text,
        },
{
    if text::mentions_todo(value) {
        return Err("远程目标不能包含 TODO".to_owned());
    }
    match address::read_ip(value) {
        Some(ip) => {
            if config::is_documentation_address(ip) {
                return Err(
                    "远程目标 ".to_owned().concat(ip.to_text().as_str()).concat(
                        " 是文档保留地址；请使用真实目标",
                    ),
                );
            }
        },
        None => {},
    }
    Ok(())
}

/// The model of a wizard that moved on, or of the text of a refusal.
pub open spec fn outcome(r: Result<(), String>, behind: WizardView) -> Result<
    WizardView,
    Seq<char>,
> {
    match r {
        Ok(_) => Ok(behind),
        Err(e) => Err(e@),
    }
}

impl Wizard {
    /// The text of the prompt for the question at hand.
    #[must_use]
    pub fn prompt_text(&self) -> (r: String)
        ensures
            r@ == spec_prompt_text(
                spec_label(self.question),
                spec_default(self.question, self.draft.listen_ip),
            ),
    {
        match default_answer(self.question, self.draft.listen_ip) {
            Some(value) => label(self.question).to_owned().concat(" [").concat(value).concat("]："),
            None => label(self.question).to_owned().concat("："),
        }
    }

    /// Takes the answer `value` to the question at hand and moves on, unless the
    /// answer is refused.
    fn take_answer(&mut self, value: String) -> (r: Result<(), String>)
        ensures
            outcome(r, final(self)@) == old(self)@.answered(value@),
            r is Err ==> *final(self) == *old(self),
    {
        match self.question {
            Question::Listener => {
                let chosen = choose_listener(&self.addresses, value.as_str());
                match check_listener(&self.addresses, chosen.as_str()) {
                    Ok(ip) => {
                        self.draft.listen_address = chosen;
                        self.draft.listen_ip = ip;
                        self.question = Question::Protocols;
                    },
                    Err(e) => {
                        return Err(e);
                    },
                }
            },
            Question::Protocols => match read_protocols(value.as_str()) {
                Ok(protocols) => {
                    self.draft.protocols = protocols;
                    self.question = Question::ListenPort;
                },
                Err(e) => {
                    return Err(e);
                },
            },
            Question::ListenPort => match prompt_port(label(self.question), value.as_str()) {
                Ok(port) => {
                    self.draft.listen_port = port;
                    self.question = Question::Target;
                },
                Err(e) => {
                    return Err(e);
                },
            },
            Question::Target => match read_kind(value.as_str()) {
                None => {
                    return Err(
                        "不支持的目标类型 ".to_owned().concat(text::quote(value.as_str()).as_str()),
                    );
                },
                Some(kind) => {
                    if kind == TargetKind::LoopbackDnat && family(self.draft.listen_ip)
                        != AddressFamily::Ipv4 {
                        return Err("loopback-dnat 仅支持 IPv4；IPv6 请使用 redirect".to_owned());
                    }
                    self.draft.target_kind = kind;
                    self.question = Question::TargetPort;
                },
            },
            Question::TargetPort => match prompt_port(label(self.question), value.as_str()) {
                Ok(port) => {
                    self.draft.target_port = port;
                    self.question = Question::Source;
                },
                Err(e) => {
                    return Err(e);
                },
            },
            Question::Source => {
                self.draft.source_cidr = value;
                self.question = Question::Name;
            },
            Question::Name => {
                if text::mentions_todo(value.as_str()) {
                    return Err("配置名称不能包含 TODO".to_owned());
                }
                self.draft.name = value;
                self.question = if self.draft.target_kind == TargetKind::Remote {
                    Question::RemoteHost
                } else {
                    Question::Nothing
                };
            },
            Question::RemoteHost => match check_host(value.as_str()) {
                Ok(_) => {
                    self.draft.host = value;
                    self.question = if family(self.draft.listen_ip) == AddressFamily::Ipv4 {
                        Question::RemoteSourceMode
                    } else {
                        Question::Nothing
                    };
                },
                Err(e) => {
                    return Err(e);
                },
            },
            Question::RemoteSourceMode => {
                if !text::same(value.as_str(), "masquerade") && !text::same(
                    value.as_str(),
                    "preserve",
                ) {
                    return Err("来源模式必须是 masquerade 或 preserve".to_owned());
                }
                self.draft.source_mode = value;
                self.question = Question::Nothing;
            },
            Question::Nothing => {},
        }
        Ok(())
    }
}

impl WizardView {
    /// The wizard before its first question.
    pub open spec fn start(addresses: Seq<InterfaceAddressView>) -> WizardView {
        WizardView {
            addresses,
            question: Question::Listener,
            draft: DraftView {
                listen_address: Seq::empty(),
                listen_ip: IpAddr::V4(Ipv4Addr { a: 0, b: 0, c: 0, d: 0 }),
                protocols: Seq::empty(),
                listen_port: 0,
                target_kind: TargetKind::Redirect,
                target_port: 0,
                source_cidr: Seq::empty(),
                name: Seq::empty(),
                host: Seq::empty(),
                source_mode: Seq::empty(),
            },
        }
    }

    /// The wizard behind the line that answers the question at hand, or why the line
    /// is refused.
    pub open spec fn told(self, line: Seq<char>) -> Result<WizardView, Seq<char>> {
        match answer_of(line, spec_default(self.question, self.draft.listen_ip)) {
            Ok(value) => self.answered(value),
            Err(e) => Err(e),
        }
    }

    /// The wizard behind a number of lines, or why one of them is refused.
    pub open spec fn told_all(self, lines: Seq<Seq<char>>) -> Result<WizardView, Seq<char>>
        decreases lines.len(),
    {
        if lines.len() == 0 {
            Ok(self)
        } else {
            match self.told_all(lines.drop_last()) {
                Ok(w) => w.told(lines.last()),
                Err(e) => Err(e),
            }
        }
    }
}

/// The place of a question in the dialogue.
pub open spec fn place(q: Question) -> int {
    match q {
        Question::Listener => 0,
        Question::Protocols => 1,
        Question::ListenPort => 2,
        Question::Target => 3,
        Question::TargetPort => 4,
        Question::Source => 5,
        Question::Name => 6,
        Question::RemoteHost => 7,
        Question::RemoteSourceMode => 8,
        Question::Nothing => 9,
    }
}

impl WizardView {
    /// The answers so far are real values that fit together.
    pub open spec fn sound(self) -> bool {
        let d = self.draft;
        let at = place(self.question);
        &&& at > 0 ==> address::ip_of(d.listen_address) == Some(d.listen_ip) && local(
            self.addresses,
            d.listen_ip,
        ) && !config::documentation_address(d.listen_ip)
        &&& at > 1 ==> exists|value: Seq<char>| #[trigger] protocol_list(value) == Some(d.protocols)
        &&& at > 2 ==> d.listen_port > 0
        &&& at > 3 ==> (d.target_kind == TargetKind::LoopbackDnat ==> family_of(d.listen_ip)
            == AddressFamily::Ipv4)
        &&& at > 4 ==> d.target_port > 0
        &&& at > 6 ==> !text::holds_todo(d.name) && !text::is_blank(d.name)
        &&& at > 7 && d.target_kind == TargetKind::Remote ==> host_fault(d.host) is None
            && !text::is_blank(d.host)
        &&& at > 8 && d.target_kind == TargetKind::Remote && family_of(d.listen_ip)
            == AddressFamily::Ipv4 ==> d.source_mode == "masquerade"@ || d.source_mode
            == "preserve"@
        &&& 7 <= at <= 8 ==> d.target_kind == TargetKind::Remote
        &&& at == 8 ==> family_of(d.listen_ip) == AddressFamily::Ipv4
    }
}

impl Wizard {
    /// Takes the addresses of this host, or why they could not be listed, and returns
    /// the wizard before its first question; a host without addresses has none to
    /// offer.
    pub fn start(found: Result<Vec<InterfaceAddress>, String>) -> (r: Result<Wizard, String>)
        ensures
            match found {
                Err(error) => r matches Err(e) && e@ == error@,
                Ok(addresses) => if addresses@.len() == 0 {
                    r matches Err(e) && e@
                        == "未从 `ip -brief address` 发现可选地址；请确认 iproute2 可用后重试，或使用 --non-interactive 生成 TODO 模板"@
                } else {
                    r matches Ok(w) && w@ == WizardView::start(host::interface_views(addresses@))
                },
            },
    {
        let addresses = match found {
            Ok(addresses) => addresses,
            Err(error) => {
                return Err(error);
            },
        };
        if addresses.len() == 0 {
            return Err(
                "未从 `ip -brief address` 发现可选地址；请确认 iproute2 可用后重试，或使用 --non-interactive 生成 TODO 模板".to_owned(),
            );
        }
        let w = Wizard {
            addresses,
            question: Question::Listener,
            draft: Draft {
                listen_address: String::new(),
                listen_ip: IpAddr::V4(Ipv4Addr { a: 0, b: 0, c: 0, d: 0 }),
                protocols: String::new(),
                listen_port: 0,
                target_kind: TargetKind::Redirect,
                target_port: 0,
                source_cidr: String::new(),
                name: String::new(),
                host: String::new(),
                source_mode: String::new(),
            },
        };
        proof {
            assert(w@ =~= WizardView::start(host::interface_views(addresses@)));
        }
        Ok(w)
    }

    /// Takes the line that answers the question at hand and moves on, unless the line
    /// is refused.
    pub fn answer(&mut self, line: &str) -> (r: Result<(), String>)
        ensures
            outcome(r, final(self)@) == old(self)@.told(line@),
            r is Err ==> *final(self) == *old(self),
    {
        match prompt(line, default_answer(self.question, self.draft.listen_ip)) {
            Ok(value) => self.take_answer(value),
            Err(e) => Err(e),
        }
    }
}

/// The line that offers the address at position `i`.
pub open spec fn offer(addresses: Seq<InterfaceAddressView>, i: int) -> Seq<char> {
    "  "@ + number::decimal((i + 1) as nat) + ") "@ + address::shown(addresses[i].address) + "  ("@
        + addresses[i].interface + ")\n"@
}

/// The lines that offer the first `n` addresses.
pub open spec fn offers(addresses: Seq<InterfaceAddressView>, n: int) -> Seq<char>
    decreases n,
{
    if n <= 0 {
        Seq::empty()
    } else {
        offers(addresses, n - 1) + offer(addresses, n - 1)
    }
}

/// The text that opens the dialogue.
pub const OPENING: &'static str =
    "\nHY2-MultiPort 首次使用向导（约 5 分钟）\n不会使用 192.0.2.0/24、198.51.100.0/24、203.0.113.0/24 或 2001:db8::/32 文档地址。\n\n";

impl Wizard {
    /// The text that offers the addresses of this host, each with its number.
    #[must_use]
    pub fn listing(&self) -> (r: String)
        ensures
            r@ == "本机接口地址：\n"@ + offers(self@.addresses, self@.addresses.len() as int),
    {
        let ghost all = self@.addresses;
        let mut lines = String::new();
        let mut i: usize = 0;
        while i < self.addresses.len()
            invariant
                i <= self.addresses.len(),
                all == host::interface_views(self.addresses@),
                lines@ == offers(all, i as int),
            decreases self.addresses.len() - i,
        {
            proof {
                assert(all[i as int] == self.addresses@[i as int]@);
            }
            let line = "  ".to_owned().concat(
                number::decimal_text(i as u64 + 1).as_str(),
            ).concat(") ").concat(self.addresses[i].address.to_text().as_str()).concat(
                "  (",
            ).concat(self.addresses[i].interface.as_str()).concat(")\n");
            lines.append(line.as_str());
            i = i + 1;
        }
        "本机接口地址：\n".to_owned().concat(lines.as_str())
    }
}

// The configuration.

/// The lines that every draft makes.
pub open spec fn common_body(d: DraftView) -> Seq<char> {
    "# Created by `port-forward init`; review before start.\nschema_version = 1\nallow_external_chains = false\n\n[[profiles]]\nname = "@
        + text::quoted(d.name) + "\nfamily = "@ + text::quoted(
        config::spec_family_name(family_of(d.listen_ip)),
    ) + "\nlisten_address = "@ + text::quoted(d.listen_address) + "\nprotocols = "@ + d.protocols
        + "\nsource_cidrs = ["@ + text::quoted(d.source_cidr)
        + "]\n\n[profiles.listen_ports]\nports = ["@ + number::decimal(d.listen_port as nat)
        + "]\n\n[profiles.target]\nkind = "@ + text::quoted(kind_name(d.target_kind))
        + "\nport = "@ + number::decimal(d.target_port as nat) + "\n"@
}

/// The configuration that a draft makes: a remote target has its host and, for IPv4,
/// its source mode; a loopback target opts into `route_localnet`.
pub open spec fn body(d: DraftView) -> Seq<char> {
    match d.target_kind {
        TargetKind::Redirect => common_body(d),
        TargetKind::Remote => {
            let with_host = common_body(d) + "host = "@ + text::quoted(d.host) + "\n"@;
            if family_of(d.listen_ip) == AddressFamily::Ipv4 {
                with_host + "source_mode = "@ + text::quoted(d.source_mode) + "\n"@
            } else {
                with_host
            }
        },
        TargetKind::LoopbackDnat => text::replace_first_from(
            common_body(d),
            "protocols = "@,
            "allow_route_localnet = true\nprotocols = "@,
            0,
        ),
    }
}

/// The protocols of a written list.
pub open spec fn drafted_protocols(written: Seq<char>) -> Seq<Protocol> {
    if written == "[\"tcp\"]"@ {
        seq![Protocol::Tcp]
    } else if written == "[\"udp\"]"@ {
        seq![Protocol::Udp]
    } else {
        seq![Protocol::Tcp, Protocol::Udp]
    }
}

/// The target of a draft.
pub open spec fn drafted_target(d: DraftView) -> TargetView {
    let port = d.target_port;
    match d.target_kind {
        TargetKind::Redirect => TargetView::Redirect { port },
        TargetKind::Remote => TargetView::Remote {
            host: d.host,
            port,
            source_mode: if family_of(d.listen_ip) != AddressFamily::Ipv4 {
                None
            } else if d.source_mode == "masquerade"@ {
                Some(SourceMode::Masquerade)
            } else {
                Some(SourceMode::Preserve)
            },
        },
        TargetKind::LoopbackDnat => TargetView::LoopbackDnat { port },
    }
}

/// The configuration that a draft stands for.
pub open spec fn drafted(d: DraftView) -> ConfigView {
    ConfigView {
        schema_version: 1,
        allow_external_chains: false,
        profiles: seq![
            ProfileView {
                name: d.name,
                family: family_of(d.listen_ip),
                listen_address: d.listen_address,
                protocols: drafted_protocols(d.protocols),
                source_cidrs: seq![d.source_cidr],
                allow_route_localnet: d.target_kind == TargetKind::LoopbackDnat,
                listen_ports: ListenPortsView {
                    range_start: None,
                    range_end: None,
                    suffix: None,
                    ports: Some(seq![d.listen_port]),
                },
                target: drafted_target(d),
            },
        ],
    }
}

/// Writes the lines that every draft makes.
fn write_common_body(d: &Draft) -> (r: String)
    ensures
        r@ == common_body(d@),
{
    let kind = match d.target_kind {
        TargetKind::Redirect => "redirect",
        TargetKind::Remote => "remote",
        TargetKind::LoopbackDnat => "loopback-dnat",
    };
    "# Created by `port-forward init`; review before start.\nschema_version = 1\nallow_external_chains = false\n\n[[profiles]]\nname = ".to_owned().concat(
    text::quote(d.name.as_str()).as_str()).concat("\nfamily = ").concat(
        text::quote(config::family_name(family(d.listen_ip))).as_str(),
    ).concat("\nlisten_address = ").concat(
        text::quote(d.listen_address.as_str()).as_str(),
    ).concat("\nprotocols = ").concat(d.protocols.as_str()).concat(
        "\nsource_cidrs = [",
    ).concat(text::quote(d.source_cidr.as_str()).as_str()).concat(
        "]\n\n[profiles.listen_ports]\nports = [",
    ).concat(number::decimal_text(d.listen_port as u64).as_str()).concat(
        "]\n\n[profiles.target]\nkind = ",
    ).concat(text::quote(kind).as_str()).concat("\nport = ").concat(
        number::decimal_text(d.target_port as u64).as_str(),
    ).concat("\n")
}

impl Wizard {
    /// The configuration that the answers make.
    #[must_use]
    pub fn configuration(&self) -> (r: String)
        ensures
            r@ == body(self@.draft),
    {
        let d = &self.draft;
        let common = write_common_body(d);
        match d.target_kind {
            TargetKind::Redirect => common,
            TargetKind::Remote => {
                let with_host = common.concat("host = ").concat(
                    text::quote(d.host.as_str()).as_str(),
                ).concat("\n");
                if family(d.listen_ip) == AddressFamily::Ipv4 {
                    with_host.concat("source_mode = ").concat(
                        text::quote(d.source_mode.as_str()).as_str(),
                    ).concat("\n")
                } else {
                    with_host
                }
            },
            TargetKind::LoopbackDnat => text::replace_first(
                common.as_str(),
                "protocols = ",
                "allow_route_localnet = true\nprotocols = ",
            ),
        }
    }
}

/// Takes the outcome of parsing the configuration that the answers make, and returns
/// the configuration once it keeps the rules.
pub fn interactive_wizard(wizard: &Wizard, parsed: Result<Config, String>) -> (r: Result<
    String,
    String,
>)
    ensures
        match config::parsed_fault(parsed) {
            None => r matches Ok(content) && content@ == body(wizard@.draft),
            Some(error) => r matches Err(e) && e@
                == "向导输入未通过语义验证；未创建配置，请重新运行 init: "@ + error,
        },
{
    match Config::from_toml(parsed) {
        Ok(_) => Ok(wizard.configuration()),
        Err(e) => Err(
            "向导输入未通过语义验证；未创建配置，请重新运行 init: ".to_owned().concat(
                e.chain().as_str(),
            ),
        ),
    }
}

} // verus!
