//! What the wizard takes for an answer, and what it writes.

use vstd::prelude::*;

use crate::address;
use crate::address::IpAddr;
use crate::config::{AddressFamily, Protocol, SourceMode, TargetView};
use crate::host::InterfaceAddressView;
use crate::laws::rules;
use crate::laws::values;
use crate::number;
use crate::text;
use crate::wizard;
use crate::wizard::{DraftView, Question, TargetKind, Wizard, WizardView};

verus! {

/// What a line gives: its text without the white space around it, or the default where
/// there is none.
pub open spec fn given(line: Seq<char>, default: Seq<char>) -> Seq<char> {
    if text::trim(line).len() > 0 {
        text::trim(line)
    } else {
        default
    }
}

/// The family of an address.
pub open spec fn family(ip: IpAddr) -> AddressFamily {
    if ip is V4 {
        AddressFamily::Ipv4
    } else {
        AddressFamily::Ipv6
    }
}

/// The address that an answer means: the text of the one with that number in the list,
/// counted from one, or the answer itself. The number zero means the first one too.
pub open spec fn meant(addresses: Seq<InterfaceAddressView>, answer: Seq<char>) -> Seq<char> {
    match number::unsigned(answer, usize::MAX as nat) {
        Some(n) => if n == 0 && addresses.len() > 0 {
            address::shown(addresses[0].address)
        } else if 1 <= n <= addresses.len() {
            address::shown(addresses[n - 1].address)
        } else {
            answer
        },
        None => answer,
    }
}

/// The text is a port.
pub open spec fn is_port(answer: Seq<char>) -> bool {
    number::unsigned(answer, 65535) matches Some(n) && n > 0
}

/// The protocols that an answer names.
pub open spec fn protocols_named(answer: Seq<char>) -> Option<Seq<Protocol>> {
    if answer == "tcp"@ {
        Some(seq![Protocol::Tcp])
    } else if answer == "udp"@ {
        Some(seq![Protocol::Udp])
    } else if answer == "both"@ {
        Some(seq![Protocol::Tcp, Protocol::Udp])
    } else {
        None
    }
}

/// A listener may be the address: one of this host that is not kept for documentation.
pub open spec fn may_listen(addresses: Seq<InterfaceAddressView>, address: Seq<char>) -> bool {
    address::ip_of(address) matches Some(ip) && !rules::for_documentation(ip) && exists|i: int|
        0 <= i < addresses.len() && (#[trigger] addresses[i]).address == ip
}

/// A remote target may be the host: it has no placeholder and is no address that is kept
/// for documentation.
pub open spec fn may_be_target(host: Seq<char>) -> bool {
    !text::holds_todo(host) && (address::ip_of(host) matches Some(ip)
        ==> !rules::for_documentation(ip))
}

/// The line answers the question at hand.
pub open spec fn acceptable(w: WizardView, line: Seq<char>) -> bool {
    let ip = w.draft.listen_ip;
    match w.question {
        Question::Listener => text::trim(line).len() > 0 && may_listen(
            w.addresses,
            meant(w.addresses, text::trim(line)),
        ),
        Question::Protocols => protocols_named(given(line, "tcp"@)) is Some,
        Question::ListenPort => is_port(given(line, "443"@)),
        Question::Target => {
            let kind = given(line, "redirect"@);
            kind == "redirect"@ || kind == "remote"@ || (kind == "loopback-dnat"@ && ip is V4)
        },
        Question::TargetPort => is_port(given(line, "8443"@)),
        Question::Source => true,
        Question::Name => !text::holds_todo(given(line, "first-forward"@)),
        Question::RemoteHost => text::trim(line).len() > 0 && may_be_target(text::trim(line)),
        Question::RemoteSourceMode => {
            let mode = given(line, "masquerade"@);
            mode == "masquerade"@ || mode == "preserve"@
        },
        Question::Nothing => text::trim(line).len() > 0,
    }
}

/// A line is taken exactly where it answers the question at hand, and the wizard then
/// goes on; a remote target is asked for its host, and an IPv4 one for its source mode.
pub proof fn law_line_is_taken_exactly_where_it_answers(w: WizardView, line: Seq<char>)
    ensures
        w.told(line) is Ok <==> acceptable(w, line),
        w.told(line) is Ok ==> ({
            let next = w.told(line)->Ok_0;
            &&& next.addresses == w.addresses
            &&& next.question == match w.question {
                Question::Listener => Question::Protocols,
                Question::Protocols => Question::ListenPort,
                Question::ListenPort => Question::Target,
                Question::Target => Question::TargetPort,
                Question::TargetPort => Question::Source,
                Question::Source => Question::Name,
                Question::Name => if next.draft.target_kind == TargetKind::Remote {
                    Question::RemoteHost
                } else {
                    Question::Nothing
                },
                Question::RemoteHost => if next.draft.listen_ip is V4 {
                    Question::RemoteSourceMode
                } else {
                    Question::Nothing
                },
                Question::RemoteSourceMode => Question::Nothing,
                Question::Nothing => Question::Nothing,
            }
        }),
{
    reveal_strlit("tcp");
    reveal_strlit("redirect");
    reveal_strlit("remote");
    reveal_strlit("loopback-dnat");
    match w.question {
        Question::Listener => {
            let value = text::trim(line);
            assert(wizard::chosen_listener(w.addresses, value) == meant(w.addresses, value));
            let chosen = meant(w.addresses, value);
            if address::ip_of(chosen) is Some {
                rules::law_addresses_have_their_classes(address::ip_of(chosen)->0);
            }
        },
        Question::RemoteHost => {
            let value = text::trim(line);
            if address::ip_of(value) is Some {
                rules::law_addresses_have_their_classes(address::ip_of(value)->0);
            }
        },
        _ => {},
    }
}

/// The draft holds what the lines so far have answered.
pub open spec fn holds_answers(
    addresses: Seq<InterfaceAddressView>,
    lines: Seq<Seq<char>>,
    w: WizardView,
) -> bool {
    let d = w.draft;
    let n = lines.len();
    let at = wizard::place(w.question);
    &&& w.addresses == addresses
    &&& n <= 6 ==> at == n
    &&& n >= 7 ==> at >= 7
    &&& at == 7 ==> n == 7 && d.target_kind == TargetKind::Remote
    &&& at == 8 ==> n == 8 && d.target_kind == TargetKind::Remote && d.listen_ip is V4
    &&& at > 0 ==> d.listen_address == meant(addresses, text::trim(lines[0])) && address::ip_of(
        d.listen_address,
    ) == Some(d.listen_ip)
    &&& at > 1 ==> protocols_named(given(lines[1], "tcp"@)) == Some(
        wizard::drafted_protocols(d.protocols),
    )
    &&& at > 2 ==> number::unsigned(given(lines[2], "443"@), 65535) == Some(d.listen_port as nat)
        && d.listen_port > 0
    &&& at > 3 ==> ({
        let kind = given(lines[3], "redirect"@);
        &&& kind == "redirect"@ ==> d.target_kind == TargetKind::Redirect
        &&& kind == "remote"@ ==> d.target_kind == TargetKind::Remote
        &&& kind == "loopback-dnat"@ ==> d.target_kind == TargetKind::LoopbackDnat
        &&& kind == "redirect"@ || kind == "remote"@ || kind == "loopback-dnat"@
    })
    &&& at > 4 ==> number::unsigned(given(lines[4], "8443"@), 65535) == Some(
        d.target_port as nat,
    ) && d.target_port > 0
    &&& at > 5 ==> d.source_cidr == given(
        lines[5],
        if d.listen_ip is V4 {
            "0.0.0.0/0"@
        } else {
            "::/0"@
        },
    )
    &&& at > 6 ==> d.name == given(lines[6], "first-forward"@)
    &&& at > 7 && d.target_kind == TargetKind::Remote ==> n > 7 && d.host == text::trim(lines[7])
    &&& at > 8 && d.target_kind == TargetKind::Remote && d.listen_ip is V4 ==> n > 8
        && d.source_mode == given(lines[8], "masquerade"@) && (d.source_mode == "masquerade"@
        || d.source_mode == "preserve"@)
}

proof fn lemma_written_protocols(answer: Seq<char>)
    ensures
        wizard::protocol_list(answer) is Some == (protocols_named(answer) is Some),
        protocols_named(answer) is Some ==> wizard::drafted_protocols(
            wizard::protocol_list(answer)->0,
        ) == protocols_named(answer)->0,
{
    reveal_strlit("[\"tcp\"]");
    reveal_strlit("[\"udp\"]");
    reveal_strlit("[\"tcp\", \"udp\"]");
    assert("[\"tcp\"]"@.len() == 7);
    assert("[\"udp\"]"@.len() == 7);
    assert("[\"tcp\", \"udp\"]"@.len() == 14);
    assert("[\"tcp\"]"@[2] == 't');
    assert("[\"udp\"]"@[2] == 'u');
}

proof fn lemma_kinds(answer: Seq<char>)
    ensures
        wizard::kind_of(answer) == (if answer == "redirect"@ {
            Some(TargetKind::Redirect)
        } else if answer == "remote"@ {
            Some(TargetKind::Remote)
        } else if answer == "loopback-dnat"@ {
            Some(TargetKind::LoopbackDnat)
        } else {
            None
        }),
        "redirect"@ != "remote"@,
        "redirect"@ != "loopback-dnat"@,
        "remote"@ != "loopback-dnat"@,
{
    reveal_strlit("redirect");
    reveal_strlit("remote");
    reveal_strlit("loopback-dnat");
    assert("redirect"@.len() == 8);
    assert("remote"@.len() == 6);
    assert("loopback-dnat"@.len() == 13);
}

proof fn lemma_one_more_answer(
    addresses: Seq<InterfaceAddressView>,
    lines: Seq<Seq<char>>,
    before: WizardView,
)
    requires
        lines.len() > 0,
        holds_answers(addresses, lines.drop_last(), before),
        before.told(lines.last()) is Ok,
    ensures
        holds_answers(addresses, lines, before.told(lines.last())->Ok_0),
{
    let front = lines.drop_last();
    let line = lines.last();
    let n = front.len();
    assert forall|i: int| 0 <= i < n implies #[trigger] front[i] == lines[i] by {}
    assert(lines[n as int] == line);
    let at = wizard::place(before.question);
    if at > 0 {
        assert(front[0] == lines[0]);
    }
    if at > 1 {
        assert(front[1] == lines[1]);
    }
    if at > 2 {
        assert(front[2] == lines[2]);
    }
    if at > 3 {
        assert(front[3] == lines[3]);
    }
    if at > 4 {
        assert(front[4] == lines[4]);
    }
    if at > 5 {
        assert(front[5] == lines[5]);
    }
    if at > 6 {
        assert(front[6] == lines[6]);
    }
    if n > 7 {
        assert(front[7] == lines[7]);
    }
    if n > 8 {
        assert(front[8] == lines[8]);
    }
    law_line_is_taken_exactly_where_it_answers(before, line);
    lemma_written_protocols(given(line, "tcp"@));
    lemma_kinds(given(line, "redirect"@));
    if before.question == Question::Listener {
        assert(wizard::chosen_listener(addresses, text::trim(line)) == meant(
            addresses,
            text::trim(line),
        ));
    }
}

proof fn lemma_answers(addresses: Seq<InterfaceAddressView>, lines: Seq<Seq<char>>)
    requires
        WizardView::start(addresses).told_all(lines) is Ok,
    ensures
        holds_answers(addresses, lines, WizardView::start(addresses).told_all(lines)->Ok_0),
    decreases lines.len(),
{
    if lines.len() > 0 {
        lemma_answers(addresses, lines.drop_last());
        lemma_one_more_answer(
            addresses,
            lines,
            WizardView::start(addresses).told_all(lines.drop_last())->Ok_0,
        );
    }
}

/// The profile that the wizard drafts is the one that was asked for: the listener, the
/// protocols, the port, the target, its port, the source and the name are those of the
/// lines that answered the questions for them, in the order of the dialogue, or the
/// defaults. Behind "tcp" it has tcp alone, behind "udp" udp alone, and behind "both" the
/// two.
pub proof fn law_wizard_drafts_what_was_answered(
    addresses: Seq<InterfaceAddressView>,
    lines: Seq<Seq<char>>,
)
    requires
        WizardView::start(addresses).told_all(lines) is Ok,
        WizardView::start(addresses).told_all(lines)->Ok_0.question == Question::Nothing,
    ensures
        lines.len() >= 7,
        ({
            let w = WizardView::start(addresses).told_all(lines)->Ok_0;
            let c = wizard::drafted(w.draft);
            let p = c.profiles[0];
            let ip = address::ip_of(p.listen_address)->0;
            let kind = given(lines[3], "redirect"@);
            &&& c.schema_version == 1
            &&& !c.allow_external_chains
            &&& c.profiles.len() == 1
            &&& p.listen_address == meant(addresses, text::trim(lines[0]))
            &&& address::ip_of(p.listen_address) is Some
            &&& p.family == family(ip)
            &&& Some(p.protocols) == protocols_named(given(lines[1], "tcp"@))
            &&& p.listen_ports.range_start is None && p.listen_ports.range_end is None
                && p.listen_ports.suffix is None
            &&& p.listen_ports.ports matches Some(ports)
            &&& ports.len() == 1
            &&& number::unsigned(given(lines[2], "443"@), 65535) == Some(ports[0] as nat)
            &&& p.source_cidrs == seq![
                given(
                    lines[5],
                    if ip is V4 {
                        "0.0.0.0/0"@
                    } else {
                        "::/0"@
                    },
                ),
            ]
            &&& p.name == given(lines[6], "first-forward"@)
            &&& p.allow_route_localnet == (kind == "loopback-dnat"@)
            &&& match p.target {
                TargetView::Redirect { port } => kind == "redirect"@ && number::unsigned(
                    given(lines[4], "8443"@),
                    65535,
                ) == Some(port as nat),
                TargetView::LoopbackDnat { port } => kind == "loopback-dnat"@ && number::unsigned(
                    given(lines[4], "8443"@),
                    65535,
                ) == Some(port as nat),
                TargetView::Remote { host, port, source_mode } => {
                    &&& kind == "remote"@
                    &&& number::unsigned(given(lines[4], "8443"@), 65535) == Some(port as nat)
                    &&& lines.len() > 7
                    &&& host == text::trim(lines[7])
                    &&& ip is V6 ==> source_mode is None
                    &&& ip is V4 ==> lines.len() > 8 && match source_mode {
                        Some(SourceMode::Masquerade) => given(lines[8], "masquerade"@)
                            == "masquerade"@,
                        Some(SourceMode::Preserve) => given(lines[8], "masquerade"@)
                            == "preserve"@,
                        None => false,
                    }
                },
            }
        }),
{
    lemma_answers(addresses, lines);
    lemma_kinds(given(lines[3], "redirect"@));
}

// What is written.

/// The parts of the configuration that the wizard writes: after the head come the lines
/// of the profile, each with the value that the drafted profile has.
pub proof fn law_wizard_writes_the_drafted_values(d: DraftView)
    requires
        d.target_kind != TargetKind::LoopbackDnat,
        d.protocols == "[\"tcp\"]"@ || d.protocols == "[\"udp\"]"@ || d.protocols
            == "[\"tcp\", \"udp\"]"@,
        d.source_mode == "masquerade"@ || d.source_mode == "preserve"@,
    ensures
        ({
            let p = wizard::drafted(d).profiles[0];
            let head =
                "# Created by `port-forward init`; review before start.\nschema_version = 1\nallow_external_chains = false\n\n[[profiles]]\nname = "@;
            let common = head + text::quoted(p.name) + "\nfamily = "@ + text::quoted(
                if p.family == AddressFamily::Ipv4 {
                    "ipv4"@
                } else {
                    "ipv6"@
                },
            ) + "\nlisten_address = "@ + text::quoted(p.listen_address) + "\nprotocols = "@ + (
            if p.protocols == seq![Protocol::Tcp] {
                "[\"tcp\"]"@
            } else if p.protocols == seq![Protocol::Udp] {
                "[\"udp\"]"@
            } else {
                "[\"tcp\", \"udp\"]"@
            }) + "\nsource_cidrs = ["@ + text::quoted(p.source_cidrs[0])
                + "]\n\n[profiles.listen_ports]\nports = ["@ + number::decimal(
                p.listen_ports.ports->0[0] as nat,
            ) + "]\n\n[profiles.target]\nkind = "@;
            match p.target {
                TargetView::Redirect { port } => wizard::body(d) == common + text::quoted(
                    "redirect"@,
                ) + "\nport = "@ + number::decimal(port as nat) + "\n"@,
                TargetView::Remote { host, port, source_mode } => {
                    let remote = common + text::quoted("remote"@) + "\nport = "@ + number::decimal(
                        port as nat,
                    ) + "\n"@ + "host = "@ + text::quoted(host) + "\n"@;
                    wizard::body(d) == match source_mode {
                        Some(SourceMode::Masquerade) => remote + "source_mode = "@ + text::quoted(
                            "masquerade"@,
                        ) + "\n"@,
                        Some(SourceMode::Preserve) => remote + "source_mode = "@ + text::quoted(
                            "preserve"@,
                        ) + "\n"@,
                        None => remote,
                    }
                },
                TargetView::LoopbackDnat { .. } => false,
            }
        }),
{
    let p = wizard::drafted(d).profiles[0];
    lemma_written_protocols("tcp"@);
    reveal_strlit("[\"tcp\"]");
    reveal_strlit("[\"udp\"]");
    reveal_strlit("[\"tcp\", \"udp\"]");
    assert("[\"tcp\"]"@.len() == 7);
    assert("[\"udp\"]"@.len() == 7);
    assert("[\"tcp\", \"udp\"]"@.len() == 14);
    assert("[\"tcp\"]"@[2] == 't');
    assert("[\"udp\"]"@[2] == 'u');
    assert(seq![Protocol::Tcp][0] == Protocol::Tcp);
    assert(seq![Protocol::Udp][0] == Protocol::Udp);
    assert(seq![Protocol::Tcp, Protocol::Udp].len() == 2);
}

/// A loopback target is written with the line that opts into it in front of the line of
/// the protocols, and else like any other target.
pub proof fn law_loopback_target_is_opted_into(d: DraftView, common: Seq<char>, at: int)
    requires
        d.target_kind == TargetKind::LoopbackDnat,
        common
            == "# Created by `port-forward init`; review before start.\nschema_version = 1\nallow_external_chains = false\n\n[[profiles]]\nname = "@
            + text::quoted(d.name) + "\nfamily = "@ + text::quoted(
            if d.listen_ip is V4 {
                "ipv4"@
            } else {
                "ipv6"@
            },
        ) + "\nlisten_address = "@ + text::quoted(d.listen_address) + "\nprotocols = "@
            + d.protocols + "\nsource_cidrs = ["@ + text::quoted(d.source_cidr)
            + "]\n\n[profiles.listen_ports]\nports = ["@ + number::decimal(d.listen_port as nat)
            + "]\n\n[profiles.target]\nkind = "@ + text::quoted("loopback-dnat"@) + "\nport = "@
            + number::decimal(d.target_port as nat) + "\n"@,
        text::occurs_at(common, "protocols = "@, at),
        forall|i: int| 0 <= i < at ==> !#[trigger] text::occurs_at(common, "protocols = "@, i),
    ensures
        wizard::body(d) == common.take(at) + "allow_route_localnet = true\nprotocols = "@
            + common.skip(at + "protocols = "@.len()),
{
    assert(wizard::common_body(d) == common);
    values::lemma_replaced(
        common,
        "protocols = "@,
        "allow_route_localnet = true\nprotocols = "@,
        0,
        at,
    );
}

/// A prompt is the label of the question, with the default where there is one.
pub proof fn law_prompt_tells_the_default(w: &Wizard, r: String)
    requires
        call_ensures(Wizard::prompt_text, (w,), r),
    ensures
        ({
            let any = if w@.draft.listen_ip is V4 {
                "0.0.0.0/0"@
            } else {
                "::/0"@
            };
            let with = |label: Seq<char>, default: Seq<char>| label + " ["@ + default + "]："@;
            match w@.question {
                Question::Listener => r@ == "选择监听地址序号，或直接输入地址"@ + "："@,
                Question::Protocols => r@ == with("协议（tcp / udp / both）"@, "tcp"@),
                Question::ListenPort => r@ == with("监听端口"@, "443"@),
                Question::Target => r@ == with(
                    "目标类型（redirect / remote / loopback-dnat）"@,
                    "redirect"@,
                ),
                Question::TargetPort => r@ == with("目标端口"@, "8443"@),
                Question::Source => r@ == with("允许来源 CIDR（默认代表向全网公开）"@, any),
                Question::Name => r@ == with("配置名称"@, "first-forward"@),
                Question::RemoteHost => r@ == "远程目标 IP 或 FQDN"@ + "："@,
                Question::RemoteSourceMode => r@ == with(
                    "IPv4 远程目标来源模式（masquerade / preserve）"@,
                    "masquerade"@,
                ),
                Question::Nothing => true,
            }
        }),
{
}

/// The line of the address at position `i` of the list.
pub open spec fn offered(addresses: Seq<InterfaceAddressView>, i: int) -> Seq<char> {
    "  "@ + number::decimal((i + 1) as nat) + ") "@ + address::shown(addresses[i].address) + "  ("@
        + addresses[i].interface + ")\n"@
}

proof fn lemma_offered(addresses: Seq<InterfaceAddressView>, n: int, i: int)
    requires
        0 <= i < n <= addresses.len(),
    ensures
        text::occurs(wizard::offers(addresses, n), offered(addresses, i)),
    decreases n,
{
    let front = wizard::offers(addresses, n - 1);
    let last = wizard::offer(addresses, n - 1);
    if i == n - 1 {
        assert(last.subrange(0, last.len() as int) =~= last);
        assert(text::occurs_at(last, last, 0));
        text::lemma_occurs_within(front, last, Seq::empty(), last);
        assert(front + last + Seq::<char>::empty() =~= front + last);
    } else {
        lemma_offered(addresses, n - 1, i);
        text::lemma_occurs_within(Seq::empty(), front, last, offered(addresses, i));
        assert(Seq::<char>::empty() + front + last =~= front + last);
    }
}

/// Every address of the host is offered, with the number that chooses it.
pub proof fn law_every_address_is_offered(w: &Wizard, r: String, i: int)
    requires
        call_ensures(Wizard::listing, (w,), r),
        0 <= i < w@.addresses.len() < usize::MAX,
    ensures
        text::occurs(r@, offered(w@.addresses, i)),
        meant(w@.addresses, number::decimal((i + 1) as nat)) == address::shown(
            w@.addresses[i].address,
        ),
{
    let all = wizard::offers(w@.addresses, w@.addresses.len() as int);
    lemma_offered(w@.addresses, w@.addresses.len() as int, i);
    text::lemma_occurs_within("本机接口地址：\n"@, all, Seq::empty(), offered(w@.addresses, i));
    assert("本机接口地址：\n"@ + all + Seq::<char>::empty() =~= "本机接口地址：\n"@ + all);
    values::law_number_is_read_digit_by_digit(
        Seq::empty(),
        (i + 1) as nat,
        usize::MAX as nat,
    );
}

/// A line gives its text without the white space around it, or the default; without
/// either it is refused.
pub proof fn law_line_gives_its_text_or_the_default(
    line: &str,
    default: Option<&str>,
    r: Result<String, String>,
)
    requires
        call_ensures(wizard::prompt, (line, default), r),
    ensures
        text::trim(line@).len() > 0 ==> r is Ok && r->Ok_0@ == text::trim(line@),
        text::trim(line@).len() == 0 && default is Some ==> r is Ok && r->Ok_0@ == default->0@,
        text::trim(line@).len() == 0 && default is None ==> r is Err,
{
}

/// A port is a number from 1 to 65535.
pub proof fn law_port_is_not_zero(label: &str, value: &str, r: Result<u16, String>)
    requires
        call_ensures(wizard::prompt_port, (label, value), r),
    ensures
        r is Ok <==> is_port(value@),
        r matches Ok(port) ==> number::unsigned(value@, 65535) == Some(port as nat),
        r matches Err(e) ==> e@ == label@ + " 必须是 1 到 65535；请重新运行 init"@,
{
}

} // verus!
