//! The nftables batch that puts resolved profiles in force, and what is asked of the
//! host before it.

use vstd::prelude::*;

use crate::address;
use crate::address::IpAddr;
use crate::config;
use crate::config::{AddressFamily, Protocol, SourceMode, Target, TargetView};
use crate::host;
use crate::host::{InterfaceAddress, InterfaceAddressView};
use crate::number;
use crate::profile;
use crate::profile::{ResolvedProfile, ResolvedProfileView};
use crate::state;
use crate::text;

verus! {

/// Which of our own tables exist.
#[derive(Clone, Copy, Debug, PartialEq, Eq, Structural)]
pub struct OwnTables {
    pub ipv4: bool,
    pub ipv6: bool,
}

/// The hooks that our tables use.
#[derive(Clone, Copy, Debug, PartialEq, Eq, Structural)]
pub enum Hook {
    Prerouting,
    Forward,
    Postrouting,
}

/// The family as nftables names it.
pub open spec fn spec_nft_family(family: AddressFamily) -> Seq<char> {
    match family {
        AddressFamily::Ipv4 => "ip"@,
        AddressFamily::Ipv6 => "ip6"@,
    }
}

/// The name of our table of a family.
pub open spec fn spec_table_name(family: AddressFamily) -> Seq<char> {
    match family {
        AddressFamily::Ipv4 => "port_forward_v4"@,
        AddressFamily::Ipv6 => "port_forward_v6"@,
    }
}

/// The family as nftables names it.
pub fn nft_family(family: AddressFamily) -> (r: &'static str)
    ensures
        r@ == spec_nft_family(family),
{
    match family {
        AddressFamily::Ipv4 => "ip",
        AddressFamily::Ipv6 => "ip6",
    }
}

/// The name of our table of a family.
pub fn table_name(family: AddressFamily) -> (r: &'static str)
    ensures
        r@ == spec_table_name(family),
{
    match family {
        AddressFamily::Ipv4 => "port_forward_v4",
        AddressFamily::Ipv6 => "port_forward_v6",
    }
}

// Rules.

/// An address with a port.
pub open spec fn endpoint(ip: IpAddr, port: u16) -> Seq<char> {
    match ip {
        IpAddr::V4(_) => address::shown(ip) + ":"@ + number::decimal(port as nat),
        IpAddr::V6(_) => "["@ + address::shown(ip) + "]:"@ + number::decimal(port as nat),
    }
}

/// What a rule asks of a packet that comes in for the profile: the address that is
/// listened on, a source, the protocol and a port.
pub open spec fn incoming(v: ResolvedProfileView, protocol: Protocol) -> Seq<char> {
    let family = spec_nft_family(v.validated.profile.family);
    family + " daddr "@ + address::shown(v.validated.listen_ip) + " "@ + family + " saddr { "@
        + text::joined(v.validated.source_cidrs, ", "@) + " } "@ + protocol.spec_nft_name()
        + " dport { "@ + text::joined(state::port_texts(v.validated.listen_ports), ", "@) + " } "@
}

/// What a rule asks of a packet that goes on to a remote target: that it was sent
/// there by a rule of a profile.
pub open spec fn outgoing(
    family: AddressFamily,
    ip: IpAddr,
    protocol: Protocol,
    port: u16,
) -> Seq<char> {
    spec_nft_family(family) + " daddr "@ + address::shown(ip) + " "@ + protocol.spec_nft_name()
        + " dport "@ + number::decimal(port as nat) + " ct status dnat "@
}

/// The rule of a profile for a protocol at a hook, if it has one there: every profile
/// changes the destination, a remote one is let through, and only an IPv4 one that
/// asks for it is masqueraded.
pub open spec fn rule(hook: Hook, v: ResolvedProfileView, protocol: Protocol) -> Option<Seq<char>> {
    let family = v.validated.profile.family;
    match (hook, v.validated.profile.target) {
        (Hook::Prerouting, TargetView::Redirect { port }) => Some(
            incoming(v, protocol) + "redirect to :"@ + number::decimal(port as nat),
        ),
        (Hook::Prerouting, TargetView::LoopbackDnat { port }) => Some(
            incoming(v, protocol) + "dnat to 127.0.0.1:"@ + number::decimal(port as nat),
        ),
        (Hook::Prerouting, TargetView::Remote { port, .. }) => match v.destination {
            Some(ip) => Some(incoming(v, protocol) + "dnat to "@ + endpoint(ip, port)),
            None => None,
        },
        (Hook::Forward, TargetView::Remote { port, .. }) => match v.destination {
            Some(ip) => Some(outgoing(family, ip, protocol, port) + "accept"@),
            None => None,
        },
        (Hook::Postrouting, TargetView::Remote { port, source_mode, .. }) => match v.destination {
            Some(ip) => if source_mode == Some(SourceMode::Masquerade) {
                Some(outgoing(family, ip, protocol, port) + "masquerade"@)
            } else {
                None
            },
            None => None,
        },
        _ => None,
    }
}

/// The lines of the rules of a profile for its first `n` protocols.
pub open spec fn profile_lines(hook: Hook, v: ResolvedProfileView, n: int) -> Seq<char>
    decreases n,
{
    if n <= 0 {
        Seq::empty()
    } else {
        let before = profile_lines(hook, v, n - 1);
        match rule(hook, v, v.validated.profile.protocols[n - 1]) {
            Some(r) => before + "\t\t"@ + r + "\n"@,
            None => before,
        }
    }
}

/// The lines of the rules of those of the first `n` profiles that are of the family.
pub open spec fn rule_lines(
    hook: Hook,
    family: AddressFamily,
    vs: Seq<ResolvedProfileView>,
    n: int,
) -> Seq<char>
    decreases n,
{
    if n <= 0 {
        Seq::empty()
    } else {
        let before = rule_lines(hook, family, vs, n - 1);
        let v = vs[n - 1];
        if v.validated.profile.family == family {
            before + profile_lines(hook, v, v.validated.profile.protocols.len() as int)
        } else {
            before
        }
    }
}

/// How the chain of a hook begins; the priorities are numbers.
pub open spec fn chain_opening(hook: Hook) -> Seq<char> {
    match hook {
        Hook::Prerouting =>
            "\tchain prerouting {\n\t\ttype nat hook prerouting priority -100; policy accept;\n"@,
        Hook::Forward =>
            "\tchain forward {\n\t\ttype filter hook forward priority 0; policy accept;\n\t\tct state established,related accept\n"@,
        Hook::Postrouting =>
            "\tchain postrouting {\n\t\ttype nat hook postrouting priority 100; policy accept;\n"@,
    }
}

/// The chain of a hook.
pub open spec fn chain(hook: Hook, family: AddressFamily, vs: Seq<ResolvedProfileView>) -> Seq<
    char,
> {
    chain_opening(hook) + rule_lines(hook, family, vs, vs.len() as int) + "\t}\n"@
}

/// Our table of a family.
pub open spec fn table(family: AddressFamily, vs: Seq<ResolvedProfileView>) -> Seq<char> {
    "table "@ + spec_nft_family(family) + " "@ + spec_table_name(family) + " {\n"@ + chain(
        Hook::Prerouting,
        family,
        vs,
    ) + chain(Hook::Forward, family, vs) + chain(Hook::Postrouting, family, vs) + "}\n"@
}

/// The command that deletes our table of a family, where it exists.
pub open spec fn deletion(family: AddressFamily, exists: bool) -> Seq<char> {
    if exists {
        "delete table "@ + spec_nft_family(family) + " "@ + spec_table_name(family) + "\n"@
    } else {
        Seq::empty()
    }
}

/// The batch: our tables that exist are deleted, and both are made anew.
pub open spec fn batch(vs: Seq<ResolvedProfileView>, own: OwnTables) -> Seq<char> {
    deletion(AddressFamily::Ipv4, own.ipv4) + deletion(AddressFamily::Ipv6, own.ipv6) + table(
        AddressFamily::Ipv4,
        vs,
    ) + table(AddressFamily::Ipv6, vs)
}

/// Writes an address with a port.
fn write_endpoint(ip: IpAddr, port: u16) -> (r: String)
    ensures
        r@ == endpoint(ip, port),
{
    match ip {
        IpAddr::V4(_) => ip.to_text().concat(":").concat(
            number::decimal_text(port as u64).as_str(),
        ),
        IpAddr::V6(_) => "[".to_owned().concat(ip.to_text().as_str()).concat("]:").concat(
            number::decimal_text(port as u64).as_str(),
        ),
    }
}

/// Writes ports between commas.
fn write_ports(ports: &Vec<u16>) -> (r: String)
    ensures
        r@ == text::joined(state::port_texts(ports@), ", "@),
{
    let mut parts: Vec<String> = Vec::new();
    let mut i: usize = 0;
    while i < ports.len()
        invariant
            i <= ports.len(),
            parts@.len() == i,
            forall|j: int|
                0 <= j < i ==> (#[trigger] parts@[j])@ == number::decimal(ports@[j] as nat),
        decreases ports.len() - i,
    {
        parts.push(number::decimal_text(ports[i] as u64));
        i = i + 1;
    }
    proof {
        assert(text::texts(parts@) =~= state::port_texts(ports@));
    }
    text::join(&parts, ", ")
}

/// Writes what a rule asks of a packet that comes in for the profile.
fn write_incoming(v: &ResolvedProfile, protocol: Protocol) -> (r: String)
    ensures
        r@ == incoming(v@, protocol),
{
    let family = nft_family(v.validated.profile.family);
    family.to_owned().concat(" daddr ").concat(v.validated.listen_ip.to_text().as_str()).concat(
        " ",
    ).concat(family).concat(" saddr { ").concat(
        text::join(&v.validated.source_cidrs, ", ").as_str(),
    ).concat(" } ").concat(protocol.nft_name()).concat(" dport { ").concat(
        write_ports(&v.validated.listen_ports).as_str(),
    ).concat(" } ")
}

/// Writes what a rule asks of a packet that goes on to a remote target.
fn write_outgoing(family: AddressFamily, ip: IpAddr, protocol: Protocol, port: u16) -> (r: String)
    ensures
        r@ == outgoing(family, ip, protocol, port),
{
    nft_family(family).to_owned().concat(" daddr ").concat(ip.to_text().as_str()).concat(
        " ",
    ).concat(protocol.nft_name()).concat(" dport ").concat(
        number::decimal_text(port as u64).as_str(),
    ).concat(" ct status dnat ")
}

/// Writes the rule of a profile for a protocol at a hook, if it has one there.
fn write_rule(hook: Hook, v: &ResolvedProfile, protocol: Protocol) -> (r: Option<String>)
    ensures
        text::option_text(r) == rule(hook, v@, protocol),
{
    let family = v.validated.profile.family;
    match (hook, &v.validated.profile.target) {
        (Hook::Prerouting, Target::Redirect { port }) => Some(
            write_incoming(v, protocol).concat("redirect to :").concat(
                number::decimal_text(*port as u64).as_str(),
            ),
        ),
        (Hook::Prerouting, Target::LoopbackDnat { port }) => Some(
            write_incoming(v, protocol).concat("dnat to 127.0.0.1:").concat(
                number::decimal_text(*port as u64).as_str(),
            ),
        ),
        (Hook::Prerouting, Target::Remote { port, .. }) => match v.destination {
            Some(ip) => Some(
                write_incoming(v, protocol).concat("dnat to ").concat(
                    write_endpoint(ip, *port).as_str(),
                ),
            ),
            None => None,
        },
        (Hook::Forward, Target::Remote { port, .. }) => match v.destination {
            Some(ip) => Some(write_outgoing(family, ip, protocol, *port).concat("accept")),
            None => None,
        },
        (Hook::Postrouting, Target::Remote { port, source_mode, .. }) => match v.destination {
            Some(ip) => {
                if *source_mode == Some(SourceMode::Masquerade) {
                    Some(write_outgoing(family, ip, protocol, *port).concat("masquerade"))
                } else {
                    None
                }
            },
            None => None,
        },
        _ => None,
    }
}

/// Adds the lines of the rules of a profile.
fn add_profile(lines: &mut String, hook: Hook, v: &ResolvedProfile)
    ensures
        final(lines)@ == old(lines)@ + profile_lines(
            hook,
            v@,
            v@.validated.profile.protocols.len() as int,
        ),
{
    let ghost before = lines@;
    let protocols = &v.validated.profile.protocols;
    let mut i: usize = 0;
    proof {
        assert(before + profile_lines(hook, v@, 0) =~= before);
    }
    while i < protocols.len()
        invariant
            i <= protocols.len(),
            protocols@ == v@.validated.profile.protocols,
            lines@ == before + profile_lines(hook, v@, i as int),
        decreases protocols.len() - i,
    {
        match write_rule(hook, v, protocols[i]) {
            Some(rule) => {
                let ghost held = lines@;
                lines.append("\t\t");
                lines.append(rule.as_str());
                lines.append("\n");
                proof {
                    assert(lines@ =~= before + profile_lines(hook, v@, i + 1));
                }
            },
            None => {},
        }
        i = i + 1;
    }
}

/// Writes the chain of a hook.
fn write_chain(hook: Hook, family: AddressFamily, vs: &Vec<ResolvedProfile>) -> (r: String)
    ensures
        r@ == chain(hook, family, profile::resolved_views(vs@)),
{
    let ghost all = profile::resolved_views(vs@);
    let mut lines = String::new();
    let mut i: usize = 0;
    while i < vs.len()
        invariant
            i <= vs.len(),
            all == profile::resolved_views(vs@),
            lines@ == rule_lines(hook, family, all, i as int),
        decreases vs.len() - i,
    {
        proof {
            assert(all[i as int] == vs@[i as int]@);
        }
        if vs[i].validated.profile.family == family {
            add_profile(&mut lines, hook, &vs[i]);
        }
        i = i + 1;
    }
    let opening = match hook {
        Hook::Prerouting =>
            "\tchain prerouting {\n\t\ttype nat hook prerouting priority -100; policy accept;\n",
        Hook::Forward =>
            "\tchain forward {\n\t\ttype filter hook forward priority 0; policy accept;\n\t\tct state established,related accept\n",
        Hook::Postrouting =>
            "\tchain postrouting {\n\t\ttype nat hook postrouting priority 100; policy accept;\n",
    };
    opening.to_owned().concat(lines.as_str()).concat("\t}\n")
}

/// Writes our table of a family.
fn write_table(family: AddressFamily, vs: &Vec<ResolvedProfile>) -> (r: String)
    ensures
        r@ == table(family, profile::resolved_views(vs@)),
{
    "table ".to_owned().concat(nft_family(family)).concat(" ").concat(table_name(family)).concat(
        " {\n",
    ).concat(write_chain(Hook::Prerouting, family, vs).as_str()).concat(
        write_chain(Hook::Forward, family, vs).as_str(),
    ).concat(write_chain(Hook::Postrouting, family, vs).as_str()).concat("}\n")
}

/// Writes the command that deletes our table of a family, where it exists.
fn write_deletion(family: AddressFamily, exists: bool) -> (r: String)
    ensures
        r@ == deletion(family, exists),
{
    if exists {
        "delete table ".to_owned().concat(nft_family(family)).concat(" ").concat(
            table_name(family),
        ).concat("\n")
    } else {
        String::new()
    }
}

/// The batch that puts the profiles in force: our tables that exist are deleted, and
/// both are made anew.
#[must_use]
pub fn generate_batch(profiles: &Vec<ResolvedProfile>, own: OwnTables) -> (r: String)
    ensures
        r@ == batch(profile::resolved_views(profiles@), own),
{
    write_deletion(AddressFamily::Ipv4, own.ipv4).concat(
        write_deletion(AddressFamily::Ipv6, own.ipv6).as_str(),
    ).concat(write_table(AddressFamily::Ipv4, profiles).as_str()).concat(
        write_table(AddressFamily::Ipv6, profiles).as_str(),
    )
}

// Our own tables.

/// A table of the host.
#[derive(Debug, PartialEq, Eq)]
pub struct TableName {
    pub family: String,
    pub name: String,
}

#[verifier::ext_equal]
pub struct TableNameView {
    pub family: Seq<char>,
    pub name: Seq<char>,
}

impl View for TableName {
    type V = TableNameView;

    open spec fn view(&self) -> TableNameView {
        TableNameView { family: self.family@, name: self.name@ }
    }
}

/// The models of a list of tables.
pub open spec fn table_views(v: Seq<TableName>) -> Seq<TableNameView> {
    v.map_values(|t: TableName| t@)
}

/// Our table of a family is among the tables.
pub open spec fn lists_own(tables: Seq<TableNameView>, family: AddressFamily) -> bool {
    tables.contains(
        TableNameView { family: spec_nft_family(family), name: spec_table_name(family) },
    )
}

/// Whether our table of a family is among the tables.
fn has_own(tables: &Vec<TableName>, family: AddressFamily) -> (r: bool)
    ensures
        r == lists_own(table_views(tables@), family),
{
    let ghost all = table_views(tables@);
    let ghost ours = TableNameView {
        family: spec_nft_family(family),
        name: spec_table_name(family),
    };
    let mut i: usize = 0;
    while i < tables.len()
        invariant
            i <= tables.len(),
            all == table_views(tables@),
            ours == (TableNameView {
                family: spec_nft_family(family),
                name: spec_table_name(family),
            }),
            forall|j: int| 0 <= j < i ==> all[j] != ours,
        decreases tables.len() - i,
    {
        proof {
            assert(all[i as int] == tables@[i as int]@);
        }
        if text::same(tables[i].family.as_str(), nft_family(family)) && text::same(
            tables[i].name.as_str(),
            table_name(family),
        ) {
            assert(all[i as int] == ours);
            return true;
        }
        i = i + 1;
    }
    false
}

/// Which of our own tables are among the tables of the host.
#[must_use]
pub fn own_tables(tables: &Vec<TableName>) -> (r: OwnTables)
    ensures
        r.ipv4 == table_views(tables@).contains(
            TableNameView { family: "ip"@, name: "port_forward_v4"@ },
        ),
        r.ipv6 == table_views(tables@).contains(
            TableNameView { family: "ip6"@, name: "port_forward_v6"@ },
        ),
{
    OwnTables {
        ipv4: has_own(tables, AddressFamily::Ipv4),
        ipv6: has_own(tables, AddressFamily::Ipv6),
    }
}

// External chains.

/// A base chain of the host.
#[derive(Debug, PartialEq, Eq)]
pub struct BaseChain {
    pub family: String,
    pub table: String,
    pub hook: String,
}

#[verifier::ext_equal]
pub struct BaseChainView {
    pub family: Seq<char>,
    pub table: Seq<char>,
    pub hook: Seq<char>,
}

impl View for BaseChain {
    type V = BaseChainView;

    open spec fn view(&self) -> BaseChainView {
        BaseChainView { family: self.family@, table: self.table@, hook: self.hook@ }
    }
}

/// The models of a list of chains.
pub open spec fn chain_views(v: Seq<BaseChain>) -> Seq<BaseChainView> {
    v.map_values(|c: BaseChain| c@)
}

/// The chain is not one of ours, and it uses a hook that ours use.
pub open spec fn conflicting(c: BaseChainView) -> bool {
    &&& c.hook == "prerouting"@ || c.hook == "forward"@ || c.hook == "postrouting"@
    &&& !(c.family == "ip"@ && c.table == "port_forward_v4"@)
    &&& !(c.family == "ip6"@ && c.table == "port_forward_v6"@)
}

/// `family/table/hook`
pub open spec fn chain_text(c: BaseChainView) -> Seq<char> {
    c.family + "/"@ + c.table + "/"@ + c.hook
}

/// The texts of the conflicting chains.
pub open spec fn conflict_texts(v: Seq<BaseChainView>) -> Seq<Seq<char>> {
    v.filter(|c: BaseChainView| conflicting(c)).map_values(|c: BaseChainView| chain_text(c))
}

/// Whether the chain is not one of ours and uses a hook that ours use.
fn conflicts(c: &BaseChain) -> (r: bool)
    ensures
        r == conflicting(c@),
{
    let hook = c.hook.as_str();
    let same_hook = text::same(hook, "prerouting") || text::same(hook, "forward") || text::same(
        hook,
        "postrouting",
    );
    let ours_v4 = text::same(c.family.as_str(), "ip") && text::same(
        c.table.as_str(),
        "port_forward_v4",
    );
    let ours_v6 = text::same(c.family.as_str(), "ip6") && text::same(
        c.table.as_str(),
        "port_forward_v6",
    );
    same_hook && !ours_v4 && !ours_v6
}

/// The chains of others that use a hook that ours use.
#[must_use]
pub fn external_hook_conflicts(chains: &Vec<BaseChain>) -> (r: Vec<String>)
    ensures
        text::texts(r@) == conflict_texts(chain_views(chains@)),
{
    let ghost all = chain_views(chains@);
    let ghost keep = |c: BaseChainView| conflicting(c);
    let mut r: Vec<String> = Vec::new();
    let mut i: usize = 0;
    proof {
        reveal(Seq::filter);
        assert(all.take(0).filter(keep) =~= Seq::empty());
        assert(text::texts(r@) =~= conflict_texts(all.take(0)));
    }
    while i < chains.len()
        invariant
            i <= chains.len(),
            all == chain_views(chains@),
            keep == (|c: BaseChainView| conflicting(c)),
            text::texts(r@) == conflict_texts(all.take(i as int)),
        decreases chains.len() - i,
    {
        let ghost held = r@;
        proof {
            reveal(Seq::filter);
            assert(all.take(i + 1).drop_last() =~= all.take(i as int));
            assert(all.take(i + 1).last() == chains@[i as int]@);
        }
        if conflicts(&chains[i]) {
            let one = chains[i].family.clone().concat("/").concat(
                chains[i].table.as_str(),
            ).concat("/").concat(chains[i].hook.as_str());
            r.push(one);
            proof {
                assert(text::texts(r@) =~= text::texts(held).push(one@));
                assert(conflict_texts(all.take(i + 1)) =~= conflict_texts(
                    all.take(i as int),
                ).push(one@));
            }
        }
        i = i + 1;
    }
    proof {
        assert(all.take(all.len() as int) =~= all);
    }
    r
}

/// Refuses conflicting chains.
pub fn reject_external_hook_conflicts(conflicts: &Vec<String>) -> (r: Result<(), String>)
    ensures
        conflicts@.len() == 0 ==> r is Ok,
        conflicts@.len() > 0 ==> (r matches Err(e) && e@
            == "external nftables base chains use the same hooks: "@ + text::joined(
            text::texts(conflicts@),
            ", "@,
        )),
{
    if conflicts.len() == 0 {
        Ok(())
    } else {
        Err(
            "external nftables base chains use the same hooks: ".to_owned().concat(
                text::join(conflicts, ", ").as_str(),
            ),
        )
    }
}

// The network.

/// The interfaces that have the address, in order.
pub open spec fn interfaces_with(addresses: Seq<InterfaceAddressView>, ip: IpAddr) -> Seq<
    Seq<char>,
> {
    addresses.filter(|a: InterfaceAddressView| a.address == ip).map_values(
        |a: InterfaceAddressView| a.interface,
    )
}

/// What the inspection of the network has found for a profile: why it is refused, or
/// the interface whose `route_localnet` it needs.
pub open spec fn inspected(
    v: ResolvedProfileView,
    addresses: Seq<InterfaceAddressView>,
) -> Result<Option<Seq<char>>, Seq<char>> {
    let ip = v.validated.listen_ip;
    let found = interfaces_with(addresses, ip);
    if found.len() == 0 {
        Err(
            config::of_profile(
                v.validated.profile.name,
                " listen_address "@ + address::shown(ip) + " is not assigned to this host"@,
            ),
        )
    } else if !(v.validated.profile.target is LoopbackDnat) {
        Ok(None)
    } else if found.len() > 1 {
        Err(
            config::of_profile(
                v.validated.profile.name,
                " listen_address "@ + address::shown(ip)
                    + " is on more than one interface; loopback-dnat needs exactly one"@,
            ),
        )
    } else {
        Ok(Some(found[0]))
    }
}

/// The interfaces that have the address, in order.
fn find_interfaces(addresses: &Vec<InterfaceAddress>, ip: IpAddr) -> (r: Vec<String>)
    ensures
        text::texts(r@) == interfaces_with(host::interface_views(addresses@), ip),
{
    let ghost all = host::interface_views(addresses@);
    let ghost keep = |a: InterfaceAddressView| a.address == ip;
    let mut r: Vec<String> = Vec::new();
    let mut i: usize = 0;
    proof {
        reveal(Seq::filter);
        assert(all.take(0).filter(keep) =~= Seq::empty());
        assert(text::texts(r@) =~= interfaces_with(all.take(0), ip));
    }
    while i < addresses.len()
        invariant
            i <= addresses.len(),
            all == host::interface_views(addresses@),
            keep == (|a: InterfaceAddressView| a.address == ip),
            text::texts(r@) == interfaces_with(all.take(i as int), ip),
        decreases addresses.len() - i,
    {
        let ghost held = r@;
        proof {
            reveal(Seq::filter);
            assert(all.take(i + 1).drop_last() =~= all.take(i as int));
            assert(all.take(i + 1).last() == addresses@[i as int]@);
        }
        if addresses[i].address == ip {
            let one = addresses[i].interface.clone();
            r.push(one);
            proof {
                assert(text::texts(r@) =~= text::texts(held).push(one@));
                assert(interfaces_with(all.take(i + 1), ip) =~= interfaces_with(
                    all.take(i as int),
                    ip,
                ).push(one@));
            }
        }
        i = i + 1;
    }
    proof {
        assert(all.take(all.len() as int) =~= all);
    }
    r
}

/// The model of an inspection.
pub open spec fn inspection_view(r: Result<Option<String>, String>) -> Result<
    Option<Seq<char>>,
    Seq<char>,
> {
    match r {
        Ok(interface) => Ok(text::option_text(interface)),
        Err(e) => Err(e@),
    }
}

/// Inspects the network for a profile: its address must be one of this host, and a
/// loopback target needs exactly one interface that has it.
pub fn inspect(v: &ResolvedProfile, addresses: &Vec<InterfaceAddress>) -> (r: Result<
    Option<String>,
    String,
>)
    ensures
        inspection_view(r) == inspected(v@, host::interface_views(addresses@)),
{
    let ip = v.validated.listen_ip;
    let mut found = find_interfaces(addresses, ip);
    proof {
        assert(text::texts(found@).len() == found@.len());
    }
    let named = "profile ".to_owned().concat(
        text::quote(v.validated.profile.name.as_str()).as_str(),
    );
    if found.len() == 0 {
        let rest = " listen_address ".to_owned().concat(ip.to_text().as_str()).concat(
            " is not assigned to this host",
        );
        return Err(named.concat(rest.as_str()));
    }
    match &v.validated.profile.target {
        Target::LoopbackDnat { .. } => {
            if found.len() > 1 {
                let rest = " listen_address ".to_owned().concat(ip.to_text().as_str()).concat(
                    " is on more than one interface; loopback-dnat needs exactly one",
                );
                return Err(named.concat(rest.as_str()));
            }
            proof {
                assert(text::texts(found@)[0] == found@[0]@);
            }
            Ok(Some(found.swap_remove(0)))
        },
        _ => Ok(None),
    }
}

/// What the inspection of the network has found for the first `n` profiles: the first
/// refusal, or the interfaces whose `route_localnet` they need, each one once.
pub open spec fn needed(
    vs: Seq<ResolvedProfileView>,
    addresses: Seq<InterfaceAddressView>,
    n: int,
) -> Result<Seq<Seq<char>>, Seq<char>>
    decreases n,
{
    if n <= 0 {
        Ok(Seq::empty())
    } else {
        match needed(vs, addresses, n - 1) {
            Err(e) => Err(e),
            Ok(front) => match inspected(vs[n - 1], addresses) {
                Err(e) => Err(e),
                Ok(None) => Ok(front),
                Ok(Some(interface)) => if front.contains(interface) {
                    Ok(front)
                } else {
                    Ok(front.push(interface))
                },
            },
        }
    }
}

/// A refusal stays the first one where more profiles are inspected.
proof fn lemma_refusal_persists(
    vs: Seq<ResolvedProfileView>,
    addresses: Seq<InterfaceAddressView>,
    m: int,
    n: int,
)
    requires
        m <= n,
        needed(vs, addresses, m) is Err,
    ensures
        needed(vs, addresses, n) == needed(vs, addresses, m),
    decreases n - m,
{
    if m < n {
        lemma_refusal_persists(vs, addresses, m, n - 1);
    }
}

/// Whether the interface is listed.
fn lists_interface(v: &Vec<String>, interface: &str) -> (r: bool)
    ensures
        r == text::texts(v@).contains(interface@),
{
    let ghost all = text::texts(v@);
    let mut i: usize = 0;
    while i < v.len()
        invariant
            i <= v.len(),
            all == text::texts(v@),
            forall|j: int| 0 <= j < i ==> all[j] != interface@,
        decreases v.len() - i,
    {
        proof {
            assert(all[i as int] == v@[i as int]@);
        }
        if text::same(v[i].as_str(), interface) {
            return true;
        }
        i = i + 1;
    }
    false
}

/// The model of the interfaces that are needed, or of the text of a refusal.
pub open spec fn needed_view(r: Result<Vec<String>, String>) -> Result<Seq<Seq<char>>, Seq<char>> {
    match r {
        Ok(v) => Ok(text::texts(v@)),
        Err(e) => Err(e@),
    }
}

/// Inspects the network for the profiles, and returns the interfaces whose
/// `route_localnet` they need.
pub fn preflight(profiles: &Vec<ResolvedProfile>, addresses: &Vec<InterfaceAddress>) -> (r: Result<
    Vec<String>,
    String,
>)
    ensures
        needed_view(r) == needed(
            profile::resolved_views(profiles@),
            host::interface_views(addresses@),
            profiles@.len() as int,
        ),
{
    let ghost vs = profile::resolved_views(profiles@);
    let ghost known = host::interface_views(addresses@);
    let mut r: Vec<String> = Vec::new();
    let mut i: usize = 0;
    proof {
        assert(text::texts(r@) =~= Seq::empty());
    }
    while i < profiles.len()
        invariant
            i <= profiles.len(),
            vs == profile::resolved_views(profiles@),
            known == host::interface_views(addresses@),
            needed(vs, known, i as int) == Ok::<Seq<Seq<char>>, Seq<char>>(text::texts(r@)),
        decreases profiles.len() - i,
    {
        proof {
            assert(vs[i as int] == profiles@[i as int]@);
        }
        match inspect(&profiles[i], addresses) {
            Err(e) => {
                proof {
                    lemma_refusal_persists(vs, known, i + 1, vs.len() as int);
                }
                return Err(e);
            },
            Ok(None) => {},
            Ok(Some(interface)) => {
                if !lists_interface(&r, interface.as_str()) {
                    let ghost held = r@;
                    r.push(interface);
                    proof {
                        assert(text::texts(r@) =~= text::texts(held).push(interface@));
                    }
                }
            },
        }
        i = i + 1;
    }
    Ok(r)
}

/// The IPv6 addresses that the first `n` profiles send packets to.
pub open spec fn routes(vs: Seq<ResolvedProfileView>, n: int) -> Seq<IpAddr>
    decreases n,
{
    if n <= 0 {
        Seq::empty()
    } else {
        match vs[n - 1].target() {
            Some(IpAddr::V6(v)) => routes(vs, n - 1).push(IpAddr::V6(v)),
            _ => routes(vs, n - 1),
        }
    }
}

/// The IPv6 addresses that the profiles send packets to: a route to each of them must
/// be there.
#[must_use]
pub fn route_targets(profiles: &Vec<ResolvedProfile>) -> (r: Vec<IpAddr>)
    ensures
        r@ == routes(profile::resolved_views(profiles@), profiles@.len() as int),
{
    let ghost vs = profile::resolved_views(profiles@);
    let mut r: Vec<IpAddr> = Vec::new();
    let mut i: usize = 0;
    while i < profiles.len()
        invariant
            i <= profiles.len(),
            vs == profile::resolved_views(profiles@),
            r@ == routes(vs, i as int),
        decreases profiles.len() - i,
    {
        proof {
            assert(vs[i as int] == profiles@[i as int]@);
        }
        match profiles[i].target_address() {
            Some(IpAddr::V6(v)) => {
                r.push(IpAddr::V6(v));
            },
            _ => {},
        }
        i = i + 1;
    }
    r
}

} // verus!
