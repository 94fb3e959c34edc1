//! The configuration model, its semantic rules and the port projection.

use vstd::arithmetic::div_mod::lemma_mod_breakdown;
use vstd::arithmetic::power::{lemma_pow1, lemma_pow_positive, pow};
use vstd::prelude::*;

use crate::address;
use crate::address::IpAddr;
use crate::number;
use crate::text;

verus! {

/// Why a configuration was refused.
#[derive(Debug, PartialEq, Eq)]
pub enum ConfigError {
    /// The file could not be read.
    Read { path: String, source: String },
    /// The content is not valid TOML for this model.
    Toml(String),
    /// The configuration breaks a semantic rule.
    Semantic(String),
}

impl ConfigError {
    /// The text of the error.
    pub open spec fn spec_message(self) -> Seq<char> {
        match self {
            ConfigError::Read { path, source } => "cannot read configuration "@ + path@ + ": "@
                + source@,
            ConfigError::Toml(reason) => "invalid TOML: "@ + reason@,
            ConfigError::Semantic(reason) => "configuration error: "@ + reason@,
        }
    }

    /// The text of the error.
    pub fn message(&self) -> (r: String)
        ensures
            r@ == self.spec_message(),
    {
        match self {
            ConfigError::Read { path, source } => "cannot read configuration ".to_owned().concat(
                path.as_str(),
            ).concat(": ").concat(source.as_str()),
            ConfigError::Toml(reason) => "invalid TOML: ".to_owned().concat(reason.as_str()),
            ConfigError::Semantic(reason) => "configuration error: ".to_owned().concat(
                reason.as_str(),
            ),
        }
    }

    /// The text of the error with that of its cause behind it.
    pub open spec fn spec_chain(self) -> Seq<char> {
        match self {
            ConfigError::Read { path, source } => self.spec_message() + ": "@ + source@,
            ConfigError::Toml(reason) => self.spec_message() + ": "@ + reason@,
            ConfigError::Semantic(reason) => self.spec_message(),
        }
    }

    /// The text of the error with that of its cause behind it.
    pub fn chain(&self) -> (r: String)
        ensures
            r@ == self.spec_chain(),
    {
        match self {
            ConfigError::Read { path, source } => self.message().concat(": ").concat(
                source.as_str(),
            ),
            ConfigError::Toml(reason) => self.message().concat(": ").concat(reason.as_str()),
            ConfigError::Semantic(_) => self.message(),
        }
    }
}

/// The whole configuration.
#[derive(Debug, PartialEq, Eq)]
pub struct Config {
    pub schema_version: u32,
    /// Allows coexistence with external nftables base chains; omitted means
    /// `false`.
    pub allow_external_chains: bool,
    pub profiles: Vec<Profile>,
}

/// One forwarding profile.
#[derive(Debug, PartialEq, Eq)]
pub struct Profile {
    pub name: String,
    pub family: AddressFamily,
    pub listen_address: String,
    pub protocols: Vec<Protocol>,
    pub source_cidrs: Vec<String>,
    pub allow_route_localnet: bool,
    pub listen_ports: ListenPorts,
    pub target: Target,
}

#[derive(Clone, Copy, Debug, PartialEq, Eq, PartialOrd, Ord, Hash, Structural)]
pub enum AddressFamily {
    Ipv4,
    Ipv6,
}

#[derive(Clone, Copy, Debug, PartialEq, Eq, PartialOrd, Ord, Hash, Structural)]
pub enum Protocol {
    Tcp,
    Udp,
}

/// The listening ports: either the ports of a range that end in a suffix, or a
/// list.
#[derive(Debug, PartialEq, Eq)]
pub struct ListenPorts {
    pub range_start: Option<u32>,
    pub range_end: Option<u32>,
    pub suffix: Option<u32>,
    pub ports: Option<Vec<u16>>,
}

/// Where a profile forwards to.
#[derive(Debug, PartialEq, Eq)]
pub enum Target {
    Remote { host: String, port: u16, source_mode: Option<SourceMode> },
    Redirect { port: u16 },
    LoopbackDnat { port: u16 },
}

#[derive(Clone, Copy, Debug, PartialEq, Eq, Structural)]
pub enum SourceMode {
    Masquerade,
    Preserve,
}

/// A profile that keeps the rules, with its normalized parts.
#[derive(Debug, PartialEq, Eq)]
pub struct ValidatedProfile {
    pub profile: Profile,
    pub listen_ip: IpAddr,
    pub listen_ports: Vec<u16>,
    pub source_cidrs: Vec<String>,
}

// The models of the types that hold texts or lists.

#[verifier::ext_equal]
pub struct ListenPortsView {
    pub range_start: Option<u32>,
    pub range_end: Option<u32>,
    pub suffix: Option<u32>,
    pub ports: Option<Seq<u16>>,
}

#[verifier::ext_equal]
pub enum TargetView {
    Remote { host: Seq<char>, port: u16, source_mode: Option<SourceMode> },
    Redirect { port: u16 },
    LoopbackDnat { port: u16 },
}

#[verifier::ext_equal]
pub struct ProfileView {
    pub name: Seq<char>,
    pub family: AddressFamily,
    pub listen_address: Seq<char>,
    pub protocols: Seq<Protocol>,
    pub source_cidrs: Seq<Seq<char>>,
    pub allow_route_localnet: bool,
    pub listen_ports: ListenPortsView,
    pub target: TargetView,
}

#[verifier::ext_equal]
pub struct ConfigView {
    pub schema_version: u32,
    pub allow_external_chains: bool,
    pub profiles: Seq<ProfileView>,
}

#[verifier::ext_equal]
pub struct ValidatedView {
    pub profile: ProfileView,
    pub listen_ip: IpAddr,
    pub listen_ports: Seq<u16>,
    pub source_cidrs: Seq<Seq<char>>,
}

impl View for ListenPorts {
    type V = ListenPortsView;

    open spec fn view(&self) -> ListenPortsView {
        ListenPortsView {
            range_start: self.range_start,
            range_end: self.range_end,
            suffix: self.suffix,
            ports: match self.ports {
                Some(p) => Some(p@),
                None => None,
            },
        }
    }
}

impl View for Target {
    type V = TargetView;

    open spec fn view(&self) -> TargetView {
        match *self {
            Target::Remote { host, port, source_mode } => TargetView::Remote {
                host: host@,
                port,
                source_mode,
            },
            Target::Redirect { port } => TargetView::Redirect { port },
            Target::LoopbackDnat { port } => TargetView::LoopbackDnat { port },
        }
    }
}

impl View for Profile {
    type V = ProfileView;

    open spec fn view(&self) -> ProfileView {
        ProfileView {
            name: self.name@,
            family: self.family,
            listen_address: self.listen_address@,
            protocols: self.protocols@,
            source_cidrs: text::texts(self.source_cidrs@),
            allow_route_localnet: self.allow_route_localnet,
            listen_ports: self.listen_ports@,
            target: self.target@,
        }
    }
}

/// The models of a list of profiles.
pub open spec fn profile_views(v: Seq<Profile>) -> Seq<ProfileView> {
    v.map_values(|p: Profile| p@)
}

/// The models of a list of validated profiles.
pub open spec fn validated_views(v: Seq<ValidatedProfile>) -> Seq<ValidatedView> {
    v.map_values(|p: ValidatedProfile| p@)
}

impl View for Config {
    type V = ConfigView;

    open spec fn view(&self) -> ConfigView {
        ConfigView {
            schema_version: self.schema_version,
            allow_external_chains: self.allow_external_chains,
            profiles: profile_views(self.profiles@),
        }
    }
}

impl View for ValidatedProfile {
    type V = ValidatedView;

    open spec fn view(&self) -> ValidatedView {
        ValidatedView {
            profile: self.profile@,
            listen_ip: self.listen_ip,
            listen_ports: self.listen_ports@,
            source_cidrs: text::texts(self.source_cidrs@),
        }
    }
}

// The rules.

/// A broken rule, with what its text names.
pub enum Fault {
    SchemaVersion { version: u32 },
    BlankName,
    DuplicateName { name: Seq<char> },
    Overlap { family: AddressFamily, protocol: Protocol, ip: IpAddr, port: u16 },
    ListenAddress { name: Seq<char>, address: Seq<char> },
    ListenFamily { name: Seq<char> },
    NoProtocols { name: Seq<char> },
    DuplicateProtocols { name: Seq<char> },
    MixedPorts,
    MissingPorts,
    PartialRange,
    Range { start: u32, end: u32 },
    NoPortInRange { start: u32, end: u32, suffix: u32 },
    EmptyPorts,
    DuplicatePorts,
    Cidr { name: Seq<char>, cidr: Seq<char> },
    CidrFamily { name: Seq<char>, cidr: Seq<char> },
    CidrPrefix { name: Seq<char>, cidr: Seq<char> },
    DuplicateCidrs { name: Seq<char> },
    BlankHost { name: Seq<char> },
    MissingSourceMode { name: Seq<char> },
    ForbiddenSourceMode { name: Seq<char> },
    TargetFamily { name: Seq<char>, ip: IpAddr },
    TargetForbidden { name: Seq<char>, ip: IpAddr },
    LoopbackFamily { name: Seq<char> },
    LoopbackOptIn { name: Seq<char> },
    NoProfiles,
    Placeholder { name: Seq<char>, field: Seq<char>, value: Seq<char> },
    DocumentationListener { name: Seq<char>, ip: IpAddr },
    DocumentationSource { name: Seq<char>, cidr: Seq<char> },
    DocumentationTarget { name: Seq<char>, ip: IpAddr },
}

/// `profile "name"` and what follows it.
pub open spec fn of_profile(name: Seq<char>, rest: Seq<char>) -> Seq<char> {
    "profile "@ + text::quoted(name) + rest
}

/// `[start, end)`
pub open spec fn range_text(start: u32, end: u32) -> Seq<char> {
    "["@ + number::decimal(start as nat) + ", "@ + number::decimal(end as nat) + ")"@
}

/// The text that tells of a broken rule.
pub open spec fn fault_text(f: Fault) -> Seq<char> {
    match f {
        Fault::SchemaVersion { version } => "schema_version must be 1, got "@ + number::decimal(
            version as nat,
        ),
        Fault::BlankName => "profile name may not be empty"@,
        Fault::DuplicateName { name } => "duplicate profile name "@ + text::quoted(name),
        Fault::Overlap { family, protocol, ip, port } => "overlapping listener "@
            + spec_family_name(family) + " "@ + spec_protocol_debug(protocol) + " "@
            + address::shown(ip) + ":"@ + number::decimal(port as nat),
        Fault::ListenAddress { name, address } => of_profile(
            name,
            " has invalid listen_address "@ + text::quoted(address),
        ),
        Fault::ListenFamily { name } => of_profile(
            name,
            " listen_address does not match family"@,
        ),
        Fault::NoProtocols { name } => of_profile(
            name,
            " protocols must be a non-empty tcp/udp set"@,
        ),
        Fault::DuplicateProtocols { name } => of_profile(name, " protocols contains duplicates"@),
        Fault::MixedPorts =>
            "listen_ports range_start/range_end/suffix and ports are mutually exclusive"@,
        Fault::MissingPorts => "listen_ports needs either range_start/range_end/suffix or ports"@,
        Fault::PartialRange => "range port projection requires range_start, range_end, and suffix"@,
        Fault::Range { start, end } => "invalid right-open port range "@ + range_text(start, end),
        Fault::NoPortInRange { start, end, suffix } => "port range "@ + range_text(start, end)
            + " has no ports ending in "@ + number::decimal(suffix as nat),
        Fault::EmptyPorts => "listen_ports ports may not be empty"@,
        Fault::DuplicatePorts => "listen_ports ports contains duplicates"@,
        Fault::Cidr { name, cidr } => of_profile(
            name,
            " invalid source CIDR "@ + text::quoted(cidr),
        ),
        Fault::CidrFamily { name, cidr } => of_profile(
            name,
            " source CIDR "@ + text::quoted(cidr) + " does not match family"@,
        ),
        Fault::CidrPrefix { name, cidr } => of_profile(
            name,
            " source CIDR "@ + text::quoted(cidr) + " has an invalid prefix length"@,
        ),
        Fault::DuplicateCidrs { name } => of_profile(name, " source_cidrs contains duplicates"@),
        Fault::BlankHost { name } => of_profile(name, " remote host may not be empty"@),
        Fault::MissingSourceMode { name } => of_profile(
            name,
            " IPv4 remote target requires source_mode"@,
        ),
        Fault::ForbiddenSourceMode { name } => of_profile(
            name,
            " IPv6 remote target forbids source_mode/NAT66"@,
        ),
        Fault::TargetFamily { name, ip } => of_profile(
            name,
            " remote target "@ + address::shown(ip) + " does not match family"@,
        ),
        Fault::TargetForbidden { name, ip } => of_profile(
            name,
            " remote target "@ + address::shown(ip) + " is not allowed"@,
        ),
        Fault::LoopbackFamily { name } => of_profile(
            name,
            " loopback-dnat is IPv4 only; use redirect for IPv6"@,
        ),
        Fault::LoopbackOptIn { name } => of_profile(
            name,
            " loopback-dnat requires allow_route_localnet = true"@,
        ),
        Fault::NoProfiles =>
            "profiles must contain at least one complete forwarding profile; run port-forward init"@,
        Fault::Placeholder { name, field, value } => of_profile(
            name,
            " field "@ + field + " still contains TODO value "@ + text::quoted(value)
                + "; complete the first-use wizard or edit the field before start"@,
        ),
        Fault::DocumentationListener { name, ip } => of_profile(
            name,
            " listen_address "@ + address::shown(ip)
                + " is a documentation-reserved address; replace it with an address assigned to this host"@,
        ),
        Fault::DocumentationSource { name, cidr } => of_profile(
            name,
            " source CIDR "@ + text::quoted(cidr)
                + " uses a documentation-reserved address; replace source_cidrs"@,
        ),
        Fault::DocumentationTarget { name, ip } => of_profile(
            name,
            " remote target "@ + address::shown(ip)
                + " is documentation-reserved; replace target.host with a real destination"@,
        ),
    }
}

/// The error that tells of the fault `f`.
pub open spec fn tells(e: ConfigError, f: Fault) -> bool {
    e matches ConfigError::Semantic(reason) && reason@ == fault_text(f)
}

/// The first fault that `at` finds at a position under `n`.
pub open spec fn first_fault(at: spec_fn(int) -> Option<Fault>, n: int) -> Option<Fault>
    decreases n,
{
    if n <= 0 {
        None
    } else {
        match first_fault(at, n - 1) {
            Some(f) => Some(f),
            None => at(n - 1),
        }
    }
}

/// The first fault stays the first one where more positions are looked at.
proof fn lemma_first_fault_persists(at: spec_fn(int) -> Option<Fault>, m: int, n: int)
    requires
        m <= n,
        first_fault(at, m) is Some,
    ensures
        first_fault(at, n) == first_fault(at, m),
    decreases n - m,
{
    if m < n {
        lemma_first_fault_persists(at, m, n - 1);
    }
}

/// Where there is no first fault, no position has one.
pub proof fn lemma_no_fault(at: spec_fn(int) -> Option<Fault>, n: int)
    ensures
        first_fault(at, n) is None <==> forall|i: int| 0 <= i < n ==> (#[trigger] at(i)) is None,
    decreases n,
{
    if n > 0 {
        lemma_no_fault(at, n - 1);
    }
}

impl AddressFamily {
    /// `address` is of this family.
    pub open spec fn spec_matches(self, address: IpAddr) -> bool {
        match self {
            AddressFamily::Ipv4 => address is V4,
            AddressFamily::Ipv6 => address is V6,
        }
    }

    /// The CIDR that holds every source of this family.
    pub open spec fn spec_any_source(self) -> Seq<char> {
        match self {
            AddressFamily::Ipv4 => "0.0.0.0/0"@,
            AddressFamily::Ipv6 => "::/0"@,
        }
    }

    /// Whether `address` is of this family.
    #[must_use]
    pub fn matches(self, address: IpAddr) -> (r: bool)
        ensures
            r == self.spec_matches(address),
    {
        match (self, address) {
            (AddressFamily::Ipv4, IpAddr::V4(_)) => true,
            (AddressFamily::Ipv6, IpAddr::V6(_)) => true,
            _ => false,
        }
    }

    /// The CIDR that holds every source of this family.
    #[must_use]
    pub fn any_source(self) -> (r: &'static str)
        ensures
            r@ == self.spec_any_source(),
    {
        match self {
            AddressFamily::Ipv4 => "0.0.0.0/0",
            AddressFamily::Ipv6 => "::/0",
        }
    }
}

impl Protocol {
    /// The name of the protocol in nftables rules.
    pub open spec fn spec_nft_name(self) -> Seq<char> {
        match self {
            Protocol::Tcp => "tcp"@,
            Protocol::Udp => "udp"@,
        }
    }

    /// The name of the protocol in nftables rules.
    #[must_use]
    pub fn nft_name(self) -> (r: &'static str)
        ensures
            r@ == self.spec_nft_name(),
    {
        match self {
            Protocol::Tcp => "tcp",
            Protocol::Udp => "udp",
        }
    }
}

/// The name of a family in the configuration.
pub open spec fn spec_family_name(family: AddressFamily) -> Seq<char> {
    match family {
        AddressFamily::Ipv4 => "ipv4"@,
        AddressFamily::Ipv6 => "ipv6"@,
    }
}

/// The name of a family in the configuration.
pub fn family_name(family: AddressFamily) -> (r: &'static str)
    ensures
        r@ == spec_family_name(family),
{
    match family {
        AddressFamily::Ipv4 => "ipv4",
        AddressFamily::Ipv6 => "ipv6",
    }
}

/// The name of a protocol in messages.
pub open spec fn spec_protocol_debug(protocol: Protocol) -> Seq<char> {
    match protocol {
        Protocol::Tcp => "Tcp"@,
        Protocol::Udp => "Udp"@,
    }
}

/// The name of a protocol in messages.
pub fn protocol_debug(protocol: Protocol) -> (r: &'static str)
    ensures
        r@ == spec_protocol_debug(protocol),
{
    match protocol {
        Protocol::Tcp => "Tcp",
        Protocol::Udp => "Udp",
    }
}

/// An error of the kind that tells of a broken rule.
fn semantic(reason: String) -> (e: ConfigError)
    ensures
        e == ConfigError::Semantic(reason),
{
    ConfigError::Semantic(reason)
}

/// An error that tells of a rule that the profile `name` breaks.
fn profile_error(name: &str, rest: &str) -> (e: ConfigError)
    ensures
        e matches ConfigError::Semantic(reason) && reason@ == of_profile(name@, rest@),
{
    semantic("profile ".to_owned().concat(text::quote(name).as_str()).concat(rest))
}

// Ports.

/// The decimal digits of `port` end in those of `suffix`.
pub open spec fn ends_in(port: nat, suffix: nat) -> bool {
    let p = number::decimal(port);
    let s = number::decimal(suffix);
    s.len() <= p.len() && p.skip(p.len() - s.len()) == s
}

/// The ports from `lo` up to but excluding `hi` that `chosen` holds of, in order.
pub open spec fn chosen_ports(lo: int, hi: int, chosen: spec_fn(int) -> bool) -> Seq<u16>
    decreases hi - lo,
{
    if hi <= lo {
        Seq::empty()
    } else {
        let before = chosen_ports(lo, hi - 1, chosen);
        if chosen(hi - 1) {
            before.push((hi - 1) as u16)
        } else {
            before
        }
    }
}

/// The ports of `[start, end)` that end in `suffix`.
pub open spec fn tail_ports(start: u32, end: u32, suffix: u32) -> Seq<u16> {
    chosen_ports(start as int, end as int, |p: int| ends_in(p as nat, suffix as nat))
}

/// The ports of `listed`, in order.
pub open spec fn sorted_ports(listed: Seq<u16>) -> Seq<u16> {
    chosen_ports(0, 65536, |p: int| listed.contains(p as u16))
}

/// The listening ports, or the rule that their description breaks.
pub open spec fn projected(l: ListenPortsView) -> Result<Seq<u16>, Fault> {
    let ranged = l.range_start is Some || l.range_end is Some || l.suffix is Some;
    if ranged && l.ports is Some {
        Err(Fault::MixedPorts)
    } else if ranged {
        if l.range_start is None || l.range_end is None || l.suffix is None {
            Err(Fault::PartialRange)
        } else {
            let (start, end, suffix) = (l.range_start->0, l.range_end->0, l.suffix->0);
            if !(1 <= start <= 65535 && 2 <= end <= 65536 && start < end) {
                Err(Fault::Range { start, end })
            } else if tail_ports(start, end, suffix).len() == 0 {
                Err(Fault::NoPortInRange { start, end, suffix })
            } else {
                Ok(tail_ports(start, end, suffix))
            }
        }
    } else if l.ports is Some {
        if l.ports->0.len() == 0 {
            Err(Fault::EmptyPorts)
        } else if !l.ports->0.no_duplicates() {
            Err(Fault::DuplicatePorts)
        } else {
            Ok(sorted_ports(l.ports->0))
        }
    } else {
        Err(Fault::MissingPorts)
    }
}

/// Two digits that look the same are the same.
proof fn lemma_digit_injective(a: nat, b: nat)
    requires
        a < 10,
        b < 10,
        number::digit(a) == number::digit(b),
    ensures
        a == b,
{
    assert(number::digit(a) as u32 == 48 + a);
    assert(number::digit(b) as u32 == 48 + b);
}

/// A decimal number ends in a suffix exactly where the remainder by the power of
/// ten of the suffix's width is the suffix.
proof fn lemma_ends_in(port: nat, suffix: nat)
    ensures
        ends_in(port, suffix) == (port as int % pow(
            10,
            number::decimal(suffix).len(),
        ) == suffix),
        number::decimal(suffix).len() > 0,
    decreases suffix,
{
    let p = number::decimal(port);
    let s = number::decimal(suffix);
    let w = s.len();
    number::law_rendered_reads_back(port, 10);
    number::law_rendered_reads_back(suffix, 10);
    assert(p.last() == number::digit(port % 10));
    assert(s.last() == number::digit(suffix % 10));
    if suffix < 10 {
        assert(w == 1);
        lemma_pow1(10);
        let tail = p.skip(p.len() - 1);
        assert(tail =~= seq![p.last()]);
        if ends_in(port, suffix) {
            assert(s[0] == tail[0]);
            lemma_digit_injective(port % 10, suffix);
        } else if port % 10 == suffix {
            assert(s =~= tail);
        }
    } else {
        let s1 = number::decimal(suffix / 10);
        lemma_ends_in(port / 10, suffix / 10);
        assert(s =~= s1.push(number::digit(suffix % 10)));
        let m = pow(10, s1.len());
        lemma_pow_positive(10, s1.len());
        assert(pow(10, w) == 10 * m) by {
            reveal(pow);
        }
        lemma_mod_breakdown(port as int, 10, m);
        let q = (port as int / 10) % m;
        assert(port as int % (10 * m) == 10 * q + port as int % 10);
        if port < 10 {
            assert(p.len() == 1);
            assert(port as int / 10 == 0);
            assert(q == 0) by (nonlinear_arith)
                requires
                    q == 0int % m,
                    m > 0,
            ;
        } else {
            let p1 = number::decimal(port / 10);
            assert(p =~= p1.push(number::digit(port % 10)));
            if s1.len() <= p1.len() {
                let tail = p.skip(p.len() - w);
                let tail1 = p1.skip(p1.len() - s1.len());
                assert(tail =~= tail1.push(number::digit(port % 10)));
                assert(tail.drop_last() =~= tail1);
                assert(s.drop_last() =~= s1);
                if ends_in(port, suffix) {
                    assert(tail.last() == s.last());
                    lemma_digit_injective(port % 10, suffix % 10);
                } else if port % 10 == suffix % 10 && tail1 == s1 {
                    assert(tail =~= s);
                }
            }
        }
    }
}

/// The number of decimal digits of `value`; zero has one digit.
pub fn decimal_width(value: u32) -> (r: u32)
    ensures
        r == number::decimal(value as nat).len(),
        1 <= r <= 10,
{
    proof {
        lemma_u32_width(value);
    }
    let mut rest: u32 = value;
    let mut width: u32 = 1;
    while rest >= 10
        invariant
            width + number::decimal(rest as nat).len() == 1 + number::decimal(value as nat).len(),
            number::decimal(value as nat).len() <= 10,
            width <= number::decimal(value as nat).len(),
        decreases rest,
    {
        proof {
            number::law_rendered_reads_back((rest / 10) as nat, 10);
        }
        rest = rest / 10;
        width = width + 1;
    }
    width
}

/// A `u32` has one to ten decimal digits.
proof fn lemma_u32_width(value: u32)
    ensures
        1 <= number::decimal(value as nat).len() <= 10,
{
    reveal_with_fuel(number::rendered, 11);
}

/// The power of ten with `width` zeros.
fn power_of_ten(width: u32) -> (r: u64)
    requires
        width <= 10,
    ensures
        r == pow(10, width as nat),
        r > 0,
{
    let mut r: u64 = 1;
    let mut i: u32 = 0;
    proof {
        reveal_with_fuel(pow, 11);
    }
    while i < width
        invariant
            i <= width <= 10,
            r == pow(10, i as nat),
            0 < r,
            i == 0 ==> r == 1,
            i == 1 ==> r == 10,
            i == 2 ==> r == 100,
            i == 3 ==> r == 1000,
            i == 4 ==> r == 10000,
            i == 5 ==> r == 100000,
            i == 6 ==> r == 1000000,
            i == 7 ==> r == 10000000,
            i == 8 ==> r == 100000000,
            i == 9 ==> r == 1000000000,
            i == 10 ==> r == 10000000000,
        decreases width - i,
    {
        proof {
            reveal(pow);
        }
        r = r * 10;
        i = i + 1;
    }
    r
}

impl ListenPorts {
    /// Projects a numeric suffix across a right-open port range, or sorts the
    /// explicit list. `suffix = 443` means decimal ports ending in `443`; its
    /// width is the number of decimal digits, and a zero suffix has width one.
    pub fn project(&self) -> (r: Result<Vec<u16>, ConfigError>)
        ensures
            match projected(self@) {
                Ok(ports) => r matches Ok(v) && v@ == ports,
                Err(f) => r matches Err(e) && tells(e, f),
            },
    {
        let ranged = self.range_start.is_some() || self.range_end.is_some()
            || self.suffix.is_some();
        match &self.ports {
            Some(ports) => {
                if ranged {
                    Err(
                        semantic(
                            "listen_ports range_start/range_end/suffix and ports are mutually exclusive".to_owned(),
                        ),
                    )
                } else {
                    sort_ports(ports)
                }
            },
            None => {
                if !ranged {
                    return Err(
                        semantic(
                            "listen_ports needs either range_start/range_end/suffix or ports".to_owned(),
                        ),
                    );
                }
                match (self.range_start, self.range_end, self.suffix) {
                    (Some(start), Some(end), Some(suffix)) => project_range(start, end, suffix),
                    _ => Err(
                        semantic(
                            "range port projection requires range_start, range_end, and suffix".to_owned(),
                        ),
                    ),
                }
            },
        }
    }
}

/// `[start, end)`
fn range_string(start: u32, end: u32) -> (r: String)
    ensures
        r@ == range_text(start, end),
{
    "[".to_owned().concat(number::decimal_text(start as u64).as_str()).concat(", ").concat(
        number::decimal_text(end as u64).as_str(),
    ).concat(")")
}

/// The ports of the range that end in the suffix.
fn project_range(start: u32, end: u32, suffix: u32) -> (r: Result<Vec<u16>, ConfigError>)
    ensures
        match projected(
            ListenPortsView {
                range_start: Some(start),
                range_end: Some(end),
                suffix: Some(suffix),
                ports: None,
            },
        ) {
            Ok(ports) => r matches Ok(v) && v@ == ports,
            Err(f) => r matches Err(e) && tells(e, f),
        },
{
    if start < 1 || start > 65535 || end < 2 || end > 65536 || start >= end {
        return Err(
            semantic(
                "invalid right-open port range ".to_owned().concat(
                    range_string(start, end).as_str(),
                ),
            ),
        );
    }
    let modulus = power_of_ten(decimal_width(suffix));
    let ghost chosen = |p: int| ends_in(p as nat, suffix as nat);
    let mut ports: Vec<u16> = Vec::new();
    let mut port: u32 = start;
    while port < end
        invariant
            1 <= start <= port <= end <= 65536,
            modulus == pow(10, number::decimal(suffix as nat).len()),
            modulus > 0,
            chosen == (|p: int| ends_in(p as nat, suffix as nat)),
            ports@ == chosen_ports(start as int, port as int, chosen),
        decreases end - port,
    {
        proof {
            lemma_ends_in(port as nat, suffix as nat);
        }
        if port as u64 % modulus == suffix as u64 {
            ports.push(port as u16);
        }
        port = port + 1;
    }
    if ports.len() == 0 {
        return Err(
            semantic(
                "port range ".to_owned().concat(range_string(start, end).as_str()).concat(
                    " has no ports ending in ",
                ).concat(number::decimal_text(suffix as u64).as_str()),
            ),
        );
    }
    Ok(ports)
}

/// The explicit ports in ascending order.
fn sort_ports(listed: &Vec<u16>) -> (r: Result<Vec<u16>, ConfigError>)
    ensures
        match projected(
            ListenPortsView {
                range_start: None,
                range_end: None,
                suffix: None,
                ports: Some(listed@),
            },
        ) {
            Ok(ports) => r matches Ok(v) && v@ == ports,
            Err(f) => r matches Err(e) && tells(e, f),
        },
{
    if listed.len() == 0 {
        return Err(semantic("listen_ports ports may not be empty".to_owned()));
    }
    let mut seen: Vec<bool> = Vec::new();
    let mut i: usize = 0;
    while i < 65536
        invariant
            i <= 65536,
            seen@.len() == i,
            forall|p: int| 0 <= p < i ==> !#[trigger] seen@[p],
        decreases 65536 - i,
    {
        seen.push(false);
        i = i + 1;
    }
    let mut k: usize = 0;
    while k < listed.len()
        invariant
            k <= listed.len(),
            seen@.len() == 65536,
            forall|p: int|
                0 <= p < 65536 ==> (#[trigger] seen@[p] <==> listed@.take(k as int).contains(
                    p as u16,
                )),
            listed@.take(k as int).no_duplicates(),
        decreases listed.len() - k,
    {
        let port = listed[k];
        proof {
            let before = listed@.take(k as int);
            let after = listed@.take(k + 1);
            assert(after =~= before.push(port));
            if before.contains(port) {
                let j = choose|j: int| 0 <= j < before.len() && before[j] == port;
                assert(listed@[j] == listed@[k as int]);
            } else {
                assert forall|a: int, b: int|
                    0 <= a < after.len() && 0 <= b < after.len() && a != b implies after[a]
                    != after[b] by {
                    if a == k {
                        assert(before[b] == after[b]);
                    } else if b == k {
                        assert(before[a] == after[a]);
                    } else {
                        assert(before[a] == after[a] && before[b] == after[b]);
                    }
                }
            }
            assert forall|q: u16| #[trigger] after.contains(q) == (before.contains(q) || q == port) by {
                if before.contains(q) {
                    let j = choose|j: int| 0 <= j < before.len() && before[j] == q;
                    assert(after[j] == q);
                }
                if q == port {
                    assert(after[k as int] == q);
                }
                if after.contains(q) && q != port {
                    let j = choose|j: int| 0 <= j < after.len() && after[j] == q;
                    assert(before[j] == q);
                }
            }
        }
        if seen[port as usize] {
            return Err(semantic("listen_ports ports contains duplicates".to_owned()));
        }
        seen.set(port as usize, true);
        k = k + 1;
    }
    proof {
        assert(listed@.take(listed@.len() as int) =~= listed@);
    }
    let ghost chosen = |p: int| listed@.contains(p as u16);
    let mut ports: Vec<u16> = Vec::new();
    let mut port: u32 = 0;
    while port < 65536
        invariant
            port <= 65536,
            seen@.len() == 65536,
            chosen == (|p: int| listed@.contains(p as u16)),
            forall|p: int|
                0 <= p < 65536 ==> (#[trigger] seen@[p] <==> listed@.contains(p as u16)),
            ports@ == chosen_ports(0, port as int, chosen),
        decreases 65536 - port,
    {
        if seen[port as usize] {
            ports.push(port as u16);
        }
        port = port + 1;
    }
    Ok(ports)
}

// Addresses and CIDRs.

/// `ip` may be the target of a remote profile.
pub open spec fn allowed_target(ip: IpAddr) -> bool {
    match ip {
        IpAddr::V4(v) => !v.spec_loopback() && !v.spec_unspecified() && !v.spec_multicast()
            && !v.spec_broadcast(),
        IpAddr::V6(v) => !v.spec_loopback() && !v.spec_unspecified() && !v.spec_multicast()
            && !v.spec_link_local(),
    }
}

/// The rule that the literal target `ip` breaks.
pub open spec fn target_address_fault(
    family: AddressFamily,
    ip: IpAddr,
    name: Seq<char>,
) -> Option<Fault> {
    if !family.spec_matches(ip) {
        Some(Fault::TargetFamily { name, ip })
    } else if !allowed_target(ip) {
        Some(Fault::TargetForbidden { name, ip })
    } else {
        None
    }
}

/// Validates that a literal remote target is usable for the address family.
pub fn validate_target_address(family: AddressFamily, address: IpAddr, profile_name: &str) -> (r:
    Result<(), ConfigError>)
    ensures
        match target_address_fault(family, address, profile_name@) {
            None => r is Ok,
            Some(f) => r matches Err(e) && tells(e, f),
        },
{
    if !family.matches(address) {
        let rest = " remote target ".to_owned().concat(address.to_text().as_str()).concat(
            " does not match family",
        );
        return Err(profile_error(profile_name, rest.as_str()));
    }
    if is_allowed_target(address) {
        Ok(())
    } else {
        let rest = " remote target ".to_owned().concat(address.to_text().as_str()).concat(
            " is not allowed",
        );
        Err(profile_error(profile_name, rest.as_str()))
    }
}

/// Whether `address` may be the target of a remote profile.
fn is_allowed_target(address: IpAddr) -> (r: bool)
    ensures
        r == allowed_target(address),
{
    match address {
        IpAddr::V4(v) => {
            let loopback = v.a == 127;
            let unspecified = v.a == 0 && v.b == 0 && v.c == 0 && v.d == 0;
            let multicast = 224 <= v.a && v.a <= 239;
            let broadcast = v.a == 255 && v.b == 255 && v.c == 255 && v.d == 255;
            !loopback && !unspecified && !multicast && !broadcast
        },
        IpAddr::V6(v) => {
            proof {
                address::lemma_all_zero(v);
            }
            let zeros = v.g0 == 0 && v.g1 == 0 && v.g2 == 0 && v.g3 == 0 && v.g4 == 0 && v.g5 == 0
                && v.g6 == 0;
            let multicast = 0xff00 <= v.g0;
            let link_local = 0xfe80 <= v.g0 && v.g0 <= 0xfebf;
            !(zeros && v.g7 <= 1) && !multicast && !link_local
        },
    }
}

/// `ip` is one of the addresses kept for documentation.
pub open spec fn documentation_address(ip: IpAddr) -> bool {
    match ip {
        IpAddr::V4(v) => v.spec_documentation(),
        IpAddr::V6(v) => v.spec_documentation(),
    }
}

/// Returns true for the IETF documentation-only address ranges. They are useful
/// in manuals, but are never deployable as listener, source or literal target.
#[must_use]
pub fn is_documentation_address(address: IpAddr) -> (r: bool)
    ensures
        r == documentation_address(address),
{
    match address {
        IpAddr::V4(v) => (v.a == 192 && v.b == 0 && v.c == 2) || (v.a == 198 && v.b == 51 && v.c
            == 100) || (v.a == 203 && v.b == 0 && v.c == 113),
        IpAddr::V6(v) => v.g0 == 0x2001 && v.g1 == 0x0db8,
    }
}

/// The address in front of the slash of a CIDR.
pub open spec fn cidr_address(cidr: Seq<char>) -> Option<IpAddr> {
    let p = text::pieces(cidr, '/');
    if p.len() == 2 {
        address::ip_of(p[0])
    } else {
        None
    }
}

/// The longest prefix of a family.
pub open spec fn max_prefix(family: AddressFamily) -> nat {
    match family {
        AddressFamily::Ipv4 => 32,
        AddressFamily::Ipv6 => 128,
    }
}

/// The rule that `cidr` breaks: an address of the family, a slash, and a prefix
/// length that the family has.
pub open spec fn cidr_fault(family: AddressFamily, cidr: Seq<char>, name: Seq<char>) -> Option<
    Fault,
> {
    match cidr_address(cidr) {
        None => Some(Fault::Cidr { name, cidr }),
        Some(ip) => if !family.spec_matches(ip) {
            Some(Fault::CidrFamily { name, cidr })
        } else {
            match number::unsigned(text::pieces(cidr, '/')[1], 255) {
                None => Some(Fault::Cidr { name, cidr }),
                Some(bits) => if bits > max_prefix(family) {
                    Some(Fault::CidrPrefix { name, cidr })
                } else {
                    None
                },
            }
        },
    }
}

/// The sources of a profile: those that are configured, or all of its family.
pub open spec fn effective_sources(family: AddressFamily, configured: Seq<Seq<char>>) -> Seq<
    Seq<char>,
> {
    if configured.len() == 0 {
        seq![family.spec_any_source()]
    } else {
        configured
    }
}

/// The rule that the source at position `i` breaks.
pub open spec fn source_fault_at(
    family: AddressFamily,
    sources: Seq<Seq<char>>,
    name: Seq<char>,
    i: int,
) -> Option<Fault> {
    match cidr_fault(family, sources[i], name) {
        Some(f) => Some(f),
        None => if sources.take(i).contains(sources[i]) {
            Some(Fault::DuplicateCidrs { name })
        } else {
            None
        },
    }
}

/// The first rule that the sources break.
pub open spec fn sources_fault(
    family: AddressFamily,
    sources: Seq<Seq<char>>,
    name: Seq<char>,
) -> Option<Fault> {
    first_fault(|i: int| source_fault_at(family, sources, name, i), sources.len() as int)
}

/// Reads the address in front of the slash of a CIDR.
fn read_cidr_address(cidr: &str) -> (r: Option<IpAddr>)
    ensures
        r == cidr_address(cidr@),
{
    let p = text::split_pieces(&text::chars_of(cidr), '/');
    proof {
        assert(text::char_views(p@).len() == p@.len());
    }
    if p.len() != 2 {
        return None;
    }
    proof {
        assert(text::char_views(p@)[0] == p@[0]@);
    }
    address::read_ip_chars(&p[0])
}

/// An error about the source `cidr` of the profile `name`.
fn cidr_error(name: &str, before: &str, cidr: &str, behind: &str) -> (e: ConfigError)
    ensures
        e matches ConfigError::Semantic(reason) && reason@ == of_profile(
            name@,
            before@ + text::quoted(cidr@) + behind@,
        ),
{
    let rest = before.to_owned().concat(text::quote(cidr).as_str()).concat(behind);
    profile_error(name, rest.as_str())
}

/// Validates one CIDR.
fn validate_cidr(family: AddressFamily, cidr: &str, profile_name: &str) -> (r: Result<
    (),
    ConfigError,
>)
    ensures
        match cidr_fault(family, cidr@, profile_name@) {
            None => r is Ok,
            Some(f) => r matches Err(e) && tells(e, f),
        },
{
    proof {
        reveal_strlit("");
        let invalid = " invalid source CIDR "@ + text::quoted(cidr@);
        assert(invalid + ""@ =~= invalid);
    }
    match read_cidr_address(cidr) {
        None => Err(cidr_error(profile_name, " invalid source CIDR ", cidr, "")),
        Some(ip) => {
            if !family.matches(ip) {
                return Err(
                    cidr_error(profile_name, " source CIDR ", cidr, " does not match family"),
                );
            }
            let p = text::split_pieces(&text::chars_of(cidr), '/');
            proof {
                assert(text::char_views(p@).len() == p@.len());
                assert(text::char_views(p@)[1] == p@[1]@);
            }
            let max_bits: u64 = match family {
                AddressFamily::Ipv4 => 32,
                AddressFamily::Ipv6 => 128,
            };
            match number::read_unsigned(&p[1], 255) {
                None => Err(cidr_error(profile_name, " invalid source CIDR ", cidr, "")),
                Some(bits) => {
                    if bits > max_bits {
                        Err(
                            cidr_error(
                                profile_name,
                                " source CIDR ",
                                cidr,
                                " has an invalid prefix length",
                            ),
                        )
                    } else {
                        Ok(())
                    }
                },
            }
        },
    }
}

/// Whether `cidr` stands among the first `n` sources.
fn listed_before(sources: &Vec<String>, n: usize, cidr: &String) -> (r: bool)
    requires
        n <= sources.len(),
    ensures
        r == text::texts(sources@).take(n as int).contains(cidr@),
{
    let ghost before = text::texts(sources@).take(n as int);
    let mut i: usize = 0;
    while i < n
        invariant
            i <= n <= sources.len(),
            before == text::texts(sources@).take(n as int),
            forall|j: int| 0 <= j < i ==> before[j] != cidr@,
        decreases n - i,
    {
        proof {
            assert(before[i as int] == sources@[i as int]@);
        }
        if sources[i] == *cidr {
            return true;
        }
        i = i + 1;
    }
    false
}

/// Validates the source at position `i`.
fn validate_source(
    family: AddressFamily,
    sources: &Vec<String>,
    i: usize,
    profile_name: &str,
) -> (r: Result<(), ConfigError>)
    requires
        i < sources.len(),
    ensures
        match source_fault_at(family, text::texts(sources@), profile_name@, i as int) {
            None => r is Ok,
            Some(f) => r matches Err(e) && tells(e, f),
        },
{
    proof {
        assert(text::texts(sources@)[i as int] == sources@[i as int]@);
    }
    match validate_cidr(family, sources[i].as_str(), profile_name) {
        Err(e) => {
            return Err(e);
        },
        Ok(_) => {},
    }
    if listed_before(sources, i, &sources[i]) {
        return Err(profile_error(profile_name, " source_cidrs contains duplicates"));
    }
    Ok(())
}

/// Validates the sources of a profile and returns them; without any, every source
/// of the family is meant.
pub fn validate_source_cidrs(
    family: AddressFamily,
    configured: &Vec<String>,
    profile_name: &str,
) -> (r: Result<Vec<String>, ConfigError>)
    ensures
        ({
            let sources = effective_sources(family, text::texts(configured@));
            match sources_fault(family, sources, profile_name@) {
                None => r matches Ok(v) && text::texts(v@) == sources,
                Some(f) => r matches Err(e) && tells(e, f),
            }
        }),
{
    let sources: Vec<String> = if configured.len() == 0 {
        let mut one: Vec<String> = Vec::new();
        one.push(family.any_source().to_owned());
        proof {
            assert(text::texts(one@) =~= seq![family.spec_any_source()]);
        }
        one
    } else {
        text::clone_texts(configured)
    };
    let ghost all = text::texts(sources@);
    let ghost at = |i: int| source_fault_at(family, all, profile_name@, i);
    let mut i: usize = 0;
    while i < sources.len()
        invariant
            i <= sources.len(),
            all == text::texts(sources@),
            all == effective_sources(family, text::texts(configured@)),
            at == (|i: int| source_fault_at(family, all, profile_name@, i)),
            first_fault(at, i as int) is None,
        decreases sources.len() - i,
    {
        proof {
            assert(all[i as int] == sources@[i as int]@);
            if at(i as int) is Some {
                assert(first_fault(at, i + 1) == at(i as int));
                lemma_first_fault_persists(at, i + 1, all.len() as int);
            }
        }
        match validate_source(family, &sources, i, profile_name) {
            Err(e) => {
                return Err(e);
            },
            Ok(_) => {},
        }
        i = i + 1;
    }
    Ok(sources)
}

// Profiles.

/// The rule that the target of a profile breaks.
pub open spec fn target_fault(p: ProfileView) -> Option<Fault> {
    let name = p.name;
    match p.target {
        TargetView::Remote { host, port, source_mode } => if text::is_blank(host) {
            Some(Fault::BlankHost { name })
        } else if p.family == AddressFamily::Ipv4 && source_mode is None {
            Some(Fault::MissingSourceMode { name })
        } else if p.family == AddressFamily::Ipv6 && source_mode is Some {
            Some(Fault::ForbiddenSourceMode { name })
        } else {
            match address::ip_of(host) {
                Some(ip) => target_address_fault(p.family, ip, name),
                None => None,
            }
        },
        TargetView::Redirect { port } => None,
        TargetView::LoopbackDnat { port } => if p.family != AddressFamily::Ipv4 {
            Some(Fault::LoopbackFamily { name })
        } else if !p.allow_route_localnet {
            Some(Fault::LoopbackOptIn { name })
        } else {
            None
        },
    }
}

/// The first rule that a profile breaks by itself.
pub open spec fn profile_fault(p: ProfileView) -> Option<Fault> {
    let name = p.name;
    match address::ip_of(p.listen_address) {
        None => Some(Fault::ListenAddress { name, address: p.listen_address }),
        Some(ip) => if !p.family.spec_matches(ip) {
            Some(Fault::ListenFamily { name })
        } else if p.protocols.len() == 0 {
            Some(Fault::NoProtocols { name })
        } else if !p.protocols.no_duplicates() {
            Some(Fault::DuplicateProtocols { name })
        } else {
            match projected(p.listen_ports) {
                Err(f) => Some(f),
                Ok(_) => {
                    let sources = effective_sources(p.family, p.source_cidrs);
                    match sources_fault(p.family, sources, name) {
                        Some(f) => Some(f),
                        None => target_fault(p),
                    }
                },
            }
        },
    }
}

/// A profile that keeps the rules, with its normalized parts.
pub open spec fn normalized(p: ProfileView) -> ValidatedView {
    ValidatedView {
        profile: p,
        listen_ip: address::ip_of(p.listen_address)->0,
        listen_ports: projected(p.listen_ports)->Ok_0,
        source_cidrs: effective_sources(p.family, p.source_cidrs),
    }
}

impl Clone for ListenPorts {
    fn clone(&self) -> (r: Self)
        ensures
            r@ == self@,
    {
        ListenPorts {
            range_start: self.range_start,
            range_end: self.range_end,
            suffix: self.suffix,
            ports: match &self.ports {
                Some(p) => Some(clone_ports(p)),
                None => None,
            },
        }
    }
}

/// A copy of a list of ports.
pub fn clone_ports(v: &Vec<u16>) -> (r: Vec<u16>)
    ensures
        r@ == v@,
{
    let mut out: Vec<u16> = Vec::new();
    let mut i: usize = 0;
    while i < v.len()
        invariant
            i <= v.len(),
            out@ == v@.take(i as int),
        decreases v.len() - i,
    {
        proof {
            assert(v@.take(i + 1) =~= v@.take(i as int).push(v@[i as int]));
        }
        out.push(v[i]);
        i = i + 1;
    }
    proof {
        assert(v@.take(v@.len() as int) =~= v@);
    }
    out
}

/// A copy of a list of protocols.
pub fn clone_protocols(v: &Vec<Protocol>) -> (r: Vec<Protocol>)
    ensures
        r@ == v@,
{
    let mut out: Vec<Protocol> = Vec::new();
    let mut i: usize = 0;
    while i < v.len()
        invariant
            i <= v.len(),
            out@ == v@.take(i as int),
        decreases v.len() - i,
    {
        proof {
            assert(v@.take(i + 1) =~= v@.take(i as int).push(v@[i as int]));
        }
        out.push(v[i]);
        i = i + 1;
    }
    proof {
        assert(v@.take(v@.len() as int) =~= v@);
    }
    out
}

impl Clone for Target {
    fn clone(&self) -> (r: Self)
        ensures
            r@ == self@,
    {
        match self {
            Target::Remote { host, port, source_mode } => Target::Remote {
                host: host.clone(),
                port: *port,
                source_mode: *source_mode,
            },
            Target::Redirect { port } => Target::Redirect { port: *port },
            Target::LoopbackDnat { port } => Target::LoopbackDnat { port: *port },
        }
    }
}

impl Clone for Profile {
    fn clone(&self) -> (r: Self)
        ensures
            r@ == self@,
    {
        Profile {
            name: self.name.clone(),
            family: self.family,
            listen_address: self.listen_address.clone(),
            protocols: clone_protocols(&self.protocols),
            source_cidrs: text::clone_texts(&self.source_cidrs),
            allow_route_localnet: self.allow_route_localnet,
            listen_ports: self.listen_ports.clone(),
            target: self.target.clone(),
        }
    }
}

impl Clone for ValidatedProfile {
    fn clone(&self) -> (r: Self)
        ensures
            r@ == self@,
    {
        ValidatedProfile {
            profile: self.profile.clone(),
            listen_ip: self.listen_ip,
            listen_ports: clone_ports(&self.listen_ports),
            source_cidrs: text::clone_texts(&self.source_cidrs),
        }
    }
}

/// Whether some protocol is listed twice.
fn repeats(protocols: &Vec<Protocol>) -> (r: bool)
    ensures
        r == !protocols@.no_duplicates(),
{
    if protocols.len() < 2 {
        return false;
    }
    if protocols.len() == 2 {
        proof {
            if protocols@[0] != protocols@[1] {
                assert(protocols@.no_duplicates());
            } else {
                assert(!(0 != 1 && protocols@[0] != protocols@[1]));
            }
        }
        return protocols[0] == protocols[1];
    }
    proof {
        let p = protocols@;
        assert(p[0] == p[1] || p[0] == p[2] || p[1] == p[2]);
    }
    true
}

impl Profile {
    /// Validates the target of the profile.
    fn validate_target(&self) -> (r: Result<(), ConfigError>)
        ensures
            match target_fault(self@) {
                None => r is Ok,
                Some(f) => r matches Err(e) && tells(e, f),
            },
    {
        let name = self.name.as_str();
        match &self.target {
            Target::Remote { host, port: _, source_mode } => {
                if text::blank(host.as_str()) {
                    return Err(profile_error(name, " remote host may not be empty"));
                }
                if self.family == AddressFamily::Ipv4 && source_mode.is_none() {
                    return Err(profile_error(name, " IPv4 remote target requires source_mode"));
                }
                if self.family == AddressFamily::Ipv6 && source_mode.is_some() {
                    return Err(
                        profile_error(name, " IPv6 remote target forbids source_mode/NAT66"),
                    );
                }
                match address::read_ip(host.as_str()) {
                    Some(ip) => validate_target_address(self.family, ip, name),
                    None => Ok(()),
                }
            },
            Target::Redirect { port: _ } => Ok(()),
            Target::LoopbackDnat { port: _ } => {
                if self.family != AddressFamily::Ipv4 {
                    return Err(
                        profile_error(
                            name,
                            " loopback-dnat is IPv4 only; use redirect for IPv6",
                        ),
                    );
                }
                if !self.allow_route_localnet {
                    return Err(
                        profile_error(
                            name,
                            " loopback-dnat requires allow_route_localnet = true",
                        ),
                    );
                }
                Ok(())
            },
        }
    }

    /// Validates the profile by itself and returns its normalized form.
    pub fn validate(&self) -> (r: Result<ValidatedProfile, ConfigError>)
        ensures
            match profile_fault(self@) {
                None => r matches Ok(v) && v@ == normalized(self@),
                Some(f) => r matches Err(e) && tells(e, f),
            },
    {
        let name = self.name.as_str();
        let listen_ip = match address::read_ip(self.listen_address.as_str()) {
            Some(ip) => ip,
            None => {
                let rest = " has invalid listen_address ".to_owned().concat(
                    text::quote(self.listen_address.as_str()).as_str(),
                );
                return Err(profile_error(name, rest.as_str()));
            },
        };
        if !self.family.matches(listen_ip) {
            return Err(profile_error(name, " listen_address does not match family"));
        }
        if self.protocols.len() == 0 {
            return Err(profile_error(name, " protocols must be a non-empty tcp/udp set"));
        }
        if repeats(&self.protocols) {
            return Err(profile_error(name, " protocols contains duplicates"));
        }
        let listen_ports = match self.listen_ports.project() {
            Ok(ports) => ports,
            Err(e) => {
                return Err(e);
            },
        };
        let source_cidrs = match validate_source_cidrs(self.family, &self.source_cidrs, name) {
            Ok(sources) => sources,
            Err(e) => {
                return Err(e);
            },
        };
        match self.validate_target() {
            Ok(_) => {},
            Err(e) => {
                return Err(e);
            },
        }
        Ok(ValidatedProfile { profile: self.clone(), listen_ip, listen_ports, source_cidrs })
    }
}

// The whole configuration.

/// An earlier profile listens on the address of profile `j`, with `protocol` and
/// on `port`.
pub open spec fn occupied(vs: Seq<ValidatedView>, j: int, protocol: Protocol, port: u16) -> bool {
    exists|i: int| 0 <= i < j && #[trigger] listens(vs[i], vs[j].listen_ip, protocol, port)
}

/// `v` listens on `ip` with `protocol` and on `port`.
pub open spec fn listens(v: ValidatedView, ip: IpAddr, protocol: Protocol, port: u16) -> bool {
    v.listen_ip == ip && v.profile.protocols.contains(protocol) && v.listen_ports.contains(port)
}

/// The fault that the listener of profile `j` with its protocol `a` and its port
/// `b` is taken already.
pub open spec fn overlap_at(vs: Seq<ValidatedView>, j: int, a: int, b: int) -> Option<Fault> {
    let protocol = vs[j].profile.protocols[a];
    let port = vs[j].listen_ports[b];
    if occupied(vs, j, protocol, port) {
        Some(
            Fault::Overlap { family: vs[j].profile.family, protocol, ip: vs[j].listen_ip, port },
        )
    } else {
        None
    }
}

/// The first port of profile `j` that is taken already for its protocol `a`.
pub open spec fn overlap_for(vs: Seq<ValidatedView>, j: int, a: int) -> Option<Fault> {
    first_fault(|b: int| overlap_at(vs, j, a, b), vs[j].listen_ports.len() as int)
}

/// The first listener of profile `j` that is taken already.
pub open spec fn overlap_fault(vs: Seq<ValidatedView>, j: int) -> Option<Fault> {
    first_fault(|a: int| overlap_for(vs, j, a), vs[j].profile.protocols.len() as int)
}

/// The normalized forms of all profiles.
pub open spec fn all_normalized(ps: Seq<ProfileView>) -> Seq<ValidatedView> {
    ps.map_values(|p: ProfileView| normalized(p))
}

/// Some profile in front of `j` has its name.
pub open spec fn name_taken(ps: Seq<ProfileView>, j: int) -> bool {
    exists|i: int| 0 <= i < j && (#[trigger] ps[i]).name == ps[j].name
}

/// The first rule that profile `j` breaks, by itself or with those in front of it.
pub open spec fn profile_fault_at(ps: Seq<ProfileView>, j: int) -> Option<Fault> {
    if text::is_blank(ps[j].name) {
        Some(Fault::BlankName)
    } else if name_taken(ps, j) {
        Some(Fault::DuplicateName { name: ps[j].name })
    } else {
        match profile_fault(ps[j]) {
            Some(f) => Some(f),
            None => overlap_fault(all_normalized(ps), j),
        }
    }
}

/// The first rule that a configuration breaks.
pub open spec fn config_fault(c: ConfigView) -> Option<Fault> {
    if c.schema_version != 1 {
        Some(Fault::SchemaVersion { version: c.schema_version })
    } else {
        first_fault(|j: int| profile_fault_at(c.profiles, j), c.profiles.len() as int)
    }
}

/// The ports are in strictly ascending order.
pub open spec fn ascending(ports: Seq<u16>) -> bool {
    forall|i: int, j: int| 0 <= i < j < ports.len() ==> ports[i] < ports[j]
}

/// Chosen ports are in ascending order, and they are the ports that were chosen.
pub proof fn lemma_chosen_ports(lo: int, hi: int, chosen: spec_fn(int) -> bool)
    requires
        0 <= lo,
        hi <= 65536,
    ensures
        ascending(chosen_ports(lo, hi, chosen)),
        forall|p: u16|
            #[trigger] chosen_ports(lo, hi, chosen).contains(p) <==> lo <= p < hi && chosen(
                p as int,
            ),
    decreases hi - lo,
{
    let all = chosen_ports(lo, hi, chosen);
    if hi > lo {
        let before = chosen_ports(lo, hi - 1, chosen);
        lemma_chosen_ports(lo, hi - 1, chosen);
        assert forall|i: int| 0 <= i < before.len() implies before[i] < hi - 1 by {
            assert(before.contains(before[i]));
        }
        if chosen(hi - 1) {
            let last = (hi - 1) as u16;
            assert forall|p: u16| #[trigger] all.contains(p) <==> lo <= p < hi && chosen(
                p as int,
            ) by {
                if all.contains(p) {
                    let k = choose|k: int| 0 <= k < all.len() && all[k] == p;
                    if k < before.len() {
                        assert(before[k] == p);
                        assert(before.contains(p));
                    }
                }
                if lo <= p < hi && chosen(p as int) {
                    if p == last {
                        assert(all[before.len() as int] == p);
                    } else {
                        assert(before.contains(p));
                        let k = choose|k: int| 0 <= k < before.len() && before[k] == p;
                        assert(all[k] == p);
                    }
                }
            }
        } else {
            assert forall|p: u16| #[trigger] all.contains(p) <==> lo <= p < hi && chosen(
                p as int,
            ) by {
                assert(all.contains(p) == before.contains(p));
            }
        }
    } else {
        assert(all =~= Seq::empty());
    }
}

/// Projected ports are in ascending order and not empty.
pub proof fn lemma_projected_ascending(l: ListenPortsView)
    requires
        projected(l) is Ok,
    ensures
        ascending(projected(l)->Ok_0),
        projected(l)->Ok_0.len() > 0,
{
    if l.ports is Some {
        let listed = l.ports->0;
        let chosen = |p: int| listed.contains(p as u16);
        lemma_chosen_ports(0, 65536, chosen);
        assert(listed.contains(listed[0]));
        assert(chosen(listed[0] as int));
        assert(sorted_ports(listed).contains(listed[0]));
    } else {
        let suffix = l.suffix->0;
        lemma_chosen_ports(
            l.range_start->0 as int,
            l.range_end->0 as int,
            |p: int| ends_in(p as nat, suffix as nat),
        );
    }
}

/// Whether `port` is among ports in ascending order.
fn holds_port(ports: &Vec<u16>, port: u16) -> (r: bool)
    requires
        ascending(ports@),
    ensures
        r == ports@.contains(port),
{
    let mut lo: usize = 0;
    let mut hi: usize = ports.len();
    while lo < hi
        invariant
            lo <= hi <= ports.len(),
            ascending(ports@),
            forall|i: int| 0 <= i < lo ==> ports@[i] < port,
            forall|i: int| hi <= i < ports@.len() ==> ports@[i] > port,
        decreases hi - lo,
    {
        let mid = lo + (hi - lo) / 2;
        if ports[mid] == port {
            return true;
        }
        if ports[mid] < port {
            lo = mid + 1;
        } else {
            hi = mid;
        }
    }
    false
}

/// Whether `protocol` is listed.
fn holds_protocol(protocols: &Vec<Protocol>, protocol: Protocol) -> (r: bool)
    ensures
        r == protocols@.contains(protocol),
{
    let mut i: usize = 0;
    while i < protocols.len()
        invariant
            i <= protocols.len(),
            forall|j: int| 0 <= j < i ==> protocols@[j] != protocol,
        decreases protocols.len() - i,
    {
        if protocols[i] == protocol {
            return true;
        }
        i = i + 1;
    }
    false
}

/// Whether one of the profiles in `done` listens on `ip` with `protocol` and on
/// `port`.
fn is_occupied(done: &Vec<ValidatedProfile>, ip: IpAddr, protocol: Protocol, port: u16) -> (r: bool)
    requires
        forall|i: int| 0 <= i < done@.len() ==> ascending((#[trigger] done@[i]).listen_ports@),
    ensures
        r == exists|i: int|
            0 <= i < done@.len() && #[trigger] listens(
                validated_views(done@)[i],
                ip,
                protocol,
                port,
            ),
{
    let ghost vs = validated_views(done@);
    let mut i: usize = 0;
    while i < done.len()
        invariant
            i <= done.len(),
            vs == validated_views(done@),
            forall|i: int| 0 <= i < done@.len() ==> ascending((#[trigger] done@[i]).listen_ports@),
            forall|j: int| 0 <= j < i ==> !#[trigger] listens(vs[j], ip, protocol, port),
        decreases done.len() - i,
    {
        proof {
            assert(vs[i as int] == done@[i as int]@);
            assert(ascending(done@[i as int].listen_ports@));
        }
        if done[i].listen_ip == ip && holds_protocol(&done[i].profile.protocols, protocol)
            && holds_port(&done[i].listen_ports, port) {
            proof {
                assert(listens(vs[i as int], ip, protocol, port));
            }
            return true;
        }
        i = i + 1;
    }
    false
}

/// The text of an overlap.
fn overlap_error(family: AddressFamily, protocol: Protocol, ip: IpAddr, port: u16) -> (e:
    ConfigError)
    ensures
        tells(e, Fault::Overlap { family, protocol, ip, port }),
{
    semantic(
        "overlapping listener ".to_owned().concat(family_name(family)).concat(" ").concat(
            protocol_debug(protocol),
        ).concat(" ").concat(ip.to_text().as_str()).concat(":").concat(
            number::decimal_text(port as u64).as_str(),
        ),
    )
}

/// Refuses a listener of `v` that a profile in `done` has taken already.
fn reject_overlap(done: &Vec<ValidatedProfile>, v: &ValidatedProfile, Ghost(vs): Ghost<
    Seq<ValidatedView>,
>) -> (r: Result<(), ConfigError>)
    requires
        forall|i: int| 0 <= i < done@.len() ==> ascending((#[trigger] done@[i]).listen_ports@),
        done@.len() < vs.len(),
        validated_views(done@) == vs.take(done@.len() as int),
        v@ == vs[done@.len() as int],
    ensures
        match overlap_fault(vs, done@.len() as int) {
            None => r is Ok,
            Some(f) => r matches Err(e) && tells(e, f),
        },
{
    let ghost n = done@.len() as int;
    let ghost by_protocol = |a: int| overlap_for(vs, n, a);
    let mut a: usize = 0;
    while a < v.profile.protocols.len()
        invariant
            forall|i: int| 0 <= i < done@.len() ==> ascending((#[trigger] done@[i]).listen_ports@),
            n == done@.len(),
            n < vs.len(),
            validated_views(done@) == vs.take(n),
            v@ == vs[n],
            by_protocol == (|a: int| overlap_for(vs, n, a)),
            a <= v.profile.protocols.len(),
            first_fault(by_protocol, a as int) is None,
        decreases v.profile.protocols.len() - a,
    {
        let protocol = v.profile.protocols[a];
        let ghost by_port = |b: int| overlap_at(vs, n, a as int, b);
        proof {
            if by_protocol(a as int) is Some {
                assert(first_fault(by_protocol, a + 1) == by_protocol(a as int));
                lemma_first_fault_persists(
                    by_protocol,
                    a + 1,
                    v.profile.protocols@.len() as int,
                );
            }
        }
        let mut b: usize = 0;
        while b < v.listen_ports.len()
            invariant
                forall|i: int|
                    0 <= i < done@.len() ==> ascending((#[trigger] done@[i]).listen_ports@),
                n == done@.len(),
                n < vs.len(),
                validated_views(done@) == vs.take(n),
                v@ == vs[n],
                a < v.profile.protocols.len(),
                protocol == v.profile.protocols@[a as int],
                by_protocol == (|a: int| overlap_for(vs, n, a)),
                by_port == (|b: int| overlap_at(vs, n, a as int, b)),
                by_protocol(a as int) is Some ==> overlap_fault(vs, n) == by_protocol(a as int),
                b <= v.listen_ports.len(),
                first_fault(by_port, b as int) is None,
            decreases v.listen_ports.len() - b,
        {
            let port = v.listen_ports[b];
            proof {
                assert(forall|i: int|
                    0 <= i < n ==> #[trigger] validated_views(done@)[i] == vs[i]);
                if by_port(b as int) is Some {
                    assert(first_fault(by_port, b + 1) == by_port(b as int));
                    lemma_first_fault_persists(by_port, b + 1, v.listen_ports@.len() as int);
                }
            }
            if is_occupied(done, v.listen_ip, protocol, port) {
                proof {
                    let i = choose|i: int|
                        0 <= i < done@.len() && #[trigger] listens(
                            validated_views(done@)[i],
                            v.listen_ip,
                            protocol,
                            port,
                        );
                    assert(listens(vs[i], vs[n].listen_ip, protocol, port));
                    assert(occupied(vs, n, protocol, port));
                }
                return Err(overlap_error(v.profile.family, protocol, v.listen_ip, port));
            }
            proof {
                if occupied(vs, n, protocol, port) {
                    let i = choose|i: int|
                        0 <= i < n && #[trigger] listens(vs[i], vs[n].listen_ip, protocol, port);
                    assert(listens(validated_views(done@)[i], v.listen_ip, protocol, port));
                }
            }
            b = b + 1;
        }
        a = a + 1;
    }
    Ok(())
}

/// Whether one of the first `n` profiles is called `name`.
fn is_name_taken(profiles: &Vec<Profile>, n: usize) -> (r: bool)
    requires
        n < profiles.len(),
    ensures
        r == name_taken(profile_views(profiles@), n as int),
{
    let ghost ps = profile_views(profiles@);
    let mut i: usize = 0;
    while i < n
        invariant
            i <= n < profiles.len(),
            ps == profile_views(profiles@),
            forall|j: int| 0 <= j < i ==> (#[trigger] ps[j]).name != ps[n as int].name,
        decreases n - i,
    {
        proof {
            assert(ps[i as int] == profiles@[i as int]@);
            assert(ps[n as int] == profiles@[n as int]@);
        }
        if profiles[i].name == profiles[n].name {
            return true;
        }
        i = i + 1;
    }
    false
}

impl Config {
    /// Validates every profile and returns their normalized forms.
    pub fn validate(&self) -> (r: Result<Vec<ValidatedProfile>, ConfigError>)
        ensures
            match config_fault(self@) {
                None => r matches Ok(v) && validated_views(v@) == all_normalized(self@.profiles),
                Some(f) => r matches Err(e) && tells(e, f),
            },
    {
        if self.schema_version != 1 {
            return Err(
                semantic(
                    "schema_version must be 1, got ".to_owned().concat(
                        number::decimal_text(self.schema_version as u64).as_str(),
                    ),
                ),
            );
        }
        let ghost ps = self@.profiles;
        let ghost vs = all_normalized(ps);
        let ghost at = |j: int| profile_fault_at(ps, j);
        let mut done: Vec<ValidatedProfile> = Vec::new();
        let mut j: usize = 0;
        proof {
            assert(validated_views(done@) =~= vs.take(0));
        }
        while j < self.profiles.len()
            invariant
                self.schema_version == 1,
                j <= self.profiles.len(),
                ps == profile_views(self.profiles@),
                ps == self@.profiles,
                vs == all_normalized(ps),
                at == (|j: int| profile_fault_at(ps, j)),
                first_fault(at, j as int) is None,
                done@.len() == j,
                validated_views(done@) == vs.take(j as int),
                forall|i: int|
                    0 <= i < done@.len() ==> ascending((#[trigger] done@[i]).listen_ports@),
            decreases self.profiles.len() - j,
        {
            let profile = &self.profiles[j];
            proof {
                assert(ps[j as int] == profile@);
                assert(vs[j as int] == normalized(profile@));
                if at(j as int) is Some {
                    assert(first_fault(at, j + 1) == at(j as int));
                    lemma_first_fault_persists(at, j + 1, ps.len() as int);
                }
            }
            if text::blank(profile.name.as_str()) {
                return Err(semantic("profile name may not be empty".to_owned()));
            }
            if is_name_taken(&self.profiles, j) {
                return Err(
                    semantic(
                        "duplicate profile name ".to_owned().concat(
                            text::quote(profile.name.as_str()).as_str(),
                        ),
                    ),
                );
            }
            let validated = match profile.validate() {
                Ok(v) => v,
                Err(e) => {
                    return Err(e);
                },
            };
            match reject_overlap(&done, &validated, Ghost(vs)) {
                Ok(_) => {},
                Err(e) => {
                    return Err(e);
                },
            }
            let ghost prior = done@;
            done.push(validated);
            proof {
                lemma_projected_ascending(profile@.listen_ports);
                assert(validated_views(done@) =~= validated_views(prior).push(vs[j as int]));
                assert(vs.take(j + 1) =~= vs.take(j as int).push(vs[j as int]));
            }
            j = j + 1;
        }
        proof {
            assert(vs.take(vs.len() as int) =~= vs);
        }
        Ok(done)
    }
}

impl Config {
    /// Takes the outcome of parsing TOML content, where a failure is given by its
    /// text, and returns the configuration once it keeps the rules.
    pub fn from_toml(parsed: Result<Config, String>) -> (r: Result<Config, ConfigError>)
        ensures
            match parsed {
                Err(reason) => r == Err::<Config, ConfigError>(ConfigError::Toml(reason)),
                Ok(config) => match config_fault(config@) {
                    None => r == Ok::<Config, ConfigError>(config),
                    Some(f) => r matches Err(e) && tells(e, f),
                },
            },
    {
        match parsed {
            Err(reason) => Err(ConfigError::Toml(reason)),
            Ok(config) => match config.validate() {
                Ok(_) => Ok(config),
                Err(e) => Err(e),
            },
        }
    }

    /// Takes the outcome of reading the file at `path`, and of parsing what was
    /// read, and returns the configuration once it keeps the rules.
    pub fn from_path(path: &str, content: Result<Result<Config, String>, String>) -> (r: Result<
        Config,
        ConfigError,
    >)
        ensures
            match content {
                Err(reason) => r matches Err(ConfigError::Read { path: p, source }) && p@ == path@
                    && source == reason,
                Ok(Err(reason)) => r == Err::<Config, ConfigError>(ConfigError::Toml(reason)),
                Ok(Ok(config)) => match config_fault(config@) {
                    None => r == Ok::<Config, ConfigError>(config),
                    Some(f) => r matches Err(e) && tells(e, f),
                },
            },
    {
        match content {
            Err(reason) => Err(ConfigError::Read { path: path.to_owned(), source: reason }),
            Ok(parsed) => Config::from_toml(parsed),
        }
    }
}

// What a deployment asks beyond the rules.

/// The fault that `value` still holds a placeholder.
pub open spec fn placeholder_fault(
    name: Seq<char>,
    value: Seq<char>,
    field: Seq<char>,
) -> Option<Fault> {
    if text::holds_todo(value) {
        Some(Fault::Placeholder { name, field, value })
    } else {
        None
    }
}

/// What keeps a source from being deployed.
pub open spec fn source_undeployable(name: Seq<char>, source: Seq<char>) -> Option<Fault> {
    match placeholder_fault(name, source, "source_cidrs"@) {
        Some(f) => Some(f),
        None => if documentation_address(cidr_address(source)->0) {
            Some(Fault::DocumentationSource { name, cidr: source })
        } else {
            None
        },
    }
}

/// What keeps a target from being deployed.
pub open spec fn target_undeployable(name: Seq<char>, target: TargetView) -> Option<Fault> {
    match target {
        TargetView::Remote { host, port, source_mode } => match placeholder_fault(
            name,
            host,
            "target.host"@,
        ) {
            Some(f) => Some(f),
            None => match address::ip_of(host) {
                Some(ip) => if documentation_address(ip) {
                    Some(Fault::DocumentationTarget { name, ip })
                } else {
                    None
                },
                None => None,
            },
        },
        _ => None,
    }
}

/// What keeps a valid profile from being deployed.
pub open spec fn undeployable(v: ValidatedView) -> Option<Fault> {
    let name = v.profile.name;
    match placeholder_fault(name, name, "name"@) {
        Some(f) => Some(f),
        None => match placeholder_fault(name, v.profile.listen_address, "listen_address"@) {
            Some(f) => Some(f),
            None => if documentation_address(v.listen_ip) {
                Some(Fault::DocumentationListener { name, ip: v.listen_ip })
            } else {
                match first_fault(
                    |i: int| source_undeployable(name, v.source_cidrs[i]),
                    v.source_cidrs.len() as int,
                ) {
                    Some(f) => Some(f),
                    None => target_undeployable(name, v.profile.target),
                }
            },
        },
    }
}

/// The first reason why a configuration cannot be deployed.
pub open spec fn deployable_fault(c: ConfigView) -> Option<Fault> {
    match config_fault(c) {
        Some(f) => Some(f),
        None => if c.profiles.len() == 0 {
            Some(Fault::NoProfiles)
        } else {
            first_fault(
                |j: int| undeployable(all_normalized(c.profiles)[j]),
                c.profiles.len() as int,
            )
        },
    }
}

/// Refuses a field that still holds a placeholder.
pub fn reject_placeholder(profile_name: &str, value: &str, field: &str) -> (r: Result<
    (),
    ConfigError,
>)
    ensures
        match placeholder_fault(profile_name@, value@, field@) {
            None => r is Ok,
            Some(f) => r matches Err(e) && tells(e, f),
        },
{
    if text::mentions_todo(value) {
        let rest = " field ".to_owned().concat(field).concat(" still contains TODO value ").concat(
            text::quote(value).as_str(),
        ).concat("; complete the first-use wizard or edit the field before start");
        Err(profile_error(profile_name, rest.as_str()))
    } else {
        Ok(())
    }
}

/// Every source of a valid profile has an address.
proof fn lemma_sources_have_addresses(p: ProfileView)
    requires
        profile_fault(p) is None,
    ensures
        forall|i: int|
            0 <= i < normalized(p).source_cidrs.len() ==> cidr_address(
                #[trigger] normalized(p).source_cidrs[i],
            ) is Some,
{
    let sources = effective_sources(p.family, p.source_cidrs);
    let at = |i: int| source_fault_at(p.family, sources, p.name, i);
    lemma_no_fault(at, sources.len() as int);
    assert forall|i: int| 0 <= i < sources.len() implies cidr_address(#[trigger] sources[i]) is Some by {
        assert(at(i) is None);
    }
}

/// Refuses a source that holds a placeholder or a documentation address.
fn reject_source(name: &str, source: &str) -> (r: Result<(), ConfigError>)
    requires
        cidr_address(source@) is Some,
    ensures
        match source_undeployable(name@, source@) {
            None => r is Ok,
            Some(f) => r matches Err(e) && tells(e, f),
        },
{
    match reject_placeholder(name, source, "source_cidrs") {
        Ok(_) => {},
        Err(e) => {
            return Err(e);
        },
    }
    match read_cidr_address(source) {
        Some(ip) => {
            if is_documentation_address(ip) {
                return Err(
                    cidr_error(
                        name,
                        " source CIDR ",
                        source,
                        " uses a documentation-reserved address; replace source_cidrs",
                    ),
                );
            }
        },
        None => {},
    }
    Ok(())
}

impl ValidatedProfile {
    /// Refuses the sources that hold a placeholder or a documentation address.
    fn reject_sources(&self) -> (r: Result<(), ConfigError>)
        requires
            forall|i: int|
                0 <= i < self@.source_cidrs.len() ==> cidr_address(
                    #[trigger] self@.source_cidrs[i],
                ) is Some,
        ensures
            match first_fault(
                |i: int| source_undeployable(self@.profile.name, self@.source_cidrs[i]),
                self@.source_cidrs.len() as int,
            ) {
                None => r is Ok,
                Some(f) => r matches Err(e) && tells(e, f),
            },
    {
        let ghost name = self@.profile.name;
        let ghost all = self@.source_cidrs;
        let ghost at = |i: int| source_undeployable(name, all[i]);
        let mut i: usize = 0;
        while i < self.source_cidrs.len()
            invariant
                i <= self.source_cidrs.len(),
                name == self@.profile.name,
                all == self@.source_cidrs,
                at == (|i: int| source_undeployable(name, all[i])),
                at == (|i: int| source_undeployable(self@.profile.name, self@.source_cidrs[i])),
                first_fault(at, i as int) is None,
                forall|i: int| 0 <= i < all.len() ==> cidr_address(#[trigger] all[i]) is Some,
            decreases self.source_cidrs.len() - i,
        {
            let source = &self.source_cidrs[i];
            proof {
                assert(all[i as int] == source@);
                if at(i as int) is Some {
                    assert(first_fault(at, i + 1) == at(i as int));
                    lemma_first_fault_persists(at, i + 1, all.len() as int);
                }
            }
            match reject_source(self.profile.name.as_str(), source.as_str()) {
                Ok(_) => {},
                Err(e) => {
                    return Err(e);
                },
            }
            i = i + 1;
        }
        Ok(())
    }

    /// Refuses a target that holds a placeholder or a documentation address.
    fn reject_target(&self) -> (r: Result<(), ConfigError>)
        ensures
            match target_undeployable(self@.profile.name, self@.profile.target) {
                None => r is Ok,
                Some(f) => r matches Err(e) && tells(e, f),
            },
    {
        match &self.profile.target {
            Target::Remote { host, port: _, source_mode: _ } => {
                match reject_placeholder(self.profile.name.as_str(), host.as_str(), "target.host") {
                    Ok(_) => {},
                    Err(e) => {
                        return Err(e);
                    },
                }
                match address::read_ip(host.as_str()) {
                    Some(ip) => {
                        if is_documentation_address(ip) {
                            let rest = " remote target ".to_owned().concat(
                                ip.to_text().as_str(),
                            ).concat(
                                " is documentation-reserved; replace target.host with a real destination",
                            );
                            return Err(profile_error(self.profile.name.as_str(), rest.as_str()));
                        }
                        Ok(())
                    },
                    None => Ok(()),
                }
            },
            _ => Ok(()),
        }
    }

    /// Refuses what keeps the profile from being deployed.
    fn reject_undeployable(&self) -> (r: Result<(), ConfigError>)
        requires
            forall|i: int|
                0 <= i < self@.source_cidrs.len() ==> cidr_address(
                    #[trigger] self@.source_cidrs[i],
                ) is Some,
        ensures
            match undeployable(self@) {
                None => r is Ok,
                Some(f) => r matches Err(e) && tells(e, f),
            },
    {
        let name = self.profile.name.as_str();
        match reject_placeholder(name, name, "name") {
            Ok(_) => {},
            Err(e) => {
                return Err(e);
            },
        }
        match reject_placeholder(name, self.profile.listen_address.as_str(), "listen_address") {
            Ok(_) => {},
            Err(e) => {
                return Err(e);
            },
        }
        if is_documentation_address(self.listen_ip) {
            let rest = " listen_address ".to_owned().concat(
                self.listen_ip.to_text().as_str(),
            ).concat(
                " is a documentation-reserved address; replace it with an address assigned to this host",
            );
            return Err(profile_error(name, rest.as_str()));
        }
        match self.reject_sources() {
            Ok(_) => {},
            Err(e) => {
                return Err(e);
            },
        }
        self.reject_target()
    }
}

impl Config {
    /// Performs the additional checks required before a configuration can be
    /// deployed. Documentation-only addresses are accepted by
    /// [`Config::validate`], so that examples stay testable, but never here.
    pub fn validate_deployable(&self) -> (r: Result<Vec<ValidatedProfile>, ConfigError>)
        ensures
            match deployable_fault(self@) {
                None => r matches Ok(v) && validated_views(v@) == all_normalized(self@.profiles),
                Some(f) => r matches Err(e) && tells(e, f),
            },
    {
        let profiles = match self.validate() {
            Ok(profiles) => profiles,
            Err(e) => {
                return Err(e);
            },
        };
        proof {
            assert(validated_views(profiles@).len() == profiles@.len());
        }
        if profiles.len() == 0 {
            return Err(
                semantic(
                    "profiles must contain at least one complete forwarding profile; run port-forward init".to_owned(),
                ),
            );
        }
        proof {
            lemma_accepted_sources(self@);
        }
        match reject_profiles(&profiles) {
            Ok(_) => Ok(profiles),
            Err(e) => Err(e),
        }
    }
}

/// Every source of an accepted configuration has an address.
proof fn lemma_accepted_sources(c: ConfigView)
    requires
        config_fault(c) is None,
    ensures
        forall|j: int, i: int|
            0 <= j < c.profiles.len() && 0 <= i < all_normalized(c.profiles)[j].source_cidrs.len()
                ==> cidr_address(#[trigger] all_normalized(c.profiles)[j].source_cidrs[i]) is Some,
{
    let ps = c.profiles;
    let rule = |j: int| profile_fault_at(ps, j);
    lemma_no_fault(rule, ps.len() as int);
    assert forall|j: int, i: int|
        0 <= j < ps.len() && 0 <= i < all_normalized(ps)[j].source_cidrs.len() implies cidr_address(
        #[trigger] all_normalized(ps)[j].source_cidrs[i],
    ) is Some by {
        assert(rule(j) is None);
        lemma_sources_have_addresses(ps[j]);
        assert(all_normalized(ps)[j] == normalized(ps[j]));
    }
}

/// Refuses the first profile that cannot be deployed.
fn reject_profiles(profiles: &Vec<ValidatedProfile>) -> (r: Result<(), ConfigError>)
    requires
        forall|j: int, i: int|
            0 <= j < profiles@.len() && 0 <= i < validated_views(profiles@)[j].source_cidrs.len()
                ==> cidr_address(#[trigger] validated_views(profiles@)[j].source_cidrs[i]) is Some,
    ensures
        match first_fault(
            |j: int| undeployable(validated_views(profiles@)[j]),
            profiles@.len() as int,
        ) {
            None => r is Ok,
            Some(f) => r matches Err(e) && tells(e, f),
        },
{
    let ghost vs = validated_views(profiles@);
    let ghost at = |j: int| undeployable(validated_views(profiles@)[j]);
    let mut j: usize = 0;
    while j < profiles.len()
        invariant
            j <= profiles.len(),
            vs == validated_views(profiles@),
            at == (|j: int| undeployable(validated_views(profiles@)[j])),
            first_fault(at, j as int) is None,
            forall|j: int, i: int|
                0 <= j < profiles@.len() && 0 <= i < vs[j].source_cidrs.len() ==> cidr_address(
                    #[trigger] vs[j].source_cidrs[i],
                ) is Some,
        decreases profiles.len() - j,
    {
        let validated = &profiles[j];
        proof {
            assert(vs[j as int] == validated@);
            if at(j as int) is Some {
                assert(first_fault(at, j + 1) == at(j as int));
                lemma_first_fault_persists(at, j + 1, profiles@.len() as int);
            }
        }
        match validated.reject_undeployable() {
            Ok(_) => {},
            Err(e) => {
                return Err(e);
            },
        }
        j = j + 1;
    }
    Ok(())
}

/// What kept content from being parsed, with its cause, or the rule that the parsed
/// configuration breaks.
pub open spec fn parsed_fault(parsed: Result<Config, String>) -> Option<Seq<char>> {
    match parsed {
        Err(reason) => Some("invalid TOML: "@ + reason@ + ": "@ + reason@),
        Ok(config) => match config_fault(config@) {
            Some(f) => Some("configuration error: "@ + fault_text(f)),
            None => None,
        },
    }
}

/// What keeps a loaded configuration from being deployed, or what kept it from being
/// loaded.
pub open spec fn loading_fault(loaded: Result<Config, ConfigError>) -> Option<Seq<char>> {
    match loaded {
        Err(e) => Some(e.spec_message()),
        Ok(config) => match deployable_fault(config@) {
            Some(f) => Some("configuration error: "@ + fault_text(f)),
            None => None,
        },
    }
}

/// Checks that a loaded configuration can be deployed.
pub fn check_loaded(loaded: &Result<Config, ConfigError>) -> (r: Result<(), String>)
    ensures
        match loading_fault(*loaded) {
            None => r is Ok,
            Some(text) => r matches Err(e) && e@ == text,
        },
{
    match loaded {
        Err(e) => Err(e.message()),
        Ok(config) => match config.validate_deployable() {
            Ok(_) => Ok(()),
            Err(e) => Err(e.message()),
        },
    }
}

} // verus!
