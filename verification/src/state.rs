//! The runtime state of the daemon and its human-readable summary.

use vstd::prelude::*;

use crate::config;
use crate::config::{AddressFamily, Protocol, SourceMode};
use crate::dns;
use crate::dns::{DnsStatus, DnsStatusView, Health};
use crate::number;
use crate::settings::OriginalValues;
use crate::text;

verus! {

/// What the daemon keeps across restarts.
#[derive(Debug, PartialEq, Eq)]
pub struct RuntimeState {
    pub schema_version: u32,
    pub config_version: u64,
    pub nft_rules_version: u64,
    pub daemon_started_unix: u64,
    pub updated_unix: u64,
    pub profiles: Vec<ProfileStatus>,
    /// Original `route_localnet` values, retained so that only settings that the
    /// daemon changed are put back.
    pub route_localnet_original: OriginalValues,
}

/// The status of one profile.
#[derive(Debug, PartialEq, Eq)]
pub struct ProfileStatus {
    pub name: String,
    pub family: AddressFamily,
    pub protocols: Vec<Protocol>,
    pub listen_address: String,
    pub listen_ports: Vec<u16>,
    pub source_cidrs: Vec<String>,
    pub publicly_exposed: bool,
    pub target_kind: String,
    pub target_port: u16,
    pub target_host: Option<String>,
    pub target_address: Option<String>,
    pub source_mode: Option<SourceMode>,
    pub dns: Option<DnsStatus>,
    pub health: Health,
    pub failure_reason: Option<String>,
}

#[verifier::ext_equal]
pub struct RuntimeStateView {
    pub schema_version: u32,
    pub config_version: u64,
    pub nft_rules_version: u64,
    pub daemon_started_unix: u64,
    pub updated_unix: u64,
    pub profiles: Seq<ProfileStatusView>,
    pub route_localnet_original: Map<Seq<char>, bool>,
}

#[verifier::ext_equal]
pub struct ProfileStatusView {
    pub name: Seq<char>,
    pub family: AddressFamily,
    pub protocols: Seq<Protocol>,
    pub listen_address: Seq<char>,
    pub listen_ports: Seq<u16>,
    pub source_cidrs: Seq<Seq<char>>,
    pub publicly_exposed: bool,
    pub target_kind: Seq<char>,
    pub target_port: u16,
    pub target_host: Option<Seq<char>>,
    pub target_address: Option<Seq<char>>,
    pub source_mode: Option<SourceMode>,
    pub dns: Option<DnsStatusView>,
    pub health: Health,
    pub failure_reason: Option<Seq<char>>,
}

impl View for ProfileStatus {
    type V = ProfileStatusView;

    open spec fn view(&self) -> ProfileStatusView {
        ProfileStatusView {
            name: self.name@,
            family: self.family,
            protocols: self.protocols@,
            listen_address: self.listen_address@,
            listen_ports: self.listen_ports@,
            source_cidrs: text::texts(self.source_cidrs@),
            publicly_exposed: self.publicly_exposed,
            target_kind: self.target_kind@,
            target_port: self.target_port,
            target_host: text::option_text(self.target_host),
            target_address: text::option_text(self.target_address),
            source_mode: self.source_mode,
            dns: dns::option_status(self.dns),
            health: self.health,
            failure_reason: text::option_text(self.failure_reason),
        }
    }
}

/// The models of a list of profile statuses.
pub open spec fn status_views(v: Seq<ProfileStatus>) -> Seq<ProfileStatusView> {
    v.map_values(|p: ProfileStatus| p@)
}

impl View for RuntimeState {
    type V = RuntimeStateView;

    open spec fn view(&self) -> RuntimeStateView {
        RuntimeStateView {
            schema_version: self.schema_version,
            config_version: self.config_version,
            nft_rules_version: self.nft_rules_version,
            daemon_started_unix: self.daemon_started_unix,
            updated_unix: self.updated_unix,
            profiles: status_views(self.profiles@),
            route_localnet_original: self.route_localnet_original@,
        }
    }
}

/// A copy of an optional DNS state.
pub fn clone_dns(v: &Option<DnsStatus>) -> (r: Option<DnsStatus>)
    ensures
        dns::option_status(r) == dns::option_status(*v),
{
    match v {
        Some(s) => Some(s.clone()),
        None => None,
    }
}

impl Clone for ProfileStatus {
    fn clone(&self) -> (r: Self)
        ensures
            r@ == self@,
    {
        ProfileStatus {
            name: self.name.clone(),
            family: self.family,
            protocols: config::clone_protocols(&self.protocols),
            listen_address: self.listen_address.clone(),
            listen_ports: config::clone_ports(&self.listen_ports),
            source_cidrs: text::clone_texts(&self.source_cidrs),
            publicly_exposed: self.publicly_exposed,
            target_kind: self.target_kind.clone(),
            target_port: self.target_port,
            target_host: text::clone_option(&self.target_host),
            target_address: text::clone_option(&self.target_address),
            source_mode: self.source_mode,
            dns: clone_dns(&self.dns),
            health: self.health,
            failure_reason: text::clone_option(&self.failure_reason),
        }
    }
}

impl Clone for RuntimeState {
    fn clone(&self) -> (r: Self)
        ensures
            r@ == self@,
    {
        let mut profiles: Vec<ProfileStatus> = Vec::new();
        let mut i: usize = 0;
        while i < self.profiles.len()
            invariant
                i <= self.profiles.len(),
                profiles@.len() == i,
                forall|j: int| 0 <= j < i ==> (#[trigger] profiles@[j])@ == self.profiles@[j]@,
            decreases self.profiles.len() - i,
        {
            profiles.push(self.profiles[i].clone());
            i = i + 1;
        }
        proof {
            assert(status_views(profiles@) =~= status_views(self.profiles@));
        }
        RuntimeState {
            schema_version: self.schema_version,
            config_version: self.config_version,
            nft_rules_version: self.nft_rules_version,
            daemon_started_unix: self.daemon_started_unix,
            updated_unix: self.updated_unix,
            profiles,
            route_localnet_original: self.route_localnet_original.clone(),
        }
    }
}

impl RuntimeStateView {
    /// The state of a daemon that never applied a configuration.
    pub open spec fn empty(now: u64) -> RuntimeStateView {
        RuntimeStateView {
            schema_version: 1,
            config_version: 0,
            nft_rules_version: 0,
            daemon_started_unix: now,
            updated_unix: now,
            profiles: Seq::empty(),
            route_localnet_original: Map::empty(),
        }
    }
}

impl RuntimeState {
    /// The state of a daemon that never applied a configuration.
    #[must_use]
    pub fn empty(now: u64) -> (r: Self)
        ensures
            r@ == RuntimeStateView::empty(now),
    {
        let r = RuntimeState {
            schema_version: 1,
            config_version: 0,
            nft_rules_version: 0,
            daemon_started_unix: now,
            updated_unix: now,
            profiles: Vec::new(),
            route_localnet_original: OriginalValues::new(),
        };
        proof {
            assert(status_views(r.profiles@) =~= Seq::empty());
        }
        r
    }
}

/// Why the state file could not be loaded.
#[derive(Debug, PartialEq, Eq)]
pub struct LoadFailure {
    /// The file does not exist.
    pub not_found: bool,
    /// The text of the failure.
    pub reason: String,
}

/// What reading the state file gave.
#[derive(Debug, PartialEq, Eq)]
pub enum StateFile {
    /// The file could not be read.
    Unreadable { not_found: bool, error: String },
    /// What was read is not a state.
    Invalid { error: String },
    /// A state.
    State { state: RuntimeState },
}

/// Takes what reading the state file at `path` gave.
pub fn load(path: &str, read: StateFile) -> (r: Result<RuntimeState, LoadFailure>)
    ensures
        match read {
            StateFile::State { state } => r == Ok::<RuntimeState, LoadFailure>(state),
            StateFile::Unreadable { not_found, error } => r matches Err(f) && f.not_found
                == not_found && f.reason@ == "cannot read state "@ + path@ + ": "@ + error@,
            StateFile::Invalid { error } => r matches Err(f) && !f.not_found && f.reason@
                == "invalid state JSON in "@ + path@ + ": "@ + error@,
        },
{
    match read {
        StateFile::State { state } => Ok(state),
        StateFile::Unreadable { not_found, error } => Err(
            LoadFailure {
                not_found,
                reason: "cannot read state ".to_owned().concat(path).concat(": ").concat(
                    error.as_str(),
                ),
            },
        ),
        StateFile::Invalid { error } => Err(
            LoadFailure {
                not_found: false,
                reason: "invalid state JSON in ".to_owned().concat(path).concat(": ").concat(
                    error.as_str(),
                ),
            },
        ),
    }
}

/// Takes the outcome of loading the state file; a file that does not exist stands
/// for an empty state.
pub fn load_optional(loaded: Result<RuntimeState, LoadFailure>, now: u64) -> (r: Result<
    RuntimeState,
    String,
>)
    ensures
        match loaded {
            Ok(state) => r == Ok::<RuntimeState, String>(state),
            Err(failure) => if failure.not_found {
                r matches Ok(state) && state@ == RuntimeStateView::empty(now)
            } else {
                r == Err::<RuntimeState, String>(failure.reason)
            },
        },
{
    match loaded {
        Ok(state) => Ok(state),
        Err(failure) => {
            if failure.not_found {
                Ok(RuntimeState::empty(now))
            } else {
                Err(failure.reason)
            }
        },
    }
}

// The summary.

/// The name of a family in the summary.
pub open spec fn spec_family_debug(family: AddressFamily) -> Seq<char> {
    match family {
        AddressFamily::Ipv4 => "Ipv4"@,
        AddressFamily::Ipv6 => "Ipv6"@,
    }
}

/// The name of a health in the summary.
pub open spec fn spec_health_name(health: Health) -> Seq<char> {
    match health {
        Health::Healthy => "healthy"@,
        Health::Degraded => "degraded"@,
        Health::Failed => "failed"@,
    }
}

/// The items in brackets, between commas.
pub open spec fn bracketed(items: Seq<Seq<char>>) -> Seq<char> {
    "["@ + text::joined(items, ", "@) + "]"@
}

/// The names of the protocols.
pub open spec fn protocol_names(v: Seq<Protocol>) -> Seq<Seq<char>> {
    v.map_values(|p: Protocol| config::spec_protocol_debug(p))
}

/// The ports in decimal.
pub open spec fn port_texts(v: Seq<u16>) -> Seq<Seq<char>> {
    v.map_values(|p: u16| number::decimal(p as nat))
}

/// The target that the summary shows: its address, else its host, else a dash.
pub open spec fn target_text(p: ProfileStatusView) -> Seq<char> {
    if p.target_address is Some {
        p.target_address->0
    } else if p.target_host is Some {
        p.target_host->0
    } else {
        "-"@
    }
}

/// The age of the cached address that the summary shows.
pub open spec fn cache_text(p: ProfileStatusView, now: u64) -> Seq<char> {
    if p.dns is Some && p.dns->0.cache_age(now) is Some {
        number::decimal(p.dns->0.cache_age(now)->0 as nat) + "s"@
    } else {
        "-"@
    }
}

/// The line of one profile.
pub open spec fn profile_line(p: ProfileStatusView, now: u64) -> Seq<char> {
    "- "@ + p.name + ": "@ + spec_family_debug(p.family) + " "@ + bracketed(
        protocol_names(p.protocols),
    ) + " "@ + p.listen_address + ":"@ + bracketed(port_texts(p.listen_ports)) + " -> "@
        + target_text(p) + ":"@ + number::decimal(p.target_port as nat) + " ["@ + spec_health_name(
        p.health,
    ) + (if p.publicly_exposed {
        ", public"@
    } else {
        ""@
    }) + "; cache "@ + cache_text(p, now) + "]\n"@
}

/// The lines of the profiles.
pub open spec fn profile_lines(v: Seq<ProfileStatusView>, now: u64) -> Seq<char>
    decreases v.len(),
{
    if v.len() == 0 {
        Seq::empty()
    } else {
        profile_lines(v.drop_last(), now) + profile_line(v.last(), now)
    }
}

/// The summary of a state.
pub open spec fn human(s: RuntimeStateView, now: u64) -> Seq<char> {
    "config version: "@ + number::decimal(s.config_version as nat) + "\nnft rules version: "@
        + number::decimal(s.nft_rules_version as nat) + "\nprofiles: "@ + number::decimal(
        s.profiles.len(),
    ) + "\n"@ + profile_lines(s.profiles, now)
}

/// Writes the items in brackets.
fn write_bracketed(items: &Vec<String>) -> (r: String)
    ensures
        r@ == bracketed(text::texts(items@)),
{
    "[".to_owned().concat(text::join(items, ", ").as_str()).concat("]")
}

/// Writes the names of the protocols.
fn write_protocols(v: &Vec<Protocol>) -> (r: String)
    ensures
        r@ == bracketed(protocol_names(v@)),
{
    let mut items: Vec<String> = Vec::new();
    let mut i: usize = 0;
    while i < v.len()
        invariant
            i <= v.len(),
            items@.len() == i,
            forall|j: int|
                0 <= j < i ==> (#[trigger] items@[j])@ == config::spec_protocol_debug(v@[j]),
        decreases v.len() - i,
    {
        items.push(config::protocol_debug(v[i]).to_owned());
        i = i + 1;
    }
    proof {
        assert(text::texts(items@) =~= protocol_names(v@));
    }
    write_bracketed(&items)
}

/// Writes the ports.
fn write_ports(v: &Vec<u16>) -> (r: String)
    ensures
        r@ == bracketed(port_texts(v@)),
{
    let mut items: Vec<String> = Vec::new();
    let mut i: usize = 0;
    while i < v.len()
        invariant
            i <= v.len(),
            items@.len() == i,
            forall|j: int|
                0 <= j < i ==> (#[trigger] items@[j])@ == number::decimal(v@[j] as nat),
        decreases v.len() - i,
    {
        items.push(number::decimal_text(v[i] as u64));
        i = i + 1;
    }
    proof {
        assert(text::texts(items@) =~= port_texts(v@));
    }
    write_bracketed(&items)
}

/// Writes the target of a profile.
fn write_target(p: &ProfileStatus) -> (r: String)
    ensures
        r@ == target_text(p@),
{
    match &p.target_address {
        Some(address) => address.clone(),
        None => match &p.target_host {
            Some(host) => host.clone(),
            None => "-".to_owned(),
        },
    }
}

/// Writes the age of the cached address.
fn write_cache_age(p: &ProfileStatus, now: u64) -> (r: String)
    ensures
        r@ == cache_text(p@, now),
{
    match &p.dns {
        Some(dns) => match dns.cache_age_seconds(now) {
            Some(age) => number::decimal_text(age).concat("s"),
            None => "-".to_owned(),
        },
        None => "-".to_owned(),
    }
}

/// Writes the line of one profile.
fn write_profile(p: &ProfileStatus, now: u64) -> (r: String)
    ensures
        r@ == profile_line(p@, now),
{
    let family = match p.family {
        AddressFamily::Ipv4 => "Ipv4",
        AddressFamily::Ipv6 => "Ipv6",
    };
    let health = match p.health {
        Health::Healthy => "healthy",
        Health::Degraded => "degraded",
        Health::Failed => "failed",
    };
    let public = if p.publicly_exposed {
        ", public"
    } else {
        ""
    };
    "- ".to_owned().concat(p.name.as_str()).concat(": ").concat(family).concat(" ").concat(
        write_protocols(&p.protocols).as_str(),
    ).concat(" ").concat(p.listen_address.as_str()).concat(":").concat(
        write_ports(&p.listen_ports).as_str(),
    ).concat(" -> ").concat(write_target(p).as_str()).concat(":").concat(
        number::decimal_text(p.target_port as u64).as_str(),
    ).concat(" [").concat(health).concat(public).concat("; cache ").concat(
        write_cache_age(p, now).as_str(),
    ).concat("]\n")
}

/// The summary of a state: its versions, and one line for each profile.
#[must_use]
pub fn render_human(state: &RuntimeState, now: u64) -> (r: String)
    ensures
        r@ == human(state@, now),
{
    let mut lines = String::new();
    let ghost all = state@.profiles;
    let mut i: usize = 0;
    proof {
        assert(all.take(0) =~= Seq::empty());
    }
    while i < state.profiles.len()
        invariant
            i <= state.profiles.len(),
            all == status_views(state.profiles@),
            lines@ == profile_lines(all.take(i as int), now),
        decreases state.profiles.len() - i,
    {
        proof {
            assert(all.take(i + 1).drop_last() =~= all.take(i as int));
            assert(all.take(i + 1).last() == state.profiles@[i as int]@);
        }
        lines.append(write_profile(&state.profiles[i], now).as_str());
        i = i + 1;
    }
    proof {
        assert(all.take(all.len() as int) =~= all);
    }
    "config version: ".to_owned().concat(
        number::decimal_text(state.config_version).as_str(),
    ).concat("\nnft rules version: ").concat(
        number::decimal_text(state.nft_rules_version).as_str(),
    ).concat("\nprofiles: ").concat(
        number::decimal_text(state.profiles.len() as u64).as_str(),
    ).concat("\n").concat(lines.as_str())
}

// A state that no daemon keeps up to date.

/// The refresh of the profile is overdue.
pub open spec fn overdue(p: ProfileStatusView, now: u64) -> bool {
    &&& p.dns is Some
    &&& p.dns->0.next_refresh_unix is Some
    &&& p.dns->0.next_refresh_unix->0 <= now
}

/// The status of a profile where the daemon is unavailable.
pub open spec fn unattended(p: ProfileStatusView, now: u64) -> ProfileStatusView {
    if overdue(p, now) {
        ProfileStatusView {
            health: Health::Degraded,
            failure_reason: Some("daemon unavailable; DNS refresh is overdue"@),
            ..p
        }
    } else {
        p
    }
}

/// Marks the profiles whose DNS refresh is overdue as degraded.
pub fn mark_refresh_expired(state: RuntimeState, now: u64) -> (r: RuntimeState)
    ensures
        r@ == (RuntimeStateView {
            profiles: state@.profiles.map_values(|p: ProfileStatusView| unattended(p, now)),
            ..state@
        }),
{
    let mut r = state;
    let ghost before = status_views(state.profiles@);
    let mut i: usize = 0;
    while i < r.profiles.len()
        invariant
            i <= r.profiles.len(),
            before == status_views(state.profiles@),
            r.profiles@.len() == before.len(),
            r@ == (RuntimeStateView { profiles: status_views(r.profiles@), ..state@ }),
            forall|j: int|
                0 <= j < i ==> (#[trigger] r.profiles@[j])@ == unattended(before[j], now),
            forall|j: int|
                i <= j < before.len() ==> (#[trigger] r.profiles@[j])@ == before[j],
        decreases r.profiles.len() - i,
    {
        let due = match &r.profiles[i].dns {
            Some(dns) => match dns.next_refresh_unix {
                Some(due) => due <= now,
                None => false,
            },
            None => false,
        };
        if due {
            let mut profile = r.profiles[i].clone();
            profile.health = Health::Degraded;
            profile.failure_reason = Some("daemon unavailable; DNS refresh is overdue".to_owned());
            r.profiles.set(i, profile);
        }
        i = i + 1;
    }
    proof {
        assert(status_views(r.profiles@) =~= before.map_values(
            |p: ProfileStatusView| unattended(p, now),
        ));
    }
    r
}

} // verus!
