//! Profiles with their resolved destinations, and the status that is shown of them.

use vstd::prelude::*;

use crate::address;
use crate::address::{IpAddr, Ipv4Addr};
use crate::config;
use crate::config::{Target, TargetView, ValidatedProfile, ValidatedView};
use crate::control;
use crate::control::{Note, NoteView};
use crate::dns;
use crate::dns::{DnsAnswer, DnsStatus, DnsStatusView, Health, LookupView, NameResolver};
use crate::state;
use crate::state::{ProfileStatus, ProfileStatusView, RuntimeState, RuntimeStateView};
use crate::text;

verus! {

/// A validated profile and the address that a remote target has.
#[derive(Debug, PartialEq, Eq)]
pub struct ResolvedProfile {
    pub validated: ValidatedProfile,
    pub destination: Option<IpAddr>,
}

/// A profile as the daemon runs it; `dns` is there where its target is a host
/// name.
#[derive(Debug, PartialEq, Eq)]
pub struct ActiveProfile {
    pub resolved: ResolvedProfile,
    pub dns: Option<DnsStatus>,
}

#[verifier::ext_equal]
pub struct ResolvedProfileView {
    pub validated: ValidatedView,
    pub destination: Option<IpAddr>,
}

#[verifier::ext_equal]
pub struct ActiveProfileView {
    pub resolved: ResolvedProfileView,
    pub dns: Option<DnsStatusView>,
}

impl View for ResolvedProfile {
    type V = ResolvedProfileView;

    open spec fn view(&self) -> ResolvedProfileView {
        ResolvedProfileView { validated: self.validated@, destination: self.destination }
    }
}

impl View for ActiveProfile {
    type V = ActiveProfileView;

    open spec fn view(&self) -> ActiveProfileView {
        ActiveProfileView { resolved: self.resolved@, dns: dns::option_status(self.dns) }
    }
}

impl Clone for ResolvedProfile {
    fn clone(&self) -> (r: Self)
        ensures
            r@ == self@,
    {
        ResolvedProfile { validated: self.validated.clone(), destination: self.destination }
    }
}

impl Clone for ActiveProfile {
    fn clone(&self) -> (r: Self)
        ensures
            r@ == self@,
    {
        ActiveProfile { resolved: self.resolved.clone(), dns: state::clone_dns(&self.dns) }
    }
}

/// The models of a list of active profiles.
pub open spec fn active_views(v: Seq<ActiveProfile>) -> Seq<ActiveProfileView> {
    v.map_values(|p: ActiveProfile| p@)
}

/// The models of a list of resolved profiles.
pub open spec fn resolved_views(v: Seq<ResolvedProfile>) -> Seq<ResolvedProfileView> {
    v.map_values(|p: ResolvedProfile| p@)
}

/// A copy of a list of active profiles.
pub fn clone_active(v: &Vec<ActiveProfile>) -> (r: Vec<ActiveProfile>)
    ensures
        active_views(r@) == active_views(v@),
{
    let mut r: Vec<ActiveProfile> = Vec::new();
    let mut i: usize = 0;
    while i < v.len()
        invariant
            i <= v.len(),
            r@.len() == i,
            forall|j: int| 0 <= j < i ==> (#[trigger] r@[j])@ == v@[j]@,
        decreases v.len() - i,
    {
        r.push(v[i].clone());
        i = i + 1;
    }
    proof {
        assert(active_views(r@) =~= active_views(v@));
    }
    r
}

/// The resolved profiles of a list of active ones.
pub open spec fn resolved_of(v: Seq<ActiveProfileView>) -> Seq<ResolvedProfileView> {
    v.map_values(|p: ActiveProfileView| p.resolved)
}

/// The resolved profiles of a list of active ones.
pub fn resolved_profiles(v: &Vec<ActiveProfile>) -> (r: Vec<ResolvedProfile>)
    ensures
        resolved_views(r@) == resolved_of(active_views(v@)),
{
    let mut r: Vec<ResolvedProfile> = Vec::new();
    let mut i: usize = 0;
    while i < v.len()
        invariant
            i <= v.len(),
            r@.len() == i,
            forall|j: int| 0 <= j < i ==> (#[trigger] r@[j])@ == v@[j]@.resolved,
        decreases v.len() - i,
    {
        r.push(v[i].resolved.clone());
        i = i + 1;
    }
    proof {
        assert(resolved_views(r@) =~= resolved_of(active_views(v@)));
    }
    r
}

impl ResolvedProfileView {
    /// The address that packets are sent to: the destination of a remote target,
    /// 127.0.0.1 for a loopback target, and none for a redirect.
    pub open spec fn target(self) -> Option<IpAddr> {
        match self.validated.profile.target {
            TargetView::Remote { .. } => self.destination,
            TargetView::LoopbackDnat { .. } => Some(
                IpAddr::V4(Ipv4Addr { a: 127, b: 0, c: 0, d: 1 }),
            ),
            TargetView::Redirect { .. } => None,
        }
    }
}

impl ResolvedProfile {
    /// The address that packets are sent to; a redirect has none.
    #[must_use]
    pub fn target_address(&self) -> (r: Option<IpAddr>)
        ensures
            r == self@.target(),
    {
        match &self.validated.profile.target {
            Target::Remote { .. } => self.destination,
            Target::LoopbackDnat { .. } => Some(
                IpAddr::V4(Ipv4Addr { a: 127, b: 0, c: 0, d: 1 }),
            ),
            Target::Redirect { .. } => None,
        }
    }
}

// The status of a profile.

/// The name of a kind of target.
pub open spec fn spec_target_kind(t: TargetView) -> Seq<char> {
    match t {
        TargetView::Remote { .. } => "remote"@,
        TargetView::Redirect { .. } => "redirect"@,
        TargetView::LoopbackDnat { .. } => "loopback-dnat"@,
    }
}

/// The port of a target.
pub open spec fn spec_target_port(t: TargetView) -> u16 {
    match t {
        TargetView::Remote { port, .. } => port,
        TargetView::Redirect { port } => port,
        TargetView::LoopbackDnat { port } => port,
    }
}

/// The host that is shown of a target.
pub open spec fn spec_target_host(t: TargetView) -> Option<Seq<char>> {
    match t {
        TargetView::Remote { host, .. } => Some(host),
        TargetView::Redirect { .. } => None,
        TargetView::LoopbackDnat { .. } => Some("127.0.0.1"@),
    }
}

/// The status of an active profile.
pub open spec fn status_of(p: ActiveProfileView) -> ProfileStatusView {
    let v = p.resolved.validated;
    ProfileStatusView {
        name: v.profile.name,
        family: v.profile.family,
        protocols: v.profile.protocols,
        listen_address: v.profile.listen_address,
        listen_ports: v.listen_ports,
        source_cidrs: v.source_cidrs,
        publicly_exposed: v.source_cidrs.contains(v.profile.family.spec_any_source()),
        target_kind: spec_target_kind(v.profile.target),
        target_port: spec_target_port(v.profile.target),
        target_host: spec_target_host(v.profile.target),
        target_address: address::option_shown(p.resolved.target()),
        source_mode: match v.profile.target {
            TargetView::Remote { source_mode, .. } => source_mode,
            _ => None,
        },
        dns: p.dns,
        health: match p.dns {
            Some(dns) => dns.status,
            None => Health::Healthy,
        },
        failure_reason: match p.dns {
            Some(dns) => dns.failure_reason,
            None => None,
        },
    }
}

/// The statuses of a list of active profiles.
pub open spec fn statuses(v: Seq<ActiveProfileView>) -> Seq<ProfileStatusView> {
    v.map_values(|p: ActiveProfileView| status_of(p))
}

/// Whether the profile accepts every source of its family.
fn publicly_exposed(v: &ValidatedProfile) -> (r: bool)
    ensures
        r == v@.source_cidrs.contains(v@.profile.family.spec_any_source()),
{
    let any = v.profile.family.any_source();
    let ghost all = v@.source_cidrs;
    let mut i: usize = 0;
    while i < v.source_cidrs.len()
        invariant
            i <= v.source_cidrs.len(),
            all == v@.source_cidrs,
            any@ == v@.profile.family.spec_any_source(),
            forall|j: int| 0 <= j < i ==> all[j] != any@,
        decreases v.source_cidrs.len() - i,
    {
        proof {
            assert(all[i as int] == v.source_cidrs@[i as int]@);
        }
        if text::same(v.source_cidrs[i].as_str(), any) {
            assert(all.contains(any@));
            return true;
        }
        i = i + 1;
    }
    false
}

/// The status of an active profile.
#[must_use]
pub fn profile_status(active: &ActiveProfile) -> (r: ProfileStatus)
    ensures
        r@ == status_of(active@),
{
    let validated = &active.resolved.validated;
    let profile = &validated.profile;
    let (target_kind, target_port, target_host, source_mode) = match &profile.target {
        Target::Remote { host, port, source_mode } => (
            "remote",
            *port,
            Some(host.clone()),
            *source_mode,
        ),
        Target::Redirect { port } => ("redirect", *port, None, None),
        Target::LoopbackDnat { port } => (
            "loopback-dnat",
            *port,
            Some("127.0.0.1".to_owned()),
            None,
        ),
    };
    let health = match &active.dns {
        Some(dns) => dns.status,
        None => Health::Healthy,
    };
    let failure_reason = match &active.dns {
        Some(dns) => text::clone_option(&dns.failure_reason),
        None => None,
    };
    let target_address = match active.resolved.target_address() {
        Some(ip) => Some(ip.to_text()),
        None => None,
    };
    ProfileStatus {
        name: profile.name.clone(),
        family: profile.family,
        protocols: config::clone_protocols(&profile.protocols),
        listen_address: profile.listen_address.clone(),
        listen_ports: config::clone_ports(&validated.listen_ports),
        source_cidrs: text::clone_texts(&validated.source_cidrs),
        publicly_exposed: publicly_exposed(validated),
        target_kind: target_kind.to_owned(),
        target_port,
        target_host,
        target_address,
        source_mode,
        dns: state::clone_dns(&active.dns),
        health,
        failure_reason,
    }
}

/// The statuses of a list of active profiles.
pub fn profile_statuses(v: &Vec<ActiveProfile>) -> (r: Vec<ProfileStatus>)
    ensures
        state::status_views(r@) == statuses(active_views(v@)),
{
    let mut r: Vec<ProfileStatus> = Vec::new();
    let mut i: usize = 0;
    while i < v.len()
        invariant
            i <= v.len(),
            r@.len() == i,
            forall|j: int| 0 <= j < i ==> (#[trigger] r@[j])@ == status_of(v@[j]@),
        decreases v.len() - i,
    {
        r.push(profile_status(&v[i]));
        i = i + 1;
    }
    proof {
        assert(state::status_views(r@) =~= statuses(active_views(v@)));
    }
    r
}

// Activating the profiles of a configuration.

/// The cached DNS state of the first status that has the name.
pub open spec fn cached_dns(v: Seq<ProfileStatusView>, name: Seq<char>) -> Option<DnsStatusView>
    decreases v.len(),
{
    if v.len() == 0 {
        None
    } else if v[0].name == name {
        v[0].dns
    } else {
        cached_dns(v.drop_first(), name)
    }
}

/// The host name that a profile needs a lookup for: the host of a remote target,
/// unless it is a literal address.
pub open spec fn host_name(v: ValidatedView) -> Option<Seq<char>> {
    match v.profile.target {
        TargetView::Remote { host, .. } => match address::ip_of(host) {
            Some(_) => None,
            None => Some(host),
        },
        _ => None,
    }
}

/// The literal address that a profile forwards to.
pub open spec fn literal_target(v: ValidatedView) -> Option<IpAddr> {
    match v.profile.target {
        TargetView::Remote { host, .. } => address::ip_of(host),
        _ => None,
    }
}

/// The profile as it runs; `resolution` tells of its host name, where it has one.
pub open spec fn activated(v: ValidatedView, resolution: Option<dns::ResolvedView>) -> Result<
    ActiveProfileView,
    Seq<char>,
> {
    match resolution {
        None => Ok(
            ActiveProfileView {
                resolved: ResolvedProfileView { validated: v, destination: literal_target(v) },
                dns: None,
            },
        ),
        Some(Ok(status)) => Ok(
            ActiveProfileView {
                resolved: ResolvedProfileView { validated: v, destination: status.active_address },
                dns: Some(status),
            },
        ),
        Some(Err(reason)) => Err(config::of_profile(v.profile.name, ": "@ + reason)),
    }
}

/// The model of a resolution.
pub open spec fn resolution_view(r: Option<Result<DnsStatus, String>>) -> Option<
    dns::ResolvedView,
> {
    match r {
        Some(r) => Some(dns::resolved_view(r)),
        None => None,
    }
}

/// The model of an activated profile or of the text of a failure.
pub open spec fn activation_view(r: Result<ActiveProfile, String>) -> Result<
    ActiveProfileView,
    Seq<char>,
> {
    match r {
        Ok(p) => Ok(p@),
        Err(e) => Err(e@),
    }
}

/// Activates a profile with the resolution of its host name; one without a host
/// name takes none.
pub fn activate_profile(
    validated: ValidatedProfile,
    resolution: Option<Result<DnsStatus, String>>,
) -> (r: Result<ActiveProfile, String>)
    ensures
        activation_view(r) == activated(validated@, resolution_view(resolution)),
{
    match resolution {
        None => {
            let destination = match &validated.profile.target {
                Target::Remote { host, .. } => address::read_ip(host.as_str()),
                _ => None,
            };
            Ok(ActiveProfile { resolved: ResolvedProfile { validated, destination }, dns: None })
        },
        Some(Ok(status)) => {
            let destination = status.active_address;
            Ok(
                ActiveProfile {
                    resolved: ResolvedProfile { validated, destination },
                    dns: Some(status),
                },
            )
        },
        Some(Err(reason)) => {
            let r = "profile ".to_owned().concat(
                text::quote(validated.profile.name.as_str()).as_str(),
            ).concat(": ").concat(reason.as_str());
            proof {
                let name = validated@.profile.name;
                assert("profile "@ + text::quoted(name) + ": "@ + reason@ =~= config::of_profile(
                    name,
                    ": "@ + reason@,
                ));
            }
            Err(r)
        },
    }
}

/// The cached DNS state of the first status that has the name.
fn find_cached<'a>(prior: &'a RuntimeState, name: &str) -> (r: Option<&'a DnsStatus>)
    ensures
        dns::option_status_ref(r) == cached_dns(prior@.profiles, name@),
{
    let ghost all = prior@.profiles;
    let mut i: usize = 0;
    proof {
        assert(all.skip(0) =~= all);
    }
    while i < prior.profiles.len()
        invariant
            i <= prior.profiles.len(),
            all == state::status_views(prior.profiles@),
            cached_dns(all, name@) == cached_dns(all.skip(i as int), name@),
        decreases prior.profiles.len() - i,
    {
        proof {
            assert(all.skip(i as int)[0] == prior.profiles@[i as int]@);
            assert(all.skip(i as int).drop_first() =~= all.skip(i + 1));
        }
        if text::same(prior.profiles[i].name.as_str(), name) {
            return match &prior.profiles[i].dns {
                Some(status) => Some(status),
                None => None,
            };
        }
        i = i + 1;
    }
    None
}

/// What was found for a host name: the lookup and the jitter of its refresh.
pub struct Finding {
    pub lookup: LookupView,
    pub jitter: u64,
}

/// The resolver may have given the lookup of the finding for `host`.
pub open spec fn found_by<R: NameResolver + ?Sized>(
    resolver: &R,
    host: Seq<char>,
    finding: Finding,
) -> bool {
    &&& finding.jitter <= dns::MAX_JITTER
    &&& exists|asked: &str, lookup: Result<DnsAnswer, String>|
        {
            &&& asked@ == host
            &&& #[trigger] dns::answers(resolver, asked, lookup)
            &&& dns::lookup_view(lookup) == finding.lookup
        }
}

/// The resolution of a profile's host name, behind what was found for it.
pub open spec fn resolution_of(
    v: ValidatedView,
    prior: RuntimeStateView,
    finding: Finding,
    now: u64,
) -> Option<dns::ResolvedView> {
    match host_name(v) {
        Some(host) => Some(
            dns::first_state(
                host,
                v.profile.family,
                cached_dns(prior.profiles, v.profile.name),
                finding.lookup,
                finding.jitter,
                now,
            ),
        ),
        None => None,
    }
}

/// The first `findings.len()` profiles as they run, or the text of the first
/// failure among them.
pub open spec fn built(
    vs: Seq<ValidatedView>,
    prior: RuntimeStateView,
    findings: Seq<Finding>,
    now: u64,
) -> Result<Seq<ActiveProfileView>, Seq<char>>
    decreases findings.len(),
{
    if findings.len() == 0 {
        Ok(Seq::empty())
    } else {
        let n = findings.len() - 1;
        match built(vs, prior, findings.drop_last(), now) {
            Err(e) => Err(e),
            Ok(front) => match activated(vs[n], resolution_of(vs[n], prior, findings[n], now)) {
                Err(e) => Err(e),
                Ok(p) => Ok(front.push(p)),
            },
        }
    }
}

/// The findings may have come from the resolver, each for the host name of its
/// profile.
pub open spec fn all_found_by<R: NameResolver + ?Sized>(
    resolver: &R,
    vs: Seq<ValidatedView>,
    findings: Seq<Finding>,
) -> bool {
    forall|i: int|
        0 <= i < findings.len() && host_name(vs[i]) is Some ==> found_by(
            resolver,
            host_name(vs[i])->0,
            #[trigger] findings[i],
        )
}

/// The model of a list of activated profiles or of the text of a failure.
pub open spec fn build_view(r: Result<Vec<ActiveProfile>, String>) -> Result<
    Seq<ActiveProfileView>,
    Seq<char>,
> {
    match r {
        Ok(v) => Ok(active_views(v@)),
        Err(e) => Err(e@),
    }
}

/// `r` comes of the findings, which may have come from the resolver: one for each
/// profile up to the first failure.
pub open spec fn built_from<R: NameResolver + ?Sized>(
    resolver: &R,
    vs: Seq<ValidatedView>,
    prior: RuntimeStateView,
    findings: Seq<Finding>,
    now: u64,
    r: Result<Seq<ActiveProfileView>, Seq<char>>,
) -> bool {
    &&& findings.len() <= vs.len()
    &&& r is Ok ==> findings.len() == vs.len()
    &&& all_found_by(resolver, vs, findings)
    &&& r == built(vs, prior, findings, now)
}

/// Resolves the host name of a profile, where it has one.
fn resolve_profile<R: NameResolver + ?Sized>(
    validated: &ValidatedProfile,
    prior: &RuntimeState,
    resolver: &R,
    now: u64,
) -> (r: Option<Result<DnsStatus, String>>)
    requires
        now + dns::MAX_REFRESH <= u64::MAX,
    ensures
        exists|finding: Finding|
            {
                &&& resolution_view(r) == #[trigger] resolution_of(
                    validated@,
                    prior@,
                    finding,
                    now,
                )
                &&& host_name(validated@) is Some ==> found_by(
                    resolver,
                    host_name(validated@)->0,
                    finding,
                )
            },
{
    match &validated.profile.target {
        Target::Remote { host, .. } => {
            if address::read_ip(host.as_str()).is_some() {
                proof {
                    let any = Finding { lookup: Err(Seq::empty()), jitter: 0 };
                    assert(resolution_of(validated@, prior@, any, now) is None);
                }
                return None;
            }
            let cached = find_cached(prior, validated.profile.name.as_str());
            let asked = host.as_str();
            let r = dns::resolve_initial(
                asked,
                validated.profile.family,
                cached,
                resolver,
                now,
            );
            proof {
                let (lookup, jitter) = choose|lookup: Result<DnsAnswer, String>, jitter: u64|
                    {
                        &&& #[trigger] dns::answers(resolver, asked, lookup)
                        &&& jitter <= dns::MAX_JITTER
                        &&& dns::resolved_view(r) == #[trigger] dns::first_state(
                            asked@,
                            validated.profile.family,
                            dns::option_status_ref(cached),
                            dns::lookup_view(lookup),
                            jitter,
                            now,
                        )
                    };
                let finding = Finding { lookup: dns::lookup_view(lookup), jitter };
                assert(found_by(resolver, host@, finding));
                assert(resolution_view(Some(r)) == resolution_of(
                    validated@,
                    prior@,
                    finding,
                    now,
                ));
            }
            Some(r)
        },
        _ => {
            proof {
                let any = Finding { lookup: Err(Seq::empty()), jitter: 0 };
                assert(resolution_of(validated@, prior@, any, now) is None);
            }
            None
        },
    }
}

/// Activates the profiles of a configuration: a host name goes on from the cached
/// state of the profile of that name, and the first failure refuses them all.
pub fn build_active_profiles<R: NameResolver + ?Sized>(
    validated: Vec<ValidatedProfile>,
    prior: &RuntimeState,
    resolver: &R,
    now: u64,
) -> (r: Result<Vec<ActiveProfile>, String>)
    requires
        now + dns::MAX_REFRESH <= u64::MAX,
    ensures
        exists|findings: Seq<Finding>| #[trigger]
            built_from(
                resolver,
                config::validated_views(validated@),
                prior@,
                findings,
                now,
                build_view(r),
            ),
{
    let ghost vs = config::validated_views(validated@);
    let ghost mut findings: Seq<Finding> = Seq::empty();
    let mut r: Vec<ActiveProfile> = Vec::new();
    let mut i: usize = 0;
    proof {
        assert(active_views(r@) =~= Seq::empty());
    }
    while i < validated.len()
        invariant
            i <= validated.len(),
            now + dns::MAX_REFRESH <= u64::MAX,
            vs == config::validated_views(validated@),
            findings.len() == i,
            all_found_by(resolver, vs, findings),
            built(vs, prior@, findings, now) == Ok::<Seq<ActiveProfileView>, Seq<char>>(
                active_views(r@),
            ),
        decreases validated.len() - i,
    {
        let profile = validated[i].clone();
        let resolution = resolve_profile(&profile, prior, resolver, now);
        let ghost finding = choose|finding: Finding|
            {
                &&& resolution_view(resolution) == #[trigger] resolution_of(
                    profile@,
                    prior@,
                    finding,
                    now,
                )
                &&& host_name(profile@) is Some ==> found_by(
                    resolver,
                    host_name(profile@)->0,
                    finding,
                )
            };
        proof {
            assert(vs[i as int] == profile@);
            let more = findings.push(finding);
            assert(more.drop_last() =~= findings);
            assert forall|k: int|
                0 <= k < more.len() && host_name(vs[k]) is Some implies found_by(
                resolver,
                host_name(vs[k])->0,
                #[trigger] more[k],
            ) by {
                if k < i {
                    assert(more[k] == findings[k]);
                }
            }
            findings = more;
        }
        match activate_profile(profile, resolution) {
            Ok(p) => {
                let ghost before = r@;
                r.push(p);
                proof {
                    assert(active_views(r@) =~= active_views(before).push(p@));
                }
            },
            Err(e) => {
                proof {
                    assert(built_from(resolver, vs, prior@, findings, now, build_view(Err(e))));
                }
                return Err(e);
            },
        }
        i = i + 1;
    }
    proof {
        assert(built_from(resolver, vs, prior@, findings, now, build_view(Ok(r))));
    }
    Ok(r)
}

// Destinations.

/// A remote target has a destination, and a host name has an active address, which is
/// the destination.
pub open spec fn routed(p: ActiveProfileView) -> bool {
    &&& p.resolved.validated.profile.target is Remote ==> p.resolved.destination is Some
    &&& p.dns is Some ==> p.dns->0.active_address is Some && p.resolved.destination
        == p.dns->0.active_address
}

/// All of the profiles have the destinations that they need.
pub open spec fn all_routed(v: Seq<ActiveProfileView>) -> bool {
    forall|i: int| 0 <= i < v.len() ==> routed(#[trigger] v[i])
}

// Cached addresses.

/// The profile was activated with a cached address, since its lookup failed.
pub open spec fn fell_back(p: ActiveProfileView) -> bool {
    p.dns is Some && p.dns->0.status == Health::Degraded
}

/// The note that a profile was activated with a cached address.
pub open spec fn fallback_note(p: ActiveProfileView) -> NoteView {
    NoteView {
        level: "warn"@,
        message: "DNS cache fallback for profile "@ + p.resolved.validated.profile.name + ": "@
            + match p.dns->0.failure_reason {
            Some(reason) => reason,
            None => ""@,
        },
    }
}

/// The notes of those of the activated profiles that took a cached address, in order.
pub open spec fn fallbacks(v: Seq<ActiveProfileView>) -> Seq<NoteView>
    decreases v.len(),
{
    if v.len() == 0 {
        Seq::empty()
    } else if fell_back(v.last()) {
        fallbacks(v.drop_last()).push(fallback_note(v.last()))
    } else {
        fallbacks(v.drop_last())
    }
}

/// The notes of those of the activated profiles that took a cached address, in order.
#[must_use]
pub fn cache_fallbacks(v: &Vec<ActiveProfile>) -> (r: Vec<Note>)
    ensures
        control::note_views(r@) == fallbacks(active_views(v@)),
{
    let ghost all = active_views(v@);
    let mut r: Vec<Note> = Vec::new();
    let mut i: usize = 0;
    proof {
        assert(all.take(0) =~= Seq::empty());
        assert(control::note_views(r@) =~= Seq::empty());
    }
    while i < v.len()
        invariant
            i <= v.len(),
            all == active_views(v@),
            control::note_views(r@) == fallbacks(all.take(i as int)),
        decreases v.len() - i,
    {
        proof {
            assert(all.take(i + 1).drop_last() =~= all.take(i as int));
            assert(all.take(i + 1).last() == v@[i as int]@);
        }
        match &v[i].dns {
            Some(status) => {
                if status.status == Health::Degraded {
                    let reason = match &status.failure_reason {
                        Some(reason) => reason.clone(),
                        None => "".to_owned(),
                    };
                    let note = Note {
                        level: "warn".to_owned(),
                        message: "DNS cache fallback for profile ".to_owned().concat(
                            v[i].resolved.validated.profile.name.as_str(),
                        ).concat(": ").concat(reason.as_str()),
                    };
                    let ghost held = r@;
                    r.push(note);
                    proof {
                        assert(control::note_views(r@) =~= control::note_views(held).push(note@));
                    }
                }
            },
            None => {},
        }
        i = i + 1;
    }
    proof {
        assert(all.take(all.len() as int) =~= all);
    }
    r
}

} // verus!
