//! What the operations that callers use give back.

use vstd::prelude::*;

use crate::address;
use crate::address::IpAddr;
use crate::commit::{Commit, CommitView, Outcome};
use crate::config;
use crate::config::{
    AddressFamily, Config, ConfigError, ListenPorts, Profile, TargetView, ValidatedProfile,
    ValidatedView,
};
use crate::control;
use crate::control::{LogEvent, LogEventView};
use crate::dns;
use crate::dns::{DnsAnswer, DnsStatus, DnsStatusView, Health, NameResolver};
use crate::host;
use crate::host::InterfaceAddress;
use crate::laws;
use crate::laws::batch;
use crate::laws::batch::Chains;
use crate::laws::dialogue;
use crate::laws::lookups;
use crate::laws::rules;
use crate::nft;
use crate::nft::{BaseChain, Hook, OwnTables, TableName, TableNameView};
use crate::profile;
use crate::profile::{ActiveProfile, ActiveProfileView, Finding, ResolvedProfile};
use crate::refresh;
use crate::refresh::{Cycle, Plan, PlanView, Refreshed};
use crate::runtime;
use crate::runtime::DaemonData;
use crate::state::{ProfileStatusView, RuntimeState};
use crate::text;
use crate::time::Duration;
use crate::wizard;
use crate::wizard::{Question, Wizard, WizardView};

verus! {

// The batch.

/// A batch that is generated serves exactly its profiles, for each of their protocols.
pub proof fn law_generated_batch_serves_its_profiles(
    profiles: &Vec<ResolvedProfile>,
    own: OwnTables,
    r: String,
) -> (c: (Seq<char>, Chains, Chains))
    requires
        call_ensures(nft::generate_batch, (profiles, own), r),
    ensures
        ({
            let vs = profile::resolved_views(profiles@);
            &&& r@ == c.0 + ("table "@ + "ip"@ + " "@ + "port_forward_v4"@ + " {\n"@
                + batch::written(c.1)) + ("table "@ + "ip6"@ + " "@ + "port_forward_v6"@ + " {\n"@
                + batch::written(c.2))
            &&& batch::exact(Hook::Prerouting, AddressFamily::Ipv4, vs, c.1.prerouting)
            &&& batch::exact(Hook::Forward, AddressFamily::Ipv4, vs, c.1.forward)
            &&& batch::exact(Hook::Postrouting, AddressFamily::Ipv4, vs, c.1.postrouting)
            &&& batch::exact(Hook::Prerouting, AddressFamily::Ipv6, vs, c.2.prerouting)
            &&& batch::exact(Hook::Forward, AddressFamily::Ipv6, vs, c.2.forward)
            &&& batch::exact(Hook::Postrouting, AddressFamily::Ipv6, vs, c.2.postrouting)
            &&& !own.ipv4 && !own.ipv6 ==> c.0.len() == 0
        }),
{
    batch::law_batch_serves_exactly_its_profiles(profile::resolved_views(profiles@), own)
}

/// Each chain of others at one of our hooks is a conflict, and there are no others; the
/// batch is refused exactly where there is one.
pub proof fn law_chains_of_others_refuse_the_batch(
    chains: &Vec<BaseChain>,
    found: Vec<String>,
    verdict: Result<(), String>,
    i: int,
)
    requires
        call_ensures(nft::external_hook_conflicts, (chains,), found),
        call_ensures(nft::reject_external_hook_conflicts, (&found,), verdict),
        0 <= i < chains@.len(),
    ensures
        ({
            let c = chains@[i]@;
            let others = !(c.family == "ip"@ && c.table == "port_forward_v4"@) && !(c.family
                == "ip6"@ && c.table == "port_forward_v6"@);
            let ours = c.hook == "prerouting"@ || c.hook == "forward"@ || c.hook
                == "postrouting"@;
            &&& others && ours ==> verdict is Err && text::texts(found@).contains(
                c.family + "/"@ + c.table + "/"@ + c.hook,
            )
            &&& verdict is Err <==> found@.len() > 0
        }),
{
    let all = nft::chain_views(chains@);
    let c = all[i];
    assert(c == chains@[i]@);
    let t = c.family + "/"@ + c.table + "/"@ + c.hook;
    batch::law_conflicts_are_chains_of_others_at_our_hooks(all, t);
    assert(batch::hook_word(Hook::Prerouting) == "prerouting"@);
    assert(batch::hook_word(Hook::Forward) == "forward"@);
    assert(batch::hook_word(Hook::Postrouting) == "postrouting"@);
    if text::texts(found@).contains(t) {
        assert(found@.len() > 0);
    }
}

// Configurations.

/// A profile is validated exactly where it keeps the rules by itself.
pub proof fn law_validated_profile_keeps_the_rules(
    p: &Profile,
    r: Result<ValidatedProfile, ConfigError>,
)
    requires
        call_ensures(Profile::validate, (p,), r),
    ensures
        r is Ok <==> rules::profile_ok(p@),
        r matches Ok(v) ==> v@.profile == p@ && Some(v@.listen_ip) == address::ip_of(
            p@.listen_address,
        ),
        r is Err ==> r->Err_0 is Semantic,
{
    rules::law_profile_is_accepted_exactly_where_it_keeps_the_rules(p@);
}

/// A configuration is validated exactly where it keeps the rules; its profiles come out
/// in order, with the address, the ports and the sources that they listen with.
pub proof fn law_validated_configuration_keeps_the_rules(
    c: &Config,
    r: Result<Vec<ValidatedProfile>, ConfigError>,
    i: int,
)
    requires
        call_ensures(Config::validate, (c,), r),
    ensures
        r is Ok <==> rules::config_ok(c@),
        r matches Ok(v) ==> v@.len() == c@.profiles.len(),
        r is Err ==> r->Err_0 is Semantic,
        r is Ok && 0 <= i < c@.profiles.len() ==> ({
            let p = c@.profiles[i];
            let v = r->Ok_0@[i]@;
            &&& v.profile == p
            &&& Some(v.listen_ip) == address::ip_of(p.listen_address)
            &&& v.listen_ports == config::projected(p.listen_ports)->Ok_0
            &&& p.source_cidrs.len() > 0 ==> v.source_cidrs == p.source_cidrs
            &&& p.source_cidrs.len() == 0 ==> v.source_cidrs == seq![
                (if p.family == AddressFamily::Ipv4 {
                    "0.0.0.0/0"@
                } else {
                    "::/0"@
                }),
            ]
        }),
{
    rules::law_configuration_is_accepted_exactly_where_it_keeps_the_rules(c@);
    if r is Ok {
        let vs = config::validated_views(r->Ok_0@);
        assert(vs.len() == c@.profiles.len());
        if 0 <= i < c@.profiles.len() {
            assert(vs[i] == r->Ok_0@[i]@);
            assert(rules::profile_ok(c@.profiles[i]));
            rules::law_normalized_profile_is_the_profile(c@.profiles[i]);
        }
    }
}

/// A configuration is deployed exactly where it keeps the rules, has a profile, and its
/// values are genuine.
pub proof fn law_deployed_configuration_is_genuine(
    c: &Config,
    r: Result<Vec<ValidatedProfile>, ConfigError>,
)
    requires
        call_ensures(Config::validate_deployable, (c,), r),
    ensures
        r is Ok <==> rules::config_ok(c@) && c@.profiles.len() > 0 && forall|i: int|
            0 <= i < c@.profiles.len() ==> rules::genuine(#[trigger] c@.profiles[i]),
        r matches Ok(v) ==> v@.len() == c@.profiles.len(),
{
    rules::law_configuration_is_deployable_exactly_where_it_is_real(c@);
    if r is Ok {
        assert(config::validated_views(r->Ok_0@).len() == c@.profiles.len());
    }
}

/// A configuration is taken from its text exactly where that could be parsed and keeps the
/// rules, and it is the one that was parsed.
pub proof fn law_parsed_configuration_is_taken_as_it_is(
    parsed: Result<Config, String>,
    r: Result<Config, ConfigError>,
)
    requires
        call_ensures(Config::from_toml, (parsed,), r),
    ensures
        r is Ok <==> (parsed matches Ok(c) && rules::config_ok(c@)),
        r is Ok ==> r->Ok_0 == parsed->Ok_0,
        parsed matches Err(reason) ==> r == Err::<Config, ConfigError>(ConfigError::Toml(reason)),
{
    if parsed is Ok {
        rules::law_configuration_is_accepted_exactly_where_it_keeps_the_rules(parsed->Ok_0@);
    }
}

/// A configuration is taken from its file exactly where that could be read and parsed and
/// keeps the rules.
pub proof fn law_configuration_is_taken_from_its_file(
    path: &str,
    content: Result<Result<Config, String>, String>,
    r: Result<Config, ConfigError>,
)
    requires
        call_ensures(Config::from_path, (path, content), r),
    ensures
        r is Ok <==> (content matches Ok(Ok(c)) && rules::config_ok(c@)),
        r is Ok ==> r->Ok_0 == content->Ok_0->Ok_0,
        content is Err ==> (r matches Err(ConfigError::Read { path: at, source }) && at@ == path@
            && source == content->Err_0),
        content matches Ok(Err(reason)) ==> r == Err::<Config, ConfigError>(
            ConfigError::Toml(reason),
        ),
{
    if content is Ok && content->Ok_0 is Ok {
        rules::law_configuration_is_accepted_exactly_where_it_keeps_the_rules(
            content->Ok_0->Ok_0@,
        );
    }
}

/// Ports are projected exactly where they are a range with a tail or a list; they come out
/// in ascending order.
pub proof fn law_projected_ports_are_those_that_were_meant(
    l: &ListenPorts,
    r: Result<Vec<u16>, ConfigError>,
    port: u16,
)
    requires
        call_ensures(ListenPorts::project, (l,), r),
    ensures
        r is Ok <==> rules::ports_ok(l@),
        r matches Ok(v) ==> (v@.contains(port) <==> match l@.ports {
            Some(ports) => ports.contains(port),
            None => l@.range_start->0 <= port < l@.range_end->0 && rules::has_tail(
                port as int,
                l@.suffix->0,
            ),
        }),
        r matches Ok(v) ==> forall|i: int, j: int| 0 <= i < j < v@.len() ==> v@[i] < v@[j],
{
    rules::law_ports_are_a_range_with_a_tail_or_a_list(l@);
}

/// A literal target is refused exactly where it is of the other family or packets may not
/// be sent on to it; the classes and the families of addresses are what they are.
pub proof fn law_addresses_are_classed(
    family: AddressFamily,
    ip: IpAddr,
    name: &str,
    verdict: Result<(), ConfigError>,
    documentation: bool,
    matching: bool,
)
    requires
        call_ensures(config::validate_target_address, (family, ip, name), verdict),
        call_ensures(config::is_documentation_address, (ip,), documentation),
        call_ensures(AddressFamily::matches, (family, ip), matching),
    ensures
        verdict is Ok <==> rules::of_family(ip, family) && rules::reachable(ip),
        documentation <==> rules::for_documentation(ip),
        matching <==> rules::of_family(ip, family),
{
    rules::law_addresses_have_their_classes(ip);
    rules::law_families_are_told_apart(family, ip);
}

// Host names.

/// An answer with a usable address makes the host healthy and tells whether its address
/// changed; one without is refused and changes nothing.
pub proof fn law_answer_is_accepted_where_it_is_usable(
    s: &mut DnsStatus,
    family: AddressFamily,
    answer: DnsAnswer,
    now: u64,
    jitter: u64,
    r: Result<bool, String>,
)
    requires
        call_ensures(DnsStatus::accept_answer, (s, family, answer, now, jitter), r),
        now + 900 <= u64::MAX,
    ensures
        r is Ok <==> lookups::any_usable(family, answer@.addresses),
        r matches Ok(changed) ==> {
            let d = final(s)@;
            &&& changed <==> d.active_address != old(s)@.active_address
            &&& d.host == old(s)@.host
            &&& d.status == Health::Healthy
            &&& d.failure_reason is None
            &&& d.last_success_unix == Some(now)
            &&& d.cache_written_unix == Some(now)
            &&& d.active_address matches Some(ip)
            &&& lookups::chosen(ip, old(s)@.active_address, family, answer@.addresses)
            &&& d.next_refresh_unix matches Some(at)
            &&& 60 <= at - now <= 900
            &&& at - now == dns::delay_seconds(answer@.ttl, jitter)
        },
        r matches Err(e) ==> final(s)@ == old(s)@ && e@ == lookups::nothing_usable(
            old(s)@.host,
            family,
        ),
{
    lookups::law_answer_needs_a_usable_address(family, answer@.addresses);
    if lookups::any_usable(family, answer@.addresses) {
        lookups::law_answer_makes_healthy(old(s)@, family, answer@, now, jitter);
        lookups::law_delay_is_half_the_lifetime_in_seconds(answer@.ttl, jitter);
    }
}

/// A failure keeps the address and is told; it is retried in 60 seconds.
pub proof fn law_recorded_failure_keeps_the_address(
    s: &mut DnsStatus,
    reason: String,
    now: u64,
    r: (),
)
    requires
        call_ensures(DnsStatus::record_failure, (s, reason, now), r),
        now + 60 <= u64::MAX,
    ensures
        final(s)@.host == old(s)@.host,
        final(s)@.active_address == old(s)@.active_address,
        final(s)@.last_success_unix == old(s)@.last_success_unix,
        final(s)@.cache_written_unix == old(s)@.cache_written_unix,
        final(s)@.failure_reason == Some(reason@),
        final(s)@.next_refresh_unix == Some((now + 60) as u64),
        final(s)@.status == if old(s)@.active_address is Some {
            Health::Degraded
        } else {
            Health::Failed
        },
{
}

/// A cached address may be restored for 3600 seconds.
pub proof fn law_cache_may_be_restored_for_an_hour(s: &DnsStatus, now: u64, r: bool)
    requires
        call_ensures(DnsStatus::can_restore_cache, (s, now), r),
    ensures
        r <==> s@.active_address is Some && (s@.cache_written_unix matches Some(at) && now - at
            <= 3600),
{
}

/// The delay to the next lookup.
pub proof fn law_delay_follows_the_lifetime(ttl: Duration, jitter: u64, r: Duration)
    requires
        call_ensures(dns::refresh_delay, (ttl, jitter), r),
    ensures
        ({
            let added = if jitter > 15 {
                15
            } else {
                jitter as int
            };
            let half = (ttl.seconds() / 2) as int;
            &&& half < 60 ==> r.seconds() == 60 + added
            &&& half >= 60 && half + added <= 900 ==> r.seconds() == half + added
            &&& half + added > 900 ==> r.seconds() == 900
        }),
{
    lookups::law_delay_is_half_the_lifetime_in_seconds(ttl.seconds(), jitter);
}

/// A host that was never looked up has failed, and has neither an address nor a time.
pub proof fn law_new_host_knows_nothing(host: String, r: DnsStatus)
    requires
        call_ensures(DnsStatus::new, (host,), r),
    ensures
        r@.host == host@,
        r@.active_address is None,
        r@.last_success_unix is None,
        r@.next_refresh_unix is None,
        r@.cache_written_unix is None,
        r@.status == Health::Failed,
        r@.failure_reason is None,
{
}

// Activation.

/// The cached state for a name is that of the first status with the name.
pub proof fn law_cached_state_is_found_by_name(
    v: Seq<ProfileStatusView>,
    name: Seq<char>,
    i: int,
)
    requires
        0 <= i < v.len(),
        v[i].name == name,
        forall|j: int| 0 <= j < i ==> (#[trigger] v[j]).name != name,
    ensures
        profile::cached_dns(v, name) == v[i].dns,
    decreases v.len(),
{
    if i > 0 {
        let rest = v.drop_first();
        assert(v[0].name != name);
        assert(rest[i - 1] == v[i]);
        assert forall|j: int| 0 <= j < i - 1 implies (#[trigger] rest[j]).name != name by {
            assert(rest[j] == v[j + 1]);
        }
        law_cached_state_is_found_by_name(rest, name, i - 1);
    }
}

/// Without a status of the name there is no cached state.
pub proof fn law_unknown_name_has_no_cached_state(v: Seq<ProfileStatusView>, name: Seq<char>)
    requires
        forall|j: int| 0 <= j < v.len() ==> (#[trigger] v[j]).name != name,
    ensures
        profile::cached_dns(v, name) is None,
    decreases v.len(),
{
    if v.len() > 0 {
        let rest = v.drop_first();
        assert(v[0].name != name);
        assert forall|j: int| 0 <= j < rest.len() implies (#[trigger] rest[j]).name != name by {
            assert(rest[j] == v[j + 1]);
        }
        law_unknown_name_has_no_cached_state(rest, name);
    }
}

/// The profile is activated as its target says: a literal target with its own address, a
/// host name with the address of its first state, and any other one without.
pub open spec fn activated_as(
    v: ValidatedView,
    p: ActiveProfileView,
    cached: Option<DnsStatusView>,
    finding: Finding,
    now: u64,
) -> bool {
    &&& p.resolved.validated == v
    &&& match v.profile.target {
        TargetView::Remote { host, .. } => match address::ip_of(host) {
            Some(ip) => p.dns is None && p.resolved.destination == Some(ip),
            None => {
                &&& p.dns matches Some(s)
                &&& s.host == host
                &&& p.resolved.destination == s.active_address
                &&& s.active_address is Some
                &&& dns::first_state(
                    host,
                    v.profile.family,
                    cached,
                    finding.lookup,
                    finding.jitter,
                    now,
                ) == Ok::<DnsStatusView, Seq<char>>(s)
            },
        },
        _ => p.dns is None && p.resolved.destination is None,
    }
}

/// Profiles are built one for each, each as its target says, with what the resolver
/// answered for its own host name and the state that was cached for its own name.
pub proof fn law_built_profiles_are_activated_as_they_say<R: NameResolver + ?Sized>(
    validated: Vec<ValidatedProfile>,
    prior: &RuntimeState,
    resolver: &R,
    now: u64,
    r: Result<Vec<ActiveProfile>, String>,
) -> (findings: Seq<Finding>)
    requires
        call_ensures(
            profile::build_active_profiles::<R>,
            (validated, prior, resolver, now),
            r,
        ),
        now + 900 <= u64::MAX,
    ensures
        r matches Ok(all) ==> all@.len() == validated@.len() && forall|i: int|
            0 <= i < validated@.len() ==> activated_as(
                #[trigger] validated@[i]@,
                all@[i]@,
                profile::cached_dns(prior@.profiles, validated@[i]@.profile.name),
                findings[i],
                now,
            ),
        r is Ok ==> forall|i: int|
            #![trigger validated@[i]]
            0 <= i < validated@.len() && (validated@[i]@.profile.target is Remote
                && address::ip_of(validated@[i]@.profile.target->host) is None) ==> exists|
                asked: &str,
                lookup: Result<DnsAnswer, String>,
            | #[trigger]
                call_ensures(R::lookup, (resolver, asked), lookup) && asked@
                    == validated@[i]@.profile.target->host && dns::lookup_view(lookup)
                    == findings[i].lookup,
{
    let vs = config::validated_views(validated@);
    let findings = choose|findings: Seq<Finding>| #[trigger]
        profile::built_from(resolver, vs, prior@, findings, now, profile::build_view(r));
    if r is Ok {
        let all = profile::active_views(r->Ok_0@);
        assert(all == profile::built(vs, prior@, findings, now)->Ok_0);
        assert forall|i: int| 0 <= i < validated@.len() implies activated_as(
            #[trigger] validated@[i]@,
            r->Ok_0@[i]@,
            profile::cached_dns(prior@.profiles, validated@[i]@.profile.name),
            findings[i],
            now,
        ) by {
            assert(vs[i] == validated@[i]@);
            laws::law_destination_is_the_active_address(vs, prior@, findings, now, i);
            laws::law_built_profiles_have_destinations(vs, prior@, findings, now, i);
            laws::lemma_built(vs, prior@, findings, now, i);
            assert(all[i] == r->Ok_0@[i]@);
            let host = profile::host_name(vs[i]);
            if host is Some {
                lookups::law_first_state_of_a_host(
                    host->0,
                    vs[i].profile.family,
                    profile::cached_dns(prior@.profiles, vs[i].profile.name),
                    findings[i].lookup,
                    findings[i].jitter,
                    now,
                );
            }
        }
        if validated@.len() > 0 {
            laws::lemma_built(vs, prior@, findings, now, 0);
        } else {
            assert(findings =~= Seq::empty());
        }
        assert forall|i: int|
            #![trigger validated@[i]]
            0 <= i < validated@.len() && (validated@[i]@.profile.target is Remote
                && address::ip_of(validated@[i]@.profile.target->host) is None) implies exists|
            asked: &str,
            lookup: Result<DnsAnswer, String>,
        | #[trigger]
            call_ensures(R::lookup, (resolver, asked), lookup) && asked@
                == validated@[i]@.profile.target->host && dns::lookup_view(lookup)
                == findings[i].lookup by {
            assert(vs[i] == validated@[i]@);
            let host = validated@[i]@.profile.target->host;
            assert(profile::host_name(vs[i]) == Some(host));
            assert(profile::found_by(resolver, host, findings[i]));
            let (asked, lookup) = choose|asked: &str, lookup: Result<DnsAnswer, String>|
                {
                    &&& asked@ == host
                    &&& #[trigger] dns::answers(resolver, asked, lookup)
                    &&& dns::lookup_view(lookup) == findings[i].lookup
                };
            assert(call_ensures(R::lookup, (resolver, asked), lookup));
        }
    }
    findings
}

// Refreshing.

/// A refresh looks up what is due, takes over what was answered, and leaves the others
/// alone.
pub proof fn law_refreshed_profiles_are_what_was_found<R: NameResolver + ?Sized>(
    active: &Vec<ActiveProfile>,
    resolver: &R,
    now: u64,
    r: Cycle,
) -> (findings: Seq<Finding>)
    requires
        call_ensures(refresh::refresh_profiles::<R>, (active, resolver, now), r),
        now + 900 <= u64::MAX,
    ensures
        refresh::cycled_from(
            resolver,
            profile::active_views(active@),
            findings,
            now,
            r@,
        ),
        r@.active.len() == active@.len(),
        forall|i: int|
            0 <= i < active@.len() ==> lookups::refreshed_as(
                #[trigger] active@[i]@,
                r@.active[i],
                findings[i],
                now,
                r@.notes,
            ),
        r@.attempted <==> exists|i: int|
            0 <= i < active@.len() && lookups::overdue(#[trigger] active@[i]@, now),
{
    let all = profile::active_views(active@);
    let findings = choose|findings: Seq<Finding>| #[trigger]
        refresh::cycled_from(resolver, all, findings, now, r@);
    assert forall|i: int| 0 <= i < active@.len() implies lookups::refreshed_as(
        #[trigger] active@[i]@,
        r@.active[i],
        findings[i],
        now,
        r@.notes,
    ) by {
        assert(all[i] == active@[i]@);
        lookups::law_refresh_looks_up_exactly_what_is_due(all, findings, now, i);
    }
    lookups::lemma_flags(all, findings, now);
    if r@.attempted {
        let i = choose|i: int| 0 <= i < findings.len() && refresh::due(#[trigger] all[i], now);
        assert(lookups::overdue(active@[i]@, now));
    }
    if exists|i: int| 0 <= i < active@.len() && lookups::overdue(#[trigger] active@[i]@, now) {
        let i = choose|i: int|
            0 <= i < active@.len() && lookups::overdue(#[trigger] active@[i]@, now);
        assert(refresh::due(all[i], now));
    }
    findings
}

/// What a refresh asks for follows from whether it changed an address and whether it
/// looked one up; its events get the time at which they are kept.
pub proof fn law_settled_refresh_keeps_its_events(
    d: &mut DaemonData,
    cycle: Cycle,
    now: u64,
    r: (Plan, Vec<LogEvent>),
)
    requires
        call_ensures(DaemonData::settle_refresh, (d, cycle, now), r),
    ensures
        cycle.switched ==> r.0@ == (PlanView::Switch { active: cycle@.active }),
        !cycle.switched && cycle.attempted ==> r.0@ == (PlanView::Keep { active: cycle@.active }),
        !cycle.switched && !cycle.attempted ==> r.0@ == PlanView::Idle,
        r.1@.len() == cycle.notes@.len(),
        forall|i: int|
            0 <= i < cycle.notes@.len() ==> (#[trigger] r.1@[i])@ == (LogEventView {
                timestamp_unix: now,
                level: cycle.notes@[i].level@,
                message: cycle.notes@[i].message@,
            }),
        final(d)@.state == old(d)@.state,
        final(d)@.active == old(d)@.active,
        final(d)@.allow_external_chains == old(d)@.allow_external_chains,
        final(d)@.logs == runtime::logged_all(old(d)@.logs, control::event_views(r.1@)),
{
    let events = control::event_views(r.1@);
    let stamped = control::events_at(cycle@.notes, now);
    assert(events.len() == r.1@.len());
    assert(stamped.len() == cycle.notes@.len());
    assert forall|i: int| 0 <= i < cycle.notes@.len() implies (#[trigger] r.1@[i])@ == (
    LogEventView {
        timestamp_unix: now,
        level: cycle.notes@[i].level@,
        message: cycle.notes@[i].message@,
    }) by {
        assert(events[i] == r.1@[i]@);
        assert(stamped[i] == cycle@.notes[i].at(now));
        assert(cycle@.notes[i] == cycle.notes@[i]@);
    }
}

// Reloads.

/// A reload that cannot be begun tells why, and one of which a host name is the reason is
/// kept as an error; one that is begun goes to work on the profiles of the configuration.
pub proof fn law_reload_is_begun_with_a_deployable_configuration<R: NameResolver + ?Sized>(
    d: &mut DaemonData,
    path: &str,
    content: Result<Result<Config, String>, String>,
    resolver: &R,
    reason: &str,
    now: u64,
    r: (Vec<LogEvent>, Result<Commit, String>),
)
    requires
        call_ensures(
            DaemonData::begin_reload::<R>,
            (d, path, content, resolver, reason, now),
            r,
        ),
    ensures
        ({
            let deployable = content matches Ok(Ok(c)) && config::deployable_fault(c@) is None;
            &&& r.1 is Ok ==> deployable
            &&& r.1 matches Ok(commit) ==> {
                let c = content->Ok_0->Ok_0@;
                &&& commit@.prior == old(d)@.state
                &&& commit@.reason == reason@
                &&& commit@.allow_external_chains == c.allow_external_chains
                &&& commit@.candidates.len() == c.profiles.len()
                &&& commit@ == CommitView::start(
                    commit@.candidates,
                    old(d)@.state,
                    reason@,
                    c.allow_external_chains,
                )
            }
            &&& !deployable ==> final(d)@ == old(d)@ && r.0@.len() == 0
            &&& final(d)@.logs == runtime::logged_all(old(d)@.logs, control::event_views(r.0@))
            &&& r.1 matches Ok(commit) ==> control::event_views(r.0@) == control::events_at(
                profile::fallbacks(commit@.candidates),
                now,
            )
            &&& content matches Err(cause) ==> r.1->Err_0@ == "cannot read configuration "@ + path@
                + ": "@ + cause@ + ": "@ + cause@
            &&& deployable && r.1 is Err ==> r.0@.len() == 1 && r.0@[0]@.level == "error"@
                && r.0@[0]@.timestamp_unix == now && r.0@[0]@.message
                == "configuration reload failed ("@ + reason@ + "): "@ + r.1->Err_0@
            &&& final(d)@.state == old(d)@.state
            &&& final(d)@.active == old(d)@.active
            &&& final(d)@.allow_external_chains == old(d)@.allow_external_chains
        }),
{
    let events = control::event_views(r.0@);
    if r.1 is Err && r.0@.len() > 0 {
        assert(events[0] == r.0@[0]@);
        assert(events.drop_last() =~= Seq::empty());
        assert(events.last() == events[0]);
        assert(runtime::logged_all(old(d)@.logs, events.drop_last()) == old(d)@.logs);
    }
    if r.0@.len() == 0 {
        assert(events =~= Seq::empty());
    }
    if runtime::reload_fault(path@, content) is None {
        let c = content->Ok_0->Ok_0@;
        let findings = choose|findings: Seq<Finding>| #[trigger]
            runtime::reloads_with(
                resolver,
                c,
                old(d)@.state,
                reason@,
                findings,
                now,
                runtime::commit_view(r.1),
            );
        let vs = config::all_normalized(c.profiles);
        if r.1 is Ok && vs.len() > 0 {
            laws::lemma_built(vs, old(d)@.state, findings, now, 0);
        }
        if r.1 is Err {
            assert(control::event_views(r.0@).len() == 1);
        }
    }
}

/// The daemon goes one step on, keeps the event of that, and takes over what is saved.
pub proof fn law_daemon_goes_one_step_on(
    d: &mut DaemonData,
    c: &mut Commit,
    outcome: Outcome,
    now: u64,
    r: Option<LogEvent>,
)
    requires
        call_ensures(DaemonData::advance, (d, c, outcome, now), r),
    ensures
        final(c)@ == old(c)@.after(outcome@, now),
        final(d)@.state == old(d)@.committing(old(c)@).state,
        final(d)@.active == old(d)@.committing(old(c)@).active,
        r matches Some(event) ==> Some(event@) == old(c)@.note(outcome@, now) && final(d)@.logs.len()
            > 0 && final(d)@.logs.last() == event@,
        r is None ==> old(c)@.note(outcome@, now) is None && final(d)@.logs == old(d)@.logs,
{
}

// The wizard.

/// The wizard takes a line exactly where it answers the question at hand, and a line that
/// it refuses changes nothing.
pub proof fn law_wizard_takes_what_answers(w: &mut Wizard, line: &str, r: Result<(), String>)
    requires
        call_ensures(Wizard::answer, (w, line), r),
    ensures
        r is Ok <==> dialogue::acceptable(old(w)@, line@),
        r is Ok ==> old(w)@.told(line@) == Ok::<WizardView, Seq<char>>(final(w)@),
        r is Err ==> final(w)@ == old(w)@,
{
    dialogue::law_line_is_taken_exactly_where_it_answers(old(w)@, line@);
}

/// The wizard starts with the listener, where there are addresses to choose from.
pub proof fn law_wizard_starts_with_addresses(
    found: Result<Vec<InterfaceAddress>, String>,
    r: Result<Wizard, String>,
)
    requires
        call_ensures(Wizard::start, (found,), r),
    ensures
        r is Ok <==> found is Ok && found->Ok_0@.len() > 0,
        r matches Ok(w) ==> w@.question == Question::Listener && w@.addresses
            == host::interface_views(found->Ok_0@) && w@ == WizardView::start(w@.addresses),
        found matches Err(e) ==> r->Err_0@ == e@,
{
}

/// The wizard hands its text on exactly where what was parsed of it keeps the rules.
pub proof fn law_wizard_hands_on_what_keeps_the_rules(
    w: &Wizard,
    parsed: Result<Config, String>,
    r: Result<String, String>,
)
    requires
        call_ensures(wizard::interactive_wizard, (w, parsed), r),
    ensures
        r is Ok <==> (parsed matches Ok(c) && rules::config_ok(c@)),
        r matches Ok(body) ==> body@ == wizard::body(w@.draft),
{
    if parsed is Ok {
        rules::law_configuration_is_accepted_exactly_where_it_keeps_the_rules(parsed->Ok_0@);
    }
}

/// Our own tables are seen exactly where they are listed, by family and name.
pub proof fn law_own_tables_are_seen(tables: &Vec<TableName>, r: OwnTables)
    requires
        call_ensures(nft::own_tables, (tables,), r),
    ensures
        r.ipv4 <==> exists|i: int|
            0 <= i < tables@.len() && (#[trigger] tables@[i]).family@ == "ip"@ && tables@[i].name@
                == "port_forward_v4"@,
        r.ipv6 <==> exists|i: int|
            0 <= i < tables@.len() && (#[trigger] tables@[i]).family@ == "ip6"@ && tables@[i].name@
                == "port_forward_v6"@,
{
    let all = nft::table_views(tables@);
    let four = TableNameView { family: "ip"@, name: "port_forward_v4"@ };
    let six = TableNameView { family: "ip6"@, name: "port_forward_v6"@ };
    if r.ipv4 {
        let i = choose|i: int| 0 <= i < all.len() && all[i] == four;
        assert(all[i] == tables@[i]@);
    }
    if r.ipv6 {
        let i = choose|i: int| 0 <= i < all.len() && all[i] == six;
        assert(all[i] == tables@[i]@);
    }
    if exists|i: int|
        0 <= i < tables@.len() && (#[trigger] tables@[i]).family@ == "ip"@ && tables@[i].name@
            == "port_forward_v4"@ {
        let i = choose|i: int|
            0 <= i < tables@.len() && (#[trigger] tables@[i]).family@ == "ip"@ && tables@[i].name@
                == "port_forward_v4"@;
        assert(all[i] == four);
    }
    if exists|i: int|
        0 <= i < tables@.len() && (#[trigger] tables@[i]).family@ == "ip6"@ && tables@[i].name@
            == "port_forward_v6"@ {
        let i = choose|i: int|
            0 <= i < tables@.len() && (#[trigger] tables@[i]).family@ == "ip6"@ && tables@[i].name@
                == "port_forward_v6"@;
        assert(all[i] == six);
    }
}

/// The candidates of an answer are its usable addresses, in the order of their texts.
pub proof fn law_candidates_are_the_usable_addresses(
    family: AddressFamily,
    addresses: &Vec<IpAddr>,
    host: &str,
    r: Result<Vec<IpAddr>, String>,
    ip: IpAddr,
)
    requires
        call_ensures(dns::valid_candidates, (family, addresses, host), r),
    ensures
        r is Ok <==> lookups::any_usable(family, addresses@),
        r matches Ok(v) ==> (v@.contains(ip) <==> lookups::usable(ip, family, addresses@)),
        r matches Ok(v) ==> forall|i: int, j: int|
            0 <= i < j < v@.len() ==> text::precedes(
                address::shown(#[trigger] v@[i]),
                address::shown(#[trigger] v@[j]),
            ),
        r matches Err(e) ==> e@ == lookups::nothing_usable(host@, family),
{
    lookups::law_answer_needs_a_usable_address(family, addresses@);
    rules::law_addresses_have_their_classes(ip);
    rules::law_families_are_told_apart(family, ip);
}

/// A literal host is not looked up and has its own address; any other one has the state
/// that an answer of the resolver for it, or the failure of that, makes of what is
/// cached.
pub proof fn law_host_has_the_state_of_its_lookup<R: NameResolver + ?Sized>(
    host: &str,
    family: AddressFamily,
    cached: Option<&DnsStatus>,
    resolver: &R,
    now: u64,
    r: Result<DnsStatus, String>,
)
    requires
        call_ensures(dns::resolve_initial::<R>, (host, family, cached, resolver, now), r),
        now + 900 <= u64::MAX,
    ensures
        address::ip_of(host@) matches Some(ip) ==> (r is Ok <==> rules::of_family(ip, family)
            && rules::reachable(ip)) && (r matches Ok(s) ==> s@.active_address == Some(ip)),
        address::ip_of(host@) is None ==> exists|lookup: Result<DnsAnswer, String>, jitter: u64|
            {
                &&& #[trigger] call_ensures(R::lookup, (resolver, host), lookup)
                &&& jitter <= 15
                &&& dns::resolved_view(r) == #[trigger] dns::first_state(
                    host@,
                    family,
                    dns::option_status_ref(cached),
                    dns::lookup_view(lookup),
                    jitter,
                    now,
                )
            },
{
    if address::ip_of(host@) is Some {
        lookups::law_literal_host_has_its_address(
            host@,
            family,
            address::ip_of(host@)->0,
            now,
        );
    } else {
        let (lookup, jitter) = choose|lookup: Result<DnsAnswer, String>, jitter: u64|
            {
                &&& #[trigger] dns::answers(resolver, host, lookup)
                &&& jitter <= dns::MAX_JITTER
                &&& dns::resolved_view(r) == #[trigger] dns::first_state(
                    host@,
                    family,
                    dns::option_status_ref(cached),
                    dns::lookup_view(lookup),
                    jitter,
                    now,
                )
            };
        assert(call_ensures(R::lookup, (resolver, host), lookup));
    }
}

/// A lookup makes the first state of its host.
pub proof fn law_lookup_makes_the_first_state(
    host: &str,
    family: AddressFamily,
    cached: Option<&DnsStatus>,
    lookup: Result<DnsAnswer, String>,
    jitter: u64,
    now: u64,
    r: Result<DnsStatus, String>,
)
    requires
        call_ensures(dns::resolve_lookup, (host, family, cached, lookup, jitter, now), r),
        now + 900 <= u64::MAX,
    ensures
        ({
            let same = cached is Some && cached->0@.host == host@;
            match lookup {
                Ok(answer) => {
                    &&& r is Ok <==> lookups::any_usable(family, answer@.addresses)
                    &&& r matches Ok(s) ==> s@.host == host@ && s@.status == Health::Healthy && (
                    s@.active_address matches Some(ip) && lookups::usable(
                        ip,
                        family,
                        answer@.addresses,
                    ))
                },
                Err(_) => {
                    &&& r is Ok <==> same && cached->0@.active_address is Some && (
                    cached->0@.cache_written_unix matches Some(at) && now - at <= 3600)
                    &&& r matches Ok(s) ==> s@.host == host@ && s@.status == Health::Degraded
                        && s@.active_address == cached->0@.active_address
                },
            }
        }),
{
    lookups::law_first_state_of_a_host(
        host@,
        family,
        dns::option_status_ref(cached),
        dns::lookup_view(lookup),
        jitter,
        now,
    );
}

/// A clock that stands before the epoch reads zero.
pub proof fn law_clock_is_read_as_it_stands(reading: Option<u64>, r: u64)
    requires
        call_ensures(dns::unix_now, (reading,), r),
    ensures
        reading matches Some(at) ==> r == at,
        reading is None ==> r == 0,
{
}

/// The sources of a profile are those that are configured, or every source of its family
/// where none are, exactly where each is a range of the family and stands once.
pub proof fn law_sources_are_those_configured(
    family: AddressFamily,
    configured: &Vec<String>,
    name: &str,
    r: Result<Vec<String>, ConfigError>,
)
    requires
        call_ensures(config::validate_source_cidrs, (family, configured, name), r),
    ensures
        r matches Ok(v) ==> configured@.len() > 0 ==> text::texts(v@) == text::texts(configured@),
        r matches Ok(v) ==> configured@.len() == 0 ==> text::texts(v@) == seq![
            (if family == AddressFamily::Ipv4 {
                "0.0.0.0/0"@
            } else {
                "::/0"@
            }),
        ],
        r is Ok ==> forall|i: int|
            0 <= i < configured@.len() ==> rules::source_range(
                family,
                (#[trigger] configured@[i])@,
            ),
{
    let all = text::texts(configured@);
    let sources = config::effective_sources(family, all);
    let at = |i: int| config::source_fault_at(family, sources, name@, i);
    config::lemma_no_fault(at, sources.len() as int);
    if r is Ok {
        assert forall|i: int| 0 <= i < configured@.len() implies rules::source_range(
            family,
            (#[trigger] configured@[i])@,
        ) by {
            assert(all[i] == configured@[i]@);
            assert(at(i) is None);
            rules::law_sources_are_ranges_of_the_family(family, all[i], name@);
        }
    }
}

/// One profile is refreshed as it was found.
pub proof fn law_one_profile_is_refreshed_as_it_was_found(
    p: ActiveProfile,
    lookup: Result<DnsAnswer, String>,
    jitter: u64,
    now: u64,
    r: Refreshed,
)
    requires
        call_ensures(refresh::refresh_profile, (p, lookup, jitter, now), r),
        now + 900 <= u64::MAX,
        lookups::overdue(p@, now),
    ensures
        lookups::refreshed_as(
            p@,
            r@.profile,
            Finding { lookup: dns::lookup_view(lookup), jitter },
            now,
            match r@.note {
                Some(n) => seq![n],
                None => Seq::empty(),
            },
        ),
        r@.switched <==> r@.profile.dns->0.active_address != p@.dns->0.active_address,
{
    let finding = Finding { lookup: dns::lookup_view(lookup), jitter };
    lookups::lemma_refreshed_alone(p@, finding, now);
}

/// The daemon refreshes its own profiles, and stays as it is until the refresh is
/// settled.
pub proof fn law_daemon_refreshes_its_profiles<R: NameResolver + ?Sized>(
    d: &DaemonData,
    resolver: &R,
    now: u64,
    r: Cycle,
)
    requires
        call_ensures(DaemonData::begin_refresh::<R>, (d, resolver, now), r),
        now + 900 <= u64::MAX,
    ensures
        exists|findings: Seq<Finding>| #[trigger]
            refresh::cycled_from(resolver, d@.active, findings, now, r@),
        r@.active.len() == d@.active.len(),
        forall|i: int|
            0 <= i < d@.active.len() && !lookups::overdue(#[trigger] d@.active[i], now)
                ==> r@.active[i] == d@.active[i],
{
    let findings = choose|findings: Seq<Finding>| #[trigger]
        refresh::cycled_from(resolver, d@.active, findings, now, r@);
    lookups::lemma_flags(d@.active, findings, now);
    assert forall|i: int|
        0 <= i < d@.active.len() && !lookups::overdue(
            #[trigger] d@.active[i],
            now,
        ) implies r@.active[i] == d@.active[i] by {
        lookups::law_refresh_looks_up_exactly_what_is_due(d@.active, findings, now, i);
    }
}

/// A loaded configuration is well exactly where it can be deployed.
pub proof fn law_loaded_configuration_is_checked(
    loaded: &Result<Config, ConfigError>,
    r: Result<(), String>,
)
    requires
        call_ensures(config::check_loaded, (loaded,), r),
    ensures
        r is Ok <==> (*loaded matches Ok(c) && rules::config_ok(c@) && c@.profiles.len() > 0
            && forall|i: int|
            0 <= i < c@.profiles.len() ==> rules::genuine(#[trigger] c@.profiles[i])),
        *loaded matches Err(e) ==> r->Err_0@ == e.spec_message(),
{
    if *loaded is Ok {
        rules::law_configuration_is_deployable_exactly_where_it_is_real(loaded->Ok_0@);
    }
}

/// An error is told with what it is and its reason.
pub proof fn law_error_is_told_with_its_reason(e: &ConfigError, r: String, chain: String)
    requires
        call_ensures(ConfigError::message, (e,), r),
        call_ensures(ConfigError::chain, (e,), chain),
    ensures
        *e matches ConfigError::Read { path, source } ==> r@ == "cannot read configuration "@
            + path@ + ": "@ + source@ && chain@ == r@ + ": "@ + source@,
        *e matches ConfigError::Toml(reason) ==> r@ == "invalid TOML: "@ + reason@ && chain@ == r@
            + ": "@ + reason@,
        *e matches ConfigError::Semantic(reason) ==> r@ == "configuration error: "@ + reason@
            && chain@ == r@,
{
}

/// The profiles of a batch are those that are active, in order, and each sends to its
/// destination, to 127.0.0.1, or nowhere else.
pub proof fn law_resolved_profiles_are_the_active_ones(
    v: &Vec<ActiveProfile>,
    r: Vec<ResolvedProfile>,
    i: int,
    target: Option<IpAddr>,
)
    requires
        call_ensures(profile::resolved_profiles, (v,), r),
        0 <= i < v@.len(),
        i < r@.len() ==> call_ensures(ResolvedProfile::target_address, (&r@[i],), target),
    ensures
        r@.len() == v@.len(),
        r@[i]@ == v@[i]@.resolved,
        v@[i]@.resolved.validated.profile.target is Remote ==> target
            == v@[i]@.resolved.destination,
        v@[i]@.resolved.validated.profile.target is Redirect ==> target is None,
        v@[i]@.resolved.validated.profile.target is LoopbackDnat ==> target == Some(
            IpAddr::V4(address::Ipv4Addr { a: 127, b: 0, c: 0, d: 1 }),
        ),
{
    let views = profile::resolved_views(r@);
    let active = profile::active_views(v@);
    assert(views.len() == r@.len());
    assert(profile::resolved_of(active).len() == v@.len());
    assert(views[i] == r@[i]@);
    assert(profile::resolved_of(active)[i] == active[i].resolved);
    assert(active[i] == v@[i]@);
}

} // verus!
