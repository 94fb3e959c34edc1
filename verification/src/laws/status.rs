//! What the status tells of the profiles and of the state.

use vstd::prelude::*;

use crate::address;
use crate::config::{AddressFamily, Protocol, TargetView};
use crate::dns::{DnsStatus, Health};
use crate::number;
use crate::profile;
use crate::profile::{ActiveProfile, ActiveProfileView};
use crate::state;
use crate::state::{ProfileStatus, ProfileStatusView, RuntimeState, RuntimeStateView};
use crate::text;

verus! {

/// The status of a profile tells of its listener, its sources, its target and its DNS
/// state as they are. It is public exactly where a source of it is the any-source range
/// of its family, and it is as healthy as its DNS state, or healthy where it has none.
pub proof fn law_status_tells_of_the_profile(active: &ActiveProfile, r: ProfileStatus)
    requires
        call_ensures(profile::profile_status, (active,), r),
    ensures
        ({
            let p = active@;
            let v = p.resolved.validated;
            let s = r@;
            &&& s.name == v.profile.name
            &&& s.family == v.profile.family
            &&& s.protocols == v.profile.protocols
            &&& s.listen_address == v.profile.listen_address
            &&& s.listen_ports == v.listen_ports
            &&& s.source_cidrs == v.source_cidrs
            &&& s.publicly_exposed <==> v.source_cidrs.contains(
                if v.profile.family == AddressFamily::Ipv4 {
                    "0.0.0.0/0"@
                } else {
                    "::/0"@
                },
            )
            &&& match v.profile.target {
                TargetView::Remote { host, port, source_mode } => {
                    &&& s.target_kind == "remote"@
                    &&& s.target_port == port
                    &&& s.target_host == Some(host)
                    &&& s.source_mode == source_mode
                    &&& p.resolved.destination matches Some(ip) ==> s.target_address == Some(
                        address::shown(ip),
                    )
                    &&& p.resolved.destination is None ==> s.target_address is None
                },
                TargetView::Redirect { port } => {
                    &&& s.target_kind == "redirect"@
                    &&& s.target_port == port
                    &&& s.target_host is None
                    &&& s.target_address is None
                    &&& s.source_mode is None
                },
                TargetView::LoopbackDnat { port } => {
                    &&& s.target_kind == "loopback-dnat"@
                    &&& s.target_port == port
                    &&& s.target_host == Some("127.0.0.1"@)
                    &&& s.target_address is Some
                    &&& address::ip_of(s.target_address->0) matches Some(ip)
                    &&& ip matches address::IpAddr::V4(four)
                    &&& (four.a, four.b, four.c, four.d) == (127u8, 0u8, 0u8, 1u8)
                    &&& s.source_mode is None
                },
            }
            &&& s.dns == p.dns
            &&& p.dns matches Some(d) ==> s.health == d.status && s.failure_reason
                == d.failure_reason
            &&& p.dns is None ==> s.health == Health::Healthy && s.failure_reason is None
        }),
{
    address::law_shown_reads_back(
        address::IpAddr::V4(address::Ipv4Addr { a: 127, b: 0, c: 0, d: 1 }),
    );
}

/// Each profile has its status, in order.
pub proof fn law_statuses_are_those_of_the_profiles(v: Seq<ActiveProfileView>, i: int)
    requires
        0 <= i < v.len(),
    ensures
        profile::statuses(v).len() == v.len(),
        profile::statuses(v)[i] == profile::status_of(v[i]),
{
}

/// Without the daemon, a profile whose next lookup is due is shown as degraded, with the
/// reason; nothing else of the state is changed.
pub proof fn law_overdue_profile_is_degraded(
    given: RuntimeState,
    now: u64,
    r: RuntimeState,
    i: int,
)
    requires
        call_ensures(state::mark_refresh_expired, (given, now), r),
        0 <= i < given@.profiles.len(),
    ensures
        ({
            let p = given@.profiles[i];
            let q = r@.profiles[i];
            let due = p.dns is Some && (p.dns->0.next_refresh_unix matches Some(at) && at <= now);
            &&& r@.profiles.len() == given@.profiles.len()
            &&& !due ==> q == p
            &&& due ==> q.health == Health::Degraded && q.failure_reason == Some(
                "daemon unavailable; DNS refresh is overdue"@,
            )
            &&& q == (ProfileStatusView {
                health: q.health,
                failure_reason: q.failure_reason,
                ..p
            })
            &&& r@ == (RuntimeStateView { profiles: r@.profiles, ..given@ })
        }),
{
}

/// An empty state has the first schema, no versions, no profiles and no settings, and
/// the time for its start and its update.
pub proof fn law_empty_state_is_empty(now: u64, r: RuntimeState)
    requires
        call_ensures(RuntimeState::empty, (now,), r),
    ensures
        r@.schema_version == 1,
        r@.config_version == 0,
        r@.nft_rules_version == 0,
        r@.daemon_started_unix == now,
        r@.updated_unix == now,
        r@.profiles.len() == 0,
        forall|interface: Seq<char>| !r@.route_localnet_original.contains_key(interface),
{
}

/// The age of a cache: the seconds since it was written, or none where it was not.
pub proof fn law_cache_age_counts_from_its_writing(s: &DnsStatus, now: u64, r: Option<u64>)
    requires
        call_ensures(DnsStatus::cache_age_seconds, (s, now), r),
    ensures
        s.cache_written_unix is None ==> r is None,
        s.cache_written_unix matches Some(at) ==> r matches Some(age) && (at <= now ==> age == now
            - at) && (at > now ==> age == 0),
{
}

// The human form.

/// The names of the protocols.
pub open spec fn protocol_texts(v: Seq<Protocol>) -> Seq<Seq<char>> {
    v.map_values(
        |p: Protocol|
            if p == Protocol::Tcp {
                "Tcp"@
            } else {
                "Udp"@
            },
    )
}

/// The line of a profile.
pub open spec fn told(p: ProfileStatusView, now: u64) -> Seq<char> {
    "- "@ + p.name + ": "@ + (if p.family == AddressFamily::Ipv4 {
        "Ipv4"@
    } else {
        "Ipv6"@
    }) + " "@ + ("["@ + text::joined(protocol_texts(p.protocols), ", "@) + "]"@) + " "@
        + p.listen_address + ":"@ + ("["@ + text::joined(
        p.listen_ports.map_values(|port: u16| number::decimal(port as nat)),
        ", "@,
    ) + "]"@) + " -> "@ + (match (p.target_address, p.target_host) {
        (Some(address), _) => address,
        (None, Some(host)) => host,
        (None, None) => "-"@,
    }) + ":"@ + number::decimal(p.target_port as nat) + " ["@ + (match p.health {
        Health::Healthy => "healthy"@,
        Health::Degraded => "degraded"@,
        Health::Failed => "failed"@,
    }) + (if p.publicly_exposed {
        ", public"@
    } else {
        ""@
    }) + "; cache "@ + (match p.dns {
        Some(d) => match d.cache_written_unix {
            Some(at) => number::decimal(
                (if now >= at {
                    now - at
                } else {
                    0
                }) as nat,
            ) + "s"@,
            None => "-"@,
        },
        None => "-"@,
    }) + "]\n"@
}

proof fn lemma_line(p: ProfileStatusView, now: u64)
    ensures
        state::profile_line(p, now) == told(p, now),
{
    assert(state::protocol_names(p.protocols) =~= protocol_texts(p.protocols));
    assert(state::port_texts(p.listen_ports) =~= p.listen_ports.map_values(
        |port: u16| number::decimal(port as nat),
    ));
}

proof fn lemma_lines(v: Seq<ProfileStatusView>, now: u64, i: int)
    requires
        0 <= i < v.len(),
    ensures
        text::occurs(state::profile_lines(v, now), told(v[i], now)),
    decreases v.len(),
{
    let front = state::profile_lines(v.drop_last(), now);
    let last = state::profile_line(v.last(), now);
    if i == v.len() - 1 {
        lemma_line(v[i], now);
        assert(last.subrange(0, last.len() as int) =~= last);
        assert(text::occurs_at(last, last, 0));
        text::lemma_occurs_within(front, last, Seq::empty(), last);
        assert(front + last + Seq::<char>::empty() =~= front + last);
    } else {
        lemma_lines(v.drop_last(), now, i);
        text::lemma_occurs_within(Seq::empty(), front, last, told(v[i], now));
        assert(Seq::<char>::empty() + front + last =~= front + last);
    }
}

/// The human form of a state tells its two versions and the number of its profiles, and
/// has a line for each of them with its listener, its target, its health, whether it is
/// public, and the age of its cache.
pub proof fn law_human_form_tells_of_every_profile(
    given: &RuntimeState,
    now: u64,
    r: String,
    i: int,
) -> (rest: Seq<char>)
    requires
        call_ensures(state::render_human, (given, now), r),
        0 <= i < given@.profiles.len(),
    ensures
        r@ == "config version: "@ + number::decimal(given@.config_version as nat)
            + "\nnft rules version: "@ + number::decimal(given@.nft_rules_version as nat)
            + "\nprofiles: "@ + number::decimal(given@.profiles.len()) + "\n"@ + rest,
        text::occurs(rest, told(given@.profiles[i], now)),
{
    lemma_lines(given@.profiles, now, i);
    state::profile_lines(given@.profiles, now)
}

} // verus!
