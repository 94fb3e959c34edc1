//! DNS targets: which address is active, when it is refreshed and what a failed
//! lookup leaves behind.

use vstd::prelude::*;

use crate::address;
use crate::address::IpAddr;
use crate::config;
use crate::config::AddressFamily;
use crate::text;
use crate::time::Duration;

verus! {

/// The age in seconds up to which a cached address may be restored.
pub const MAX_CACHE_AGE: u64 = 3600;

/// The shortest time in seconds between two lookups.
pub const MIN_REFRESH: u64 = 60;

/// The longest time in seconds between two lookups.
pub const MAX_REFRESH: u64 = 900;

/// The most seconds that are added to a refresh delay at random.
pub const MAX_JITTER: u64 = 15;

/// What a lookup found.
#[derive(Debug, PartialEq, Eq)]
pub struct DnsAnswer {
    pub addresses: Vec<IpAddr>,
    pub ttl: Duration,
}

/// The state of a host name.
#[derive(Debug, PartialEq, Eq)]
pub struct DnsStatus {
    pub host: String,
    pub active_address: Option<IpAddr>,
    pub last_success_unix: Option<u64>,
    pub next_refresh_unix: Option<u64>,
    pub cache_written_unix: Option<u64>,
    pub status: Health,
    pub failure_reason: Option<String>,
}

#[derive(Clone, Copy, Debug, PartialEq, Eq, Structural)]
pub enum Health {
    Healthy,
    Degraded,
    Failed,
}

#[verifier::ext_equal]
pub struct DnsAnswerView {
    pub addresses: Seq<IpAddr>,
    pub ttl: u64,
}

#[verifier::ext_equal]
pub struct DnsStatusView {
    pub host: Seq<char>,
    pub active_address: Option<IpAddr>,
    pub last_success_unix: Option<u64>,
    pub next_refresh_unix: Option<u64>,
    pub cache_written_unix: Option<u64>,
    pub status: Health,
    pub failure_reason: Option<Seq<char>>,
}

impl View for DnsAnswer {
    type V = DnsAnswerView;

    open spec fn view(&self) -> DnsAnswerView {
        DnsAnswerView { addresses: self.addresses@, ttl: self.ttl.seconds() }
    }
}

impl View for DnsStatus {
    type V = DnsStatusView;

    open spec fn view(&self) -> DnsStatusView {
        DnsStatusView {
            host: self.host@,
            active_address: self.active_address,
            last_success_unix: self.last_success_unix,
            next_refresh_unix: self.next_refresh_unix,
            cache_written_unix: self.cache_written_unix,
            status: self.status,
            failure_reason: text::option_text(self.failure_reason),
        }
    }
}

impl Clone for DnsStatus {
    fn clone(&self) -> (r: Self)
        ensures
            r@ == self@,
    {
        DnsStatus {
            host: self.host.clone(),
            active_address: self.active_address,
            last_success_unix: self.last_success_unix,
            next_refresh_unix: self.next_refresh_unix,
            cache_written_unix: self.cache_written_unix,
            status: self.status,
            failure_reason: text::clone_option(&self.failure_reason),
        }
    }
}

/// The Unix time in seconds that a reading of the system clock stands for. The
/// reading is `None` where the clock stands before the Unix epoch, which counts
/// as the epoch itself.
#[must_use]
pub fn unix_now(reading: Option<u64>) -> (r: u64)
    ensures
        r == match reading {
            Some(secs) => secs,
            None => 0,
        },
{
    match reading {
        Some(secs) => secs,
        None => 0,
    }
}

// Choosing an address.

/// `ip` is an address of the answer that may be a target of the family.
pub open spec fn candidate(ip: IpAddr, family: AddressFamily, answer: Seq<IpAddr>) -> bool {
    answer.contains(ip) && family.spec_matches(ip) && config::allowed_target(ip)
}

/// The answer holds an address that may be a target of the family.
pub open spec fn has_candidate(family: AddressFamily, answer: Seq<IpAddr>) -> bool {
    exists|ip: IpAddr| candidate(ip, family, answer)
}

/// `ip` is the candidate whose text comes first.
pub open spec fn leads(ip: IpAddr, family: AddressFamily, answer: Seq<IpAddr>) -> bool {
    &&& candidate(ip, family, answer)
    &&& forall|other: IpAddr| #[trigger]
        candidate(other, family, answer) && other != ip ==> text::precedes(
            address::shown(ip),
            address::shown(other),
        )
}

/// The candidate whose text comes first.
pub open spec fn leader(family: AddressFamily, answer: Seq<IpAddr>) -> IpAddr {
    choose|ip: IpAddr| leads(ip, family, answer)
}

/// The address that an answer makes active: the current one where it is still a
/// candidate, else the candidate whose text comes first.
pub open spec fn selected(
    current: Option<IpAddr>,
    family: AddressFamily,
    answer: Seq<IpAddr>,
) -> IpAddr {
    if current is Some && candidate(current->0, family, answer) {
        current->0
    } else {
        leader(family, answer)
    }
}

/// At most one candidate comes first.
pub proof fn lemma_leader_unique(a: IpAddr, b: IpAddr, family: AddressFamily, answer: Seq<IpAddr>)
    requires
        leads(a, family, answer),
        leads(b, family, answer),
    ensures
        a == b,
{
    if a != b {
        text::lemma_precedes_transitive(
            address::shown(a),
            address::shown(b),
            address::shown(a),
        );
        text::lemma_precedes_irreflexive(address::shown(a));
    }
}

/// The addresses are in the order of their texts, each one once.
pub open spec fn in_text_order(v: Seq<IpAddr>) -> bool {
    forall|i: int, j: int|
        0 <= i < j < v.len() ==> text::precedes(
            address::shown(#[trigger] v[i]),
            address::shown(#[trigger] v[j]),
        )
}

/// Adds `ip` to addresses in the order of their texts, unless it is there.
fn insert_in_order(v: &mut Vec<IpAddr>, ip: IpAddr)
    requires
        in_text_order(old(v)@),
    ensures
        in_text_order(final(v)@),
        forall|x: IpAddr| #[trigger]
            final(v)@.contains(x) <==> old(v)@.contains(x) || x == ip,
{
    let ghost before = v@;
    let key = text::chars_of(ip.to_text().as_str());
    let mut i: usize = 0;
    while i < v.len()
        invariant
            i <= v.len(),
            v@ == before,
            before == old(v)@,
            in_text_order(before),
            key@ == address::shown(ip),
            forall|j: int| 0 <= j < i ==> text::precedes(address::shown(#[trigger] v@[j]), key@),
        decreases v.len() - i,
    {
        let here = text::chars_of(v[i].to_text().as_str());
        if !text::precedes_chars(&here, &key) {
            if text::same_chars(&here, &key) {
                proof {
                    address::law_shown_is_injective(v@[i as int], ip);
                    assert(before.contains(ip));
                }
                return ;
            }
            proof {
                text::lemma_precedes_total(here@, key@);
            }
            v.insert(i, ip);
            proof {
                let after = v@;
                assert(after == before.insert(i as int, ip));
                assert forall|a: int, b: int| 0 <= a < b < after.len() implies text::precedes(
                    address::shown(#[trigger] after[a]),
                    address::shown(#[trigger] after[b]),
                ) by {
                    if b < i {
                        assert(after[a] == before[a] && after[b] == before[b]);
                    } else if b == i {
                        assert(after[a] == before[a]);
                    } else if a == i {
                        assert(after[b] == before[b - 1]);
                        if b - 1 > i {
                            text::lemma_precedes_transitive(
                                key@,
                                address::shown(before[i as int]),
                                address::shown(before[b - 1]),
                            );
                        }
                    } else if a < i {
                        assert(after[a] == before[a] && after[b] == before[b - 1]);
                    } else {
                        assert(after[a] == before[a - 1] && after[b] == before[b - 1]);
                    }
                }
                assert forall|x: IpAddr| #[trigger] after.contains(x) <==> before.contains(x) || x
                    == ip by {
                    if before.contains(x) {
                        let k = choose|k: int| 0 <= k < before.len() && before[k] == x;
                        if k < i {
                            assert(after[k] == x);
                        } else {
                            assert(after[k + 1] == x);
                        }
                    }
                    if x == ip {
                        assert(after[i as int] == x);
                    }
                    if after.contains(x) && x != ip {
                        let k = choose|k: int| 0 <= k < after.len() && after[k] == x;
                        if k < i {
                            assert(before[k] == x);
                        } else {
                            assert(before[k - 1] == x);
                        }
                    }
                }
            }
            return ;
        }
        i = i + 1;
    }
    v.push(ip);
    proof {
        let after = v@;
        assert forall|x: IpAddr| #[trigger] after.contains(x) <==> before.contains(x) || x
            == ip by {
            if before.contains(x) {
                let k = choose|k: int| 0 <= k < before.len() && before[k] == x;
                assert(after[k] == x);
            }
            if x == ip {
                assert(after[before.len() as int] == x);
            }
            if after.contains(x) && x != ip {
                let k = choose|k: int| 0 <= k < after.len() && after[k] == x;
                assert(before[k] == x);
            }
        }
    }
}

/// The text that tells of an answer without a candidate.
pub open spec fn no_candidate_text(host: Seq<char>, family: AddressFamily) -> Seq<char> {
    "DNS answer for "@ + host + " has no allowed "@ + match family {
        AddressFamily::Ipv4 => "IPv4"@,
        AddressFamily::Ipv6 => "IPv6"@,
    } + " address"@
}

/// The candidates of an answer in the order of their texts, each one once.
pub fn valid_candidates(family: AddressFamily, addresses: &Vec<IpAddr>, host: &str) -> (r: Result<
    Vec<IpAddr>,
    String,
>)
    ensures
        match r {
            Ok(v) => v@.len() > 0 && in_text_order(v@) && (forall|ip: IpAddr| #[trigger]
                v@.contains(ip) <==> candidate(ip, family, addresses@)),
            Err(e) => !has_candidate(family, addresses@) && e@ == no_candidate_text(host@, family),
        },
        r is Ok <==> has_candidate(family, addresses@),
{
    let mut candidates: Vec<IpAddr> = Vec::new();
    let mut i: usize = 0;
    while i < addresses.len()
        invariant
            i <= addresses.len(),
            in_text_order(candidates@),
            forall|ip: IpAddr| #[trigger]
                candidates@.contains(ip) <==> candidate(ip, family, addresses@.take(i as int)),
        decreases addresses.len() - i,
    {
        let ip = addresses[i];
        proof {
            let before = addresses@.take(i as int);
            let after = addresses@.take(i + 1);
            assert(after =~= before.push(ip));
            assert forall|x: IpAddr| #[trigger] after.contains(x) <==> before.contains(x) || x
                == ip by {
                if before.contains(x) {
                    let k = choose|k: int| 0 <= k < before.len() && before[k] == x;
                    assert(after[k] == x);
                }
                if x == ip {
                    assert(after[before.len() as int] == x);
                }
                if after.contains(x) && x != ip {
                    let k = choose|k: int| 0 <= k < after.len() && after[k] == x;
                    assert(before[k] == x);
                }
            }
        }
        match config::validate_target_address(family, ip, host) {
            Ok(_) => {
                insert_in_order(&mut candidates, ip);
            },
            Err(_) => {},
        }
        i = i + 1;
    }
    proof {
        assert(addresses@.take(addresses@.len() as int) =~= addresses@);
    }
    if candidates.len() == 0 {
        proof {
            assert forall|ip: IpAddr| !candidate(ip, family, addresses@) by {
                assert(!candidates@.contains(ip));
            }
        }
        let kind = match family {
            AddressFamily::Ipv4 => "IPv4",
            AddressFamily::Ipv6 => "IPv6",
        };
        return Err(
            "DNS answer for ".to_owned().concat(host).concat(" has no allowed ").concat(
                kind,
            ).concat(" address"),
        );
    }
    proof {
        assert(candidates@.contains(candidates@[0]));
        assert(candidate(candidates@[0], family, addresses@));
    }
    Ok(candidates)
}

/// The first of the candidates in order is the leader.
proof fn lemma_first_leads(v: Seq<IpAddr>, family: AddressFamily, answer: Seq<IpAddr>)
    requires
        v.len() > 0,
        in_text_order(v),
        forall|ip: IpAddr| #[trigger] v.contains(ip) <==> candidate(ip, family, answer),
    ensures
        leads(v[0], family, answer),
        leader(family, answer) == v[0],
{
    assert(v.contains(v[0]));
    assert forall|other: IpAddr| #[trigger]
        candidate(other, family, answer) && other != v[0] implies text::precedes(
        address::shown(v[0]),
        address::shown(other),
    ) by {
        assert(v.contains(other));
        let k = choose|k: int| 0 <= k < v.len() && v[k] == other;
    }
    lemma_leader_unique(v[0], leader(family, answer), family, answer);
}

// Refreshing.

/// The seconds until the next lookup: half of the answer's lifetime, at least
/// [`MIN_REFRESH`], plus at most [`MAX_JITTER`], and never above [`MAX_REFRESH`].
pub open spec fn delay_seconds(ttl: u64, jitter: u64) -> u64 {
    let half = ttl / 2;
    let clamped = if half < MIN_REFRESH {
        MIN_REFRESH
    } else if half > MAX_REFRESH {
        MAX_REFRESH
    } else {
        half
    };
    let added = if jitter < MAX_JITTER {
        jitter
    } else {
        MAX_JITTER
    };
    if clamped + added > MAX_REFRESH {
        MAX_REFRESH
    } else {
        (clamped + added) as u64
    }
}

/// The time until the next lookup.
#[must_use]
pub fn refresh_delay(ttl: Duration, jitter_seconds: u64) -> (r: Duration)
    ensures
        r.seconds() == delay_seconds(ttl.seconds(), jitter_seconds),
{
    let half: u64 = ttl.as_secs() / 2;
    let clamped: u64 = if half < MIN_REFRESH {
        MIN_REFRESH
    } else if half > MAX_REFRESH {
        MAX_REFRESH
    } else {
        half
    };
    let added: u64 = if jitter_seconds < MAX_JITTER {
        jitter_seconds
    } else {
        MAX_JITTER
    };
    if clamped + added > MAX_REFRESH {
        Duration::from_secs(MAX_REFRESH)
    } else {
        Duration::from_secs(clamped + added)
    }
}

impl DnsStatusView {
    /// The state of a host that was never looked up.
    pub open spec fn fresh(host: Seq<char>) -> DnsStatusView {
        DnsStatusView {
            host,
            active_address: None,
            last_success_unix: None,
            next_refresh_unix: None,
            cache_written_unix: None,
            status: Health::Failed,
            failure_reason: None,
        }
    }

    /// The age of the cached address in seconds.
    pub open spec fn cache_age(self, now: u64) -> Option<u64> {
        match self.cache_written_unix {
            Some(saved) => Some(
                if now >= saved {
                    (now - saved) as u64
                } else {
                    0
                },
            ),
            None => None,
        }
    }

    /// The cached address is there and no older than [`MAX_CACHE_AGE`].
    pub open spec fn restorable(self, now: u64) -> bool {
        &&& self.active_address is Some
        &&& self.cache_age(now) is Some
        &&& self.cache_age(now)->0 <= MAX_CACHE_AGE
    }

    /// The state behind an answer that holds a candidate.
    pub open spec fn accepted(
        self,
        family: AddressFamily,
        answer: DnsAnswerView,
        now: u64,
        jitter: u64,
    ) -> DnsStatusView {
        DnsStatusView {
            active_address: Some(selected(self.active_address, family, answer.addresses)),
            last_success_unix: Some(now),
            cache_written_unix: Some(now),
            next_refresh_unix: Some((now + delay_seconds(answer.ttl, jitter)) as u64),
            status: Health::Healthy,
            failure_reason: None,
            ..self
        }
    }

    /// The state behind a failure: the active address stays.
    pub open spec fn failed(self, reason: Seq<char>, now: u64) -> DnsStatusView {
        DnsStatusView {
            status: if self.active_address is Some {
                Health::Degraded
            } else {
                Health::Failed
            },
            failure_reason: Some(reason),
            next_refresh_unix: Some((now + MIN_REFRESH) as u64),
            ..self
        }
    }
}

impl DnsStatus {
    /// The state of a host that was never looked up.
    #[must_use]
    pub fn new(host: String) -> (r: Self)
        ensures
            r@ == DnsStatusView::fresh(host@),
    {
        DnsStatus {
            host,
            active_address: None,
            last_success_unix: None,
            next_refresh_unix: None,
            cache_written_unix: None,
            status: Health::Failed,
            failure_reason: None,
        }
    }

    /// The age of the cached address in seconds.
    #[must_use]
    pub fn cache_age_seconds(&self, now: u64) -> (r: Option<u64>)
        ensures
            r == self@.cache_age(now),
    {
        match self.cache_written_unix {
            Some(saved) => Some(now.saturating_sub(saved)),
            None => None,
        }
    }

    /// Whether the cached address may be restored.
    #[must_use]
    pub fn can_restore_cache(&self, now: u64) -> (r: bool)
        ensures
            r == self@.restorable(now),
    {
        match self.cache_age_seconds(now) {
            Some(age) => self.active_address.is_some() && age <= MAX_CACHE_AGE,
            None => false,
        }
    }

    /// Applies a successful lookup and says whether the active address changed.
    /// The current address wins whenever it is still present, otherwise the
    /// candidate whose text comes first, which makes address changes
    /// deterministic. Without a candidate nothing changes.
    pub fn accept_answer(
        &mut self,
        family: AddressFamily,
        answer: DnsAnswer,
        now: u64,
        jitter_seconds: u64,
    ) -> (r: Result<bool, String>)
        requires
            has_candidate(family, answer@.addresses) ==> now + delay_seconds(
                answer@.ttl,
                jitter_seconds,
            ) <= u64::MAX,
        ensures
            has_candidate(family, answer@.addresses) ==> {
                &&& final(self)@ == old(self)@.accepted(family, answer@, now, jitter_seconds)
                &&& r == Ok::<bool, String>(
                    old(self)@.active_address != final(self)@.active_address,
                )
            },
            !has_candidate(family, answer@.addresses) ==> {
                &&& *final(self) == *old(self)
                &&& r matches Err(e)
                &&& e@ == no_candidate_text(old(self)@.host, family)
            },
    {
        let candidates = match valid_candidates(family, &answer.addresses, self.host.as_str()) {
            Ok(v) => v,
            Err(e) => {
                return Err(e);
            },
        };
        proof {
            lemma_first_leads(candidates@, family, answer@.addresses);
        }
        let previous = self.active_address;
        let chosen = match previous {
            Some(ip) => {
                if holds_address(&candidates, ip) {
                    ip
                } else {
                    candidates[0]
                }
            },
            None => candidates[0],
        };
        self.active_address = Some(chosen);
        self.last_success_unix = Some(now);
        self.cache_written_unix = Some(now);
        self.next_refresh_unix = Some(now + refresh_delay(answer.ttl, jitter_seconds).as_secs());
        self.status = Health::Healthy;
        self.failure_reason = None;
        Ok(previous != Some(chosen))
    }

    /// Records a failed refresh: the active address stays.
    pub fn record_failure(&mut self, reason: String, now: u64)
        requires
            now + MIN_REFRESH <= u64::MAX,
        ensures
            final(self)@ == old(self)@.failed(reason@, now),
    {
        self.status = if self.active_address.is_some() {
            Health::Degraded
        } else {
            Health::Failed
        };
        self.failure_reason = Some(reason);
        self.next_refresh_unix = Some(now + MIN_REFRESH);
    }
}

/// Whether `ip` is listed.
fn holds_address(v: &Vec<IpAddr>, ip: IpAddr) -> (r: bool)
    ensures
        r == v@.contains(ip),
{
    let mut i: usize = 0;
    while i < v.len()
        invariant
            i <= v.len(),
            forall|j: int| 0 <= j < i ==> v@[j] != ip,
        decreases v.len() - i,
    {
        if v[i] == ip {
            return true;
        }
        i = i + 1;
    }
    false
}

/// A random number from zero up to and including `limit`.
///
/// Trusted: `Rng::gen_range` of the `rand` crate draws from an inclusive range, so
/// the result is never above its upper bound. Which number is drawn is left to chance
/// and not said here.
#[verifier::external_body]
fn random_up_to(limit: u64) -> (r: u64)
    ensures
        r <= limit,
{
    rand::Rng::gen_range(&mut rand::thread_rng(), 0..=limit)
}

/// A random number of seconds to add to a refresh delay; any number up to the bound may
/// come.
pub fn random_jitter_seconds() -> (r: u64)
    ensures
        r <= MAX_JITTER,
{
    random_up_to(MAX_JITTER)
}

// Resolving.

/// Resolves host names into addresses and supplies their cache lifetime.
pub trait NameResolver: Send + Sync {
    /// Looks up `host`; a failure is given by its text.
    fn lookup(&self, host: &str) -> (r: Result<DnsAnswer, String>);
}

/// The model of what a lookup gave.
pub type LookupView = Result<DnsAnswerView, Seq<char>>;

/// The model of what a lookup gave.
pub open spec fn lookup_view(lookup: Result<DnsAnswer, String>) -> LookupView {
    match lookup {
        Ok(answer) => Ok(answer@),
        Err(reason) => Err(reason@),
    }
}

/// The model of a resolved state or of the text of a failure.
pub type ResolvedView = Result<DnsStatusView, Seq<char>>;

/// The model of a resolved state or of the text of a failure.
pub open spec fn resolved_view(r: Result<DnsStatus, String>) -> ResolvedView {
    match r {
        Ok(status) => Ok(status@),
        Err(reason) => Err(reason@),
    }
}

/// `resolver` may answer `lookup` for `host`.
pub open spec fn answers<R: NameResolver + ?Sized>(
    resolver: &R,
    host: &str,
    lookup: Result<DnsAnswer, String>,
) -> bool {
    call_ensures(R::lookup, (resolver, host), lookup)
}

/// The first state of a host that is the literal address `ip`.
pub open spec fn literal_state(
    host: Seq<char>,
    family: AddressFamily,
    ip: IpAddr,
    now: u64,
) -> ResolvedView {
    match config::target_address_fault(family, ip, host) {
        Some(f) => Err("configuration error: "@ + config::fault_text(f)),
        None => Ok(
            DnsStatusView::fresh(host).accepted(
                family,
                DnsAnswerView { addresses: seq![ip], ttl: MAX_REFRESH },
                now,
                0,
            ),
        ),
    }
}

/// The cached state, where it is one of `host`.
pub open spec fn cached_for(host: Seq<char>, cached: Option<DnsStatusView>) -> Option<
    DnsStatusView,
> {
    if cached is Some && cached->0.host == host {
        cached
    } else {
        None
    }
}

/// The state that a cached address is restored to behind a failed lookup.
pub open spec fn restored(cached: DnsStatusView, error: Seq<char>, now: u64) -> DnsStatusView {
    DnsStatusView {
        status: Health::Degraded,
        failure_reason: Some("DNS lookup failed; restored cache: "@ + error),
        next_refresh_unix: Some((now + MIN_REFRESH) as u64),
        ..cached
    }
}

/// The first state of a host name behind a lookup: an answer goes on from the
/// cached state of this host, a failure restores it while it is fresh.
pub open spec fn first_state(
    host: Seq<char>,
    family: AddressFamily,
    cached: Option<DnsStatusView>,
    lookup: LookupView,
    jitter: u64,
    now: u64,
) -> ResolvedView {
    let known = cached_for(host, cached);
    match lookup {
        Ok(answer) => if has_candidate(family, answer.addresses) {
            let base = if known is Some {
                known->0
            } else {
                DnsStatusView::fresh(host)
            };
            Ok(base.accepted(family, answer, now, jitter))
        } else {
            Err(no_candidate_text(host, family))
        },
        Err(error) => if known is Some && known->0.restorable(now) {
            Ok(restored(known->0, error, now))
        } else {
            Err(
                "initial DNS lookup for "@ + host + " failed and no fresh cache exists: "@ + error,
            )
        },
    }
}

/// The model of an optional state.
pub open spec fn option_status(s: Option<DnsStatus>) -> Option<DnsStatusView> {
    match s {
        Some(s) => Some(s@),
        None => None,
    }
}

/// The model of a borrowed optional state.
pub open spec fn option_status_ref(s: Option<&DnsStatus>) -> Option<DnsStatusView> {
    match s {
        Some(s) => Some(s@),
        None => None,
    }
}

/// The first state of a host that is a literal address.
fn resolve_literal(host: &str, family: AddressFamily, ip: IpAddr, now: u64) -> (r: Result<
    DnsStatus,
    String,
>)
    requires
        now + MAX_REFRESH <= u64::MAX,
    ensures
        resolved_view(r) == literal_state(host@, family, ip, now),
{
    match config::validate_target_address(family, ip, host) {
        Err(e) => Err(e.message()),
        Ok(_) => {
            let mut addresses: Vec<IpAddr> = Vec::new();
            addresses.push(ip);
            let answer = DnsAnswer { addresses, ttl: Duration::from_secs(MAX_REFRESH) };
            proof {
                assert(answer@.addresses =~= seq![ip]);
                assert(answer@.addresses[0] == ip);
                assert(candidate(ip, family, answer@.addresses));
            }
            let mut status = DnsStatus::new(host.to_owned());
            match status.accept_answer(family, answer, now, 0) {
                Ok(_) => Ok(status),
                Err(e) => Err(e),
            }
        },
    }
}

/// The first state of a host name behind the lookup that was made for it.
pub fn resolve_lookup(
    host: &str,
    family: AddressFamily,
    cached: Option<&DnsStatus>,
    lookup: Result<DnsAnswer, String>,
    jitter_seconds: u64,
    now: u64,
) -> (r: Result<DnsStatus, String>)
    requires
        now + MAX_REFRESH <= u64::MAX,
    ensures
        resolved_view(r) == first_state(
            host@,
            family,
            option_status_ref(cached),
            lookup_view(lookup),
            jitter_seconds,
            now,
        ),
{
    let known: Option<&DnsStatus> = match cached {
        Some(state) => {
            if text::same(state.host.as_str(), host) {
                Some(state)
            } else {
                None
            }
        },
        None => None,
    };
    match lookup {
        Ok(answer) => {
            let mut status = match known {
                Some(state) => state.clone(),
                None => DnsStatus::new(host.to_owned()),
            };
            match status.accept_answer(family, answer, now, jitter_seconds) {
                Ok(_) => Ok(status),
                Err(e) => Err(e),
            }
        },
        Err(error) => {
            match known {
                Some(state) => {
                    if state.can_restore_cache(now) {
                        let mut status = state.clone();
                        status.status = Health::Degraded;
                        status.failure_reason = Some(
                            "DNS lookup failed; restored cache: ".to_owned().concat(
                                error.as_str(),
                            ),
                        );
                        status.next_refresh_unix = Some(now + MIN_REFRESH);
                        return Ok(status);
                    }
                },
                None => {},
            }
            Err(
                "initial DNS lookup for ".to_owned().concat(host).concat(
                    " failed and no fresh cache exists: ",
                ).concat(error.as_str()),
            )
        },
    }
}

/// Resolves a target's initial DNS state, optionally restoring fresh cache.
///
/// Fails where a literal target is invalid, where the resolver fails and no fresh
/// cached address of this host is there, and where the answer holds no address
/// that is permitted for the family.
pub fn resolve_initial<R: NameResolver + ?Sized>(
    host: &str,
    family: AddressFamily,
    cached: Option<&DnsStatus>,
    resolver: &R,
    now: u64,
) -> (r: Result<DnsStatus, String>)
    requires
        now + MAX_REFRESH <= u64::MAX,
    ensures
        match address::ip_of(host@) {
            Some(ip) => resolved_view(r) == literal_state(host@, family, ip, now),
            None => exists|lookup: Result<DnsAnswer, String>, jitter: u64|
                {
                    &&& #[trigger] answers(resolver, host, lookup)
                    &&& jitter <= MAX_JITTER
                    &&& resolved_view(r) == #[trigger] first_state(
                        host@,
                        family,
                        option_status_ref(cached),
                        lookup_view(lookup),
                        jitter,
                        now,
                    )
                },
        },
{
    match address::read_ip(host) {
        Some(ip) => resolve_literal(host, family, ip, now),
        None => {
            let lookup = resolver.lookup(host);
            let ghost given = lookup;
            let jitter = random_jitter_seconds();
            let r = resolve_lookup(host, family, cached, lookup, jitter, now);
            proof {
                assert(answers(resolver, host, given));
            }
            r
        },
    }
}

} // verus!
