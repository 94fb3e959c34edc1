//! The `route_localnet` values that interfaces had before they were changed.

use vstd::prelude::*;

use crate::text;

verus! {

/// One interface and the `route_localnet` value that it had.
#[derive(Debug, PartialEq, Eq)]
pub struct RouteLocalnetAdjustment {
    pub interface: String,
    pub original: bool,
}

#[verifier::ext_equal]
pub struct AdjustmentView {
    pub interface: Seq<char>,
    pub original: bool,
}

impl View for RouteLocalnetAdjustment {
    type V = AdjustmentView;

    open spec fn view(&self) -> AdjustmentView {
        AdjustmentView { interface: self.interface@, original: self.original }
    }
}

impl Clone for RouteLocalnetAdjustment {
    fn clone(&self) -> (r: Self)
        ensures
            r@ == self@,
    {
        RouteLocalnetAdjustment { interface: self.interface.clone(), original: self.original }
    }
}

/// The models of a list of adjustments.
pub open spec fn adjustment_views(v: Seq<RouteLocalnetAdjustment>) -> Seq<AdjustmentView> {
    v.map_values(|a: RouteLocalnetAdjustment| a@)
}

/// The map that holds each interface of `v` with its value; of two entries for one
/// interface the later one counts.
pub open spec fn adjustment_map(v: Seq<AdjustmentView>) -> Map<Seq<char>, bool>
    decreases v.len(),
{
    if v.len() == 0 {
        Map::empty()
    } else {
        adjustment_map(v.drop_last()).insert(v.last().interface, v.last().original)
    }
}

/// The interfaces are in ascending order, each one once.
pub open spec fn by_interface(v: Seq<AdjustmentView>) -> bool {
    forall|i: int, j: int|
        0 <= i < j < v.len() ==> text::precedes(
            (#[trigger] v[i]).interface,
            (#[trigger] v[j]).interface,
        )
}

/// What a map of ordered entries holds.
pub proof fn lemma_adjustment_map(v: Seq<AdjustmentView>)
    requires
        by_interface(v),
    ensures
        forall|i: int|
            0 <= i < v.len() ==> adjustment_map(v).contains_pair(
                (#[trigger] v[i]).interface,
                v[i].original,
            ),
        forall|k: Seq<char>| #[trigger]
            adjustment_map(v).contains_key(k) ==> exists|i: int|
                0 <= i < v.len() && (#[trigger] v[i]).interface == k,
    decreases v.len(),
{
    if v.len() > 0 {
        let front = v.drop_last();
        assert(by_interface(front)) by {
            assert forall|i: int, j: int| 0 <= i < j < front.len() implies text::precedes(
                (#[trigger] front[i]).interface,
                (#[trigger] front[j]).interface,
            ) by {
                assert(v[i] == front[i] && v[j] == front[j]);
            }
        }
        lemma_adjustment_map(front);
        assert forall|i: int| 0 <= i < v.len() implies adjustment_map(v).contains_pair(
            (#[trigger] v[i]).interface,
            v[i].original,
        ) by {
            if i < v.len() - 1 {
                assert(front[i] == v[i]);
                text::lemma_precedes_irreflexive(v[i].interface);
                assert(text::precedes(v[i].interface, v[v.len() - 1].interface));
            }
        }
        assert forall|k: Seq<char>| #[trigger] adjustment_map(v).contains_key(k) implies exists|
            i: int,
        |
            0 <= i < v.len() && (#[trigger] v[i]).interface == k by {
            if k == v.last().interface {
                assert(v[v.len() - 1].interface == k);
            } else {
                assert(adjustment_map(front).contains_key(k));
                let i = choose|i: int| 0 <= i < front.len() && (#[trigger] front[i]).interface == k;
                assert(v[i].interface == k);
            }
        }
    }
}

/// A map from interfaces to the `route_localnet` values that they had, walked in
/// the order of the interfaces.
#[derive(Debug, PartialEq, Eq)]
pub struct OriginalValues {
    entries: Vec<RouteLocalnetAdjustment>,
}

impl View for OriginalValues {
    type V = Map<Seq<char>, bool>;

    closed spec fn view(&self) -> Map<Seq<char>, bool> {
        adjustment_map(adjustment_views(self.entries@))
    }
}

impl OriginalValues {
    #[verifier::type_invariant]
    spec fn ordered(&self) -> bool {
        by_interface(adjustment_views(self.entries@))
    }

    /// A map without entries.
    pub fn new() -> (r: Self)
        ensures
            r@ == Map::<Seq<char>, bool>::empty(),
    {
        OriginalValues { entries: Vec::new() }
    }

    /// The value that `interface` had.
    pub fn get(&self, interface: &str) -> (r: Option<bool>)
        ensures
            r == if self@.contains_key(interface@) {
                Some(self@[interface@])
            } else {
                None
            },
    {
        let ghost v = adjustment_views(self.entries@);
        proof {
            use_type_invariant(self);
            lemma_adjustment_map(v);
        }
        let mut i: usize = 0;
        while i < self.entries.len()
            invariant
                i <= self.entries.len(),
                v == adjustment_views(self.entries@),
                self@ == adjustment_map(v),
                forall|i: int|
                    0 <= i < v.len() ==> adjustment_map(v).contains_pair(
                        (#[trigger] v[i]).interface,
                        v[i].original,
                    ),
                forall|j: int| 0 <= j < i ==> (#[trigger] v[j]).interface != interface@,
            decreases self.entries.len() - i,
        {
            proof {
                assert(v[i as int] == self.entries@[i as int]@);
            }
            if text::same(self.entries[i].interface.as_str(), interface) {
                return Some(self.entries[i].original);
            }
            i = i + 1;
        }
        None
    }

    /// Whether `interface` has an entry.
    pub fn contains_key(&self, interface: &str) -> (r: bool)
        ensures
            r == self@.contains_key(interface@),
    {
        self.get(interface).is_some()
    }

    /// The entries in the order of their interfaces.
    pub fn to_list(&self) -> (r: Vec<RouteLocalnetAdjustment>)
        ensures
            by_interface(adjustment_views(r@)),
            adjustment_map(adjustment_views(r@)) == self@,
    {
        proof {
            use_type_invariant(self);
        }
        let mut out: Vec<RouteLocalnetAdjustment> = Vec::new();
        let mut i: usize = 0;
        while i < self.entries.len()
            invariant
                i <= self.entries.len(),
                out@.len() == i,
                forall|j: int| 0 <= j < i ==> (#[trigger] out@[j])@ == self.entries@[j]@,
            decreases self.entries.len() - i,
        {
            out.push(self.entries[i].clone());
            i = i + 1;
        }
        proof {
            assert(adjustment_views(out@) =~= adjustment_views(self.entries@));
        }
        out
    }

    /// Sets the value of `interface`.
    pub fn insert(&mut self, interface: String, original: bool)
        ensures
            final(self)@ == old(self)@.insert(interface@, original),
    {
        proof {
            use_type_invariant(&*self);
        }
        let mut entries: Vec<RouteLocalnetAdjustment> = Vec::new();
        std::mem::swap(&mut entries, &mut self.entries);
        insert_entry(&mut entries, interface, original);
        self.entries = entries;
    }
}

impl Clone for OriginalValues {
    fn clone(&self) -> (r: Self)
        ensures
            r@ == self@,
    {
        let entries = self.to_list();
        OriginalValues { entries }
    }
}

/// Ordered entries stay ordered where one value is changed or a new interface is
/// put at its place.
proof fn lemma_entry_inserted(
    before: Seq<AdjustmentView>,
    after: Seq<AdjustmentView>,
    at: int,
    entry: AdjustmentView,
)
    requires
        by_interface(before),
        0 <= at <= before.len(),
        forall|j: int| 0 <= j < at ==> text::precedes((#[trigger] before[j]).interface, entry.interface),
        ({
            ||| after == before.insert(at, entry) && forall|j: int|
                at <= j < before.len() ==> text::precedes(
                    entry.interface,
                    (#[trigger] before[j]).interface,
                )
            ||| at < before.len() && after == before.update(at, entry) && before[at].interface
                == entry.interface
        }),
    ensures
        by_interface(after),
        adjustment_map(after) == adjustment_map(before).insert(entry.interface, entry.original),
{
    assert(by_interface(after)) by {
        assert forall|i: int, j: int| 0 <= i < j < after.len() implies text::precedes(
            (#[trigger] after[i]).interface,
            (#[trigger] after[j]).interface,
        ) by {
            if after == before.insert(at, entry) {
                if j < at {
                    assert(after[i] == before[i] && after[j] == before[j]);
                } else if j == at {
                    assert(after[i] == before[i]);
                } else if i == at {
                    assert(after[j] == before[j - 1]);
                } else if i < at {
                    assert(after[i] == before[i] && after[j] == before[j - 1]);
                } else {
                    assert(after[i] == before[i - 1] && after[j] == before[j - 1]);
                }
            } else {
                assert(after[i].interface == before[i].interface);
                assert(after[j].interface == before[j].interface);
            }
        }
    }
    lemma_adjustment_map(before);
    lemma_adjustment_map(after);
    let m = adjustment_map(after);
    let n = adjustment_map(before).insert(entry.interface, entry.original);
    assert(after[at] == entry);
    assert forall|k: Seq<char>| #[trigger] m.contains_key(k) <==> n.contains_key(k) by {
        if m.contains_key(k) && k != entry.interface {
            let i = choose|i: int| 0 <= i < after.len() && (#[trigger] after[i]).interface == k;
            if after == before.insert(at, entry) {
                if i < at {
                    assert(before[i] == after[i]);
                } else {
                    assert(before[i - 1] == after[i]);
                }
            } else {
                assert(before[i] == after[i]);
            }
        }
        if n.contains_key(k) && k != entry.interface {
            let i = choose|i: int| 0 <= i < before.len() && (#[trigger] before[i]).interface == k;
            if after == before.insert(at, entry) {
                if i < at {
                    assert(after[i] == before[i]);
                } else {
                    assert(after[i + 1] == before[i]);
                }
            } else {
                assert(after[i] == before[i]);
            }
        }
    }
    assert forall|k: Seq<char>| #[trigger] m.contains_key(k) implies m[k] == n[k] by {
        if k != entry.interface {
            let i = choose|i: int| 0 <= i < after.len() && (#[trigger] after[i]).interface == k;
            if after == before.insert(at, entry) {
                if i < at {
                    assert(before[i] == after[i]);
                } else {
                    assert(before[i - 1] == after[i]);
                }
            } else {
                assert(before[i] == after[i]);
            }
        }
    }
    assert(m =~= n);
}

/// Sets the value of `interface` in ordered entries.
fn insert_entry(v: &mut Vec<RouteLocalnetAdjustment>, interface: String, original: bool)
    requires
        by_interface(adjustment_views(old(v)@)),
    ensures
        by_interface(adjustment_views(final(v)@)),
        adjustment_map(adjustment_views(final(v)@)) == adjustment_map(
            adjustment_views(old(v)@),
        ).insert(interface@, original),
{
    let ghost before = adjustment_views(v@);
    let ghost entry = AdjustmentView { interface: interface@, original };
    let key = text::chars_of(interface.as_str());
    let mut i: usize = 0;
    while i < v.len()
        invariant
            i <= v.len(),
            v@ == old(v)@,
            before == adjustment_views(old(v)@),
            by_interface(before),
            key@ == interface@,
            entry == (AdjustmentView { interface: interface@, original }),
            forall|j: int|
                0 <= j < i ==> text::precedes((#[trigger] before[j]).interface, interface@),
        decreases v.len() - i,
    {
        let here = text::chars_of(v[i].interface.as_str());
        proof {
            assert(before[i as int] == v@[i as int]@);
        }
        if !text::precedes_chars(&here, &key) {
            if text::same_chars(&here, &key) {
                v.set(i, RouteLocalnetAdjustment { interface, original });
                proof {
                    assert(adjustment_views(v@) =~= before.update(i as int, entry));
                    lemma_entry_inserted(before, adjustment_views(v@), i as int, entry);
                }
                return ;
            }
            v.insert(i, RouteLocalnetAdjustment { interface, original });
            proof {
                text::lemma_precedes_total(here@, key@);
                assert forall|j: int| i <= j < before.len() implies text::precedes(
                    entry.interface,
                    (#[trigger] before[j]).interface,
                ) by {
                    if j > i {
                        text::lemma_precedes_transitive(
                            key@,
                            before[i as int].interface,
                            before[j].interface,
                        );
                    }
                }
                assert(adjustment_views(v@) =~= before.insert(i as int, entry));
                lemma_entry_inserted(before, adjustment_views(v@), i as int, entry);
            }
            return ;
        }
        i = i + 1;
    }
    v.push(RouteLocalnetAdjustment { interface, original });
    proof {
        assert(adjustment_views(v@) =~= before.insert(before.len() as int, entry));
        lemma_entry_inserted(before, adjustment_views(v@), before.len() as int, entry);
    }
}

// What a reload does to the values.

/// `v` has an entry for the interface.
pub open spec fn lists(v: Seq<AdjustmentView>, interface: Seq<char>) -> bool {
    exists|i: int| 0 <= i < v.len() && (#[trigger] v[i]).interface == interface
}

/// The adjustments with the values that `prior` remembers for their interfaces.
pub open spec fn merged(v: Seq<AdjustmentView>, prior: Map<Seq<char>, bool>) -> Seq<
    AdjustmentView,
> {
    v.map_values(
        |a: AdjustmentView|
            AdjustmentView {
                original: if prior.contains_key(a.interface) {
                    prior[a.interface]
                } else {
                    a.original
                },
                ..a
            },
    )
}

/// The adjustments of interfaces that `prior` does not remember.
pub open spec fn fresh(v: Seq<AdjustmentView>, prior: Map<Seq<char>, bool>) -> Seq<
    AdjustmentView,
> {
    v.filter(|a: AdjustmentView| !prior.contains_key(a.interface))
}

/// The remembered values of interfaces that `v` has no entry for.
pub open spec fn stale(prior: Map<Seq<char>, bool>, v: Seq<AdjustmentView>) -> Map<
    Seq<char>,
    bool,
> {
    prior.restrict(Set::new(|interface: Seq<char>| !lists(v, interface)))
}

/// The adjustments with the values that `prior` remembers for their interfaces, so
/// that the value from before the first change is kept across reloads.
pub fn merge_adjustments(
    adjustments: Vec<RouteLocalnetAdjustment>,
    prior: &OriginalValues,
) -> (r: Vec<RouteLocalnetAdjustment>)
    ensures
        adjustment_views(r@) == merged(adjustment_views(adjustments@), prior@),
{
    let ghost want = merged(adjustment_views(adjustments@), prior@);
    let mut r: Vec<RouteLocalnetAdjustment> = Vec::new();
    let mut i: usize = 0;
    while i < adjustments.len()
        invariant
            i <= adjustments.len(),
            want == merged(adjustment_views(adjustments@), prior@),
            r@.len() == i,
            forall|j: int| 0 <= j < i ==> (#[trigger] r@[j])@ == want[j],
        decreases adjustments.len() - i,
    {
        let mut adjustment = adjustments[i].clone();
        match prior.get(adjustment.interface.as_str()) {
            Some(original) => {
                adjustment.original = original;
            },
            None => {},
        }
        r.push(adjustment);
        i = i + 1;
    }
    proof {
        assert(adjustment_views(r@) =~= want);
    }
    r
}

/// The adjustments of interfaces that `prior` does not remember.
pub fn fresh_adjustments(adjusted: &Vec<RouteLocalnetAdjustment>, prior: &OriginalValues) -> (r: Vec<
    RouteLocalnetAdjustment,
>)
    ensures
        adjustment_views(r@) == fresh(adjustment_views(adjusted@), prior@),
{
    let ghost all = adjustment_views(adjusted@);
    let ghost keep = |a: AdjustmentView| !prior@.contains_key(a.interface);
    let mut r: Vec<RouteLocalnetAdjustment> = Vec::new();
    let mut i: usize = 0;
    proof {
        reveal(Seq::filter);
        assert(all.take(0).filter(keep) =~= Seq::empty());
        assert(adjustment_views(r@) =~= Seq::empty());
    }
    while i < adjusted.len()
        invariant
            i <= adjusted.len(),
            all == adjustment_views(adjusted@),
            keep == (|a: AdjustmentView| !prior@.contains_key(a.interface)),
            adjustment_views(r@) == all.take(i as int).filter(keep),
        decreases adjusted.len() - i,
    {
        proof {
            reveal(Seq::filter);
            assert(all.take(i + 1).drop_last() =~= all.take(i as int));
            assert(all.take(i + 1).last() == adjusted@[i as int]@);
        }
        if !prior.contains_key(adjusted[i].interface.as_str()) {
            let ghost before = r@;
            let entry = adjusted[i].clone();
            r.push(entry);
            proof {
                assert(adjustment_views(r@) =~= adjustment_views(before).push(entry@));
            }
        }
        i = i + 1;
    }
    proof {
        assert(all.take(all.len() as int) =~= all);
    }
    r
}

/// Whether `v` has an entry for the interface.
fn has_interface(v: &Vec<RouteLocalnetAdjustment>, interface: &str) -> (r: bool)
    ensures
        r == lists(adjustment_views(v@), interface@),
{
    let ghost all = adjustment_views(v@);
    let mut i: usize = 0;
    while i < v.len()
        invariant
            i <= v.len(),
            all == adjustment_views(v@),
            forall|j: int| 0 <= j < i ==> (#[trigger] all[j]).interface != interface@,
        decreases v.len() - i,
    {
        proof {
            assert(all[i as int] == v@[i as int]@);
        }
        if text::same(v[i].interface.as_str(), interface) {
            return true;
        }
        i = i + 1;
    }
    false
}

/// The remembered values of interfaces that `adjusted` has no entry for.
pub fn stale_values(prior: &OriginalValues, adjusted: &Vec<RouteLocalnetAdjustment>) -> (r:
    OriginalValues)
    ensures
        r@ == stale(prior@, adjustment_views(adjusted@)),
{
    let entries = prior.to_list();
    let ghost all = adjustment_views(entries@);
    let ghost listed = adjustment_views(adjusted@);
    let mut r = OriginalValues::new();
    let mut i: usize = 0;
    proof {
        assert(all.take(0) =~= Seq::empty());
        assert(stale(adjustment_map(all.take(0)), listed) =~= Map::empty());
    }
    while i < entries.len()
        invariant
            i <= entries.len(),
            all == adjustment_views(entries@),
            listed == adjustment_views(adjusted@),
            r@ == stale(adjustment_map(all.take(i as int)), listed),
        decreases entries.len() - i,
    {
        let entry = entries[i].clone();
        let ghost before = adjustment_map(all.take(i as int));
        let ghost after = adjustment_map(all.take(i + 1));
        proof {
            assert(all.take(i + 1).drop_last() =~= all.take(i as int));
            assert(all.take(i + 1).last() == entry@);
            assert(after == before.insert(entry@.interface, entry@.original));
        }
        if !has_interface(adjusted, entry.interface.as_str()) {
            r.insert(entry.interface, entry.original);
            proof {
                assert(r@ =~= stale(after, listed));
            }
        } else {
            proof {
                assert(r@ =~= stale(after, listed));
            }
        }
        i = i + 1;
    }
    proof {
        assert(all.take(all.len() as int) =~= all);
    }
    r
}

/// The map that holds each interface of `v` with its value; of two entries for one
/// interface the later one counts.
pub fn remembered(v: &Vec<RouteLocalnetAdjustment>) -> (r: OriginalValues)
    ensures
        r@ == adjustment_map(adjustment_views(v@)),
{
    let ghost all = adjustment_views(v@);
    let mut r = OriginalValues::new();
    let mut i: usize = 0;
    proof {
        assert(all.take(0) =~= Seq::empty());
    }
    while i < v.len()
        invariant
            i <= v.len(),
            all == adjustment_views(v@),
            r@ == adjustment_map(all.take(i as int)),
        decreases v.len() - i,
    {
        proof {
            assert(all.take(i + 1).drop_last() =~= all.take(i as int));
            assert(all.take(i + 1).last() == v@[i as int]@);
        }
        r.insert(v[i].interface.clone(), v[i].original);
        i = i + 1;
    }
    proof {
        assert(all.take(all.len() as int) =~= all);
    }
    r
}

} // verus!
