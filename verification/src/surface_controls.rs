use vstd::prelude::*;
use std::collections::{BTreeMap, BTreeSet};
use vstd::std_specs::cmp::PartialEqSpec;
use vstd::std_specs::iter::IteratorSpec;

verus! {

broadcast use vstd::std_specs::btree::group_btree_axioms, vstd::laws_cmp::group_laws_cmp;

/// Adds every layer of `from` to `into`.
pub fn add_layers(into: &mut BTreeSet<i32>, from: &BTreeSet<i32>)
    ensures
        final(into)@ == old(into)@.union(from@),
{
    let ghost all = from.iter().remaining().unref();
    assert(all.to_set() == from@);
    for x in it: from.iter()
        invariant
            all == it.seq().unref(),
            into@ == old(into)@.union(all.take(it.index() as int).to_set()),
    {
        into.insert(*x);
        proof {
            let prev = all.take(it.index() as int);
            let done = all.take(it.index() as int + 1);
            assert(done =~= prev.push(*x));
            prev.lemma_push_to_set_commute(*x);
        }
    }
    assert(all.take(all.len() as int) =~= all);
}

/// Whose private controls a set is: a window surface, or an input object
/// that refers to one. Several owners can refer to the same surface, each
/// with its own controls.
#[derive(Debug, Clone, Copy, PartialEq, Eq, Structural)]
pub enum SurfaceControlOwner {
    Surface(i32),
    InputObject(i32),
}

/// The key an owner is filed under; keys order surfaces before input
/// objects, each by id.
pub open spec fn owner_key(owner: SurfaceControlOwner) -> (u8, i32) {
    match owner {
        SurfaceControlOwner::Surface(id) => (0, id),
        SurfaceControlOwner::InputObject(id) => (1, id),
    }
}

fn key_of(owner: SurfaceControlOwner) -> (out: (u8, i32))
    ensures
        out == owner_key(owner),
{
    match owner {
        SurfaceControlOwner::Surface(id) => (0, id),
        SurfaceControlOwner::InputObject(id) => (1, id),
    }
}

/// One owner's controls: the surface they sit on, the input descriptor they
/// were made from, and their layers.
#[derive(Debug)]
pub struct SurfaceControlSet<D> {
    pub surface: i32,
    pub descriptor: D,
    pub layers: BTreeSet<i32>,
}

/// The materialized native controls of each owner.
#[derive(Debug)]
pub struct SurfaceControlRegistry<D> {
    sets: BTreeMap<(u8, i32), SurfaceControlSet<D>>,
}

impl<D> View for SurfaceControlRegistry<D> {
    type V = Map<(u8, i32), SurfaceControlSet<D>>;

    closed spec fn view(&self) -> Map<(u8, i32), SurfaceControlSet<D>> {
        self.sets@
    }
}

/// The layers of an owner's set, none when it has no set.
pub open spec fn owner_layers<D>(m: Map<(u8, i32), SurfaceControlSet<D>>, owner: SurfaceControlOwner) -> Set<i32> {
    if m.contains_key(owner_key(owner)) {
        m[owner_key(owner)].layers@
    } else {
        Set::empty()
    }
}

impl<D> SurfaceControlRegistry<D> {
    /// An empty registry.
    pub fn new() -> (out: Self)
        ensures
            out@ == Map::<(u8, i32), SurfaceControlSet<D>>::empty(),
    {
        SurfaceControlRegistry { sets: BTreeMap::new() }
    }

    /// The number of layers the owner's set holds.
    pub fn owner_layer_count(&self, owner: SurfaceControlOwner) -> (out: usize)
        ensures
            out == owner_layers(self@, owner).len(),
    {
        match self.sets.get(&key_of(owner)) {
            Some(set) => set.layers.len(),
            None => 0,
        }
    }

    /// Whether the owner's set holds `layer`.
    pub fn contains_layer_for_owner(&self, owner: SurfaceControlOwner, layer: i32) -> (out: bool)
        ensures
            out == owner_layers(self@, owner).contains(layer),
    {
        match self.sets.get(&key_of(owner)) {
            Some(set) => set.layers.contains(&layer),
            None => false,
        }
    }

    /// Files the owner's new controls and hands back the layers of the set
    /// they replace (none when the owner had none); other owners' sets are
    /// untouched.
    pub fn replace(
        &mut self,
        owner: SurfaceControlOwner,
        surface: i32,
        descriptor: D,
        layers: BTreeSet<i32>,
    ) -> (stale: BTreeSet<i32>)
        ensures
            final(self)@ == old(self)@.insert(
                owner_key(owner),
                SurfaceControlSet { surface, descriptor, layers },
            ),
            stale@ == owner_layers(old(self)@, owner),
    {
        match self.sets.insert(key_of(owner), SurfaceControlSet { surface, descriptor, layers }) {
            Some(set) => set.layers,
            None => BTreeSet::new(),
        }
    }

    /// Removes exactly one owner's set and hands back its layers; other
    /// owners on the same surface keep theirs.
    pub fn remove_owner(&mut self, owner: SurfaceControlOwner) -> (removed: BTreeSet<i32>)
        ensures
            final(self)@ == old(self)@.remove(owner_key(owner)),
            removed@ == owner_layers(old(self)@, owner),
    {
        match self.sets.remove(&key_of(owner)) {
            Some(set) => set.layers,
            None => BTreeSet::new(),
        }
    }

    /// Replaces the descriptor of the owner's set, when it has one.
    pub fn update_descriptor(&mut self, owner: SurfaceControlOwner, descriptor: D)
        ensures
            old(self)@.contains_key(owner_key(owner)) ==> final(self)@ == old(self)@.insert(
                owner_key(owner),
                SurfaceControlSet { descriptor, ..old(self)@[owner_key(owner)] },
            ),
            !old(self)@.contains_key(owner_key(owner)) ==> final(self)@ == old(self)@,
    {
        let key = key_of(owner);
        match self.sets.remove(&key) {
            Some(set) => {
                self.sets.insert(
                    key,
                    SurfaceControlSet { surface: set.surface, descriptor, layers: set.layers },
                );
                assert(self.sets@ =~= old(self)@.insert(
                    owner_key(owner),
                    SurfaceControlSet { descriptor, ..old(self)@[owner_key(owner)] },
                ));
            },
            None => {},
        }
    }
}

/// One owner's share of a surface's layer count.
pub open spec fn surface_share<D>(m: Map<(u8, i32), SurfaceControlSet<D>>, surface: i32) -> spec_fn(
    nat,
    (u8, i32),
) -> nat {
    |acc: nat, k: (u8, i32)|
        acc + if m[k].surface == surface {
            m[k].layers@.len()
        } else {
            0
        }
}

/// The number of layers on `surface`, over all owners.
pub open spec fn layer_count_spec<D>(m: Map<(u8, i32), SurfaceControlSet<D>>, surface: i32) -> nat {
    m.dom().fold(0nat, surface_share(m, surface))
}

/// The layers of every owner on `surface`.
pub open spec fn surface_layers<D>(m: Map<(u8, i32), SurfaceControlSet<D>>, surface: i32) -> Set<i32> {
    Set::new(
        |l: i32|
            exists|k: (u8, i32)|
                #![trigger m[k].layers@.contains(l)]
                m.contains_key(k) && m[k].surface == surface && m[k].layers@.contains(l),
    )
}

/// The sets of the owners on other surfaces.
pub open spec fn without_surface<D>(m: Map<(u8, i32), SurfaceControlSet<D>>, surface: i32) -> Map<
    (u8, i32),
    SurfaceControlSet<D>,
> {
    Map::new(|k: (u8, i32)| m.contains_key(k) && m[k].surface != surface, |k: (u8, i32)| m[k])
}

proof fn lemma_share_commutes<D>(m: Map<(u8, i32), SurfaceControlSet<D>>, surface: i32)
    ensures
        vstd::set::fold::is_fun_commutative(surface_share(m, surface)),
{
}

proof fn lemma_fold_remove<D>(s: Set<(u8, i32)>, k: (u8, i32), m: Map<(u8, i32), SurfaceControlSet<D>>, surface: i32)
    requires
        s.finite(),
        s.contains(k),
    ensures
        s.fold(0nat, surface_share(m, surface)) == s.remove(k).fold(0nat, surface_share(m, surface))
            + (if m[k].surface == surface {
            m[k].layers@.len()
        } else {
            0
        }),
{
    lemma_share_commutes(m, surface);
    vstd::set::fold::lemma_fold_insert(s.remove(k), 0nat, surface_share(m, surface), k);
    assert(s.remove(k).insert(k) =~= s);
}

impl<D> SurfaceControlRegistry<D> {
    /// The number of layers on `surface`, over every owner on it; the count
    /// has to fit in a `usize`.
    pub fn layer_count(&self, surface: i32) -> (out: usize)
        requires
            layer_count_spec(self@, surface) <= usize::MAX,
        ensures
            out == layer_count_spec(self@, surface),
    {
        let ghost m = self.sets@;
        let probe = self.sets.iter();
        let ghost entries = self.sets.iter().remaining().unref();
        let ghost total = layer_count_spec(m, surface);
        let ghost mut rest: Set<(u8, i32)> = m.dom();
        let ghost mut done: int = 0;
        let mut count: usize = 0;
        proof {
            assert(probe.remaining().no_duplicates());
        }
        for (key, set) in it: self.sets.iter()
            invariant
                m == self.sets@,
                probe == self.sets.iter(),
                probe.remaining().no_duplicates(),
                done == it.index(),
                entries == it.seq().unref(),
                entries == self.sets.iter().remaining().unref(),
                total == layer_count_spec(m, surface),
                total <= usize::MAX,
                rest.finite(),
                count + rest.fold(0nat, surface_share(m, surface)) == total,
                forall|k: (u8, i32)|
                    rest.contains(k) <==> (m.contains_key(k) && forall|j: int|
                        0 <= j < done ==> #[trigger] entries[j].0 != k),
        {
            let ghost i = it.index();
            let ghost k = *key;
            proof {
                assert(entries[i].0 == k);
                assert(m.contains_key(k) && m[k] == entries[i].1);
                assert forall|j: int| 0 <= j < i implies #[trigger] entries[j].0 != k by {
                    if entries[j].0 == k {
                        assert(m[entries[j].0] == entries[j].1);
                        assert(probe.remaining()[j] == probe.remaining()[i]);
                    }
                }
                assert(rest.contains(k));
                lemma_fold_remove(rest, k, m, surface);
            }
            if set.surface == surface {
                count = count + set.layers.len();
            }
            proof {
                rest = rest.remove(k);
                done = done + 1;
            }
        }
        proof {
            assert(done == entries.len());
            assert(rest =~= Set::<(u8, i32)>::empty()) by {
                assert forall|k: (u8, i32)| !rest.contains(k) by {
                    if m.contains_key(k) {
                        let v = self.sets.iter().remaining();
                        assert(v.contains((&k, &m[k])));
                        let j = choose|j: int| 0 <= j < v.len() && v[j] == (&k, &m[k]);
                        assert(entries[j].0 == k);
                    }
                }
            }
            vstd::set::fold::lemma_fold_empty(0nat, surface_share(m, surface));
        }
        count
    }
}

impl<D> SurfaceControlRegistry<D> {
    /// Whether any owner's set holds `layer`.
    pub fn contains_layer(&self, layer: i32) -> (out: bool)
        ensures
            out == exists|k: (u8, i32)|
                #![trigger self@[k].layers@.contains(layer)]
                self@.contains_key(k) && self@[k].layers@.contains(layer),
    {
        let ghost m = self.sets@;
        let ghost entries = self.sets.iter().remaining().unref();
        let ghost mut done: int = 0;
        for (key, set) in it: self.sets.iter()
            invariant
                m == self.sets@,
                entries == it.seq().unref(),
                entries == self.sets.iter().remaining().unref(),
                done == it.index(),
                forall|j: int| 0 <= j < done ==> !(#[trigger] entries[j].1.layers@.contains(layer)),
        {
            let ghost i = it.index();
            proof {
                assert(m.contains_key(entries[i].0) && m[entries[i].0] == entries[i].1);
            }
            if set.layers.contains(&layer) {
                assert(m.contains_key(*key) && m[*key].layers@.contains(layer));
                assert(self@.contains_key(*key) && self@[*key].layers@.contains(layer));
                return true;
            }
            proof {
                done = done + 1;
            }
        }
        proof {
            assert(done == entries.len());
            assert forall|k: (u8, i32)|
                m.contains_key(k) implies !(#[trigger] m[k].layers@.contains(layer)) by {
                let v = self.sets.iter().remaining();
                assert(v.contains((&k, &m[k])));
                let j = choose|j: int| 0 <= j < v.len() && v[j] == (&k, &m[k]);
                assert(entries[j].1 == m[k]);
            }
        }
        false
    }

    /// Removes every owner on a destroyed surface and hands back all their
    /// layers; owners on other surfaces keep theirs.
    pub fn remove_surface(&mut self, surface: i32) -> (removed: BTreeSet<i32>)
        ensures
            final(self)@ == without_surface(old(self)@, surface),
            removed@ == surface_layers(old(self)@, surface),
    {
        let ghost m = self.sets@;
        let ghost entries = self.sets.iter().remaining().unref();
        let ghost mut done: int = 0;
        let mut owners: Vec<(u8, i32)> = Vec::new();
        for (key, set) in it: self.sets.iter()
            invariant
                m == self.sets@,
                entries == it.seq().unref(),
                entries == self.sets.iter().remaining().unref(),
                done == it.index(),
                forall|j: int| 0 <= j < owners@.len() ==> m.contains_key(#[trigger] owners@[j]) && m[owners@[j]].surface == surface,
                forall|j: int|
                    0 <= j < done && #[trigger] entries[j].1.surface == surface ==> owners@.contains(entries[j].0),
        {
            let ghost i = it.index();
            proof {
                assert(m.contains_key(entries[i].0) && m[entries[i].0] == entries[i].1);
            }
            let ghost prev = owners@;
            if set.surface == surface {
                owners.push(*key);
                assert(owners@[owners@.len() - 1] == entries[i].0);
                assert forall|x: (u8, i32)| prev.contains(x) implies owners@.contains(x) by {
                    let j = choose|j: int| 0 <= j < prev.len() && prev[j] == x;
                    assert(owners@[j] == x);
                }
            }
            proof {
                done = done + 1;
            }
        }
        proof {
            assert(done == entries.len());
            assert forall|k: (u8, i32)|
                m.contains_key(k) && m[k].surface == surface implies owners@.contains(k) by {
                let v = self.sets.iter().remaining();
                assert(v.contains((&k, &m[k])));
                let j = choose|j: int| 0 <= j < v.len() && v[j] == (&k, &m[k]);
                assert(entries[j].1.surface == surface);
            }
        }
        let mut removed: BTreeSet<i32> = BTreeSet::new();
        let mut n: usize = 0;
        while n < owners.len()
            invariant
                n <= owners@.len(),
                forall|j: int| 0 <= j < owners@.len() ==> m.contains_key(#[trigger] owners@[j]) && m[owners@[j]].surface == surface,
                forall|k: (u8, i32)| m.contains_key(k) && m[k].surface == surface ==> owners@.contains(k),
                self.sets@ == Map::new(
                    |k: (u8, i32)| m.contains_key(k) && !owners@.take(n as int).contains(k),
                    |k: (u8, i32)| m[k],
                ),
                removed@ == Set::new(
                    |l: i32|
                        exists|j: int|
                            0 <= j < n && #[trigger] m[owners@[j]].layers@.contains(l),
                ),
            decreases owners@.len() - n,
        {
            let key = owners[n];
            let ghost before = self.sets@;
            match self.sets.remove(&key) {
                Some(set) => {
                    assert(set == m[key]);
                    add_layers(&mut removed, &set.layers);
                },
                None => {
                    proof {
                        assert(owners@.take(n as int).contains(key));
                        let j0 = choose|j: int| 0 <= j < n && owners@.take(n as int)[j] == key;
                        assert(owners@[j0] == key);
                        assert forall|l: i32| m[key].layers@.contains(l) implies removed@.contains(l) by {
                            assert(m[owners@[j0]].layers@.contains(l));
                        }
                    }
                },
            }
            assert(owners@.take(n as int + 1) =~= owners@.take(n as int).push(key));
            assert forall|k: (u8, i32)|
                #[trigger] owners@.take(n as int + 1).contains(k) == (owners@.take(n as int).contains(k)
                    || k == key) by {
                let t = owners@.take(n as int);
                let t1 = owners@.take(n as int + 1);
                if k == key {
                    assert(t1[n as int] == key);
                }
                if t1.contains(k) && k != key {
                    let j = choose|j: int| 0 <= j < t1.len() && t1[j] == k;
                    assert(t[j] == k);
                }
                if t.contains(k) {
                    let j = choose|j: int| 0 <= j < n && t[j] == k;
                    assert(owners@.take(n as int + 1)[j] == k);
                }
            }
            assert(self.sets@ =~= Map::new(
                |k: (u8, i32)| m.contains_key(k) && !owners@.take(n as int + 1).contains(k),
                |k: (u8, i32)| m[k],
            ));
            assert(removed@ =~= Set::new(
                |l: i32| exists|j: int| 0 <= j < n + 1 && #[trigger] m[owners@[j]].layers@.contains(l),
            )) by {
                assert forall|l: i32| removed@.contains(l) implies exists|j: int|
                    0 <= j < n + 1 && #[trigger] m[owners@[j]].layers@.contains(l) by {
                    if m[key].layers@.contains(l) {
                        assert(m[owners@[n as int]].layers@.contains(l));
                    }
                }
            }
            n += 1;
        }
        assert(owners@.take(owners@.len() as int) =~= owners@);
        assert(self.sets@ =~= without_surface(m, surface));
        assert(removed@ =~= surface_layers(m, surface)) by {
            assert forall|l: i32| #[trigger] surface_layers(m, surface).contains(l) implies removed@.contains(l) by {
                let k = choose|k: (u8, i32)|
                    #![trigger m[k].layers@.contains(l)]
                    m.contains_key(k) && m[k].surface == surface && m[k].layers@.contains(l);
                assert(owners@.contains(k));
                let j = choose|j: int| 0 <= j < owners@.len() && owners@[j] == k;
                assert(m[owners@[j]].layers@.contains(l));
            }
        }
        removed
    }
}

/// One owner's share of a surface's layer count.
pub open spec fn share_of<D>(set: SurfaceControlSet<D>, surface: i32) -> nat {
    if set.surface == surface {
        set.layers@.len()
    } else {
        0
    }
}

proof fn lemma_fold_congruent<D>(
    s: Set<(u8, i32)>,
    m1: Map<(u8, i32), SurfaceControlSet<D>>,
    m2: Map<(u8, i32), SurfaceControlSet<D>>,
    surface: i32,
)
    requires
        s.finite(),
        forall|k: (u8, i32)| s.contains(k) ==> share_of(m1[k], surface) == share_of(m2[k], surface),
    ensures
        s.fold(0nat, surface_share(m1, surface)) == s.fold(0nat, surface_share(m2, surface)),
    decreases s.len(),
{
    if s.len() == 0 {
        assert(s =~= Set::<(u8, i32)>::empty());
        vstd::set::fold::lemma_fold_empty(0nat, surface_share(m1, surface));
        vstd::set::fold::lemma_fold_empty(0nat, surface_share(m2, surface));
    } else {
        let k = s.choose();
        lemma_fold_remove(s, k, m1, surface);
        lemma_fold_remove(s, k, m2, surface);
        lemma_fold_congruent(s.remove(k), m1, m2, surface);
    }
}

/// The layer count of a surface is the sum of the owners' shares: filing a
/// new owner adds its share, and removing an owner takes its share away.
pub proof fn law_layer_count_sums_owners<D>(
    m: Map<(u8, i32), SurfaceControlSet<D>>,
    key: (u8, i32),
    set: SurfaceControlSet<D>,
    surface: i32,
)
    requires
        m.dom().finite(),
    ensures
        layer_count_spec(Map::<(u8, i32), SurfaceControlSet<D>>::empty(), surface) == 0,
        !m.contains_key(key) ==> layer_count_spec(m.insert(key, set), surface) == layer_count_spec(
            m,
            surface,
        ) + share_of(set, surface),
        m.contains_key(key) ==> layer_count_spec(m, surface) == layer_count_spec(m.remove(key), surface)
            + share_of(m[key], surface),
{
    vstd::set::fold::lemma_fold_empty(0nat, surface_share(Map::<(u8, i32), SurfaceControlSet<D>>::empty(), surface));
    assert(Map::<(u8, i32), SurfaceControlSet<D>>::empty().dom() =~= Set::<(u8, i32)>::empty());
    if !m.contains_key(key) {
        let m2 = m.insert(key, set);
        lemma_fold_remove(m2.dom(), key, m2, surface);
        assert(m2.dom().remove(key) =~= m.dom());
        lemma_fold_congruent(m.dom(), m2, m, surface);
    } else {
        let m2 = m.remove(key);
        lemma_fold_remove(m.dom(), key, m, surface);
        assert(m.dom().remove(key) =~= m2.dom());
        lemma_fold_congruent(m2.dom(), m, m2, surface);
    }
}

/// Owners are independent: replacing or removing one owner's controls
/// leaves every other owner's layers as they were, on the same surface or
/// not.
pub proof fn law_owners_are_independent<D>(
    m: Map<(u8, i32), SurfaceControlSet<D>>,
    a: SurfaceControlOwner,
    b: SurfaceControlOwner,
    replacement: SurfaceControlSet<D>,
)
    requires
        a != b,
    ensures
        owner_layers(m.insert(owner_key(a), replacement), b) == owner_layers(m, b),
        owner_layers(m.remove(owner_key(a)), b) == owner_layers(m, b),
{
    assert(owner_key(a) != owner_key(b));
}

proof fn lemma_fold_of_other_surfaces<D>(
    s: Set<(u8, i32)>,
    m: Map<(u8, i32), SurfaceControlSet<D>>,
    surface: i32,
)
    requires
        s.finite(),
        forall|k: (u8, i32)| s.contains(k) ==> m[k].surface != surface,
    ensures
        s.fold(0nat, surface_share(m, surface)) == 0,
    decreases s.len(),
{
    if s.len() == 0 {
        assert(s =~= Set::<(u8, i32)>::empty());
        vstd::set::fold::lemma_fold_empty(0nat, surface_share(m, surface));
    } else {
        let k = s.choose();
        lemma_fold_remove(s, k, m, surface);
        lemma_fold_of_other_surfaces(s.remove(k), m, surface);
    }
}

/// Once a surface is removed, no layers are counted on it.
pub proof fn law_removed_surface_counts_no_layers<D>(m: Map<(u8, i32), SurfaceControlSet<D>>, surface: i32)
    requires
        m.dom().finite(),
    ensures
        layer_count_spec(without_surface(m, surface), surface) == 0,
        surface_layers(without_surface(m, surface), surface) == Set::<i32>::empty(),
{
    let w = without_surface(m, surface);
    assert(w.dom() =~= m.dom().filter(|k: (u8, i32)| m[k].surface != surface));
    lemma_fold_of_other_surfaces(w.dom(), w, surface);
    assert(surface_layers(w, surface) =~= Set::<i32>::empty());
}

impl<D: PartialEq> SurfaceControlRegistry<D> {
    /// Whether the owner's set is on `surface` and was made from an equal
    /// descriptor (for descriptors whose `==` is an equality).
    pub fn is_unchanged(&self, owner: SurfaceControlOwner, surface: i32, descriptor: &D) -> (out: bool)
        ensures
            D::obeys_eq_spec() ==> out == (self@.contains_key(owner_key(owner))
                && self@[owner_key(owner)].surface == surface
                && self@[owner_key(owner)].descriptor.eq_spec(descriptor)),
    {
        match self.sets.get(&key_of(owner)) {
            Some(set) => set.surface == surface && set.descriptor == *descriptor,
            None => false,
        }
    }
}

} // verus!
