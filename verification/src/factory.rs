use std::collections::HashMap;

use vector_map::VecMap;
use vstd::prelude::*;

verus! {

broadcast use vstd::std_specs::hash::group_hash_axioms;

/// `vector_map::VecMap`, a map kept in two vectors.
#[verifier::external_type_specification]
#[verifier::external_body]
#[verifier::reject_recursive_types(K)]
#[verifier::reject_recursive_types(V)]
pub struct ExVecMap<K, V>(VecMap<K, V>);

/// What a component still needs done to its widget.
#[derive(Copy, Clone, Debug, PartialEq, Eq)]
pub enum ChangeType {
    Add,
    Remove,
    Recreate,
    Update,
}

/// The pending change of each key in a change map.
pub uninterp spec fn changes_of(m: VecMap<u64, ChangeType>) -> Map<u64, ChangeType>;

/// No change pending for any key.
pub open spec fn no_changes() -> Map<u64, ChangeType> {
    Map::empty()
}

/// `VecMap::new`: an empty map.
#[verifier::external_body]
fn changes_new() -> (res: VecMap<u64, ChangeType>)
    ensures
        changes_of(res) == no_changes(),
{
    VecMap::new()
}

/// `VecMap::get`: the change pending for `k`, if any.
#[verifier::external_body]
fn changes_get(m: &VecMap<u64, ChangeType>, k: u64) -> (res: Option<ChangeType>)
    ensures
        res == (if changes_of(*m).contains_key(k) {
            Some(changes_of(*m)[k])
        } else {
            None
        }),
{
    m.get(&k).copied()
}

/// `VecMap::contains_key`.
#[verifier::external_body]
fn changes_contains(m: &VecMap<u64, ChangeType>, k: u64) -> (res: bool)
    ensures
        res == changes_of(*m).contains_key(k),
{
    m.contains_key(&k)
}

/// `VecMap::insert`: `k` maps to `v` afterwards, the other keys as before.
#[verifier::external_body]
fn changes_insert(m: &mut VecMap<u64, ChangeType>, k: u64, v: ChangeType)
    ensures
        changes_of(*final(m)) == changes_of(*old(m)).insert(k, v),
{
    m.insert(k, v);
}

/// `VecMap::clear`: no key is left.
#[verifier::external_body]
fn changes_clear(m: &mut VecMap<u64, ChangeType>)
    ensures
        changes_of(*final(m)) == no_changes(),
{
    m.clear();
}

/// `VecMap::iter`, each entry copied out: every key once, with its change.
#[verifier::external_body]
fn changes_entries(m: &VecMap<u64, ChangeType>) -> (res: Vec<(u64, ChangeType)>)
    ensures
        forall|i: int, j: int| 0 <= i < j < res@.len() ==> res@[i].0 != res@[j].0,
        forall|i: int| 0 <= i < res@.len() ==> changes_of(*m).contains_key(#[trigger] res@[i].0) && changes_of(*m)[res@[i].0] == res@[i].1,
        forall|k: u64| changes_of(*m).contains_key(k) ==> exists|i: int| 0 <= i < res@.len() && #[trigger] res@[i].0 == k,
{
    m.iter().map(|(k, v)| (*k, *v)).collect()
}

/// `HashMap::get_mut`: a reference into the entry for `k`, through which the
/// entry is changed.
#[verifier::external_body]
fn map_get_mut<C>(m: &mut HashMap<u64, C>, k: u64) -> (res: Option<&mut C>)
    ensures
        match res {
            Some(r) => old(m)@.contains_key(k) && *r == old(m)@[k] && final(m)@ == old(m)@.insert(k, *final(r)),
            None => !old(m)@.contains_key(k) && final(m)@ == old(m)@,
        },
{
    m.get_mut(&k)
}

/// `HashMap::keys`, each key copied out: every key of the map, once.
#[verifier::external_body]
fn map_keys<C>(m: &HashMap<u64, C>) -> (res: Vec<u64>)
    ensures
        forall|i: int, j: int| 0 <= i < j < res@.len() ==> res@[i] != res@[j],
        forall|i: int| 0 <= i < res@.len() ==> m@.contains_key(#[trigger] res@[i]),
        forall|k: u64| m@.contains_key(k) ==> exists|i: int| 0 <= i < res@.len() && #[trigger] res@[i] == k,
{
    m.keys().copied().collect()
}

/// Whether one of the first `i` entries has key `x`.
pub open spec fn seen(entries: Seq<(u64, ChangeType)>, i: int, x: u64) -> bool {
    exists|a: int| 0 <= a < i && #[trigger] entries[a].0 == x
}

/// The change `insert` stages for a key: a component that was removed (or
/// already recreated) since the last flush is recreated, any other is added.
pub open spec fn insert_change(staged: Map<u64, ChangeType>, key: u64) -> ChangeType {
    if staged.contains_key(key) && (staged[key] == ChangeType::Recreate || staged[key] == ChangeType::Remove) {
        ChangeType::Recreate
    } else {
        ChangeType::Add
    }
}

/// The staged changes once the component under `key` is changed: an update
/// is staged unless a change already is.
pub open spec fn touched(staged: Map<u64, ChangeType>, key: u64) -> Map<u64, ChangeType> {
    if staged.contains_key(key) {
        staged
    } else {
        staged.insert(key, ChangeType::Update)
    }
}

/// Components keyed by grid id, with the changes their widgets still need:
/// `staged` collects them as the model changes, `flush` hands them over to
/// `flushes`, from which the view applies them.
pub struct Factory<C> {
    components: HashMap<u64, C>,
    staged: VecMap<u64, ChangeType>,
    flushes: VecMap<u64, ChangeType>,
}

impl<C> Factory<C> {
    pub closed spec fn components(&self) -> Map<u64, C> {
        self.components@
    }

    pub closed spec fn staged(&self) -> Map<u64, ChangeType> {
        changes_of(self.staged)
    }

    pub closed spec fn flushes(&self) -> Map<u64, ChangeType> {
        changes_of(self.flushes)
    }

    pub fn new() -> (res: Self)
        ensures
            res.components() == Map::<u64, C>::empty(),
            res.staged() == Map::<u64, ChangeType>::empty(),
            res.flushes() == Map::<u64, ChangeType>::empty(),
    {
        Factory { components: HashMap::new(), staged: changes_new(), flushes: changes_new() }
    }

    /// Starts from the components of `base`, each one's widget staged to be
    /// added.
    pub fn from_hashmap(base: HashMap<u64, C>) -> (res: Self)
        ensures
            res.components() == base@,
            res.staged() == Map::new(|k: u64| base@.contains_key(k), |k: u64| ChangeType::Add),
            res.flushes() == no_changes(),
    {
        let ghost b = base@;
        let keys = map_keys(&base);
        let mut base = base;
        let mut factory: Factory<C> = Factory::new();
        let mut i: usize = 0;
        while i < keys.len()
            invariant
                i <= keys@.len(),
                forall|a: int, c: int| 0 <= a < c < keys@.len() ==> keys@[a] != keys@[c],
                forall|a: int| 0 <= a < keys@.len() ==> b.contains_key(#[trigger] keys@[a]),
                forall|k: u64| b.contains_key(k) ==> exists|a: int| 0 <= a < keys@.len() && #[trigger] keys@[a] == k,
                forall|k: u64| #[trigger] factory.components().contains_key(k) ==> b.contains_key(k)
                    && factory.components()[k] == b[k] && !base@.contains_key(k),
                forall|k: u64| #[trigger] b.contains_key(k) ==> (base@.contains_key(k) && base@[k] == b[k])
                    || factory.components().contains_key(k),
                forall|k: u64| #[trigger] base@.contains_key(k) ==> b.contains_key(k)
                    && exists|a: int| i <= a < keys@.len() && #[trigger] keys@[a] == k,
                factory.staged().dom() == factory.components().dom(),
                forall|k: u64| #[trigger] factory.staged().contains_key(k) ==> factory.staged()[k] == ChangeType::Add,
                factory.flushes() == no_changes(),
            decreases keys@.len() - i,
        {
            let k = keys[i];
            proof {
                if !base@.contains_key(k) {
                    assert(factory.components().contains_key(k));
                }
                if factory.components().contains_key(k) {
                    assert(!base@.contains_key(k));
                }
            }
            match base.remove(&k) {
                Some(c) => {
                    factory.insert(k, c);
                },
                None => {},
            }
            proof {
                assert forall|q: u64| #[trigger] base@.contains_key(q) implies b.contains_key(q)
                    && exists|a: int| i + 1 <= a < keys@.len() && #[trigger] keys@[a] == q by {
                    let a = choose|a: int| i <= a < keys@.len() && #[trigger] keys@[a] == q;
                    assert(a != i);
                }
                assert(factory.staged().dom() =~= factory.components().dom());
            }
            i = i + 1;
        }
        proof {
            assert(factory.components() =~= b);
            assert(factory.staged() =~= Map::new(|k: u64| b.contains_key(k), |k: u64| ChangeType::Add));
        }
        factory
    }

    /// The components, by key.
    pub fn into_hashmap(self) -> (res: HashMap<u64, C>)
        ensures
            res@ == self.components(),
    {
        self.components
    }

    /// Removes every component, staging its removal.
    pub fn clear(&mut self)
        ensures
            final(self).components() == Map::<u64, C>::empty(),
            final(self).staged() == old(self).staged().union_prefer_right(
                Map::new(|k: u64| old(self).components().contains_key(k), |k: u64| ChangeType::Remove),
            ),
            final(self).flushes() == old(self).flushes(),
    {
        let ghost old_staged = self.staged();
        let ghost comps = self.components();
        let keys = map_keys(&self.components);
        let mut i: usize = 0;
        while i < keys.len()
            invariant
                comps == self.components@,
                i <= keys@.len(),
                forall|a: int| 0 <= a < keys@.len() ==> comps.contains_key(#[trigger] keys@[a]),
                forall|k: u64| comps.contains_key(k) ==> exists|a: int| 0 <= a < keys@.len() && #[trigger] keys@[a] == k,
                changes_of(self.staged) == old_staged.union_prefer_right(
                    Map::new(|x: u64| keys@.take(i as int).contains(x), |x: u64| ChangeType::Remove),
                ),
                changes_of(self.flushes) == changes_of(old(self).flushes),
            decreases keys@.len() - i,
        {
            changes_insert(&mut self.staged, keys[i], ChangeType::Remove);
            proof {
                assert(keys@.take(i + 1) =~= keys@.take(i as int).push(keys@[i as int]));
                assert forall|x: u64| #[trigger] keys@.take(i + 1).contains(x) <==> (keys@.take(i as int).contains(x) || x == keys@[i as int]) by {
                    if keys@.take(i as int).contains(x) {
                        let a = choose|a: int| 0 <= a < i && #[trigger] keys@.take(i as int)[a] == x;
                        assert(keys@.take(i + 1)[a] == x);
                    }
                    if x == keys@[i as int] {
                        assert(keys@.take(i + 1)[i as int] == x);
                    }
                    if keys@.take(i + 1).contains(x) {
                        let a = choose|a: int| 0 <= a < i + 1 && #[trigger] keys@.take(i + 1)[a] == x;
                        if a < i {
                            assert(keys@.take(i as int)[a] == x);
                        }
                    }
                }
                assert(changes_of(self.staged) =~= old_staged.union_prefer_right(
                    Map::new(|x: u64| keys@.take(i + 1).contains(x), |x: u64| ChangeType::Remove),
                ));
            }
            i = i + 1;
        }
        proof {
            assert(keys@.take(keys@.len() as int) =~= keys@);
            assert(changes_of(self.staged) =~= old_staged.union_prefer_right(
                Map::new(|k: u64| comps.contains_key(k), |k: u64| ChangeType::Remove),
            )) by {
                assert forall|k: u64| comps.contains_key(k) implies keys@.contains(k) by {
                    let a = choose|a: int| 0 <= a < keys@.len() && #[trigger] keys@[a] == k;
                }
            }
        }
        self.components.clear();
    }

    /// Puts `component` under `key` and stages its widget: recreated when
    /// one was removed since the last flush, added otherwise.
    pub fn insert(&mut self, key: u64, component: C)
        ensures
            final(self).components() == old(self).components().insert(key, component),
            final(self).staged() == old(self).staged().insert(key, insert_change(old(self).staged(), key)),
            final(self).flushes() == old(self).flushes(),
    {
        self.components.insert(key, component);
        let changed = match changes_get(&self.staged, key) {
            Some(ChangeType::Recreate) => ChangeType::Recreate,
            Some(ChangeType::Remove) => ChangeType::Recreate,
            _ => ChangeType::Add,
        };
        changes_insert(&mut self.staged, key, changed);
    }

    /// Takes out the component under `key`, staging the removal of its widget.
    pub fn remove(&mut self, key: u64) -> (res: Option<C>)
        ensures
            final(self).components() == old(self).components().remove(key),
            match res {
                Some(c) => old(self).components().contains_key(key) && c == old(self).components()[key]
                    && final(self).staged() == old(self).staged().insert(key, ChangeType::Remove),
                None => !old(self).components().contains_key(key) && final(self).staged() == old(self).staged(),
            },
            final(self).flushes() == old(self).flushes(),
    {
        let component = self.components.remove(&key);
        if component.is_some() {
            changes_insert(&mut self.staged, key, ChangeType::Remove);
        }
        component
    }

    /// The component under `key`.
    pub fn get(&self, key: u64) -> (res: Option<&C>)
        ensures
            match res {
                Some(c) => self.components().contains_key(key) && *c == self.components()[key],
                None => !self.components().contains_key(key),
            },
    {
        self.components.get(&key)
    }

    /// The component under `key`, to be changed: unless a change is already
    /// staged for it, an update of its widget is.
    pub fn get_mut(&mut self, key: u64) -> (res: Option<&mut C>)
        ensures
            final(self).staged() == touched(old(self).staged(), key),
            old(self).staged().contains_key(key) ==> final(self).staged() == old(self).staged(),
            !old(self).staged().contains_key(key) ==> final(self).staged() == old(self).staged().insert(key, ChangeType::Update),
            final(self).flushes() == old(self).flushes(),
            match res {
                Some(r) => old(self).components().contains_key(key) && *r == old(self).components()[key]
                    && final(self).components() == old(self).components().insert(key, *final(r)),
                None => !old(self).components().contains_key(key) && final(self).components() == old(self).components(),
            },
    {
        if !changes_contains(&self.staged, key) {
            changes_insert(&mut self.staged, key, ChangeType::Update);
        }
        map_get_mut(&mut self.components, key)
    }

    /// Hands the staged changes over to the view: each one overrides the
    /// change already waiting for its key, and nothing stays staged.
    pub fn flush(&mut self)
        ensures
            final(self).flushes() == old(self).flushes().union_prefer_right(old(self).staged()),
            final(self).staged() == no_changes(),
            final(self).components() == old(self).components(),
    {
        let ghost old_flushes = self.flushes();
        let ghost staged = self.staged();
        let entries = changes_entries(&self.staged);
        let mut i: usize = 0;
        while i < entries.len()
            invariant
                i <= entries@.len(),
                staged == changes_of(self.staged),
                self.components@ == old(self).components@,
                forall|a: int, b: int| 0 <= a < b < entries@.len() ==> entries@[a].0 != entries@[b].0,
                forall|a: int| 0 <= a < entries@.len() ==> staged.contains_key(#[trigger] entries@[a].0) && staged[entries@[a].0] == entries@[a].1,
                forall|k: u64| staged.contains_key(k) ==> exists|a: int| 0 <= a < entries@.len() && #[trigger] entries@[a].0 == k,
                changes_of(self.flushes) == old_flushes.union_prefer_right(
                    staged.restrict(Set::new(|k: u64| seen(entries@, i as int, k))),
                ),
            decreases entries@.len() - i,
        {
            let (k, v) = entries[i];
            changes_insert(&mut self.flushes, k, v);
            proof {
                assert(changes_of(self.flushes) =~= old_flushes.union_prefer_right(
                    staged.restrict(Set::new(|x: u64| seen(entries@, i + 1, x))),
                )) by {
                    assert forall|x: u64| #[trigger] seen(entries@, i + 1, x) <==> (seen(entries@, i as int, x) || x == k) by {
                        if x == k {
                            assert(entries@[i as int].0 == x);
                        }
                    }
                }
            }
            i = i + 1;
        }
        proof {
            assert(changes_of(self.flushes) =~= old_flushes.union_prefer_right(staged)) by {
                assert(staged.restrict(Set::new(|k: u64| seen(entries@, entries@.len() as int, k))) =~= staged);
            }
        }
        changes_clear(&mut self.staged);
    }

    pub fn len(&self) -> (res: usize)
        ensures
            res == self.components().len(),
    {
        self.components.len()
    }

    pub fn is_empty(&self) -> (res: bool)
        ensures
            res == (self.components().len() == 0),
    {
        self.components.is_empty()
    }

    /// Hands the view the changes waiting for its widgets, each key once
    /// with its change, and forgets them.
    pub fn render_changes(&mut self) -> (res: Vec<(u64, ChangeType)>)
        ensures
            forall|i: int, j: int| 0 <= i < j < res@.len() ==> res@[i].0 != res@[j].0,
            forall|i: int| 0 <= i < res@.len() ==> old(self).flushes().contains_key(#[trigger] res@[i].0)
                && old(self).flushes()[res@[i].0] == res@[i].1,
            forall|k: u64| old(self).flushes().contains_key(k) ==> exists|i: int| 0 <= i < res@.len() && #[trigger] res@[i].0 == k,
            final(self).flushes() == no_changes(),
            final(self).staged() == old(self).staged(),
            final(self).components() == old(self).components(),
    {
        let changes = changes_entries(&self.flushes);
        changes_clear(&mut self.flushes);
        changes
    }
}

/// A component inserted again after its removal, with no flush in between,
/// has its widget recreated.
pub proof fn lemma_reinsert_recreates(staged: Map<u64, ChangeType>, key: u64)
    ensures
        insert_change(staged.insert(key, ChangeType::Remove), key) == ChangeType::Recreate,
{
}

/// A component inserted with nothing staged for it is added.
pub proof fn lemma_fresh_insert_adds(staged: Map<u64, ChangeType>, key: u64)
    requires
        !staged.contains_key(key),
    ensures
        insert_change(staged, key) == ChangeType::Add,
{
}

/// After a flush every change staged before it waits in `flushes`, and a key
/// with nothing staged keeps the change it was waiting with.
pub proof fn lemma_flush_moves_changes(flushes: Map<u64, ChangeType>, staged: Map<u64, ChangeType>, k: u64)
    ensures
        staged.contains_key(k) ==> flushes.union_prefer_right(staged)[k] == staged[k],
        !staged.contains_key(k) && flushes.contains_key(k) ==> flushes.union_prefer_right(staged)[k] == flushes[k],
        flushes.union_prefer_right(staged).contains_key(k) == (flushes.contains_key(k) || staged.contains_key(k)),
{
}

/// Changing a component never overrides the change already staged for it,
/// and stages an update only when nothing is staged; other keys keep theirs.
pub proof fn lemma_touch_keeps_staged(staged: Map<u64, ChangeType>, key: u64, k: u64)
    ensures
        touched(staged, key).contains_key(key),
        staged.contains_key(key) ==> touched(staged, key)[key] == staged[key],
        !staged.contains_key(key) ==> touched(staged, key)[key] == ChangeType::Update,
        k != key ==> touched(staged, key).contains_key(k) == staged.contains_key(k),
        k != key && staged.contains_key(k) ==> touched(staged, key)[k] == staged[k],
{
}

/// A component inserted with nothing staged for it and then changed before
/// the flush still has its widget added by the flush.
pub proof fn lemma_insert_then_change_adds(flushes: Map<u64, ChangeType>, staged: Map<u64, ChangeType>, key: u64)
    requires
        !staged.contains_key(key),
    ensures
        flushes.union_prefer_right(touched(staged.insert(key, insert_change(staged, key)), key))[key] == ChangeType::Add,
{
}

} // verus!
