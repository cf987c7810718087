//! The todo items and the shared collection that holds them.

use vstd::prelude::*;

verus! {

broadcast use vstd::seq_lib::group_seq_properties;

/// One task: its id, whether it is done, and its text.
#[derive(Clone, Debug, PartialEq)]
pub struct TodoItem {
    pub id: u32,
    pub checked: bool,
    pub contents: String,
}

impl View for TodoItem {
    /// `(id, checked, contents)`
    type V = (u32, bool, Seq<char>);

    open spec fn view(&self) -> (u32, bool, Seq<char>) {
        (self.id, self.checked, self.contents@)
    }
}

#[verifier::external_type_specification]
#[verifier::external_body]
#[verifier::reject_recursive_types(K)]
#[verifier::reject_recursive_types(V)]
#[verifier::reject_recursive_types(S)]
pub struct ExImHashMap<K, V, S>(im_rc::HashMap<K, V, S>);

/// What a persistent map of items holds: each key with its item's view.
pub uninterp spec fn entries_of(m: im_rc::HashMap<u32, TodoItem>) -> Map<u32, (u32, bool, Seq<char>)>;

/// Relies on im_rc::HashMap::new: a new map holds no entries.
#[verifier::external_body]
fn map_new() -> (r: im_rc::HashMap<u32, TodoItem>)
    ensures
        entries_of(r) =~= Map::empty(),
{
    im_rc::HashMap::new()
}

/// Relies on im_rc::HashMap::insert: the key is bound to the value, replacing
/// any earlier binding.
#[verifier::external_body]
fn map_insert(m: &mut im_rc::HashMap<u32, TodoItem>, k: u32, v: TodoItem)
    ensures
        entries_of(*final(m)) == entries_of(*old(m)).insert(k, v@),
{
    m.insert(k, v);
}

/// Relies on im_rc::HashMap::len: the number of entries.
#[verifier::external_body]
fn map_len(m: &im_rc::HashMap<u32, TodoItem>) -> (r: usize)
    ensures
        r == entries_of(*m).len(),
{
    m.len()
}

/// Relies on im_rc::HashMap::get: the value bound to the key, if any.
#[verifier::external_body]
fn map_get(m: &im_rc::HashMap<u32, TodoItem>, k: u32) -> (r: Option<&TodoItem>)
    ensures
        match r {
            Some(t) => entries_of(*m).contains_key(k) && t@ == entries_of(*m)[k],
            None => !entries_of(*m).contains_key(k),
        },
{
    m.get(&k)
}

/// Relies on im_rc::HashMap::remove: the key's binding is gone, all others stay.
#[verifier::external_body]
fn map_remove(m: &mut im_rc::HashMap<u32, TodoItem>, k: u32)
    ensures
        entries_of(*final(m)) == entries_of(*old(m)).remove(k),
{
    m.remove(&k);
}

/// Relies on im_rc::HashMap::keys: each key of the map, once, in an order
/// that the map's hasher decides.
#[verifier::external_body]
fn map_keys(m: &im_rc::HashMap<u32, TodoItem>) -> (r: Vec<u32>)
    ensures
        r@.no_duplicates(),
        r@.to_set() == entries_of(*m).dom(),
{
    m.keys().copied().collect()
}

/// Relies on slice::sort_unstable: the same elements, in ascending order.
#[verifier::external_body]
fn sort_ids(v: &mut Vec<u32>)
    ensures
        final(v)@.to_multiset() == old(v)@.to_multiset(),
        forall|i: int, j: int| 0 <= i < j < final(v)@.len() ==> final(v)@[i] <= final(v)@[j],
{
    v.sort_unstable();
}

/// Which items the list shows.
#[derive(Clone, Copy, Debug, PartialEq, Eq, Structural)]
pub enum Filter {
    All,
    Active,
    Completed,
}

/// Whether an item that is (or is not) checked passes the filter.
pub open spec fn passes(f: Filter, checked: bool) -> bool {
    match f {
        Filter::All => true,
        Filter::Active => !checked,
        Filter::Completed => checked,
    }
}

/// The model of a collection: each id with its item `(id, checked, contents)`.
pub type TodoMap = Map<u32, (u32, bool, Seq<char>)>;

/// The ids whose item passes the filter.
pub open spec fn visible_set(m: TodoMap, f: Filter) -> Set<u32> {
    m.dom().filter(|k: u32| passes(f, m[k].1))
}

/// The ids of the items not yet done.
pub open spec fn active_set(m: TodoMap) -> Set<u32> {
    m.dom().filter(|k: u32| !m[k].1)
}

/// The collection with every checked item removed.
pub open spec fn without_completed(m: TodoMap) -> TodoMap {
    m.restrict(active_set(m))
}

/// The collection with the done flag of item `id` set, if it is there.
pub open spec fn with_checked(m: TodoMap, id: u32, checked: bool) -> TodoMap {
    if m.contains_key(id) {
        m.insert(id, (id, checked, m[id].2))
    } else {
        m
    }
}

/// The collection with the text of item `id` replaced, if it is there.
pub open spec fn with_contents(m: TodoMap, id: u32, contents: Seq<char>) -> TodoMap {
    if m.contains_key(id) {
        m.insert(id, (id, m[id].1, contents))
    } else {
        m
    }
}

/// Clearing completed items keeps exactly the items not done, each as it
/// was, and clearing a second time changes nothing.
pub proof fn lemma_clear_completed(m: TodoMap)
    ensures
        forall|k: u32| #[trigger]
            without_completed(m).contains_key(k) <==> (m.contains_key(k) && !m[k].1),
        forall|k: u32| #[trigger]
            without_completed(m).contains_key(k) ==> without_completed(m)[k] == m[k],
        without_completed(without_completed(m)) == without_completed(m),
{
    let once = without_completed(m);
    assert(without_completed(once) =~= once);
}

/// A sequence in strictly ascending order.
pub open spec fn strictly_ascending(s: Seq<u32>) -> bool {
    forall|i: int, j: int| 0 <= i < j < s.len() ==> s[i] < s[j]
}

/// The shared collection of todo items, keyed by id, held in a persistent
/// map whose writes copy only the path they change.
pub struct TodoCollection {
    map: im_rc::HashMap<u32, TodoItem>,
}

impl View for TodoCollection {
    type V = TodoMap;

    closed spec fn view(&self) -> TodoMap {
        entries_of(self.map)
    }
}

impl TodoCollection {
    /// Finitely many items, each stored under its own id.
    pub open spec fn wf(&self) -> bool {
        &&& self@.dom().finite()
        &&& forall|k: u32| #[trigger] self@.contains_key(k) ==> self@[k].0 == k
    }

    /// An empty collection.
    pub fn new() -> (r: Self)
        ensures
            r.wf(),
            r@ == TodoMap::empty(),
    {
        TodoCollection { map: map_new() }
    }

    /// The number of items.
    pub fn len(&self) -> (r: usize)
        ensures
            r == self@.len(),
    {
        map_len(&self.map)
    }

    /// Whether the collection holds no item.
    pub fn is_empty(&self) -> (r: bool)
        requires
            self.wf(),
        ensures
            r == (self@.len() == 0),
            r == (self@.dom() == Set::<u32>::empty()),
    {
        let n = map_len(&self.map);
        proof {
            if n == 0 {
                assert(self@.dom() =~= Set::<u32>::empty());
            } else {
                assert(self@.dom() != Set::<u32>::empty());
            }
        }
        n == 0
    }

    /// The item with this id, if there is one.
    pub fn get(&self, id: u32) -> (r: Option<&TodoItem>)
        ensures
            match r {
                Some(t) => self@.contains_key(id) && t@ == self@[id],
                None => !self@.contains_key(id),
            },
    {
        map_get(&self.map, id)
    }

    /// Every id in the collection, once each, in no particular order.
    pub fn ids(&self) -> (r: Vec<u32>)
        ensures
            r@.no_duplicates(),
            r@.to_set() == self@.dom(),
    {
        map_keys(&self.map)
    }

    /// Stores the item under its id, replacing any item with that id.
    pub fn insert(&mut self, item: TodoItem)
        requires
            old(self).wf(),
        ensures
            final(self).wf(),
            final(self)@ == old(self)@.insert(item.id, item@),
    {
        let id = item.id;
        map_insert(&mut self.map, id, item);
    }

    /// Sets whether the item with this id is done; no change if there is none.
    pub fn set_checked(&mut self, id: u32, checked: bool)
        requires
            old(self).wf(),
        ensures
            final(self).wf(),
            final(self)@ == with_checked(old(self)@, id, checked),
    {
        match map_get(&self.map, id) {
            Some(t) => {
                let item = TodoItem { id, checked, contents: t.contents.clone() };
                map_insert(&mut self.map, id, item);
            },
            None => {},
        }
    }

    /// Replaces the text of the item with this id; no change if there is none.
    pub fn set_contents(&mut self, id: u32, contents: String)
        requires
            old(self).wf(),
        ensures
            final(self).wf(),
            final(self)@ == with_contents(old(self)@, id, contents@),
    {
        match map_get(&self.map, id) {
            Some(t) => {
                let item = TodoItem { id, checked: t.checked, contents };
                map_insert(&mut self.map, id, item);
            },
            None => {},
        }
    }

    /// The number of items not yet done, over the whole collection.
    pub fn items_left(&self) -> (r: usize)
        requires
            self.wf(),
        ensures
            r == active_set(self@).len(),
    {
        let ks = map_keys(&self.map);
        let ghost m = self@;
        let mut count: usize = 0;
        let mut i: usize = 0;
        assert(ks@.take(0).to_set().filter(|k: u32| !m[k].1) =~= Set::<u32>::empty());
        while i < ks.len()
            invariant
                m == self@,
                ks@.no_duplicates(),
                ks@.to_set() == m.dom(),
                i <= ks@.len(),
                ks@.take(i as int).to_set().filter(|k: u32| !m[k].1).finite(),
                count == ks@.take(i as int).to_set().filter(|k: u32| !m[k].1).len(),
                count <= i,
            decreases ks@.len() - i,
        {
            let k = ks[i];
            let ghost before = ks@.take(i as int).to_set().filter(|k: u32| !m[k].1);
            proof {
                assert(ks@.take(i as int + 1) =~= ks@.take(i as int).push(k));
                assert(!ks@.take(i as int).contains(k));
                assert(m.contains_key(k)) by {
                    assert(ks@.contains(k));
                }
            }
            match map_get(&self.map, k) {
                Some(t) => {
                    if !t.checked {
                        proof {
                            assert(ks@.take(i as int + 1).to_set().filter(|k: u32| !m[k].1)
                                =~= before.insert(k));
                            assert(!before.contains(k));
                        }
                        count = count + 1;
                    } else {
                        assert(ks@.take(i as int + 1).to_set().filter(|k: u32| !m[k].1)
                            =~= before);
                    }
                },
                None => {},
            }
            i = i + 1;
        }
        assert(ks@.take(ks@.len() as int) =~= ks@);
        assert(ks@.to_set().filter(|k: u32| !m[k].1) =~= active_set(m));
        count
    }

    /// Whether at least one item is done.
    pub fn show_clear_completed(&self) -> (r: bool)
        ensures
            r == exists|k: u32| #[trigger] self@.contains_key(k) && self@[k].1,
    {
        let ks = map_keys(&self.map);
        let mut i: usize = 0;
        while i < ks.len()
            invariant
                ks@.to_set() == self@.dom(),
                i <= ks@.len(),
                forall|j: int| 0 <= j < i ==> !self@[#[trigger] ks@[j]].1,
            decreases ks@.len() - i,
        {
            let k = ks[i];
            assert(ks@.contains(k));
            match map_get(&self.map, k) {
                Some(t) => {
                    if t.checked {
                        return true;
                    }
                },
                None => {},
            }
            i = i + 1;
        }
        assert forall|k: u32| self@.contains_key(k) implies !self@[k].1 by {
            assert(ks@.to_set().contains(k));
            let j = choose|j: int| 0 <= j < ks@.len() && ks@[j] == k;
        }
        false
    }

    /// The ids of the items that pass the filter, in ascending order.
    pub fn visible_ids(&self, filter: Filter) -> (r: Vec<u32>)
        ensures
            r@.to_set() == visible_set(self@, filter),
            strictly_ascending(r@),
    {
        let ks = map_keys(&self.map);
        let ghost m = self@;
        let mut out: Vec<u32> = Vec::new();
        let mut i: usize = 0;
        while i < ks.len()
            invariant
                m == self@,
                ks@.no_duplicates(),
                ks@.to_set() == m.dom(),
                i <= ks@.len(),
                out@.no_duplicates(),
                out@.to_set() == ks@.take(i as int).to_set().filter(|k: u32| passes(filter, m[k].1)),
            decreases ks@.len() - i,
        {
            let k = ks[i];
            proof {
                assert(ks@.take(i as int + 1) =~= ks@.take(i as int).push(k));
                assert(!ks@.take(i as int).contains(k));
                assert(ks@.contains(k));
            }
            match map_get(&self.map, k) {
                Some(t) => {
                    let keep = match filter {
                        Filter::All => true,
                        Filter::Active => !t.checked,
                        Filter::Completed => t.checked,
                    };
                    if keep {
                        proof {
                            assert(!out@.to_set().contains(k));
                            assert(out@.push(k).to_set() =~= out@.to_set().insert(k));
                        }
                        out.push(k);
                        assert(out@.to_set() =~= ks@.take(i as int + 1).to_set().filter(
                            |k: u32| passes(filter, m[k].1),
                        ));
                    } else {
                        assert(out@.to_set() =~= ks@.take(i as int + 1).to_set().filter(
                            |k: u32| passes(filter, m[k].1),
                        ));
                    }
                },
                None => {},
            }
            i = i + 1;
        }
        assert(ks@.take(ks@.len() as int) =~= ks@);
        assert(out@.to_set() =~= visible_set(m, filter));
        let ghost before = out@;
        sort_ids(&mut out);
        proof {
            broadcast use vstd::seq_lib::to_multiset_contains;

            before.lemma_multiset_has_no_duplicates();
            assert forall|x: u32| out@.to_multiset().contains(x) implies out@.to_multiset().count(
                x,
            ) == 1 by {
                assert(before.to_multiset().contains(x));
            }
            out@.lemma_multiset_has_no_duplicates_conv();
            assert forall|x: u32| out@.contains(x) <==> before.contains(x) by {
                assert(out@.to_multiset().count(x) == before.to_multiset().count(x));
            }
            assert(out@.to_set() =~= before.to_set());
        }
        out
    }

    /// Removes every item that is done and keeps the others as they were.
    pub fn clear_completed(&mut self)
        requires
            old(self).wf(),
        ensures
            final(self).wf(),
            final(self)@ == without_completed(old(self)@),
    {
        let ks = map_keys(&self.map);
        let ghost m = self@;
        let mut i: usize = 0;
        while i < ks.len()
            invariant
                ks@.to_set() == m.dom(),
                ks@.no_duplicates(),
                i <= ks@.len(),
                self@.dom().finite(),
                forall|k: u32| #[trigger]
                    self@.contains_key(k) <==> (m.contains_key(k) && !(ks@.take(i as int).contains(
                        k,
                    ) && m[k].1)),
                forall|k: u32| #[trigger] self@.contains_key(k) ==> self@[k] == m[k],
                forall|k: u32| #[trigger] m.contains_key(k) ==> m[k].0 == k,
            decreases ks@.len() - i,
        {
            let k = ks[i];
            proof {
                assert(ks@.take(i as int + 1) =~= ks@.take(i as int).push(k));
                assert(ks@.contains(k));
                assert(!ks@.take(i as int).contains(k));
            }
            let done = match map_get(&self.map, k) {
                Some(t) => t.checked,
                None => false,
            };
            if done {
                map_remove(&mut self.map, k);
            }
            i = i + 1;
        }
        assert(ks@.take(ks@.len() as int) =~= ks@);
        assert forall|k: u32| m.contains_key(k) implies ks@.contains(k) by {
            assert(ks@.to_set().contains(k));
        }
        assert(self@ =~= without_completed(m));
    }
}

} // verus!
