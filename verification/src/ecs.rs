//! The entity-component system: entities, per-kind component storage, and
//! per-kind update dispatch.
//!
//! Component storage is a registry keyed by explicit kind descriptors
//! ([`ComponentKind`]): one growable list per kind, added lazily the first
//! time the kind is used, together with an updater registration for the
//! kind. Entities refer to their components by storage index, and
//! components refer back to their owning entity by arena index — no
//! back-pointers.

use vstd::prelude::*;
use crate::component::{ComponentData, ComponentKind, created_component, updated_once};
use crate::scriptable::Scriptable;

verus! {

/// Arena index of an entity: its position in the system's entity list.
pub type Id = usize;

/// Whether an association list holds a binding for `key`.
pub open spec fn assoc_has<K, V>(s: Seq<(K, V)>, key: K) -> bool {
    exists|i: int| 0 <= i < s.len() && (#[trigger] s[i]).0 == key
}

/// The value bound to `key` in an association list, if any. Under
/// [`assoc_distinct`] the binding is unique, so the choice is determined.
pub open spec fn assoc_get<K, V>(s: Seq<(K, V)>, key: K) -> Option<V> {
    if assoc_has(s, key) {
        let i = choose|i: int| 0 <= i < s.len() && (#[trigger] s[i]).0 == key;
        Some(s[i].1)
    } else {
        None
    }
}

/// No two bindings share a key.
pub open spec fn assoc_distinct<K, V>(s: Seq<(K, V)>) -> bool {
    forall|i: int, j: int|
        #![trigger s[i], s[j]]
        0 <= i < j < s.len() ==> s[i].0 != s[j].0
}

/// In a duplicate-free association list, a binding found at position `p`
/// is the binding.
pub proof fn lemma_assoc_get_at<K, V>(s: Seq<(K, V)>, key: K, p: int)
    requires
        assoc_distinct(s),
        0 <= p < s.len(),
        s[p].0 == key,
    ensures
        assoc_get(s, key) == Some(s[p].1),
{
    assert(assoc_has(s, key));
    let i = choose|i: int| 0 <= i < s.len() && (#[trigger] s[i]).0 == key;
    assert(i == p);
}

/// A key bound at no position is absent.
pub proof fn lemma_assoc_get_none<K, V>(s: Seq<(K, V)>, key: K)
    requires
        forall|i: int| 0 <= i < s.len() ==> (#[trigger] s[i]).0 != key,
    ensures
        assoc_get(s, key) is None,
{
}

/// Overwriting the binding at `p` rebinds its key and leaves every other
/// key's binding as it was.
pub proof fn lemma_assoc_update<K, V>(s: Seq<(K, V)>, key: K, v: V, p: int)
    requires
        assoc_distinct(s),
        0 <= p < s.len(),
        s[p].0 == key,
    ensures
        assoc_distinct(s.update(p, (key, v))),
        assoc_get(s.update(p, (key, v)), key) == Some(v),
        forall|k2: K| k2 != key ==> assoc_get(s.update(p, (key, v)), k2) == assoc_get(s, k2),
{
    let s2 = s.update(p, (key, v));
    assert(forall|i: int| 0 <= i < s.len() ==> (#[trigger] s2[i]).0 == s[i].0);
    lemma_assoc_get_at(s2, key, p);
    assert forall|k2: K| k2 != key implies assoc_get(s2, k2) == assoc_get(s, k2) by {
        if assoc_has(s, k2) {
            let i = choose|i: int| 0 <= i < s.len() && (#[trigger] s[i]).0 == k2;
            assert(i != p);
            assert(s2[i].0 == k2 && s2[i].1 == s[i].1);
            lemma_assoc_get_at(s, k2, i);
            lemma_assoc_get_at(s2, k2, i);
        } else {
            assert(forall|i: int| 0 <= i < s2.len() ==> (#[trigger] s2[i]).0 != k2);
            lemma_assoc_get_none(s, k2);
            lemma_assoc_get_none(s2, k2);
        }
    }
}

/// Appending a binding for a fresh key binds it and leaves every other
/// key's binding as it was.
pub proof fn lemma_assoc_push<K, V>(s: Seq<(K, V)>, key: K, v: V)
    requires
        assoc_distinct(s),
        forall|i: int| 0 <= i < s.len() ==> (#[trigger] s[i]).0 != key,
    ensures
        assoc_distinct(s.push((key, v))),
        assoc_get(s.push((key, v)), key) == Some(v),
        forall|k2: K| k2 != key ==> assoc_get(s.push((key, v)), k2) == assoc_get(s, k2),
{
    let s2 = s.push((key, v));
    assert(s2[s.len() as int].0 == key);
    lemma_assoc_get_at(s2, key, s.len() as int);
    assert forall|k2: K| k2 != key implies assoc_get(s2, k2) == assoc_get(s, k2) by {
        if assoc_has(s, k2) {
            let i = choose|i: int| 0 <= i < s.len() && (#[trigger] s[i]).0 == k2;
            assert(s2[i].0 == k2 && s2[i].1 == s[i].1);
            lemma_assoc_get_at(s, k2, i);
            lemma_assoc_get_at(s2, k2, i);
        } else {
            assert(forall|i: int| 0 <= i < s2.len() ==> (#[trigger] s2[i]).0 != k2);
            lemma_assoc_get_none(s, k2);
            lemma_assoc_get_none(s2, k2);
        }
    }
}

/// One kind's component storage: the list of all live components of that
/// kind, in insertion order.
pub struct ComponentStore<S: Scriptable> {
    pub kind: ComponentKind,
    pub items: Vec<ComponentData<S>>,
}

impl<S: Scriptable> ComponentStore<S> {
    /// Every stored component carries the store's kind.
    pub open spec fn wf(&self) -> bool {
        forall|j: int| 0 <= j < self.items@.len() ==> (#[trigger] self.items@[j]).kind()
            == self.kind
    }
}

/// A named handle over per-kind storage indices: for each component kind
/// the entity uses, the index of its component in that kind's store.
pub struct Entity {
    /// Name of the entity.
    pub name: String,
    /// Binding from component kind to storage index.
    pub comp_index: Vec<(ComponentKind, Id)>,
}

impl Entity {
    /// Bindings are one per kind.
    pub open spec fn wf(&self) -> bool {
        assoc_distinct(self.comp_index@)
    }

    /// The storage index bound to `kind`, if any.
    pub open spec fn spec_index_of(&self, kind: ComponentKind) -> Option<Id> {
        assoc_get(self.comp_index@, kind)
    }

    /// A component kind never added to an entity is not found on it: an
    /// entity without bindings answers no lookup, so requesting a kind
    /// that was never added returns nothing.
    pub proof fn lemma_fresh_has_no_bindings(e: Entity, kind: ComponentKind)
        requires
            e.comp_index@.len() == 0,
        ensures
            e.spec_index_of(kind) is None,
    {
        lemma_assoc_get_none(e.comp_index@, kind);
    }

    /// A fresh entity with the given name and no components.
    pub fn new(name: &str) -> (e: Entity)
        ensures
            e.name@ == name@,
            e.comp_index@.len() == 0,
            e.wf(),
    {
        Entity { name: name.to_owned(), comp_index: Vec::new() }
    }

    /// Look up the storage index of the given kind's component.
    pub fn index_of(&self, kind: ComponentKind) -> (r: Option<Id>)
        requires
            self.wf(),
        ensures
            r == self.spec_index_of(kind),
    {
        let n = self.comp_index.len();
        let mut i: usize = 0;
        while i < n
            invariant
                i <= n,
                n == self.comp_index@.len(),
                self.wf(),
                forall|l: int| 0 <= l < i ==> (#[trigger] self.comp_index@[l]).0 != kind,
            decreases n - i,
        {
            if self.comp_index[i].0 == kind {
                let r = self.comp_index[i].1;
                proof {
                    lemma_assoc_get_at(self.comp_index@, kind, i as int);
                }
                return Some(r);
            }
            i = i + 1;
        }
        proof {
            lemma_assoc_get_none(self.comp_index@, kind);
        }
        None
    }

    /// Bind `kind` to storage index `idx`, overwriting an existing binding
    /// for the kind.
    pub fn set_index(&mut self, kind: ComponentKind, idx: Id)
        requires
            old(self).wf(),
        ensures
            final(self).wf(),
            final(self).name@ == old(self).name@,
            final(self).spec_index_of(kind) == Some(idx),
            forall|k2: ComponentKind| k2 != kind ==> final(self).spec_index_of(k2) == old(self).spec_index_of(k2),
    {
        let n = self.comp_index.len();
        let mut i: usize = 0;
        while i < n
            invariant
                i <= n,
                n == self.comp_index@.len(),
                self == old(self),
                old(self).wf(),
                forall|l: int| 0 <= l < i ==> (#[trigger] self.comp_index@[l]).0 != kind,
            decreases n - i,
        {
            if self.comp_index[i].0 == kind {
                self.comp_index[i] = (kind, idx);
                proof {
                    lemma_assoc_update(old(self).comp_index@, kind, idx, i as int);
                }
                return ;
            }
            i = i + 1;
        }
        self.comp_index.push((kind, idx));
        proof {
            lemma_assoc_push(old(self).comp_index@, kind, idx);
        }
    }
}

/// The entity-component system: owns all entities, all component storage
/// and the per-kind updater registrations.
pub struct ECS<S: Scriptable> {
    /// Per-kind lists of all components that exist in the system.
    pub components: Vec<ComponentStore<S>>,
    /// Binding from entity name to arena index.
    pub entity_ids: Vec<(String, Id)>,
    /// List of entities. Index is their id.
    pub entities: Vec<Entity>,
    /// Kinds with a registered updater, in registration order: one entry
    /// per kind, appended the first time the kind is used.
    pub updaters: Vec<ComponentKind>,
}

impl<S: Scriptable> ECS<S> {
    /// The storage registry as an association list from kind to contents.
    pub open spec fn stores_view(self) -> Seq<(ComponentKind, Seq<ComponentData<S>>)> {
        self.components@.map_values(|st: ComponentStore<S>| (st.kind, st.items@))
    }

    /// Whether storage for `kind` has been created.
    pub open spec fn has_store(self, kind: ComponentKind) -> bool {
        assoc_has(self.stores_view(), kind)
    }

    /// The components of `kind`, in insertion order; empty if the kind has
    /// no storage yet.
    pub open spec fn kind_items(self, kind: ComponentKind) -> Seq<ComponentData<S>> {
        match assoc_get(self.stores_view(), kind) {
            Some(items) => items,
            None => Seq::empty(),
        }
    }

    /// How many components of `kind` exist.
    pub open spec fn component_count(self, kind: ComponentKind) -> nat {
        self.kind_items(kind).len()
    }

    /// The name-to-id binding as an association list over character
    /// sequences.
    pub open spec fn ids_view(self) -> Seq<(Seq<char>, Id)> {
        self.entity_ids@.map_values(|p: (String, Id)| (p.0@, p.1))
    }

    /// The arena index bound to an entity name, if any.
    pub open spec fn spec_entity_id(self, name: Seq<char>) -> Option<Id> {
        assoc_get(self.ids_view(), name)
    }

    /// Whether an updater for `kind` has been registered.
    pub open spec fn registered(self, kind: ComponentKind) -> bool {
        self.updaters@.contains(kind)
    }

    /// Each kind has at most one store.
    pub open spec fn kinds_distinct(&self) -> bool {
        forall|i: int, j: int|
            #![trigger self.components@[i], self.components@[j]]
            0 <= i < j < self.components@.len() ==> self.components@[i].kind
                != self.components@[j].kind
    }

    /// The storage registry is sound: one store and one updater entry per
    /// kind, in the same order, and every store well-kinded.
    pub open spec fn stores_wf(&self) -> bool {
        &&& self.updaters@.len() == self.components@.len()
        &&& (forall|i: int| 0 <= i < self.components@.len() ==> self.updaters@[i] == (
        #[trigger] self.components@[i]).kind)
        &&& self.kinds_distinct()
        &&& (forall|i: int| 0 <= i < self.components@.len() ==> (
        #[trigger] self.components@[i]).wf())
    }

    /// An entity's bindings are one per kind and point into live storage.
    pub open spec fn entity_wf(&self, e: Entity) -> bool {
        &&& e.wf()
        &&& (forall|b: int| 0 <= b < e.comp_index@.len() ==> self.has_store(
            (#[trigger] e.comp_index@[b]).0,
        ) && e.comp_index@[b].1 < self.kind_items(e.comp_index@[b].0).len())
    }

    /// System-wide well-formedness: sound storage registry, valid entity
    /// bindings, and one name-to-id binding per name.
    pub open spec fn wf(&self) -> bool {
        &&& self.stores_wf()
        &&& (forall|ei: int| 0 <= ei < self.entities@.len() ==> self.entity_wf(
            #[trigger] self.entities@[ei],
        ))
        &&& assoc_distinct(self.ids_view())
    }

    /// In a sound registry, store `i` holds exactly the components of its
    /// kind.
    pub proof fn lemma_kind_items_at(&self, i: int)
        requires
            self.kinds_distinct(),
            0 <= i < self.components@.len(),
        ensures
            self.has_store(self.components@[i].kind),
            self.kind_items(self.components@[i].kind) == self.components@[i].items@,
    {
        let sv = self.stores_view();
        assert(forall|a: int, b: int|
            #![trigger sv[a], sv[b]]
            0 <= a < b < sv.len() ==> sv[a].0 != sv[b].0);
        assert(sv[i].0 == self.components@[i].kind);
        lemma_assoc_get_at(sv, self.components@[i].kind, i);
    }

    /// Creates a new, empty system.
    pub fn new() -> (ecs: Self)
        ensures
            ecs.components@.len() == 0,
            ecs.entity_ids@.len() == 0,
            ecs.entities@.len() == 0,
            ecs.updaters@.len() == 0,
            ecs.wf(),
    {
        ECS {
            components: Vec::new(),
            entity_ids: Vec::new(),
            entities: Vec::new(),
            updaters: Vec::new(),
        }
    }

    /// Look up the arena index bound to an entity name.
    pub fn entity_id(&self, name: &str) -> (r: Option<Id>)
        requires
            self.wf(),
        ensures
            r == self.spec_entity_id(name@),
    {
        let key: String = name.to_owned();
        let n = self.entity_ids.len();
        let mut i: usize = 0;
        while i < n
            invariant
                i <= n,
                n == self.entity_ids@.len(),
                key@ == name@,
                self.wf(),
                forall|l: int| 0 <= l < i ==> (#[trigger] self.ids_view()[l]).0 != name@,
            decreases n - i,
        {
            if self.entity_ids[i].0 == key {
                let r = self.entity_ids[i].1;
                proof {
                    assert(self.ids_view()[i as int].0 == name@);
                    lemma_assoc_get_at(self.ids_view(), name@, i as int);
                }
                return Some(r);
            }
            proof {
                assert(self.ids_view()[i as int].0 == self.entity_ids@[i as int].0@);
            }
            i = i + 1;
        }
        proof {
            lemma_assoc_get_none(self.ids_view(), name@);
        }
        None
    }

    /// Adds a new entity to the system under the given name and returns
    /// its arena index. A duplicate name rebinds the name to the new
    /// entity, leaving the earlier entity in place.
    pub fn new_entity(&mut self, name: &str) -> (id: Id)
        requires
            old(self).wf(),
        ensures
            final(self).wf(),
            id == old(self).entities@.len(),
            final(self).entities@.len() == old(self).entities@.len() + 1,
            forall|ei: int| 0 <= ei < old(self).entities@.len() ==> final(self).entities@[ei]
                == old(self).entities@[ei],
            final(self).entities@[id as int].name@ == name@,
            final(self).entities@[id as int].comp_index@.len() == 0,
            final(self).spec_entity_id(name@) == Some(id),
            forall|n2: Seq<char>| n2 != name@ ==> final(self).spec_entity_id(n2) == old(self).spec_entity_id(n2),
            final(self).components@ == old(self).components@,
            final(self).updaters@ == old(self).updaters@,
    {
        let id: Id = self.entities.len();
        let entity = Entity::new(name);
        let key: String = name.to_owned();
        let n = self.entity_ids.len();
        let mut found: Option<usize> = None;
        let mut i: usize = 0;
        while i < n
            invariant
                i <= n,
                n == self.entity_ids@.len(),
                key@ == name@,
                self == old(self),
                old(self).wf(),
                match found {
                    Some(p) => p < i && self.ids_view()[p as int].0 == name@ && assoc_distinct(
                        self.ids_view(),
                    ),
                    None => forall|l: int| 0 <= l < i ==> (#[trigger] self.ids_view()[l]).0
                        != name@,
                },
            decreases n - i,
        {
            if found.is_none() {
                if self.entity_ids[i].0 == key {
                    found = Some(i);
                    proof {
                        assert(self.ids_view()[i as int].0 == name@);
                    }
                } else {
                    proof {
                        assert(self.ids_view()[i as int].0 == self.entity_ids@[i as int].0@);
                    }
                }
            }
            i = i + 1;
        }
        let ghost pre = *self;
        match found {
            Some(p) => {
                self.entity_ids[p] = (key, id);
                proof {
                    assert(self.ids_view() =~= pre.ids_view().update(p as int, (name@, id)));
                    lemma_assoc_update(pre.ids_view(), name@, id, p as int);
                }
            },
            None => {
                self.entity_ids.push((key, id));
                proof {
                    assert(self.ids_view() =~= pre.ids_view().push((name@, id)));
                    lemma_assoc_push(pre.ids_view(), name@, id);
                }
            },
        }
        self.entities.push(entity);
        proof {
            assert forall|ei: int| 0 <= ei < self.entities@.len() implies self.entity_wf(
                #[trigger] self.entities@[ei],
            ) by {
                if ei < pre.entities@.len() {
                    assert(pre.entity_wf(pre.entities@[ei]));
                    assert(self.stores_view() =~= pre.stores_view());
                } else {
                    assert(self.entities@[ei].comp_index@.len() == 0);
                }
            }
            assert(self.stores_view() =~= pre.stores_view());
        }
        id
    }

    /// Adds a component of the given kind to the given entity and returns
    /// its storage index.
    ///
    /// If the kind has never been used, its storage and its updater are
    /// created first. A default-constructed component of the kind is then
    /// appended to the kind's storage, and the entity's binding for the
    /// kind is pointed at it (overwriting an earlier binding for the same
    /// kind). The returned index is the number of components of that kind
    /// that existed before the call, so successive additions of one kind
    /// return strictly increasing indices.
    #[verifier::rlimit(60)]
    pub fn add_component(&mut self, entity: Id, kind: ComponentKind) -> (idx: Id)
        requires
            old(self).wf(),
            entity < old(self).entities@.len(),
        ensures
            final(self).wf(),
            idx == old(self).component_count(kind),
            final(self).component_count(kind) == old(self).component_count(kind) + 1,
            final(self).kind_items(kind).len() == old(self).kind_items(kind).len() + 1,
            forall|j: int| 0 <= j < old(self).kind_items(kind).len() ==> final(self).kind_items(
                kind,
            )[j] == old(self).kind_items(kind)[j],
            created_component(final(self).kind_items(kind).last(), kind, entity),
            forall|k2: ComponentKind| k2 != kind ==> final(self).kind_items(k2) == old(self).kind_items(k2),
            final(self).registered(kind),
            forall|k2: ComponentKind| final(self).registered(k2) <==> (old(self).registered(k2)
                || k2 == kind),
            final(self).entities@.len() == old(self).entities@.len(),
            forall|ei: int| 0 <= ei < old(self).entities@.len() && ei != entity ==> final(self).entities@[ei] == old(self).entities@[ei],
            final(self).entities@[entity as int].name@ == old(self).entities@[entity as int].name@,
            final(self).entities@[entity as int].spec_index_of(kind) == Some(idx),
            forall|k2: ComponentKind| k2 != kind ==> final(self).entities@[entity as int].spec_index_of(
                k2,
            ) == old(self).entities@[entity as int].spec_index_of(k2),
            final(self).entity_ids@ == old(self).entity_ids@,
    {
        let ghost pre = *self;
        let n = self.components.len();
        let mut si_opt: Option<usize> = None;
        let mut i: usize = 0;
        while i < n
            invariant
                i <= n,
                n == self.components@.len(),
                self == old(self),
                match si_opt {
                    Some(p) => p < i && self.components@[p as int].kind == kind,
                    None => forall|l: int| 0 <= l < i ==> (#[trigger] self.components@[l]).kind
                        != kind,
                },
            decreases n - i,
        {
            if si_opt.is_none() {
                if self.components[i].kind == kind {
                    si_opt = Some(i);
                }
            }
            i = i + 1;
        }
        let si: usize = match si_opt {
            Some(p) => p,
            None => {
                self.components.push(ComponentStore { kind, items: Vec::new() });
                self.updaters.push(kind);
                proof {
                    assert(self.stores_view() =~= pre.stores_view().push((kind, Seq::empty())));
                    assert(forall|l: int| 0 <= l < pre.stores_view().len() ==> (
                    #[trigger] pre.stores_view()[l]).0 != kind);
                    lemma_assoc_push(pre.stores_view(), kind, Seq::<ComponentData<S>>::empty());
                }
                self.components.len() - 1
            },
        };
        let ghost mid = *self;
        proof {
            // The registry now surely holds a store for the kind at `si`,
            // with the kind's previous contents.
            assert(mid.stores_wf());
            assert(mid.components@[si as int].kind == kind);
            mid.lemma_kind_items_at(si as int);
            if si_opt is Some {
                pre.lemma_kind_items_at(si as int);
            } else {
                assert(mid.kind_items(kind) =~= pre.kind_items(kind));
            }
            assert(mid.kind_items(kind) == pre.kind_items(kind));
            assert forall|k2: ComponentKind| k2 != kind implies mid.kind_items(k2)
                == pre.kind_items(k2) by {
                if si_opt is None {
                    lemma_assoc_push(pre.stores_view(), kind, Seq::<ComponentData<S>>::empty());
                }
            }
        }
        let c = ComponentData::create(kind, entity);
        let mut store = self.components.remove(si);
        let idx: Id = store.items.len();
        store.items.push(c);
        self.components.insert(si, store);
        proof {
            assert(self.components@.len() == mid.components@.len());
            assert(forall|l: int| 0 <= l < mid.components@.len() && l != si ==> self.components@[l]
                == mid.components@[l]);
            assert(self.components@[si as int].kind == kind);
            assert(self.components@[si as int].items@ == mid.components@[si as int].items@.push(c));
            assert(self.stores_view() =~= mid.stores_view().update(
                si as int,
                (kind, mid.components@[si as int].items@.push(c)),
            ));
            lemma_assoc_update(
                mid.stores_view(),
                kind,
                mid.components@[si as int].items@.push(c),
                si as int,
            );
            self.lemma_kind_items_at(si as int);
        }
        let ghost mid2 = *self;
        let mut e = self.entities.remove(entity);
        e.set_index(kind, idx);
        self.entities.insert(entity, e);
        proof {
            assert(self.entities@ =~= mid2.entities@.update(entity as int, self.entities@[entity as int]));
            assert(self.stores_view() == mid2.stores_view());
            // Every entity still points into live storage: the only store
            // that changed grew by one, and the touched entity's new
            // binding points at the appended slot.
            assert forall|ei: int| 0 <= ei < self.entities@.len() implies self.entity_wf(
                #[trigger] self.entities@[ei],
            ) by {
                let ent = self.entities@[ei];
                assert(pre.entity_wf(pre.entities@[ei]));
                assert forall|b: int| 0 <= b < ent.comp_index@.len() implies self.has_store(
                    (#[trigger] ent.comp_index@[b]).0,
                ) && ent.comp_index@[b].1 < self.kind_items(ent.comp_index@[b].0).len() by {
                    let k2 = ent.comp_index@[b].0;
                    if ei == entity && k2 == kind && ent.comp_index@[b].1 == idx {
                        assert(self.has_store(kind));
                    } else {
                        // An untouched binding: it already existed before
                        // the call, on the same entity.
                        if ei == entity {
                            if k2 == kind {
                                // Duplicate binding for the kind is ruled
                                // out by the entity's own distinctness.
                                let oldent = pre.entities@[ei];
                                assert(ent.wf());
                                assert(ent.spec_index_of(kind) == Some(idx));
                                lemma_assoc_get_at(ent.comp_index@, kind, b);
                                assert(ent.comp_index@[b].1 == idx);
                            } else {
                                let oldent = pre.entities@[ei];
                                assert(ent.spec_index_of(k2) == oldent.spec_index_of(k2));
                                lemma_assoc_get_at(ent.comp_index@, k2, b);
                                if assoc_has(oldent.comp_index@, k2) {
                                    let ob = choose|ob: int|
                                        0 <= ob < oldent.comp_index@.len() && (
                                        #[trigger] oldent.comp_index@[ob]).0 == k2;
                                    lemma_assoc_get_at(oldent.comp_index@, k2, ob);
                                    assert(oldent.comp_index@[ob].1 == ent.comp_index@[b].1);
                                    assert(pre.has_store(k2) && oldent.comp_index@[ob].1
                                        < pre.kind_items(k2).len());
                                } else {
                                    assert(oldent.spec_index_of(k2) is None);
                                    assert(false);
                                }
                            }
                        } else {
                            assert(ent == pre.entities@[ei]);
                            assert(pre.has_store(k2) && ent.comp_index@[b].1 < pre.kind_items(
                                k2,
                            ).len());
                        }
                        // Storage for `k2` only grew or stayed put.
                        if k2 == kind {
                            assert(self.kind_items(kind).len() == pre.kind_items(kind).len() + 1);
                        } else {
                            assert(self.kind_items(k2) == pre.kind_items(k2));
                        }
                        assert(self.has_store(k2)) by {
                            if k2 == kind {
                            } else {
                                assert(pre.has_store(k2));
                                let sidx = choose|sidx: int|
                                    0 <= sidx < pre.stores_view().len() && (
                                    #[trigger] pre.stores_view()[sidx]).0 == k2;
                                assert(self.stores_view()[sidx].0 == k2);
                            }
                        }
                    }
                }
            }
            // Updater registration: unchanged when the store already
            // existed (the kind was registered with the store), extended
            // by the kind otherwise.
            if si_opt is Some {
                let p = si_opt->0;
                assert(self.updaters@ == pre.updaters@);
                assert(pre.updaters@[p as int] == kind);
                assert(pre.registered(kind));
            } else {
                assert(self.updaters@ == pre.updaters@.push(kind));
                assert(self.updaters@[pre.updaters@.len() as int] == kind);
                assert(self.registered(kind));
                assert forall|k2: ComponentKind| self.registered(k2) <==> (pre.registered(k2)
                    || k2 == kind) by {
                    if pre.registered(k2) {
                        let w = choose|w: int|
                            0 <= w < pre.updaters@.len() && pre.updaters@[w] == k2;
                        assert(self.updaters@[w] == k2);
                    }
                    if self.registered(k2) && k2 != kind {
                        let w = choose|w: int|
                            0 <= w < self.updaters@.len() && self.updaters@[w] == k2;
                        assert(w < pre.updaters@.len());
                        assert(pre.updaters@[w] == k2);
                    }
                }
            }
        }
        idx
    }

    /// Fetch the given entity's component of the given kind, for reading
    /// or reconfiguring in place. Returns nothing exactly when the entity
    /// has no binding for the kind — in particular, for a kind that was
    /// never added to the entity.
    #[verifier::rlimit(60)]
    pub fn get_component(&mut self, entity: Id, kind: ComponentKind) -> (r: Option<
        &mut ComponentData<S>,
    >)
        requires
            old(self).wf(),
            entity < old(self).entities@.len(),
        ensures
            r is Some <==> old(self).entities@[entity as int].spec_index_of(kind) is Some,
            r is None ==> *final(self) == *old(self),
            match (old(self).entities@[entity as int].spec_index_of(kind), r) {
                (Some(bidx), Some(c)) => bidx < old(self).kind_items(kind).len() && *c == old(self).kind_items(kind)[bidx as int],
                _ => true,
            },
            match (old(self).entities@[entity as int].spec_index_of(kind), r) {
                (Some(bidx), Some(c)) => final(self).kind_items(kind) == old(self).kind_items(
                    kind,
                ).update(bidx as int, *final(c)),
                _ => true,
            },
            match (old(self).entities@[entity as int].spec_index_of(kind), r) {
                (Some(bidx), Some(c)) => forall|k2: ComponentKind| k2 != kind ==> final(self).kind_items(k2) == old(self).kind_items(k2),
                _ => true,
            },
            r is Some ==> final(self).entities@ == old(self).entities@ && final(self).entity_ids@
                == old(self).entity_ids@ && final(self).updaters@ == old(self).updaters@,
            r is Some ==> final(self).components@.len() == old(self).components@.len() && (forall|
                i: int,
            |
                0 <= i < old(self).components@.len() ==> (#[trigger] final(self).components@[i]).kind == old(self).components@[i].kind && final(self).components@[i].items@.len() == old(self).components@[i].items@.len()),
            match r {
                Some(c) => final(c).kind() == kind ==> final(self).wf(),
                None => true,
            },
    {
        let bidx: Id;
        match self.entities[entity].index_of(kind) {
            None => {
                return None;
            },
            Some(b) => {
                bidx = b;
            },
        }
        let n = self.components.len();
        let mut si_opt: Option<usize> = None;
        let mut i: usize = 0;
        while i < n
            invariant
                i <= n,
                n == self.components@.len(),
                self == old(self),
                match si_opt {
                    Some(p) => p < i && self.components@[p as int].kind == kind,
                    None => forall|l: int| 0 <= l < i ==> (#[trigger] self.components@[l]).kind
                        != kind,
                },
            decreases n - i,
        {
            if si_opt.is_none() {
                if self.components[i].kind == kind {
                    si_opt = Some(i);
                }
            }
            i = i + 1;
        }
        proof {
            // The entity's binding guarantees live storage for the kind,
            // so the scan cannot have come up empty.
            let e = self.entities@[entity as int];
            assert(self.entity_wf(e));
            assert(assoc_has(e.comp_index@, kind));
            let b = choose|b: int|
                0 <= b < e.comp_index@.len() && (#[trigger] e.comp_index@[b]).0 == kind;
            assert(self.has_store(kind));
            if si_opt is None {
                let w = choose|w: int|
                    0 <= w < self.stores_view().len() && (#[trigger] self.stores_view()[w]).0
                        == kind;
                assert(self.components@[w].kind == kind);
                assert(false);
            }
            // The binding's index is in range for the kind's store.
            lemma_assoc_get_at(e.comp_index@, kind, b);
            assert(e.comp_index@[b].1 == bidx);
            assert(bidx < self.kind_items(kind).len());
        }
        let si: usize = match si_opt {
            Some(p) => p,
            None => {
                proof {
                    assert(false);
                }
                0
            },
        };
        let ghost pre = *self;
        proof {
            pre.lemma_kind_items_at(si as int);
            assert(pre.kind_items(kind) == pre.components@[si as int].items@);
            // Whatever the caller leaves in slot (si, bidx) through the
            // returned borrow, the registry around it is unchanged; and if
            // the slot keeps its kind, the whole system stays well-formed.
            assert forall|post: ECS<S>|
                Self::slot_replaced(pre, post, si as int, bidx as int) implies (
                #[trigger] post.kind_items(kind)) == pre.kind_items(kind).update(
                bidx as int,
                post.components@[si as int].items@[bidx as int],
            ) by {
                Self::lemma_slot_replaced_effects(pre, post, si as int, bidx as int, kind);
            }
            assert forall|post: ECS<S>, k2: ComponentKind|
                Self::slot_replaced(pre, post, si as int, bidx as int) && k2 != kind implies (
                #[trigger] post.kind_items(k2)) == pre.kind_items(k2) by {
                Self::lemma_slot_replaced_effects(pre, post, si as int, bidx as int, kind);
            }
            assert forall|post: ECS<S>|
                Self::slot_replaced(pre, post, si as int, bidx as int) && post.components@[
                    si as int
                ].items@[bidx as int].kind() == kind implies #[trigger] post.wf() by {
                Self::lemma_slot_replaced_effects(pre, post, si as int, bidx as int, kind);
            }
        }
        let store = &mut self.components[si];
        let c = &mut store.items[bidx];
        Some(c)
    }

    /// How a state `post` relates to a state `pre` when at most the
    /// component in slot `bidx` of store `si` differs and everything else
    /// is kept.
    pub open spec fn slot_replaced(pre: Self, post: Self, si: int, bidx: int) -> bool {
        &&& post.entities@ == pre.entities@
        &&& post.entity_ids@ == pre.entity_ids@
        &&& post.updaters@ == pre.updaters@
        &&& post.components@.len() == pre.components@.len()
        &&& (forall|l: int| 0 <= l < pre.components@.len() && l != si ==> post.components@[l]
            == pre.components@[l])
        &&& post.components@[si].kind == pre.components@[si].kind
        &&& post.components@[si].items@.len() == pre.components@[si].items@.len()
        &&& (forall|j: int| 0 <= j < pre.components@[si].items@.len() && j != bidx
            ==> post.components@[si].items@[j] == pre.components@[si].items@[j])
    }

    /// Replacing one slot changes that kind's contents at that index and
    /// nothing else; if the slot keeps its kind, well-formedness is kept.
    pub proof fn lemma_slot_replaced_effects(
        pre: Self,
        post: Self,
        si: int,
        bidx: int,
        kind: ComponentKind,
    )
        requires
            pre.wf(),
            0 <= si < pre.components@.len(),
            pre.components@[si].kind == kind,
            0 <= bidx < pre.components@[si].items@.len(),
            Self::slot_replaced(pre, post, si, bidx),
        ensures
            pre.kind_items(kind) == pre.components@[si].items@,
            post.kind_items(kind) == pre.kind_items(kind).update(
                bidx,
                post.components@[si].items@[bidx],
            ),
            forall|k2: ComponentKind| k2 != kind ==> post.kind_items(k2) == pre.kind_items(k2),
            post.components@[si].items@[bidx].kind() == kind ==> post.wf(),
    {
        pre.lemma_kind_items_at(si);
        let v = post.components@[si].items@[bidx];
        assert(post.components@[si].items@ =~= pre.components@[si].items@.update(bidx, v));
        assert(post.stores_view() =~= pre.stores_view().update(
            si,
            (kind, post.components@[si].items@),
        ));
        lemma_assoc_update(pre.stores_view(), kind, post.components@[si].items@, si);
        if v.kind() == kind {
            assert(post.stores_wf());
            assert forall|ei: int| 0 <= ei < post.entities@.len() implies post.entity_wf(
                #[trigger] post.entities@[ei],
            ) by {
                let ent = post.entities@[ei];
                assert(pre.entity_wf(ent));
                assert forall|bb: int| 0 <= bb < ent.comp_index@.len() implies post.has_store(
                    (#[trigger] ent.comp_index@[bb]).0,
                ) && ent.comp_index@[bb].1 < post.kind_items(ent.comp_index@[bb].0).len() by {
                    let k2 = ent.comp_index@[bb].0;
                    if k2 == kind {
                        assert(post.kind_items(kind).len() == pre.kind_items(kind).len());
                    } else {
                        assert(post.kind_items(k2) == pre.kind_items(k2));
                    }
                    assert(post.has_store(k2)) by {
                        let w2 = choose|w2: int|
                            0 <= w2 < pre.stores_view().len() && (
                            #[trigger] pre.stores_view()[w2]).0 == k2;
                        assert(post.stores_view()[w2].0 == k2);
                    }
                }
            }
            assert(post.wf());
        }
    }

    /// Used for updating the components of one kind: runs the update hook
    /// of every component in the kind's store, in storage order, exactly
    /// once. Registered by `add_component` the first time a kind is used.
    pub fn updater(comps: &mut Vec<ComponentStore<S>>, kind: ComponentKind)
        requires
            exists|i: int| 0 <= i < old(comps)@.len() && (#[trigger] old(comps)@[i]).kind == kind,
            forall|i: int, j: int|
                #![trigger old(comps)@[i], old(comps)@[j]]
                0 <= i < j < old(comps)@.len() ==> old(comps)@[i].kind != old(comps)@[j].kind,
        ensures
            final(comps)@.len() == old(comps)@.len(),
            forall|i: int| 0 <= i < old(comps)@.len() ==> (#[trigger] final(comps)@[i]).kind
                == old(comps)@[i].kind,
            forall|i: int| 0 <= i < old(comps)@.len() && old(comps)@[i].kind != kind ==> final(comps)@[i] == old(comps)@[i],
            forall|i: int| 0 <= i < old(comps)@.len() && old(comps)@[i].kind == kind ==> (
            #[trigger] final(comps)@[i]).items@.len() == old(comps)@[i].items@.len() && (forall|
                j: int,
            |
                0 <= j < old(comps)@[i].items@.len() ==> updated_once(
                    old(comps)@[i].items@[j],
                    #[trigger] final(comps)@[i].items@[j],
                )),
    {
        let n = comps.len();
        let mut si_opt: Option<usize> = None;
        let mut i: usize = 0;
        while i < n
            invariant
                i <= n,
                n == comps@.len(),
                comps == old(comps),
                match si_opt {
                    Some(p) => p < i && comps@[p as int].kind == kind,
                    None => forall|l: int| 0 <= l < i ==> (#[trigger] comps@[l]).kind != kind,
                },
            decreases n - i,
        {
            if si_opt.is_none() {
                if comps[i].kind == kind {
                    si_opt = Some(i);
                }
            }
            i = i + 1;
        }
        proof {
            if si_opt is None {
                let w = choose|w: int|
                    0 <= w < comps@.len() && (#[trigger] comps@[w]).kind == kind;
                assert(false);
            }
        }
        let si: usize = match si_opt {
            Some(p) => p,
            None => {
                proof {
                    assert(false);
                }
                0
            },
        };
        let mut store = comps.remove(si);
        let ghost items0 = store.items@;
        let m = store.items.len();
        let mut j: usize = 0;
        while j < m
            invariant
                j <= m,
                m == store.items@.len(),
                store.kind == kind,
                forall|l: int| 0 <= l < j ==> updated_once(items0[l], #[trigger] store.items@[l]),
                forall|l: int| j <= l < m ==> store.items@[l] == items0[l],
            decreases m - j,
        {
            let ghost items_before = store.items@;
            let mut c = store.items.remove(j);
            c.update();
            store.items.insert(j, c);
            proof {
                assert(store.items@ =~= items_before.update(j as int, c));
            }
            j = j + 1;
        }
        comps.insert(si, store);
        proof {
            assert(comps@ =~= old(comps)@.update(si as int, comps@[si as int]));
            // The kind's store is the scanned one: kinds are one per
            // store.
            assert forall|i2: int|
                0 <= i2 < old(comps)@.len() && old(comps)@[i2].kind == kind implies i2
                == si as int by {
            }
        }
    }

    /// How one system update relates two states: the storage layout is
    /// kept, and every component in every store has been updated exactly
    /// once, in place.
    pub open spec fn updated_system(pre: Self, post: Self) -> bool {
        &&& post.components@.len() == pre.components@.len()
        &&& forall|i: int| 0 <= i < pre.components@.len() ==> (
        #[trigger] post.components@[i]).kind == pre.components@[i].kind
            && post.components@[i].items@.len() == pre.components@[i].items@.len() && (forall|
            j: int,
        |
            0 <= j < pre.components@[i].items@.len() ==> updated_once(
                pre.components@[i].items@[j],
                #[trigger] post.components@[i].items@[j],
            ))
    }

    /// After one system update, the components of every kind are the old
    /// components of that kind, each advanced one tick, in place: each
    /// component was updated exactly once.
    pub proof fn lemma_update_kind_items(pre: Self, post: Self, kind: ComponentKind)
        requires
            pre.kinds_distinct(),
            Self::updated_system(pre, post),
        ensures
            post.kind_items(kind).len() == pre.kind_items(kind).len(),
            forall|j: int| 0 <= j < pre.kind_items(kind).len() ==> updated_once(
                pre.kind_items(kind)[j],
                #[trigger] post.kind_items(kind)[j],
            ),
    {
        assert(forall|i: int| 0 <= i < post.stores_view().len() ==> (
        #[trigger] post.stores_view()[i]).0 == pre.stores_view()[i].0);
        if pre.has_store(kind) {
            let w = choose|w: int|
                0 <= w < pre.stores_view().len() && (#[trigger] pre.stores_view()[w]).0 == kind;
            pre.lemma_kind_items_at(w);
            assert(post.components@[w].kind == kind);
            post.lemma_kind_items_at(w);
        } else {
            if post.has_store(kind) {
                let w = choose|w: int|
                    0 <= w < post.stores_view().len() && (#[trigger] post.stores_view()[w]).0
                        == kind;
                assert(pre.stores_view()[w].0 == kind);
                assert(false);
            }
        }
    }

    /// Updates the system: every registered kind's updater runs once, so
    /// every component in the system is updated exactly once.
    pub fn update(&mut self)
        requires
            old(self).wf(),
        ensures
            final(self).wf(),
            final(self).entities@ == old(self).entities@,
            final(self).entity_ids@ == old(self).entity_ids@,
            final(self).updaters@ == old(self).updaters@,
            Self::updated_system(*old(self), *final(self)),
    {
        let n = self.updaters.len();
        let mut u: usize = 0;
        while u < n
            invariant
                u <= n,
                n == self.updaters@.len(),
                old(self).wf(),
                self.updaters@ == old(self).updaters@,
                self.entities@ == old(self).entities@,
                self.entity_ids@ == old(self).entity_ids@,
                self.components@.len() == old(self).components@.len(),
                forall|i: int| 0 <= i < old(self).components@.len() ==> (#[trigger] self.components@[i]).kind == old(self).components@[i].kind,
                forall|i: int| u <= i < old(self).components@.len() ==> self.components@[i] == old(self).components@[i],
                forall|i: int| 0 <= i < u && i < old(self).components@.len() ==> (
                #[trigger] self.components@[i]).items@.len() == old(self).components@[i].items@.len() && (forall|j: int|
                    0 <= j < old(self).components@[i].items@.len() ==> updated_once(
                        old(self).components@[i].items@[j],
                        #[trigger] self.components@[i].items@[j],
                    )),
            decreases n - u,
        {
            let kind = self.updaters[u];
            let ghost before = *self;
            proof {
                assert(old(self).components@[u as int].kind == kind);
                assert(before.components@[u as int].kind == kind);
            }
            Self::updater(&mut self.components, kind);
            proof {
                // Only store `u` has this kind, so only store `u` changed.
                assert forall|i: int|
                    0 <= i < before.components@.len() && i != u implies self.components@[i]
                    == before.components@[i] by {
                    assert(before.components@[i].kind != kind);
                }
            }
            u = u + 1;
        }
        proof {
            // Well-formedness is preserved: the layout is unchanged and
            // every component kept its kind.
            assert(self.stores_wf()) by {
                assert forall|i: int| 0 <= i < self.components@.len() implies (
                #[trigger] self.components@[i]).wf() by {
                    assert(old(self).components@[i].wf());
                }
            }
            assert forall|ei: int| 0 <= ei < self.entities@.len() implies self.entity_wf(
                #[trigger] self.entities@[ei],
            ) by {
                let ent = self.entities@[ei];
                assert(old(self).entity_wf(ent));
                assert forall|bb: int| 0 <= bb < ent.comp_index@.len() implies self.has_store(
                    (#[trigger] ent.comp_index@[bb]).0,
                ) && ent.comp_index@[bb].1 < self.kind_items(ent.comp_index@[bb].0).len() by {
                    let k2 = ent.comp_index@[bb].0;
                    let w2 = choose|w2: int|
                        0 <= w2 < old(self).stores_view().len() && (#[trigger] old(self).stores_view()[w2]).0 == k2;
                    assert(self.stores_view()[w2].0 == k2);
                    old(self).lemma_kind_items_at(w2);
                    self.lemma_kind_items_at(w2);
                }
            }
        }
    }

    /// Delete the entity with the given name: the entity at the arena
    /// index currently bound to the name is removed from the entity list.
    ///
    /// Entities behind the removed one shift down by one place, while the
    /// name-to-id binding and the component storage are left untouched —
    /// bindings to shifted entities therefore go stale, exactly as the
    /// name map says they do.
    pub fn delete(&mut self, name: &str)
        requires
            old(self).wf(),
            match old(self).spec_entity_id(name@) {
                Some(id) => id < old(self).entities@.len(),
                None => false,
            },
        ensures
            final(self).wf(),
            final(self).entities@ == old(self).entities@.remove(
                old(self).spec_entity_id(name@)->Some_0 as int,
            ),
            final(self).components@ == old(self).components@,
            final(self).updaters@ == old(self).updaters@,
            final(self).entity_ids@ == old(self).entity_ids@,
    {
        let id: Id = match self.entity_id(name) {
            Some(id) => id,
            None => {
                proof {
                    assert(false);
                }
                0
            },
        };
        self.entities.remove(id);
        proof {
            assert(self.stores_view() == old(self).stores_view());
            assert forall|ei: int| 0 <= ei < self.entities@.len() implies self.entity_wf(
                #[trigger] self.entities@[ei],
            ) by {
                if ei < id {
                    assert(self.entities@[ei] == old(self).entities@[ei]);
                    assert(old(self).entity_wf(old(self).entities@[ei]));
                } else {
                    assert(self.entities@[ei] == old(self).entities@[ei + 1]);
                    assert(old(self).entity_wf(old(self).entities@[ei + 1]));
                }
            }
        }
    }

    /// What one `add_component` call does to the counts: the returned
    /// index is the number of components of the kind that existed before,
    /// and the count then grows by one.
    pub open spec fn add_step(pre: Self, post: Self, kind: ComponentKind, idx: Id) -> bool {
        &&& idx == pre.component_count(kind)
        &&& post.component_count(kind) == pre.component_count(kind) + 1
    }

    /// Adding components of one kind, one after the other, yields
    /// strictly increasing — hence pairwise distinct — storage indices,
    /// in insertion order.
    pub proof fn lemma_add_indices_increase(
        states: Seq<ECS<S>>,
        kind: ComponentKind,
        indices: Seq<Id>,
    )
        requires
            states.len() == indices.len() + 1,
            forall|i: int| 0 <= i < indices.len() ==> Self::add_step(
                states[i],
                states[i + 1],
                kind,
                #[trigger] indices[i],
            ),
        ensures
            forall|i: int, j: int| 0 <= i < j < indices.len() ==> indices[i] < indices[j],
    {
        assert forall|i: int, j: int| 0 <= i < j < indices.len() implies indices[i]
            < indices[j] by {
            Self::lemma_add_counts_monotone(states, kind, indices, i, j);
        }
    }

    /// Between two additions of the same kind, the earlier index is the
    /// smaller: the kind's count only grows.
    proof fn lemma_add_counts_monotone(
        states: Seq<ECS<S>>,
        kind: ComponentKind,
        indices: Seq<Id>,
        i: int,
        j: int,
    )
        requires
            states.len() == indices.len() + 1,
            forall|l: int| 0 <= l < indices.len() ==> Self::add_step(
                states[l],
                states[l + 1],
                kind,
                #[trigger] indices[l],
            ),
            0 <= i < j < indices.len(),
        ensures
            indices[i] < indices[j],
        decreases j - i,
    {
        if j == i + 1 {
            assert(Self::add_step(states[i], states[i + 1], kind, indices[i]));
            assert(Self::add_step(states[j], states[j + 1], kind, indices[j]));
        } else {
            Self::lemma_add_counts_monotone(states, kind, indices, i, j - 1);
            assert(Self::add_step(states[j - 1], states[j], kind, indices[j - 1]));
            assert(Self::add_step(states[j], states[j + 1], kind, indices[j]));
        }
    }

    /// What one `new_entity` call does to the name binding: the returned
    /// arena index is the old entity count, the entity list grows by one,
    /// and the name is bound to the new index — whether or not it was
    /// bound before.
    pub open spec fn new_entity_step(pre: Self, post: Self, name: Seq<char>, id: Id) -> bool {
        &&& id == pre.entities@.len()
        &&& post.entities@.len() == pre.entities@.len() + 1
        &&& post.spec_entity_id(name) == Some(id)
    }

    /// Creating two entities under one name leaves the name bound to the
    /// second: the later binding wins, and the first entity keeps its
    /// place but loses its name.
    pub proof fn lemma_duplicate_name_overwrites(
        s0: Self,
        s1: Self,
        s2: Self,
        name: Seq<char>,
        id1: Id,
        id2: Id,
    )
        requires
            Self::new_entity_step(s0, s1, name, id1),
            Self::new_entity_step(s1, s2, name, id2),
        ensures
            s2.spec_entity_id(name) == Some(id2),
            id1 < id2,
    {
    }
}

} // verus!
