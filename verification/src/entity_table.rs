//! Components of one kind, keyed by the entity that carries them.
//!
//! The distribution engine works on two such tables, one of input methods
//! and one of input handlers. An entity is named by its 64-bit identifier;
//! a table holds at most one item per entity.

use vstd::prelude::*;

verus! {

/// A table from entities to items of type `X`.
///
/// Its model is the mapping `self@`. How the entries are laid out is given
/// by [`EntityTable::entities`] and [`EntityTable::items`], which the
/// functions that walk a table speak of.
pub struct EntityTable<X> {
    entities: Vec<u64>,
    items: Vec<X>,
}

impl<X> View for EntityTable<X> {
    type V = Map<u64, X>;

    /// The item of each entity that the table holds.
    open spec fn view(&self) -> Map<u64, X> {
        Map::new(
            |e: u64| self.entities().contains(e),
            |e: u64| self.items()[self.entities().index_of(e)],
        )
    }
}

impl<X> EntityTable<X> {
    #[verifier::type_invariant]
    spec fn inv(self) -> bool {
        &&& self.entities.len() == self.items.len()
        &&& self.entities@.no_duplicates()
    }

    /// The entities of the table, in the order of its slots.
    pub closed spec fn entities(&self) -> Seq<u64> {
        self.entities@
    }

    /// The items of the table; the item in slot `i` belongs to the entity in slot `i`.
    pub closed spec fn items(&self) -> Seq<X> {
        self.items@
    }

    /// Every slot holds one entity and one item, and no entity holds two slots.
    /// This is true of every table that the functions below hand out.
    pub open spec fn wf(&self) -> bool {
        &&& self.entities().len() == self.items().len()
        &&& self.entities().no_duplicates()
    }

    /// In a well-formed table the item of the entity in slot `i` is the item in slot `i`.
    pub proof fn lemma_slot(&self, i: int)
        requires
            self.wf(),
            0 <= i < self.entities().len(),
        ensures
            self@.contains_key(self.entities()[i]),
            self@[self.entities()[i]] == self.items()[i],
    {
        let e = self.entities()[i];
        assert(self.entities().contains(e));
        let k = self.entities().index_of(e);
        assert(self.entities()[k] == e);
    }

    /// An empty table.
    pub fn new() -> (r: Self)
        ensures
            r.wf(),
            r.entities() == Seq::<u64>::empty(),
            r.items() == Seq::<X>::empty(),
            r@ == Map::<u64, X>::empty(),
    {
        let r = EntityTable { entities: Vec::new(), items: Vec::new() };
        assert(r@ =~= Map::<u64, X>::empty());
        r
    }

    /// The number of slots.
    pub fn len(&self) -> (n: usize)
        ensures
            self.wf(),
            n == self.entities().len(),
            n == self@.dom().len(),
    {
        proof {
            use_type_invariant(self);
            self.entities@.unique_seq_to_set();
            assert(self@.dom() =~= self.entities@.to_set());
        }
        self.entities.len()
    }

    /// The entity in slot `i`.
    pub fn entity_at(&self, i: usize) -> (e: u64)
        requires
            i < self.entities().len(),
        ensures
            self.wf(),
            e == self.entities()[i as int],
    {
        proof {
            use_type_invariant(self);
        }
        self.entities[i]
    }

    /// The item in slot `i`.
    pub fn item_at(&self, i: usize) -> (item: &X)
        requires
            i < self.entities().len(),
        ensures
            self.wf(),
            *item == self.items()[i as int],
    {
        proof {
            use_type_invariant(self);
        }
        &self.items[i]
    }

    /// The item in slot `i`, to be changed in place. The entity of the slot stays.
    pub fn item_mut(&mut self, i: usize) -> (item: &mut X)
        requires
            i < old(self).entities().len(),
        ensures
            old(self).wf(),
            final(self).wf(),
            *item == old(self).items()[i as int],
            final(self).entities() == old(self).entities(),
            final(self).items() == old(self).items().update(i as int, *final(item)),
    {
        proof {
            use_type_invariant(&*self);
        }
        &mut self.items[i]
    }

    /// The slot of `entity`, if the table holds it.
    pub fn position(&self, entity: u64) -> (r: Option<usize>)
        ensures
            self.wf(),
            match r {
                Some(i) => i < self.entities().len() && self.entities()[i as int] == entity,
                None => !self@.contains_key(entity),
            },
    {
        proof {
            use_type_invariant(self);
        }
        let mut i: usize = 0;
        while i < self.entities.len()
            invariant
                self.wf(),
                i <= self.entities.len(),
                forall|j: int| 0 <= j < i ==> self.entities@[j] != entity,
            decreases self.entities.len() - i,
        {
            if self.entities[i] == entity {
                return Some(i);
            }
            i += 1;
        }
        None
    }

    /// The item of `entity`, if the table holds it.
    pub fn get(&self, entity: u64) -> (r: Option<&X>)
        ensures
            match r {
                Some(item) => self@.contains_key(entity) && *item == self@[entity],
                None => !self@.contains_key(entity),
            },
    {
        match self.position(entity) {
            Some(i) => {
                proof {
                    self.lemma_slot(i as int);
                }
                Some(self.item_at(i))
            },
            None => None,
        }
    }

    /// Gives `entity` the item `item`. An entity that the table held keeps
    /// its slot and hands back the item it had; a new entity gets a new
    /// slot behind the others.
    pub fn insert(&mut self, entity: u64, item: X) -> (r: Option<X>)
        ensures
            final(self).wf(),
            final(self)@ == old(self)@.insert(entity, item),
            match r {
                Some(before) => old(self)@.contains_key(entity) && before == old(self)@[entity],
                None => !old(self)@.contains_key(entity),
            },
            old(self)@.contains_key(entity) ==> {
                &&& final(self).entities() == old(self).entities()
                &&& final(self).items() == old(self).items().update(
                    old(self).entities().index_of(entity),
                    item,
                )
            },
            !old(self)@.contains_key(entity) ==> {
                &&& final(self).entities() == old(self).entities().push(entity)
                &&& final(self).items() == old(self).items().push(item)
            },
    {
        proof {
            use_type_invariant(&*self);
        }
        let mut taken = EntityTable { entities: Vec::new(), items: Vec::new() };
        std::mem::swap(self, &mut taken);
        let found = taken.position(entity);
        let EntityTable { mut entities, mut items } = taken;
        let ghost before_entities = entities@;
        let ghost before_items = items@;
        let r = match found {
            Some(i) => {
                let mut fresh = item;
                std::mem::swap(&mut items[i], &mut fresh);
                proof {
                    old(self).lemma_slot(i as int);
                    assert(old(self).entities().contains(entity));
                    assert(old(self).entities().index_of(entity) == i);
                }
                Some(fresh)
            },
            None => {
                entities.push(entity);
                items.push(item);
                None
            },
        };
        *self = EntityTable { entities, items };
        proof {
            assert forall|e: u64| #[trigger]
                self@.contains_key(e) <==> old(self)@.insert(entity, item).contains_key(e) by {
                if before_entities.contains(e) {
                    let k = before_entities.index_of(e);
                    assert(before_entities[k] == e);
                    assert(self.entities()[k] == e);
                }
                if self.entities().contains(e) {
                    let k = self.entities().index_of(e);
                    assert(self.entities()[k] == e);
                    if k < before_entities.len() {
                        assert(before_entities[k] == e);
                    }
                }
                if e == entity {
                    match found {
                        Some(i) => {
                            assert(self.entities()[i as int] == e);
                        },
                        None => {
                            assert(self.entities()[before_entities.len() as int] == e);
                        },
                    }
                }
            }
            assert forall|e: u64| #[trigger] self@.contains_key(e) implies self@[e] == old(
                self,
            )@.insert(entity, item)[e] by {
                let k = self.entities().index_of(e);
                assert(self.entities()[k] == e);
                if e != entity {
                    let k0 = before_entities.index_of(e);
                    assert(before_entities[k0] == e);
                    assert(self.entities()[k0] == e);
                    assert(k == k0);
                } else {
                    match found {
                        Some(i) => {
                            assert(k == i);
                        },
                        None => {
                            assert(self.entities()[before_entities.len() as int] == e);
                            assert(k == before_entities.len());
                        },
                    }
                }
            }
            assert(self@ =~= old(self)@.insert(entity, item));
        }
        r
    }

    /// Takes `entity` out of the table and hands back the item it had. The
    /// slots behind it move up by one.
    pub fn remove(&mut self, entity: u64) -> (r: Option<X>)
        ensures
            final(self).wf(),
            final(self)@ == old(self)@.remove(entity),
            match r {
                Some(before) => old(self)@.contains_key(entity) && before == old(self)@[entity],
                None => !old(self)@.contains_key(entity),
            },
            old(self)@.contains_key(entity) ==> {
                &&& final(self).entities() == old(self).entities().remove(
                    old(self).entities().index_of(entity),
                )
                &&& final(self).items() == old(self).items().remove(
                    old(self).entities().index_of(entity),
                )
            },
            !old(self)@.contains_key(entity) ==> {
                &&& final(self).entities() == old(self).entities()
                &&& final(self).items() == old(self).items()
            },
    {
        proof {
            use_type_invariant(&*self);
        }
        let mut taken = EntityTable { entities: Vec::new(), items: Vec::new() };
        std::mem::swap(self, &mut taken);
        let found = taken.position(entity);
        let EntityTable { mut entities, mut items } = taken;
        let ghost before_entities = entities@;
        let ghost before_items = items@;
        proof {
            match found {
                Some(i) => {
                    assert(old(self).entities().contains(entity));
                    assert(old(self).entities().index_of(entity) == i);
                },
                None => {},
            }
        }
        let r = match found {
            Some(i) => {
                entities.remove(i);
                let item = items.remove(i);
                proof {
                    old(self).lemma_slot(i as int);
                }
                Some(item)
            },
            None => None,
        };
        proof {
            match found {
                Some(i) => {
                    assert forall|a: int, b: int| 0 <= a < b < entities@.len() implies entities@[a]
                        != entities@[b] by {
                        let a0 = if a < i { a } else { a + 1 };
                        let b0 = if b < i { b } else { b + 1 };
                        assert(before_entities[a0] != before_entities[b0]);
                    }
                },
                None => {},
            }
        }
        *self = EntityTable { entities, items };
        proof {
            match found {
                Some(i) => {
                    assert forall|e: u64| #[trigger]
                        self@.contains_key(e) <==> old(self)@.remove(entity).contains_key(e) by {
                        if self.entities().contains(e) {
                            let k = self.entities().index_of(e);
                            assert(self.entities()[k] == e);
                            let k0 = if k < i { k } else { k + 1 };
                            assert(before_entities[k0] == e);
                        }
                        if before_entities.contains(e) && e != entity {
                            let k0 = before_entities.index_of(e);
                            assert(before_entities[k0] == e);
                            let k = if k0 < i { k0 } else { k0 - 1 };
                            assert(self.entities()[k] == e);
                        }
                    }
                    assert forall|e: u64| #[trigger] self@.contains_key(e) implies self@[e] == old(
                        self,
                    )@.remove(entity)[e] by {
                        let k = self.entities().index_of(e);
                        assert(self.entities()[k] == e);
                        let k0 = if k < i { k } else { k + 1 };
                        assert(before_entities[k0] == e);
                        let k1 = before_entities.index_of(e);
                        assert(before_entities[k1] == e);
                        assert(k0 == k1);
                    }
                },
                None => {},
            }
            assert(self@ =~= old(self)@.remove(entity));
        }
        r
    }
}

} // verus!
