use vstd::prelude::*;
use crate::assoc::{StrMap, lemma_pair_in_map, lemma_key_index, key_index};
use crate::runtime::value::{Value, ValueView, copy_value};

verus! {

#[derive(Debug)]
pub struct StateSlot {
    pub current: Value,
    pub previous: Value,
}

/// One field's value now and at the last commit.
pub struct SlotView {
    pub current: ValueView,
    pub previous: ValueView,
}

impl View for StateSlot {
    type V = SlotView;

    open spec fn view(&self) -> SlotView {
        SlotView { current: self.current@, previous: self.previous@ }
    }
}

#[derive(Debug)]
pub struct Instance {
    pub entity_name: String,
    pub slots: Vec<StateSlot>,
    /// Monotonically increasing version for state mesh conflict resolution.
    pub version: u64,
    /// The peer that last mutated this instance (None if local).
    pub source_node: Option<String>,
}

impl Instance {
    /// An instance whose fields are all unknown, at version 1.
    pub fn new(entity_name: String, field_count: usize) -> (inst: Self)
        ensures
            inst.entity_name == entity_name,
            inst.slots@.len() == field_count,
            forall|i: int|
                0 <= i < field_count ==> #[trigger] inst.slots@[i]@ == (SlotView {
                    current: ValueView::Unknown,
                    previous: ValueView::Unknown,
                }),
            inst.version == 1,
            inst.source_node is None,
    {
        let mut slots: Vec<StateSlot> = Vec::new();
        let mut i: usize = 0;
        while i < field_count
            invariant
                i <= field_count,
                slots@.len() == i,
                forall|j: int|
                    0 <= j < i ==> #[trigger] slots@[j]@ == (SlotView {
                        current: ValueView::Unknown,
                        previous: ValueView::Unknown,
                    }),
            decreases field_count - i,
        {
            slots.push(StateSlot { current: Value::Unknown, previous: Value::Unknown });
            i += 1;
        }
        Instance { entity_name, slots, version: 1, source_node: None }
    }

    /// The current value of field `idx`.
    pub fn get(&self, idx: usize) -> (r: Option<&Value>)
        ensures
            match r {
                Some(v) => idx < self.slots@.len() && *v == self.slots@[idx as int].current,
                None => idx >= self.slots@.len(),
            },
    {
        if idx < self.slots.len() {
            Some(&self.slots[idx].current)
        } else {
            None
        }
    }

    /// Set field `idx`: its old value becomes the previous one, the version
    /// goes up and the change counts as local. Out of range does nothing.
    pub fn set(&mut self, idx: usize, value: Value)
        requires
            idx < old(self).slots@.len() ==> old(self).version < u64::MAX,
        ensures
            idx < old(self).slots@.len() ==> was_set(*old(self), *final(self), idx as int, value),
            idx >= old(self).slots@.len() ==> *final(self) == *old(self),
    {
        if idx < self.slots.len() {
            let mut slot = StateSlot { current: Value::Unknown, previous: Value::Unknown };
            self.slots.set_and_swap(idx, &mut slot);
            let StateSlot { current, previous: _ } = slot;
            self.slots.set(idx, StateSlot { current: value, previous: current });
            self.version = self.version + 1;
            self.source_node = None;
            assert(self.slots@ =~= old(self).slots@.update(
                idx as int,
                StateSlot { current: value, previous: old(self).slots@[idx as int].current },
            ));
        }
    }

    /// The value of field `idx` at the last commit.
    pub fn prev(&self, idx: usize) -> (r: Option<&Value>)
        ensures
            match r {
                Some(v) => idx < self.slots@.len() && *v == self.slots@[idx as int].previous,
                None => idx >= self.slots@.len(),
            },
    {
        if idx < self.slots.len() {
            Some(&self.slots[idx].previous)
        } else {
            None
        }
    }

    /// The fields by name with their current values, as far as both go.
    pub fn iter_fields(&self, names: &Vec<String>) -> (r: Vec<(String, Value)>)
        ensures
            r@.len() == if names@.len() <= self.slots@.len() {
                names@.len()
            } else {
                self.slots@.len()
            },
            forall|i: int|
                #![trigger r@[i]]
                0 <= i < r@.len() ==> r@[i].0 == names@[i] && r@[i].1@ == self.slots@[i].current@,
    {
        let n = if names.len() <= self.slots.len() {
            names.len()
        } else {
            self.slots.len()
        };
        let mut out: Vec<(String, Value)> = Vec::new();
        let mut i: usize = 0;
        while i < n
            invariant
                n == if names@.len() <= self.slots@.len() {
                    names@.len()
                } else {
                    self.slots@.len()
                },
                i <= n,
                out@.len() == i,
                forall|j: int|
                    #![trigger out@[j]]
                    0 <= j < i ==> out@[j].0 == names@[j] && out@[j].1@ == self.slots@[j].current@,
            decreases n - i,
        {
            out.push((names[i].clone(), copy_value(&self.slots[i].current)));
            i += 1;
        }
        out
    }

    /// The fields by name with their previous values, as far as both go.
    pub fn iter_prev_fields(&self, names: &Vec<String>) -> (r: Vec<(String, Value)>)
        ensures
            r@.len() == if names@.len() <= self.slots@.len() {
                names@.len()
            } else {
                self.slots@.len()
            },
            forall|i: int|
                #![trigger r@[i]]
                0 <= i < r@.len() ==> r@[i].0 == names@[i] && r@[i].1@ == self.slots@[i].previous@,
    {
        let n = if names.len() <= self.slots.len() {
            names.len()
        } else {
            self.slots.len()
        };
        let mut out: Vec<(String, Value)> = Vec::new();
        let mut i: usize = 0;
        while i < n
            invariant
                n == if names@.len() <= self.slots@.len() {
                    names@.len()
                } else {
                    self.slots@.len()
                },
                i <= n,
                out@.len() == i,
                forall|j: int|
                    #![trigger out@[j]]
                    0 <= j < i ==> out@[j].0 == names@[j] && out@[j].1@ == self.slots@[j].previous@,
            decreases n - i,
        {
            out.push((names[i].clone(), copy_value(&self.slots[i].previous)));
            i += 1;
        }
        out
    }

    /// Make every field's previous value its current one.
    pub fn commit(&mut self)
        ensures
            committed(*old(self), *final(self)),
    {
        let n = self.slots.len();
        let mut i: usize = 0;
        while i < n
            invariant
                n == self.slots@.len(),
                n == old(self).slots@.len(),
                i <= n,
                forall|j: int|
                    0 <= j < i ==> #[trigger] self.slots@[j]@ == (SlotView {
                        current: old(self).slots@[j].current@,
                        previous: old(self).slots@[j].current@,
                    }),
                forall|j: int| i <= j < n ==> #[trigger] self.slots@[j] == old(self).slots@[j],
                self.entity_name == old(self).entity_name,
                self.version == old(self).version,
                self.source_node == old(self).source_node,
            decreases n - i,
        {
            let cur = copy_value(&self.slots[i].current);
            let mut slot = StateSlot { current: Value::Unknown, previous: Value::Unknown };
            self.slots.set_and_swap(i, &mut slot);
            let StateSlot { current, previous: _ } = slot;
            self.slots.set(i, StateSlot { current, previous: cur });
            i += 1;
        }
    }
}

/// All instances by name.
pub struct EntityStore {
    pub instances: StrMap<Instance>,
}

/// The instance names of an entity type among the pairs, in order.
pub open spec fn names_of_entity(s: Seq<(String, Instance)>, entity: Seq<char>) -> Seq<Seq<char>>
    decreases s.len(),
{
    if s.len() == 0 {
        Seq::empty()
    } else {
        let rest = names_of_entity(s.drop_last(), entity);
        if s.last().1.entity_name@ == entity {
            rest.push(s.last().0@)
        } else {
            rest
        }
    }
}

impl EntityStore {
    pub open spec fn wf(&self) -> bool {
        self.instances.wf()
    }

    pub fn new() -> (s: Self)
        ensures
            s.wf(),
            s.instances@ == Map::<Seq<char>, Instance>::empty(),
            s.instances.pairs() == Seq::<(String, Instance)>::empty(),
    {
        EntityStore { instances: StrMap::new() }
    }

    pub fn insert(&mut self, name: String, instance: Instance)
        requires
            old(self).wf(),
        ensures
            final(self).wf(),
            final(self).instances@ == old(self).instances@.insert(name@, instance),
            old(self).instances@.contains_key(name@) ==> final(self).instances.pairs()
                == old(self).instances.pairs().update(
                key_index(old(self).instances.pairs(), name@),
                (name, instance),
            ),
            !old(self).instances@.contains_key(name@) ==> final(self).instances.pairs() == old(
                self,
            ).instances.pairs().push((name, instance)),
    {
        self.instances.insert(name, instance);
    }

    pub fn get(&self, name: &str) -> (r: Option<&Instance>)
        requires
            self.wf(),
        ensures
            match r {
                Some(i) => self.instances@.contains_key(name@) && *i == self.instances@[name@],
                None => !self.instances@.contains_key(name@),
            },
    {
        self.instances.get(name)
    }

    pub fn get_mut(&mut self, name: &str) -> (r: Option<&mut Instance>)
        requires
            old(self).wf(),
        ensures
            final(self).wf(),
            match r {
                Some(i) => old(self).instances@.contains_key(name@) && *i == old(self).instances@[name@]
                    && final(self).instances@ == old(self).instances@.insert(name@, *final(i)),
                None => !old(self).instances@.contains_key(name@) && *final(self) == *old(self),
            },
    {
        self.instances.get_mut(name)
    }

    pub fn remove(&mut self, name: &str) -> (r: Option<Instance>)
        requires
            old(self).wf(),
        ensures
            final(self).wf(),
            final(self).instances@ == old(self).instances@.remove(name@),
            match r {
                Some(i) => old(self).instances@.contains_key(name@) && i == old(self).instances@[name@],
                None => !old(self).instances@.contains_key(name@),
            },
    {
        self.instances.remove(name)
    }

    pub fn contains(&self, name: &str) -> (b: bool)
        requires
            self.wf(),
        ensures
            b == self.instances@.contains_key(name@),
    {
        self.instances.contains_key(name)
    }

    /// Every instance with its name.
    pub fn all(&self) -> (r: Vec<(&String, &Instance)>)
        requires
            self.wf(),
        ensures
            r@.len() == self.instances@.dom().len(),
            forall|i: int|
                0 <= i < r@.len() ==> self.instances@.contains_key(#[trigger] r@[i].0@)
                    && *r@[i].1 == self.instances@[r@[i].0@],
            forall|k: Seq<char>| #[trigger] self.instances@.contains_key(k) ==> exists|i: int|
                0 <= i < r@.len() && r@[i].0@ == k,
            forall|i: int, j: int| 0 <= i < j < r@.len() ==> r@[i].0@ != r@[j].0@,
    {
        let n = self.instances.len();
        let mut out: Vec<(&String, &Instance)> = Vec::new();
        let mut i: usize = 0;
        while i < n
            invariant
                self.wf(),
                n == self.instances.pairs().len(),
                i <= n,
                out@.len() == i,
                forall|j: int|
                    0 <= j < i ==> #[trigger] out@[j].0@ == self.instances.pairs()[j].0@
                        && *out@[j].1 == self.instances.pairs()[j].1,
            decreases n - i,
        {
            out.push((self.instances.key_at(i), self.instances.value_at(i)));
            i += 1;
        }
        proof {
            assert forall|i: int| 0 <= i < out@.len() implies self.instances@.contains_key(
                #[trigger] out@[i].0@,
            ) && *out@[i].1 == self.instances@[out@[i].0@] by {
                lemma_pair_in_map(self.instances.pairs(), i);
            }
            assert forall|k: Seq<char>| #[trigger] self.instances@.contains_key(k) implies exists|
                i: int,
            | 0 <= i < out@.len() && out@[i].0@ == k by {
                lemma_key_index(self.instances.pairs(), k);
                let j = key_index(self.instances.pairs(), k);
                assert(out@[j].0@ == k);
            }
            assert forall|i: int, j: int| 0 <= i < j < out@.len() implies out@[i].0@ != out@[j].0@ by {
                assert(out@[i].0@ == self.instances.pairs()[i].0@);
                assert(out@[j].0@ == self.instances.pairs()[j].0@);
            }
        }
        out
    }

    /// The names of all instances of an entity type.
    pub fn all_instances_of(&self, entity_name: &str) -> (r: Vec<String>)
        requires
            self.wf(),
        ensures
            r@.map_values(|s: String| s@) == names_of_entity(self.instances.pairs(), entity_name@),
    {
        let n = self.instances.len();
        let mut out: Vec<String> = Vec::new();
        let mut i: usize = 0;
        while i < n
            invariant
                self.wf(),
                n == self.instances.pairs().len(),
                i <= n,
                out@.map_values(|s: String| s@) == names_of_entity(
                    self.instances.pairs().take(i as int),
                    entity_name@,
                ),
            decreases n - i,
        {
            let ghost t = self.instances.pairs().take(i + 1);
            assert(t.drop_last() =~= self.instances.pairs().take(i as int));
            let ghost before = out@;
            if crate::text::str_eq(self.instances.value_at(i).entity_name.as_str(), entity_name) {
                out.push(self.instances.key_at(i).clone());
                assert(out@.map_values(|s: String| s@) =~= before.map_values(|s: String| s@).push(
                    t.last().0@,
                ));
            }
            i += 1;
        }
        assert(self.instances.pairs().take(n as int) =~= self.instances.pairs());
        out
    }

    /// The instances of an entity type with their names.
    pub fn all_of_entity(&self, entity_name: &str) -> (r: Vec<(&String, &Instance)>)
        requires
            self.wf(),
        ensures
            r@.map_values(|p: (&String, &Instance)| p.0@) == names_of_entity(
                self.instances.pairs(),
                entity_name@,
            ),
            forall|i: int|
                0 <= i < r@.len() ==> self.instances@.contains_key(#[trigger] r@[i].0@)
                    && *r@[i].1 == self.instances@[r@[i].0@] && r@[i].1.entity_name@
                    == entity_name@,
    {
        let n = self.instances.len();
        let mut out: Vec<(&String, &Instance)> = Vec::new();
        let mut i: usize = 0;
        while i < n
            invariant
                self.wf(),
                n == self.instances.pairs().len(),
                i <= n,
                out@.map_values(|p: (&String, &Instance)| p.0@) == names_of_entity(
                    self.instances.pairs().take(i as int),
                    entity_name@,
                ),
                forall|k: int|
                    0 <= k < out@.len() ==> self.instances@.contains_key(#[trigger] out@[k].0@)
                        && *out@[k].1 == self.instances@[out@[k].0@] && out@[k].1.entity_name@
                        == entity_name@,
            decreases n - i,
        {
            let ghost t = self.instances.pairs().take(i + 1);
            assert(t.drop_last() =~= self.instances.pairs().take(i as int));
            let ghost before = out@;
            proof {
                lemma_pair_in_map(self.instances.pairs(), i as int);
            }
            let inst = self.instances.value_at(i);
            if crate::text::str_eq(inst.entity_name.as_str(), entity_name) {
                out.push((self.instances.key_at(i), inst));
                assert(out@.map_values(|p: (&String, &Instance)| p.0@) =~= before.map_values(
                    |p: (&String, &Instance)| p.0@,
                ).push(t.last().0@));
            }
            i += 1;
        }
        assert(self.instances.pairs().take(n as int) =~= self.instances.pairs());
        out
    }

    /// The first instance (in insertion order) of an entity type.
    pub fn find_instance_of(&self, entity_name: &str) -> (r: Option<String>)
        requires
            self.wf(),
        ensures
            match r {
                Some(n) => names_of_entity(self.instances.pairs(), entity_name@).len() > 0 && n@
                    == names_of_entity(self.instances.pairs(), entity_name@)[0],
                None => names_of_entity(self.instances.pairs(), entity_name@).len() == 0,
            },
    {
        let all = self.all_instances_of(entity_name);
        if all.len() > 0 {
            assert(all@.map_values(|s: String| s@)[0] == all@[0]@);
            Some(all[0].clone())
        } else {
            None
        }
    }

    /// Commit every instance.
    pub fn commit_all(&mut self)
        requires
            old(self).wf(),
        ensures
            final(self).wf(),
            final(self).instances@.dom() == old(self).instances@.dom(),
            forall|k: Seq<char>|
                #[trigger] final(self).instances@.contains_key(k) ==> committed(
                    old(self).instances@[k],
                    final(self).instances@[k],
                ),
    {
        let ghost start = self.instances@;
        let n = self.instances.len();
        let mut i: usize = 0;
        while i < n
            invariant
                self.wf(),
                n == self.instances.pairs().len(),
                i <= n,
                self.instances@.dom() == start.dom(),
                forall|k: Seq<char>|
                    #[trigger] self.instances@.contains_key(k) ==> if (exists|j: int|
                        0 <= j < i && self.instances.pairs()[j].0@ == k) {
                        committed(start[k], self.instances@[k])
                    } else {
                        self.instances@[k] == start[k]
                    },
            decreases n - i,
        {
            let key = self.instances.key_at(i).clone();
            let ghost pairs_before = self.instances.pairs();
            let ghost before = self.instances@;
            proof {
                lemma_pair_in_map(self.instances.pairs(), i as int);
            }
            match self.instances.get_mut(key.as_str()) {
                Some(inst) => {
                    inst.commit();
                },
                None => {},
            }
            proof {
                assert forall|k: Seq<char>| #[trigger] self.instances@.contains_key(k) implies if (exists|
                    j: int,
                | 0 <= j < i + 1 && self.instances.pairs()[j].0@ == k) {
                    committed(start[k], self.instances@[k])
                } else {
                    self.instances@[k] == start[k]
                } by {
                    assert(self.instances.pairs()[i as int].0@ == key@);
                    if k == key@ {
                        if exists|j: int| 0 <= j < i && self.instances.pairs()[j].0@ == k {
                            let j = choose|j: int| 0 <= j < i && self.instances.pairs()[j].0@ == k;
                            assert(pairs_before[j].0@ == k);
                            assert(false);
                        }
                    } else {
                        if exists|j: int| 0 <= j < i + 1 && self.instances.pairs()[j].0@ == k {
                            let j = choose|j: int| 0 <= j < i + 1 && self.instances.pairs()[j].0@ == k;
                            assert(pairs_before[j].0@ == k);
                            assert(exists|j: int| 0 <= j < i && pairs_before[j].0@ == k);
                        } else {
                            if exists|j: int| 0 <= j < i && pairs_before[j].0@ == k {
                                let j = choose|j: int| 0 <= j < i && pairs_before[j].0@ == k;
                                assert(self.instances.pairs()[j].0@ == k);
                            }
                        }
                    }
                }
            }
            i += 1;
        }
        proof {
            assert forall|k: Seq<char>| #[trigger] self.instances@.contains_key(k) implies committed(
                start[k],
                self.instances@[k],
            ) by {
                lemma_key_index(self.instances.pairs(), k);
                let j = key_index(self.instances.pairs(), k);
                assert(0 <= j < n && self.instances.pairs()[j].0@ == k);
            }
        }
    }

    /// Commit only the named instances (names not in the store are ignored).
    pub fn commit_dirty(&mut self, dirty: &Vec<String>)
        requires
            old(self).wf(),
        ensures
            final(self).wf(),
            final(self).instances@.dom() == old(self).instances@.dom(),
            forall|k: Seq<char>|
                #[trigger] final(self).instances@.contains_key(k) ==> if dirty@.map_values(
                    |s: String| s@,
                ).contains(k) {
                    committed(old(self).instances@[k], final(self).instances@[k])
                } else {
                    final(self).instances@[k] == old(self).instances@[k]
                },
    {
        let ghost start = self.instances@;
        let ghost names = dirty@.map_values(|s: String| s@);
        let n = dirty.len();
        let mut i: usize = 0;
        while i < n
            invariant
                self.wf(),
                n == dirty@.len(),
                names == dirty@.map_values(|s: String| s@),
                i <= n,
                self.instances@.dom() == start.dom(),
                forall|k: Seq<char>|
                    #[trigger] self.instances@.contains_key(k) ==> if names.take(i as int).contains(k) {
                        committed(start[k], self.instances@[k])
                    } else {
                        self.instances@[k] == start[k]
                    },
            decreases n - i,
        {
            let ghost before = self.instances@;
            let found = match self.instances.get_mut(dirty[i].as_str()) {
                Some(inst) => {
                    inst.commit();
                    true
                },
                None => false,
            };
            let ghost key = dirty@[i as int]@;
            assert(found ==> before.contains_key(key) && self.instances@ == before.insert(
                key,
                self.instances@[key],
            ) && committed(before[key], self.instances@[key]));
            assert(!found ==> self.instances@ == before);
            proof {
                assert(names.take(i + 1) =~= names.take(i as int).push(dirty@[i as int]@));
                assert forall|k: Seq<char>| #[trigger] self.instances@.contains_key(k) implies if names.take(
                    i + 1,
                ).contains(k) {
                    committed(start[k], self.instances@[k])
                } else {
                    self.instances@[k] == start[k]
                } by {
                    if k == dirty@[i as int]@ {
                        assert(found);
                        assert(names.take(i + 1)[i as int] == k);
                        if names.take(i as int).contains(k) {
                            law_commit_twice_is_once(start[k], before[k], self.instances@[k]);
                        }
                    } else {
                        assert(self.instances@[k] == before[k]);
                        assert(before.contains_key(k));
                        if names.take(i as int).contains(k) {
                            let t0 = names.take(i as int);
                            let j = choose|j: int| 0 <= j < t0.len() && #[trigger] t0[j] == k;
                            assert(names.take(i + 1)[j] == k);
                        }
                        if names.take(i + 1).contains(k) {
                            let t = names.take(i + 1);
                            let j = choose|j: int| 0 <= j < t.len() && #[trigger] t[j] == k;
                            assert(names.take(i + 1)[i as int] == key);
                            assert(j != i);
                            assert(names.take(i as int)[j] == k);
                        }
                        assert(names.take(i + 1).contains(k) == names.take(i as int).contains(k));
                    }
                }
            }
            i += 1;
        }
        assert(names.take(n as int) =~= names);
    }
}

/// `after` is `before` with field `idx` set to `value`: the old value became
/// the previous one, the version went up and the change counts as local.
pub open spec fn was_set(before: Instance, after: Instance, idx: int, value: Value) -> bool {
    &&& after.slots@ == before.slots@.update(
        idx,
        StateSlot { current: value, previous: before.slots@[idx].current },
    )
    &&& after.version == before.version + 1
    &&& after.source_node is None
    &&& after.entity_name == before.entity_name
}

/// A read after a write gives the written value; the previous value is the
/// one it replaced, and every other field is as it was.
pub proof fn law_set_then_read(a: Instance, b: Instance, idx: int, value: Value)
    requires
        0 <= idx < a.slots@.len(),
        was_set(a, b, idx, value),
    ensures
        b.slots@.len() == a.slots@.len(),
        b.slots@[idx].current == value,
        b.slots@[idx].previous == a.slots@[idx].current,
        forall|j: int| 0 <= j < a.slots@.len() && j != idx ==> #[trigger] b.slots@[j] == a.slots@[j],
{
}

/// A write then a commit leaves the written value as both the current and
/// the previous value of its field.
pub proof fn law_set_then_commit(a: Instance, b: Instance, c: Instance, idx: int, value: Value)
    requires
        0 <= idx < a.slots@.len(),
        was_set(a, b, idx, value),
        committed(b, c),
    ensures
        c.slots@[idx]@ == (SlotView { current: value@, previous: value@ }),
        c.version == a.version + 1,
{
    assert(b.slots@[idx].current == value);
}

/// `after` is `before` committed: every previous value is the current one.
pub open spec fn committed(before: Instance, after: Instance) -> bool {
    &&& after.entity_name == before.entity_name
    &&& after.version == before.version
    &&& after.source_node == before.source_node
    &&& after.slots@.len() == before.slots@.len()
    &&& forall|i: int|
        0 <= i < before.slots@.len() ==> #[trigger] after.slots@[i]@ == (SlotView {
            current: before.slots@[i].current@,
            previous: before.slots@[i].current@,
        })
}

/// Committing twice is committing once.
pub proof fn law_commit_twice_is_once(a: Instance, b: Instance, c: Instance)
    requires
        committed(a, b),
        committed(b, c),
    ensures
        committed(a, c),
{
    assert forall|i: int| 0 <= i < a.slots@.len() implies #[trigger] c.slots@[i]@ == (SlotView {
        current: a.slots@[i].current@,
        previous: a.slots@[i].current@,
    }) by {
        assert(b.slots@[i]@ == (SlotView {
            current: a.slots@[i].current@,
            previous: a.slots@[i].current@,
        }));
    }
}

} // verus!
