use vstd::prelude::*;
use crate::analyzer::types::Schema;
use crate::ast::{Field, LuminaType};
use crate::assoc::{StrMap, keys_unique, lemma_pair_in_map, lemma_key_index};
use crate::runtime::error::RuntimeError;
use crate::runtime::store::{EntityStore, Instance, StateSlot, committed};
use crate::runtime::value::{Value, ValueView, copy_value};
use crate::text::str_eq;

verus! {

/// How deep updates may nest (an update made by a rule that an update fired).
pub const MAX_DEPTH: usize = 100;

pub open spec fn opt_str(o: Option<String>) -> Option<Seq<char>> {
    match o {
        Some(s) => Some(s@),
        None => None,
    }
}

/// Two instances hold the same: entity, version, source and every slot.
pub open spec fn inst_same(a: Instance, b: Instance) -> bool {
    &&& a.entity_name@ == b.entity_name@
    &&& a.version == b.version
    &&& opt_str(a.source_node) == opt_str(b.source_node)
    &&& a.slots@.len() == b.slots@.len()
    &&& forall|i: int| 0 <= i < a.slots@.len() ==> #[trigger] a.slots@[i]@ == b.slots@[i]@
}

/// Two stores hold the same instances under the same names.
pub open spec fn store_same(a: Map<Seq<char>, Instance>, b: Map<Seq<char>, Instance>) -> bool {
    &&& a.dom() == b.dom()
    &&& forall|k: Seq<char>| #[trigger] a.contains_key(k) ==> inst_same(a[k], b[k])
}

/// `after` is `before` with slot `idx` set to `v`: the old value became the
/// previous one, the version went up and the change counts as local.
pub open spec fn inst_set(before: Instance, after: Instance, idx: int, v: ValueView) -> bool {
    &&& after.entity_name@ == before.entity_name@
    &&& after.version == before.version + 1
    &&& after.source_node is None
    &&& after.slots@.len() == before.slots@.len()
    &&& 0 <= idx < before.slots@.len()
    &&& after.slots@[idx].current@ == v
    &&& after.slots@[idx].previous@ == before.slots@[idx].current@
    &&& forall|i: int|
        0 <= i < before.slots@.len() && i != idx ==> #[trigger] after.slots@[i]@ == before.slots@[i]@
}

/// `after` is `before` with slot `idx` of instance `name` set to `v`, every
/// other instance holding what it held.
pub open spec fn store_set(
    before: Map<Seq<char>, Instance>,
    after: Map<Seq<char>, Instance>,
    name: Seq<char>,
    idx: int,
    v: ValueView,
) -> bool {
    &&& after.dom() == before.dom()
    &&& before.contains_key(name)
    &&& inst_set(before[name], after[name], idx, v)
    &&& forall|k: Seq<char>| #[trigger] before.contains_key(k) && k != name ==> inst_same(after[k], before[k])
}

/// The slot of `field` in instances of `entity`, if the schema gives one.
pub open spec fn field_slot(s: Schema, entity: Seq<char>, field: Seq<char>) -> Option<usize> {
    if s.entities@.contains_key(entity) && s.entities@[entity].field_indices@.contains_key(field) {
        Some(s.entities@[entity].field_indices@[field])
    } else {
        None
    }
}

/// The derived fields of `entity` among `derived`, in their order.
pub open spec fn entity_derived(derived: Seq<(String, String)>, entity: Seq<char>) -> Seq<Seq<char>>
    decreases derived.len(),
{
    if derived.len() == 0 {
        Seq::empty()
    } else {
        let rest = entity_derived(derived.drop_last(), entity);
        if derived.last().0@ == entity {
            rest.push(derived.last().1@)
        } else {
            rest
        }
    }
}

/// `(entity, field)` is a derived field.
pub open spec fn is_derived(derived: Seq<(String, String)>, entity: Seq<char>, field: Seq<char>) -> bool {
    exists|i: int| 0 <= i < derived.len() && derived[i].0@ == entity && derived[i].1@ == field
}

/// Why an update is refused before it changes anything.
pub enum Refusal {
    /// Updates nest too deeply (R003).
    Depth,
    /// No instance of that name (R001).
    Missing,
    /// The field is derived (R009).
    Derived,
    /// The number is outside the field's `@range` (R006), with its bounds.
    Range(u64, u64, u64),
    /// The instance's entity has no such field (R005).
    NoSlot,
}

/// The refusal an update meets, checked in order: nesting depth, the
/// instance, a derived field, the field's range (`in_range` tells whether
/// the number lies within it), the field's slot.
pub open spec fn refusal(
    store: Map<Seq<char>, Instance>,
    schema: Schema,
    derived: Seq<(String, String)>,
    instance: Seq<char>,
    field: Seq<char>,
    value: ValueView,
    in_range: bool,
    depth: usize,
) -> Option<Refusal> {
    if depth >= MAX_DEPTH {
        Some(Refusal::Depth)
    } else if !store.contains_key(instance) {
        Some(Refusal::Missing)
    } else {
        let entity = store[instance].entity_name@;
        if is_derived(derived, entity, field) {
            Some(Refusal::Derived)
        } else if value is Number && !in_range && schema.entities@.contains_key(entity)
            && schema.entities@[entity].fields@.contains_key(field)
            && schema.entities@[entity].fields@[field].metadata.range is Some {
            let (min, max) = schema.entities@[entity].fields@[field].metadata.range.unwrap();
            Some(Refusal::Range(value->Number_0, min, max))
        } else if field_slot(schema, entity, field) is None {
            Some(Refusal::NoSlot)
        } else {
            None
        }
    }
}

/// The error a refusal gives.
pub open spec fn refusal_error(e: RuntimeError, f: Refusal, instance: Seq<char>, field: Seq<char>, depth: usize) -> bool {
    match f {
        Refusal::Depth => e matches RuntimeError::R003 { depth: d } && d == depth,
        Refusal::Missing => e matches RuntimeError::R001 { instance: i } && i@ == instance,
        Refusal::Derived => e matches RuntimeError::R009 { field: x } && x@ == field,
        Refusal::Range(v, lo, hi) => e matches RuntimeError::R006 { field: x, value: a, min: b, max: c }
            && x@ == field && a == v && b == lo && c == hi,
        Refusal::NoSlot => e matches RuntimeError::R005 { instance: i, field: x } && i@ == instance
            && x@ == field,
    }
}

/// An update under way: the store as it was before it (to roll back to), the
/// instance and its entity, and the entity's derived fields to recompute, in
/// dependency order.
pub struct Update {
    pub snapshot: EntityStore,
    pub instance: String,
    pub entity: String,
    pub derived: Vec<String>,
}

fn copy_instance(i: &Instance) -> (r: Instance)
    ensures
        inst_same(r, *i),
{
    let mut slots: Vec<StateSlot> = Vec::new();
    let n = i.slots.len();
    let mut k: usize = 0;
    while k < n
        invariant
            n == i.slots@.len(),
            k <= n,
            slots@.len() == k,
            forall|j: int| 0 <= j < k ==> #[trigger] slots@[j]@ == i.slots@[j]@,
        decreases n - k,
    {
        let s = StateSlot {
            current: copy_value(&i.slots[k].current),
            previous: copy_value(&i.slots[k].previous),
        };
        slots.push(s);
        k += 1;
    }
    let source_node = match &i.source_node {
        Some(s) => Some(s.clone()),
        None => None,
    };
    Instance { entity_name: i.entity_name.clone(), slots, version: i.version, source_node }
}

/// A copy of the store holding the same instances.
pub(crate) fn copy_store(s: &EntityStore) -> (r: EntityStore)
    requires
        s.wf(),
    ensures
        r.wf(),
        store_same(r.instances@, s.instances@),
{
    let ghost ps = s.instances.pairs();
    let mut m: StrMap<Instance> = StrMap::new();
    let n = s.instances.len();
    let mut i: usize = 0;
    while i < n
        invariant
            n == ps.len(),
            ps == s.instances.pairs(),
            keys_unique(ps),
            i <= n,
            m.wf(),
            forall|k: Seq<char>| #[trigger] m@.contains_key(k) <==> exists|j: int| 0 <= j < i && ps[j].0@ == k,
            forall|j: int| 0 <= j < i ==> inst_same(#[trigger] m@[ps[j].0@], ps[j].1),
        decreases n - i,
    {
        let ghost before = m@;
        let k = s.instances.key_at(i).clone();
        let v = copy_instance(s.instances.value_at(i));
        m.insert(k, v);
        proof {
            assert forall|kk: Seq<char>| #[trigger] m@.contains_key(kk) <==> exists|j: int| 0 <= j < i + 1 && ps[j].0@ == kk by {
                if kk == ps[i as int].0@ {
                    assert(ps[i as int].0@ == kk);
                }
                if exists|j: int| 0 <= j < i + 1 && ps[j].0@ == kk {
                    let j = choose|j: int| 0 <= j < i + 1 && ps[j].0@ == kk;
                    if j < i {
                        assert(before.contains_key(kk));
                    }
                }
            }
            assert forall|j: int| 0 <= j < i + 1 implies inst_same(#[trigger] m@[ps[j].0@], ps[j].1) by {
                if j < i {
                    assert(ps[j].0@ != ps[i as int].0@);
                }
            }
        }
        i += 1;
    }
    proof {
        assert forall|k: Seq<char>| #[trigger] m@.contains_key(k) implies s.instances@.contains_key(k)
            && inst_same(m@[k], s.instances@[k]) by {
            let j = choose|j: int| 0 <= j < n && ps[j].0@ == k;
            lemma_pair_in_map(ps, j);
        }
        assert forall|k: Seq<char>| #[trigger] s.instances@.contains_key(k) implies m@.contains_key(k) by {
            lemma_key_index(ps, k);
            let j = crate::assoc::key_index(ps, k);
            assert(ps[j].0@ == k);
        }
        assert(m@.dom() =~= s.instances@.dom());
    }
    EntityStore { instances: m }
}

/// The derived fields of `entity`, in order.
fn derived_of(derived: &Vec<(String, String)>, entity: &str) -> (r: Vec<String>)
    ensures
        crate::text::views(r@) == entity_derived(derived@, entity@),
{
    let mut r: Vec<String> = Vec::new();
    let n = derived.len();
    let mut i: usize = 0;
    while i < n
        invariant
            n == derived@.len(),
            i <= n,
            crate::text::views(r@) == entity_derived(derived@.take(i as int), entity@),
        decreases n - i,
    {
        let ghost before = r@;
        assert(derived@.take(i + 1).drop_last() =~= derived@.take(i as int));
        if str_eq(derived[i].0.as_str(), entity) {
            r.push(derived[i].1.clone());
            assert(crate::text::views(r@) =~= crate::text::views(before).push(derived@[i as int].1@));
        }
        i += 1;
    }
    assert(derived@.take(n as int) =~= derived@);
    r
}

/// Whether `(entity, field)` is among the derived fields.
fn find_derived(derived: &Vec<(String, String)>, entity: &str, field: &str) -> (b: bool)
    ensures
        b == is_derived(derived@, entity@, field@),
{
    let n = derived.len();
    let mut i: usize = 0;
    while i < n
        invariant
            n == derived@.len(),
            i <= n,
            forall|j: int| 0 <= j < i ==> !(derived@[j].0@ == entity@ && derived@[j].1@ == field@),
        decreases n - i,
    {
        if str_eq(derived[i].0.as_str(), entity) && str_eq(derived[i].1.as_str(), field) {
            return true;
        }
        i += 1;
    }
    false
}

/// The slot of `field` in instances of `entity`.
pub(crate) fn slot_of(schema: &Schema, entity: &str, field: &str) -> (r: Option<usize>)
    requires
        schema.wf(),
    ensures
        r == field_slot(*schema, entity@, field@),
{
    match schema.entities.get(entity) {
        Some(es) => match es.field_indices.get(field) {
            Some(i) => Some(*i),
            None => None,
        },
        None => None,
    }
}

/// Sets slot `idx` of instance `name`.
pub(crate) fn set_slot(store: &mut EntityStore, name: &str, idx: usize, value: Value)
    requires
        old(store).wf(),
        old(store).instances@.contains_key(name@),
        idx < old(store).instances@[name@].slots@.len(),
        old(store).instances@[name@].version < u64::MAX,
    ensures
        final(store).wf(),
        store_set(old(store).instances@, final(store).instances@, name@, idx as int, value@),
{
    let ghost before = store.instances@;
    match store.get_mut(name) {
        Some(inst) => {
            inst.set(idx, value);
        },
        None => {},
    }
    proof {
        assert(store.instances@.dom() =~= before.dom());
        assert forall|k: Seq<char>| #[trigger] before.contains_key(k) && k != name@ implies inst_same(
            store.instances@[k],
            before[k],
        ) by {}
    }
}

/// Setting a slot of a copy of a store is setting it in the store.
proof fn lemma_set_after_copy(
    orig: Map<Seq<char>, Instance>,
    copy: Map<Seq<char>, Instance>,
    after: Map<Seq<char>, Instance>,
    name: Seq<char>,
    idx: int,
    v: ValueView,
)
    requires
        store_same(copy, orig),
        store_set(copy, after, name, idx, v),
    ensures
        store_set(orig, after, name, idx, v),
{
    assert(inst_same(copy[name], orig[name]));
    assert forall|i: int| 0 <= i < orig[name].slots@.len() && i != idx implies #[trigger] after[name].slots@[i]@
        == orig[name].slots@[i]@ by {
        assert(after[name].slots@[i]@ == copy[name].slots@[i]@);
        assert(copy[name].slots@[i]@ == orig[name].slots@[i]@);
    }
    assert(copy[name].slots@[idx]@ == orig[name].slots@[idx]@);
    assert forall|k: Seq<char>| #[trigger] orig.contains_key(k) && k != name implies inst_same(after[k], orig[k]) by {
        assert(copy.contains_key(k));
        assert(inst_same(after[k], copy[k]));
        assert(inst_same(copy[k], orig[k]));
        assert forall|i: int| 0 <= i < after[k].slots@.len() implies #[trigger] after[k].slots@[i]@ == orig[k].slots@[i]@ by {
            assert(after[k].slots@[i]@ == copy[k].slots@[i]@);
        }
    }
}

/// Starts an update of `field` of `instance` to `value` at nesting `depth`
/// (0 for an update from outside any rule): it is refused, changing nothing,
/// when updates nest too deeply (R003), the instance does not exist (R001),
/// the field is derived (R009), a number lies outside the field's range
/// (R006; `in_range` tells whether it lies within), or the entity has no such
/// field (R005). Otherwise the store is kept as the snapshot to roll back to,
/// the field is set, and the entity's derived fields are given to recompute
/// in order.
pub fn begin_update(
    store: &mut EntityStore,
    schema: &Schema,
    derived: &Vec<(String, String)>,
    instance: &str,
    field: &str,
    value: Value,
    in_range: bool,
    depth: usize,
) -> (r: Result<Update, RuntimeError>)
    requires
        old(store).wf(),
        schema.wf(),
        old(store).instances@.contains_key(instance@) ==> old(store).instances@[instance@].version
            < u64::MAX,
    ensures
        final(store).wf(),
        match refusal(old(store).instances@, *schema, derived@, instance@, field@, value@, in_range, depth) {
            Some(f) => r is Err && refusal_error(r->Err_0, f, instance@, field@, depth)
                && *final(store) == *old(store),
            None => r is Ok && {
                let u = r->Ok_0;
                let entity = old(store).instances@[instance@].entity_name@;
                &&& u.snapshot == *old(store)
                &&& u.instance@ == instance@
                &&& u.entity@ == entity
                &&& crate::text::views(u.derived@) == entity_derived(derived@, entity)
                &&& u.snapshot.wf()
                &&& match field_slot(*schema, entity, field@) {
                    Some(idx) => if idx < old(store).instances@[instance@].slots@.len() {
                        store_set(old(store).instances@, final(store).instances@, instance@, idx as int, value@)
                    } else {
                        store_same(final(store).instances@, old(store).instances@)
                    },
                    None => false,
                }
            },
        },
{
    if depth >= MAX_DEPTH {
        return Err(RuntimeError::R003 { depth });
    }
    let entity = match store.get(instance) {
        Some(inst) => inst.entity_name.clone(),
        None => {
            return Err(RuntimeError::R001 { instance: instance.to_string() });
        },
    };
    if find_derived(derived, entity.as_str(), field) {
        return Err(RuntimeError::R009 { field: field.to_string() });
    }
    match &value {
        Value::Number(n) => {
            if !in_range {
                match schema.get_field(entity.as_str(), field) {
                    Some(fs) => match fs.metadata.range {
                        Some((min, max)) => {
                            return Err(
                                RuntimeError::R006 { field: field.to_string(), value: *n, min, max },
                            );
                        },
                        None => {},
                    },
                    None => {},
                }
            }
        },
        _ => {},
    }
    let idx = match slot_of(schema, entity.as_str(), field) {
        Some(i) => i,
        None => {
            return Err(
                RuntimeError::R005 { instance: instance.to_string(), field: field.to_string() },
            );
        },
    };
    let tasks = derived_of(derived, entity.as_str());
    let mut snapshot = copy_store(store);
    std::mem::swap(store, &mut snapshot);
    let len = match store.get(instance) {
        Some(inst) => inst.slots.len(),
        None => 0,
    };
    let ghost copied = store.instances@;
    if idx < len {
        set_slot(store, instance, idx, value);
        proof {
            lemma_set_after_copy(snapshot.instances@, copied, store.instances@, instance@, idx as int, value@);
        }
    }
    Ok(Update { snapshot, instance: instance.to_string(), entity, derived: tasks })
}

/// Gives the result of recomputing derived field `field` of `instance` (of
/// entity `entity`): the update's own instance, or one that references it. A
/// failed evaluation, or a field with no slot (R005), rolls the store back to
/// the snapshot and gives the error; otherwise the field is set and the
/// update goes on.
pub fn apply_derived(
    u: Update,
    store: &mut EntityStore,
    schema: &Schema,
    instance: &str,
    entity: &str,
    field: &str,
    result: Result<Value, RuntimeError>,
) -> (r: Result<Update, RuntimeError>)
    requires
        old(store).wf(),
        schema.wf(),
        old(store).instances@.contains_key(instance@),
        old(store).instances@[instance@].version < u64::MAX,
        u.snapshot.wf(),
    ensures
        final(store).wf(),
        match r {
            Err(_) => *final(store) == u.snapshot,
            Ok(u2) => u2 == u && match field_slot(*schema, entity@, field@) {
                Some(idx) => result is Ok && idx < old(store).instances@[instance@].slots@.len()
                    && store_set(
                    old(store).instances@,
                    final(store).instances@,
                    instance@,
                    idx as int,
                    result->Ok_0@,
                ),
                None => false,
            },
        },
        result is Err ==> r is Err && r->Err_0 == result->Err_0,
        result is Ok && (field_slot(*schema, entity@, field@) is None || field_slot(
            *schema,
            entity@,
            field@,
        )->0 >= old(store).instances@[instance@].slots@.len()) ==> (r matches Err(
            RuntimeError::R005 { instance: i, field: f },
        ) && i@ == instance@ && f@ == field@),
{
    let v = match result {
        Ok(v) => v,
        Err(e) => {
            let Update { snapshot, instance: _, entity: _, derived: _ } = u;
            *store = snapshot;
            return Err(e);
        },
    };
    let len = match store.get(instance) {
        Some(inst) => inst.slots.len(),
        None => 0,
    };
    match slot_of(schema, entity, field) {
        Some(idx) => {
            if idx < len {
                set_slot(store, instance, idx, v);
                Ok(u)
            } else {
                let e = RuntimeError::R005 { instance: instance.to_string(), field: field.to_string() };
                let Update { snapshot, instance: _, entity: _, derived: _ } = u;
                *store = snapshot;
                Err(e)
            }
        },
        None => {
            let e = RuntimeError::R005 { instance: instance.to_string(), field: field.to_string() };
            let Update { snapshot, instance: _, entity: _, derived: _ } = u;
            *store = snapshot;
            Err(e)
        },
    }
}

pub open spec fn pair_views(s: Seq<(String, String)>) -> Seq<(Seq<char>, Seq<char>)> {
    s.map_values(|p: (String, String)| (p.0@, p.1@))
}

/// The instances that reference `instance` through a `ref` field, with their
/// entities, as `refs` records them.
pub fn referencing(refs: &StrMap<Vec<(String, String)>>, instance: &str) -> (r: Vec<(String, String)>)
    requires
        refs.wf(),
    ensures
        pair_views(r@) == if refs@.contains_key(instance@) {
            pair_views(refs@[instance@]@)
        } else {
            Seq::<(Seq<char>, Seq<char>)>::empty()
        },
{
    match refs.get(instance) {
        Some(v) => {
            let mut out: Vec<(String, String)> = Vec::new();
            let n = v.len();
            let mut i: usize = 0;
            while i < n
                invariant
                    n == v@.len(),
                    i <= n,
                    pair_views(out@) == pair_views(v@.take(i as int)),
                decreases n - i,
            {
                let ghost before = out@;
                out.push((v[i].0.clone(), v[i].1.clone()));
                assert(pair_views(out@) =~= pair_views(before).push((v@[i as int].0@, v@[i as int].1@)));
                assert(pair_views(v@.take(i + 1)) =~= pair_views(v@.take(i as int)).push(
                    (v@[i as int].0@, v@[i as int].1@),
                ));
                i += 1;
            }
            assert(v@.take(n as int) =~= v@);
            out
        },
        None => {
            let out: Vec<(String, String)> = Vec::new();
            assert(pair_views(out@) =~= Seq::<(Seq<char>, Seq<char>)>::empty());
            out
        },
    }
}

pub open spec fn refs_view(m: Map<Seq<char>, Vec<(String, String)>>) -> Map<
    Seq<char>,
    Seq<(Seq<char>, Seq<char>)>,
> {
    m.map_values(|v: Vec<(String, String)>| pair_views(v@))
}

pub open spec fn not_pair(p: (Seq<char>, Seq<char>)) -> spec_fn((Seq<char>, Seq<char>)) -> bool {
    |q: (Seq<char>, Seq<char>)| q != p
}

/// `target` is no longer referenced by `p`.
pub open spec fn ref_removed(
    m: Map<Seq<char>, Seq<(Seq<char>, Seq<char>)>>,
    target: Seq<char>,
    p: (Seq<char>, Seq<char>),
) -> Map<Seq<char>, Seq<(Seq<char>, Seq<char>)>> {
    if m.contains_key(target) {
        m.insert(target, m[target].filter(not_pair(p)))
    } else {
        m
    }
}

/// `target` is referenced by `p` (once).
pub open spec fn ref_added(
    m: Map<Seq<char>, Seq<(Seq<char>, Seq<char>)>>,
    target: Seq<char>,
    p: (Seq<char>, Seq<char>),
) -> Map<Seq<char>, Seq<(Seq<char>, Seq<char>)>> {
    let old_refs = if m.contains_key(target) {
        m[target]
    } else {
        Seq::empty()
    };
    m.insert(target, if old_refs.contains(p) {
        old_refs
    } else {
        old_refs.push(p)
    })
}

/// What an update of a field does to the record of references: for a `ref`
/// field, the instance no longer references the old target and references
/// the new one (when the new value is a text); for any other field nothing.
pub open spec fn refs_after(
    m: Map<Seq<char>, Seq<(Seq<char>, Seq<char>)>>,
    is_ref: bool,
    old_value: Option<ValueView>,
    new_value: ValueView,
    p: (Seq<char>, Seq<char>),
) -> Map<Seq<char>, Seq<(Seq<char>, Seq<char>)>> {
    if !is_ref {
        m
    } else {
        let m1 = match old_value {
            Some(ValueView::Text(t)) => ref_removed(m, t, p),
            _ => m,
        };
        match new_value {
            ValueView::Text(t) => ref_added(m1, t, p),
            _ => m1,
        }
    }
}

fn without_pair(v: Vec<(String, String)>, name: &str, entity: &str) -> (r: Vec<(String, String)>)
    ensures
        pair_views(r@) == pair_views(v@).filter(not_pair((name@, entity@))),
{
    let ghost pv = pair_views(v@);
    let ghost f = not_pair((name@, entity@));
    let mut out: Vec<(String, String)> = Vec::new();
    let n = v.len();
    let mut i: usize = 0;
    while i < n
        invariant
            n == v@.len(),
            pv == pair_views(v@),
            f == not_pair((name@, entity@)),
            i <= n,
            pair_views(out@) == pv.take(i as int).filter(f),
        decreases n - i,
    {
        let ghost before = out@;
        assert(pv.take(i + 1).drop_last() =~= pv.take(i as int));
        assert(pv.take(i + 1).last() == (v@[i as int].0@, v@[i as int].1@));
        reveal_with_fuel(Seq::<_>::filter, 1);
        if !(str_eq(v[i].0.as_str(), name) && str_eq(v[i].1.as_str(), entity)) {
            out.push((v[i].0.clone(), v[i].1.clone()));
            assert(pair_views(out@) =~= pair_views(before).push((v@[i as int].0@, v@[i as int].1@)));
        }
        i += 1;
    }
    assert(pv.take(n as int) =~= pv);
    out
}

pub(crate) fn has_pair(v: &Vec<(String, String)>, name: &str, entity: &str) -> (b: bool)
    ensures
        b == pair_views(v@).contains((name@, entity@)),
{
    let n = v.len();
    let mut i: usize = 0;
    while i < n
        invariant
            n == v@.len(),
            i <= n,
            forall|j: int| 0 <= j < i ==> pair_views(v@)[j] != (name@, entity@),
        decreases n - i,
    {
        if str_eq(v[i].0.as_str(), name) && str_eq(v[i].1.as_str(), entity) {
            assert(pair_views(v@)[i as int] == (name@, entity@));
            return true;
        }
        i += 1;
    }
    false
}

/// Keeps the record of references up to date when field `(instance, entity)`
/// changes from `old_value` to `new_value` (see `refs_after`).
pub fn track_ref(
    refs: &mut StrMap<Vec<(String, String)>>,
    is_ref: bool,
    old_value: Option<&Value>,
    new_value: &Value,
    instance: &str,
    entity: &str,
)
    requires
        old(refs).wf(),
    ensures
        final(refs).wf(),
        refs_view(final(refs)@) == refs_after(
            refs_view(old(refs)@),
            is_ref,
            match old_value {
                Some(v) => Some(v@),
                None => None,
            },
            new_value@,
            (instance@, entity@),
        ),
{
    if !is_ref {
        return;
    }
    let ghost p = (instance@, entity@);
    let ghost m0 = refs_view(refs@);
    match old_value {
        Some(Value::Text(t)) => match refs.remove(t.as_str()) {
            Some(v) => {
                let ghost before = refs@;
                let v2 = without_pair(v, instance, entity);
                refs.insert(t.clone(), v2);
                assert(refs_view(refs@) =~= ref_removed(m0, t@, p));
            },
            None => {
                assert(refs_view(refs@) =~= ref_removed(m0, t@, p));
            },
        },
        _ => {},
    }
    let ghost m1 = refs_view(refs@);
    match new_value {
        Value::Text(t) => {
            let mut v = match refs.remove(t.as_str()) {
                Some(v) => v,
                None => Vec::new(),
            };
            let ghost old_refs = pair_views(v@);
            assert(old_refs == if m1.contains_key(t@) { m1[t@] } else { Seq::empty() });
            if !has_pair(&v, instance, entity) {
                v.push((instance.to_string(), entity.to_string()));
                assert(pair_views(v@) =~= old_refs.push(p));
            }
            refs.insert(t.clone(), v);
            assert(refs_view(refs@) =~= ref_added(m1, t@, p));
        },
        _ => {},
    }
}

/// Ends an update: its instance is marked changed, and only the outermost
/// update (depth 0) commits every changed instance and starts a new set of
/// changes.
pub fn finish_update(u: Update, store: &mut EntityStore, dirty: &mut Vec<String>, depth: usize)
    requires
        old(store).wf(),
    ensures
        final(store).wf(),
        depth == 0 ==> {
            &&& final(dirty)@ == Seq::<String>::empty()
            &&& final(store).instances@.dom() == old(store).instances@.dom()
            &&& forall|k: Seq<char>|
                #[trigger] final(store).instances@.contains_key(k) ==> if crate::text::views(
                    old(dirty)@.push(u.instance),
                ).contains(k) {
                    committed(old(store).instances@[k], final(store).instances@[k])
                } else {
                    final(store).instances@[k] == old(store).instances@[k]
                }
        },
        depth != 0 ==> final(dirty)@ == old(dirty)@.push(u.instance) && *final(store) == *old(store),
{
    dirty.push(u.instance);
    if depth == 0 {
        store.commit_dirty(dirty);
        assert(dirty@.map_values(|s: String| s@) =~= crate::text::views(dirty@));
        *dirty = Vec::new();
    }
}

// ---- Actions ------------------------------------------------------------------

/// The instance an action's target names: within a rule run for instance
/// `ctx`, a target that names `ctx`'s entity, or the rule's parameter, means
/// `ctx` itself; otherwise the name as written.
pub open spec fn target_instance(
    instances: Map<Seq<char>, Seq<char>>,
    ctx: Option<Seq<char>>,
    param: Option<Seq<char>>,
    name: Seq<char>,
) -> Seq<char> {
    let n1 = match ctx {
        Some(c) => if instances.contains_key(c) && instances[c] == name {
            c
        } else {
            name
        },
        None => name,
    };
    match (param, ctx) {
        (Some(p), Some(c)) => if n1 == p {
            c
        } else {
            n1
        },
        _ => n1,
    }
}

pub open spec fn str_map_view(m: Map<Seq<char>, String>) -> Map<Seq<char>, Seq<char>> {
    m.map_values(|s: String| s@)
}

/// The instance an `update`, `write` or `delete` target names (see
/// `target_instance`); `instances` maps instance names to entity names.
pub fn resolve_target(
    instances: &StrMap<String>,
    ctx: Option<&str>,
    param: Option<&String>,
    name: &str,
) -> (r: String)
    requires
        instances.wf(),
    ensures
        r@ == target_instance(
            str_map_view(instances@),
            match ctx {
                Some(c) => Some(c@),
                None => None,
            },
            match param {
                Some(p) => Some(p@),
                None => None,
            },
            name@,
        ),
{
    let mut n1 = name.to_string();
    match ctx {
        Some(c) => match instances.get(c) {
            Some(e) => {
                if str_eq(e.as_str(), name) {
                    n1 = c.to_string();
                }
            },
            None => {},
        },
        None => {},
    }
    match (param, ctx) {
        (Some(p), Some(c)) => {
            if str_eq(n1.as_str(), p.as_str()) {
                n1 = c.to_string();
            }
        },
        _ => {},
    }
    n1
}

/// A `delete`: the instance goes from the store, or R001 when there is none.
pub fn delete_instance(store: &mut EntityStore, name: &str) -> (r: Result<Instance, RuntimeError>)
    requires
        old(store).wf(),
    ensures
        final(store).wf(),
        final(store).instances@ == old(store).instances@.remove(name@),
        match r {
            Ok(i) => old(store).instances@.contains_key(name@) && i == old(store).instances@[name@],
            Err(e) => !old(store).instances@.contains_key(name@) && (e matches RuntimeError::R001 {
                instance: x,
            } && x@ == name@),
        },
{
    match store.remove(name) {
        Some(i) => Ok(i),
        None => Err(RuntimeError::R001 { instance: name.to_string() }),
    }
}

/// The severities an alert may carry.
pub open spec fn valid_severity(s: Seq<char>) -> bool {
    s == "info"@ || s == "warning"@ || s == "critical"@ || s == "resolved"@
}

/// An alert's severity must be info, warning, critical or resolved (else R002).
pub fn check_severity(s: &str) -> (r: Result<(), RuntimeError>)
    ensures
        r is Ok <==> valid_severity(s@),
        r is Err ==> r->Err_0 is R002,
{
    if str_eq(s, "info") || str_eq(s, "warning") || str_eq(s, "critical") || str_eq(s, "resolved") {
        Ok(())
    } else {
        Err(RuntimeError::R002)
    }
}

/// An ASCII letter in lower case; other characters as they are.
pub open spec fn lower_char(c: char) -> char {
    if 'A' <= c <= 'Z' {
        ((c as u32) + 32) as char
    } else {
        c
    }
}

pub open spec fn lower(s: Seq<char>) -> Seq<char> {
    s.map_values(|c: char| lower_char(c))
}

fn lower_string(s: &str) -> (r: String)
    ensures
        r@ == lower(s@),
{
    let letters = "abcdefghijklmnopqrstuvwxyz";
    proof {
        reveal_strlit("abcdefghijklmnopqrstuvwxyz");
    }
    let n = s.unicode_len();
    let mut out = String::new();
    let mut i: usize = 0;
    while i < n
        invariant
            n == s@.len(),
            i <= n,
            letters@ == "abcdefghijklmnopqrstuvwxyz"@,
            letters@.len() == 26,
            forall|k: int| 0 <= k < 26 ==> #[trigger] letters@[k] == ((k + 97) as u32) as char,
            out@ == lower(s@.take(i as int)),
        decreases n - i,
    {
        let c = s.get_char(i);
        let ghost before = out@;
        if 'A' <= c && c <= 'Z' {
            let k = (c as u32 - 65) as usize;
            let one = letters.substring_char(k, k + 1);
            assert(one@ =~= seq![lower_char(c)]);
            out.append(one);
        } else {
            let one = s.substring_char(i, i + 1);
            assert(one@ =~= seq![lower_char(c)]);
            out.append(one);
        }
        assert(lower(s@.take(i + 1)) =~= lower(s@.take(i as int)).push(lower_char(c)));
        i += 1;
    }
    assert(s@.take(n as int) =~= s@);
    out
}

/// The name a `create` gives its new instance: the entity's name in lower
/// case, an underscore, and one more than the instances of the entity.
pub open spec fn created_name(entity: Seq<char>, count: nat) -> Seq<char> {
    lower(entity) + "_"@ + crate::text::decimal(count + 1)
}

/// The `k`-th given field is given again later (the later value wins).
pub open spec fn given_later(fields: Seq<(String, Value)>, k: int) -> bool {
    exists|j: int| k < j < fields.len() && fields[j].0@ == fields[k].0@
}

/// The slots and version of a new instance of `n` slots after setting, in
/// order, each of the first `k` given fields that has a slot and is not given
/// again later.
pub open spec fn created_slots(
    n: nat,
    idx: Map<Seq<char>, usize>,
    fields: Seq<(String, Value)>,
    k: int,
) -> (Seq<crate::runtime::store::SlotView>, int)
    decreases k,
{
    if k <= 0 {
        (
            Seq::new(
                n,
                |j: int| crate::runtime::store::SlotView { current: ValueView::Unknown, previous: ValueView::Unknown },
            ),
            1,
        )
    } else {
        let (sl, v) = created_slots(n, idx, fields, k - 1);
        let (name, val) = fields[k - 1];
        if given_later(fields, k - 1) || !idx.contains_key(name@) || idx[name@] >= n {
            (sl, v)
        } else {
            let j = idx[name@] as int;
            (sl.update(j, crate::runtime::store::SlotView { current: val@, previous: sl[j].current }), v + 1)
        }
    }
}

/// A new instance of `entity` holding the given values: the last of a name
/// wins, names without a slot are ignored.
pub open spec fn built(inst: Instance, schema: Schema, entity: Seq<char>, fields: Seq<(String, Value)>) -> bool {
    let es = schema.entities@[entity];
    let (sl, v) = created_slots(es.field_names@.len(), es.field_indices@, fields, fields.len() as int);
    &&& inst.entity_name@ == entity
    &&& inst.slots@.map_values(|x: StateSlot| x@) == sl
    &&& inst.version == v
    &&& inst.source_node is None
}

/// Builds a new instance of `entity` from its evaluated field values.
pub fn build_instance(schema: &Schema, entity: &str, fields: &Vec<(String, Value)>) -> (inst: Instance)
    requires
        schema.wf(),
        schema.entities@.contains_key(entity@),
        fields@.len() < usize::MAX,
    ensures
        built(inst, *schema, entity@, fields@),
{
    let es = schema.entities.get(entity).unwrap();
    let ghost idx = es.field_indices@;
    let ghost nslots = es.field_names@.len();
    let mut inst = Instance::new(entity.to_string(), es.field_names.len());
    let n = fields.len();
    let mut k: usize = 0;
    assert(inst.slots@.map_values(|x: StateSlot| x@) =~= created_slots(nslots, idx, fields@, 0).0);
    while k < n
        invariant
            n == fields@.len(),
            n < usize::MAX,
            k <= n,
            es.field_indices.wf(),
            idx == es.field_indices@,
            nslots == es.field_names@.len(),
            inst.entity_name@ == entity@,
            inst.source_node is None,
            inst.slots@.map_values(|x: StateSlot| x@) == created_slots(nslots, idx, fields@, k as int).0,
            inst.version == created_slots(nslots, idx, fields@, k as int).1,
            created_slots(nslots, idx, fields@, k as int).1 <= k + 1,
            inst.slots@.len() == nslots,
        decreases n - k,
    {
        let mut later = false;
        let mut j: usize = k + 1;
        while j < n
            invariant
                n == fields@.len(),
                k < n,
                k + 1 <= j <= n,
                later == exists|q: int| k < q < j && fields@[q].0@ == fields@[k as int].0@,
            decreases n - j,
        {
            if str_eq(fields[j].0.as_str(), fields[k].0.as_str()) {
                later = true;
            }
            j += 1;
        }
        if !later {
            match es.field_indices.get(fields[k].0.as_str()) {
                Some(i) => {
                    if *i < inst.slots.len() {
                        let ghost before = inst;
                        let v = copy_value(&fields[k].1);
                        inst.set(*i, v);
                        proof {
                            assert(inst.slots@.map_values(|x: StateSlot| x@) =~= before.slots@.map_values(
                                |x: StateSlot| x@,
                            ).update(
                                *i as int,
                                crate::runtime::store::SlotView {
                                    current: fields@[k as int].1@,
                                    previous: before.slots@[*i as int].current@,
                                },
                            ));
                        }
                    }
                },
                None => {},
            }
        }
        k += 1;
    }
    inst
}

/// A `create` of an entity from its evaluated field values: a new instance,
/// named by `created_name`, built by `build_instance`.
pub fn create_instance(
    store: &mut EntityStore,
    schema: &Schema,
    entity: &str,
    fields: Vec<(String, Value)>,
) -> (name: String)
    requires
        old(store).wf(),
        schema.wf(),
        schema.entities@.contains_key(entity@),
        fields@.len() < usize::MAX,
        names_of_entity_len(old(store).instances.pairs(), entity@) < usize::MAX,
    ensures
        final(store).wf(),
        name@ == created_name(entity@, names_of_entity_len(old(store).instances.pairs(), entity@)),
        final(store).instances@ == old(store).instances@.insert(name@, final(store).instances@[name@]),
        built(final(store).instances@[name@], *schema, entity@, fields@),
{
    let count = store.all_instances_of(entity).len();
    let inst = build_instance(schema, entity, &fields);
    let name = {
        let mut s = lower_string(entity);
        s.append("_");
        let d = crate::text::u64_to_decimal(count as u64 + 1);
        s.append(d.as_str());
        s
    };
    proof {
        assert(count as nat + 1 == (count + 1) as u64);
    }
    let ghost before = store.instances@;
    store.insert(name.clone(), inst);
    proof {
        assert(store.instances@ =~= before.insert(name@, store.instances@[name@]));
    }
    name
}

/// A `let name = Entity { .. }`: the instance `name`, built by
/// `build_instance`, goes into the store (replacing one of that name).
pub fn init_instance(
    store: &mut EntityStore,
    schema: &Schema,
    name: String,
    entity: &str,
    fields: Vec<(String, Value)>,
)
    requires
        old(store).wf(),
        schema.wf(),
        schema.entities@.contains_key(entity@),
        fields@.len() < usize::MAX,
    ensures
        final(store).wf(),
        final(store).instances@ == old(store).instances@.insert(name@, final(store).instances@[name@]),
        built(final(store).instances@[name@], *schema, entity@, fields@),
{
    let inst = build_instance(schema, entity, &fields);
    let ghost before = store.instances@;
    store.insert(name, inst);
    proof {
        assert(store.instances@ =~= before.insert(name@, store.instances@[name@]));
    }
}

/// The value an external entity's field starts with: zero, empty or false by
/// its type; a derived field is unknown until computed, a reference empty.
pub open spec fn default_of(f: Field) -> ValueView {
    match f {
        Field::Stored(sf) => match sf.ty {
            LuminaType::Number => ValueView::Number(0),
            LuminaType::Text => ValueView::Text(Seq::empty()),
            LuminaType::Boolean => ValueView::Bool(false),
            LuminaType::Timestamp => ValueView::Timestamp(0),
            LuminaType::Secret => ValueView::Secret(Seq::empty()),
            LuminaType::Duration => ValueView::Duration(0),
            LuminaType::List(_) => ValueView::List(Seq::empty()),
            LuminaType::Entity(_) => ValueView::Text(Seq::empty()),
        },
        Field::Derived(_) => ValueView::Unknown,
        Field::Ref(_) => ValueView::Text(Seq::empty()),
    }
}

pub open spec fn field_name_of(f: Field) -> Seq<char> {
    match f {
        Field::Stored(sf) => sf.name@,
        Field::Derived(df) => df.name@,
        Field::Ref(r) => r.name@,
    }
}

/// The starting values of an external entity's fields, in declaration order
/// (0.0 is the number whose bits are all zero).
pub fn external_defaults(fields: &Vec<Field>) -> (r: Vec<(String, Value)>)
    ensures
        r@.len() == fields@.len(),
        forall|i: int|
            0 <= i < fields@.len() ==> #[trigger] r@[i].0@ == field_name_of(fields@[i]) && r@[i].1@
                == default_of(fields@[i]),
{
    let mut out: Vec<(String, Value)> = Vec::new();
    let n = fields.len();
    let mut i: usize = 0;
    while i < n
        invariant
            n == fields@.len(),
            i <= n,
            out@.len() == i,
            forall|j: int|
                0 <= j < i ==> #[trigger] out@[j].0@ == field_name_of(fields@[j]) && out@[j].1@
                    == default_of(fields@[j]),
        decreases n - i,
    {
        let pair = match &fields[i] {
            Field::Stored(sf) => {
                let v = match &sf.ty {
                    LuminaType::Number => Value::Number(0),
                    LuminaType::Text => Value::Text(String::new()),
                    LuminaType::Boolean => Value::Bool(false),
                    LuminaType::Timestamp => Value::Timestamp(0),
                    LuminaType::Secret => Value::Secret(String::new()),
                    LuminaType::Duration => Value::Duration(0),
                    LuminaType::List(_) => Value::List(Vec::new()),
                    LuminaType::Entity(_) => Value::Text(String::new()),
                };
                (sf.name.clone(), v)
            },
            Field::Derived(df) => (df.name.clone(), Value::Unknown),
            Field::Ref(r) => (r.name.clone(), Value::Text(String::new())),
        };
        proof {
            assert(crate::runtime::value::list_view(Seq::<Value>::empty()) =~= Seq::<ValueView>::empty());
        }
        out.push(pair);
        i += 1;
    }
    out
}

/// How many instances of `entity` the pairs hold.
pub open spec fn names_of_entity_len(s: Seq<(String, Instance)>, entity: Seq<char>) -> nat {
    crate::runtime::store::names_of_entity(s, entity).len()
}

// ---- Orchestration ------------------------------------------------------------

/// The instances a workload move hands off: none when this node is the
/// target; otherwise those of the workload that this node holds, in order.
pub open spec fn handed_off(
    store: Map<Seq<char>, Instance>,
    workload: Seq<Seq<char>>,
    target: Seq<char>,
    local: Seq<char>,
) -> Seq<Seq<char>> {
    if target == local {
        Seq::empty()
    } else {
        workload.filter(|n: Seq<char>| store.contains_key(n))
    }
}

/// The instances to hand off for a workload move to `target` (see
/// `handed_off`).
pub fn workload_to_hand_off(store: &EntityStore, workload: &Vec<String>, target: &str, local: &str) -> (r: Vec<String>)
    requires
        store.wf(),
    ensures
        crate::text::views(r@) == handed_off(store.instances@, crate::text::views(workload@), target@, local@),
{
    let mut r: Vec<String> = Vec::new();
    if str_eq(target, local) {
        assert(crate::text::views(r@) =~= Seq::<Seq<char>>::empty());
        return r;
    }
    let ghost w = crate::text::views(workload@);
    let ghost keep = |n: Seq<char>| store.instances@.contains_key(n);
    let n = workload.len();
    let mut i: usize = 0;
    while i < n
        invariant
            n == workload@.len(),
            w == crate::text::views(workload@),
            keep == (|n: Seq<char>| store.instances@.contains_key(n)),
            store.wf(),
            i <= n,
            crate::text::views(r@) == w.take(i as int).filter(keep),
        decreases n - i,
    {
        let ghost before = r@;
        assert(w.take(i + 1).drop_last() =~= w.take(i as int));
        assert(w.take(i + 1).last() == workload@[i as int]@);
        reveal_with_fuel(Seq::<_>::filter, 1);
        if store.contains(workload[i].as_str()) {
            r.push(workload[i].clone());
            assert(crate::text::views(r@) =~= crate::text::views(before).push(workload@[i as int]@));
        }
        i += 1;
    }
    assert(w.take(n as int) =~= w);
    r
}

/// The store after inserting the instances in order.
pub open spec fn with_instances(m: Map<Seq<char>, Instance>, insts: Seq<(String, Instance)>) -> Map<
    Seq<char>,
    Instance,
>
    decreases insts.len(),
{
    if insts.len() == 0 {
        m
    } else {
        with_instances(m, insts.drop_last()).insert(insts.last().0@, insts.last().1)
    }
}

/// Takes the instances of a workload handed off or deployed to `target`:
/// when this node is the target they go into the store, in order (a later
/// one of a name replacing an earlier); otherwise nothing changes.
pub fn accept_instances(store: &mut EntityStore, instances: Vec<(String, Instance)>, target: &str, local: &str)
    requires
        old(store).wf(),
    ensures
        final(store).wf(),
        final(store).instances@ == if target@ == local@ {
            with_instances(old(store).instances@, instances@)
        } else {
            old(store).instances@
        },
{
    if !str_eq(target, local) {
        return;
    }
    let ghost all = instances@;
    let ghost start = store.instances@;
    let mut rest = instances;
    let mut rev: Vec<(String, Instance)> = Vec::new();
    while rest.len() > 0
        invariant
            rev@.len() + rest@.len() == all.len(),
            forall|i: int| 0 <= i < rest@.len() ==> rest@[i] == all[i],
            forall|i: int| 0 <= i < rev@.len() ==> #[trigger] rev@[i] == all[all.len() - 1 - i],
            store.wf(),
            store.instances@ == start,
        decreases rest@.len(),
    {
        let x = rest.pop().unwrap();
        rev.push(x);
    }
    let n = rev.len();
    let mut i: usize = 0;
    while i < n
        invariant
            n == all.len(),
            rev@.len() + i == n,
            i <= n,
            forall|j: int| 0 <= j < rev@.len() ==> #[trigger] rev@[j] == all[n - 1 - j],
            store.wf(),
            store.instances@ == with_instances(start, all.take(i as int)),
        decreases n - i,
    {
        let (name, inst) = rev.pop().unwrap();
        assert(all.take(i + 1).drop_last() =~= all.take(i as int));
        store.insert(name, inst);
        i += 1;
    }
    assert(all.take(n as int) =~= all);
}

} // verus!
