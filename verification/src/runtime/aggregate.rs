use vstd::prelude::*;
use crate::analyzer::types::Schema;
use crate::assoc::StrMap;
use crate::ast::{AggregateDecl, AggregateExpr, AggregateField, AggregateScope};
use crate::runtime::store::{EntityStore, Instance, names_of_entity};
use crate::runtime::value::{Value, ValueView, copy_value};
use crate::text::str_eq;

verus! {

/// Aggregate declarations and their last computed values, by aggregate and
/// field name. Folding numbers is the caller's part; this gathers the
/// inputs, folds booleans and keeps the results.
pub struct AggregateStore {
    pub decls: Vec<AggregateDecl>,
    pub values: StrMap<StrMap<Value>>,
}

/// The field an aggregate function reads (none for a bare count).
pub open spec fn source_field(e: AggregateExpr) -> Option<Seq<char>> {
    match e {
        AggregateExpr::Avg(f) => Some(f@),
        AggregateExpr::Min(f) => Some(f@),
        AggregateExpr::Max(f) => Some(f@),
        AggregateExpr::Sum(f) => Some(f@),
        AggregateExpr::Any(f) => Some(f@),
        AggregateExpr::All(f) => Some(f@),
        AggregateExpr::Count(Some(f)) => Some(f@),
        AggregateExpr::Count(None) => None,
    }
}

/// The value of field `f` on each node that has it, in node order.
pub open spec fn cluster_values(nodes: Seq<(String, StrMap<Value>)>, f: Seq<char>) -> Seq<ValueView>
    decreases nodes.len(),
{
    if nodes.len() == 0 {
        Seq::empty()
    } else {
        let rest = cluster_values(nodes.drop_last(), f);
        let m = nodes.last().1;
        if m@.contains_key(f) {
            rest.push(m@[f]@)
        } else {
            rest
        }
    }
}

/// The current value of slot `idx` of each instance of `entity` that has it,
/// in store order.
pub open spec fn local_values(insts: Seq<(String, Instance)>, entity: Seq<char>, idx: usize) -> Seq<
    ValueView,
>
    decreases insts.len(),
{
    if insts.len() == 0 {
        Seq::empty()
    } else {
        let rest = local_values(insts.drop_last(), entity, idx);
        let inst = insts.last().1;
        if inst.entity_name@ == entity && idx < inst.slots@.len() {
            rest.push(inst.slots@[idx as int].current@)
        } else {
            rest
        }
    }
}

pub open spec fn unknowns(n: nat) -> Seq<ValueView> {
    Seq::new(n, |i: int| ValueView::Unknown)
}

/// What one aggregate field folds: for a local aggregate, the field of
/// every instance of the entity it ranges over (one unknown per instance for
/// a bare count); for a cluster or region aggregate, the field on every node
/// (one unknown per node for a bare count).
pub open spec fn aggregate_inputs(
    decl: AggregateDecl,
    e: AggregateExpr,
    store: EntityStore,
    schema: Schema,
    cluster: Option<StrMap<StrMap<Value>>>,
) -> Seq<ValueView> {
    if decl.scope is Local {
        if schema.entities@.contains_key(decl.over@) {
            let es = schema.entities@[decl.over@];
            match source_field(e) {
                Some(f) => if es.field_indices@.contains_key(f) {
                    local_values(store.instances.pairs(), decl.over@, es.field_indices@[f])
                } else {
                    Seq::empty()
                },
                None => unknowns(names_of_entity(store.instances.pairs(), decl.over@).len()),
            }
        } else {
            Seq::empty()
        }
    } else {
        match cluster {
            Some(c) => match source_field(e) {
                Some(f) => cluster_values(c.pairs(), f),
                None => unknowns(c.pairs().len()),
            },
            None => Seq::empty(),
        }
    }
}

/// The booleans among the values.
pub open spec fn bools(vs: Seq<ValueView>) -> Seq<bool>
    decreases vs.len(),
{
    if vs.len() == 0 {
        Seq::empty()
    } else {
        match vs.last() {
            ValueView::Bool(b) => bools(vs.drop_last()).push(b),
            _ => bools(vs.drop_last()),
        }
    }
}

/// How many of the values are `true`.
pub open spec fn count_true(vs: Seq<ValueView>) -> nat
    decreases vs.len(),
{
    if vs.len() == 0 {
        0
    } else {
        count_true(vs.drop_last()) + if vs.last() == ValueView::Bool(true) {
            1nat
        } else {
            0nat
        }
    }
}

/// The result of a boolean fold: `any` holds when some value is `true`;
/// `all` when there are values, some booleans, and every boolean is `true`.
pub open spec fn bool_fold(e: AggregateExpr, vs: Seq<ValueView>) -> Option<ValueView> {
    match e {
        AggregateExpr::Any(_) => Some(ValueView::Bool(bools(vs).contains(true))),
        AggregateExpr::All(_) => Some(
            ValueView::Bool(vs.len() > 0 && bools(vs).len() > 0 && !bools(vs).contains(false)),
        ),
        _ => None,
    }
}

pub open spec fn values_view(v: Seq<Value>) -> Seq<ValueView> {
    v.map_values(|x: Value| x@)
}

fn source_field_of(e: &AggregateExpr) -> (r: Option<&String>)
    ensures
        match r {
            Some(f) => source_field(*e) == Some(f@),
            None => source_field(*e) is None,
        },
{
    match e {
        AggregateExpr::Avg(f) => Some(f),
        AggregateExpr::Min(f) => Some(f),
        AggregateExpr::Max(f) => Some(f),
        AggregateExpr::Sum(f) => Some(f),
        AggregateExpr::Any(f) => Some(f),
        AggregateExpr::All(f) => Some(f),
        AggregateExpr::Count(Some(f)) => Some(f),
        AggregateExpr::Count(None) => None,
    }
}

fn unknown_values(n: usize) -> (r: Vec<Value>)
    ensures
        values_view(r@) == unknowns(n as nat),
{
    let mut out: Vec<Value> = Vec::new();
    let mut i: usize = 0;
    while i < n
        invariant
            i <= n,
            out@.len() == i,
            forall|j: int| 0 <= j < i ==> #[trigger] out@[j] == Value::Unknown,
        decreases n - i,
    {
        out.push(Value::Unknown);
        i += 1;
    }
    assert(values_view(out@) =~= unknowns(n as nat));
    out
}

fn values_on_nodes(c: &StrMap<StrMap<Value>>, f: &str) -> (r: Vec<Value>)
    requires
        c.wf(),
        forall|k: Seq<char>| #[trigger] c@.contains_key(k) ==> c@[k].wf(),
    ensures
        values_view(r@) == cluster_values(c.pairs(), f@),
{
    let mut out: Vec<Value> = Vec::new();
    let n = c.len();
    let mut i: usize = 0;
    while i < n
        invariant
            c.wf(),
            forall|k: Seq<char>| #[trigger] c@.contains_key(k) ==> c@[k].wf(),
            n == c.pairs().len(),
            i <= n,
            values_view(out@) == cluster_values(c.pairs().take(i as int), f@),
        decreases n - i,
    {
        assert(c.pairs().take(i + 1).drop_last() =~= c.pairs().take(i as int));
        assert(c.pairs().take(i + 1).last() == c.pairs()[i as int]);
        proof {
            crate::assoc::lemma_pair_in_map(c.pairs(), i as int);
        }
        let m = c.value_at(i);
        assert(c@.contains_key(c.pairs()[i as int].0@));
        let ghost before = out@;
        match m.get(f) {
            Some(v) => {
                out.push(copy_value(v));
                assert(values_view(out@) =~= values_view(before).push(v@));
            },
            None => {},
        }
        i += 1;
    }
    assert(c.pairs().take(n as int) =~= c.pairs());
    out
}

fn values_of_instances(store: &EntityStore, entity: &str, idx: usize) -> (r: Vec<Value>)
    requires
        store.wf(),
    ensures
        values_view(r@) == local_values(store.instances.pairs(), entity@, idx),
{
    let mut out: Vec<Value> = Vec::new();
    let n = store.instances.len();
    let mut i: usize = 0;
    while i < n
        invariant
            store.wf(),
            n == store.instances.pairs().len(),
            i <= n,
            values_view(out@) == local_values(store.instances.pairs().take(i as int), entity@, idx),
        decreases n - i,
    {
        let ghost ps = store.instances.pairs();
        assert(ps.take(i + 1).drop_last() =~= ps.take(i as int));
        assert(ps.take(i + 1).last() == ps[i as int]);
        let inst = store.instances.value_at(i);
        let ghost before = out@;
        if str_eq(inst.entity_name.as_str(), entity) {
            match inst.get(idx) {
                Some(v) => {
                    out.push(copy_value(v));
                    assert(values_view(out@) =~= values_view(before).push(v@));
                },
                None => {},
            }
        }
        i += 1;
    }
    assert(store.instances.pairs().take(n as int) =~= store.instances.pairs());
    out
}

/// The values one aggregate field folds (see `aggregate_inputs`).
pub fn gather_inputs(
    decl: &AggregateDecl,
    field: &AggregateField,
    store: &EntityStore,
    schema: &Schema,
    cluster: Option<&StrMap<StrMap<Value>>>,
) -> (r: Vec<Value>)
    requires
        store.wf(),
        schema.wf(),
        cluster matches Some(c) ==> c.wf() && forall|k: Seq<char>|
            #[trigger] c@.contains_key(k) ==> c@[k].wf(),
    ensures
        values_view(r@) == aggregate_inputs(
            *decl,
            field.expr,
            *store,
            *schema,
            match cluster {
                Some(c) => Some(*c),
                None => None,
            },
        ),
{
    match decl.scope {
        AggregateScope::Local => match schema.entities.get(decl.over.as_str()) {
            Some(es) => match source_field_of(&field.expr) {
                Some(f) => match es.field_indices.get(f.as_str()) {
                    Some(idx) => values_of_instances(store, decl.over.as_str(), *idx),
                    None => Vec::new(),
                },
                None => {
                    let names = store.all_instances_of(decl.over.as_str());
                    unknown_values(names.len())
                },
            },
            None => Vec::new(),
        },
        _ => match cluster {
            Some(c) => match source_field_of(&field.expr) {
                Some(f) => values_on_nodes(c, f.as_str()),
                None => unknown_values(c.len()),
            },
            None => Vec::new(),
        },
    }
}

/// How many of the values are `true`.
pub fn count_true_values(values: &Vec<Value>) -> (n: usize)
    ensures
        n == count_true(values_view(values@)),
{
    let mut count: usize = 0;
    let n = values.len();
    let mut i: usize = 0;
    while i < n
        invariant
            n == values@.len(),
            i <= n,
            count == count_true(values_view(values@.take(i as int))),
            count <= i,
        decreases n - i,
    {
        assert(values_view(values@.take(i + 1)).drop_last() =~= values_view(values@.take(i as int)));
        assert(values_view(values@.take(i + 1)).last() == values@[i as int]@);
        match &values[i] {
            Value::Bool(true) => {
                count += 1;
            },
            _ => {},
        }
        i += 1;
    }
    assert(values@.take(n as int) =~= values@);
    count
}

/// The booleans among the values: whether one is `true`, whether one is `false`,
/// and whether there is any.
proof fn lemma_push_contains(s: Seq<bool>, b: bool, x: bool)
    ensures
        s.push(b).contains(x) == (s.contains(x) || b == x),
{
    if s.push(b).contains(x) {
        let j = choose|j: int| 0 <= j < s.push(b).len() && s.push(b)[j] == x;
        if j < s.len() {
            assert(s[j] == x);
        }
    }
    if s.contains(x) {
        let j = choose|j: int| 0 <= j < s.len() && s[j] == x;
        assert(s.push(b)[j] == x);
    }
    if b == x {
        assert(s.push(b)[s.len() as int] == x);
    }
}

fn scan_bools(values: &Vec<Value>) -> (r: (bool, bool, bool))
    ensures
        r.0 == bools(values_view(values@)).contains(true),
        r.1 == bools(values_view(values@)).contains(false),
        r.2 == (bools(values_view(values@)).len() > 0),
{
    let mut any_true = false;
    let mut any_false = false;
    let mut any = false;
    let n = values.len();
    let mut i: usize = 0;
    while i < n
        invariant
            n == values@.len(),
            i <= n,
            any_true == bools(values_view(values@.take(i as int))).contains(true),
            any_false == bools(values_view(values@.take(i as int))).contains(false),
            any == (bools(values_view(values@.take(i as int))).len() > 0),
        decreases n - i,
    {
        let ghost prev = bools(values_view(values@.take(i as int)));
        assert(values_view(values@.take(i + 1)).drop_last() =~= values_view(values@.take(i as int)));
        assert(values_view(values@.take(i + 1)).last() == values@[i as int]@);
        match &values[i] {
            Value::Bool(b) => {
                proof {
                    lemma_push_contains(prev, *b, true);
                    lemma_push_contains(prev, *b, false);
                }
                if *b {
                    any_true = true;
                } else {
                    any_false = true;
                }
                any = true;
            },
            _ => {},
        }
        i += 1;
    }
    assert(values@.take(n as int) =~= values@);
    (any_true, any_false, any)
}

/// The result of an `any` or `all` fold over the values; no result for the
/// numeric folds.
pub fn fold_bools(expr: &AggregateExpr, values: &Vec<Value>) -> (r: Option<Value>)
    ensures
        match r {
            Some(v) => bool_fold(*expr, values_view(values@)) == Some(v@),
            None => bool_fold(*expr, values_view(values@)) is None,
        },
{
    match expr {
        AggregateExpr::Any(_) => {
            let (t, _, _) = scan_bools(values);
            Some(Value::Bool(t))
        },
        AggregateExpr::All(_) => {
            if values.len() == 0 {
                return Some(Value::Bool(false));
            }
            let (_, f, any) = scan_bools(values);
            Some(Value::Bool(any && !f))
        },
        _ => None,
    }
}

impl AggregateStore {
    pub open spec fn wf(&self) -> bool {
        &&& self.values.wf()
        &&& forall|k: Seq<char>| #[trigger] self.values@.contains_key(k) ==> self.values@[k].wf()
    }

    /// A store with no aggregates.
    pub fn new() -> (s: Self)
        ensures
            s.wf(),
            s.decls@.len() == 0,
            s.values@ == Map::<Seq<char>, StrMap<Value>>::empty(),
    {
        AggregateStore { decls: Vec::new(), values: StrMap::new() }
    }

    /// Adds an aggregate to compute.
    pub fn register(&mut self, decl: AggregateDecl)
        ensures
            final(self).decls@ == old(self).decls@.push(decl),
            final(self).values == old(self).values,
    {
        self.decls.push(decl);
    }

    /// The last computed value of a field of an aggregate.
    pub fn get(&self, agg: &str, field: &str) -> (r: Option<&Value>)
        requires
            self.wf(),
        ensures
            match r {
                Some(v) => self.values@.contains_key(agg@) && self.values@[agg@]@.contains_key(field@)
                    && *v == self.values@[agg@]@[field@],
                None => !(self.values@.contains_key(agg@) && self.values@[agg@]@.contains_key(
                    field@,
                )),
            },
    {
        match self.values.get(agg) {
            Some(m) => m.get(field),
            None => None,
        }
    }

    /// Records the freshly computed values of an aggregate, in place of the
    /// old ones.
    pub fn store_results(&mut self, agg: &str, results: StrMap<Value>)
        requires
            old(self).wf(),
            results.wf(),
        ensures
            final(self).wf(),
            final(self).values@ == old(self).values@.insert(agg@, results),
            final(self).decls == old(self).decls,
    {
        self.values.insert(String::from_str(agg), results);
    }
}

} // verus!
