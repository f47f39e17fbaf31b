use vstd::prelude::*;
use crate::analyzer::types::Schema;
use crate::assoc::{StrMap, keys_unique, lemma_key_index, lemma_pair_in_map};
use crate::ast::{Action, BinOp, Condition, Expr, RuleDecl, RuleTrigger, Statement, LetValue};
use crate::runtime::engine::{
    MAX_DEPTH, Update, apply_derived, begin_update, copy_store, finish_update, has_pair, pair_views,
    refs_view, referencing, refusal, refusal_error, set_slot, slot_of, track_ref,
};
use crate::runtime::error::RuntimeError;
use crate::runtime::eval::{
    EvalEnv, NumOp, NumOut, NumOutView, flag_of, ctx_view, eval_expr, nf, num_deterministic, out_flag, res_v, show_value,
    spec_eval, values_equal, value_eq, value_text, binop, apply_binop, inst_field, instance_field,
};
use crate::runtime::rules::{RuleGate, RuleOutcome, RuleState, rule_step};
use crate::runtime::store::{EntityStore, Instance};
use crate::runtime::value::{Value, ValueView, copy_value};
use crate::text::str_eq;

verus! {

/// What a fired rule, a cleared rule or an alert reports.
pub struct FiredEvent {
    pub rule: String,
    pub instance: String,
    pub severity: String,
    pub message: String,
    /// The time, as the bits of a number of milliseconds.
    pub ts: u64,
}

/// What the program declares for its updates: the derived fields in
/// dependency order with their expressions, the `ref` fields as (entity,
/// field), and the rules with how each fires.
pub struct Declarations {
    pub derived: Vec<(String, String)>,
    pub derived_exprs: Vec<Expr>,
    pub ref_fields: Vec<(String, String)>,
    pub rules: Vec<RuleDecl>,
    pub gates: Vec<RuleGate>,
}

impl Declarations {
    pub open spec fn wf(&self) -> bool {
        &&& self.derived@.len() == self.derived_exprs@.len()
        &&& self.rules@.len() == self.gates@.len()
    }
}

/// The state of a running program: what expressions read (`env`), the
/// instances, who references whom, what is remembered of each rule per
/// instance (keyed `rule::instance`), the rules fired and the instances
/// changed in the current update, its nesting depth, the clock in
/// milliseconds, and what the program printed and asked of its timers and
/// adapters.
pub struct Runtime {
    pub env: EvalEnv,
    pub store: EntityStore,
    pub reverse_refs: StrMap<Vec<(String, String)>>,
    pub rule_states: StrMap<RuleState>,
    pub fired_this_cycle: Vec<String>,
    pub dirty: Vec<String>,
    pub depth: usize,
    pub clock_ms: u64,
    pub initializing: bool,
    pub output: Vec<String>,
    /// `for` timers to start, as (rule, instance).
    pub timer_starts: Vec<(String, String)>,
    /// `for` timers to cancel, as (rule, instance).
    pub timer_cancels: Vec<(String, String)>,
    /// The entities an adapter serves, and the writes handed to them as
    /// (entity, instance, field, value).
    pub adapter_entities: Vec<String>,
    pub writes: Vec<(String, String, String, Value)>,
}

impl Runtime {
    pub open spec fn wf(&self) -> bool {
        &&& self.env.wf()
        &&& self.store.wf()
        &&& self.reverse_refs.wf()
        &&& self.rule_states.wf()
        &&& self.depth <= MAX_DEPTH
    }
}

/// Whether a number lies within the field's `@range` (anything else does).
pub open spec fn within_range(schema: Schema, entity: Seq<char>, field: Seq<char>, v: ValueView, f: spec_fn(NumOp, u64, u64) -> NumOutView) -> bool {
    match v {
        ValueView::Number(n) => if crate::analyzer::types::lookup_field(schema, entity, field) is Some
            && crate::analyzer::types::lookup_field(schema, entity, field)->0.metadata.range is Some {
            let (lo, hi) = crate::analyzer::types::lookup_field(schema, entity, field)->0.metadata.range->0;
            !(out_flag(f(NumOp::Lt, n, lo)) || out_flag(f(NumOp::Gt, n, hi)))
        } else {
            true
        },
        _ => true,
    }
}


fn number_in_range<F: Fn(NumOp, u64, u64) -> NumOut>(schema: &Schema, entity: &str, field: &str, v: &Value, num: &F) -> (b: bool)
    requires
        schema.wf(),
        num_deterministic(*num),
    ensures
        b == within_range(*schema, entity@, field@, v@, nf(*num)),
{
    match v {
        Value::Number(n) => match schema.get_field(entity, field) {
            Some(fs) => match fs.metadata.range {
                Some((lo, hi)) => {
                    let below = flag_of(num, NumOp::Lt, *n, lo);
                    let above = flag_of(num, NumOp::Gt, *n, hi);
                    !(below || above)
                },
                None => true,
            },
            None => true,
        },
        _ => true,
    }
}


/// A copy of the record of references.
fn copy_refs(refs: &StrMap<Vec<(String, String)>>) -> (r: StrMap<Vec<(String, String)>>)
    requires
        refs.wf(),
    ensures
        r.wf(),
        refs_view(r@) == refs_view(refs@),
{
    let ghost ps = refs.pairs();
    let mut m: StrMap<Vec<(String, String)>> = StrMap::new();
    let n = refs.len();
    let mut i: usize = 0;
    while i < n
        invariant
            n == ps.len(),
            ps == refs.pairs(),
            refs.wf(),
            keys_unique(ps),
            i <= n,
            m.wf(),
            forall|k: Seq<char>| #[trigger] m@.contains_key(k) <==> exists|j: int| 0 <= j < i && ps[j].0@ == k,
            forall|j: int| 0 <= j < i ==> pair_views(#[trigger] m@[ps[j].0@]@) == pair_views(ps[j].1@),
        decreases n - i,
    {
        let ghost before = m@;
        let k = refs.key_at(i).clone();
        proof {
            lemma_pair_in_map(ps, i as int);
        }
        let v = referencing(refs, k.as_str());
        m.insert(k, v);
        proof {
            assert forall|kk: Seq<char>| #[trigger] m@.contains_key(kk) <==> exists|j: int| 0 <= j < i + 1 && ps[j].0@ == kk by {
                if kk == ps[i as int].0@ {
                    assert(ps[i as int].0@ == kk);
                }
                if exists|j: int| 0 <= j < i + 1 && ps[j].0@ == kk {
                    let j = choose|j: int| 0 <= j < i + 1 && ps[j].0@ == kk;
                    if j < i {
                        assert(before.contains_key(kk));
                    }
                }
            }
            assert forall|j: int| 0 <= j < i + 1 implies pair_views(#[trigger] m@[ps[j].0@]@) == pair_views(ps[j].1@) by {
                if j < i {
                    assert(ps[j].0@ != ps[i as int].0@);
                }
            }
        }
        i += 1;
    }
    proof {
        assert forall|k: Seq<char>| #[trigger] m@.contains_key(k) implies refs@.contains_key(k)
            && pair_views(m@[k]@) == pair_views(refs@[k]@) by {
            let j = choose|j: int| 0 <= j < n && ps[j].0@ == k;
            lemma_pair_in_map(ps, j);
        }
        assert forall|k: Seq<char>| #[trigger] refs@.contains_key(k) implies m@.contains_key(k) by {
            lemma_key_index(ps, k);
            let j = crate::assoc::key_index(ps, k);
            assert(ps[j].0@ == k);
        }
        assert(refs_view(m@) =~= refs_view(refs@));
    }
    m
}

// ---- rule conditions ----------------------------------------------------------------

/// The value an expression had before the current update, as a `becomes`
/// condition checks it: a field access reads the earlier store where it
/// holds the field, a binary operator combines such values, anything else
/// is evaluated as it is now.
pub open spec fn prior_value(
    env: EvalEnv,
    store: Map<Seq<char>, Instance>,
    prev: Map<Seq<char>, Instance>,
    e: Expr,
    inst: Seq<char>,
    f: spec_fn(NumOp, u64, u64) -> NumOutView,
) -> Result<ValueView, crate::runtime::eval::EvalErr>
    decreases e,
{
    match e {
        Expr::FieldAccess { obj, field, .. } => {
            let n = match *obj {
                Expr::Ident(name) => if prev.contains_key(inst) && prev[inst].entity_name@ == name@ {
                    inst
                } else {
                    name@
                },
                _ => inst,
            };
            if prev.contains_key(n) && inst_field(env.schema, prev[n], field@) is Some {
                Ok(inst_field(env.schema, prev[n], field@)->0)
            } else {
                spec_eval(env, store, e, Some(inst), f)
            }
        },
        Expr::Binary { op, left, right, .. } => match prior_value(env, store, prev, *left, inst, f) {
            Err(x) => Err(x),
            Ok(l) => match prior_value(env, store, prev, *right, inst, f) {
                Err(x) => Err(x),
                Ok(r) => binop(op, l, r, f),
            },
        },
        _ => spec_eval(env, store, e, Some(inst), f),
    }
}

/// Whether a condition holds for `inst`: the expression is true, or, with
/// `becomes`, equals the target, and (when `transition` is asked and an
/// earlier store is kept) did not equal it before the update. A condition
/// whose evaluation fails does not hold.
pub open spec fn cond_met(
    env: EvalEnv,
    store: Map<Seq<char>, Instance>,
    c: Condition,
    inst: Seq<char>,
    transition: bool,
    f: spec_fn(NumOp, u64, u64) -> NumOutView,
) -> bool {
    match spec_eval(env, store, c.expr, Some(inst), f) {
        Err(_) => false,
        Ok(cur) => match c.becomes {
            None => cur == ValueView::Bool(true),
            Some(t) => match spec_eval(env, store, t, Some(inst), f) {
                Err(_) => false,
                Ok(tv) => value_eq(cur, tv, f) && !(transition && env.prev_store is Some && (prior_value(
                    env,
                    store,
                    env.prev_store->0.instances@,
                    c.expr,
                    inst,
                    f,
                ) matches Ok(p) && value_eq(p, tv, f))),
            },
        },
    }
}

pub open spec fn all_met(
    env: EvalEnv,
    store: Map<Seq<char>, Instance>,
    cs: Seq<Condition>,
    inst: Seq<char>,
    transition: bool,
    f: spec_fn(NumOp, u64, u64) -> NumOutView,
) -> bool
    decreases cs.len(),
{
    if cs.len() == 0 {
        true
    } else {
        all_met(env, store, cs.drop_last(), inst, transition, f) && cond_met(env, store, cs.last(), inst, transition, f)
    }
}

pub open spec fn any_becomes(cs: Seq<Condition>) -> bool {
    exists|i: int| 0 <= i < cs.len() && (#[trigger] cs[i]).becomes is Some
}

/// Whether a `when` rule holds for `inst`: all its conditions hold; a single
/// `becomes` condition must also have changed in the update.
pub open spec fn rule_holds(
    env: EvalEnv,
    store: Map<Seq<char>, Instance>,
    cs: Seq<Condition>,
    inst: Seq<char>,
    f: spec_fn(NumOp, u64, u64) -> NumOutView,
) -> bool {
    all_met(env, store, cs, inst, cs.len() <= 1 && any_becomes(cs), f)
}

fn prior_exec<F: Fn(NumOp, u64, u64) -> NumOut>(
    env: &EvalEnv,
    store: &EntityStore,
    prev: &EntityStore,
    e: &Expr,
    inst: &str,
    num: &F,
) -> (r: Result<Value, RuntimeError>)
    requires
        env.wf(),
        store.wf(),
        prev.wf(),
        num_deterministic(*num),
    ensures
        res_v(r) == prior_value(*env, store.instances@, prev.instances@, *e, inst@, nf(*num)),
    decreases e,
{
    match e {
        Expr::FieldAccess { obj, field, .. } => {
            let n: String = match &**obj {
                Expr::Ident(name) => {
                    let same = match prev.get(inst) {
                        Some(i) => str_eq(i.entity_name.as_str(), name.as_str()),
                        None => false,
                    };
                    if same {
                        String::from_str(inst)
                    } else {
                        name.clone()
                    }
                },
                _ => String::from_str(inst),
            };
            let found = match prev.get(n.as_str()) {
                Some(i) => instance_field(&env.schema, i, field.as_str()),
                None => None,
            };
            match found {
                Some(v) => Ok(v),
                None => eval_expr(env, store, e, Some(inst), num),
            }
        },
        Expr::Binary { op, left, right, .. } => {
            let l = match prior_exec(env, store, prev, left, inst, num) {
                Ok(v) => v,
                Err(x) => {
                    return Err(x);
                },
            };
            let r = match prior_exec(env, store, prev, right, inst, num) {
                Ok(v) => v,
                Err(x) => {
                    return Err(x);
                },
            };
            apply_binop(*op, &l, &r, num)
        },
        _ => eval_expr(env, store, e, Some(inst), num),
    }
}

fn condition_met<F: Fn(NumOp, u64, u64) -> NumOut>(
    env: &EvalEnv,
    store: &EntityStore,
    c: &Condition,
    inst: &str,
    transition: bool,
    num: &F,
) -> (b: bool)
    requires
        env.wf(),
        store.wf(),
        num_deterministic(*num),
    ensures
        b == cond_met(*env, store.instances@, *c, inst@, transition, nf(*num)),
{
    let cur = match eval_expr(env, store, &c.expr, Some(inst), num) {
        Ok(v) => v,
        Err(_) => {
            return false;
        },
    };
    match &c.becomes {
        None => matches!(cur, Value::Bool(true)),
        Some(t) => {
            let tv = match eval_expr(env, store, t, Some(inst), num) {
                Ok(v) => v,
                Err(_) => {
                    return false;
                },
            };
            if !values_equal(&cur, &tv, num) {
                return false;
            }
            if transition {
                match &env.prev_store {
                    Some(p) => match prior_exec(env, store, p, &c.expr, inst, num) {
                        Ok(pv) => {
                            if values_equal(&pv, &tv, num) {
                                return false;
                            }
                        },
                        Err(_) => {},
                    },
                    None => {},
                }
            }
            true
        },
    }
}

/// Whether a `when` rule holds for `inst` (see `rule_holds`).
pub fn when_holds<F: Fn(NumOp, u64, u64) -> NumOut>(
    env: &EvalEnv,
    store: &EntityStore,
    conds: &Vec<Condition>,
    inst: &str,
    num: &F,
) -> (b: bool)
    requires
        env.wf(),
        store.wf(),
        num_deterministic(*num),
    ensures
        b == rule_holds(*env, store.instances@, conds@, inst@, nf(*num)),
{
    let n = conds.len();
    let mut becomes = false;
    let mut k: usize = 0;
    while k < n
        invariant
            n == conds@.len(),
            k <= n,
            becomes == exists|j: int| 0 <= j < k && (#[trigger] conds@[j]).becomes is Some,
        decreases n - k,
    {
        if conds[k].becomes.is_some() {
            becomes = true;
        }
        k += 1;
    }
    let transition = n <= 1 && becomes;
    let ghost f = nf(*num);
    let mut all = true;
    let mut i: usize = 0;
    while i < n
        invariant
            env.wf(),
            store.wf(),
            num_deterministic(*num),
            f == nf(*num),
            n == conds@.len(),
            i <= n,
            all == all_met(*env, store.instances@, conds@.take(i as int), inst@, transition, f),
        decreases n - i,
    {
        assert(conds@.take(i + 1).drop_last() =~= conds@.take(i as int));
        let m = condition_met(env, store, &conds[i], inst, transition, num);
        all = all && m;
        i += 1;
    }
    assert(conds@.take(n as int) =~= conds@);
    all
}


// ---- updates, rules and actions ---------------------------------------------------

fn contains_text(v: &Vec<String>, t: &str) -> (b: bool)
    ensures
        b == exists|i: int| 0 <= i < v@.len() && (#[trigger] v@[i])@ == t@,
{
    let n = v.len();
    let mut i: usize = 0;
    while i < n
        invariant
            n == v@.len(),
            i <= n,
            forall|j: int| 0 <= j < i ==> (#[trigger] v@[j])@ != t@,
        decreases n - i,
    {
        if str_eq(v[i].as_str(), t) {
            return true;
        }
        i += 1;
    }
    false
}

fn joined(a: &str, b: &str, c: &str) -> (r: String)
    ensures
        r@ == a@ + b@ + c@,
{
    let mut r = String::from_str(a);
    r.append(b);
    r.append(c);
    r
}

/// The entity of an instance, when the store holds it.
pub open spec fn entity_of(store: Map<Seq<char>, Instance>, inst: Seq<char>) -> Seq<char> {
    store[inst].entity_name@
}

/// Updates `field` of `instance` to `value` (handing the value to the
/// adapter of the instance's entity, if one serves it), recomputes the derived fields
/// of the instance and of the instances that reference it, evaluates the
/// rules of those instances (running the actions of those that fire, which
/// may update further, one level deeper), and, at the outermost level,
/// commits the changed instances. An update that is refused, or that fails
/// anywhere on its way, leaves the instances and the record of references
/// as they were.
#[verifier::loop_isolation(false)]
pub fn apply_update<F: Fn(NumOp, u64, u64) -> NumOut>(
    rt: &mut Runtime,
    prog: &Declarations,
    instance: &str,
    field: &str,
    value: Value,
    num: &F,
) -> (r: Result<Vec<FiredEvent>, RuntimeError>)
    requires
        old(rt).wf(),
        prog.wf(),
        num_deterministic(*num),
    ensures
        final(rt).wf(),
        final(rt).depth == old(rt).depth,
        final(rt).env.schema == old(rt).env.schema,
        r is Err ==> final(rt).store == old(rt).store && final(rt).reverse_refs == old(rt).reverse_refs,
        r is Ok && old(rt).depth == 0 ==> final(rt).dirty@.len() == 0 && final(rt).fired_this_cycle@.len() == 0,
        r is Ok && old(rt).depth == 0 ==> (final(rt).env.prev_store matches Some(p)
            && crate::runtime::engine::store_same(p.instances@, old(rt).store.instances@)),
        old(rt).depth > 0 ==> final(rt).env.prev_store == old(rt).env.prev_store,
        (old(rt).store.instances@.contains_key(instance@) ==> old(rt).store.instances@[instance@].version
            < u64::MAX) ==> match refusal(
            old(rt).store.instances@,
            old(rt).env.schema,
            prog.derived@,
            instance@,
            field@,
            value@,
            within_range(old(rt).env.schema, entity_of(old(rt).store.instances@, instance@), field@, value@, nf(*num)),
            old(rt).depth,
        ) {
            Some(x) => r is Err && refusal_error(r->Err_0, x, instance@, field@, old(rt).depth) && *final(rt) == *old(rt),
            None => true,
        },
    decreases MAX_DEPTH - old(rt).depth, 2nat,
{
    let depth = rt.depth;
    match rt.store.get(instance) {
        Some(i) => if i.version == u64::MAX {
            return Err(RuntimeError::R002);
        },
        None => {},
    }
    let in_range = match rt.store.get(instance) {
        Some(i) => number_in_range(&rt.env.schema, i.entity_name.as_str(), field, &value, num),
        None => true,
    };
    let old_value: Option<Value> = match rt.store.get(instance) {
        Some(i) => instance_field(&rt.env.schema, i, field),
        None => None,
    };
    let new_value = copy_value(&value);
    let prev_copy = if depth == 0 { Some(copy_store(&rt.store)) } else { None };
    let u = match begin_update(&mut rt.store, &rt.env.schema, &prog.derived, instance, field, value, in_range, depth) {
        Ok(u) => u,
        Err(e) => {
            return Err(e);
        },
    };
    let ghost old_store = old(rt).store;
    let ghost old_refs = old(rt).reverse_refs;
    assert(u.snapshot == old_store);
    assert(depth < MAX_DEPTH);
    match prev_copy {
        Some(p) => {
            rt.env.prev_store = Some(p);
        },
        None => {},
    }
    let ghost prev0 = rt.env.prev_store;
    assert(depth == 0 ==> (prev0 matches Some(p) && crate::runtime::engine::store_same(p.instances@, old(rt).store.instances@)));
    assert(depth > 0 ==> prev0 == old(rt).env.prev_store);
    if contains_text(&rt.adapter_entities, u.entity.as_str()) {
        rt.writes.push((u.entity.clone(), String::from_str(instance), String::from_str(field), copy_value(&new_value)));
    }
    let mut saved = copy_refs(&rt.reverse_refs);
    std::mem::swap(&mut rt.reverse_refs, &mut saved);
    let is_r = has_pair(&prog.ref_fields, u.entity.as_str(), field);
    track_ref(&mut rt.reverse_refs, is_r, old_value.as_ref(), &new_value, instance, u.entity.as_str());
    let refs = referencing(&rt.reverse_refs, instance);
    let mut targets: Vec<(String, String)> = Vec::new();
    targets.push((String::from_str(instance), u.entity.clone()));
    let mut j: usize = 0;
    while j < refs.len()
        invariant
            j <= refs@.len(),
        decreases refs@.len() - j,
    {
        targets.push((refs[j].0.clone(), refs[j].1.clone()));
        j += 1;
    }
    let mut u = u;
    let nt = targets.len();
    let nd = prog.derived.len();
    let mut t: usize = 0;
    while t < nt
        invariant
            rt.wf(),
            prog.wf(),
            num_deterministic(*num),
            nt == targets@.len(),
            nd == prog.derived@.len(),
            t <= nt,
            rt.depth == depth,
            depth < MAX_DEPTH,
            rt.env.schema == old(rt).env.schema,
            u.snapshot == old_store,
            u.snapshot.wf(),
            saved == old_refs,
            rt.env.prev_store == prev0,
        decreases nt - t,
    {
        let mut k: usize = 0;
        while k < nd
            invariant
                rt.wf(),
                prog.wf(),
                num_deterministic(*num),
                nt == targets@.len(),
                nd == prog.derived@.len(),
                t < nt,
                k <= nd,
                rt.depth == depth,
                depth < MAX_DEPTH,
                rt.env.schema == old(rt).env.schema,
                u.snapshot == old_store,
                u.snapshot.wf(),
                saved == old_refs,
                rt.env.prev_store == prev0,
            decreases nd - k,
        {
            let target = targets[t].0.as_str();
            let target_entity = targets[t].1.as_str();
            if str_eq(prog.derived[k].0.as_str(), target_entity) {
                let exists = match rt.store.get(target) {
                    Some(i) => {
                        if i.version == u64::MAX {
                            let Update { snapshot, instance: _, entity: _, derived: _ } = u;
                            rt.store = snapshot;
                            rt.reverse_refs = saved;
                            return Err(RuntimeError::R002);
                        }
                        true
                    },
                    None => false,
                };
                if exists {
                    let result = eval_expr(&rt.env, &rt.store, &prog.derived_exprs[k], Some(target), num);
                    u = match apply_derived(u, &mut rt.store, &rt.env.schema, target, target_entity, prog.derived[k].1.as_str(), result) {
                        Ok(u2) => u2,
                        Err(e) => {
                            rt.reverse_refs = saved;
                            return Err(e);
                        },
                    };
                }
            }
            k += 1;
        }
        t += 1;
    }
    let mut events: Vec<FiredEvent> = Vec::new();
    let mut t: usize = 0;
    while t < nt
        invariant
            rt.wf(),
            prog.wf(),
            num_deterministic(*num),
            nt == targets@.len(),
            t <= nt,
            rt.depth == depth,
            depth < MAX_DEPTH,
            rt.env.schema == old(rt).env.schema,
            u.snapshot == old_store,
            u.snapshot.wf(),
            saved == old_refs,
            rt.env.prev_store == prev0,
        decreases nt - t,
    {
        let name = targets[t].0.as_str();
        if t == 0 || rt.store.contains(name) {
            match evaluate_rules(rt, prog, name, num) {
                Ok(mut evs) => {
                    events.append(&mut evs);
                },
                Err(e) => {
                    let Update { snapshot, instance: _, entity: _, derived: _ } = u;
                    rt.store = snapshot;
                    rt.reverse_refs = saved;
                    return Err(e);
                },
            }
        }
        t += 1;
    }
    finish_update(u, &mut rt.store, &mut rt.dirty, depth);
    if depth == 0 {
        rt.fired_this_cycle = Vec::new();
    }
    Ok(events)
}

/// What is remembered of a rule under `key`, or that it has not held yet.
pub open spec fn state_at(states: Map<Seq<char>, RuleState>, key: Seq<char>) -> crate::runtime::rules::RuleStateView {
    if states.contains_key(key) {
        states[key]@
    } else {
        crate::runtime::rules::RuleStateView { was_met: false, active: false, last_fired: None, history: Seq::empty() }
    }
}

/// What one evaluation of a `when` rule with conditions `conds` and gate
/// `gate` for `instance` decides, what is remembered of it being kept under
/// `key`: `rule_step` on that state, on whether the rule holds (see
/// `rule_holds`), on whether it fired already in this update, and on the
/// clock.
pub fn rule_decision<F: Fn(NumOp, u64, u64) -> NumOut>(
    rt: &Runtime,
    conds: &Vec<Condition>,
    gate: &RuleGate,
    key: &str,
    instance: &str,
    num: &F,
) -> (r: (RuleState, RuleOutcome))
    requires
        rt.wf(),
        num_deterministic(*num),
    ensures
        (r.0@, r.1) == crate::runtime::rules::spec_rule_step(
            state_at(rt.rule_states@, key@),
            *gate,
            rule_holds(rt.env, rt.store.instances@, conds@, instance@, nf(*num)),
            exists|j: int| 0 <= j < rt.fired_this_cycle@.len() && (#[trigger] rt.fired_this_cycle@[j])@ == key@,
            rt.clock_ms,
        ),
{
    let met = when_holds(&rt.env, &rt.store, conds, instance, num);
    let fired = contains_text(&rt.fired_this_cycle, key);
    match rt.rule_states.get(key) {
        Some(st) => rule_step(st, gate, met, fired, rt.clock_ms),
        None => rule_step(&RuleState::new(), gate, met, fired, rt.clock_ms),
    }
}

/// Evaluates the `when` rules of the program for `instance`, one after the
/// other while the instance exists: each rule's conditions (see
/// `rule_holds`) and what is remembered of it decide, by `rule_step`,
/// whether its actions run now (one level deeper), its timer starts or is
/// cancelled, or its `on clear` actions run. Fleet and periodic rules are
/// not evaluated per instance.
#[verifier::loop_isolation(false)]
pub fn evaluate_rules<F: Fn(NumOp, u64, u64) -> NumOut>(
    rt: &mut Runtime,
    prog: &Declarations,
    instance: &str,
    num: &F,
) -> (r: Result<Vec<FiredEvent>, RuntimeError>)
    requires
        old(rt).wf(),
        prog.wf(),
        num_deterministic(*num),
        old(rt).depth < MAX_DEPTH,
    ensures
        final(rt).wf(),
        final(rt).depth == old(rt).depth,
        final(rt).env.schema == old(rt).env.schema,
        !old(rt).store.instances@.contains_key(instance@) ==> (r matches Ok(v) && v@.len() == 0 && *final(rt)
            == *old(rt)),
        final(rt).env.prev_store == old(rt).env.prev_store,
    decreases MAX_DEPTH - old(rt).depth, 1nat,
{
    let depth = rt.depth;
    let mut events: Vec<FiredEvent> = Vec::new();
    let n = prog.rules.len();
    let mut i: usize = 0;
    while i < n
        invariant
            rt.wf(),
            prog.wf(),
            num_deterministic(*num),
            n == prog.rules@.len(),
            i <= n,
            rt.depth == depth,
            depth < MAX_DEPTH,
            rt.env.schema == old(rt).env.schema,
            !old(rt).store.instances@.contains_key(instance@) ==> i == 0 && *rt == *old(rt) && events@.len() == 0,
            rt.env.prev_store == old(rt).env.prev_store,
        decreases n - i,
    {
        if !rt.store.contains(instance) {
            break;
        }
        let rule = &prog.rules[i];
        rt.env.param_alias = match &rule.param {
            Some(p) => Some(p.name.clone()),
            None => None,
        };
        match &rule.trigger {
            RuleTrigger::When(conds) => {
                let key = joined(rule.name.as_str(), "::", instance);
                let (next, outcome) = rule_decision(rt, conds, &prog.gates[i], key.as_str(), instance, num);
                rt.rule_states.insert(key.clone(), next);
                match outcome {
                    RuleOutcome::Fire => {
                        rt.fired_this_cycle.push(key);
                        rt.depth = depth + 1;
                        let na = rule.actions.len();
                        let mut a: usize = 0;
                        while a < na
                            invariant
                                rt.wf(),
                                prog.wf(),
                                num_deterministic(*num),
                                na == rule.actions@.len(),
                                a <= na,
                                rt.depth == depth + 1,
                                depth < MAX_DEPTH,
                                rt.env.schema == old(rt).env.schema,
                                rt.env.prev_store == old(rt).env.prev_store,
                            decreases na - a,
                        {
                            match exec_action(rt, prog, &rule.actions[a], Some(instance), num) {
                                Ok(mut evs) => {
                                    events.append(&mut evs);
                                },
                                Err(e) => {
                                    rt.depth = depth;
                                    return Err(e);
                                },
                            }
                            a += 1;
                        }
                        rt.depth = depth;
                        events.push(FiredEvent {
                            rule: rule.name.clone(),
                            instance: String::from_str(instance),
                            severity: String::from_str("info"),
                            message: joined("Rule '", rule.name.as_str(), "' fired"),
                            ts: rt.clock_ms,
                        });
                    },
                    RuleOutcome::Clear => {
                        match &rule.on_clear {
                            Some(actions) => {
                                rt.depth = depth + 1;
                                let na = actions.len();
                                let mut a: usize = 0;
                                while a < na
                                    invariant
                                        rt.wf(),
                                        prog.wf(),
                                        num_deterministic(*num),
                                        na == actions@.len(),
                                        a <= na,
                                        rt.depth == depth + 1,
                                        depth < MAX_DEPTH,
                                        rt.env.schema == old(rt).env.schema,
                                        rt.env.prev_store == old(rt).env.prev_store,
                                    decreases na - a,
                                {
                                    match exec_action(rt, prog, &actions[a], Some(instance), num) {
                                        Ok(mut evs) => {
                                            events.append(&mut evs);
                                        },
                                        Err(e) => {
                                            rt.depth = depth;
                                            return Err(e);
                                        },
                                    }
                                    a += 1;
                                }
                                rt.depth = depth;
                                let mut cleared = rule.name.clone();
                                cleared.append("_clear");
                                events.push(FiredEvent {
                                    rule: cleared,
                                    instance: String::from_str(instance),
                                    severity: String::from_str("resolved"),
                                    message: joined("Rule '", rule.name.as_str(), "' cleared"),
                                    ts: rt.clock_ms,
                                });
                            },
                            None => {},
                        }
                        rt.timer_cancels.push((rule.name.clone(), String::from_str(instance)));
                    },
                    RuleOutcome::StartTimer => {
                        rt.timer_starts.push((rule.name.clone(), String::from_str(instance)));
                    },
                    RuleOutcome::Cancel => {
                        rt.timer_cancels.push((rule.name.clone(), String::from_str(instance)));
                    },
                    RuleOutcome::Hold => {},
                }
            },
            _ => {},
        }
        i += 1;
    }
    Ok(events)
}

/// Runs an action for instance `ctx` (or for none). `show` prints a value;
/// `update` and `write` update a field (through a `ref` field when the
/// target has a sub-field), `write` also handing the value to the entity's
/// adapter; `create` adds an instance; `delete` removes one; `alert`
/// prints an alert line. An action that fails leaves the instances and the
/// record of references as they were.
#[verifier::loop_isolation(false)]
pub fn exec_action<F: Fn(NumOp, u64, u64) -> NumOut>(
    rt: &mut Runtime,
    prog: &Declarations,
    action: &Action,
    ctx: Option<&str>,
    num: &F,
) -> (r: Result<Vec<FiredEvent>, RuntimeError>)
    requires
        old(rt).wf(),
        prog.wf(),
        num_deterministic(*num),
    ensures
        final(rt).wf(),
        final(rt).depth == old(rt).depth,
        final(rt).env.schema == old(rt).env.schema,
        r is Err ==> final(rt).store == old(rt).store && final(rt).reverse_refs == old(rt).reverse_refs,
        old(rt).depth > 0 ==> final(rt).env.prev_store == old(rt).env.prev_store,
        *action matches Action::Show(e) ==> match spec_eval(old(rt).env, old(rt).store.instances@, e, ctx_view(ctx), nf(*num)) {
            Err(x) => r is Err && res_v(Err(r->Err_0)) == Err::<ValueView, crate::runtime::eval::EvalErr>(x)
                && final(rt).output == old(rt).output,
            Ok(v) => r is Ok && r->Ok_0@.len() == 0 && final(rt).output@.len() == old(rt).output@.len() + 1
                && final(rt).output@.last()@ == value_text(v, nf(*num)) && final(rt).store == old(rt).store,
        },
        *action matches Action::Update { target, value } ==> (spec_eval(old(rt).env, old(rt).store.instances@, value, ctx_view(ctx), nf(*num)) matches Err(x)
            ==> r is Err && crate::runtime::eval::err_v(r->Err_0) == x && *final(rt) == *old(rt)),
        *action matches Action::Delete(name) ==> ({
            let t = crate::runtime::engine::target_instance(
                crate::runtime::engine::str_map_view(old(rt).env.instances@),
                ctx_view(ctx),
                None,
                name@,
            );
            if old(rt).store.instances@.contains_key(t) {
                r is Ok && final(rt).store.instances@ == old(rt).store.instances@.remove(t)
            } else {
                r matches Err(RuntimeError::R001 { instance: i }) && i@ == t && *final(rt) == *old(rt)
            }
        }),
        *action matches Action::Alert(al) ==> ({
            let f = nf(*num);
            let sev = spec_eval(old(rt).env, old(rt).store.instances@, al.severity, ctx_view(ctx), f);
            let msg = spec_eval(old(rt).env, old(rt).store.instances@, al.message, ctx_view(ctx), f);
            let src: Seq<char> = match al.source {
                Some(e) => match spec_eval(old(rt).env, old(rt).store.instances@, e, ctx_view(ctx), f) {
                    Ok(v) => value_text(v, f),
                    Err(_) => Seq::empty(),
                },
                None => Seq::empty(),
            };
            match (sev, msg) {
                (Err(x), _) => r is Err && crate::runtime::eval::err_v(r->Err_0) == x && *final(rt) == *old(rt),
                (Ok(_), Err(x)) => r is Err && crate::runtime::eval::err_v(r->Err_0) == x && *final(rt) == *old(rt),
                (Ok(sv), Ok(mv)) => if crate::runtime::engine::valid_severity(value_text(sv, f)) {
                    r is Ok && r->Ok_0@.len() == 1 && final(rt).output@ == old(rt).output@.push(final(rt).output@.last())
                        && final(rt).output@.last()@ == "[ALERT:"@ + value_text(sv, f) + "] "@ + src + " -- "@ + value_text(mv, f)
                        && final(rt).store == old(rt).store
                } else {
                    r matches Err(RuntimeError::R002) && *final(rt) == *old(rt)
                },
            }
        }),
    decreases MAX_DEPTH - old(rt).depth, 3nat,
{
    proof {
        reveal_strlit("[ALERT:");
        reveal_strlit("] ");
        reveal_strlit(" -- ");
    }
    match action {
        Action::Show(e) => {
            let v = match eval_expr(&rt.env, &rt.store, e, ctx, num) {
                Ok(v) => v,
                Err(x) => {
                    return Err(x);
                },
            };
            let s = show_value(&v, num);
            rt.output.push(s);
            Ok(Vec::new())
        },
        Action::Update { target, value } | Action::Write { target, value } => {
            let is_write = matches!(action, Action::Write { .. });
            let val = match eval_expr(&rt.env, &rt.store, value, ctx, num) {
                Ok(v) => v,
                Err(x) => {
                    return Err(x);
                },
            };
            let name = crate::runtime::engine::resolve_target(
                &rt.env.instances,
                ctx,
                rt.env.param_alias.as_ref(),
                target.instance.as_str(),
            );
            let (inst_name, fld) = match &target.sub_field {
                Some(sub) => {
                    let via = match rt.store.get(name.as_str()) {
                        Some(i) => match instance_field(&rt.env.schema, i, target.field.as_str()) {
                            Some(Value::Text(t)) => Some(t),
                            _ => None,
                        },
                        None => {
                            if is_write {
                                return Err(RuntimeError::R001 { instance: name });
                            }
                            None
                        },
                    };
                    match via {
                        Some(t) => (t, sub.clone()),
                        None => {
                            return Err(RuntimeError::R005 { instance: name, field: target.field.clone() });
                        },
                    }
                },
                None => (name, target.field.clone()),
            };
            if is_write {
                let entity = match rt.env.instances.get(inst_name.as_str()) {
                    Some(e) => e.clone(),
                    None => inst_name.clone(),
                };
                let served = contains_text(&rt.adapter_entities, entity.as_str());
                if served {
                    rt.writes.push((entity, inst_name.clone(), fld.clone(), copy_value(&val)));
                    if !rt.store.contains(inst_name.as_str()) {
                        return Ok(Vec::new());
                    }
                }
            }
            apply_update(rt, prog, inst_name.as_str(), fld.as_str(), val, num)
        },
        Action::Create { entity, fields } => {
            let mut vals: Vec<(String, Value)> = Vec::new();
            let n = fields.len();
            let mut i: usize = 0;
            while i < n
                invariant
                    n == fields@.len(),
                    i <= n,
                    vals@.len() == i,
                decreases n - i,
            {
                let v = match eval_expr(&rt.env, &rt.store, &fields[i].1, ctx, num) {
                    Ok(v) => v,
                    Err(x) => {
                        return Err(x);
                    },
                };
                vals.push((fields[i].0.clone(), v));
                i += 1;
            }
            if !rt.env.schema.entities.contains_key(entity.as_str()) {
                return Err(RuntimeError::R002);
            }
            let count = rt.store.all_instances_of(entity.as_str()).len();
            if count == usize::MAX || vals.len() == usize::MAX {
                return Err(RuntimeError::R002);
            }
            proof {
                assert(crate::runtime::store::names_of_entity(old(rt).store.instances.pairs(), entity@).len() == count);
            }
            let mut refs_for: Vec<(String, Value)> = Vec::new();
            let mut i: usize = 0;
            while i < vals.len()
                invariant
                    i <= vals@.len(),
                decreases vals@.len() - i,
            {
                refs_for.push((vals[i].0.clone(), copy_value(&vals[i].1)));
                i += 1;
            }
            let inst_name = crate::runtime::engine::create_instance(&mut rt.store, &rt.env.schema, entity.as_str(), vals);
            let ghost env0 = rt.env;
            let ghost store0 = rt.store;
            let ghost depth0 = rt.depth;
            let mut i: usize = 0;
            while i < refs_for.len()
                invariant
                    rt.reverse_refs.wf(),
                    rt.env == env0,
                    rt.store == store0,
                    rt.depth == depth0,
                    rt.rule_states.wf(),
                    i <= refs_for@.len(),
                decreases refs_for@.len() - i,
            {
                let is_r = has_pair(&prog.ref_fields, entity.as_str(), refs_for[i].0.as_str());
                track_ref(&mut rt.reverse_refs, is_r, None, &refs_for[i].1, inst_name.as_str(), entity.as_str());
                i += 1;
            }
            rt.env.instances.insert(inst_name, entity.clone());
            assert(rt.env.wf());
            assert(rt.store.wf());
            assert(rt.reverse_refs.wf());
            Ok(Vec::new())
        },
        Action::Delete(name) => {
            let target = crate::runtime::engine::resolve_target(&rt.env.instances, ctx, None, name.as_str());
            if !rt.store.contains(target.as_str()) {
                return Err(RuntimeError::R001 { instance: target });
            }
            let inst = match crate::runtime::engine::delete_instance(&mut rt.store, target.as_str()) {
                Ok(i) => i,
                Err(e) => {
                    return Err(e);
                },
            };
            match rt.env.schema.get_entity(inst.entity_name.as_str()) {
                Some(es) => {
                    let fields = inst.iter_fields(&es.field_names);
                    let ghost env0 = rt.env;
                    let ghost store0 = rt.store;
                    let ghost depth0 = rt.depth;
                    let mut i: usize = 0;
                    while i < fields.len()
                        invariant
                            rt.reverse_refs.wf(),
                            rt.env == env0,
                            rt.store == store0,
                            rt.depth == depth0,
                            rt.rule_states.wf(),
                            i <= fields@.len(),
                        decreases fields@.len() - i,
                    {
                        let is_r = has_pair(&prog.ref_fields, inst.entity_name.as_str(), fields[i].0.as_str());
                        if is_r {
                            track_ref(&mut rt.reverse_refs, true, Some(&fields[i].1), &Value::Unknown, target.as_str(), inst.entity_name.as_str());
                        }
                        i += 1;
                    }
                },
                None => {},
            }
            rt.reverse_refs.remove(target.as_str());
            assert(rt.env.wf());
            assert(rt.store.wf());
            assert(rt.reverse_refs.wf());
            Ok(Vec::new())
        },
        Action::Alert(al) => {
            let severity = match eval_expr(&rt.env, &rt.store, &al.severity, ctx, num) {
                Ok(v) => show_value(&v, num),
                Err(x) => {
                    return Err(x);
                },
            };
            let message = match eval_expr(&rt.env, &rt.store, &al.message, ctx, num) {
                Ok(v) => show_value(&v, num),
                Err(x) => {
                    return Err(x);
                },
            };
            let source = match &al.source {
                Some(e) => match eval_expr(&rt.env, &rt.store, e, ctx, num) {
                    Ok(v) => show_value(&v, num),
                    Err(_) => String::new(),
                },
                None => String::new(),
            };
            match crate::runtime::engine::check_severity(severity.as_str()) {
                Ok(()) => {},
                Err(e) => {
                    return Err(e);
                },
            }
            let mut line = joined("[ALERT:", severity.as_str(), "] ");
            line.append(source.as_str());
            line.append(" -- ");
            line.append(message.as_str());
            let ghost before = rt.output@;
            rt.output.push(line);
            assert(rt.output@ == before.push(rt.output@.last()));
            let rule = match ctx {
                Some(c) => String::from_str(c),
                None => String::new(),
            };
            let mut evs: Vec<FiredEvent> = Vec::new();
            evs.push(FiredEvent { rule, instance: source, severity, message, ts: rt.clock_ms });
            Ok(evs)
        },
    }
}


// ---- statements ---------------------------------------------------------------------

/// Recomputes the derived fields of instance `inst` of `entity`, in
/// order; a failed evaluation gives its error (the fields set before it
/// stay set).
#[verifier::loop_isolation(false)]
pub fn propagate_derived<F: Fn(NumOp, u64, u64) -> NumOut>(
    rt: &mut Runtime,
    prog: &Declarations,
    inst: &str,
    entity: &str,
    num: &F,
) -> (r: Result<(), RuntimeError>)
    requires
        old(rt).wf(),
        prog.wf(),
        num_deterministic(*num),
    ensures
        final(rt).wf(),
        final(rt).depth == old(rt).depth,
        final(rt).env == old(rt).env,
        final(rt).reverse_refs == old(rt).reverse_refs,
        final(rt).store.instances@.dom() == old(rt).store.instances@.dom(),
{
    let ghost env0 = rt.env;
    let ghost refs0 = rt.reverse_refs;
    let ghost dom0 = rt.store.instances@.dom();
    let nd = prog.derived.len();
    let mut k: usize = 0;
    while k < nd
        invariant
            rt.wf(),
            nd == prog.derived@.len(),
            k <= nd,
            rt.env == env0,
            rt.reverse_refs == refs0,
            rt.depth == old(rt).depth,
            rt.store.instances@.dom() == dom0,
        decreases nd - k,
    {
        if str_eq(prog.derived[k].0.as_str(), entity) {
            let (len, ok) = match rt.store.get(inst) {
                Some(i) => (i.slots.len(), i.version < u64::MAX),
                None => (0, false),
            };
            if !ok {
                return Err(RuntimeError::R001 { instance: String::from_str(inst) });
            }
            let v = match eval_expr(&rt.env, &rt.store, &prog.derived_exprs[k], Some(inst), num) {
                Ok(v) => v,
                Err(e) => {
                    return Err(e);
                },
            };
            match slot_of(&rt.env.schema, entity, prog.derived[k].1.as_str()) {
                Some(idx) => if idx < len {
                    set_slot(&mut rt.store, inst, idx, v);
                } else {
                    return Err(RuntimeError::R005 { instance: String::from_str(inst), field: prog.derived[k].1.clone() });
                },
                None => {
                    return Err(RuntimeError::R005 { instance: String::from_str(inst), field: prog.derived[k].1.clone() });
                },
            }
        }
        k += 1;
    }
    Ok(())
}

/// Notes, for each `ref` field of `entity` whose value is a text, that the
/// instance it names is referenced by `(by, by_entity)`.
#[verifier::loop_isolation(false)]
fn note_refs(refs: &mut StrMap<Vec<(String, String)>>, prog: &Declarations, entity: &str, fields: &Vec<(String, Value)>, by: &str, by_entity: &str)
    requires
        old(refs).wf(),
    ensures
        final(refs).wf(),
{
    let mut i: usize = 0;
    while i < fields.len()
        invariant
            refs.wf(),
            i <= fields@.len(),
        decreases fields@.len() - i,
    {
        let is_r = has_pair(&prog.ref_fields, entity, fields[i].0.as_str());
        track_ref(refs, is_r, None, &fields[i].1, by, by_entity);
        i += 1;
    }
}

fn copy_fields(fields: &Vec<(String, Value)>) -> (r: Vec<(String, Value)>)
    ensures
        r@.len() == fields@.len(),
        forall|i: int| 0 <= i < r@.len() ==> #[trigger] r@[i].0@ == fields@[i].0@ && r@[i].1@ == fields@[i].1@,
{
    let mut out: Vec<(String, Value)> = Vec::new();
    let mut i: usize = 0;
    while i < fields.len()
        invariant
            i <= fields@.len(),
            out@.len() == i,
            forall|j: int| 0 <= j < i ==> #[trigger] out@[j].0@ == fields@[j].0@ && out@[j].1@ == fields@[j].1@,
        decreases fields@.len() - i,
    {
        out.push((fields[i].0.clone(), copy_value(&fields[i].1)));
        i += 1;
    }
    out
}

/// Runs one statement of a program: a `let` of a value binds it; a `let`
/// of an instance creates it, recomputes its derived fields, commits and
/// (unless the program is being loaded) evaluates its rules; an action
/// runs; a function or aggregate is registered; an external entity gets
/// its instance with default values and its derived fields; a provider is
/// announced. Declarations of entities and rules, imports and cluster
/// settings take effect elsewhere and give nothing here.
#[verifier::loop_isolation(false)]
pub fn exec_statement<F: Fn(NumOp, u64, u64) -> NumOut>(
    rt: &mut Runtime,
    prog: &mut Declarations,
    stmt: Statement,
    num: &F,
) -> (r: Result<Vec<FiredEvent>, RuntimeError>)
    requires
        old(rt).wf(),
        old(prog).wf(),
        num_deterministic(*num),
        old(rt).depth < MAX_DEPTH,
    ensures
        final(rt).wf(),
        final(prog).wf(),
        final(rt).depth == old(rt).depth,
        stmt matches Statement::Let(ls) ==> (ls.value is Expr ==> match spec_eval(
            old(rt).env,
            old(rt).store.instances@,
            ls.value->Expr_0,
            None,
            nf(*num),
        ) {
            Err(x) => r is Err && res_v(Err(r->Err_0)) == Err::<ValueView, crate::runtime::eval::EvalErr>(x)
                && *final(rt) == *old(rt),
            Ok(v) => r is Ok && r->Ok_0@.len() == 0 && crate::runtime::eval::vmap(final(rt).env.env@)
                == crate::runtime::eval::vmap(old(rt).env.env@).insert(ls.name@, v)
                && final(rt).store == old(rt).store,
        }),
        stmt matches Statement::Fn(d) ==> r is Ok && final(rt).env.functions@.contains_key(d.name@)
            && final(rt).env.functions@[d.name@] == d,
{
    match stmt {
        Statement::Let(ls) => {
            let name = ls.name;
            match ls.value {
                LetValue::Expr(e) => {
                    let v = match eval_expr(&rt.env, &rt.store, &e, None, num) {
                        Ok(v) => v,
                        Err(x) => {
                            return Err(x);
                        },
                    };
                    let ghost before = rt.env.env@;
                    let ghost vv = v@;
                    rt.env.env.insert(name, v);
                    assert(crate::runtime::eval::vmap(rt.env.env@) =~= crate::runtime::eval::vmap(before).insert(ls.name@, vv));
                    Ok(Vec::new())
                },
                LetValue::EntityInit(init) => {
                    let entity = init.entity_name;
                    let mut vals: Vec<(String, Value)> = Vec::new();
                    let n = init.fields.len();
                    let mut i: usize = 0;
                    while i < n
                        invariant
                            n == init.fields@.len(),
                            i <= n,
                            vals@.len() == i,
                        decreases n - i,
                    {
                        let v = match eval_expr(&rt.env, &rt.store, &init.fields[i].1, None, num) {
                            Ok(v) => v,
                            Err(x) => {
                                return Err(x);
                            },
                        };
                        vals.push((init.fields[i].0.clone(), v));
                        i += 1;
                    }
                    if !rt.env.schema.entities.contains_key(entity.as_str()) || vals.len() == usize::MAX {
                        return Err(RuntimeError::R002);
                    }
                    note_refs(&mut rt.reverse_refs, &*prog, entity.as_str(), &vals, name.as_str(), entity.as_str());
                    rt.env.instances.insert(name.clone(), entity.clone());
                    let given = copy_fields(&vals);
                    crate::runtime::engine::init_instance(&mut rt.store, &rt.env.schema, name.clone(), entity.as_str(), given);
                    match propagate_derived(rt, &*prog, name.as_str(), entity.as_str(), num) {
                        Ok(()) => {},
                        Err(e) => {
                            return Err(e);
                        },
                    }
                    rt.store.commit_dirty(&rt.dirty);
                    rt.dirty = Vec::new();
                    if !rt.initializing {
                        evaluate_rules(rt, &*prog, name.as_str(), num)
                    } else {
                        Ok(Vec::new())
                    }
                },
            }
        },
        Statement::Action(a) => exec_action(rt, &*prog, &a, None, num),
        Statement::Fn(d) => {
            rt.env.functions.insert(d.name.clone(), d);
            Ok(Vec::new())
        },
        Statement::Aggregate(d) => {
            rt.env.aggregates.register(d);
            Ok(Vec::new())
        },
        Statement::ExternalEntity(decl) => {
            let defaults = crate::runtime::engine::external_defaults(&decl.fields);
            let name = decl.name;
            let mut fields = decl.fields;
            while fields.len() > 0
                invariant
                    prog.wf(),
                decreases fields@.len(),
            {
                match fields.pop() {
                    Some(crate::ast::Field::Derived(df)) => {
                        prog.derived.push((name.clone(), df.name));
                        prog.derived_exprs.push(df.expr);
                    },
                    _ => {},
                }
            }
            if !rt.env.schema.entities.contains_key(name.as_str()) || defaults.len() == usize::MAX {
                return Err(RuntimeError::R002);
            }
            note_refs(&mut rt.reverse_refs, &*prog, name.as_str(), &defaults, name.as_str(), name.as_str());
            crate::runtime::engine::init_instance(&mut rt.store, &rt.env.schema, name.clone(), name.as_str(), defaults);
            rt.env.instances.insert(name.clone(), name.clone());
            let _ = propagate_derived(rt, &*prog, name.as_str(), name.as_str(), num);
            Ok(Vec::new())
        },
        Statement::Provider(d) => {
            rt.output.push(joined("Provider '", d.protocol.as_str(), "' registered (endpoint configured)"));
            Ok(Vec::new())
        },
        _ => Ok(Vec::new()),
    }
}


/// A number is within a field's `@range (lo, hi)` exactly when the number
/// work finds it neither below `lo` nor above `hi`; a field without a range,
/// or a value that is not a number, is always within.
pub proof fn law_range_bounds(schema: Schema, entity: Seq<char>, field: Seq<char>, n: u64, v: ValueView, f: spec_fn(NumOp, u64, u64) -> NumOutView)
    ensures
        crate::analyzer::types::lookup_field(schema, entity, field) is Some
            && crate::analyzer::types::lookup_field(schema, entity, field)->0.metadata.range is Some ==> ({
            let (lo, hi) = crate::analyzer::types::lookup_field(schema, entity, field)->0.metadata.range->0;
            within_range(schema, entity, field, ValueView::Number(n), f) <==> (!out_flag(f(NumOp::Lt, n, lo))
                && !out_flag(f(NumOp::Gt, n, hi)))
        }),
        (crate::analyzer::types::lookup_field(schema, entity, field) is Some
            && crate::analyzer::types::lookup_field(schema, entity, field)->0.metadata.range is None)
            ==> within_range(schema, entity, field, ValueView::Number(n), f),
        crate::analyzer::types::lookup_field(schema, entity, field) is None ==> within_range(schema, entity, field, ValueView::Number(n), f),
        !(v is Number) ==> within_range(schema, entity, field, v, f),
{
}

/// An update of a ranged number field of an existing instance, at a depth
/// below the limit, to a number the number work finds above the upper bound
/// (or below the lower one) is refused with R006 and that range.
pub proof fn law_out_of_range_refused(
    store: Map<Seq<char>, Instance>,
    schema: Schema,
    derived: Seq<(String, String)>,
    instance: Seq<char>,
    field: Seq<char>,
    n: u64,
    lo: u64,
    hi: u64,
    depth: usize,
    f: spec_fn(NumOp, u64, u64) -> NumOutView,
)
    requires
        depth < MAX_DEPTH,
        store.contains_key(instance),
        !crate::runtime::engine::is_derived(derived, store[instance].entity_name@, field),
        crate::analyzer::types::lookup_field(schema, store[instance].entity_name@, field) is Some,
        crate::analyzer::types::lookup_field(schema, store[instance].entity_name@, field)->0.metadata.range == Some((lo, hi)),
        out_flag(f(NumOp::Gt, n, hi)) || out_flag(f(NumOp::Lt, n, lo)),
    ensures
        refusal(
            store,
            schema,
            derived,
            instance,
            field,
            ValueView::Number(n),
            within_range(schema, store[instance].entity_name@, field, ValueView::Number(n), f),
            depth,
        ) == Some(crate::runtime::engine::Refusal::Range(n, lo, hi)),
{
}


/// The checks before an update, in order: too deep a nesting is R003
/// whatever else holds; otherwise a missing instance is R001; otherwise a
/// derived field is R009; a field the entity lacks (with no range to
/// check) is R005; an update that passes every check is not refused.
pub proof fn law_refusal_order(
    store: Map<Seq<char>, Instance>,
    schema: Schema,
    derived: Seq<(String, String)>,
    instance: Seq<char>,
    field: Seq<char>,
    v: ValueView,
    ok: bool,
    depth: usize,
)
    ensures
        depth >= MAX_DEPTH ==> refusal(store, schema, derived, instance, field, v, ok, depth) == Some(
            crate::runtime::engine::Refusal::Depth,
        ),
        depth < MAX_DEPTH && !store.contains_key(instance) ==> refusal(store, schema, derived, instance, field, v, ok, depth)
            == Some(crate::runtime::engine::Refusal::Missing),
        depth < MAX_DEPTH && store.contains_key(instance) && crate::runtime::engine::is_derived(
            derived,
            store[instance].entity_name@,
            field,
        ) ==> refusal(store, schema, derived, instance, field, v, ok, depth) == Some(
            crate::runtime::engine::Refusal::Derived,
        ),
        depth < MAX_DEPTH && store.contains_key(instance) && !crate::runtime::engine::is_derived(
            derived,
            store[instance].entity_name@,
            field,
        ) && (ok || !(v is Number)) ==> refusal(store, schema, derived, instance, field, v, ok, depth) == if crate::runtime::engine::field_slot(
            schema,
            store[instance].entity_name@,
            field,
        ) is None {
            Some(crate::runtime::engine::Refusal::NoSlot)
        } else {
            None::<crate::runtime::engine::Refusal>
        },
{
}

} // verus!
