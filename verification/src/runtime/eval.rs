use vstd::prelude::*;
use crate::analyzer::types::Schema;
use crate::assoc::StrMap;
use crate::ast::{BinOp, Expr, FnDecl, StringSegment, TimeUnit, UnOp};
use crate::runtime::aggregate::AggregateStore;
use crate::runtime::engine::field_slot;
use crate::runtime::error::RuntimeError;
use crate::runtime::store::{EntityStore, Instance};
use crate::runtime::value::{Value, ValueView, copy_value, list_view, type_label_spec};
use crate::text::str_eq;

verus! {

/// A step of number work, done on IEEE-754 double bits by the caller: the
/// arithmetic and comparisons, the folds of `min`, `max` and `sum`, turning a
/// count into a number and a number into an index, a duration's seconds, and
/// the text of numbers, timestamps and durations.
#[derive(Debug, Clone, Copy, PartialEq, Eq, Structural)]
pub enum NumOp {
    Add,
    Sub,
    Mul,
    Div,
    Mod,
    Neg,
    Gt,
    Lt,
    Ge,
    Le,
    Eq,
    Min,
    Max,
    /// The number a sum starts from.
    Zero,
    /// A count as a number.
    FromCount,
    /// A number as a list index (`as usize`).
    ToIndex,
    /// A duration's value and unit (0 seconds, 1 minutes, 2 hours, 3 days) in seconds.
    Seconds,
    /// A number's text.
    NumberText,
    /// A timestamp's number as text.
    PlainText,
    /// A duration's text.
    DurationText,
}

/// What a step of number work gives.
pub enum NumOut {
    Bits(u64),
    Flag(bool),
    Index(usize),
    Text(String),
    /// Division by zero.
    DivZero,
}

pub enum NumOutView {
    Bits(u64),
    Flag(bool),
    Index(usize),
    Text(Seq<char>),
    DivZero,
}

impl View for NumOut {
    type V = NumOutView;

    open spec fn view(&self) -> NumOutView {
        match self {
            NumOut::Bits(b) => NumOutView::Bits(*b),
            NumOut::Flag(b) => NumOutView::Flag(*b),
            NumOut::Index(i) => NumOutView::Index(*i),
            NumOut::Text(s) => NumOutView::Text(s@),
            NumOut::DivZero => NumOutView::DivZero,
        }
    }
}

pub open spec fn out_bits(o: NumOutView) -> u64 {
    match o {
        NumOutView::Bits(b) => b,
        _ => 0,
    }
}

pub open spec fn out_flag(o: NumOutView) -> bool {
    match o {
        NumOutView::Flag(b) => b,
        _ => false,
    }
}

pub open spec fn out_index(o: NumOutView) -> usize {
    match o {
        NumOutView::Index(i) => i,
        _ => 0,
    }
}

pub open spec fn out_text(o: NumOutView) -> Seq<char> {
    match o {
        NumOutView::Text(s) => s,
        _ => Seq::empty(),
    }
}

/// The number work is a function of its arguments.
pub open spec fn num_deterministic<F: Fn(NumOp, u64, u64) -> NumOut>(num: F) -> bool {
    &&& forall|o: NumOp, a: u64, b: u64| #[trigger] call_requires(num, (o, a, b))
    &&& forall|o: NumOp, a: u64, b: u64, x: NumOut, y: NumOut|
        call_ensures(num, (o, a, b), x) && call_ensures(num, (o, a, b), y) ==> x@ == y@
}

/// What the number work gives for `(o, a, b)`.
pub open spec fn num_of<F: Fn(NumOp, u64, u64) -> NumOut>(num: F, o: NumOp, a: u64, b: u64) -> NumOutView {
    (choose|x: NumOut| call_ensures(num, (o, a, b), x))@
}

/// An error as the evaluator's contracts speak of it.
pub enum EvalErr {
    R001(Seq<char>),
    R002,
    R004(usize, usize),
    R005(Seq<char>, Seq<char>),
    R012(Seq<char>),
    R014(Seq<char>, Seq<char>),
    R018(Seq<char>, Seq<char>, Seq<char>),
    Other,
}

pub open spec fn err_v(e: RuntimeError) -> EvalErr {
    match e {
        RuntimeError::R001 { instance } => EvalErr::R001(instance@),
        RuntimeError::R002 => EvalErr::R002,
        RuntimeError::R004 { index, len } => EvalErr::R004(index, len),
        RuntimeError::R005 { instance, field } => EvalErr::R005(instance@, field@),
        RuntimeError::R012 { reason } => EvalErr::R012(reason@),
        RuntimeError::R014 { node, entity } => EvalErr::R014(node@, entity@),
        RuntimeError::R018 { op, left, right } => EvalErr::R018(op@, left@, right@),
        _ => EvalErr::Other,
    }
}

pub type Ev = Result<ValueView, EvalErr>;

pub open spec fn res_v(r: Result<Value, RuntimeError>) -> Ev {
    match r {
        Ok(v) => Ok(v@),
        Err(e) => Err(err_v(e)),
    }
}

/// What an expression reads besides the store: the schema, the program's
/// `let` values, the aggregates, the instances' entities, the functions, the
/// cluster's state, the store before the current update, the rule's
/// parameter name, the process environment and the time.
pub struct EvalEnv {
    pub schema: Schema,
    pub env: StrMap<Value>,
    pub aggregates: AggregateStore,
    pub instances: StrMap<String>,
    pub functions: StrMap<FnDecl>,
    pub cluster_state: StrMap<StrMap<Value>>,
    pub prev_store: Option<EntityStore>,
    pub param_alias: Option<String>,
    pub os_env: StrMap<String>,
    pub now: u64,
}

impl EvalEnv {
    pub open spec fn wf(&self) -> bool {
        &&& self.schema.wf()
        &&& self.env.wf()
        &&& self.aggregates.wf()
        &&& self.instances.wf()
        &&& self.functions.wf()
        &&& self.cluster_state.wf()
        &&& forall|n: Seq<char>| #[trigger] self.cluster_state@.contains_key(n) ==> self.cluster_state@[n].wf()
        &&& (self.prev_store matches Some(p) ==> p.wf())
        &&& self.os_env.wf()
    }
}

/// The current value of `field` of an instance, if its entity has the field.
pub open spec fn inst_field(s: Schema, inst: Instance, field: Seq<char>) -> Option<ValueView> {
    match field_slot(s, inst.entity_name@, field) {
        Some(i) => if i < inst.slots@.len() {
            Some(inst.slots@[i as int].current@)
        } else {
            None
        },
        None => None,
    }
}

/// The aggregate value `agg.field`, if there is one.
pub open spec fn agg_value(a: AggregateStore, agg: Seq<char>, field: Seq<char>) -> Option<ValueView> {
    if a.values@.contains_key(agg) && a.values@[agg]@.contains_key(field) {
        Some(a.values@[agg]@[field]@)
    } else {
        None
    }
}

pub const INFINITY_BITS: u64 = 0x7ff0000000000000;
pub const NEG_INFINITY_BITS: u64 = 0xfff0000000000000;

pub open spec fn unit_code(u: TimeUnit) -> u64 {
    match u {
        TimeUnit::Seconds => 0,
        TimeUnit::Minutes => 1,
        TimeUnit::Hours => 2,
        TimeUnit::Days => 3,
    }
}

// ---- values as text and as equal -----------------------------------------------

/// A value as it is shown (in messages and interpolated text).
pub open spec fn value_text(v: ValueView, f: spec_fn(NumOp, u64, u64) -> NumOutView) -> Seq<char>
    decreases v, 0nat,
{
    match v {
        ValueView::Number(n) => out_text(f(NumOp::NumberText, n, 0)),
        ValueView::Text(s) => s,
        ValueView::Bool(b) => if b {
            "true"@
        } else {
            "false"@
        },
        ValueView::List(items) => "["@ + items_text(items, 0, f) + "]"@,
        ValueView::Timestamp(t) => "Timestamp("@ + out_text(f(NumOp::PlainText, t, 0)) + ")"@,
        ValueView::Duration(d) => out_text(f(NumOp::DurationText, d, 0)),
        ValueView::Secret(_) => "***SECRET***"@,
        ValueView::Unknown => "unknown"@,
    }
}

pub open spec fn items_text(items: Seq<ValueView>, i: int, f: spec_fn(NumOp, u64, u64) -> NumOutView) -> Seq<char>
    decreases items, 1nat, items.len() - i,
{
    if i < 0 || i >= items.len() {
        Seq::empty()
    } else {
        let sep = if i == 0 {
            Seq::empty()
        } else {
            ", "@
        };
        sep + value_text(items[i], f) + items_text(items, i + 1, f)
    }
}

/// Two values are equal: numbers, timestamps and durations as numbers
/// compare, lists item by item, the rest by what they hold.
pub open spec fn value_eq(a: ValueView, b: ValueView, f: spec_fn(NumOp, u64, u64) -> NumOutView) -> bool
    decreases a, 0nat,
{
    match (a, b) {
        (ValueView::Number(x), ValueView::Number(y)) => out_flag(f(NumOp::Eq, x, y)),
        (ValueView::Timestamp(x), ValueView::Timestamp(y)) => out_flag(f(NumOp::Eq, x, y)),
        (ValueView::Duration(x), ValueView::Duration(y)) => out_flag(f(NumOp::Eq, x, y)),
        (ValueView::List(xs), ValueView::List(ys)) => xs.len() == ys.len() && list_eq(xs, ys, 0, f),
        (ValueView::Text(x), ValueView::Text(y)) => x == y,
        (ValueView::Secret(x), ValueView::Secret(y)) => x == y,
        (ValueView::Bool(x), ValueView::Bool(y)) => x == y,
        (ValueView::Unknown, ValueView::Unknown) => true,
        _ => false,
    }
}

pub open spec fn list_eq(xs: Seq<ValueView>, ys: Seq<ValueView>, i: int, f: spec_fn(NumOp, u64, u64) -> NumOutView) -> bool
    decreases xs, 1nat, xs.len() - i,
{
    if i < 0 || i >= xs.len() {
        true
    } else {
        value_eq(xs[i], ys[i], f) && list_eq(xs, ys, i + 1, f)
    }
}

pub open spec fn is_bool(v: ValueView, b: bool) -> bool {
    v == ValueView::Bool(b)
}

// ---- operators ----------------------------------------------------------------

pub open spec fn op_symbol(op: BinOp) -> Seq<char> {
    crate::ast::binop_symbol(op)
}

pub open spec fn mismatch(op: Seq<char>, l: ValueView, r: ValueView) -> Ev {
    Err(EvalErr::R018(op, type_label_spec(l), type_label_spec(r)))
}

/// A binary operator on two values.
pub open spec fn binop(op: BinOp, l: ValueView, r: ValueView, f: spec_fn(NumOp, u64, u64) -> NumOutView) -> Ev {
    match op {
        BinOp::Add => match (l, r) {
            (ValueView::Number(a), ValueView::Number(b)) => Ok(ValueView::Number(out_bits(f(NumOp::Add, a, b)))),
            (ValueView::Text(a), ValueView::Text(b)) => Ok(ValueView::Text(a + b)),
            _ => mismatch("+"@, l, r),
        },
        BinOp::Sub => match (l, r) {
            (ValueView::Number(a), ValueView::Number(b)) => Ok(ValueView::Number(out_bits(f(NumOp::Sub, a, b)))),
            _ => mismatch("-"@, l, r),
        },
        BinOp::Mul => match (l, r) {
            (ValueView::Number(a), ValueView::Number(b)) => Ok(ValueView::Number(out_bits(f(NumOp::Mul, a, b)))),
            _ => mismatch("*"@, l, r),
        },
        BinOp::Div => match (l, r) {
            (ValueView::Number(a), ValueView::Number(b)) => if f(NumOp::Div, a, b) is DivZero {
                Err(EvalErr::R002)
            } else {
                Ok(ValueView::Number(out_bits(f(NumOp::Div, a, b))))
            },
            _ => mismatch("/"@, l, r),
        },
        BinOp::Mod => match (l, r) {
            (ValueView::Number(a), ValueView::Number(b)) => if f(NumOp::Mod, a, b) is DivZero {
                Err(EvalErr::R002)
            } else {
                Ok(ValueView::Number(out_bits(f(NumOp::Mod, a, b))))
            },
            _ => mismatch("%"@, l, r),
        },
        BinOp::Eq => Ok(ValueView::Bool(value_eq(l, r, f))),
        BinOp::Ne => Ok(ValueView::Bool(!value_eq(l, r, f))),
        BinOp::Gt => compare(NumOp::Gt, ">"@, l, r, f),
        BinOp::Lt => compare(NumOp::Lt, "<"@, l, r, f),
        BinOp::Ge => compare(NumOp::Ge, ">="@, l, r, f),
        BinOp::Le => compare(NumOp::Le, "<="@, l, r, f),
        _ => Err(EvalErr::R002),
    }
}

pub open spec fn compare(o: NumOp, sym: Seq<char>, l: ValueView, r: ValueView, f: spec_fn(NumOp, u64, u64) -> NumOutView) -> Ev {
    match (l, r) {
        (ValueView::Number(a), ValueView::Number(b)) => Ok(ValueView::Bool(out_flag(f(o, a, b)))),
        (ValueView::Duration(a), ValueView::Duration(b)) => Ok(ValueView::Bool(out_flag(f(o, a, b)))),
        _ => mismatch(sym, l, r),
    }
}


/// The number work as a function, for the contracts.
pub open spec fn nf<F: Fn(NumOp, u64, u64) -> NumOut>(num: F) -> spec_fn(NumOp, u64, u64) -> NumOutView {
    |o: NumOp, a: u64, b: u64| num_of(num, o, a, b)
}

/// What `name` means where an expression is evaluated for instance `ctx`:
/// a field of that instance, a `let` value, an aggregate value, or the
/// name of an instance itself.
pub open spec fn ident_value(env: EvalEnv, store: Map<Seq<char>, Instance>, name: Seq<char>, ctx: Option<Seq<char>>) -> Ev {
    if ctx is Some && store.contains_key(ctx->0) && inst_field(env.schema, store[ctx->0], name) is Some {
        Ok(inst_field(env.schema, store[ctx->0], name)->0)
    } else if env.env@.contains_key(name) {
        Ok(env.env@[name]@)
    } else if agg_value(env.aggregates, name, Seq::empty()) is Some {
        Ok(agg_value(env.aggregates, name, Seq::empty())->0)
    } else if env.instances@.contains_key(name) {
        Ok(ValueView::Text(name))
    } else {
        Err(EvalErr::R001(name))
    }
}

/// The instance a field access names: an entity's name, or the rule's
/// parameter, stands for the instance the expression is evaluated for.
pub open spec fn accessed_name(env: EvalEnv, name: Seq<char>, ctx: Option<Seq<char>>) -> Seq<char> {
    let n1 = if ctx is Some && env.instances@.contains_key(ctx->0) && env.instances@[ctx->0]@ == name {
        ctx->0
    } else {
        name
    };
    if env.param_alias is Some && n1 == env.param_alias->0@ && ctx is Some {
        ctx->0
    } else {
        n1
    }
}

/// The age of a timestamp, as a duration.
pub open spec fn age_of(env: EvalEnv, ts: u64, f: spec_fn(NumOp, u64, u64) -> NumOutView) -> ValueView {
    ValueView::Duration(out_bits(f(NumOp::Sub, env.now, ts)))
}

/// `name.field`: an aggregate value, the built-in `id`, or a field of an
/// instance (a timestamp's `age` as its age).
pub open spec fn field_value(
    env: EvalEnv,
    store: Map<Seq<char>, Instance>,
    name: Seq<char>,
    field: Seq<char>,
    ctx: Option<Seq<char>>,
    f: spec_fn(NumOp, u64, u64) -> NumOutView,
) -> Ev {
    let n = accessed_name(env, name, ctx);
    if agg_value(env.aggregates, n, field) is Some {
        Ok(agg_value(env.aggregates, n, field)->0)
    } else if field == "id"@ {
        Ok(ValueView::Text(n))
    } else if !store.contains_key(n) {
        Err(EvalErr::R001(n))
    } else {
        match inst_field(env.schema, store[n], field) {
            None => Err(EvalErr::R005(n, field)),
            Some(v) => if v is Timestamp && field == "age"@ {
                Ok(age_of(env, v->Timestamp_0, f))
            } else {
                Ok(v)
            },
        }
    }
}

/// `prev(field)` for instance `ctx`: from the store as it was before the
/// current update when it holds the instance, else from the store.
pub open spec fn prev_value(env: EvalEnv, store: Map<Seq<char>, Instance>, field: Seq<char>, ctx: Option<Seq<char>>) -> Ev {
    match ctx {
        None => Err(EvalErr::R001("global"@)),
        Some(c) => if env.prev_store is Some && env.prev_store->0.instances@.contains_key(c) {
            match inst_field(env.schema, env.prev_store->0.instances@[c], field) {
                Some(v) => Ok(v),
                None => Err(EvalErr::R005(c, field)),
            }
        } else if !store.contains_key(c) {
            Err(EvalErr::R001(c))
        } else {
            match inst_field(env.schema, store[c], field) {
                Some(v) => Ok(v),
                None => Err(EvalErr::R005(c, field)),
            }
        },
    }
}

/// `cluster.node.field`.
pub open spec fn cluster_value(env: EvalEnv, node: Seq<char>, field: Seq<char>) -> Ev {
    if env.cluster_state@.contains_key(node) {
        if env.cluster_state@[node]@.contains_key(field) {
            Ok(env.cluster_state@[node]@[field]@)
        } else {
            Err(EvalErr::R014(node, field))
        }
    } else {
        Err(EvalErr::R012("Node "@ + node + " not found in cluster state"@))
    }
}

/// A value that must be a list.
pub open spec fn as_list(r: Ev) -> Result<Seq<ValueView>, EvalErr> {
    match r {
        Err(e) => Err(e),
        Ok(ValueView::List(l)) => Ok(l),
        Ok(v) => Err(EvalErr::R018("list expected"@, type_label_spec(v), "List"@)),
    }
}

/// The numbers of a list, or the first item that is not one.
pub open spec fn as_numbers(l: Seq<ValueView>) -> Result<Seq<u64>, EvalErr>
    decreases l.len(),
{
    if l.len() == 0 {
        Ok(Seq::empty())
    } else {
        match as_numbers(l.drop_last()) {
            Err(e) => Err(e),
            Ok(ns) => match l.last() {
                ValueView::Number(n) => Ok(ns.push(n)),
                v => Err(EvalErr::R018("number expected"@, type_label_spec(v), "Number"@)),
            },
        }
    }
}

/// Folds numbers with a step of number work, from `init`.
pub open spec fn fold_num(o: NumOp, init: u64, ns: Seq<u64>, f: spec_fn(NumOp, u64, u64) -> NumOutView) -> u64
    decreases ns.len(),
{
    if ns.len() == 0 {
        init
    } else {
        out_bits(f(o, fold_num(o, init, ns.drop_last(), f), ns.last()))
    }
}

/// Item `idx` of a list, where `idx` is a number that the number work turns into an index.
pub open spec fn item_at(l: Seq<ValueView>, idx: Ev, f: spec_fn(NumOp, u64, u64) -> NumOutView) -> Ev {
    match idx {
        Err(e) => Err(e),
        Ok(ValueView::Number(n)) => {
            let i = out_index(f(NumOp::ToIndex, n, 0));
            if i >= l.len() {
                Err(EvalErr::R004(i, l.len() as usize))
            } else {
                Ok(l[i as int])
            }
        },
        Ok(_) => Err(EvalErr::R002),
    }
}

/// A value the process environment gives for a variable, empty when unset.
pub open spec fn os_var(env: EvalEnv, name: Seq<char>) -> Seq<char> {
    if env.os_env@.contains_key(name) {
        env.os_env@[name]@
    } else {
        Seq::empty()
    }
}

/// Workloads (or entities) given as a text or a list.
pub open spec fn is_names(v: ValueView) -> bool {
    v is Text || v is List
}

/// The parameters of a function bound to the first values.
pub open spec fn bind(params: Seq<crate::ast::FnParam>, vals: Seq<ValueView>) -> Map<Seq<char>, ValueView>
    decreases params.len(),
{
    let n = if params.len() < vals.len() {
        params.len()
    } else {
        vals.len()
    };
    if n == 0 {
        Map::empty()
    } else {
        bind(params.take(n - 1), vals.take(n - 1)).insert(params[n - 1].name@, vals[n - 1])
    }
}

/// The value of an expression evaluated for instance `ctx` (or for none),
/// with `f` the number work.
pub open spec fn spec_eval(
    env: EvalEnv,
    store: Map<Seq<char>, Instance>,
    e: Expr,
    ctx: Option<Seq<char>>,
    f: spec_fn(NumOp, u64, u64) -> NumOutView,
) -> Ev
    decreases e, 0nat,
{
    match e {
        Expr::Number(n) => Ok(ValueView::Number(n)),
        Expr::Text(s) => Ok(ValueView::Text(s@)),
        Expr::Bool(b) => Ok(ValueView::Bool(b)),
        Expr::Duration(d) => Ok(ValueView::Duration(out_bits(f(NumOp::Seconds, d.value, unit_code(d.unit))))),
        Expr::Ident(name) => ident_value(env, store, name@, ctx),
        Expr::FieldAccess { obj, field, .. } => match spec_eval(env, store, *obj, ctx, f) {
            Ok(ValueView::Timestamp(ts)) => if field@ == "age"@ {
                Ok(age_of(env, ts, f))
            } else {
                Err(EvalErr::R005("Timestamp"@, field@))
            },
            Ok(ValueView::Text(s)) => field_value(env, store, s, field@, ctx, f),
            Err(_) => match *obj {
                Expr::Ident(n) => field_value(env, store, n@, field@, ctx, f),
                _ => Err(EvalErr::R001("expression"@)),
            },
            Ok(_) => Err(EvalErr::R001("expression"@)),
        },
        Expr::Binary { op, left, right, .. } => match spec_eval(env, store, *left, ctx, f) {
            Err(x) => Err(x),
            Ok(l) => if op == BinOp::And && is_bool(l, false) {
                Ok(ValueView::Bool(false))
            } else if op == BinOp::Or && is_bool(l, true) {
                Ok(ValueView::Bool(true))
            } else {
                match spec_eval(env, store, *right, ctx, f) {
                    Err(x) => Err(x),
                    Ok(r) => if op == BinOp::And {
                        Ok(ValueView::Bool(is_bool(l, true) && is_bool(r, true)))
                    } else if op == BinOp::Or {
                        Ok(ValueView::Bool(is_bool(r, true)))
                    } else {
                        binop(op, l, r, f)
                    },
                }
            },
        },
        Expr::Unary { op, operand, .. } => match spec_eval(env, store, *operand, ctx, f) {
            Err(x) => Err(x),
            Ok(v) => match op {
                UnOp::Neg => match v {
                    ValueView::Number(n) => Ok(ValueView::Number(out_bits(f(NumOp::Neg, n, 0)))),
                    _ => Err(EvalErr::R018("negate"@, type_label_spec(v), "N/A"@)),
                },
                UnOp::Not => match v {
                    ValueView::Bool(b) => Ok(ValueView::Bool(!b)),
                    _ => Err(EvalErr::R018("not"@, type_label_spec(v), "N/A"@)),
                },
            },
        },
        Expr::If { cond, then_, else_, .. } => match spec_eval(env, store, *cond, ctx, f) {
            Err(x) => Err(x),
            Ok(c) => if is_bool(c, true) {
                spec_eval(env, store, *then_, ctx, f)
            } else {
                spec_eval(env, store, *else_, ctx, f)
            },
        },
        Expr::InterpolatedString(segs) => match spec_segments(env, store, segs@, ctx, f) {
            Err(x) => Err(x),
            Ok(t) => Ok(ValueView::Text(t)),
        },
        Expr::Call { name, args, .. } => spec_call(env, store, name@, args@, ctx, f),
        Expr::ListLiteral(es) => match spec_list(env, store, es@, ctx, f) {
            Err(x) => Err(x),
            Ok(vs) => Ok(ValueView::List(vs)),
        },
        Expr::Index { list, index, .. } => match as_list(spec_eval(env, store, *list, ctx, f)) {
            Err(x) => Err(x),
            Ok(l) => item_at(l, spec_eval(env, store, *index, ctx, f), f),
        },
        Expr::Prev { field, .. } => prev_value(env, store, field@, ctx),
        Expr::ClusterAccess { node_id, field, .. } => cluster_value(env, node_id@, field@),
        Expr::Migrate { workloads, target, .. } => match spec_eval(env, store, *workloads, ctx, f) {
            Err(x) => Err(x),
            Ok(w) => match spec_eval(env, store, *target, ctx, f) {
                Err(x) => Err(x),
                Ok(t) => if !(t is Text) || !is_names(w) {
                    Err(EvalErr::R002)
                } else {
                    Ok(ValueView::Bool(true))
                },
            },
        },
        Expr::Evacuate { entities, .. } => match spec_eval(env, store, *entities, ctx, f) {
            Err(x) => Err(x),
            Ok(w) => if !is_names(w) {
                Err(EvalErr::R002)
            } else {
                Ok(ValueView::Bool(true))
            },
        },
        Expr::Deploy { spec, .. } => match spec_eval(env, store, *spec, ctx, f) {
            Err(x) => Err(x),
            Ok(_) => Ok(ValueView::Bool(true)),
        },
    }
}

/// The values of expressions, in order, or the first error.
pub open spec fn spec_list(
    env: EvalEnv,
    store: Map<Seq<char>, Instance>,
    es: Seq<Expr>,
    ctx: Option<Seq<char>>,
    f: spec_fn(NumOp, u64, u64) -> NumOutView,
) -> Result<Seq<ValueView>, EvalErr>
    decreases es, 1nat,
{
    if es.len() == 0 {
        Ok(Seq::empty())
    } else {
        match spec_list(env, store, es.drop_last(), ctx, f) {
            Err(x) => Err(x),
            Ok(vs) => match spec_eval(env, store, es.last(), ctx, f) {
                Err(x) => Err(x),
                Ok(v) => Ok(vs.push(v)),
            },
        }
    }
}

/// The text of an interpolated string, or the first error.
pub open spec fn spec_segments(
    env: EvalEnv,
    store: Map<Seq<char>, Instance>,
    segs: Seq<StringSegment>,
    ctx: Option<Seq<char>>,
    f: spec_fn(NumOp, u64, u64) -> NumOutView,
) -> Result<Seq<char>, EvalErr>
    decreases segs, 1nat,
{
    if segs.len() == 0 {
        Ok(Seq::empty())
    } else {
        match spec_segments(env, store, segs.drop_last(), ctx, f) {
            Err(x) => Err(x),
            Ok(t) => match segs.last() {
                StringSegment::Literal(s) => Ok(t + s@),
                StringSegment::Expr(e) => match spec_eval(env, store, *e, ctx, f) {
                    Err(x) => Err(x),
                    Ok(v) => Ok(t + value_text(v, f)),
                },
            },
        }
    }
}

/// A call: a built-in list function, `now`, `env`, or a function of the program.
pub open spec fn spec_call(
    env: EvalEnv,
    store: Map<Seq<char>, Instance>,
    name: Seq<char>,
    args: Seq<Expr>,
    ctx: Option<Seq<char>>,
    f: spec_fn(NumOp, u64, u64) -> NumOutView,
) -> Ev
    decreases args, 2nat,
{
    if name == "now"@ {
        Ok(ValueView::Timestamp(env.now))
    } else if name == "len"@ || name == "min"@ || name == "max"@ || name == "sum"@ || name == "append"@
        || name == "head"@ || name == "tail"@ || name == "at"@ || name == "env"@ {
        if args.len() == 0 || ((name == "append"@ || name == "at"@) && args.len() < 2) {
            Err(EvalErr::R002)
        } else if name == "env"@ {
            match spec_eval(env, store, args[0], ctx, f) {
                Err(x) => Err(x),
                Ok(ValueView::Text(s)) => Ok(ValueView::Secret(os_var(env, s))),
                Ok(_) => Err(EvalErr::R002),
            }
        } else {
            match as_list(spec_eval(env, store, args[0], ctx, f)) {
                Err(x) => Err(x),
                Ok(l) => if name == "len"@ {
                    Ok(ValueView::Number(out_bits(f(NumOp::FromCount, l.len() as u64, 0))))
                } else if name == "append"@ {
                    match spec_eval(env, store, args[1], ctx, f) {
                        Err(x) => Err(x),
                        Ok(v) => Ok(ValueView::List(l.push(v))),
                    }
                } else if name == "at"@ {
                    item_at(l, spec_eval(env, store, args[1], ctx, f), f)
                } else if name == "head"@ || name == "tail"@ {
                    if l.len() == 0 {
                        Err(EvalErr::R004(0, 0))
                    } else if name == "head"@ {
                        Ok(l[0])
                    } else {
                        Ok(ValueView::List(l.subrange(1, l.len() as int)))
                    }
                } else {
                    match as_numbers(l) {
                        Err(x) => Err(x),
                        Ok(ns) => if name == "sum"@ {
                            Ok(ValueView::Number(fold_num(NumOp::Add, out_bits(f(NumOp::Zero, 0, 0)), ns, f)))
                        } else if ns.len() == 0 {
                            Err(EvalErr::R004(0, 0))
                        } else if name == "min"@ {
                            Ok(ValueView::Number(fold_num(NumOp::Min, INFINITY_BITS, ns, f)))
                        } else {
                            Ok(ValueView::Number(fold_num(NumOp::Max, NEG_INFINITY_BITS, ns, f)))
                        },
                    }
                },
            }
        }
    } else if !env.functions@.contains_key(name) {
        Err(EvalErr::R002)
    } else {
        match spec_list(env, store, args, ctx, f) {
            Err(x) => Err(x),
            Ok(vals) => {
                let d = env.functions@[name];
                spec_local(d.body, bind(d.params@, vals), f)
            },
        }
    }
}

/// The value of a function's body with its parameters bound.
pub open spec fn spec_local(e: Expr, locals: Map<Seq<char>, ValueView>, f: spec_fn(NumOp, u64, u64) -> NumOutView) -> Ev
    decreases e, 0nat,
{
    match e {
        Expr::Ident(name) => if locals.contains_key(name@) {
            Ok(locals[name@])
        } else {
            Err(EvalErr::R005(name@, name@))
        },
        Expr::Number(n) => Ok(ValueView::Number(n)),
        Expr::Text(s) => Ok(ValueView::Text(s@)),
        Expr::Bool(b) => Ok(ValueView::Bool(b)),
        Expr::Binary { op, left, right, .. } => match spec_local(*left, locals, f) {
            Err(x) => Err(x),
            Ok(l) => if op == BinOp::And && is_bool(l, false) {
                Ok(ValueView::Bool(false))
            } else if op == BinOp::Or && is_bool(l, true) {
                Ok(ValueView::Bool(true))
            } else {
                match spec_local(*right, locals, f) {
                    Err(x) => Err(x),
                    Ok(r) => if op == BinOp::And || op == BinOp::Or {
                        Ok(ValueView::Bool(is_bool(r, true)))
                    } else {
                        binop(op, l, r, f)
                    },
                }
            },
        },
        Expr::If { cond, then_, else_, .. } => match spec_local(*cond, locals, f) {
            Err(x) => Err(x),
            Ok(c) => if is_bool(c, true) {
                spec_local(*then_, locals, f)
            } else {
                spec_local(*else_, locals, f)
            },
        },
        Expr::InterpolatedString(segs) => match local_segments(segs@, locals, f) {
            Err(x) => Err(x),
            Ok(t) => Ok(ValueView::Text(t)),
        },
        Expr::ListLiteral(es) => match local_list(es@, locals, f) {
            Err(x) => Err(x),
            Ok(vs) => Ok(ValueView::List(vs)),
        },
        Expr::Index { list, index, .. } => match spec_local(*list, locals, f) {
            Err(x) => Err(x),
            Ok(ValueView::List(l)) => item_at(l, spec_local(*index, locals, f), f),
            Ok(_) => Err(EvalErr::R002),
        },
        _ => Err(EvalErr::R002),
    }
}

pub open spec fn local_list(es: Seq<Expr>, locals: Map<Seq<char>, ValueView>, f: spec_fn(NumOp, u64, u64) -> NumOutView) -> Result<Seq<ValueView>, EvalErr>
    decreases es, 1nat,
{
    if es.len() == 0 {
        Ok(Seq::empty())
    } else {
        match local_list(es.drop_last(), locals, f) {
            Err(x) => Err(x),
            Ok(vs) => match spec_local(es.last(), locals, f) {
                Err(x) => Err(x),
                Ok(v) => Ok(vs.push(v)),
            },
        }
    }
}

pub open spec fn local_segments(segs: Seq<StringSegment>, locals: Map<Seq<char>, ValueView>, f: spec_fn(NumOp, u64, u64) -> NumOutView) -> Result<Seq<char>, EvalErr>
    decreases segs, 1nat,
{
    if segs.len() == 0 {
        Ok(Seq::empty())
    } else {
        match local_segments(segs.drop_last(), locals, f) {
            Err(x) => Err(x),
            Ok(t) => match segs.last() {
                StringSegment::Literal(s) => Ok(t + s@),
                StringSegment::Expr(e) => match spec_local(*e, locals, f) {
                    Err(x) => Err(x),
                    Ok(v) => Ok(t + value_text(v, f)),
                },
            },
        }
    }
}


// ---- the number work, values shown and compared -------------------------------

proof fn lemma_list_view(s: Seq<Value>)
    ensures
        list_view(s).len() == s.len(),
        forall|i: int| 0 <= i < s.len() ==> #[trigger] list_view(s)[i] == s[i]@,
    decreases s.len(),
{
    if s.len() > 0 {
        lemma_list_view(s.drop_last());
        assert forall|i: int| 0 <= i < s.len() implies #[trigger] list_view(s)[i] == s[i]@ by {
            if i < s.len() - 1 {
                assert(s.drop_last()[i] == s[i]);
            }
        }
    }
}

/// A step of number work; `num` gives one result for one argument.
pub(crate) fn call_num<F: Fn(NumOp, u64, u64) -> NumOut>(num: &F, o: NumOp, a: u64, b: u64) -> (r: NumOut)
    requires
        num_deterministic(*num),
    ensures
        r@ == num_of(*num, o, a, b),
{
    let r = num(o, a, b);
    proof {
        let x = choose|x: NumOut| call_ensures(*num, (o, a, b), x);
        assert(call_ensures(*num, (o, a, b), x));
    }
    r
}

pub(crate) fn bits_of<F: Fn(NumOp, u64, u64) -> NumOut>(num: &F, o: NumOp, a: u64, b: u64) -> (r: u64)
    requires
        num_deterministic(*num),
    ensures
        r == out_bits(nf(*num)(o, a, b)),
{
    match call_num(num, o, a, b) {
        NumOut::Bits(x) => x,
        _ => 0,
    }
}

pub(crate) fn flag_of<F: Fn(NumOp, u64, u64) -> NumOut>(num: &F, o: NumOp, a: u64, b: u64) -> (r: bool)
    requires
        num_deterministic(*num),
    ensures
        r == out_flag(nf(*num)(o, a, b)),
{
    match call_num(num, o, a, b) {
        NumOut::Flag(x) => x,
        _ => false,
    }
}

pub(crate) fn text_of<F: Fn(NumOp, u64, u64) -> NumOut>(num: &F, o: NumOp, a: u64, b: u64) -> (r: String)
    requires
        num_deterministic(*num),
    ensures
        r@ == out_text(nf(*num)(o, a, b)),
{
    match call_num(num, o, a, b) {
        NumOut::Text(x) => x,
        _ => String::new(),
    }
}

/// A value as it is shown.
#[verifier::loop_isolation(false)]
pub fn show_value<F: Fn(NumOp, u64, u64) -> NumOut>(v: &Value, num: &F) -> (s: String)
    requires
        num_deterministic(*num),
    ensures
        s@ == value_text(v@, nf(*num)),
    decreases v,
{
    let ghost f = nf(*num);
    proof {
        reveal_strlit("true");
        reveal_strlit("false");
        reveal_strlit("[");
        reveal_strlit("]");
        reveal_strlit(", ");
        reveal_strlit("Timestamp(");
        reveal_strlit(")");
        reveal_strlit("***SECRET***");
        reveal_strlit("unknown");
    }
    match v {
        Value::Number(n) => text_of(num, NumOp::NumberText, *n, 0),
        Value::Text(t) => t.clone(),
        Value::Bool(b) => if *b {
            String::from_str("true")
        } else {
            String::from_str("false")
        },
        Value::List(items) => {
            proof {
                assert(decreases_to!(*v => *items));
                lemma_list_view(items@);
            }
            let ghost lv = list_view(items@);
            let mut body = String::new();
            let n = items.len();
            let mut i: usize = 0;
            while i < n
                invariant
                    *v == Value::List(*items),
                    num_deterministic(*num),
                    f == nf(*num),
                    n == items@.len(),
                    lv == list_view(items@),
                    lv.len() == n,
                    forall|j: int| 0 <= j < n ==> #[trigger] lv[j] == items@[j]@,
                    i <= n,
                    body@ + items_text(lv, i as int, f) == items_text(lv, 0, f),
                decreases n - i,
            {
                let ghost before = body@;
                if i > 0 {
                    body.append(", ");
                }
                let t = show_value(&items[i], num);
                body.append(t.as_str());
                proof {
                    let sep: Seq<char> = if i == 0 { Seq::empty() } else { ", "@ };
                    assert(body@ =~= before + sep + value_text(lv[i as int], f));
                    assert(items_text(lv, i as int, f) == sep + value_text(lv[i as int], f) + items_text(lv, i + 1, f));
                    assert(body@ + items_text(lv, i + 1, f) =~= before + items_text(lv, i as int, f));
                }
                i += 1;
            }
            assert(body@ + items_text(lv, n as int, f) =~= body@);
            let mut s = String::from_str("[");
            s.append(body.as_str());
            s.append("]");
            s
        },
        Value::Timestamp(t) => {
            let mut s = String::from_str("Timestamp(");
            let x = text_of(num, NumOp::PlainText, *t, 0);
            s.append(x.as_str());
            s.append(")");
            s
        },
        Value::Duration(d) => text_of(num, NumOp::DurationText, *d, 0),
        Value::Secret(_) => String::from_str("***SECRET***"),
        Value::Unknown => String::from_str("unknown"),
    }
}

/// Whether two values are equal (see `value_eq`).
#[verifier::loop_isolation(false)]
pub fn values_equal<F: Fn(NumOp, u64, u64) -> NumOut>(a: &Value, b: &Value, num: &F) -> (r: bool)
    requires
        num_deterministic(*num),
    ensures
        r == value_eq(a@, b@, nf(*num)),
    decreases a,
{
    let ghost f = nf(*num);
    match (a, b) {
        (Value::Number(x), Value::Number(y)) => flag_of(num, NumOp::Eq, *x, *y),
        (Value::Timestamp(x), Value::Timestamp(y)) => flag_of(num, NumOp::Eq, *x, *y),
        (Value::Duration(x), Value::Duration(y)) => flag_of(num, NumOp::Eq, *x, *y),
        (Value::Text(x), Value::Text(y)) => str_eq(x.as_str(), y.as_str()),
        (Value::Secret(x), Value::Secret(y)) => str_eq(x.as_str(), y.as_str()),
        (Value::Bool(x), Value::Bool(y)) => *x == *y,
        (Value::Unknown, Value::Unknown) => true,
        (Value::List(xs), Value::List(ys)) => {
            proof {
                assert(decreases_to!(*a => *xs));
                lemma_list_view(xs@);
                lemma_list_view(ys@);
            }
            let ghost lx = list_view(xs@);
            let ghost ly = list_view(ys@);
            if xs.len() != ys.len() {
                return false;
            }
            let n = xs.len();
            let mut i: usize = 0;
            while i < n
                invariant
                    *a == Value::List(*xs),
                    num_deterministic(*num),
                    f == nf(*num),
                    n == xs@.len(),
                    n == ys@.len(),
                    lx == list_view(xs@),
                    ly == list_view(ys@),
                    lx.len() == n,
                    ly.len() == n,
                    forall|j: int| 0 <= j < n ==> #[trigger] lx[j] == xs@[j]@,
                    forall|j: int| 0 <= j < n ==> #[trigger] ly[j] == ys@[j]@,
                    i <= n,
                    list_eq(lx, ly, 0, f) == list_eq(lx, ly, i as int, f),
                decreases n - i,
            {
                if !values_equal(&xs[i], &ys[i], num) {
                    assert(lx[i as int] == xs@[i as int]@ && ly[i as int] == ys@[i as int]@);
                    assert(!list_eq(lx, ly, i as int, f));
                    return false;
                }
                assert(lx[i as int] == xs@[i as int]@ && ly[i as int] == ys@[i as int]@);
                i += 1;
            }
            true
        },
        _ => false,
    }
}

fn mismatch_error(op: &str, l: &Value, r: &Value) -> (e: RuntimeError)
    ensures
        err_v(e) == EvalErr::R018(op@, type_label_spec(l@), type_label_spec(r@)),
{
    RuntimeError::R018 {
        op: String::from_str(op),
        left: String::from_str(l.type_label()),
        right: String::from_str(r.type_label()),
    }
}

fn compare_values<F: Fn(NumOp, u64, u64) -> NumOut>(o: NumOp, sym: &str, l: &Value, r: &Value, num: &F) -> (res: Result<Value, RuntimeError>)
    requires
        num_deterministic(*num),
    ensures
        res_v(res) == compare(o, sym@, l@, r@, nf(*num)),
{
    match (l, r) {
        (Value::Number(a), Value::Number(b)) => Ok(Value::Bool(flag_of(num, o, *a, *b))),
        (Value::Duration(a), Value::Duration(b)) => Ok(Value::Bool(flag_of(num, o, *a, *b))),
        _ => Err(mismatch_error(sym, l, r)),
    }
}

/// A binary operator other than `and` and `or` on two values.
pub fn apply_binop<F: Fn(NumOp, u64, u64) -> NumOut>(op: BinOp, l: &Value, r: &Value, num: &F) -> (res: Result<Value, RuntimeError>)
    requires
        num_deterministic(*num),
    ensures
        res_v(res) == binop(op, l@, r@, nf(*num)),
{
    proof {
        reveal_strlit("+");
        reveal_strlit("-");
        reveal_strlit("*");
        reveal_strlit("/");
        reveal_strlit("%");
        reveal_strlit(">");
        reveal_strlit("<");
        reveal_strlit(">=");
        reveal_strlit("<=");
    }
    match op {
        BinOp::Add => match (l, r) {
            (Value::Number(a), Value::Number(b)) => Ok(Value::Number(bits_of(num, NumOp::Add, *a, *b))),
            (Value::Text(a), Value::Text(b)) => {
                let mut s = a.clone();
                s.append(b.as_str());
                Ok(Value::Text(s))
            },
            _ => Err(mismatch_error("+", l, r)),
        },
        BinOp::Sub => match (l, r) {
            (Value::Number(a), Value::Number(b)) => Ok(Value::Number(bits_of(num, NumOp::Sub, *a, *b))),
            _ => Err(mismatch_error("-", l, r)),
        },
        BinOp::Mul => match (l, r) {
            (Value::Number(a), Value::Number(b)) => Ok(Value::Number(bits_of(num, NumOp::Mul, *a, *b))),
            _ => Err(mismatch_error("*", l, r)),
        },
        BinOp::Div | BinOp::Mod => {
            let (o, sym) = if op == BinOp::Div { (NumOp::Div, "/") } else { (NumOp::Mod, "%") };
            match (l, r) {
                (Value::Number(a), Value::Number(b)) => match call_num(num, o, *a, *b) {
                    NumOut::DivZero => Err(RuntimeError::R002),
                    NumOut::Bits(x) => Ok(Value::Number(x)),
                    _ => Ok(Value::Number(0)),
                },
                _ => Err(mismatch_error(sym, l, r)),
            }
        },
        BinOp::Eq => Ok(Value::Bool(values_equal(l, r, num))),
        BinOp::Ne => Ok(Value::Bool(!values_equal(l, r, num))),
        BinOp::Gt => compare_values(NumOp::Gt, ">", l, r, num),
        BinOp::Lt => compare_values(NumOp::Lt, "<", l, r, num),
        BinOp::Ge => compare_values(NumOp::Ge, ">=", l, r, num),
        BinOp::Le => compare_values(NumOp::Le, "<=", l, r, num),
        _ => Err(RuntimeError::R002),
    }
}


// ---- lookups --------------------------------------------------------------------

/// The instance an expression is evaluated for, as the contracts speak of it.
pub open spec fn ctx_view(c: Option<&str>) -> Option<Seq<char>> {
    match c {
        Some(s) => Some(s@),
        None => None,
    }
}

pub open spec fn opt_value(r: Option<Value>) -> Option<ValueView> {
    match r {
        Some(v) => Some(v@),
        None => None,
    }
}

/// The current value of `field` of `inst`.
pub fn instance_field(schema: &Schema, inst: &Instance, field: &str) -> (r: Option<Value>)
    requires
        schema.wf(),
    ensures
        opt_value(r) == inst_field(*schema, *inst, field@),
{
    match crate::runtime::engine::slot_of(schema, inst.entity_name.as_str(), field) {
        Some(i) => if i < inst.slots.len() {
            Some(copy_value(&inst.slots[i].current))
        } else {
            None
        },
        None => None,
    }
}

fn ident_lookup(env: &EvalEnv, store: &EntityStore, name: &str, ctx: Option<&str>) -> (r: Result<Value, RuntimeError>)
    requires
        env.wf(),
        store.wf(),
    ensures
        res_v(r) == ident_value(*env, store.instances@, name@, ctx_view(ctx)),
{
    proof {
        reveal_strlit("");
        assert(""@ =~= Seq::<char>::empty());
    }
    let from_ctx: Option<Value> = match ctx {
        Some(c) => match store.get(c) {
            Some(inst) => instance_field(&env.schema, inst, name),
            None => None,
        },
        None => None,
    };
    assert(from_ctx is Some <==> (ctx_view(ctx) is Some && store.instances@.contains_key(ctx_view(ctx)->0)
        && inst_field(env.schema, store.instances@[ctx_view(ctx)->0], name@) is Some));
    if let Some(v) = from_ctx {
        return Ok(v);
    }
    match env.env.get(name) {
        Some(v) => {
            return Ok(copy_value(v));
        },
        None => {},
    }
    match env.aggregates.get(name, "") {
        Some(v) => {
            return Ok(copy_value(v));
        },
        None => {},
    }
    if env.instances.contains_key(name) {
        return Ok(Value::Text(String::from_str(name)));
    }
    Err(RuntimeError::R001 { instance: String::from_str(name) })
}

fn accessed_instance(env: &EvalEnv, name: &str, ctx: Option<&str>) -> (r: String)
    requires
        env.wf(),
    ensures
        r@ == accessed_name(*env, name@, ctx_view(ctx)),
{
    let mut n = String::from_str(name);
    match ctx {
        Some(c) => match env.instances.get(c) {
            Some(e) => if str_eq(e.as_str(), name) {
                n = String::from_str(c);
            },
            None => {},
        },
        None => {},
    }
    match &env.param_alias {
        Some(p) => if str_eq(n.as_str(), p.as_str()) {
            match ctx {
                Some(c) => {
                    n = String::from_str(c);
                },
                None => {},
            }
        },
        None => {},
    }
    n
}

fn field_lookup<F: Fn(NumOp, u64, u64) -> NumOut>(
    env: &EvalEnv,
    store: &EntityStore,
    name: &str,
    field: &str,
    ctx: Option<&str>,
    num: &F,
) -> (r: Result<Value, RuntimeError>)
    requires
        env.wf(),
        store.wf(),
        num_deterministic(*num),
    ensures
        res_v(r) == field_value(*env, store.instances@, name@, field@, ctx_view(ctx), nf(*num)),
{
    proof {
        reveal_strlit("id");
        reveal_strlit("age");
    }
    let n = accessed_instance(env, name, ctx);
    match env.aggregates.get(n.as_str(), field) {
        Some(v) => {
            return Ok(copy_value(v));
        },
        None => {},
    }
    if str_eq(field, "id") {
        return Ok(Value::Text(n));
    }
    match store.get(n.as_str()) {
        None => Err(RuntimeError::R001 { instance: n }),
        Some(inst) => match instance_field(&env.schema, inst, field) {
            None => Err(RuntimeError::R005 { instance: n, field: String::from_str(field) }),
            Some(v) => match v {
                Value::Timestamp(ts) => if str_eq(field, "age") {
                    Ok(Value::Duration(bits_of(num, NumOp::Sub, env.now, ts)))
                } else {
                    Ok(Value::Timestamp(ts))
                },
                other => Ok(other),
            },
        },
    }
}

/// What `obj.field` gives once `obj` has been evaluated to `ov`.
fn access_result<F: Fn(NumOp, u64, u64) -> NumOut>(
    env: &EvalEnv,
    store: &EntityStore,
    obj: &Expr,
    ov: Result<Value, RuntimeError>,
    field: &str,
    ctx: Option<&str>,
    num: &F,
) -> (r: Result<Value, RuntimeError>)
    requires
        env.wf(),
        store.wf(),
        num_deterministic(*num),
    ensures
        res_v(r) == match res_v(ov) {
            Ok(ValueView::Timestamp(ts)) => if field@ == "age"@ {
                Ok(age_of(*env, ts, nf(*num)))
            } else {
                Err(EvalErr::R005("Timestamp"@, field@))
            },
            Ok(ValueView::Text(s)) => field_value(*env, store.instances@, s, field@, ctx_view(ctx), nf(*num)),
            Err(_) => match *obj {
                Expr::Ident(n) => field_value(*env, store.instances@, n@, field@, ctx_view(ctx), nf(*num)),
                _ => Err(EvalErr::R001("expression"@)),
            },
            Ok(_) => Err(EvalErr::R001("expression"@)),
        },
{
    proof {
        reveal_strlit("age");
    }
    match ov {
        Ok(Value::Timestamp(ts)) => if str_eq(field, "age") {
            Ok(Value::Duration(bits_of(num, NumOp::Sub, env.now, ts)))
        } else {
            Err(RuntimeError::R005 { instance: String::from_str("Timestamp"), field: String::from_str(field) })
        },
        Ok(Value::Text(s)) => field_lookup(env, store, s.as_str(), field, ctx, num),
        Err(_) => match obj {
            Expr::Ident(n) => field_lookup(env, store, n.as_str(), field, ctx, num),
            _ => Err(RuntimeError::R001 { instance: String::from_str("expression") }),
        },
        Ok(_) => Err(RuntimeError::R001 { instance: String::from_str("expression") }),
    }
}

fn prev_lookup(env: &EvalEnv, store: &EntityStore, field: &str, ctx: Option<&str>) -> (r: Result<Value, RuntimeError>)
    requires
        env.wf(),
        store.wf(),
    ensures
        res_v(r) == prev_value(*env, store.instances@, field@, ctx_view(ctx)),
{
    let c = match ctx {
        None => {
            return Err(RuntimeError::R001 { instance: String::from_str("global") });
        },
        Some(c) => c,
    };
    match &env.prev_store {
        Some(p) => match p.get(c) {
            Some(inst) => {
                return match instance_field(&env.schema, inst, field) {
                    Some(v) => Ok(v),
                    None => Err(RuntimeError::R005 { instance: String::from_str(c), field: String::from_str(field) }),
                };
            },
            None => {},
        },
        None => {},
    }
    match store.get(c) {
        None => Err(RuntimeError::R001 { instance: String::from_str(c) }),
        Some(inst) => match instance_field(&env.schema, inst, field) {
            Some(v) => Ok(v),
            None => Err(RuntimeError::R005 { instance: String::from_str(c), field: String::from_str(field) }),
        },
    }
}

fn cluster_lookup(env: &EvalEnv, node: &str, field: &str) -> (r: Result<Value, RuntimeError>)
    requires
        env.wf(),
    ensures
        res_v(r) == cluster_value(*env, node@, field@),
{
    match env.cluster_state.get(node) {
        Some(m) => match m.get(field) {
            Some(v) => Ok(copy_value(v)),
            None => Err(RuntimeError::R014 { node: String::from_str(node), entity: String::from_str(field) }),
        },
        None => {
            let mut reason = String::from_str("Node ");
            reason.append(node);
            reason.append(" not found in cluster state");
            Err(RuntimeError::R012 { reason })
        },
    }
}

/// A value that must be a list.
fn into_list(r: Result<Value, RuntimeError>) -> (l: Result<Vec<Value>, RuntimeError>)
    ensures
        match l {
            Ok(v) => as_list(res_v(r)) == Ok::<Seq<ValueView>, EvalErr>(list_view(v@)),
            Err(e) => as_list(res_v(r)) == Err::<Seq<ValueView>, EvalErr>(err_v(e)),
        },
{
    match r {
        Err(e) => Err(e),
        Ok(Value::List(l)) => Ok(l),
        Ok(v) => Err(RuntimeError::R018 {
            op: String::from_str("list expected"),
            left: String::from_str(v.type_label()),
            right: String::from_str("List"),
        }),
    }
}

/// Item `idx` of a list.
fn item_of<F: Fn(NumOp, u64, u64) -> NumOut>(l: &Vec<Value>, idx: Result<Value, RuntimeError>, num: &F) -> (r: Result<Value, RuntimeError>)
    requires
        num_deterministic(*num),
    ensures
        res_v(r) == item_at(list_view(l@), res_v(idx), nf(*num)),
{
    proof {
        lemma_list_view(l@);
    }
    match idx {
        Err(e) => Err(e),
        Ok(Value::Number(n)) => {
            let i = match call_num(num, NumOp::ToIndex, n, 0) {
                NumOut::Index(i) => i,
                _ => 0,
            };
            if i >= l.len() {
                Err(RuntimeError::R004 { index: i, len: l.len() })
            } else {
                Ok(copy_value(&l[i]))
            }
        },
        Ok(_) => Err(RuntimeError::R002),
    }
}


// ---- evaluation -------------------------------------------------------------------

/// Once a prefix of a list of expressions fails, the whole list fails alike.
proof fn lemma_list_stops(
    env: EvalEnv,
    store: Map<Seq<char>, Instance>,
    es: Seq<Expr>,
    k: int,
    ctx: Option<Seq<char>>,
    f: spec_fn(NumOp, u64, u64) -> NumOutView,
)
    requires
        0 <= k <= es.len(),
        spec_list(env, store, es.take(k), ctx, f) is Err,
    ensures
        spec_list(env, store, es, ctx, f) == spec_list(env, store, es.take(k), ctx, f),
    decreases es.len() - k,
{
    if k < es.len() {
        assert(es.take(k + 1).drop_last() =~= es.take(k));
        lemma_list_stops(env, store, es, k + 1, ctx, f);
    } else {
        assert(es.take(k) =~= es);
    }
}

proof fn lemma_segments_stop(
    env: EvalEnv,
    store: Map<Seq<char>, Instance>,
    segs: Seq<StringSegment>,
    k: int,
    ctx: Option<Seq<char>>,
    f: spec_fn(NumOp, u64, u64) -> NumOutView,
)
    requires
        0 <= k <= segs.len(),
        spec_segments(env, store, segs.take(k), ctx, f) is Err,
    ensures
        spec_segments(env, store, segs, ctx, f) == spec_segments(env, store, segs.take(k), ctx, f),
    decreases segs.len() - k,
{
    if k < segs.len() {
        assert(segs.take(k + 1).drop_last() =~= segs.take(k));
        lemma_segments_stop(env, store, segs, k + 1, ctx, f);
    } else {
        assert(segs.take(k) =~= segs);
    }
}

proof fn lemma_local_list_stops(es: Seq<Expr>, k: int, locals: Map<Seq<char>, ValueView>, f: spec_fn(NumOp, u64, u64) -> NumOutView)
    requires
        0 <= k <= es.len(),
        local_list(es.take(k), locals, f) is Err,
    ensures
        local_list(es, locals, f) == local_list(es.take(k), locals, f),
    decreases es.len() - k,
{
    if k < es.len() {
        assert(es.take(k + 1).drop_last() =~= es.take(k));
        lemma_local_list_stops(es, k + 1, locals, f);
    } else {
        assert(es.take(k) =~= es);
    }
}

proof fn lemma_local_segments_stop(
    segs: Seq<StringSegment>,
    k: int,
    locals: Map<Seq<char>, ValueView>,
    f: spec_fn(NumOp, u64, u64) -> NumOutView,
)
    requires
        0 <= k <= segs.len(),
        local_segments(segs.take(k), locals, f) is Err,
    ensures
        local_segments(segs, locals, f) == local_segments(segs.take(k), locals, f),
    decreases segs.len() - k,
{
    if k < segs.len() {
        assert(segs.take(k + 1).drop_last() =~= segs.take(k));
        lemma_local_segments_stop(segs, k + 1, locals, f);
    } else {
        assert(segs.take(k) =~= segs);
    }
}

proof fn lemma_numbers_stop(l: Seq<ValueView>, k: int)
    requires
        0 <= k <= l.len(),
        as_numbers(l.take(k)) is Err,
    ensures
        as_numbers(l) == as_numbers(l.take(k)),
    decreases l.len() - k,
{
    if k < l.len() {
        assert(l.take(k + 1).drop_last() =~= l.take(k));
        lemma_numbers_stop(l, k + 1);
    } else {
        assert(l.take(k) =~= l);
    }
}

proof fn lemma_list_view_push(s: Seq<Value>, v: Value)
    ensures
        list_view(s.push(v)) == list_view(s).push(v@),
{
    assert(s.push(v).drop_last() =~= s);
}

/// The numbers of a list.
fn numbers_of(l: &Vec<Value>) -> (r: Result<Vec<u64>, RuntimeError>)
    ensures
        match r {
            Ok(ns) => as_numbers(list_view(l@)) == Ok::<Seq<u64>, EvalErr>(ns@),
            Err(e) => as_numbers(list_view(l@)) == Err::<Seq<u64>, EvalErr>(err_v(e)),
        },
{
    proof {
        lemma_list_view(l@);
    }
    let ghost lv = list_view(l@);
    let mut ns: Vec<u64> = Vec::new();
    let n = l.len();
    let mut i: usize = 0;
    while i < n
        invariant
            n == l@.len(),
            lv == list_view(l@),
            lv.len() == n,
            forall|j: int| 0 <= j < n ==> #[trigger] lv[j] == l@[j]@,
            i <= n,
            as_numbers(lv.take(i as int)) == Ok::<Seq<u64>, EvalErr>(ns@),
        decreases n - i,
    {
        assert(lv.take(i + 1).drop_last() =~= lv.take(i as int));
        assert(lv.take(i + 1).last() == l@[i as int]@);
        match &l[i] {
            Value::Number(x) => {
                ns.push(*x);
            },
            v => {
                let e = RuntimeError::R018 {
                    op: String::from_str("number expected"),
                    left: String::from_str(v.type_label()),
                    right: String::from_str("Number"),
                };
                proof {
                    lemma_numbers_stop(lv, i + 1);
                }
                return Err(e);
            },
        }
        i += 1;
    }
    assert(lv.take(n as int) =~= lv);
    Ok(ns)
}

fn fold_numbers<F: Fn(NumOp, u64, u64) -> NumOut>(o: NumOp, init: u64, ns: &Vec<u64>, num: &F) -> (r: u64)
    requires
        num_deterministic(*num),
    ensures
        r == fold_num(o, init, ns@, nf(*num)),
{
    let mut acc = init;
    let n = ns.len();
    let mut i: usize = 0;
    while i < n
        invariant
            num_deterministic(*num),
            n == ns@.len(),
            i <= n,
            acc == fold_num(o, init, ns@.take(i as int), nf(*num)),
        decreases n - i,
    {
        assert(ns@.take(i + 1).drop_last() =~= ns@.take(i as int));
        acc = bits_of(num, o, acc, ns[i]);
        i += 1;
    }
    assert(ns@.take(n as int) =~= ns@);
    acc
}

/// The items of a list after its first.
fn tail_of(l: &Vec<Value>) -> (r: Vec<Value>)
    requires
        l@.len() > 0,
    ensures
        list_view(r@) == list_view(l@).subrange(1, l@.len() as int),
{
    proof {
        lemma_list_view(l@);
    }
    let mut out: Vec<Value> = Vec::new();
    let n = l.len();
    let mut i: usize = 1;
    while i < n
        invariant
            n == l@.len(),
            1 <= i <= n,
            list_view(l@).len() == n,
            forall|j: int| 0 <= j < n ==> #[trigger] list_view(l@)[j] == l@[j]@,
            list_view(out@) == list_view(l@).subrange(1, i as int),
        decreases n - i,
    {
        let c = copy_value(&l[i]);
        proof {
            lemma_list_view_push(out@, c);
        }
        out.push(c);
        assert(list_view(l@).subrange(1, i + 1) =~= list_view(l@).subrange(1, i as int).push(l@[i as int]@));
        i += 1;
    }
    out
}

pub open spec fn vmap(m: Map<Seq<char>, Value>) -> Map<Seq<char>, ValueView> {
    m.map_values(|v: Value| v@)
}

/// A function's parameters bound to the values of its arguments.
fn bind_params(params: &Vec<crate::ast::FnParam>, vals: &Vec<Value>) -> (m: StrMap<Value>)
    ensures
        m.wf(),
        vmap(m@) == bind(params@, list_view(vals@)),
{
    proof {
        lemma_list_view(vals@);
    }
    let ghost lv = list_view(vals@);
    let n = if params.len() < vals.len() { params.len() } else { vals.len() };
    let mut m: StrMap<Value> = StrMap::new();
    let mut i: usize = 0;
    while i < n
        invariant
            n <= params@.len(),
            n <= vals@.len(),
            n == params@.len() || n == vals@.len(),
            lv == list_view(vals@),
            lv.len() == vals@.len(),
            forall|j: int| 0 <= j < vals@.len() ==> #[trigger] lv[j] == vals@[j]@,
            i <= n,
            m.wf(),
            vmap(m@) == bind(params@.take(i as int), lv.take(i as int)),
        decreases n - i,
    {
        let ghost before = m@;
        m.insert(params[i].name.clone(), copy_value(&vals[i]));
        proof {
            assert(params@.take(i + 1).take(i as int) =~= params@.take(i as int));
            assert(lv.take(i + 1).take(i as int) =~= lv.take(i as int));
            assert(vmap(m@) =~= vmap(before).insert(params@[i as int].name@, lv[i as int]));
        }
        i += 1;
    }
    proof {
        let k = if params@.len() < lv.len() { params@.len() } else { lv.len() };
        assert(k == n);
        if n > 0 {
            assert(params@.take(n as int).take(n - 1) =~= params@.take(n - 1));
            assert(lv.take(n as int).take(n - 1) =~= lv.take(n - 1));
        } else {
            assert(bind(params@.take(0), lv.take(0)) == Map::<Seq<char>, ValueView>::empty());
        }
    }
    m
}

/// The value of an expression evaluated for instance `ctx` (or for none).
/// `num` does the number work; it must give one result for one argument.
pub fn eval_expr<F: Fn(NumOp, u64, u64) -> NumOut>(
    env: &EvalEnv,
    store: &EntityStore,
    expr: &Expr,
    ctx: Option<&str>,
    num: &F,
) -> (r: Result<Value, RuntimeError>)
    requires
        env.wf(),
        store.wf(),
        num_deterministic(*num),
    ensures
        res_v(r) == spec_eval(*env, store.instances@, *expr, ctx_view(ctx), nf(*num)),
    decreases expr, 0nat,
{
    match expr {
        Expr::Number(n) => Ok(Value::Number(*n)),
        Expr::Text(t) => Ok(Value::Text(t.clone())),
        Expr::Bool(b) => Ok(Value::Bool(*b)),
        Expr::Duration(d) => {
            let u: u64 = match d.unit {
                TimeUnit::Seconds => 0,
                TimeUnit::Minutes => 1,
                TimeUnit::Hours => 2,
                TimeUnit::Days => 3,
            };
            Ok(Value::Duration(bits_of(num, NumOp::Seconds, d.value, u)))
        },
        Expr::Ident(name) => ident_lookup(env, store, name.as_str(), ctx),
        Expr::FieldAccess { obj, field, .. } => {
            let ov = eval_expr(env, store, obj, ctx, num);
            access_result(env, store, obj, ov, field.as_str(), ctx, num)
        },
        Expr::Binary { op, left, right, .. } => {
            let l = match eval_expr(env, store, left, ctx, num) {
                Ok(v) => v,
                Err(e) => {
                    return Err(e);
                },
            };
            let lf = matches!(l, Value::Bool(false));
            let lt = matches!(l, Value::Bool(true));
            if *op == BinOp::And && lf {
                return Ok(Value::Bool(false));
            }
            if *op == BinOp::Or && lt {
                return Ok(Value::Bool(true));
            }
            let r = match eval_expr(env, store, right, ctx, num) {
                Ok(v) => v,
                Err(e) => {
                    return Err(e);
                },
            };
            let rt = matches!(r, Value::Bool(true));
            if *op == BinOp::And {
                Ok(Value::Bool(lt && rt))
            } else if *op == BinOp::Or {
                Ok(Value::Bool(rt))
            } else {
                apply_binop(*op, &l, &r, num)
            }
        },
        Expr::Unary { op, operand, .. } => {
            let v = match eval_expr(env, store, operand, ctx, num) {
                Ok(v) => v,
                Err(e) => {
                    return Err(e);
                },
            };
            match op {
                UnOp::Neg => match v {
                    Value::Number(n) => Ok(Value::Number(bits_of(num, NumOp::Neg, n, 0))),
                    other => Err(RuntimeError::R018 {
                        op: String::from_str("negate"),
                        left: String::from_str(other.type_label()),
                        right: String::from_str("N/A"),
                    }),
                },
                UnOp::Not => match v {
                    Value::Bool(b) => Ok(Value::Bool(!b)),
                    other => Err(RuntimeError::R018 {
                        op: String::from_str("not"),
                        left: String::from_str(other.type_label()),
                        right: String::from_str("N/A"),
                    }),
                },
            }
        },
        Expr::If { cond, then_, else_, .. } => {
            let c = match eval_expr(env, store, cond, ctx, num) {
                Ok(v) => v,
                Err(e) => {
                    return Err(e);
                },
            };
            if matches!(c, Value::Bool(true)) {
                eval_expr(env, store, then_, ctx, num)
            } else {
                eval_expr(env, store, else_, ctx, num)
            }
        },
        Expr::InterpolatedString(segs) => match eval_segments(env, store, segs, ctx, num) {
            Ok(t) => Ok(Value::Text(t)),
            Err(e) => Err(e),
        },
        Expr::Call { name, args, .. } => eval_call(env, store, name, args, ctx, num),
        Expr::ListLiteral(es) => match eval_list(env, store, es, ctx, num) {
            Ok(vs) => Ok(Value::List(vs)),
            Err(e) => Err(e),
        },
        Expr::Index { list, index, .. } => {
            let l = match into_list(eval_expr(env, store, list, ctx, num)) {
                Ok(l) => l,
                Err(e) => {
                    return Err(e);
                },
            };
            let idx = eval_expr(env, store, index, ctx, num);
            item_of(&l, idx, num)
        },
        Expr::Prev { field, .. } => prev_lookup(env, store, field.as_str(), ctx),
        Expr::ClusterAccess { node_id, field, .. } => cluster_lookup(env, node_id.as_str(), field.as_str()),
        Expr::Migrate { workloads, target, .. } => {
            let w = match eval_expr(env, store, workloads, ctx, num) {
                Ok(v) => v,
                Err(e) => {
                    return Err(e);
                },
            };
            let t = match eval_expr(env, store, target, ctx, num) {
                Ok(v) => v,
                Err(e) => {
                    return Err(e);
                },
            };
            if !matches!(t, Value::Text(_)) || !(matches!(w, Value::Text(_)) || matches!(w, Value::List(_))) {
                Err(RuntimeError::R002)
            } else {
                Ok(Value::Bool(true))
            }
        },
        Expr::Evacuate { entities, .. } => {
            let w = match eval_expr(env, store, entities, ctx, num) {
                Ok(v) => v,
                Err(e) => {
                    return Err(e);
                },
            };
            if !(matches!(w, Value::Text(_)) || matches!(w, Value::List(_))) {
                Err(RuntimeError::R002)
            } else {
                Ok(Value::Bool(true))
            }
        },
        Expr::Deploy { spec, .. } => match eval_expr(env, store, spec, ctx, num) {
            Ok(_) => Ok(Value::Bool(true)),
            Err(e) => Err(e),
        },
    }
}

/// The values of expressions, in order.
#[verifier::loop_isolation(false)]
fn eval_list<F: Fn(NumOp, u64, u64) -> NumOut>(
    env: &EvalEnv,
    store: &EntityStore,
    es: &Vec<Expr>,
    ctx: Option<&str>,
    num: &F,
) -> (r: Result<Vec<Value>, RuntimeError>)
    requires
        env.wf(),
        store.wf(),
        num_deterministic(*num),
    ensures
        match r {
            Ok(v) => spec_list(*env, store.instances@, es@, ctx_view(ctx), nf(*num)) == Ok::<Seq<ValueView>, EvalErr>(list_view(v@)),
            Err(e) => spec_list(*env, store.instances@, es@, ctx_view(ctx), nf(*num)) == Err::<Seq<ValueView>, EvalErr>(err_v(e)),
        },
    decreases es, 1nat,
{
    let ghost f = nf(*num);
    let ghost sv = store.instances@;
    let ghost c = ctx_view(ctx);
    let mut out: Vec<Value> = Vec::new();
    let n = es.len();
    let mut i: usize = 0;
    while i < n
        invariant
            n == es@.len(),
            i <= n,
            spec_list(*env, sv, es@.take(i as int), c, f) == Ok::<Seq<ValueView>, EvalErr>(list_view(out@)),
        decreases n - i,
    {
        assert(es@.take(i + 1).drop_last() =~= es@.take(i as int));
        assert(es@.take(i + 1).last() == es@[i as int]);
        assert(decreases_to!(es => es@[i as int]));
        match eval_expr(env, store, &es[i], ctx, num) {
            Ok(v) => {
                proof {
                    lemma_list_view_push(out@, v);
                }
                out.push(v);
            },
            Err(e) => {
                proof {
                    lemma_list_stops(*env, sv, es@, i + 1, c, f);
                }
                return Err(e);
            },
        }
        i += 1;
    }
    assert(es@.take(n as int) =~= es@);
    Ok(out)
}

/// The text of an interpolated string.
#[verifier::loop_isolation(false)]
fn eval_segments<F: Fn(NumOp, u64, u64) -> NumOut>(
    env: &EvalEnv,
    store: &EntityStore,
    segs: &Vec<StringSegment>,
    ctx: Option<&str>,
    num: &F,
) -> (r: Result<String, RuntimeError>)
    requires
        env.wf(),
        store.wf(),
        num_deterministic(*num),
    ensures
        match r {
            Ok(t) => spec_segments(*env, store.instances@, segs@, ctx_view(ctx), nf(*num)) == Ok::<Seq<char>, EvalErr>(t@),
            Err(e) => spec_segments(*env, store.instances@, segs@, ctx_view(ctx), nf(*num)) == Err::<Seq<char>, EvalErr>(err_v(e)),
        },
    decreases segs, 1nat,
{
    let ghost f = nf(*num);
    let ghost sv = store.instances@;
    let ghost c = ctx_view(ctx);
    let mut out = String::new();
    let n = segs.len();
    let mut i: usize = 0;
    while i < n
        invariant
            n == segs@.len(),
            i <= n,
            spec_segments(*env, sv, segs@.take(i as int), c, f) == Ok::<Seq<char>, EvalErr>(out@),
        decreases n - i,
    {
        assert(segs@.take(i + 1).drop_last() =~= segs@.take(i as int));
        assert(segs@.take(i + 1).last() == segs@[i as int]);
        match &segs[i] {
            StringSegment::Literal(t) => {
                out.append(t.as_str());
            },
            StringSegment::Expr(e) => {
                assert(decreases_to!(segs => segs@[i as int]));
                match eval_expr(env, store, e, ctx, num) {
                    Ok(v) => {
                        let t = show_value(&v, num);
                        out.append(t.as_str());
                    },
                    Err(x) => {
                        proof {
                            lemma_segments_stop(*env, sv, segs@, i + 1, c, f);
                        }
                        return Err(x);
                    },
                }
            },
        }
        i += 1;
    }
    assert(segs@.take(n as int) =~= segs@);
    Ok(out)
}

/// A call of a built-in function or of a function of the program.
fn eval_call<F: Fn(NumOp, u64, u64) -> NumOut>(
    env: &EvalEnv,
    store: &EntityStore,
    name: &String,
    args: &Vec<Expr>,
    ctx: Option<&str>,
    num: &F,
) -> (r: Result<Value, RuntimeError>)
    requires
        env.wf(),
        store.wf(),
        num_deterministic(*num),
    ensures
        res_v(r) == spec_call(*env, store.instances@, name@, args@, ctx_view(ctx), nf(*num)),
    decreases args, 2nat,
{
    proof {
        reveal_strlit("now");
        reveal_strlit("len");
        reveal_strlit("min");
        reveal_strlit("max");
        reveal_strlit("sum");
        reveal_strlit("append");
        reveal_strlit("head");
        reveal_strlit("tail");
        reveal_strlit("at");
        reveal_strlit("env");
    }
    let nm = name.as_str();
    if str_eq(nm, "now") {
        return Ok(Value::Timestamp(env.now));
    }
    let is_builtin = str_eq(nm, "len") || str_eq(nm, "min") || str_eq(nm, "max") || str_eq(nm, "sum")
        || str_eq(nm, "append") || str_eq(nm, "head") || str_eq(nm, "tail") || str_eq(nm, "at")
        || str_eq(nm, "env");
    if is_builtin {
        let two = str_eq(nm, "append") || str_eq(nm, "at");
        if args.len() == 0 || (two && args.len() < 2) {
            return Err(RuntimeError::R002);
        }
        if str_eq(nm, "env") {
            return match eval_expr(env, store, &args[0], ctx, num) {
                Err(e) => Err(e),
                Ok(Value::Text(var)) => {
                    let val = match env.os_env.get(var.as_str()) {
                        Some(v) => v.clone(),
                        None => String::new(),
                    };
                    Ok(Value::Secret(val))
                },
                Ok(_) => Err(RuntimeError::R002),
            };
        }
        let l = match into_list(eval_expr(env, store, &args[0], ctx, num)) {
            Ok(l) => l,
            Err(e) => {
                return Err(e);
            },
        };
        proof {
            lemma_list_view(l@);
        }
        if str_eq(nm, "len") {
            return Ok(Value::Number(bits_of(num, NumOp::FromCount, l.len() as u64, 0)));
        }
        if str_eq(nm, "append") {
            return match eval_expr(env, store, &args[1], ctx, num) {
                Err(e) => Err(e),
                Ok(v) => {
                    let mut l = l;
                    proof {
                        lemma_list_view_push(l@, v);
                    }
                    l.push(v);
                    Ok(Value::List(l))
                },
            };
        }
        if str_eq(nm, "at") {
            let idx = eval_expr(env, store, &args[1], ctx, num);
            return item_of(&l, idx, num);
        }
        if str_eq(nm, "head") || str_eq(nm, "tail") {
            if l.len() == 0 {
                return Err(RuntimeError::R004 { index: 0, len: 0 });
            }
            if str_eq(nm, "head") {
                return Ok(copy_value(&l[0]));
            }
            return Ok(Value::List(tail_of(&l)));
        }
        let ns = match numbers_of(&l) {
            Ok(ns) => ns,
            Err(e) => {
                return Err(e);
            },
        };
        if str_eq(nm, "sum") {
            let zero = bits_of(num, NumOp::Zero, 0, 0);
            return Ok(Value::Number(fold_numbers(NumOp::Add, zero, &ns, num)));
        }
        if ns.len() == 0 {
            return Err(RuntimeError::R004 { index: 0, len: 0 });
        }
        if str_eq(nm, "min") {
            return Ok(Value::Number(fold_numbers(NumOp::Min, INFINITY_BITS, &ns, num)));
        }
        return Ok(Value::Number(fold_numbers(NumOp::Max, NEG_INFINITY_BITS, &ns, num)));
    }
    let decl = match env.functions.get(nm) {
        Some(d) => d,
        None => {
            return Err(RuntimeError::R002);
        },
    };
    let vals = match eval_list(env, store, args, ctx, num) {
        Ok(v) => v,
        Err(e) => {
            return Err(e);
        },
    };
    let locals = bind_params(&decl.params, &vals);
    eval_local(&decl.body, &locals, num)
}

/// The value of a function's body with its parameters bound in `locals`.
fn eval_local<F: Fn(NumOp, u64, u64) -> NumOut>(e: &Expr, locals: &StrMap<Value>, num: &F) -> (r: Result<Value, RuntimeError>)
    requires
        locals.wf(),
        num_deterministic(*num),
    ensures
        res_v(r) == spec_local(*e, vmap(locals@), nf(*num)),
    decreases e, 0nat,
{
    match e {
        Expr::Ident(name) => match locals.get(name.as_str()) {
            Some(v) => Ok(copy_value(v)),
            None => Err(RuntimeError::R005 { instance: name.clone(), field: name.clone() }),
        },
        Expr::Number(n) => Ok(Value::Number(*n)),
        Expr::Text(t) => Ok(Value::Text(t.clone())),
        Expr::Bool(b) => Ok(Value::Bool(*b)),
        Expr::Binary { op, left, right, .. } => {
            let l = match eval_local(left, locals, num) {
                Ok(v) => v,
                Err(x) => {
                    return Err(x);
                },
            };
            if *op == BinOp::And && matches!(l, Value::Bool(false)) {
                return Ok(Value::Bool(false));
            }
            if *op == BinOp::Or && matches!(l, Value::Bool(true)) {
                return Ok(Value::Bool(true));
            }
            let r = match eval_local(right, locals, num) {
                Ok(v) => v,
                Err(x) => {
                    return Err(x);
                },
            };
            if *op == BinOp::And || *op == BinOp::Or {
                Ok(Value::Bool(matches!(r, Value::Bool(true))))
            } else {
                apply_binop(*op, &l, &r, num)
            }
        },
        Expr::If { cond, then_, else_, .. } => {
            let c = match eval_local(cond, locals, num) {
                Ok(v) => v,
                Err(x) => {
                    return Err(x);
                },
            };
            if matches!(c, Value::Bool(true)) {
                eval_local(then_, locals, num)
            } else {
                eval_local(else_, locals, num)
            }
        },
        Expr::InterpolatedString(segs) => match local_segments_exec(segs, locals, num) {
            Ok(t) => Ok(Value::Text(t)),
            Err(x) => Err(x),
        },
        Expr::ListLiteral(es) => match local_list_exec(es, locals, num) {
            Ok(vs) => Ok(Value::List(vs)),
            Err(x) => Err(x),
        },
        Expr::Index { list, index, .. } => match eval_local(list, locals, num) {
            Err(x) => Err(x),
            Ok(Value::List(l)) => {
                let idx = eval_local(index, locals, num);
                item_of(&l, idx, num)
            },
            Ok(_) => Err(RuntimeError::R002),
        },
        _ => Err(RuntimeError::R002),
    }
}

#[verifier::loop_isolation(false)]
fn local_list_exec<F: Fn(NumOp, u64, u64) -> NumOut>(es: &Vec<Expr>, locals: &StrMap<Value>, num: &F) -> (r: Result<Vec<Value>, RuntimeError>)
    requires
        locals.wf(),
        num_deterministic(*num),
    ensures
        match r {
            Ok(v) => local_list(es@, vmap(locals@), nf(*num)) == Ok::<Seq<ValueView>, EvalErr>(list_view(v@)),
            Err(e) => local_list(es@, vmap(locals@), nf(*num)) == Err::<Seq<ValueView>, EvalErr>(err_v(e)),
        },
    decreases es, 1nat,
{
    let ghost f = nf(*num);
    let ghost lm = vmap(locals@);
    let mut out: Vec<Value> = Vec::new();
    let n = es.len();
    let mut i: usize = 0;
    while i < n
        invariant
            n == es@.len(),
            i <= n,
            local_list(es@.take(i as int), lm, f) == Ok::<Seq<ValueView>, EvalErr>(list_view(out@)),
        decreases n - i,
    {
        assert(es@.take(i + 1).drop_last() =~= es@.take(i as int));
        assert(es@.take(i + 1).last() == es@[i as int]);
        assert(decreases_to!(es => es@[i as int]));
        match eval_local(&es[i], locals, num) {
            Ok(v) => {
                proof {
                    lemma_list_view_push(out@, v);
                }
                out.push(v);
            },
            Err(x) => {
                proof {
                    lemma_local_list_stops(es@, i + 1, lm, f);
                }
                return Err(x);
            },
        }
        i += 1;
    }
    assert(es@.take(n as int) =~= es@);
    Ok(out)
}

#[verifier::loop_isolation(false)]
fn local_segments_exec<F: Fn(NumOp, u64, u64) -> NumOut>(segs: &Vec<StringSegment>, locals: &StrMap<Value>, num: &F) -> (r: Result<String, RuntimeError>)
    requires
        locals.wf(),
        num_deterministic(*num),
    ensures
        match r {
            Ok(t) => local_segments(segs@, vmap(locals@), nf(*num)) == Ok::<Seq<char>, EvalErr>(t@),
            Err(e) => local_segments(segs@, vmap(locals@), nf(*num)) == Err::<Seq<char>, EvalErr>(err_v(e)),
        },
    decreases segs, 1nat,
{
    let ghost f = nf(*num);
    let ghost lm = vmap(locals@);
    let mut out = String::new();
    let n = segs.len();
    let mut i: usize = 0;
    while i < n
        invariant
            n == segs@.len(),
            i <= n,
            local_segments(segs@.take(i as int), lm, f) == Ok::<Seq<char>, EvalErr>(out@),
        decreases n - i,
    {
        assert(segs@.take(i + 1).drop_last() =~= segs@.take(i as int));
        assert(segs@.take(i + 1).last() == segs@[i as int]);
        match &segs[i] {
            StringSegment::Literal(t) => {
                out.append(t.as_str());
            },
            StringSegment::Expr(e) => {
                assert(decreases_to!(segs => segs@[i as int]));
                match eval_local(e, locals, num) {
                    Ok(v) => {
                        let t = show_value(&v, num);
                        out.append(t.as_str());
                    },
                    Err(x) => {
                        proof {
                            lemma_local_segments_stop(segs@, i + 1, lm, f);
                        }
                        return Err(x);
                    },
                }
            },
        }
        i += 1;
    }
    assert(segs@.take(n as int) =~= segs@);
    Ok(out)
}


/// On numbers, each arithmetic operator gives what the number work gives
/// for it, each comparison gives the number work's flag for that same
/// comparison (`<` is "less than", never another), `==` and `!=` are
/// opposite; a division or remainder the number work reports as by zero is
/// R002.
pub proof fn law_number_operators(a: u64, b: u64, f: spec_fn(NumOp, u64, u64) -> NumOutView)
    ensures
        binop(BinOp::Add, ValueView::Number(a), ValueView::Number(b), f) == Ok::<ValueView, EvalErr>(ValueView::Number(out_bits(f(NumOp::Add, a, b)))),
        binop(BinOp::Sub, ValueView::Number(a), ValueView::Number(b), f) == Ok::<ValueView, EvalErr>(ValueView::Number(out_bits(f(NumOp::Sub, a, b)))),
        binop(BinOp::Mul, ValueView::Number(a), ValueView::Number(b), f) == Ok::<ValueView, EvalErr>(ValueView::Number(out_bits(f(NumOp::Mul, a, b)))),
        !(f(NumOp::Div, a, b) is DivZero) ==> binop(BinOp::Div, ValueView::Number(a), ValueView::Number(b), f)
            == Ok::<ValueView, EvalErr>(ValueView::Number(out_bits(f(NumOp::Div, a, b)))),
        f(NumOp::Div, a, b) is DivZero ==> binop(BinOp::Div, ValueView::Number(a), ValueView::Number(b), f) == Err::<ValueView, EvalErr>(EvalErr::R002),
        !(f(NumOp::Mod, a, b) is DivZero) ==> binop(BinOp::Mod, ValueView::Number(a), ValueView::Number(b), f)
            == Ok::<ValueView, EvalErr>(ValueView::Number(out_bits(f(NumOp::Mod, a, b)))),
        f(NumOp::Mod, a, b) is DivZero ==> binop(BinOp::Mod, ValueView::Number(a), ValueView::Number(b), f) == Err::<ValueView, EvalErr>(EvalErr::R002),
        binop(BinOp::Lt, ValueView::Number(a), ValueView::Number(b), f) == Ok::<ValueView, EvalErr>(ValueView::Bool(out_flag(f(NumOp::Lt, a, b)))),
        binop(BinOp::Gt, ValueView::Number(a), ValueView::Number(b), f) == Ok::<ValueView, EvalErr>(ValueView::Bool(out_flag(f(NumOp::Gt, a, b)))),
        binop(BinOp::Le, ValueView::Number(a), ValueView::Number(b), f) == Ok::<ValueView, EvalErr>(ValueView::Bool(out_flag(f(NumOp::Le, a, b)))),
        binop(BinOp::Ge, ValueView::Number(a), ValueView::Number(b), f) == Ok::<ValueView, EvalErr>(ValueView::Bool(out_flag(f(NumOp::Ge, a, b)))),
        binop(BinOp::Lt, ValueView::Duration(a), ValueView::Duration(b), f) == Ok::<ValueView, EvalErr>(ValueView::Bool(out_flag(f(NumOp::Lt, a, b)))),
        binop(BinOp::Gt, ValueView::Duration(a), ValueView::Duration(b), f) == Ok::<ValueView, EvalErr>(ValueView::Bool(out_flag(f(NumOp::Gt, a, b)))),
        binop(BinOp::Le, ValueView::Duration(a), ValueView::Duration(b), f) == Ok::<ValueView, EvalErr>(ValueView::Bool(out_flag(f(NumOp::Le, a, b)))),
        binop(BinOp::Ge, ValueView::Duration(a), ValueView::Duration(b), f) == Ok::<ValueView, EvalErr>(ValueView::Bool(out_flag(f(NumOp::Ge, a, b)))),
        binop(BinOp::Eq, ValueView::Number(a), ValueView::Number(b), f) == Ok::<ValueView, EvalErr>(ValueView::Bool(out_flag(f(NumOp::Eq, a, b)))),
        binop(BinOp::Ne, ValueView::Number(a), ValueView::Number(b), f) == Ok::<ValueView, EvalErr>(ValueView::Bool(!out_flag(f(NumOp::Eq, a, b)))),
{
}

/// `==` and `!=` on any two values are opposite; texts join with `+`; an
/// arithmetic operator or a comparison on a text and a number is R018 with
/// the operator's symbol and the two kinds.
pub proof fn law_other_operators(l: ValueView, r: ValueView, s: Seq<char>, t: Seq<char>, n: u64, f: spec_fn(NumOp, u64, u64) -> NumOutView)
    ensures
        binop(BinOp::Eq, l, r, f) == Ok::<ValueView, EvalErr>(ValueView::Bool(value_eq(l, r, f))),
        binop(BinOp::Ne, l, r, f) == Ok::<ValueView, EvalErr>(ValueView::Bool(!value_eq(l, r, f))),
        binop(BinOp::Add, ValueView::Text(s), ValueView::Text(t), f) == Ok::<ValueView, EvalErr>(ValueView::Text(s + t)),
        binop(BinOp::Add, ValueView::Number(n), ValueView::Text(t), f) == Err::<ValueView, EvalErr>(EvalErr::R018("+"@, "Number"@, "Text"@)),
        binop(BinOp::Lt, ValueView::Number(n), ValueView::Text(t), f) == Err::<ValueView, EvalErr>(EvalErr::R018("<"@, "Number"@, "Text"@)),
        binop(BinOp::Gt, ValueView::Text(t), ValueView::Number(n), f) == Err::<ValueView, EvalErr>(EvalErr::R018(">"@, "Text"@, "Number"@)),
{
}

/// A binary operator other than `and` and `or` evaluates its left operand,
/// then its right one, and applies the operator to the two values in that
/// order; the first failure is the result.
pub proof fn law_binary_evaluates_operands(
    env: EvalEnv,
    store: Map<Seq<char>, Instance>,
    op: BinOp,
    left: Expr,
    right: Expr,
    span: crate::ast::Span,
    ctx: Option<Seq<char>>,
    f: spec_fn(NumOp, u64, u64) -> NumOutView,
)
    requires
        op != BinOp::And,
        op != BinOp::Or,
    ensures
        spec_eval(env, store, Expr::Binary { op, left: Box::new(left), right: Box::new(right), span }, ctx, f)
            == match (spec_eval(env, store, left, ctx, f), spec_eval(env, store, right, ctx, f)) {
            (Err(x), _) => Err(x),
            (Ok(_), Err(x)) => Err(x),
            (Ok(l), Ok(r)) => binop(op, l, r, f),
        },
{
}


/// `and` is false as soon as its left side is false, without evaluating
/// the right side; `or` is true as soon as its left side is true; `if`
/// takes its `then` branch exactly when the condition is `true`.
pub proof fn law_short_circuit_and_if(
    env: EvalEnv,
    store: Map<Seq<char>, Instance>,
    a: Expr,
    b: Expr,
    c: Expr,
    span: crate::ast::Span,
    ctx: Option<Seq<char>>,
    f: spec_fn(NumOp, u64, u64) -> NumOutView,
)
    ensures
        spec_eval(env, store, a, ctx, f) == Ok::<ValueView, EvalErr>(ValueView::Bool(false)) ==> spec_eval(
            env,
            store,
            Expr::Binary { op: BinOp::And, left: Box::new(a), right: Box::new(b), span },
            ctx,
            f,
        ) == Ok::<ValueView, EvalErr>(ValueView::Bool(false)),
        spec_eval(env, store, a, ctx, f) == Ok::<ValueView, EvalErr>(ValueView::Bool(true)) ==> spec_eval(
            env,
            store,
            Expr::Binary { op: BinOp::Or, left: Box::new(a), right: Box::new(b), span },
            ctx,
            f,
        ) == Ok::<ValueView, EvalErr>(ValueView::Bool(true)),
        spec_eval(env, store, a, ctx, f) == Ok::<ValueView, EvalErr>(ValueView::Bool(true)) ==> spec_eval(
            env,
            store,
            Expr::Binary { op: BinOp::And, left: Box::new(a), right: Box::new(b), span },
            ctx,
            f,
        ) == match spec_eval(env, store, b, ctx, f) {
            Err(x) => Err(x),
            Ok(v) => Ok(ValueView::Bool(v == ValueView::Bool(true))),
        },
        spec_eval(env, store, a, ctx, f) == Ok::<ValueView, EvalErr>(ValueView::Bool(true)) ==> spec_eval(
            env,
            store,
            Expr::If { cond: Box::new(a), then_: Box::new(b), else_: Box::new(c), span },
            ctx,
            f,
        ) == spec_eval(env, store, b, ctx, f),
        (spec_eval(env, store, a, ctx, f) is Ok && spec_eval(env, store, a, ctx, f) != Ok::<ValueView, EvalErr>(
            ValueView::Bool(true),
        )) ==> spec_eval(
            env,
            store,
            Expr::If { cond: Box::new(a), then_: Box::new(b), else_: Box::new(c), span },
            ctx,
            f,
        ) == spec_eval(env, store, c, ctx, f),
{
}

} // verus!
