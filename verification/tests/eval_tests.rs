use lumina::analyzer::infer::Analyzer;
use lumina::analyzer::types::Schema;
use lumina::assoc::StrMap;
use lumina::ast::{
    Action, BinOp, Condition, DerivedField, EntityDecl, Expr, FieldMetadata, FieldPath, FnDecl, FnParam,
    LetStmt, LetValue, LuminaType, Program, RuleDecl, RuleTrigger, Span, Statement, StoredField,
    StringSegment, UnOp,
};
use lumina::runtime::aggregate::AggregateStore;
use lumina::runtime::error::RuntimeError;
use lumina::runtime::eval::{eval_expr, show_value, EvalEnv, NumOp, NumOut};
use lumina::runtime::rules::RuleGate;
use lumina::runtime::store::{EntityStore, Instance};
use lumina::ast::AlertAction;
use lumina::runtime::update::{apply_update, exec_action, exec_statement, propagate_derived, Declarations, Runtime};
use lumina::runtime::value::Value;

fn num_work(o: NumOp, a: u64, b: u64) -> NumOut {
    let (x, y) = (f64::from_bits(a), f64::from_bits(b));
    let bits = |v: f64| NumOut::Bits(v.to_bits());
    match o {
        NumOp::Add => bits(x + y),
        NumOp::Sub => bits(x - y),
        NumOp::Mul => bits(x * y),
        NumOp::Div if y == 0.0 => NumOut::DivZero,
        NumOp::Div => bits(x / y),
        NumOp::Mod if y == 0.0 => NumOut::DivZero,
        NumOp::Mod => bits(x % y),
        NumOp::Neg => bits(-x),
        NumOp::Gt => NumOut::Flag(x > y),
        NumOp::Lt => NumOut::Flag(x < y),
        NumOp::Ge => NumOut::Flag(x >= y),
        NumOp::Le => NumOut::Flag(x <= y),
        NumOp::Eq => NumOut::Flag(x == y),
        NumOp::Min => bits(x.min(y)),
        NumOp::Max => bits(x.max(y)),
        NumOp::Zero => bits(0.0),
        NumOp::FromCount => bits(a as f64),
        NumOp::ToIndex => NumOut::Index(x as usize),
        NumOp::Seconds => bits(x * [1.0, 60.0, 3600.0, 86400.0][b as usize]),
        NumOp::NumberText => NumOut::Text(if x.fract() == 0.0 { format!("{}", x as i64) } else { format!("{}", x) }),
        NumOp::PlainText => NumOut::Text(format!("{}", x)),
        NumOp::DurationText => NumOut::Text(format!("{}s", x)),
    }
}

fn sp() -> Span {
    Span { start: 0, end: 0, line: 0, col: 0 }
}

fn n(x: f64) -> Value {
    Value::Number(x.to_bits())
}

fn num_lit(x: f64) -> Expr {
    Expr::Number(x.to_bits())
}

fn ident(s: &str) -> Expr {
    Expr::Ident(s.to_string())
}

fn bin(op: BinOp, l: Expr, r: Expr) -> Expr {
    Expr::Binary { op, left: Box::new(l), right: Box::new(r), span: sp() }
}

fn access(obj: &str, field: &str) -> Expr {
    Expr::FieldAccess { obj: Box::new(ident(obj)), field: field.to_string(), span: sp() }
}

fn call(name: &str, args: Vec<Expr>) -> Expr {
    Expr::Call { name: name.to_string(), args, span: sp() }
}

fn meta() -> FieldMetadata {
    FieldMetadata { doc: None, range: None, affects: Vec::new() }
}

fn stored(name: &str, ty: LuminaType) -> lumina::ast::Field {
    lumina::ast::Field::Stored(StoredField { name: name.to_string(), ty, metadata: meta(), span: sp() })
}

fn derived(name: &str, expr: Expr) -> lumina::ast::Field {
    lumina::ast::Field::Derived(DerivedField { name: name.to_string(), expr, metadata: meta(), span: sp() })
}

fn entity(name: &str, fields: Vec<lumina::ast::Field>) -> Statement {
    Statement::Entity(EntityDecl { name: name.to_string(), fields, span: sp() })
}

fn env_with(schema: Schema) -> EvalEnv {
    EvalEnv {
        schema,
        env: StrMap::new(),
        aggregates: AggregateStore::new(),
        instances: StrMap::new(),
        functions: StrMap::new(),
        cluster_state: StrMap::new(),
        prev_store: None,
        param_alias: None,
        os_env: StrMap::new(),
        now: 0,
    }
}

fn empty_env() -> EvalEnv {
    env_with(Schema { entities: StrMap::new() })
}

fn eval(env: &EvalEnv, e: &Expr) -> Result<Value, RuntimeError> {
    eval_expr(env, &EntityStore::new(), e, None, &num_work)
}

/// A runtime for the given statements, with the derived fields (in the
/// order given) and rules, and no instances yet.
fn build(statements: Vec<Statement>, derived_fields: Vec<(&str, &str, Expr)>, rules: Vec<RuleDecl>) -> (Runtime, Declarations) {
    let analyzed = Analyzer::new().analyze(Program { statements, span: sp() }).ok().unwrap();
    let mut env = env_with(analyzed.schema);
    env.functions = analyzed.fn_defs;
    let gates = rules
        .iter()
        .map(|_| RuleGate { for_duration: false, cooldown: None, frequency: None, on_clear: false })
        .collect();
    let mut d = Vec::new();
    let mut exprs = Vec::new();
    for (e, f, x) in derived_fields {
        d.push((e.to_string(), f.to_string()));
        exprs.push(x);
    }
    let rt = Runtime {
        env,
        store: EntityStore::new(),
        reverse_refs: StrMap::new(),
        rule_states: StrMap::new(),
        fired_this_cycle: Vec::new(),
        dirty: Vec::new(),
        depth: 0,
        clock_ms: 0,
        initializing: false,
        output: Vec::new(),
        timer_starts: Vec::new(),
        timer_cancels: Vec::new(),
        adapter_entities: Vec::new(),
        writes: Vec::new(),
    };
    (rt, Declarations { derived: d, derived_exprs: exprs, ref_fields: Vec::new(), rules, gates })
}

fn insert_instance(rt: &mut Runtime, name: &str, ent: &str, fields: Vec<(&str, Value)>) {
    let es = rt.env.schema.get_entity(ent).unwrap();
    let mut inst = Instance::new(ent.to_string(), es.field_names.len());
    for (f, v) in fields {
        let idx = *es.field_indices.get(f).unwrap();
        inst.set(idx, v);
    }
    rt.store.insert(name.to_string(), inst);
    rt.env.instances.insert(name.to_string(), ent.to_string());
}

fn field_of(rt: &Runtime, inst: &str, field: &str) -> Value {
    let i = rt.store.get(inst).unwrap();
    let idx = *rt.env.schema.get_entity(&i.entity_name).unwrap().field_indices.get(field).unwrap();
    i.get(idx).unwrap().clone()
}

fn becomes_rule(name: &str, cond: Expr, target: Expr, actions: Vec<Action>) -> RuleDecl {
    RuleDecl {
        name: name.to_string(),
        param: None,
        trigger: RuleTrigger::When(vec![Condition {
            expr: cond,
            becomes: Some(target),
            for_duration: None,
            frequency: None,
        }]),
        actions,
        cooldown: None,
        on_clear: None,
        span: sp(),
    }
}

#[test]
fn test_arithmetic() {
    let env = empty_env();
    let e = bin(BinOp::Mul, bin(BinOp::Add, num_lit(2.0), num_lit(3.0)), num_lit(4.0));
    assert_eq!(eval(&env, &e).ok().unwrap(), n(20.0));
}

#[test]
fn test_if_then_else() {
    let env = empty_env();
    let e = Expr::If {
        cond: Box::new(Expr::Bool(true)),
        then_: Box::new(num_lit(1.0)),
        else_: Box::new(num_lit(2.0)),
        span: sp(),
    };
    assert_eq!(eval(&env, &e).ok().unwrap(), n(1.0));
}

#[test]
fn test_interpolation() {
    let mut env = empty_env();
    env.env.insert("name".to_string(), Value::Text("Isaac".to_string()));
    env.env.insert("age".to_string(), n(26.0));
    let e = Expr::InterpolatedString(vec![
        StringSegment::Literal("Hello ".to_string()),
        StringSegment::Expr(Box::new(ident("name"))),
        StringSegment::Literal(", you are ".to_string()),
        StringSegment::Expr(Box::new(ident("age"))),
        StringSegment::Literal(" years old".to_string()),
    ]);
    assert_eq!(eval(&env, &e).ok().unwrap(), Value::Text("Hello Isaac, you are 26 years old".to_string()));
}

#[test]
fn test_strict_math_error() {
    let e = bin(BinOp::Add, num_lit(10.0), Expr::Text("fail".to_string()));
    match eval(&empty_env(), &e) {
        Err(RuntimeError::R018 { op, left, right }) => {
            assert_eq!(op, "+");
            assert_eq!(left, "Number");
            assert_eq!(right, "Text");
        }
        _ => panic!("Expected R018"),
    }
}

#[test]
fn test_strict_unary_error() {
    let e = Expr::Unary { op: UnOp::Not, operand: Box::new(num_lit(10.0)), span: sp() };
    match eval(&empty_env(), &e) {
        Err(RuntimeError::R018 { op, left, right }) => {
            assert_eq!(op, "not");
            assert_eq!(left, "Number");
            assert_eq!(right, "N/A");
        }
        _ => panic!("Expected R018"),
    }
}

#[test]
fn test_strict_list_error() {
    let e = call("len", vec![num_lit(42.0)]);
    match eval(&empty_env(), &e) {
        Err(RuntimeError::R018 { op, left, right }) => {
            assert_eq!(op, "list expected");
            assert_eq!(left, "Number");
            assert_eq!(right, "List");
        }
        _ => panic!("Expected R018"),
    }
}

#[test]
fn test_function_evaluation() {
    let double = FnDecl {
        name: "double".to_string(),
        params: vec![FnParam { name: "x".to_string(), type_: LuminaType::Number, span: sp() }],
        returns: LuminaType::Number,
        body: bin(BinOp::Mul, ident("x"), num_lit(2.0)),
        span: sp(),
    };
    let res = call("double", vec![ident("val")]);
    let (mut rt, decl) = build(
        vec![
            Statement::Fn(double),
            entity("Math", vec![stored("val", LuminaType::Number), derived("res", call("double", vec![ident("val")]))]),
        ],
        vec![("Math", "res", res)],
        vec![],
    );
    insert_instance(&mut rt, "m1", "Math", vec![("val", n(10.0))]);
    assert!(propagate_derived(&mut rt, &decl, "m1", "Math", &num_work).is_ok());
    assert_eq!(field_of(&rt, "m1", "res"), n(20.0));
}

#[test]
fn test_derived_recomputes() {
    let adult = bin(BinOp::Ge, ident("age"), num_lit(18.0));
    let (mut rt, decl) = build(
        vec![entity("Person", vec![stored("age", LuminaType::Number), derived("isAdult", bin(BinOp::Ge, ident("age"), num_lit(18.0)))])],
        vec![("Person", "isAdult", adult)],
        vec![],
    );
    insert_instance(&mut rt, "p1", "Person", vec![("age", n(17.0)), ("isAdult", Value::Bool(false))]);
    assert!(apply_update(&mut rt, &decl, "p1", "age", n(18.0), &num_work).is_ok());
    assert_eq!(field_of(&rt, "p1", "isAdult"), Value::Bool(true));
}

fn switch_runtime(initial: bool) -> (Runtime, Declarations) {
    let rule = becomes_rule(
        "activate",
        access("S", "active"),
        Expr::Bool(true),
        vec![Action::Show(Expr::Text("fired".to_string()))],
    );
    let (mut rt, decl) = build(vec![entity("S", vec![stored("active", LuminaType::Boolean)])], vec![], vec![rule]);
    insert_instance(&mut rt, "S", "S", vec![("active", Value::Bool(initial))]);
    (rt, decl)
}

#[test]
fn test_rule_fires_on_becomes() {
    let (mut rt, decl) = switch_runtime(false);
    let events = apply_update(&mut rt, &decl, "S", "active", Value::Bool(true), &num_work).ok().unwrap();
    assert!(events.iter().any(|e| e.rule == "activate"));
    assert_eq!(rt.output, vec!["fired".to_string()]);
}

#[test]
fn test_rule_does_not_fire_without_transition() {
    let (mut rt, decl) = switch_runtime(true);
    rt.store.commit_all();
    let events = apply_update(&mut rt, &decl, "S", "active", Value::Bool(true), &num_work).ok().unwrap();
    assert!(events.iter().all(|e| e.rule != "activate"));
}

#[test]
fn test_rollback_on_div_zero() {
    let ratio = bin(BinOp::Div, ident("x"), ident("y"));
    let (mut rt, decl) = build(
        vec![entity(
            "A",
            vec![stored("x", LuminaType::Number), stored("y", LuminaType::Number), derived("ratio", bin(BinOp::Div, ident("x"), ident("y")))],
        )],
        vec![("A", "ratio", ratio)],
        vec![],
    );
    insert_instance(&mut rt, "a1", "A", vec![("x", n(10.0)), ("y", n(2.0)), ("ratio", n(5.0))]);
    let result = apply_update(&mut rt, &decl, "a1", "y", n(0.0), &num_work);
    assert!(result.is_err());
    assert_eq!(field_of(&rt, "a1", "y"), n(2.0));
}

#[test]
fn test_prev_value_access() {
    let drop = bin(BinOp::Sub, Expr::Prev { field: "level".to_string(), span: sp() }, ident("level"));
    let (mut rt, decl) = build(
        vec![entity(
            "Battery",
            vec![
                stored("level", LuminaType::Number),
                derived("drop", bin(BinOp::Sub, Expr::Prev { field: "level".to_string(), span: sp() }, ident("level"))),
            ],
        )],
        vec![("Battery", "drop", drop)],
        vec![],
    );
    insert_instance(&mut rt, "batt1", "Battery", vec![("level", n(100.0)), ("drop", n(0.0))]);
    rt.store.commit_all();
    assert!(apply_update(&mut rt, &decl, "batt1", "level", n(90.0), &num_work).is_ok());
    assert_eq!(field_of(&rt, "batt1", "drop"), n(10.0));
}

#[test]
fn test_cascading_cleanup_issue_6() {
    let deleted = || bin(BinOp::Eq, access("Resource", "status"), Expr::Text("deleted".to_string()));
    let cleanup = becomes_rule("cleanup", deleted(), Expr::Bool(true), vec![Action::Delete("Resource".to_string())]);
    let log = becomes_rule(
        "log_deleted",
        deleted(),
        Expr::Bool(true),
        vec![Action::Update {
            target: FieldPath { instance: "Resource".to_string(), field: "status".to_string(), sub_field: None, span: sp() },
            value: Expr::Text("forgotten".to_string()),
        }],
    );
    let (mut rt, decl) = build(vec![entity("Resource", vec![stored("status", LuminaType::Text)])], vec![], vec![cleanup, log]);
    insert_instance(&mut rt, "res1", "Resource", vec![("status", Value::Text("active".to_string()))]);
    let res = apply_update(&mut rt, &decl, "res1", "status", Value::Text("deleted".to_string()), &num_work);
    assert!(res.is_ok());
    assert!(rt.store.get("res1").is_none());
}

#[test]
fn list_builtins_and_their_errors() {
    let env = empty_env();
    let list = || Expr::ListLiteral(vec![num_lit(3.0), num_lit(1.0), num_lit(2.0)]);
    assert_eq!(eval(&env, &call("len", vec![list()])).ok().unwrap(), n(3.0));
    assert_eq!(eval(&env, &call("min", vec![list()])).ok().unwrap(), n(1.0));
    assert_eq!(eval(&env, &call("max", vec![list()])).ok().unwrap(), n(3.0));
    assert_eq!(eval(&env, &call("sum", vec![list()])).ok().unwrap(), n(6.0));
    assert_eq!(eval(&env, &call("head", vec![list()])).ok().unwrap(), n(3.0));
    assert_eq!(eval(&env, &call("tail", vec![list()])).ok().unwrap(), Value::List(vec![n(1.0), n(2.0)]));
    assert_eq!(eval(&env, &call("at", vec![list(), num_lit(2.0)])).ok().unwrap(), n(2.0));
    assert_eq!(
        eval(&env, &call("append", vec![list(), num_lit(9.0)])).ok().unwrap(),
        Value::List(vec![n(3.0), n(1.0), n(2.0), n(9.0)])
    );
    assert!(matches!(eval(&env, &call("at", vec![list(), num_lit(5.0)])), Err(RuntimeError::R004 { index: 5, len: 3 })));
    let empty = Expr::ListLiteral(vec![]);
    assert!(matches!(eval(&env, &call("max", vec![empty])), Err(RuntimeError::R004 { index: 0, len: 0 })));
    let mixed = Expr::ListLiteral(vec![num_lit(1.0), Expr::Bool(true)]);
    match eval(&env, &call("sum", vec![mixed])) {
        Err(RuntimeError::R018 { op, left, right }) => {
            assert_eq!((op.as_str(), left.as_str(), right.as_str()), ("number expected", "Boolean", "Number"));
        }
        _ => panic!("Expected R018"),
    }
    let idx = Expr::Index { list: Box::new(list()), index: Box::new(num_lit(0.0)), span: sp() };
    assert_eq!(eval(&env, &idx).ok().unwrap(), n(3.0));
    assert!(matches!(eval(&env, &call("nothing", vec![])), Err(RuntimeError::R002)));
    assert!(matches!(eval(&env, &bin(BinOp::Div, num_lit(1.0), num_lit(0.0))), Err(RuntimeError::R002)));
}

#[test]
fn names_cluster_and_prev_errors() {
    let env = empty_env();
    assert!(matches!(eval(&env, &ident("ghost")), Err(RuntimeError::R001 { instance }) if instance == "ghost"));
    let e = Expr::ClusterAccess { node_id: "n9".to_string(), field: "load".to_string(), span: sp() };
    assert!(matches!(eval(&env, &e), Err(RuntimeError::R012 { reason }) if reason == "Node n9 not found in cluster state"));
    let p = Expr::Prev { field: "x".to_string(), span: sp() };
    assert!(matches!(eval(&env, &p), Err(RuntimeError::R001 { instance }) if instance == "global"));
    let and = bin(BinOp::And, Expr::Bool(false), ident("ghost"));
    assert_eq!(eval(&env, &and).ok().unwrap(), Value::Bool(false));
    let or = bin(BinOp::Or, Expr::Bool(true), ident("ghost"));
    assert_eq!(eval(&env, &or).ok().unwrap(), Value::Bool(true));
    let neg = Expr::Unary { op: UnOp::Neg, operand: Box::new(num_lit(2.0)), span: sp() };
    assert_eq!(eval(&env, &neg).ok().unwrap(), n(-2.0));
    assert_eq!(show_value(&Value::List(vec![n(1.5), Value::Bool(true)]), &num_work), "[1.5, true]");
}

#[test]
fn let_binds_and_refused_update_changes_nothing() {
    let (mut rt, mut decl) = build(vec![entity("Person", vec![stored("age", LuminaType::Number)])], vec![], vec![]);
    let stmt = Statement::Let(LetStmt { name: "limit".to_string(), value: LetValue::Expr(num_lit(7.0)), span: sp() });
    assert!(exec_statement(&mut rt, &mut decl, stmt, &num_work).is_ok());
    assert_eq!(eval_expr(&rt.env, &rt.store, &ident("limit"), None, &num_work).ok().unwrap(), n(7.0));
    insert_instance(&mut rt, "p", "Person", vec![("age", n(1.0))]);
    assert!(matches!(
        apply_update(&mut rt, &decl, "q", "age", n(2.0), &num_work),
        Err(RuntimeError::R001 { .. })
    ));
    assert!(matches!(
        apply_update(&mut rt, &decl, "p", "height", n(2.0), &num_work),
        Err(RuntimeError::R005 { .. })
    ));
    assert_eq!(field_of(&rt, "p", "age"), n(1.0));
}

#[test]
fn actions_show_alert_and_delete() {
    let (mut rt, decl) = build(vec![entity("Person", vec![stored("age", LuminaType::Number)])], vec![], vec![]);
    insert_instance(&mut rt, "p", "Person", vec![("age", n(4.0))]);
    assert!(exec_action(&mut rt, &decl, &Action::Show(access("p", "age")), None, &num_work).is_ok());
    assert_eq!(rt.output, vec!["4".to_string()]);
    let alert = |sev: &str| {
        Action::Alert(AlertAction {
            severity: Expr::Text(sev.to_string()),
            message: Expr::Text("hot".to_string()),
            source: Some(Expr::Text("p".to_string())),
            code: None,
            payload: Vec::new(),
            span: sp(),
        })
    };
    let evs = exec_action(&mut rt, &decl, &alert("critical"), None, &num_work).ok().unwrap();
    assert_eq!(evs.len(), 1);
    assert_eq!(evs[0].severity, "critical");
    assert_eq!(rt.output[1], "[ALERT:critical] p -- hot");
    assert!(matches!(exec_action(&mut rt, &decl, &alert("loud"), None, &num_work), Err(RuntimeError::R002)));
    assert_eq!(rt.output.len(), 2);
    assert!(exec_action(&mut rt, &decl, &Action::Delete("p".to_string()), None, &num_work).is_ok());
    assert!(rt.store.get("p").is_none());
    assert!(matches!(
        exec_action(&mut rt, &decl, &Action::Delete("p".to_string()), None, &num_work),
        Err(RuntimeError::R001 { instance }) if instance == "p"
    ));
}
