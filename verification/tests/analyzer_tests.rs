use lumina::analyzer::infer::{Analyzer, AnalyzerError};
use lumina::analyzer::passes::AnalyzedProgram;
use lumina::ast::{
    Action, BinOp, ClusterDecl, Condition, DerivedField, Duration, EntityDecl, Expr, Field,
    FieldMetadata, FieldPath, FnDecl, FnParam, Frequency, ImportDecl, LuminaType, Program,
    RefField, RuleDecl, RuleTrigger, Span, Statement, StoredField, TimeUnit,
};

fn sp() -> Span {
    Span { start: 0, end: 0, line: 0, col: 0 }
}

fn meta() -> FieldMetadata {
    FieldMetadata { doc: None, range: None, affects: Vec::new() }
}

fn num(x: f64) -> Expr {
    Expr::Number(x.to_bits())
}

fn ident(s: &str) -> Expr {
    Expr::Ident(s.to_string())
}

fn stored(name: &str, ty: LuminaType) -> Field {
    Field::Stored(StoredField { name: name.to_string(), ty, metadata: meta(), span: sp() })
}

fn derived(name: &str, expr: Expr) -> Field {
    Field::Derived(DerivedField { name: name.to_string(), expr, metadata: meta(), span: sp() })
}

fn reference(name: &str, target: &str) -> Field {
    Field::Ref(RefField { name: name.to_string(), target_entity: target.to_string(), span: sp() })
}

fn entity(name: &str, fields: Vec<Field>) -> Statement {
    Statement::Entity(EntityDecl { name: name.to_string(), fields, span: sp() })
}

fn binary(op: BinOp, l: Expr, r: Expr) -> Expr {
    Expr::Binary { op, left: Box::new(l), right: Box::new(r), span: sp() }
}

fn when(expr: Expr, becomes: Option<Expr>) -> RuleTrigger {
    RuleTrigger::When(vec![Condition { expr, becomes, for_duration: None, frequency: None }])
}

fn rule(name: &str, trigger: RuleTrigger, actions: Vec<Action>) -> Statement {
    Statement::Rule(RuleDecl {
        name: name.to_string(),
        param: None,
        trigger,
        actions,
        cooldown: None,
        on_clear: None,
        span: sp(),
    })
}

fn target(instance: &str, field: &str) -> FieldPath {
    FieldPath { instance: instance.to_string(), field: field.to_string(), sub_field: None, span: sp() }
}

fn program(statements: Vec<Statement>) -> Program {
    Program { statements, span: sp() }
}

fn analyze(p: Program) -> Result<AnalyzedProgram, Vec<AnalyzerError>> {
    Analyzer::new().analyze(p)
}

fn codes(r: &Result<AnalyzedProgram, Vec<AnalyzerError>>) -> Vec<&'static str> {
    match r {
        Ok(_) => Vec::new(),
        Err(errs) => errs.iter().map(|e| e.code).collect(),
    }
}

// entity E { val: Number  d := val * 2  bad := prev(d) }
#[test]
fn test_prev_analyzer_errors() {
    let p = program(vec![entity(
        "E",
        vec![
            stored("val", LuminaType::Number),
            derived("d", binary(BinOp::Mul, ident("val"), num(2.0))),
            derived("bad", Expr::Prev { field: "d".to_string(), span: sp() }),
        ],
    )]);
    let r = analyze(p);
    assert!(codes(&r).iter().any(|c| *c == "L024"));
}

// entity Person { age: Number  isAdult := age >= 18 }
#[test]
fn test_valid_entity_with_derived_fields() {
    let p = program(vec![entity(
        "Person",
        vec![
            stored("age", LuminaType::Number),
            derived("isAdult", binary(BinOp::Ge, ident("age"), num(18.0))),
        ],
    )]);
    let res = match analyze(p) {
        Ok(r) => r,
        Err(e) => panic!("analysis should succeed: {:?}", e),
    };
    assert!(res.schema.get_entity("Person").is_some());
    let age_id = res.graph.get_node("Person", "age").unwrap();
    let adult_id = res.graph.get_node("Person", "isAdult").unwrap();
    assert!(res.graph.dependents[age_id as usize].contains(&adult_id));
}

// entity A { a := b  b := a }
#[test]
fn test_circular_dependency() {
    let p = program(vec![entity("A", vec![derived("a", ident("b")), derived("b", ident("a"))])]);
    let r = analyze(p);
    assert!(codes(&r).iter().any(|c| *c == "L004"));
}

// entity A { name: Text  age := name + 1 }
#[test]
fn test_type_mismatch_in_derived_field() {
    let p = program(vec![entity(
        "A",
        vec![stored("name", LuminaType::Text), derived("age", binary(BinOp::Add, ident("name"), num(1.0)))],
    )]);
    let r = analyze(p);
    assert!(codes(&r).iter().any(|c| *c == "L002"));
}

// entity A { x := 1 } rule test when true { update A.x to 2 }
#[test]
fn test_update_derived_field() {
    let p = program(vec![
        entity("A", vec![derived("x", num(1.0))]),
        rule(
            "test",
            when(Expr::Bool(true), None),
            vec![Action::Update { target: target("A", "x"), value: num(2.0) }],
        ),
    ]);
    let r = analyze(p);
    assert!(codes(&r).iter().any(|c| *c == "L003"));
}

// entity A { x: Number } rule test when true { update A.y to 2 }
#[test]
fn test_unknown_field_access() {
    let p = program(vec![
        entity("A", vec![stored("x", LuminaType::Number)]),
        rule(
            "test",
            when(Expr::Bool(true), None),
            vec![Action::Update { target: target("A", "y"), value: num(2.0) }],
        ),
    ]);
    let r = analyze(p);
    assert!(codes(&r).iter().any(|c| *c == "L010"));
}

// entity A { x: Boolean } rule test when A.x becomes true { show "changed" }
#[test]
fn test_valid_rule_with_becomes_condition() {
    let p = program(vec![
        entity("A", vec![stored("x", LuminaType::Boolean)]),
        rule(
            "test",
            when(
                Expr::FieldAccess { obj: Box::new(ident("A")), field: "x".to_string(), span: sp() },
                Some(Expr::Bool(true)),
            ),
            vec![Action::Show(Expr::Text("changed".to_string()))],
        ),
    ]);
    let res = match analyze(p) {
        Ok(r) => r,
        Err(e) => panic!("analysis should succeed: {:?}", e),
    };
    assert_eq!(res.program.statements.len(), 2);
}

// entity A { link: ref NonExistent }
#[test]
fn test_l036_ref_to_nonexistent_entity() {
    let p = program(vec![entity("A", vec![reference("link", "NonExistent")])]);
    let r = analyze(p);
    assert!(codes(&r).iter().any(|c| *c == "L036"), "expected L036, got: {:?}", codes(&r));
}

// entity Cooling { ok: Boolean } entity Server { cooling: ref Cooling }
#[test]
fn test_valid_ref_declaration() {
    let p = program(vec![
        entity("Cooling", vec![stored("ok", LuminaType::Boolean)]),
        entity("Server", vec![reference("cooling", "Cooling")]),
    ]);
    let res = match analyze(p) {
        Ok(r) => r,
        Err(e) => panic!("valid ref should pass: {:?}", e),
    };
    let server = res.schema.get_entity("Server").unwrap();
    assert!(server.fields.contains_key("cooling"));
}

// entity Local { x: Number } rule w when true { write Local.x = 5 }
#[test]
fn test_l038_write_on_non_external_entity() {
    let p = program(vec![
        entity("Local", vec![stored("x", LuminaType::Number)]),
        rule(
            "w",
            when(Expr::Bool(true), None),
            vec![Action::Write { target: target("Local", "x"), value: num(5.0) }],
        ),
    ]);
    let r = analyze(p);
    assert!(codes(&r).iter().any(|c| *c == "L038"), "expected L038, got: {:?}", codes(&r));
}

// entity S { ts: Timestamp  bad := ts.foo }
#[test]
fn test_l042_invalid_timestamp_accessor() {
    let p = program(vec![entity(
        "S",
        vec![
            stored("ts", LuminaType::Timestamp),
            derived("bad", Expr::FieldAccess { obj: Box::new(ident("ts")), field: "foo".to_string(), span: sp() }),
        ],
    )]);
    let r = analyze(p);
    assert!(codes(&r).iter().any(|c| *c == "L042"), "expected L042, got: {:?}", codes(&r));
}

// entity S { ts: Timestamp } rule r when true { update S.ts to now() }
#[test]
fn test_now_returns_timestamp() {
    let p = program(vec![
        entity("S", vec![stored("ts", LuminaType::Timestamp)]),
        rule(
            "r",
            when(Expr::Bool(true), None),
            vec![Action::Update {
                target: target("S", "ts"),
                value: Expr::Call { name: "now".to_string(), args: Vec::new(), span: sp() },
            }],
        ),
    ]);
    let r = analyze(p);
    assert!(r.is_ok(), "now() should return Timestamp type, got: {:?}", codes(&r));
}

// entity S { ts: Timestamp  stale := ts.age > 60s }
#[test]
fn test_age_returns_duration() {
    let p = program(vec![entity(
        "S",
        vec![
            stored("ts", LuminaType::Timestamp),
            derived(
                "stale",
                binary(
                    BinOp::Gt,
                    Expr::FieldAccess { obj: Box::new(ident("ts")), field: "age".to_string(), span: sp() },
                    Expr::Duration(Duration { value: 60.0f64.to_bits(), unit: TimeUnit::Seconds }),
                ),
            ),
        ],
    )]);
    let r = analyze(p);
    assert!(r.is_ok(), ".age should return Duration, got: {:?}", codes(&r));
}

#[test]
fn duplicate_entity_and_field_are_reported() {
    let p = program(vec![
        entity("A", vec![stored("x", LuminaType::Number), stored("x", LuminaType::Text)]),
        entity("A", vec![]),
    ]);
    let r = analyze(p);
    let c = codes(&r);
    assert_eq!(c, vec!["L006", "L005"]);
}

#[test]
fn derived_field_type_is_recorded() {
    let p = program(vec![entity(
        "Person",
        vec![stored("age", LuminaType::Number), derived("adult", binary(BinOp::Ge, ident("age"), num(18.0)))],
    )]);
    let res = analyze(p).ok().unwrap();
    let f = res.schema.get_field("Person", "adult").unwrap();
    assert_eq!(f.ty, LuminaType::Boolean);
    let e = res.schema.get_entity("Person").unwrap();
    assert_eq!(e.field_names, vec!["adult".to_string(), "age".to_string()]);
    assert_eq!(e.field_indices.get("age"), Some(&1usize));
}

#[test]
fn secret_derived_field_is_refused() {
    let p = program(vec![entity(
        "Vault",
        vec![stored("key", LuminaType::Secret), derived("copy", ident("key"))],
    )]);
    let r = analyze(p);
    assert_eq!(codes(&r), vec!["L051"]);
}

#[test]
fn function_body_rules_are_checked() {
    // fn f(x: Number) -> Boolean { x.y }  : field lookup on a parameter is allowed,
    // but a lookup on anything else is not, and the body type must match.
    let body = Expr::FieldAccess { obj: Box::new(ident("other")), field: "y".to_string(), span: sp() };
    let p = program(vec![Statement::Fn(FnDecl {
        name: "f".to_string(),
        params: vec![FnParam { name: "x".to_string(), type_: LuminaType::Number, span: sp() }],
        returns: LuminaType::Boolean,
        body,
        span: sp(),
    })]);
    let r = analyze(p);
    assert_eq!(codes(&r), vec!["L015"]);
}

#[test]
fn function_return_type_mismatch_is_l014() {
    let p = program(vec![Statement::Fn(FnDecl {
        name: "double".to_string(),
        params: vec![FnParam { name: "x".to_string(), type_: LuminaType::Number, span: sp() }],
        returns: LuminaType::Text,
        body: binary(BinOp::Mul, ident("x"), num(2.0)),
        span: sp(),
    })]);
    let r = analyze(p);
    assert_eq!(codes(&r), vec!["L014"]);
}

#[test]
fn too_many_when_conditions_is_l035() {
    let cond = || Condition { expr: Expr::Bool(true), becomes: None, for_duration: None, frequency: None };
    let p = program(vec![rule("r", RuleTrigger::When(vec![cond(), cond(), cond(), cond()]), vec![])]);
    let r = analyze(p);
    assert_eq!(codes(&r), vec!["L035"]);
}

#[test]
fn frequency_needs_two_occurrences_and_a_window() {
    let with_freq = |count: u32, secs: f64| {
        program(vec![rule(
            "r",
            RuleTrigger::When(vec![Condition {
                expr: Expr::Bool(true),
                becomes: None,
                for_duration: None,
                frequency: Some(Frequency {
                    count,
                    within: Duration { value: secs.to_bits(), unit: TimeUnit::Seconds },
                    span: sp(),
                }),
            }]),
            vec![],
        )])
    };
    assert_eq!(codes(&analyze(with_freq(1, 5.0))), vec!["L039"]);
    assert_eq!(codes(&analyze(with_freq(2, 0.0))), vec!["L040"]);
    assert_eq!(codes(&analyze(with_freq(2, -1.0))), vec!["L040"]);
    assert!(analyze(with_freq(2, 5.0)).is_ok());
}

#[test]
fn duration_sign_on_bits() {
    let d = |x: f64| Duration { value: x.to_bits(), unit: TimeUnit::Minutes };
    assert!(d(0.0).is_nonpositive());
    assert!(d(-0.0).is_nonpositive());
    assert!(d(-3.5).is_nonpositive());
    assert!(d(f64::NEG_INFINITY).is_nonpositive());
    assert!(!d(f64::NAN).is_nonpositive());
    assert!(!d(1e-300).is_nonpositive());
    assert!(!d(2.0).is_nonpositive());
}

#[test]
fn create_must_give_every_stored_field() {
    let p = program(vec![
        entity("T", vec![stored("a", LuminaType::Number), stored("b", LuminaType::Text)]),
        rule(
            "r",
            when(Expr::Bool(true), None),
            vec![Action::Create { entity: "T".to_string(), fields: vec![("a".to_string(), num(1.0))] }],
        ),
    ]);
    assert_eq!(codes(&analyze(p)), vec!["L007"]);
}

#[test]
fn unknown_import_schema_is_l054() {
    let import = |path: &str| {
        Statement::Import(ImportDecl {
            path: path.to_string(),
            namespace: Some(path.split("::").map(|s| s.to_string()).collect()),
            span: sp(),
        })
    };
    assert_eq!(codes(&analyze(program(vec![import("LSL::datacenter::Toaster")]))), vec!["L054"]);
    assert!(analyze(program(vec![import("LSL::datacenter::Server")])).is_ok());
}

#[test]
fn cluster_declaration_is_checked() {
    let p = program(vec![Statement::Cluster(ClusterDecl {
        node_id: String::new(),
        bind_addr: "0.0.0.0:7000".to_string(),
        peers: Vec::new(),
        quorum: 3,
        election_timeout: Duration { value: 5.0f64.to_bits(), unit: TimeUnit::Seconds },
        span: sp(),
    })]);
    assert_eq!(codes(&analyze(p)), vec!["L060", "L061", "L062"]);
}

fn messages(r: &Result<AnalyzedProgram, Vec<AnalyzerError>>) -> Vec<String> {
    match r {
        Ok(_) => Vec::new(),
        Err(errs) => errs.iter().map(|e| e.message.clone()).collect(),
    }
}

#[test]
fn error_messages_name_what_is_wrong() {
    let p = program(vec![
        entity("A", vec![stored("x", LuminaType::Number), stored("x", LuminaType::Text)]),
        entity("A", vec![]),
    ]);
    assert_eq!(
        messages(&analyze(p)),
        vec!["Duplicate field name: x".to_string(), "Duplicate entity name: A".to_string()]
    );

    let p = program(vec![Statement::Cluster(ClusterDecl {
        node_id: "n1".to_string(),
        bind_addr: "0.0.0.0:7000".to_string(),
        peers: vec!["10.0.0.2:7000".to_string()],
        quorum: 3,
        election_timeout: Duration { value: 5.0f64.to_bits(), unit: TimeUnit::Seconds },
        span: sp(),
    })]);
    assert_eq!(
        messages(&analyze(p)),
        vec!["Quorum size 3 exceeds total nodes (2). Quorum must be \u{2264} peers + 1.".to_string()]
    );

    let p = program(vec![Statement::Fn(FnDecl {
        name: "double".to_string(),
        params: vec![FnParam { name: "x".to_string(), type_: LuminaType::Number, span: sp() }],
        returns: LuminaType::Text,
        body: binary(BinOp::Mul, ident("x"), num(2.0)),
        span: sp(),
    })]);
    let m = messages(&analyze(p));
    assert_eq!(m.len(), 1);
    assert!(m[0].starts_with("The function's body returns a Number, but the signature says it should return a Text."));

    let body = Expr::FieldAccess { obj: Box::new(ident("other")), field: "y".to_string(), span: sp() };
    let p = program(vec![Statement::Fn(FnDecl {
        name: "f".to_string(),
        params: vec![FnParam { name: "x".to_string(), type_: LuminaType::Number, span: sp() }],
        returns: LuminaType::Boolean,
        body,
        span: sp(),
    })]);
    assert_eq!(messages(&analyze(p)), vec!["fn body cannot access entity fields".to_string()]);

    let p = program(vec![entity("Server", vec![reference("rack", "Rack")])]);
    let m = messages(&analyze(p));
    assert_eq!(m.len(), 1);
    assert!(m[0].starts_with("I can't find the entity 'Rack' referenced in this 'ref'."));
    assert!(m[0].ends_with("Did you forget to define 'Rack'?"));
}

#[test]
fn cycle_message_lists_blocked_fields() {
    // entity A { x: Number  a := b  b := a  c := a + x  d := x }
    let p = program(vec![entity(
        "A",
        vec![
            stored("x", LuminaType::Number),
            derived("a", ident("b")),
            derived("b", ident("a")),
            derived("c", binary(BinOp::Add, ident("a"), ident("x"))),
            derived("d", ident("x")),
        ],
    )]);
    let m = messages(&analyze(p));
    assert_eq!(m.len(), 1);
    assert!(m[0].starts_with("I've detected a circular dependency: A.a -> A.b -> A.c. Lumina is a Directed Acyclic Graph"));
}

#[test]
fn analyzed_graph_has_an_order() {
    let p = program(vec![entity(
        "Person",
        vec![
            stored("age", LuminaType::Number),
            derived("adult", binary(BinOp::Ge, ident("age"), num(18.0))),
            derived("minor", Expr::Unary { op: lumina::ast::UnOp::Not, operand: Box::new(ident("adult")), span: sp() }),
        ],
    )]);
    let res = analyze(p).ok().unwrap();
    let order = res.graph.compute_topo_order().ok().unwrap();
    assert_eq!(order.len(), res.graph.nodes.len());
}
