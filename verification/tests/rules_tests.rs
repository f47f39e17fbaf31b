use lumina::runtime::rules::{rule_step, RuleGate, RuleOutcome, RuleState};

fn gate(for_duration: bool, cooldown: Option<u64>, frequency: Option<(u32, u64)>, on_clear: bool) -> RuleGate {
    RuleGate { for_duration, cooldown, frequency, on_clear }
}

#[test]
fn rule_fires_on_rising_edge_and_clears() {
    let g = gate(false, None, None, true);
    let s = RuleState::new();
    let (s, o) = rule_step(&s, &g, false, false, 0);
    assert_eq!(o, RuleOutcome::Cancel);
    let (s, o) = rule_step(&s, &g, true, false, 10);
    assert_eq!(o, RuleOutcome::Fire);
    let (s, o) = rule_step(&s, &g, true, false, 20);
    assert_eq!(o, RuleOutcome::Hold);
    let (s, o) = rule_step(&s, &g, false, false, 30);
    assert_eq!(o, RuleOutcome::Clear);
    let (_, o) = rule_step(&s, &g, false, false, 40);
    assert_eq!(o, RuleOutcome::Cancel);
}

#[test]
fn rule_does_not_fire_twice_in_a_cycle() {
    let g = gate(false, None, None, false);
    let (s, o) = rule_step(&RuleState::new(), &g, true, true, 0);
    assert_eq!(o, RuleOutcome::Hold);
    assert!(s.active && s.was_met);
}

#[test]
fn cooldown_and_timer() {
    let g = gate(false, Some(1000), None, false);
    let (s, o) = rule_step(&RuleState::new(), &g, true, false, 0);
    assert_eq!(o, RuleOutcome::Fire);
    let (s, _) = rule_step(&s, &g, false, false, 100);
    let (s, o) = rule_step(&s, &g, true, false, 500);
    assert_eq!(o, RuleOutcome::Hold);
    let (s, _) = rule_step(&s, &g, false, false, 600);
    let (_, o) = rule_step(&s, &g, true, false, 1000);
    assert_eq!(o, RuleOutcome::Fire);
    let t = gate(true, None, None, false);
    let (_, o) = rule_step(&RuleState::new(), &t, true, false, 0);
    assert_eq!(o, RuleOutcome::StartTimer);
}

#[test]
fn frequency_needs_rises_in_window() {
    let g = gate(false, None, Some((2, 100)), false);
    let (s, o) = rule_step(&RuleState::new(), &g, true, false, 0);
    assert_eq!(o, RuleOutcome::Hold);
    let (s, _) = rule_step(&s, &g, false, false, 10);
    let (s, o) = rule_step(&s, &g, true, false, 500);
    assert_eq!(o, RuleOutcome::Hold);
    assert_eq!(s.history, vec![500]);
    let (s, _) = rule_step(&s, &g, false, false, 510);
    let (s, o) = rule_step(&s, &g, true, false, 550);
    assert_eq!(o, RuleOutcome::Fire);
    assert!(s.history.is_empty());
}

use lumina::analyzer::infer::Analyzer;
use lumina::ast::{
    BinOp, DerivedField, EntityDecl, Expr, Field, FieldMetadata, LuminaType, Program, Span, Statement,
    StoredField,
};
use lumina::assoc::StrMap;
use lumina::runtime::engine::{
    apply_derived, begin_update, check_severity, create_instance, delete_instance, finish_update,
    resolve_target,
};
use lumina::runtime::error::RuntimeError;
use lumina::runtime::store::{EntityStore, Instance};
use lumina::runtime::value::Value;

fn sp() -> Span {
    Span { start: 0, end: 0, line: 0, col: 0 }
}

fn person_schema() -> lumina::analyzer::types::Schema {
    let meta = |range: Option<(u64, u64)>| FieldMetadata { doc: None, range, affects: Vec::new() };
    let p = Program {
        statements: vec![Statement::Entity(EntityDecl {
            name: "Person".to_string(),
            fields: vec![
                Field::Stored(StoredField {
                    name: "age".to_string(),
                    ty: LuminaType::Number,
                    metadata: meta(Some((0.0f64.to_bits(), 150.0f64.to_bits()))),
                    span: sp(),
                }),
                Field::Derived(DerivedField {
                    name: "adult".to_string(),
                    expr: Expr::Binary {
                        op: BinOp::Ge,
                        left: Box::new(Expr::Ident("age".to_string())),
                        right: Box::new(Expr::Number(18.0f64.to_bits())),
                        span: sp(),
                    },
                    metadata: meta(None),
                    span: sp(),
                }),
            ],
            span: sp(),
        })],
        span: sp(),
    };
    Analyzer::new().analyze(p).ok().unwrap().schema
}

fn num(x: f64) -> Value {
    Value::Number(x.to_bits())
}

#[test]
fn update_sets_recomputes_and_commits() {
    let schema = person_schema();
    let derived = vec![("Person".to_string(), "adult".to_string())];
    let mut store = EntityStore::new();
    store.insert("p".to_string(), Instance::new("Person".to_string(), 2));
    let u = begin_update(&mut store, &schema, &derived, "p", "age", num(30.0), true, 0).ok().unwrap();
    assert_eq!(u.derived, vec!["adult".to_string()]);
    assert_eq!(store.get("p").unwrap().get(1), Some(&num(30.0)));
    let u = apply_derived(u, &mut store, &schema, "p", "Person", "adult", Ok(Value::Bool(true))).ok().unwrap();
    assert_eq!(store.get("p").unwrap().get(0), Some(&Value::Bool(true)));
    let mut dirty = Vec::new();
    finish_update(u, &mut store, &mut dirty, 0);
    assert!(dirty.is_empty());
    assert_eq!(store.get("p").unwrap().prev(1), Some(&num(30.0)));
}

#[test]
fn refused_or_failed_updates_change_nothing() {
    let schema = person_schema();
    let derived = vec![("Person".to_string(), "adult".to_string())];
    let mut store = EntityStore::new();
    store.insert("p".to_string(), Instance::new("Person".to_string(), 2));
    assert!(matches!(
        begin_update(&mut store, &schema, &derived, "q", "age", num(1.0), true, 0),
        Err(RuntimeError::R001 { .. })
    ));
    assert!(matches!(
        begin_update(&mut store, &schema, &derived, "p", "adult", Value::Bool(true), true, 0),
        Err(RuntimeError::R009 { .. })
    ));
    assert!(matches!(
        begin_update(&mut store, &schema, &derived, "p", "age", num(200.0), false, 0),
        Err(RuntimeError::R006 { .. })
    ));
    assert!(matches!(
        begin_update(&mut store, &schema, &derived, "p", "height", num(2.0), true, 0),
        Err(RuntimeError::R005 { .. })
    ));
    assert!(matches!(
        begin_update(&mut store, &schema, &derived, "p", "age", num(2.0), true, 100),
        Err(RuntimeError::R003 { depth: 100 })
    ));
    assert_eq!(store.get("p").unwrap().version, 1);
    let u = begin_update(&mut store, &schema, &derived, "p", "age", num(40.0), true, 0).ok().unwrap();
    assert!(apply_derived(u, &mut store, &schema, "p", "Person", "adult", Err(RuntimeError::R002)).is_err());
    assert_eq!(store.get("p").unwrap().get(1), Some(&Value::Unknown));
    assert_eq!(store.get("p").unwrap().version, 1);
}

#[test]
fn create_delete_and_targets() {
    let schema = person_schema();
    let mut store = EntityStore::new();
    let name = create_instance(
        &mut store,
        &schema,
        "Person",
        vec![("age".to_string(), num(3.0)), ("age".to_string(), num(4.0)), ("nope".to_string(), num(1.0))],
    );
    assert_eq!(name, "person_1");
    let inst = store.get("person_1").unwrap();
    assert_eq!(inst.get(1), Some(&num(4.0)));
    assert_eq!(inst.prev(1), Some(&Value::Unknown));
    assert_eq!(inst.version, 2);
    let name2 = create_instance(&mut store, &schema, "Person", vec![]);
    assert_eq!(name2, "person_2");
    assert!(delete_instance(&mut store, "person_1").is_ok());
    assert!(matches!(delete_instance(&mut store, "person_1"), Err(RuntimeError::R001 { .. })));
    let mut inst_map: StrMap<String> = StrMap::new();
    inst_map.insert("srv1".to_string(), "Server".to_string());
    assert_eq!(resolve_target(&inst_map, Some("srv1"), None, "Server"), "srv1");
    assert_eq!(resolve_target(&inst_map, Some("srv1"), Some(&"s".to_string()), "s"), "srv1");
    assert_eq!(resolve_target(&inst_map, None, None, "Server"), "Server");
    assert!(check_severity("critical").is_ok());
    assert!(matches!(check_severity("loud"), Err(RuntimeError::R002)));
}

#[test]
fn referencing_instances_are_listed() {
    let mut refs: StrMap<Vec<(String, String)>> = StrMap::new();
    refs.insert("rack1".to_string(), vec![("srv1".to_string(), "Server".to_string())]);
    assert_eq!(
        lumina::runtime::engine::referencing(&refs, "rack1"),
        vec![("srv1".to_string(), "Server".to_string())]
    );
    assert!(lumina::runtime::engine::referencing(&refs, "rack2").is_empty());
}

#[test]
fn let_instances_and_external_defaults() {
    let schema = person_schema();
    let mut store = EntityStore::new();
    lumina::runtime::engine::init_instance(
        &mut store,
        &schema,
        "isaac".to_string(),
        "Person",
        vec![("age".to_string(), num(26.0))],
    );
    assert_eq!(store.get("isaac").unwrap().get(1), Some(&num(26.0)));
    assert_eq!(store.get("isaac").unwrap().entity_name, "Person");
    let fields = vec![
        Field::Stored(StoredField {
            name: "up".to_string(),
            ty: LuminaType::Boolean,
            metadata: FieldMetadata { doc: None, range: None, affects: Vec::new() },
            span: sp(),
        }),
        Field::Stored(StoredField {
            name: "load".to_string(),
            ty: LuminaType::Number,
            metadata: FieldMetadata { doc: None, range: None, affects: Vec::new() },
            span: sp(),
        }),
    ];
    assert_eq!(
        lumina::runtime::engine::external_defaults(&fields),
        vec![("up".to_string(), Value::Bool(false)), ("load".to_string(), num(0.0))]
    );
}

#[test]
fn workload_moves_and_handoffs() {
    let mut store = EntityStore::new();
    store.insert("a".to_string(), Instance::new("T".to_string(), 1));
    store.insert("b".to_string(), Instance::new("T".to_string(), 1));
    let work = vec!["b".to_string(), "zz".to_string(), "a".to_string()];
    assert_eq!(
        lumina::runtime::engine::workload_to_hand_off(&store, &work, "n2", "n1"),
        vec!["b".to_string(), "a".to_string()]
    );
    assert!(lumina::runtime::engine::workload_to_hand_off(&store, &work, "n1", "n1").is_empty());
    let mut other = EntityStore::new();
    lumina::runtime::engine::accept_instances(
        &mut other,
        vec![("a".to_string(), Instance::new("T".to_string(), 1))],
        "n2",
        "n1",
    );
    assert!(other.get("a").is_none());
    lumina::runtime::engine::accept_instances(
        &mut other,
        vec![("a".to_string(), Instance::new("T".to_string(), 1))],
        "n1",
        "n1",
    );
    assert!(other.get("a").is_some());
}

#[test]
fn reference_records_follow_ref_updates() {
    let mut refs: StrMap<Vec<(String, String)>> = StrMap::new();
    let t = |x: &str| Value::Text(x.to_string());
    lumina::runtime::engine::track_ref(&mut refs, true, None, &t("rack1"), "srv1", "Server");
    lumina::runtime::engine::track_ref(&mut refs, true, None, &t("rack1"), "srv1", "Server");
    assert_eq!(refs.get("rack1"), Some(&vec![("srv1".to_string(), "Server".to_string())]));
    lumina::runtime::engine::track_ref(&mut refs, true, Some(&t("rack1")), &t("rack2"), "srv1", "Server");
    assert_eq!(refs.get("rack1"), Some(&vec![]));
    assert_eq!(refs.get("rack2"), Some(&vec![("srv1".to_string(), "Server".to_string())]));
    lumina::runtime::engine::track_ref(&mut refs, false, Some(&t("rack2")), &t("rack3"), "srv1", "Server");
    assert!(refs.get("rack3").is_none());
}
