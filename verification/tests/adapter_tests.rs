use lumina::assoc::StrMap;
use lumina::runtime::docker::{ContainerCommand, ContainerSummary, DockerAdapter, DockerPlan};
use lumina::runtime::feeds::{published_scalar, updates_from_object, JsonScalar};
use lumina::runtime::process::{ProcessAdapter, ProcessSample, SystemSample};
use lumina::runtime::proxmox::{authorization, ProxmoxAdapter};
use lumina::runtime::value::Value;
use lumina::text::split_pieces;

fn s(x: &str) -> String {
    x.to_string()
}

fn upd(i: &str, f: &str, v: Value) -> (String, String, Value) {
    (s(i), s(f), v)
}

// ---- JSON feeds ----

#[test]
fn feed_object_names_instance_by_id() {
    let fields = vec![
        (s("temp"), JsonScalar::Number(21.5f64.to_bits())),
        (s("id"), JsonScalar::Text(s("s1"))),
        (s("ok"), JsonScalar::Bool(true)),
        (s("tags"), JsonScalar::Other),
        (s("label"), JsonScalar::Text(s("kitchen"))),
    ];
    assert_eq!(
        updates_from_object(&fields),
        vec![
            upd("s1", "temp", Value::Number(21.5f64.to_bits())),
            upd("s1", "ok", Value::Bool(true)),
            upd("s1", "label", Value::Text(s("kitchen"))),
        ]
    );
}

#[test]
fn feed_object_without_string_id_is_default() {
    let fields = vec![(s("id"), JsonScalar::Number(7)), (s("x"), JsonScalar::Bool(false))];
    assert_eq!(updates_from_object(&fields), vec![upd("default", "x", Value::Bool(false))]);
    assert!(updates_from_object(&vec![]).is_empty());
}

#[test]
fn only_scalars_are_published() {
    assert!(matches!(published_scalar(&Value::Bool(true)), Some(JsonScalar::Bool(true))));
    assert!(matches!(published_scalar(&Value::Text(s("a"))), Some(JsonScalar::Text(_))));
    assert!(published_scalar(&Value::Unknown).is_none());
    assert!(published_scalar(&Value::List(vec![])).is_none());
}

// ---- splitting ----

#[test]
fn split_pieces_like_str_split() {
    for x in ["", "a", "a,b", ",a,,b,", ",,"] {
        let expected: Vec<String> = x.split(',').map(|p| p.to_string()).collect();
        assert_eq!(split_pieces(x, ','), expected);
    }
}

// ---- docker ----

fn container(name: Option<&str>, state: Option<&str>) -> ContainerSummary {
    ContainerSummary { first_name: name.map(s), state: state.map(s) }
}

#[test]
fn docker_poll_maps_states() {
    let mut d = DockerAdapter::new("Container");
    let ups = d.poll_updates(&vec![
        container(Some("/web"), Some("running")),
        container(Some("//db"), Some("exited")),
        container(None, Some("running")),
        container(Some("/"), Some("running")),
        container(Some("/job"), Some("restarting")),
        container(Some("/x"), None),
    ]);
    assert_eq!(
        ups,
        vec![
            upd("web", "status", Value::Text(s("running"))),
            upd("web", "verified", Value::Bool(true)),
            upd("db", "status", Value::Text(s("stopped"))),
            upd("db", "verified", Value::Bool(true)),
            upd("job", "status", Value::Text(s("starting"))),
            upd("job", "verified", Value::Bool(true)),
            upd("x", "status", Value::Text(s("down"))),
            upd("x", "verified", Value::Bool(true)),
        ]
    );
    assert_eq!(d.known_states.get("db"), Some(&s("stopped")));
}

#[test]
fn docker_write_starts_and_stops_on_change() {
    let mut d = DockerAdapter::new("Container");
    assert_eq!(d.on_write("web", "status", &Value::Text(s("running"))), Some(ContainerCommand::Start));
    assert_eq!(d.on_write("web", "status", &Value::Text(s("running"))), None);
    assert_eq!(d.on_write("web", "status", &Value::Text(s("stopped"))), Some(ContainerCommand::Stop));
    assert_eq!(d.on_write("web", "status", &Value::Text(s("paused"))), None);
    assert_eq!(d.on_write("web", "image", &Value::Text(s("running"))), None);
    assert_eq!(d.on_write("web", "status", &Value::Bool(true)), None);
    assert_eq!(d.known_states.get("web"), Some(&s("stopped")));
}

#[test]
fn docker_provision_plan() {
    let d = DockerAdapter::new("Container");
    let mut desired: StrMap<Value> = StrMap::new();
    desired.insert(s("env_vars"), Value::Text(s(" A=1 , B=2,")));
    match d.provision_plan(&desired) {
        DockerPlan::Ensure { image, env } => {
            assert_eq!(image, "nginx:alpine");
            assert_eq!(env, vec![s("A=1"), s("B=2"), s("")]);
        }
        DockerPlan::Stop => panic!("expected ensure"),
    }
    desired.insert(s("env_vars"), Value::Text(s("NONE")));
    desired.insert(s("image"), Value::Text(s("redis:7")));
    match d.provision_plan(&desired) {
        DockerPlan::Ensure { image, env } => {
            assert_eq!(image, "redis:7");
            assert!(env.is_empty());
        }
        DockerPlan::Stop => panic!("expected ensure"),
    }
    desired.insert(s("status"), Value::Text(s("stopped")));
    assert!(matches!(d.provision_plan(&desired), DockerPlan::Stop));
}

// ---- processes ----

#[test]
fn process_updates_follow_watch_list() {
    let mut p = ProcessAdapter::new("Proc");
    p.watch("api", "node");
    p.on_write("db", "proc_name", &Value::Text(s("postgres")));
    p.on_write("db", "other", &Value::Text(s("ignored")));
    p.watch("local_system", "init");
    let samples = vec![
        ProcessSample { found: true, cpu_percent: 12.5f64.to_bits(), memory_mb: 100f64.to_bits() },
        ProcessSample { found: false, cpu_percent: 0, memory_mb: 0 },
        ProcessSample { found: false, cpu_percent: 0, memory_mb: 0 },
    ];
    let sys = SystemSample { cpu_percent: 1, total_memory_mb: 2, used_memory_mb: 3 };
    let ups = p.poll_updates(&samples, &sys);
    assert_eq!(ups.len(), 4 + 2 + 2 + 3);
    assert_eq!(ups[0], upd("api", "running", Value::Bool(true)));
    assert_eq!(ups[3], upd("api", "status", Value::Text(s("active"))));
    assert_eq!(ups[5], upd("db", "status", Value::Text(s("missing"))));
    assert_eq!(ups[8], upd("local_system", "total_cpu_percent", Value::Number(1)));
}

#[test]
fn process_without_local_system_has_no_machine_figures() {
    let mut p = ProcessAdapter::new("Proc");
    p.watch("api", "node");
    let ups = p.poll_updates(
        &vec![ProcessSample { found: false, cpu_percent: 0, memory_mb: 0 }],
        &SystemSample { cpu_percent: 1, total_memory_mb: 2, used_memory_mb: 3 },
    );
    assert_eq!(ups.len(), 2);
}

// ---- proxmox ----

#[test]
fn proxmox_calls_use_desired_state_and_defaults() {
    let mut p = ProxmoxAdapter::new(s("VM"));
    let mut desired: StrMap<Value> = StrMap::new();
    desired.insert(s("node"), Value::Text(s("n7")));
    let calls = p.provision_calls("vm1", &desired, 100, 205);
    assert_eq!(calls.url, "https://localhost:8006");
    assert_eq!(calls.token, "");
    assert_eq!(calls.status_endpoint, "/api2/json/nodes/n7/qemu/205/status/current");
    assert_eq!(calls.clone_endpoint, "/api2/json/nodes/n7/qemu/100/clone?newid=205");
    let d = p.destroy_calls("vm1").ok().unwrap();
    assert_eq!(d.stop_endpoint, "/api2/json/nodes/n7/qemu/205/status/stop");
    assert_eq!(d.delete_endpoint, "/api2/json/nodes/n7/qemu/205");
    p.forget("vm1");
    assert_eq!(
        p.destroy_calls("vm1").err().unwrap(),
        "Cannot destroy Proxmox VM: missing metadata in cache (was never provisioned/reconciled)"
    );
}

#[test]
fn proxmox_authorization_header() {
    assert_eq!(authorization(""), None);
    assert_eq!(authorization("root@pam!t=abc"), Some(s("PVEAPIToken=root@pam!t=abc")));
}

// ---- aggregates ----

use lumina::analyzer::infer::Analyzer;
use lumina::ast::{
    AggregateDecl, AggregateExpr, AggregateField, AggregateScope, EntityDecl, Field, FieldMetadata,
    LuminaType, Program, Span, Statement, StoredField,
};
use lumina::runtime::aggregate::{count_true_values, fold_bools, gather_inputs, AggregateStore};
use lumina::runtime::store::{EntityStore, Instance};

fn sp() -> Span {
    Span { start: 0, end: 0, line: 0, col: 0 }
}

fn stored(name: &str, ty: LuminaType) -> Field {
    Field::Stored(StoredField {
        name: s(name),
        ty,
        metadata: FieldMetadata { doc: None, range: None, affects: vec![] },
        span: sp(),
    })
}

fn agg(scope: AggregateScope, expr: AggregateExpr) -> (AggregateDecl, AggregateField) {
    let field = AggregateField { name: s("f"), expr, span: sp() };
    let decl = AggregateDecl {
        name: s("A"),
        over: s("Server"),
        fields: vec![],
        scope,
        span: sp(),
    };
    (decl, field)
}

fn setup() -> (lumina::analyzer::types::Schema, EntityStore) {
    let p = Program {
        statements: vec![Statement::Entity(EntityDecl {
            name: s("Server"),
            fields: vec![stored("up", LuminaType::Boolean), stored("load", LuminaType::Number)],
            span: sp(),
        })],
        span: sp(),
    };
    let analyzed = Analyzer::new().analyze(p).ok().unwrap();
    let schema = analyzed.schema;
    let up = *schema.entities.get("Server").unwrap().field_indices.get("up").unwrap();
    let mut store = EntityStore::new();
    for (name, v) in [("a", true), ("b", false), ("c", true)] {
        let mut inst = Instance::new(s("Server"), 2);
        inst.set(up, Value::Bool(v));
        store.insert(s(name), inst);
    }
    store.insert(s("r"), Instance::new(s("Rack"), 2));
    (schema, store)
}

#[test]
fn local_aggregate_reads_every_instance() {
    let (schema, store) = setup();
    let (decl, field) = agg(AggregateScope::Local, AggregateExpr::Any(s("up")));
    let vals = gather_inputs(&decl, &field, &store, &schema, None);
    assert_eq!(vals, vec![Value::Bool(true), Value::Bool(false), Value::Bool(true)]);
    assert_eq!(count_true_values(&vals), 2);
    assert_eq!(fold_bools(&field.expr, &vals), Some(Value::Bool(true)));
    assert_eq!(fold_bools(&AggregateExpr::All(s("up")), &vals), Some(Value::Bool(false)));
    assert_eq!(fold_bools(&AggregateExpr::Sum(s("up")), &vals), None);

    let (decl, field) = agg(AggregateScope::Local, AggregateExpr::Count(None));
    assert_eq!(gather_inputs(&decl, &field, &store, &schema, None), vec![Value::Unknown; 3]);
    let (decl, field) = agg(AggregateScope::Local, AggregateExpr::Max(s("nope")));
    assert!(gather_inputs(&decl, &field, &store, &schema, None).is_empty());
}

#[test]
fn cluster_aggregate_reads_every_node() {
    let (schema, store) = setup();
    let mut cluster: StrMap<StrMap<Value>> = StrMap::new();
    let mut n1: StrMap<Value> = StrMap::new();
    n1.insert(s("up"), Value::Bool(true));
    let n2: StrMap<Value> = StrMap::new();
    cluster.insert(s("n1"), n1);
    cluster.insert(s("n2"), n2);
    let (decl, field) = agg(AggregateScope::Cluster, AggregateExpr::All(s("up")));
    let vals = gather_inputs(&decl, &field, &store, &schema, Some(&cluster));
    assert_eq!(vals, vec![Value::Bool(true)]);
    assert_eq!(fold_bools(&field.expr, &vals), Some(Value::Bool(true)));
    let (decl, field) = agg(AggregateScope::Region(s("eu")), AggregateExpr::Count(None));
    assert_eq!(gather_inputs(&decl, &field, &store, &schema, Some(&cluster)).len(), 2);
    assert!(gather_inputs(&decl, &field, &store, &schema, None).is_empty());
}

#[test]
fn all_over_nothing_is_false() {
    assert_eq!(fold_bools(&AggregateExpr::All(s("x")), &vec![]), Some(Value::Bool(false)));
    assert_eq!(fold_bools(&AggregateExpr::All(s("x")), &vec![Value::Unknown]), Some(Value::Bool(false)));
    assert_eq!(fold_bools(&AggregateExpr::Any(s("x")), &vec![]), Some(Value::Bool(false)));
}

#[test]
fn aggregate_store_keeps_results() {
    let mut st = AggregateStore::new();
    let (decl, _) = agg(AggregateScope::Local, AggregateExpr::Count(None));
    st.register(decl);
    assert_eq!(st.decls.len(), 1);
    assert!(st.get("A", "f").is_none());
    let mut res: StrMap<Value> = StrMap::new();
    res.insert(s("f"), Value::Number(3f64.to_bits()));
    st.store_results("A", res);
    assert_eq!(st.get("A", "f"), Some(&Value::Number(3f64.to_bits())));
    assert!(st.get("A", "g").is_none());
}
