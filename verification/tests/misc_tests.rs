use lumina::analyzer::graph::DependencyGraph;
use lumina::analyzer::help::help_for_code;
use lumina::assoc::StrMap;
use lumina::ast::Span;
use lumina::cli::{
    clear_cmd, help_cmd, parse_command, trim_str, unknown_command_reply, usage_reply, ReplCommand,
};
use lumina::loader::{circular_import, file_not_found, parse_to_diagnostic};
use lumina::format::NumberTexts;
use lumina::runtime::adapters::{PingAdapter, StaticAdapter};
use lumina::runtime::error::RuntimeError;
use lumina::runtime::lsl::LslRegistry;
use lumina::runtime::state_store::StateStore;
use lumina::runtime::value::Value;
use lumina::text::{sort_strings, split_once_char, str_eq, str_lt, u64_to_decimal};
use lumina::token::{SpannedToken, Token};

fn s(x: &str) -> String {
    x.to_string()
}

// ---- dependency graph ----

#[test]
fn topo_order_puts_sources_first() {
    let mut g = DependencyGraph::new();
    let c = g.intern("P", "c");
    let a = g.intern("P", "a");
    let b = g.intern("P", "b");
    assert_eq!(g.intern("P", "a"), a);
    assert_eq!(g.get_node("P", "b"), Some(b));
    assert_eq!(g.get_node("Q", "b"), None);
    g.add_edge(a, b);
    g.add_edge(b, c);
    let order = g.compute_topo_order().unwrap();
    let pos = |x: usize| order.iter().position(|&y| y == x).unwrap();
    assert_eq!(order.len(), 3);
    assert!(pos(a) < pos(b));
    assert!(pos(b) < pos(c));
}

#[test]
fn cycle_has_no_order() {
    let mut g = DependencyGraph::new();
    let a = g.intern("P", "a");
    let b = g.intern("P", "b");
    g.add_edge(a, b);
    g.add_edge(b, a);
    let err = g.compute_topo_order().unwrap_err();
    assert!(!err.chain.is_empty());
}

#[test]
fn self_loop_is_a_cycle() {
    let mut g = DependencyGraph::new();
    let a = g.intern("P", "a");
    g.add_edge(a, a);
    assert!(g.compute_topo_order().is_err());
}

#[test]
fn empty_graph_orders_trivially() {
    let g = DependencyGraph::new();
    assert_eq!(g.compute_topo_order().unwrap().len(), 0);
}

// ---- help and cli ----

#[test]
fn help_for_known_and_unknown_codes() {
    assert_eq!(
        help_for_code("L006"),
        Some(s("ensure all field names within the same entity are unique"))
    );
    assert_eq!(
        help_for_code("R004"),
        Some(s("verify your index value is within the bounds of the list"))
    );
    assert_eq!(help_for_code("L999"), None);
    assert_eq!(help_for_code(""), None);
}

#[test]
fn parse_session_commands() {
    assert!(matches!(parse_command(":state"), ReplCommand::State));
    assert!(matches!(parse_command(":schema"), ReplCommand::Schema));
    assert!(matches!(parse_command(":clear"), ReplCommand::Clear));
    assert!(matches!(parse_command(":help"), ReplCommand::Help));
    assert!(matches!(parse_command(":q"), ReplCommand::Quit));
    assert!(matches!(parse_command(":quit"), ReplCommand::Quit));
    match parse_command(":load   demo.lum  ") {
        ReplCommand::Load(p) => assert_eq!(p, "demo.lum"),
        _ => panic!("expected load"),
    }
    match parse_command(":save") {
        ReplCommand::Save(p) => assert_eq!(p, ""),
        _ => panic!("expected save"),
    }
    match parse_command(":frobnicate now") {
        ReplCommand::Unknown(h) => assert_eq!(h, ":frobnicate"),
        _ => panic!("expected unknown"),
    }
}

#[test]
fn session_replies() {
    assert_eq!(clear_cmd(), "Session cleared.");
    assert!(help_cmd().starts_with(":state - print current state as JSON\n"));
    assert!(help_cmd().ends_with(":quit - exit the REPL"));
    assert_eq!(unknown_command_reply(":x"), "Unknown command: :x. Type :help for commands.");
    assert_eq!(usage_reply(true), "Usage: :load <file.lum>");
    assert_eq!(usage_reply(false), "Usage: :save <file.lum>");
}

#[test]
fn loader_messages() {
    assert_eq!(file_not_found("a.lum", "No such file"), "L017: file not found: a.lum - No such file");
    assert_eq!(circular_import("b.lum"), "L016: circular import: b.lum");
    assert_eq!(parse_to_diagnostic("unexpected token", "c.lum"), "P001: unexpected token in c.lum");
}

#[test]
fn trim_matches_std() {
    for x in ["", "  ", " a ", "\t\nab c\r\n", "\u{3000}x\u{A0}", "abc"] {
        assert_eq!(trim_str(x), x.trim());
    }
}

// ---- text helpers ----

#[test]
fn text_helpers() {
    assert_eq!(u64_to_decimal(0), "0");
    assert_eq!(u64_to_decimal(1234567890), "1234567890");
    assert_eq!(u64_to_decimal(u64::MAX), u64::MAX.to_string());
    assert_eq!(lumina::text::cat3("a", "", "bc"), "abc");
    assert!(str_eq("x", "x"));
    assert!(!str_eq("x", "xy"));
    assert_eq!(split_once_char("a@b@c", '@'), Some((s("a"), s("b@c"))));
    assert_eq!(split_once_char("abc", '@'), None);
    assert!(str_lt("ab", "abc"));
    assert!(str_lt("abc", "abd"));
    assert!(!str_lt("b", "abc"));
    assert!(!str_lt("a", "a"));
    assert_eq!(sort_strings(vec![s("k"), s("b"), s("x"), s("a")]), vec![s("a"), s("b"), s("k"), s("x")]);
}

// ---- tokens ----

#[test]
fn token_names() {
    assert_eq!(Token::KwEntity.to_human_string(""), "keyword 'entity'");
    assert_eq!(Token::Number(2.5f64.to_bits()).to_human_string("2.5"), "number '2.5'");
    assert_eq!(Token::Ident(s("temp")).to_human_string(""), "identifier 'temp'");
    assert_eq!(Token::Text(s("hi")).to_human_string(""), "text \"hi\"");
    assert_eq!(Token::Newline.to_human_string(""), "newline");
    let t = SpannedToken { token: Token::KwLet, span: Span { start: 0, end: 3, line: 1, col: 1 } };
    assert_eq!(t.span.end, 3);
}

// ---- runtime errors ----

#[test]
fn runtime_error_codes_and_messages() {
    let texts = NumberTexts {
        entries: vec![(150f64.to_bits(), s("150")), (0f64.to_bits(), s("0")), (100f64.to_bits(), s("100"))],
    };
    let e = RuntimeError::R006 {
        field: s("temp"),
        value: 150f64.to_bits(),
        min: 0f64.to_bits(),
        max: 100f64.to_bits(),
    };
    assert_eq!(e.code(), "R006");
    assert_eq!(e.message(&texts), "@range violation: temp = 150, expected 0\u{2013}100");
    assert_eq!(RuntimeError::R002.code(), "R002");
    assert_eq!(RuntimeError::R002.message(&texts), "Division by zero");
    let e4 = RuntimeError::R004 { index: 7, len: 3 };
    assert_eq!(e4.message(&texts), "List index out of bounds: 7 of 3");
    let e10 = RuntimeError::R010 { rule: s("r"), reason: s("no auth") };
    assert_eq!(e10.code(), "L039");
    assert_eq!(
        e10.message(&texts),
        "Security violation in rule 'r': no auth. Write action blocked by auth context."
    );
    assert_eq!(RuntimeError::R017 { target: s("t"), reason: s("full") }.code(), "L066");
}

// ---- standard library schemas ----

#[test]
fn lsl_registry_resolves_known_paths() {
    let reg = LslRegistry::new();
    let server = reg.resolve("LSL::datacenter::Server").unwrap();
    assert_eq!(server.name, "Server");
    assert!(reg.get_fields("LSL::k8s::Pod").is_some());
    assert!(reg.resolve("LSL::nowhere::Thing").is_none());
    assert!(reg.get_fields("Server").is_none());
    let list = reg.list_schemas();
    assert_eq!(list.len(), 12);
    let mut sorted = list.clone();
    sorted.sort();
    assert_eq!(list, sorted);
    assert!(list.contains(&s("LSL::power::Generator")));
}

// ---- adapters ----

#[test]
fn ping_adapter_turns_results_into_updates() {
    let mut a = PingAdapter::new("Host");
    assert_eq!(a.entity_name(), "Host");
    a.add_target("web", "10.0.0.1");
    a.on_write("db", "target", &Value::Text(s("10.0.0.2")));
    a.on_write("db", "name", &Value::Text(s("ignored")));
    a.on_write("cache", "target", &Value::Bool(true));
    assert_eq!(a.targets.len(), 2);
    assert_eq!(a.targets.get("db"), Some(&s("10.0.0.2")));
    let ups = a.poll_updates(&vec![true, false]);
    assert_eq!(ups.len(), 4);
    assert_eq!(ups[0], (s("web"), s("up"), Value::Bool(true)));
    assert_eq!(ups[1], (s("web"), s("status"), Value::Text(s("online"))));
    assert_eq!(ups[2], (s("db"), s("up"), Value::Bool(false)));
    assert_eq!(ups[3], (s("db"), s("status"), Value::Text(s("offline"))));
}

#[test]
fn static_adapter_hands_out_queue_once() {
    let mut a = StaticAdapter::new("Sensor");
    assert_eq!(a.entity_name(), "Sensor");
    a.push("s1", "temp", Value::Number(20f64.to_bits()));
    a.push("s2", "temp", Value::Unknown);
    let first = a.poll();
    assert_eq!(first.len(), 2);
    assert_eq!(first[1], (s("s2"), s("temp"), Value::Unknown));
    assert!(a.poll().is_empty());
}

// ---- state store ----

#[test]
fn state_store_metadata_round_trip() {
    let mut st = StateStore::new();
    assert!(st.get_metadata("vm1").is_none());
    let mut meta: StrMap<Value> = StrMap::new();
    meta.insert(s("region"), Value::Text(s("eu")));
    st.set_metadata("vm1", meta);
    assert_eq!(st.get_metadata("vm1").unwrap().get("region"), Some(&Value::Text(s("eu"))));
    st.remove_metadata("vm1");
    assert!(st.get_metadata("vm1").is_none());
    st.remove_metadata("never");
}

// ---- associative map ----

#[test]
fn str_map_keeps_insertion_order() {
    let mut m: StrMap<u32> = StrMap::new();
    m.insert(s("b"), 1);
    m.insert(s("a"), 2);
    m.insert(s("b"), 3);
    assert_eq!(m.len(), 2);
    assert_eq!(m.keys(), vec![s("b"), s("a")]);
    assert_eq!(m.get("b"), Some(&3));
    assert_eq!(m.remove("b"), Some(3));
    assert_eq!(m.keys(), vec![s("a")]);
    assert!(!m.contains_key("b"));
    assert_eq!(m.find("a"), Some(0));
}

#[test]
fn names_debug_quotes_each_name() {
    use_names_debug();
}

fn use_names_debug() {
    let v = vec![s("a"), s("bc")];
    assert_eq!(lumina::analyzer::infer::names_debug(&v), format!("{:?}", v));
    let e: Vec<String> = vec![];
    assert_eq!(lumina::analyzer::infer::names_debug(&e), "[]");
}

#[test]
fn debug_renderings_match_rust() {
    let names: Vec<String> = vec![
        "plain".to_string(),
        "q\"uote".to_string(),
        "back\\slash".to_string(),
        "tab\tnl\ncr\r".to_string(),
        "nul\0bell\u{7}del\u{7f}esc\u{1b}".to_string(),
        "caf\u{e9}".to_string(),
    ];
    assert_eq!(lumina::analyzer::infer::names_debug(&names), format!("{:?}", names));
    for n in &names {
        assert_eq!(lumina::text::debug_quoted(n), format!("{:?}", n));
        let t = lumina::ast::LuminaType::List(Box::new(lumina::ast::LuminaType::Entity(n.clone())));
        assert_eq!(lumina::analyzer::infer::ty_debug(&t), format!("{:?}", t));
    }
}
