use lumina::ast::{Expr, ImportDecl, LetStmt, LetValue, Program, Span, Statement};
use lumina::loader::{merge, ModuleLoader, Visit};

fn sp() -> Span {
    Span { start: 0, end: 0, line: 0, col: 0 }
}

fn s(x: &str) -> String {
    x.to_string()
}

fn import(path: &str) -> Statement {
    Statement::Import(ImportDecl { path: s(path), namespace: None, span: sp() })
}

fn binding(name: &str) -> Statement {
    Statement::Let(LetStmt { name: s(name), value: LetValue::Expr(Expr::Bool(true)), span: sp() })
}

fn program(stmts: Vec<Statement>) -> Program {
    Program { statements: stmts, span: sp() }
}

fn names(p: &Program) -> Vec<String> {
    p.statements
        .iter()
        .map(|st| match st {
            Statement::Let(l) => l.name.clone(),
            _ => s("?"),
        })
        .collect()
}

#[test]
fn merge_drops_imports_and_keeps_order() {
    let a = program(vec![binding("a1"), import("x"), binding("a2")]);
    let b = program(vec![import("y"), binding("b1")]);
    let m = merge(vec![a, b]);
    assert_eq!(names(&m), vec![s("a1"), s("a2"), s("b1")]);
    assert_eq!(m.span, Span { start: 0, end: 0, line: 0, col: 0 });
}

/// main imports lib and util; util imports lib.
#[test]
fn loader_orders_dependencies_first() {
    let mut l = ModuleLoader::new();
    assert!(matches!(l.begin("/main.lum"), Visit::Enter));
    assert!(matches!(l.begin("/lib.lum"), Visit::Enter));
    l.finish("/lib.lum", program(vec![binding("lib")]), &vec![]);
    assert!(matches!(l.begin("/util.lum"), Visit::Enter));
    assert!(matches!(l.begin("/lib.lum"), Visit::Loaded));
    l.finish("/util.lum", program(vec![import("lib.lum"), binding("util")]), &vec![s("/lib.lum")]);
    l.finish(
        "/main.lum",
        program(vec![import("lib.lum"), import("util.lum"), binding("main")]),
        &vec![s("/lib.lum"), s("/util.lum")],
    );
    assert_eq!(l.order, vec![s("/lib.lum"), s("/util.lum"), s("/main.lum")]);
    assert!(l.in_stack.is_empty());
    let merged = l.merge();
    assert_eq!(names(&merged), vec![s("lib"), s("util"), s("main")]);
}

#[test]
fn loader_detects_cycles() {
    let mut l = ModuleLoader::new();
    assert!(matches!(l.begin("/a.lum"), Visit::Enter));
    assert!(matches!(l.begin("/b.lum"), Visit::Enter));
    match l.begin("/a.lum") {
        Visit::Cycle(m) => assert_eq!(m, "L016: circular import: /a.lum"),
        _ => panic!("expected a cycle"),
    }
    assert_eq!(l.in_stack, vec![s("/a.lum"), s("/b.lum")]);
}
