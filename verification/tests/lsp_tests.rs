use lumina::ast::{
    Action, AggregateDecl, AggregateExpr, AggregateField, AggregateScope, ClusterDecl, Duration,
    EntityDecl, Expr, Field, FieldMetadata, FnDecl, FnParam, LetStmt, LetValue, LuminaType,
    Program, RefField, RuleDecl, RuleParam, RuleTrigger, Span, Statement, StoredField, TimeUnit,
};
use lumina::format::NumberTexts;
use lumina::lsp::hover::{hover_at, Position};
use lumina::lsp::symbols::{get_document_symbols, SymbolKind};

fn s(x: &str) -> String {
    x.to_string()
}

fn at(line: u32, col: u32, len: u32) -> Span {
    Span { start: 0, end: len, line, col }
}

fn texts() -> NumberTexts {
    NumberTexts {
        entries: vec![
            (0f64.to_bits(), s("0")),
            (120f64.to_bits(), s("120")),
            (5f64.to_bits(), s("5")),
            (30f64.to_bits(), s("30")),
        ],
    }
}

fn program() -> Program {
    let sensor = EntityDecl {
        name: s("Sensor"),
        fields: vec![
            Field::Stored(StoredField {
                name: s("temp"),
                ty: LuminaType::Number,
                metadata: FieldMetadata {
                    doc: Some(s("Celsius")),
                    range: Some((0f64.to_bits(), 120f64.to_bits())),
                    affects: vec![],
                },
                span: at(2, 3, 4),
            }),
            Field::Ref(RefField { name: s("rack"), target_entity: s("Rack"), span: at(3, 3, 4) }),
        ],
        span: at(1, 1, 0),
    };
    let rule = RuleDecl {
        name: s("hot"),
        param: Some(RuleParam { name: s("x"), entity: s("Sensor") }),
        trigger: RuleTrigger::Every(Duration { value: 5f64.to_bits(), unit: TimeUnit::Minutes }),
        actions: vec![Action::Delete(s("x"))],
        cooldown: Some(Duration { value: 30f64.to_bits(), unit: TimeUnit::Seconds }),
        on_clear: None,
        span: at(6, 1, 0),
    };
    let f = FnDecl {
        name: s("double"),
        params: vec![FnParam { name: s("n"), type_: LuminaType::Number, span: at(8, 11, 1) }],
        returns: LuminaType::Number,
        body: Expr::Ident(s("n")),
        span: at(8, 1, 0),
    };
    let l = LetStmt { name: s("limit"), value: LetValue::Expr(Expr::Bool(true)), span: at(10, 1, 0) };
    let a = AggregateDecl {
        name: s("Fleet"),
        over: s("Sensor"),
        fields: vec![
            AggregateField { name: s("avg_t"), expr: AggregateExpr::Avg(s("temp")), span: at(13, 3, 5) },
            AggregateField { name: s("n"), expr: AggregateExpr::Count(None), span: at(14, 3, 1) },
        ],
        scope: AggregateScope::Local,
        span: at(12, 1, 0),
    };
    let c = ClusterDecl {
        node_id: s("n1"),
        bind_addr: s("0.0.0.0:7000"),
        peers: vec![s("n2@10.0.0.2:7000")],
        quorum: 2,
        election_timeout: Duration { value: 5f64.to_bits(), unit: TimeUnit::Seconds },
        span: at(16, 1, 0),
    };
    Program {
        statements: vec![
            Statement::Entity(sensor),
            Statement::Rule(rule),
            Statement::Fn(f),
            Statement::Let(l),
            Statement::Aggregate(a),
            Statement::Cluster(c),
        ],
        span: at(1, 1, 0),
    }
}

fn hover(line: u32, character: u32) -> Option<String> {
    hover_at(&program(), "", Position { line, character }, &texts())
}

#[test]
fn hover_on_entity_name() {
    assert_eq!(hover(0, 0), Some(s("**entity** `Sensor` \u{2014} 2 field(s)")));
    assert_eq!(hover(0, 6), Some(s("**entity** `Sensor` \u{2014} 2 field(s)")));
    assert_eq!(hover(0, 7), None);
}

#[test]
fn hover_on_fields() {
    assert_eq!(hover(1, 2), Some(s("**temp**: Number\n\nCelsius\n\nRange: 0 to 120")));
    assert_eq!(hover(2, 6), Some(s("**rack**: ref Rack")));
    assert_eq!(hover(1, 1), None);
}

#[test]
fn hover_on_rule_fn_let() {
    assert_eq!(
        hover(5, 40),
        Some(s("**rule** `hot` for (x: Sensor)\n\nTrigger: every 5 Minutes\n\n1 action(s) | cooldown: 30 Seconds"))
    );
    assert_eq!(hover(7, 0), Some(s("**fn** `double`(n: Number) \u{2192} Number")));
    assert_eq!(hover(9, 3), Some(s("**let** `limit` = expression")));
}

#[test]
fn hover_on_aggregate_and_cluster() {
    assert_eq!(
        hover(11, 0),
        Some(s("**aggregate** `Fleet` over `Sensor`\n\nFields:\n- avg_t: Avg(\"temp\")\n- n: Count(None)"))
    );
    assert_eq!(
        hover(15, 0),
        Some(s("**cluster node** `n1`\n\nPeers: 1\nQuorum: 2\nElection Timeout: 5 Seconds"))
    );
    assert_eq!(hover(30, 0), None);
}

#[test]
fn outline_lists_declarations() {
    let syms = get_document_symbols(&program());
    assert_eq!(syms.len(), 4);
    assert_eq!(syms[0].name, "Sensor");
    assert_eq!(syms[0].detail, "Entity");
    assert_eq!(syms[0].kind, SymbolKind::Class);
    let children = syms[0].children.as_ref().unwrap();
    assert_eq!(children.len(), 2);
    assert_eq!(children[0].detail, "Stored Number");
    assert_eq!(children[0].kind, SymbolKind::Field);
    assert_eq!((children[0].line, children[0].character), (2, 3));
    assert_eq!(children[1].detail, "Ref Rack");
    assert_eq!(syms[1].name, "hot");
    assert_eq!(syms[1].kind, SymbolKind::Event);
    assert!(syms[1].children.is_none());
    assert_eq!(syms[2].detail, "Let Binding");
    assert_eq!(syms[3].detail, "Cluster Configuration");
    assert_eq!(syms[3].kind, SymbolKind::Module);
}
