use lumina::ast::{
    AggregateDecl, AggregateExpr, AggregateField, AggregateScope, BinOp, DerivedField, Duration,
    EntityDecl, Expr, Field, FieldMetadata, ImportDecl, LetStmt, LetValue, LuminaType, Program,
    RefField, Span, Statement, StoredField, StringSegment, TimeUnit,
};
use lumina::format::{
    format_aggregate, format_duration, format_entity, format_expr, format_program, format_type,
    join_strings, NumberTexts,
};
use lumina::numbers::collect_numbers;

fn sp() -> Span {
    Span { start: 0, end: 0, line: 1, col: 1 }
}

fn s(x: &str) -> String {
    x.to_string()
}

fn no_meta() -> FieldMetadata {
    FieldMetadata { doc: None, range: None, affects: vec![] }
}

/// Texts of whole numbers as the command line renders them.
fn texts(nums: &[f64]) -> NumberTexts {
    NumberTexts { entries: nums.iter().map(|n| (n.to_bits(), format!("{}", *n as i64))).collect() }
}

fn num(x: f64) -> Expr {
    Expr::Number(x.to_bits())
}

#[test]
fn format_type_names() {
    assert_eq!(format_type(&LuminaType::Number), "Number");
    assert_eq!(format_type(&LuminaType::Entity(s("Server"))), "Server");
    assert_eq!(
        format_type(&LuminaType::List(Box::new(LuminaType::List(Box::new(LuminaType::Text))))),
        "Text[][]"
    );
}

#[test]
fn format_aggregate_fields() {
    let a = AggregateDecl {
        name: s("Fleet"),
        over: s("Server"),
        fields: vec![
            AggregateField { name: s("avg_cpu"), expr: AggregateExpr::Avg(s("cpu")), span: sp() },
            AggregateField { name: s("n"), expr: AggregateExpr::Count(None), span: sp() },
            AggregateField { name: s("hot"), expr: AggregateExpr::Any(s("overheating")), span: sp() },
        ],
        scope: AggregateScope::Region(s("eu")),
        span: sp(),
    };
    assert_eq!(
        format_aggregate(&a),
        "aggregate Fleet over Server region[\"eu\"] {\n  avg_cpu := avg(cpu)\n  n := count()\n  hot := any(overheating)\n}"
    );
}

#[test]
fn format_expressions() {
    let t = texts(&[1.0, 80.0, 5.0]);
    let e = Expr::Binary {
        op: BinOp::Gt,
        left: Box::new(Expr::FieldAccess { obj: Box::new(Expr::Ident(s("s"))), field: s("temp"), span: sp() }),
        right: Box::new(num(80.0)),
        span: sp(),
    };
    assert_eq!(format_expr(&e, &t), "s.temp > 80");
    let call = Expr::Call { name: s("max"), args: vec![num(1.0), Expr::Bool(true)], span: sp() };
    assert_eq!(format_expr(&call, &t), "max(1, true)");
    let interp = Expr::InterpolatedString(vec![
        StringSegment::Literal(s("t=")),
        StringSegment::Expr(Box::new(Expr::Ident(s("x")))),
    ]);
    assert_eq!(format_expr(&interp, &t), "\"t={x}\"");
    let list = Expr::ListLiteral(vec![num(1.0), Expr::Text(s("a"))]);
    assert_eq!(format_expr(&list, &t), "[1, \"a\"]");
    let d = Duration { value: 5f64.to_bits(), unit: TimeUnit::Minutes };
    assert_eq!(format_duration(&d, &t), "5 m");
    assert_eq!(format_expr(&Expr::Prev { field: s("temp"), span: sp() }, &t), "prev(temp)");
}

#[test]
fn format_entity_with_metadata() {
    let t = texts(&[0.0, 100.0, 2.0]);
    let e = EntityDecl {
        name: s("Sensor"),
        fields: vec![
            Field::Stored(StoredField {
                name: s("temp"),
                ty: LuminaType::Number,
                metadata: FieldMetadata { doc: Some(s("degrees")), range: Some((0f64.to_bits(), 100f64.to_bits())), affects: vec![] },
                span: sp(),
            }),
            Field::Derived(DerivedField {
                name: s("double"),
                expr: Expr::Binary { op: BinOp::Mul, left: Box::new(Expr::Ident(s("temp"))), right: Box::new(num(2.0)), span: sp() },
                metadata: no_meta(),
                span: sp(),
            }),
            Field::Ref(RefField { name: s("rack"), target_entity: s("Rack"), span: sp() }),
        ],
        span: sp(),
    };
    assert_eq!(
        format_entity(&e, &t),
        "entity Sensor {\n  @doc \"degrees\"\n  @range 0 to 100\n  temp: Number\n  double := temp * 2\n  rack: ref Rack\n}"
    );
}

#[test]
fn format_program_separates_statements() {
    let t = texts(&[3.0]);
    let p = Program {
        statements: vec![
            Statement::Import(ImportDecl { path: s("lib.lum"), namespace: None, span: sp() }),
            Statement::Let(LetStmt { name: s("x"), value: LetValue::Expr(num(3.0)), span: sp() }),
        ],
        span: sp(),
    };
    assert_eq!(format_program(&p, &t), "import \"lib.lum\"\n\nlet x = 3\n");
    let nums = collect_numbers(&p);
    assert!(nums.contains(&3f64.to_bits()));
    assert!(nums.iter().all(|b| *b == 3f64.to_bits()));
}

#[test]
fn join_with_separator() {
    assert_eq!(join_strings(&vec![s("a"), s("b"), s("c")], ", "), "a, b, c");
    assert_eq!(join_strings(&vec![], ", "), "");
}

#[test]
fn missing_number_text_is_empty() {
    let t = NumberTexts { entries: vec![] };
    assert_eq!(t.text_of(7f64.to_bits()), "");
    let t2 = NumberTexts { entries: vec![(1, s("one")), (1, s("uno"))] };
    assert_eq!(t2.text_of(1), "one");
}
