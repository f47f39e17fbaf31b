use vstd::prelude::*;

verus! {

/// A source position.
#[derive(Debug, Clone, Copy, PartialEq, Eq, Structural)]
pub struct Span {
    pub start: u32,
    pub end: u32,
    pub line: u32,
    pub col: u32,
}

impl Span {
    /// The span that points nowhere.
    pub fn default_span() -> (s: Span)
        ensures
            s == spec_default_span(),
    {
        Span { start: 0, end: 0, line: 0, col: 0 }
    }
}

pub open spec fn spec_default_span() -> Span {
    Span { start: 0, end: 0, line: 0, col: 0 }
}

/// A program: its statements in source order.
pub struct Program {
    pub statements: Vec<Statement>,
    pub span: Span,
}

/// The import declarations among the statements, in order.
pub open spec fn imports_of(stmts: Seq<Statement>) -> Seq<ImportDecl>
    decreases stmts.len(),
{
    if stmts.len() == 0 {
        Seq::empty()
    } else {
        let rest = imports_of(stmts.drop_last());
        match stmts.last() {
            Statement::Import(d) => rest.push(d),
            _ => rest,
        }
    }
}

impl Program {
    /// The import declarations, in order.
    pub fn imports(&self) -> (r: Vec<&ImportDecl>)
        ensures
            r@.map_values(|d: &ImportDecl| *d) == imports_of(self.statements@),
    {
        let mut out: Vec<&ImportDecl> = Vec::new();
        let n = self.statements.len();
        let mut i: usize = 0;
        while i < n
            invariant
                n == self.statements@.len(),
                i <= n,
                out@.map_values(|d: &ImportDecl| *d) == imports_of(self.statements@.take(i as int)),
            decreases n - i,
        {
            let ghost t = self.statements@.take(i + 1);
            assert(t.drop_last() =~= self.statements@.take(i as int));
            let ghost before = out@;
            match &self.statements[i] {
                Statement::Import(d) => {
                    out.push(d);
                    assert(out@.map_values(|d: &ImportDecl| *d) =~= before.map_values(
                        |d: &ImportDecl| *d,
                    ).push(*d));
                },
                _ => {},
            }
            i += 1;
        }
        assert(self.statements@.take(n as int) =~= self.statements@);
        out
    }
}

pub enum Statement {
    Entity(EntityDecl),
    ExternalEntity(ExternalEntityDecl),
    Let(LetStmt),
    Rule(RuleDecl),
    Action(Action),
    Fn(FnDecl),
    Import(ImportDecl),
    Aggregate(AggregateDecl),
    PluginImport(PluginImportDecl),
    Provider(ProviderDecl),
    Cluster(ClusterDecl),
}

pub struct FnDecl {
    pub name: String,
    pub params: Vec<FnParam>,
    pub returns: LuminaType,
    pub body: Expr,
    pub span: Span,
}

pub struct FnParam {
    pub name: String,
    pub type_: LuminaType,
    pub span: Span,
}

pub struct ImportDecl {
    pub path: String,
    /// Optional standard library namespace segments, e.g. ["LSL", "datacenter", "Server"].
    pub namespace: Option<Vec<String>>,
    pub span: Span,
}

pub struct PluginImportDecl {
    pub path: String,
    pub alias: String,
    pub span: Span,
}

pub struct ProviderDecl {
    pub protocol: String,
    pub config: Vec<ProviderConfigEntry>,
    pub span: Span,
}

pub struct ProviderConfigEntry {
    pub key: String,
    pub value: Expr,
    pub span: Span,
}

pub struct ClusterDecl {
    pub node_id: String,
    pub bind_addr: String,
    pub peers: Vec<String>,
    pub quorum: u32,
    pub election_timeout: Duration,
    pub span: Span,
}

pub struct EntityDecl {
    pub name: String,
    pub fields: Vec<Field>,
    pub span: Span,
}

pub enum Field {
    Stored(StoredField),
    Derived(DerivedField),
    Ref(RefField),
}

pub struct RefField {
    pub name: String,
    pub target_entity: String,
    pub span: Span,
}

pub struct StoredField {
    pub name: String,
    pub ty: LuminaType,
    pub metadata: FieldMetadata,
    pub span: Span,
}

pub struct DerivedField {
    pub name: String,
    pub expr: Expr,
    pub metadata: FieldMetadata,
    pub span: Span,
}

/// Field metadata (@doc / @range / @affects); range bounds are IEEE-754
/// double bit patterns.
pub struct FieldMetadata {
    pub doc: Option<String>,
    pub range: Option<(u64, u64)>,
    pub affects: Vec<String>,
}

#[derive(Debug, PartialEq)]
pub enum LuminaType {
    Text,
    Number,
    Boolean,
    Timestamp,
    Duration,
    Secret,
    Entity(String),
    List(Box<LuminaType>),
}

/// What a type denotes.
pub enum TyView {
    Text,
    Number,
    Boolean,
    Timestamp,
    Duration,
    Secret,
    Entity(Seq<char>),
    List(Box<TyView>),
}

pub open spec fn ty_view(t: LuminaType) -> TyView
    decreases t,
{
    match t {
        LuminaType::Text => TyView::Text,
        LuminaType::Number => TyView::Number,
        LuminaType::Boolean => TyView::Boolean,
        LuminaType::Timestamp => TyView::Timestamp,
        LuminaType::Duration => TyView::Duration,
        LuminaType::Secret => TyView::Secret,
        LuminaType::Entity(e) => TyView::Entity(e@),
        LuminaType::List(inner) => TyView::List(Box::new(ty_view(*inner))),
    }
}

impl View for LuminaType {
    type V = TyView;

    open spec fn view(&self) -> TyView {
        ty_view(*self)
    }
}

/// Whether two types are the same.
pub fn type_eq(a: &LuminaType, b: &LuminaType) -> (r: bool)
    ensures
        r == (a@ == b@),
    decreases a,
{
    match (a, b) {
        (LuminaType::Text, LuminaType::Text) => true,
        (LuminaType::Number, LuminaType::Number) => true,
        (LuminaType::Boolean, LuminaType::Boolean) => true,
        (LuminaType::Timestamp, LuminaType::Timestamp) => true,
        (LuminaType::Duration, LuminaType::Duration) => true,
        (LuminaType::Secret, LuminaType::Secret) => true,
        (LuminaType::Entity(x), LuminaType::Entity(y)) => crate::text::str_eq(x.as_str(), y.as_str()),
        (LuminaType::List(x), LuminaType::List(y)) => {
            let r = type_eq(x, y);
            proof {
                if !r {
                    assert(ty_view(**x) != ty_view(**y));
                }
            }
            r
        },
        _ => false,
    }
}

/// A copy of a type.
pub fn copy_type(t: &LuminaType) -> (r: LuminaType)
    ensures
        r@ == t@,
    decreases t,
{
    match t {
        LuminaType::Text => LuminaType::Text,
        LuminaType::Number => LuminaType::Number,
        LuminaType::Boolean => LuminaType::Boolean,
        LuminaType::Timestamp => LuminaType::Timestamp,
        LuminaType::Duration => LuminaType::Duration,
        LuminaType::Secret => LuminaType::Secret,
        LuminaType::Entity(e) => LuminaType::Entity(e.clone()),
        LuminaType::List(inner) => LuminaType::List(Box::new(copy_type(inner))),
    }
}

/// A resource entity: fields plus the state a provider is asked to ensure.
pub struct ResourceEntityDecl {
    pub name: String,
    pub provider: String,
    pub fields: Vec<Field>,
    pub desired_state: Vec<(String, Expr)>,
    pub span: Span,
}

pub struct ExternalEntityDecl {
    pub name: String,
    pub fields: Vec<Field>,
    pub sync_path: String,
    pub sync_strategy: SyncStrategy,
    pub sync_fields: Vec<String>,
    pub poll_interval: Option<Duration>,
    pub sync_timeout: Option<Duration>,
    pub fallible: bool,
    pub span: Span,
}

#[derive(Debug, Clone, Copy, PartialEq, Eq, Structural)]
pub enum SyncStrategy {
    Realtime,
    Poll,
    Webhook,
}

pub struct LetStmt {
    pub name: String,
    pub value: LetValue,
    pub span: Span,
}

pub enum LetValue {
    Expr(Expr),
    EntityInit(EntityInit),
}

pub struct EntityInit {
    pub entity_name: String,
    pub fields: Vec<(String, Expr)>,
    pub span: Span,
}

pub struct RuleDecl {
    pub name: String,
    pub param: Option<RuleParam>,
    pub trigger: RuleTrigger,
    pub actions: Vec<Action>,
    pub cooldown: Option<Duration>,
    pub on_clear: Option<Vec<Action>>,
    pub span: Span,
}

pub struct RuleParam {
    pub name: String,
    pub entity: String,
}

pub enum RuleTrigger {
    When(Vec<Condition>),
    Any(FleetCondition),
    All(FleetCondition),
    Every(Duration),
}

pub struct Condition {
    pub expr: Expr,
    pub becomes: Option<Expr>,
    pub for_duration: Option<Duration>,
    pub frequency: Option<Frequency>,
}

pub struct FleetCondition {
    pub entity: String,
    pub field: String,
    pub becomes: Expr,
    pub for_duration: Option<Duration>,
    pub frequency: Option<Frequency>,
}

pub struct Frequency {
    pub count: u32,
    pub within: Duration,
    pub span: Span,
}

/// A duration of `value` units; the value is an IEEE-754 double bit pattern.
#[derive(Debug, Clone, Copy, PartialEq, Eq, Structural)]
pub struct Duration {
    pub value: u64,
    pub unit: TimeUnit,
}

/// Whether the IEEE-754 double with bits `b` is zero or negative (NaN is neither).
pub open spec fn f64_bits_nonpositive(b: u64) -> bool {
    (b & 0x7fff_ffff_ffff_ffffu64) == 0 || ((b >> 63u64) == 1 && (b & 0x7fff_ffff_ffff_ffffu64)
        <= 0x7ff0_0000_0000_0000u64)
}

impl Duration {
    /// Whether the duration is at most zero seconds. Every unit is a whole,
    /// positive number of seconds, so this is whether the value is.
    pub fn is_nonpositive(&self) -> (r: bool)
        ensures
            r == f64_bits_nonpositive(self.value),
    {
        let b = self.value;
        (b & 0x7fff_ffff_ffff_ffffu64) == 0 || ((b >> 63u64) == 1 && (b & 0x7fff_ffff_ffff_ffffu64)
            <= 0x7ff0_0000_0000_0000u64)
    }
}

#[derive(Debug, Clone, Copy, PartialEq, Eq, Structural)]
pub enum TimeUnit {
    Seconds,
    Minutes,
    Hours,
    Days,
}

pub enum Action {
    Show(Expr),
    Update { target: FieldPath, value: Expr },
    Write { target: FieldPath, value: Expr },
    Create { entity: String, fields: Vec<(String, Expr)> },
    Delete(String),
    Alert(AlertAction),
}

pub struct AlertAction {
    pub severity: Expr,
    pub message: Expr,
    pub source: Option<Expr>,
    pub code: Option<Expr>,
    pub payload: Vec<(String, Expr)>,
    pub span: Span,
}

pub struct FieldPath {
    pub instance: String,
    pub field: String,
    pub sub_field: Option<String>,
    pub span: Span,
}

/// Expressions; number literals are IEEE-754 double bit patterns.
#[allow(inconsistent_fields)]
pub enum Expr {
    Number(u64),
    Text(String),
    Bool(bool),
    Ident(String),
    FieldAccess { obj: Box<Expr>, field: String, span: Span },
    Binary { op: BinOp, left: Box<Expr>, right: Box<Expr>, span: Span },
    Unary { op: UnOp, operand: Box<Expr>, span: Span },
    If { cond: Box<Expr>, then_: Box<Expr>, else_: Box<Expr>, span: Span },
    InterpolatedString(Vec<StringSegment>),
    Call { name: String, args: Vec<Expr>, span: Span },
    ListLiteral(Vec<Expr>),
    Index { list: Box<Expr>, index: Box<Expr>, span: Span },
    Duration(Duration),
    Prev { field: String, span: Span },
    /// Cluster state access: `cluster.{node_id}.{field}` or `cluster.all.{field}`.
    ClusterAccess { node_id: String, field: String, span: Span },
    /// Orchestration: `migrate(workloads, to: target)`.
    Migrate { workloads: Box<Expr>, target: Box<Expr>, span: Span },
    /// Orchestration: `evacuate(entities)`.
    Evacuate { entities: Box<Expr>, span: Span },
    /// Orchestration: `deploy(spec)`.
    Deploy { spec: Box<Expr>, span: Span },
}

pub enum StringSegment {
    Literal(String),
    Expr(Box<Expr>),
}

#[derive(Debug, Clone, Copy, PartialEq, Eq, Structural)]
pub enum BinOp {
    Add,
    Sub,
    Mul,
    Div,
    Mod,
    Eq,
    Ne,
    Gt,
    Lt,
    Ge,
    Le,
    And,
    Or,
}

pub open spec fn binop_symbol(op: BinOp) -> Seq<char> {
    match op {
        BinOp::Add => "+"@,
        BinOp::Sub => "-"@,
        BinOp::Mul => "*"@,
        BinOp::Div => "/"@,
        BinOp::Mod => "%"@,
        BinOp::Eq => "=="@,
        BinOp::Ne => "!="@,
        BinOp::Gt => ">"@,
        BinOp::Lt => "<"@,
        BinOp::Ge => ">="@,
        BinOp::Le => "<="@,
        BinOp::And => "and"@,
        BinOp::Or => "or"@,
    }
}

impl BinOp {
    /// The operator as it is written in source.
    pub fn symbol(&self) -> (s: &'static str)
        ensures
            s@ == binop_symbol(*self),
    {
        proof {
            reveal_strlit("+");
            reveal_strlit("-");
            reveal_strlit("*");
            reveal_strlit("/");
            reveal_strlit("%");
            reveal_strlit("==");
            reveal_strlit("!=");
            reveal_strlit(">");
            reveal_strlit("<");
            reveal_strlit(">=");
            reveal_strlit("<=");
            reveal_strlit("and");
            reveal_strlit("or");
        }
        match self {
            BinOp::Add => "+",
            BinOp::Sub => "-",
            BinOp::Mul => "*",
            BinOp::Div => "/",
            BinOp::Mod => "%",
            BinOp::Eq => "==",
            BinOp::Ne => "!=",
            BinOp::Gt => ">",
            BinOp::Lt => "<",
            BinOp::Ge => ">=",
            BinOp::Le => "<=",
            BinOp::And => "and",
            BinOp::Or => "or",
        }
    }
}

#[derive(Debug, Clone, Copy, PartialEq, Eq, Structural)]
pub enum UnOp {
    Neg,
    Not,
}

pub open spec fn unop_symbol(op: UnOp) -> Seq<char> {
    match op {
        UnOp::Neg => "-"@,
        UnOp::Not => "not"@,
    }
}

impl UnOp {
    /// The operator as it is written in source.
    pub fn symbol(&self) -> (s: &'static str)
        ensures
            s@ == unop_symbol(*self),
    {
        proof {
            reveal_strlit("-");
            reveal_strlit("not");
        }
        match self {
            UnOp::Neg => "-",
            UnOp::Not => "not",
        }
    }
}

pub struct AggregateDecl {
    pub name: String,
    pub over: String,
    pub fields: Vec<AggregateField>,
    pub scope: AggregateScope,
    pub span: Span,
}

/// Scope for aggregate computation.
pub enum AggregateScope {
    /// Local node only.
    Local,
    /// Across the entire cluster.
    Cluster,
    /// Scoped to a specific region.
    Region(String),
}

pub struct AggregateField {
    pub name: String,
    pub expr: AggregateExpr,
    pub span: Span,
}

pub enum AggregateExpr {
    Avg(String),
    Min(String),
    Max(String),
    Sum(String),
    Count(Option<String>),
    Any(String),
    All(String),
}


/// Two expressions are the same: the same variant throughout, with the same
/// texts, numbers, operators and spans.
pub open spec fn same_expr(a: Expr, b: Expr) -> bool
    decreases a, 2nat,
{
    match a {
        Expr::Number(x) => b matches Expr::Number(y) && x == y,
        Expr::Text(x) => b matches Expr::Text(y) && x@ == y@,
        Expr::Bool(x) => b matches Expr::Bool(y) && x == y,
        Expr::Ident(x) => b matches Expr::Ident(y) && x@ == y@,
        Expr::FieldAccess { obj, field, span } => b matches Expr::FieldAccess {
            obj: o2,
            field: f2,
            span: s2,
        } && same_expr(*obj, *o2) && field@ == f2@ && span == s2,
        Expr::Binary { op, left, right, span } => b matches Expr::Binary {
            op: op2,
            left: l2,
            right: r2,
            span: s2,
        } && op == op2 && same_expr(*left, *l2) && same_expr(*right, *r2) && span == s2,
        Expr::Unary { op, operand, span } => b matches Expr::Unary { op: op2, operand: o2, span: s2 }
            && op == op2 && same_expr(*operand, *o2) && span == s2,
        Expr::If { cond, then_, else_, span } => b matches Expr::If {
            cond: c2,
            then_: t2,
            else_: e2,
            span: s2,
        } && same_expr(*cond, *c2) && same_expr(*then_, *t2) && same_expr(*else_, *e2) && span
            == s2,
        Expr::InterpolatedString(segs) => b matches Expr::InterpolatedString(segs2) && same_segments(
            segs@,
            segs2@,
        ),
        Expr::Call { name, args, span } => b matches Expr::Call { name: n2, args: a2, span: s2 }
            && name@ == n2@ && same_exprs(args@, a2@) && span == s2,
        Expr::ListLiteral(elems) => b matches Expr::ListLiteral(e2) && same_exprs(elems@, e2@),
        Expr::Index { list, index, span } => b matches Expr::Index { list: l2, index: i2, span: s2 }
            && same_expr(*list, *l2) && same_expr(*index, *i2) && span == s2,
        Expr::Duration(d) => b matches Expr::Duration(d2) && d == d2,
        Expr::Prev { field, span } => b matches Expr::Prev { field: f2, span: s2 } && field@ == f2@
            && span == s2,
        Expr::ClusterAccess { node_id, field, span } => b matches Expr::ClusterAccess {
            node_id: n2,
            field: f2,
            span: s2,
        } && node_id@ == n2@ && field@ == f2@ && span == s2,
        Expr::Migrate { workloads, target, span } => b matches Expr::Migrate {
            workloads: w2,
            target: t2,
            span: s2,
        } && same_expr(*workloads, *w2) && same_expr(*target, *t2) && span == s2,
        Expr::Evacuate { entities, span } => b matches Expr::Evacuate { entities: e2, span: s2 }
            && same_expr(*entities, *e2) && span == s2,
        Expr::Deploy { spec, span } => b matches Expr::Deploy { spec: p2, span: s2 } && same_expr(
            *spec,
            *p2,
        ) && span == s2,
    }
}

/// Two lists of expressions are the same, element by element.
pub open spec fn same_exprs(a: Seq<Expr>, b: Seq<Expr>) -> bool
    decreases a, 1nat,
{
    if a.len() == 0 {
        b.len() == 0
    } else {
        b.len() == a.len() && same_exprs(a.drop_last(), b.drop_last()) && same_expr(
            a.last(),
            b.last(),
        )
    }
}

/// Two lists of string pieces are the same, piece by piece.
pub open spec fn same_segments(a: Seq<StringSegment>, b: Seq<StringSegment>) -> bool
    decreases a, 1nat,
{
    if a.len() == 0 {
        b.len() == 0
    } else {
        b.len() == a.len() && same_segments(a.drop_last(), b.drop_last()) && match a.last() {
            StringSegment::Literal(s) => b.last() matches StringSegment::Literal(s2) && s@ == s2@,
            StringSegment::Expr(e) => b.last() matches StringSegment::Expr(e2) && same_expr(*e, *e2),
        }
    }
}

/// A copy of an expression.
pub fn copy_expr(e: &Expr) -> (r: Expr)
    ensures
        same_expr(r, *e),
    decreases e, 0nat,
{
    match e {
        Expr::Number(n) => Expr::Number(*n),
        Expr::Text(s) => Expr::Text(s.clone()),
        Expr::Bool(b) => Expr::Bool(*b),
        Expr::Ident(s) => Expr::Ident(s.clone()),
        Expr::FieldAccess { obj, field, span } => Expr::FieldAccess {
            obj: Box::new(copy_expr(obj)),
            field: field.clone(),
            span: *span,
        },
        Expr::Binary { op, left, right, span } => Expr::Binary {
            op: *op,
            left: Box::new(copy_expr(left)),
            right: Box::new(copy_expr(right)),
            span: *span,
        },
        Expr::Unary { op, operand, span } => Expr::Unary {
            op: *op,
            operand: Box::new(copy_expr(operand)),
            span: *span,
        },
        Expr::If { cond, then_, else_, span } => Expr::If {
            cond: Box::new(copy_expr(cond)),
            then_: Box::new(copy_expr(then_)),
            else_: Box::new(copy_expr(else_)),
            span: *span,
        },
        Expr::InterpolatedString(segs) => Expr::InterpolatedString(copy_segments(segs)),
        Expr::Call { name, args, span } => Expr::Call {
            name: name.clone(),
            args: copy_exprs(args),
            span: *span,
        },
        Expr::ListLiteral(elems) => Expr::ListLiteral(copy_exprs(elems)),
        Expr::Index { list, index, span } => Expr::Index {
            list: Box::new(copy_expr(list)),
            index: Box::new(copy_expr(index)),
            span: *span,
        },
        Expr::Duration(d) => Expr::Duration(*d),
        Expr::Prev { field, span } => Expr::Prev { field: field.clone(), span: *span },
        Expr::ClusterAccess { node_id, field, span } => Expr::ClusterAccess {
            node_id: node_id.clone(),
            field: field.clone(),
            span: *span,
        },
        Expr::Migrate { workloads, target, span } => Expr::Migrate {
            workloads: Box::new(copy_expr(workloads)),
            target: Box::new(copy_expr(target)),
            span: *span,
        },
        Expr::Evacuate { entities, span } => Expr::Evacuate {
            entities: Box::new(copy_expr(entities)),
            span: *span,
        },
        Expr::Deploy { spec, span } => Expr::Deploy { spec: Box::new(copy_expr(spec)), span: *span },
    }
}

/// A copy of a list of expressions.
pub fn copy_exprs(v: &Vec<Expr>) -> (r: Vec<Expr>)
    ensures
        same_exprs(r@, v@),
    decreases v, 1nat,
{
    let mut out: Vec<Expr> = Vec::new();
    let n = v.len();
    let mut i: usize = 0;
    while i < n
        invariant
            n == v@.len(),
            i <= n,
            same_exprs(out@, v@.take(i as int)),
        decreases n - i,
    {
        assert(decreases_to!(v => v@[i as int]));
        let ghost before = out@;
        out.push(copy_expr(&v[i]));
        assert(out@.drop_last() =~= before);
        assert(v@.take(i + 1).drop_last() =~= v@.take(i as int));
        i += 1;
    }
    assert(v@.take(n as int) =~= v@);
    out
}

/// A copy of the pieces of an interpolated string.
pub fn copy_segments(v: &Vec<StringSegment>) -> (r: Vec<StringSegment>)
    ensures
        same_segments(r@, v@),
    decreases v, 1nat,
{
    let mut out: Vec<StringSegment> = Vec::new();
    let n = v.len();
    let mut i: usize = 0;
    while i < n
        invariant
            n == v@.len(),
            i <= n,
            same_segments(out@, v@.take(i as int)),
        decreases n - i,
    {
        let ghost before = out@;
        assert(v@.take(i + 1).drop_last() =~= v@.take(i as int));
        match &v[i] {
            StringSegment::Literal(s) => out.push(StringSegment::Literal(s.clone())),
            StringSegment::Expr(e) => {
                assert(decreases_to!(v => v@[i as int]));
                out.push(StringSegment::Expr(Box::new(copy_expr(e))));
            },
        }
        assert(out@.drop_last() =~= before);
        i += 1;
    }
    assert(v@.take(n as int) =~= v@);
    out
}

} // verus!
