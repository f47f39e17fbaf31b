use vstd::prelude::*;
use crate::analyzer::infer::{ty_debug, ty_debug_text};
use crate::ast::{
    AggregateDecl,
    AggregateExpr,
    AggregateField,
    ClusterDecl,
    Duration,
    Field,
    FnDecl,
    FnParam,
    LetStmt,
    LetValue,
    Program,
    RuleDecl,
    RuleTrigger,
    Span,
    Statement,
    TimeUnit,
};
use crate::format::{NumberTexts, num_text};
use crate::text::{debug_quoted, decimal, str_debug, u64_to_decimal};

verus! {

/// A place in a document: zero-based line and character.
#[derive(Debug, Clone, Copy, PartialEq, Eq, Structural)]
pub struct Position {
    pub line: u32,
    pub character: u32,
}

/// A one-based source coordinate made zero-based (0 stays 0).
pub open spec fn zero_based(x: u32) -> int {
    if x >= 1 {
        x - 1
    } else {
        0
    }
}

/// The length of a text in UTF-8 bytes, as `str::len` gives it.
pub open spec fn byte_len(s: Seq<char>) -> usize {
    vstd::utf8::encode_utf8(s).len() as usize
}

/// The position is on `line`, from column `col` up to `width` characters after it.
pub open spec fn within(pos: Position, line: int, col: int, width: int) -> bool {
    pos.line == line && col <= pos.character && pos.character <= col + width
}

pub open spec fn unit_debug_text(u: TimeUnit) -> Seq<char> {
    match u {
        TimeUnit::Seconds => "Seconds"@,
        TimeUnit::Minutes => "Minutes"@,
        TimeUnit::Hours => "Hours"@,
        TimeUnit::Days => "Days"@,
    }
}

/// A duration as `value Unit`, the value as its given text.
pub open spec fn duration_text(d: Duration, t: Seq<(u64, String)>) -> Seq<char> {
    num_text(t, d.value) + " "@ + unit_debug_text(d.unit)
}

// ---- fields -------------------------------------------------------------------

pub open spec fn field_span(f: Field) -> Span {
    match f {
        Field::Stored(sf) => sf.span,
        Field::Derived(df) => df.span,
        Field::Ref(rf) => rf.span,
    }
}

/// How many characters of a field's line the field covers (at least one).
pub open spec fn field_width(f: Field) -> int {
    let s = field_span(f);
    if s.end > s.start {
        s.end - s.start
    } else {
        1
    }
}

pub open spec fn field_hit(f: Field, pos: Position) -> bool {
    let s = field_span(f);
    within(pos, zero_based(s.line), zero_based(s.col), field_width(f))
}

pub open spec fn doc_part(doc: Option<String>) -> Seq<char> {
    match doc {
        Some(d) => "\n\n"@ + d@,
        None => Seq::empty(),
    }
}

pub open spec fn range_part(range: Option<(u64, u64)>, t: Seq<(u64, String)>) -> Seq<char> {
    match range {
        Some((lo, hi)) => "\n\nRange: "@ + num_text(t, lo) + " to "@ + num_text(t, hi),
        None => Seq::empty(),
    }
}

/// The hover of a field: its name and type, then its doc and range if it has them.
pub open spec fn field_hover_text(f: Field, t: Seq<(u64, String)>) -> Seq<char> {
    match f {
        Field::Stored(sf) => "**"@ + sf.name@ + "**: "@ + ty_debug_text(sf.ty) + doc_part(
            sf.metadata.doc,
        ) + range_part(sf.metadata.range, t),
        Field::Derived(df) => "**"@ + df.name@ + "**: derived"@ + doc_part(df.metadata.doc)
            + range_part(df.metadata.range, t),
        Field::Ref(rf) => "**"@ + rf.name@ + "**: ref "@ + rf.target_entity@,
    }
}

/// The hover of the first field under the position.
pub open spec fn fields_hover(fs: Seq<Field>, pos: Position, t: Seq<(u64, String)>) -> Option<
    Seq<char>,
>
    decreases fs.len(),
{
    if fs.len() == 0 {
        None
    } else if field_hit(fs[0], pos) {
        Some(field_hover_text(fs[0], t))
    } else {
        fields_hover(fs.drop_first(), pos, t)
    }
}

/// The hover of an entity: on its name a summary, else that of a field.
pub open spec fn entity_hover(
    name: Seq<char>,
    fields: Seq<Field>,
    span: Span,
    external: bool,
    pos: Position,
    t: Seq<(u64, String)>,
) -> Option<Seq<char>> {
    if within(pos, zero_based(span.line), zero_based(span.col), byte_len(name) as int) {
        let label = if external {
            "external entity"@
        } else {
            "entity"@
        };
        Some(
            "**"@ + label + "** `"@ + name + "` \u{2014} "@ + decimal(fields.len()) + " field(s)"@,
        )
    } else {
        fields_hover(fields, pos, t)
    }
}

// ---- rules ----------------------------------------------------------------------

pub open spec fn trigger_text(tr: RuleTrigger, t: Seq<(u64, String)>) -> Seq<char> {
    match tr {
        RuleTrigger::When(conds) => "when ("@ + decimal(conds@.len()) + " condition(s))"@,
        RuleTrigger::Any(fc) => "when any "@ + fc.entity@ + "."@ + fc.field@,
        RuleTrigger::All(fc) => "when all "@ + fc.entity@ + "."@ + fc.field@,
        RuleTrigger::Every(d) => "every "@ + duration_text(d, t),
    }
}

pub open spec fn rule_hover_text(r: RuleDecl, t: Seq<(u64, String)>) -> Seq<char> {
    let param = match r.param {
        Some(p) => "for ("@ + p.name@ + ": "@ + p.entity@ + ")"@,
        None => Seq::empty(),
    };
    let cooldown = match r.cooldown {
        Some(cd) => " | cooldown: "@ + duration_text(cd, t),
        None => Seq::empty(),
    };
    "**rule** `"@ + r.name@ + "` "@ + param + "\n\nTrigger: "@ + trigger_text(r.trigger, t)
        + "\n\n"@ + decimal(r.actions@.len()) + " action(s)"@ + cooldown
}

// ---- functions, bindings, aggregates, clusters ------------------------------------

/// The first `n` parameters as `name: Type`, separated by ", ".
pub open spec fn params_text(ps: Seq<FnParam>, n: int) -> Seq<char>
    decreases n,
{
    if n <= 0 || n > ps.len() {
        Seq::empty()
    } else if n == 1 {
        ps[0].name@ + ": "@ + ty_debug_text(ps[0].type_)
    } else {
        params_text(ps, n - 1) + ", "@ + ps[n - 1].name@ + ": "@ + ty_debug_text(ps[n - 1].type_)
    }
}

pub open spec fn fn_hover_text(f: FnDecl) -> Seq<char> {
    "**fn** `"@ + f.name@ + "`("@ + params_text(f.params@, f.params@.len() as int) + ") \u{2192} "@
        + ty_debug_text(f.returns)
}

pub open spec fn let_hover_text(l: LetStmt) -> Seq<char> {
    let value = match l.value {
        LetValue::EntityInit(init) => init.entity_name@ + " { "@ + decimal(init.fields@.len())
            + " field(s) }"@,
        LetValue::Expr(_) => "expression"@,
    };
    "**let** `"@ + l.name@ + "` = "@ + value
}

/// An aggregate function as its Debug rendering shows it.
pub open spec fn agg_debug_text(e: AggregateExpr) -> Seq<char> {
    match e {
        AggregateExpr::Avg(f) => "Avg("@ + str_debug(f@) + ")"@,
        AggregateExpr::Min(f) => "Min("@ + str_debug(f@) + ")"@,
        AggregateExpr::Max(f) => "Max("@ + str_debug(f@) + ")"@,
        AggregateExpr::Sum(f) => "Sum("@ + str_debug(f@) + ")"@,
        AggregateExpr::Count(Some(f)) => "Count(Some("@ + str_debug(f@) + "))"@,
        AggregateExpr::Count(None) => "Count(None)"@,
        AggregateExpr::Any(f) => "Any("@ + str_debug(f@) + ")"@,
        AggregateExpr::All(f) => "All("@ + str_debug(f@) + ")"@,
    }
}

/// The first `n` aggregate fields as `name: Function`, separated by "\n- ".
pub open spec fn agg_fields_text(fs: Seq<AggregateField>, n: int) -> Seq<char>
    decreases n,
{
    if n <= 0 || n > fs.len() {
        Seq::empty()
    } else if n == 1 {
        fs[0].name@ + ": "@ + agg_debug_text(fs[0].expr)
    } else {
        agg_fields_text(fs, n - 1) + "\n- "@ + fs[n - 1].name@ + ": "@ + agg_debug_text(
            fs[n - 1].expr,
        )
    }
}

pub open spec fn aggregate_hover_text(a: AggregateDecl) -> Seq<char> {
    "**aggregate** `"@ + a.name@ + "` over `"@ + a.over@ + "`\n\nFields:\n- "@ + agg_fields_text(
        a.fields@,
        a.fields@.len() as int,
    )
}

pub open spec fn cluster_hover_text(c: ClusterDecl, t: Seq<(u64, String)>) -> Seq<char> {
    "**cluster node** `"@ + c.node_id@ + "`\n\nPeers: "@ + decimal(c.peers@.len()) + "\nQuorum: "@
        + decimal(c.quorum as nat) + "\nElection Timeout: "@ + duration_text(c.election_timeout, t)
}

// ---- statements -------------------------------------------------------------------

/// The hover one statement gives at the position. Entities answer on their
/// name and fields; rules, functions, bindings, aggregates and cluster
/// declarations on their whole first line.
pub open spec fn stmt_hover(s: Statement, pos: Position, t: Seq<(u64, String)>) -> Option<Seq<char>> {
    match s {
        Statement::Entity(e) => entity_hover(e.name@, e.fields@, e.span, false, pos, t),
        Statement::ExternalEntity(e) => entity_hover(e.name@, e.fields@, e.span, true, pos, t),
        Statement::Rule(r) => if pos.line == zero_based(r.span.line) {
            Some(rule_hover_text(r, t))
        } else {
            None
        },
        Statement::Fn(f) => if pos.line == zero_based(f.span.line) {
            Some(fn_hover_text(f))
        } else {
            None
        },
        Statement::Let(l) => if pos.line == zero_based(l.span.line) {
            Some(let_hover_text(l))
        } else {
            None
        },
        Statement::Aggregate(a) => if pos.line == zero_based(a.span.line) {
            Some(aggregate_hover_text(a))
        } else {
            None
        },
        Statement::Cluster(c) => if pos.line == zero_based(c.span.line) {
            Some(cluster_hover_text(c, t))
        } else {
            None
        },
        _ => None,
    }
}

/// The hover of the first statement that has one at the position.
pub open spec fn program_hover(stmts: Seq<Statement>, pos: Position, t: Seq<(u64, String)>) -> Option<
    Seq<char>,
>
    decreases stmts.len(),
{
    if stmts.len() == 0 {
        None
    } else {
        match stmt_hover(stmts[0], pos, t) {
            Some(h) => Some(h),
            None => program_hover(stmts.drop_first(), pos, t),
        }
    }
}

pub open spec fn opt_text(o: Option<String>) -> Option<Seq<char>> {
    match o {
        Some(s) => Some(s@),
        None => None,
    }
}

// ---- the executable side ----------------------------------------------------------

fn zero_based_of(x: u32) -> (r: u32)
    ensures
        r == zero_based(x),
{
    if x >= 1 {
        x - 1
    } else {
        0
    }
}

fn unit_debug(u: TimeUnit) -> (s: &'static str)
    ensures
        s@ == unit_debug_text(u),
{
    match u {
        TimeUnit::Seconds => "Seconds",
        TimeUnit::Minutes => "Minutes",
        TimeUnit::Hours => "Hours",
        TimeUnit::Days => "Days",
    }
}

fn duration_string(d: &Duration, texts: &NumberTexts) -> (s: String)
    ensures
        s@ == duration_text(*d, texts.entries@),
{
    let mut s = texts.text_of(d.value);
    s.append(" ");
    s.append(unit_debug(d.unit));
    s
}

fn field_span_of(f: &Field) -> (s: Span)
    ensures
        s == field_span(*f),
{
    match f {
        Field::Stored(sf) => sf.span,
        Field::Derived(df) => df.span,
        Field::Ref(rf) => rf.span,
    }
}

fn is_field_hit(f: &Field, pos: Position) -> (b: bool)
    ensures
        b == field_hit(*f, pos),
{
    let s = field_span_of(f);
    let l = zero_based_of(s.line);
    let c = zero_based_of(s.col);
    let width: u32 = if s.end > s.start {
        s.end - s.start
    } else {
        1
    };
    pos.line == l && c <= pos.character && pos.character - c <= width
}

fn doc_string(doc: &Option<String>) -> (s: String)
    ensures
        s@ == doc_part(*doc),
{
    match doc {
        Some(d) => {
            let mut s = String::from_str("\n\n");
            s.append(d.as_str());
            s
        },
        None => String::new(),
    }
}

fn range_string(range: Option<(u64, u64)>, texts: &NumberTexts) -> (s: String)
    ensures
        s@ == range_part(range, texts.entries@),
{
    match range {
        Some((lo, hi)) => {
            let mut s = String::from_str("\n\nRange: ");
            let a = texts.text_of(lo);
            s.append(a.as_str());
            s.append(" to ");
            let b = texts.text_of(hi);
            s.append(b.as_str());
            s
        },
        None => String::new(),
    }
}

fn field_hover(f: &Field, texts: &NumberTexts) -> (s: String)
    ensures
        s@ == field_hover_text(*f, texts.entries@),
{
    let mut s = String::from_str("**");
    match f {
        Field::Stored(sf) => {
            s.append(sf.name.as_str());
            s.append("**: ");
            let ty = ty_debug(&sf.ty);
            s.append(ty.as_str());
            let d = doc_string(&sf.metadata.doc);
            s.append(d.as_str());
            let r = range_string(sf.metadata.range, texts);
            s.append(r.as_str());
        },
        Field::Derived(df) => {
            s.append(df.name.as_str());
            s.append("**: derived");
            let d = doc_string(&df.metadata.doc);
            s.append(d.as_str());
            let r = range_string(df.metadata.range, texts);
            s.append(r.as_str());
        },
        Field::Ref(rf) => {
            s.append(rf.name.as_str());
            s.append("**: ref ");
            s.append(rf.target_entity.as_str());
        },
    }
    s
}

fn entity_hover_of(
    name: &String,
    fields: &Vec<Field>,
    span: Span,
    external: bool,
    pos: Position,
    texts: &NumberTexts,
) -> (r: Option<String>)
    ensures
        opt_text(r) == entity_hover(name@, fields@, span, external, pos, texts.entries@),
{
    let el = zero_based_of(span.line);
    let ec = zero_based_of(span.col);
    let width = name.as_str().len();
    if pos.line == el && ec <= pos.character && ((pos.character - ec) as usize) <= width {
        let mut s = String::from_str("**");
        if external {
            s.append("external entity");
        } else {
            s.append("entity");
        }
        s.append("** `");
        s.append(name.as_str());
        s.append("` \u{2014} ");
        let n = u64_to_decimal(fields.len() as u64);
        s.append(n.as_str());
        s.append(" field(s)");
        return Some(s);
    }
    let n = fields.len();
    let mut i: usize = 0;
    assert(fields@.skip(0) =~= fields@);
    while i < n
        invariant
            n == fields@.len(),
            i <= n,
            !within(pos, zero_based(span.line), zero_based(span.col), byte_len(name@) as int),
            fields_hover(fields@, pos, texts.entries@) == fields_hover(
                fields@.skip(i as int),
                pos,
                texts.entries@,
            ),
        decreases n - i,
    {
        assert(fields@.skip(i as int)[0] == fields@[i as int]);
        assert(fields@.skip(i as int).drop_first() =~= fields@.skip(i + 1));
        if is_field_hit(&fields[i], pos) {
            return Some(field_hover(&fields[i], texts));
        }
        i += 1;
    }
    None
}

fn trigger_string(tr: &RuleTrigger, texts: &NumberTexts) -> (s: String)
    ensures
        s@ == trigger_text(*tr, texts.entries@),
{
    match tr {
        RuleTrigger::When(conds) => {
            let mut s = String::from_str("when (");
            let n = u64_to_decimal(conds.len() as u64);
            s.append(n.as_str());
            s.append(" condition(s))");
            s
        },
        RuleTrigger::Any(fc) => {
            let mut s = String::from_str("when any ");
            s.append(fc.entity.as_str());
            s.append(".");
            s.append(fc.field.as_str());
            s
        },
        RuleTrigger::All(fc) => {
            let mut s = String::from_str("when all ");
            s.append(fc.entity.as_str());
            s.append(".");
            s.append(fc.field.as_str());
            s
        },
        RuleTrigger::Every(d) => {
            let mut s = String::from_str("every ");
            let t = duration_string(d, texts);
            s.append(t.as_str());
            s
        },
    }
}

fn rule_hover(r: &RuleDecl, texts: &NumberTexts) -> (s: String)
    ensures
        s@ == rule_hover_text(*r, texts.entries@),
{
    let mut s = String::from_str("**rule** `");
    s.append(r.name.as_str());
    s.append("` ");
    match &r.param {
        Some(p) => {
            s.append("for (");
            s.append(p.name.as_str());
            s.append(": ");
            s.append(p.entity.as_str());
            s.append(")");
        },
        None => {},
    }
    s.append("\n\nTrigger: ");
    let tr = trigger_string(&r.trigger, texts);
    s.append(tr.as_str());
    s.append("\n\n");
    let n = u64_to_decimal(r.actions.len() as u64);
    s.append(n.as_str());
    s.append(" action(s)");
    match &r.cooldown {
        Some(cd) => {
            s.append(" | cooldown: ");
            let d = duration_string(cd, texts);
            s.append(d.as_str());
        },
        None => {},
    }
    s
}

fn fn_hover(f: &FnDecl) -> (s: String)
    ensures
        s@ == fn_hover_text(*f),
{
    let mut params = String::new();
    let n = f.params.len();
    let mut i: usize = 0;
    while i < n
        invariant
            n == f.params@.len(),
            i <= n,
            params@ == params_text(f.params@, i as int),
        decreases n - i,
    {
        if i > 0 {
            params.append(", ");
        }
        params.append(f.params[i].name.as_str());
        params.append(": ");
        let ty = ty_debug(&f.params[i].type_);
        params.append(ty.as_str());
        if i == 0 {
            assert(params@ =~= f.params@[0].name@ + ": "@ + ty_debug_text(f.params@[0].type_));
        }
        i += 1;
    }
    let mut s = String::from_str("**fn** `");
    s.append(f.name.as_str());
    s.append("`(");
    s.append(params.as_str());
    s.append(") \u{2192} ");
    let r = ty_debug(&f.returns);
    s.append(r.as_str());
    s
}

fn let_hover(l: &LetStmt) -> (s: String)
    ensures
        s@ == let_hover_text(*l),
{
    let mut s = String::from_str("**let** `");
    s.append(l.name.as_str());
    s.append("` = ");
    match &l.value {
        LetValue::EntityInit(init) => {
            s.append(init.entity_name.as_str());
            s.append(" { ");
            let n = u64_to_decimal(init.fields.len() as u64);
            s.append(n.as_str());
            s.append(" field(s) }");
        },
        LetValue::Expr(_) => {
            s.append("expression");
        },
    }
    s
}

fn agg_debug(e: &AggregateExpr) -> (s: String)
    ensures
        s@ == agg_debug_text(*e),
{
    let (head, arg, tail): (&str, Option<&String>, &str) = match e {
        AggregateExpr::Avg(f) => ("Avg(", Some(f), ")"),
        AggregateExpr::Min(f) => ("Min(", Some(f), ")"),
        AggregateExpr::Max(f) => ("Max(", Some(f), ")"),
        AggregateExpr::Sum(f) => ("Sum(", Some(f), ")"),
        AggregateExpr::Count(Some(f)) => ("Count(Some(", Some(f), "))"),
        AggregateExpr::Count(None) => ("Count(None)", None, ""),
        AggregateExpr::Any(f) => ("Any(", Some(f), ")"),
        AggregateExpr::All(f) => ("All(", Some(f), ")"),
    };
    let mut s = String::from_str(head);
    match arg {
        Some(f) => {
            let q = debug_quoted(f.as_str());
            s.append(q.as_str());
            s.append(tail);
        },
        None => {},
    }
    s
}

fn aggregate_hover(a: &AggregateDecl) -> (s: String)
    ensures
        s@ == aggregate_hover_text(*a),
{
    let mut fields = String::new();
    let n = a.fields.len();
    let mut i: usize = 0;
    while i < n
        invariant
            n == a.fields@.len(),
            i <= n,
            fields@ == agg_fields_text(a.fields@, i as int),
        decreases n - i,
    {
        if i > 0 {
            fields.append("\n- ");
        }
        fields.append(a.fields[i].name.as_str());
        fields.append(": ");
        let e = agg_debug(&a.fields[i].expr);
        fields.append(e.as_str());
        if i == 0 {
            assert(fields@ =~= a.fields@[0].name@ + ": "@ + agg_debug_text(a.fields@[0].expr));
        }
        i += 1;
    }
    let mut s = String::from_str("**aggregate** `");
    s.append(a.name.as_str());
    s.append("` over `");
    s.append(a.over.as_str());
    s.append("`\n\nFields:\n- ");
    s.append(fields.as_str());
    s
}

fn cluster_hover(c: &ClusterDecl, texts: &NumberTexts) -> (s: String)
    ensures
        s@ == cluster_hover_text(*c, texts.entries@),
{
    let mut s = String::from_str("**cluster node** `");
    s.append(c.node_id.as_str());
    s.append("`\n\nPeers: ");
    let p = u64_to_decimal(c.peers.len() as u64);
    s.append(p.as_str());
    s.append("\nQuorum: ");
    let q = u64_to_decimal(c.quorum as u64);
    s.append(q.as_str());
    s.append("\nElection Timeout: ");
    let d = duration_string(&c.election_timeout, texts);
    s.append(d.as_str());
    s
}

fn statement_hover(stmt: &Statement, pos: Position, texts: &NumberTexts) -> (r: Option<String>)
    ensures
        opt_text(r) == stmt_hover(*stmt, pos, texts.entries@),
{
    match stmt {
        Statement::Entity(e) => entity_hover_of(&e.name, &e.fields, e.span, false, pos, texts),
        Statement::ExternalEntity(e) => entity_hover_of(&e.name, &e.fields, e.span, true, pos, texts),
        Statement::Rule(r) => if pos.line == zero_based_of(r.span.line) {
            Some(rule_hover(r, texts))
        } else {
            None
        },
        Statement::Fn(f) => if pos.line == zero_based_of(f.span.line) {
            Some(fn_hover(f))
        } else {
            None
        },
        Statement::Let(l) => if pos.line == zero_based_of(l.span.line) {
            Some(let_hover(l))
        } else {
            None
        },
        Statement::Aggregate(a) => if pos.line == zero_based_of(a.span.line) {
            Some(aggregate_hover(a))
        } else {
            None
        },
        Statement::Cluster(c) => if pos.line == zero_based_of(c.span.line) {
            Some(cluster_hover(c, texts))
        } else {
            None
        },
        _ => None,
    }
}

/// The hover text (Markdown) at a position of the document: the first
/// statement, in order, that answers there. `src` is the document's text;
/// `texts` gives the text of each number shown.
pub fn hover_at(prog: &Program, src: &str, pos: Position, texts: &NumberTexts) -> (r: Option<String>)
    ensures
        opt_text(r) == program_hover(prog.statements@, pos, texts.entries@),
{
    let stmts = &prog.statements;
    let n = stmts.len();
    let mut i: usize = 0;
    assert(stmts@.skip(0) =~= stmts@);
    while i < n
        invariant
            n == stmts@.len(),
            stmts@ == prog.statements@,
            i <= n,
            program_hover(stmts@, pos, texts.entries@) == program_hover(
                stmts@.skip(i as int),
                pos,
                texts.entries@,
            ),
        decreases n - i,
    {
        assert(stmts@.skip(i as int)[0] == stmts@[i as int]);
        assert(stmts@.skip(i as int).drop_first() =~= stmts@.skip(i + 1));
        let h = statement_hover(&stmts[i], pos, texts);
        if h.is_some() {
            return h;
        }
        i += 1;
    }
    None
}

} // verus!
