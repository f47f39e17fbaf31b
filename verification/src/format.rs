use vstd::prelude::*;
use crate::ast::{
    Action,
    AggregateDecl,
    AggregateExpr,
    AggregateScope,
    ClusterDecl,
    Condition,
    Duration,
    EntityDecl,
    Expr,
    ExternalEntityDecl,
    Field,
    FieldMetadata,
    FleetCondition,
    FnDecl,
    FnParam,
    LetStmt,
    LetValue,
    LuminaType,
    Program,
    ProviderDecl,
    ResourceEntityDecl,
    RuleDecl,
    RuleTrigger,
    Statement,
    StringSegment,
    SyncStrategy,
    TimeUnit,
    binop_symbol,
    unop_symbol,
};
use crate::text::{decimal, u64_to_decimal, views};

verus! {

/// The text of each number literal, by its IEEE-754 bits. Rendering a
/// double is left to the caller; the formatter only places the texts.
pub struct NumberTexts {
    pub entries: Vec<(u64, String)>,
}

/// The text given for `b` (the first entry for it), or nothing.
pub open spec fn num_text(t: Seq<(u64, String)>, b: u64) -> Seq<char>
    decreases t.len(),
{
    if t.len() == 0 {
        Seq::empty()
    } else if t[0].0 == b {
        t[0].1@
    } else {
        num_text(t.drop_first(), b)
    }
}

impl NumberTexts {
    /// The text given for the number with bits `b`.
    pub fn text_of(&self, b: u64) -> (r: String)
        ensures
            r@ == num_text(self.entries@, b),
    {
        let n = self.entries.len();
        let mut i: usize = 0;
        assert(self.entries@.skip(0) =~= self.entries@);
        while i < n
            invariant
                n == self.entries@.len(),
                i <= n,
                num_text(self.entries@, b) == num_text(self.entries@.skip(i as int), b),
            decreases n - i,
        {
            assert(self.entries@.skip(i as int)[0] == self.entries@[i as int]);
            assert(self.entries@.skip(i as int).drop_first() =~= self.entries@.skip(i + 1));
            if self.entries[i].0 == b {
                return self.entries[i].1.clone();
            }
            i += 1;
        }
        String::new()
    }
}

/// The pieces with `sep` between them.
pub open spec fn join(parts: Seq<Seq<char>>, sep: Seq<char>) -> Seq<char>
    decreases parts.len(),
{
    if parts.len() == 0 {
        Seq::empty()
    } else if parts.len() == 1 {
        parts[0]
    } else {
        join(parts.drop_last(), sep) + sep + parts.last()
    }
}

/// The strings with `sep` between them.
pub fn join_strings(parts: &Vec<String>, sep: &str) -> (r: String)
    ensures
        r@ == join(views(parts@), sep@),
{
    let mut out = String::new();
    let n = parts.len();
    let mut i: usize = 0;
    while i < n
        invariant
            n == parts@.len(),
            i <= n,
            out@ == join(views(parts@).take(i as int), sep@),
        decreases n - i,
    {
        let ghost v = views(parts@);
        assert(v.take(i + 1).drop_last() =~= v.take(i as int));
        if i > 0 {
            out.append(sep);
        } else {
            assert(out@ + v[0] =~= v[0]);
        }
        out.append(parts[i].as_str());
        i += 1;
    }
    assert(views(parts@).take(n as int) =~= views(parts@));
    out
}

pub open spec fn indent() -> Seq<char> {
    "  "@
}

/// A type as it is written.
pub open spec fn f_type(t: LuminaType) -> Seq<char>
    decreases t,
{
    match t {
        LuminaType::Text => "Text"@,
        LuminaType::Number => "Number"@,
        LuminaType::Boolean => "Boolean"@,
        LuminaType::Timestamp => "Timestamp"@,
        LuminaType::Duration => "Duration"@,
        LuminaType::Secret => "Secret"@,
        LuminaType::Entity(n) => n@,
        LuminaType::List(inner) => f_type(*inner) + "[]"@,
    }
}

/// A type as it is written.
pub fn format_type(ty: &LuminaType) -> (s: String)
    ensures
        s@ == f_type(*ty),
    decreases ty,
{
    match ty {
        LuminaType::Text => String::from_str("Text"),
        LuminaType::Number => String::from_str("Number"),
        LuminaType::Boolean => String::from_str("Boolean"),
        LuminaType::Timestamp => String::from_str("Timestamp"),
        LuminaType::Duration => String::from_str("Duration"),
        LuminaType::Secret => String::from_str("Secret"),
        LuminaType::Entity(n) => n.clone(),
        LuminaType::List(inner) => {
            let mut s = format_type(inner);
            s.append("[]");
            s
        },
    }
}

pub open spec fn unit_text(u: TimeUnit) -> Seq<char> {
    match u {
        TimeUnit::Seconds => "s"@,
        TimeUnit::Minutes => "m"@,
        TimeUnit::Hours => "h"@,
        TimeUnit::Days => "d"@,
    }
}

/// A duration: its number, a space, its unit.
pub open spec fn f_duration(d: Duration, t: Seq<(u64, String)>) -> Seq<char> {
    num_text(t, d.value) + " "@ + unit_text(d.unit)
}

pub fn format_duration(d: &Duration, texts: &NumberTexts) -> (s: String)
    ensures
        s@ == f_duration(*d, texts.entries@),
{
    let mut s = texts.text_of(d.value);
    s.append(" ");
    s.append(
        match d.unit {
            TimeUnit::Seconds => "s",
            TimeUnit::Minutes => "m",
            TimeUnit::Hours => "h",
            TimeUnit::Days => "d",
        },
    );
    s
}

/// An expression as it is written.
pub open spec fn f_expr(e: Expr, t: Seq<(u64, String)>) -> Seq<char>
    decreases e, 0nat, 0nat,
{
    match e {
        Expr::Number(n) => num_text(t, n),
        Expr::Text(s) => "\""@ + s@ + "\""@,
        Expr::Bool(b) => if b {
            "true"@
        } else {
            "false"@
        },
        Expr::Ident(name) => name@,
        Expr::FieldAccess { obj, field, .. } => f_expr(*obj, t) + "."@ + field@,
        Expr::Binary { op, left, right, .. } => f_expr(*left, t) + " "@ + binop_symbol(op) + " "@
            + f_expr(*right, t),
        Expr::Unary { op, operand, .. } => unop_symbol(op) + " "@ + f_expr(*operand, t),
        Expr::If { cond, then_, else_, .. } => "if "@ + f_expr(*cond, t) + " then "@ + f_expr(
            *then_,
            t,
        ) + " else "@ + f_expr(*else_, t),
        Expr::InterpolatedString(segs) => "\""@ + f_segs(segs@, segs@.len() as int, t) + "\""@,
        Expr::Call { name, args, .. } => name@ + "("@ + f_exprs(args@, args@.len() as int, t) + ")"@,
        Expr::ListLiteral(elems) => "["@ + f_exprs(elems@, elems@.len() as int, t) + "]"@,
        Expr::Index { list, index, .. } => f_expr(*list, t) + "["@ + f_expr(*index, t) + "]"@,
        Expr::Duration(d) => f_duration(d, t),
        Expr::Prev { field, .. } => "prev("@ + field@ + ")"@,
        Expr::ClusterAccess { node_id, field, .. } => "cluster."@ + node_id@ + "."@ + field@,
        Expr::Migrate { workloads, target, .. } => "migrate("@ + f_expr(*workloads, t) + ", to: "@
            + f_expr(*target, t) + ")"@,
        Expr::Evacuate { entities, .. } => "evacuate("@ + f_expr(*entities, t) + ")"@,
        Expr::Deploy { spec, .. } => "deploy("@ + f_expr(*spec, t) + ")"@,
    }
}

/// The first `n` expressions, separated by ", ".
pub open spec fn f_exprs(es: Seq<Expr>, n: int, t: Seq<(u64, String)>) -> Seq<char>
    decreases es, 1nat, n,
{
    if n <= 0 || n > es.len() {
        Seq::empty()
    } else if n == 1 {
        f_expr(es[0], t)
    } else {
        f_exprs(es, n - 1, t) + ", "@ + f_expr(es[n - 1], t)
    }
}

/// The first `n` pieces of an interpolated string: literal text as it is,
/// expressions in braces.
pub open spec fn f_segs(segs: Seq<StringSegment>, n: int, t: Seq<(u64, String)>) -> Seq<char>
    decreases segs, 1nat, n,
{
    if n <= 0 || n > segs.len() {
        Seq::empty()
    } else {
        f_segs(segs, n - 1, t) + match segs[n - 1] {
            StringSegment::Literal(s) => s@,
            StringSegment::Expr(e) => "{"@ + f_expr(*e, t) + "}"@,
        }
    }
}

/// An expression as it is written.
pub fn format_expr(expr: &Expr, texts: &NumberTexts) -> (s: String)
    ensures
        s@ == f_expr(*expr, texts.entries@),
    decreases expr, 0nat,
{
    match expr {
        Expr::Number(n) => texts.text_of(*n),
        Expr::Text(s) => {
            let mut out = String::from_str("\"");
            out.append(s.as_str());
            out.append("\"");
            out
        },
        Expr::Bool(b) => if *b {
            String::from_str("true")
        } else {
            String::from_str("false")
        },
        Expr::Ident(name) => name.clone(),
        Expr::FieldAccess { obj, field, .. } => {
            let mut out = format_expr(obj, texts);
            out.append(".");
            out.append(field.as_str());
            out
        },
        Expr::Binary { op, left, right, .. } => {
            let mut out = format_expr(left, texts);
            out.append(" ");
            out.append(op.symbol());
            out.append(" ");
            let r = format_expr(right, texts);
            out.append(r.as_str());
            out
        },
        Expr::Unary { op, operand, .. } => {
            let mut out = String::from_str(op.symbol());
            out.append(" ");
            let r = format_expr(operand, texts);
            out.append(r.as_str());
            out
        },
        Expr::If { cond, then_, else_, .. } => {
            let mut out = String::from_str("if ");
            let c = format_expr(cond, texts);
            out.append(c.as_str());
            out.append(" then ");
            let a = format_expr(then_, texts);
            out.append(a.as_str());
            out.append(" else ");
            let b = format_expr(else_, texts);
            out.append(b.as_str());
            out
        },
        Expr::InterpolatedString(segs) => {
            let mut out = String::from_str("\"");
            let body = format_segs(segs, texts);
            out.append(body.as_str());
            out.append("\"");
            out
        },
        Expr::Call { name, args, .. } => {
            let mut out = name.clone();
            out.append("(");
            let a = format_exprs(args, texts);
            out.append(a.as_str());
            out.append(")");
            out
        },
        Expr::ListLiteral(elems) => {
            let mut out = String::from_str("[");
            let a = format_exprs(elems, texts);
            out.append(a.as_str());
            out.append("]");
            out
        },
        Expr::Index { list, index, .. } => {
            let mut out = format_expr(list, texts);
            out.append("[");
            let i = format_expr(index, texts);
            out.append(i.as_str());
            out.append("]");
            out
        },
        Expr::Duration(d) => format_duration(d, texts),
        Expr::Prev { field, .. } => {
            let mut out = String::from_str("prev(");
            out.append(field.as_str());
            out.append(")");
            out
        },
        Expr::ClusterAccess { node_id, field, .. } => {
            let mut out = String::from_str("cluster.");
            out.append(node_id.as_str());
            out.append(".");
            out.append(field.as_str());
            out
        },
        Expr::Migrate { workloads, target, .. } => {
            let mut out = String::from_str("migrate(");
            let w = format_expr(workloads, texts);
            out.append(w.as_str());
            out.append(", to: ");
            let g = format_expr(target, texts);
            out.append(g.as_str());
            out.append(")");
            out
        },
        Expr::Evacuate { entities, .. } => {
            let mut out = String::from_str("evacuate(");
            let e = format_expr(entities, texts);
            out.append(e.as_str());
            out.append(")");
            out
        },
        Expr::Deploy { spec, .. } => {
            let mut out = String::from_str("deploy(");
            let e = format_expr(spec, texts);
            out.append(e.as_str());
            out.append(")");
            out
        },
    }
}

/// Expressions separated by ", ".
fn format_exprs(es: &Vec<Expr>, texts: &NumberTexts) -> (s: String)
    ensures
        s@ == f_exprs(es@, es@.len() as int, texts.entries@),
    decreases es, 1nat,
{
    let mut out = String::new();
    let n = es.len();
    let mut i: usize = 0;
    while i < n
        invariant
            n == es@.len(),
            i <= n,
            out@ == f_exprs(es@, i as int, texts.entries@),
        decreases n - i,
    {
        assert(decreases_to!(es => es@[i as int]));
        if i > 0 {
            out.append(", ");
        }
        let e = format_expr(&es[i], texts);
        if i == 0 {
            assert(out@ + e@ =~= e@);
        }
        out.append(e.as_str());
        i += 1;
    }
    out
}

/// The pieces of an interpolated string.
fn format_segs(segs: &Vec<StringSegment>, texts: &NumberTexts) -> (s: String)
    ensures
        s@ == f_segs(segs@, segs@.len() as int, texts.entries@),
    decreases segs, 1nat,
{
    let mut out = String::new();
    let n = segs.len();
    let mut i: usize = 0;
    while i < n
        invariant
            n == segs@.len(),
            i <= n,
            out@ == f_segs(segs@, i as int, texts.entries@),
        decreases n - i,
    {
        match &segs[i] {
            StringSegment::Literal(s) => {
                out.append(s.as_str());
            },
            StringSegment::Expr(e) => {
                assert(decreases_to!(segs => segs@[i as int]));
                let x = format_expr(e, texts);
                let ghost before = out@;
                out.append("{");
                out.append(x.as_str());
                out.append("}");
                assert(out@ =~= before + ("{"@ + x@ + "}"@));
            },
        }
        i += 1;
    }
    out
}

/// Metadata lines (`@doc`, `@range`, `@affects`), each indented.
pub open spec fn f_metadata(m: FieldMetadata, t: Seq<(u64, String)>) -> Seq<char> {
    (match m.doc {
        Some(d) => indent() + "@doc \""@ + d@ + "\"\n"@,
        None => Seq::empty(),
    }) + (match m.range {
        Some((lo, hi)) => indent() + "@range "@ + num_text(t, lo) + " to "@ + num_text(t, hi) + "\n"@,
        None => Seq::empty(),
    }) + (if m.affects@.len() > 0 {
        indent() + "@affects "@ + join(views(m.affects@), ", "@) + "\n"@
    } else {
        Seq::empty()
    })
}

pub fn format_metadata(meta: &FieldMetadata, texts: &NumberTexts) -> (s: String)
    ensures
        s@ == f_metadata(*meta, texts.entries@),
{
    let mut out = String::new();
    match &meta.doc {
        Some(doc) => {
            out.append("  @doc \"");
            out.append(doc.as_str());
            out.append("\"\n");
        },
        None => {},
    }
    match meta.range {
        Some((lo, hi)) => {
            out.append("  @range ");
            let x = texts.text_of(lo);
            out.append(x.as_str());
            out.append(" to ");
            let y = texts.text_of(hi);
            out.append(y.as_str());
            out.append("\n");
        },
        None => {},
    }
    if meta.affects.len() > 0 {
        out.append("  @affects ");
        let j = join_strings(&meta.affects, ", ");
        out.append(j.as_str());
        out.append("\n");
    }
    proof {
        reveal_strlit("  @doc \"");
        reveal_strlit("  @range ");
        reveal_strlit("  @affects ");
        reveal_strlit("  ");
        reveal_strlit("@doc \"");
        reveal_strlit("@range ");
        reveal_strlit("@affects ");
        assert(out@ =~= f_metadata(*meta, texts.entries@));
    }
    out
}

/// A field line (after its metadata lines).
pub open spec fn f_field(f: Field, t: Seq<(u64, String)>) -> Seq<char> {
    match f {
        Field::Stored(sf) => f_metadata(sf.metadata, t) + indent() + sf.name@ + ": "@ + f_type(sf.ty),
        Field::Derived(df) => f_metadata(df.metadata, t) + indent() + df.name@ + " := "@ + f_expr(
            df.expr,
            t,
        ),
        Field::Ref(r) => indent() + r.name@ + ": ref "@ + r.target_entity@,
    }
}

pub fn format_field(field: &Field, texts: &NumberTexts) -> (s: String)
    ensures
        s@ == f_field(*field, texts.entries@),
{
    proof {
        reveal_strlit("  ");
    }
    match field {
        Field::Stored(f) => {
            let mut out = format_metadata(&f.metadata, texts);
            out.append("  ");
            out.append(f.name.as_str());
            out.append(": ");
            let ty = format_type(&f.ty);
            out.append(ty.as_str());
            out
        },
        Field::Derived(f) => {
            let mut out = format_metadata(&f.metadata, texts);
            out.append("  ");
            out.append(f.name.as_str());
            out.append(" := ");
            let e = format_expr(&f.expr, texts);
            out.append(e.as_str());
            out
        },
        Field::Ref(r) => {
            let mut out = String::from_str("  ");
            out.append(r.name.as_str());
            out.append(": ref ");
            out.append(r.target_entity.as_str());
            out
        },
    }
}

/// The first `n` fields, each on its own line.
pub open spec fn f_fields(fs: Seq<Field>, n: int, t: Seq<(u64, String)>) -> Seq<char>
    decreases n,
{
    if n <= 0 || n > fs.len() {
        Seq::empty()
    } else {
        f_fields(fs, n - 1, t) + f_field(fs[n - 1], t) + "\n"@
    }
}

pub fn format_fields(fs: &Vec<Field>, texts: &NumberTexts) -> (s: String)
    ensures
        s@ == f_fields(fs@, fs@.len() as int, texts.entries@),
{
    let mut out = String::new();
    let n = fs.len();
    let mut i: usize = 0;
    while i < n
        invariant
            n == fs@.len(),
            i <= n,
            out@ == f_fields(fs@, i as int, texts.entries@),
        decreases n - i,
    {
        let f = format_field(&fs[i], texts);
        out.append(f.as_str());
        out.append("\n");
        i += 1;
    }
    out
}


/// `name: expr` entries, each on its own line after `ind`, ending in ",".
pub open spec fn f_entries(es: Seq<(String, Expr)>, n: int, ind: Seq<char>, t: Seq<(u64, String)>) -> Seq<char>
    decreases n,
{
    if n <= 0 || n > es.len() {
        Seq::empty()
    } else {
        f_entries(es, n - 1, ind, t) + ind + es[n - 1].0@ + ": "@ + f_expr(es[n - 1].1, t) + ",\n"@
    }
}

fn format_entries(es: &Vec<(String, Expr)>, ind: &str, texts: &NumberTexts) -> (s: String)
    ensures
        s@ == f_entries(es@, es@.len() as int, ind@, texts.entries@),
{
    let mut out = String::new();
    let n = es.len();
    let mut i: usize = 0;
    while i < n
        invariant
            n == es@.len(),
            i <= n,
            out@ == f_entries(es@, i as int, ind@, texts.entries@),
        decreases n - i,
    {
        out.append(ind);
        out.append(es[i].0.as_str());
        out.append(": ");
        let e = format_expr(&es[i].1, texts);
        out.append(e.as_str());
        out.append(",\n");
        i += 1;
    }
    out
}

pub open spec fn f_entity(e: EntityDecl, t: Seq<(u64, String)>) -> Seq<char> {
    "entity "@ + e.name@ + " {\n"@ + f_fields(e.fields@, e.fields@.len() as int, t) + "}"@
}

pub fn format_entity(e: &EntityDecl, texts: &NumberTexts) -> (s: String)
    ensures
        s@ == f_entity(*e, texts.entries@),
{
    let mut out = String::from_str("entity ");
    out.append(e.name.as_str());
    out.append(" {\n");
    let f = format_fields(&e.fields, texts);
    out.append(f.as_str());
    out.append("}");
    out
}

/// A resource entity: its fields, then the state to ensure.
pub open spec fn f_resource_entity(e: ResourceEntityDecl, t: Seq<(u64, String)>) -> Seq<char> {
    "resource entity "@ + e.name@ + " provider \""@ + e.provider@ + "\" {\n"@ + f_fields(
        e.fields@,
        e.fields@.len() as int,
        t,
    ) + (if e.desired_state@.len() > 0 {
        indent() + "ensure {\n"@ + f_entries(
            e.desired_state@,
            e.desired_state@.len() as int,
            "    "@,
            t,
        ) + indent() + "}\n"@
    } else {
        Seq::empty()
    }) + "}"@
}

pub fn format_resource_entity(e: &ResourceEntityDecl, texts: &NumberTexts) -> (s: String)
    ensures
        s@ == f_resource_entity(*e, texts.entries@),
{
    let mut out = String::from_str("resource entity ");
    out.append(e.name.as_str());
    out.append(" provider \"");
    out.append(e.provider.as_str());
    out.append("\" {\n");
    let f = format_fields(&e.fields, texts);
    out.append(f.as_str());
    let ghost before = out@;
    if e.desired_state.len() > 0 {
        out.append("  ");
        out.append("ensure {\n");
        let d = format_entries(&e.desired_state, "    ", texts);
        out.append(d.as_str());
        out.append("  ");
        out.append("}\n");
        assert(out@ =~= before + (indent() + "ensure {\n"@ + d@ + indent() + "}\n"@));
    } else {
        assert(out@ =~= before + Seq::<char>::empty());
    }
    out.append("}");
    out
}

pub open spec fn strategy_line(s: SyncStrategy) -> Seq<char> {
    match s {
        SyncStrategy::Realtime => Seq::empty(),
        SyncStrategy::Poll => indent() + "on: poll\n"@,
        SyncStrategy::Webhook => indent() + "on: webhook\n"@,
    }
}

/// The sync path and strategy lines of an external entity.
pub open spec fn f_sync_source(e: ExternalEntityDecl) -> Seq<char> {
    (if e.sync_path@.len() > 0 {
        indent() + "sync: \""@ + e.sync_path@ + "\"\n"@
    } else {
        Seq::empty()
    }) + strategy_line(e.sync_strategy)
}

/// The sync field, poll, timeout and fallible lines of an external entity.
pub open spec fn f_sync_timing(e: ExternalEntityDecl, t: Seq<(u64, String)>) -> Seq<char> {
    (if e.sync_fields@.len() > 0 {
        indent() + "sync_on ("@ + join(views(e.sync_fields@), ", "@) + ")\n"@
    } else {
        Seq::empty()
    }) + (match e.poll_interval {
        Some(d) => indent() + "poll_interval: "@ + f_duration(d, t) + "\n"@,
        None => Seq::empty(),
    }) + (match e.sync_timeout {
        Some(d) => indent() + "timeout "@ + f_duration(d, t) + "\n"@,
        None => Seq::empty(),
    }) + (if e.fallible {
        indent() + "fallible\n"@
    } else {
        Seq::empty()
    })
}

/// An external entity: fields, then its sync settings.
pub open spec fn f_external_entity(e: ExternalEntityDecl, t: Seq<(u64, String)>) -> Seq<char> {
    "external entity "@ + e.name@ + " {\n"@ + f_fields(e.fields@, e.fields@.len() as int, t)
        + f_sync_source(e) + f_sync_timing(e, t) + "}"@
}

fn format_sync_source(e: &ExternalEntityDecl) -> (s: String)
    ensures
        s@ == f_sync_source(*e),
{
    let mut out = String::new();
    if e.sync_path.unicode_len() > 0 {
        out.append("  ");
        out.append("sync: \"");
        out.append(e.sync_path.as_str());
        out.append("\"\n");
    }
    let ghost p1 = out@;
    match e.sync_strategy {
        SyncStrategy::Realtime => {},
        SyncStrategy::Poll => {
            out.append("  ");
            out.append("on: poll\n");
        },
        SyncStrategy::Webhook => {
            out.append("  ");
            out.append("on: webhook\n");
        },
    }
    assert(out@ =~= p1 + strategy_line(e.sync_strategy));
    assert(out@ =~= f_sync_source(*e));
    out
}

fn format_sync_timing(e: &ExternalEntityDecl, texts: &NumberTexts) -> (s: String)
    ensures
        s@ == f_sync_timing(*e, texts.entries@),
{
    let mut out = String::new();
    if e.sync_fields.len() > 0 {
        out.append("  ");
        out.append("sync_on (");
        let j = join_strings(&e.sync_fields, ", ");
        out.append(j.as_str());
        out.append(")\n");
    }
    let ghost p1 = out@;
    let mut b = String::new();
    match &e.poll_interval {
        Some(d) => {
            b.append("  ");
            b.append("poll_interval: ");
            let x = format_duration(d, texts);
            b.append(x.as_str());
            b.append("\n");
        },
        None => {},
    }
    let mut c = String::new();
    match &e.sync_timeout {
        Some(d) => {
            c.append("  ");
            c.append("timeout ");
            let x = format_duration(d, texts);
            c.append(x.as_str());
            c.append("\n");
        },
        None => {},
    }
    let mut f = String::new();
    if e.fallible {
        f.append("  ");
        f.append("fallible\n");
    }
    out.append(b.as_str());
    out.append(c.as_str());
    out.append(f.as_str());
    proof {
        assert(p1 =~= (if e.sync_fields@.len() > 0 {
            indent() + "sync_on ("@ + join(views(e.sync_fields@), ", "@) + ")\n"@
        } else {
            Seq::empty()
        }));
        assert(b@ =~= (match e.poll_interval {
            Some(d) => indent() + "poll_interval: "@ + f_duration(d, texts.entries@) + "\n"@,
            None => Seq::empty(),
        }));
        assert(c@ =~= (match e.sync_timeout {
            Some(d) => indent() + "timeout "@ + f_duration(d, texts.entries@) + "\n"@,
            None => Seq::empty(),
        }));
        assert(f@ =~= (if e.fallible {
            indent() + "fallible\n"@
        } else {
            Seq::empty()
        }));
    }
    out
}

pub fn format_external_entity(e: &ExternalEntityDecl, texts: &NumberTexts) -> (s: String)
    ensures
        s@ == f_external_entity(*e, texts.entries@),
{
    let mut out = String::from_str("external entity ");
    out.append(e.name.as_str());
    out.append(" {\n");
    let f = format_fields(&e.fields, texts);
    out.append(f.as_str());
    let a = format_sync_source(e);
    out.append(a.as_str());
    let b = format_sync_timing(e, texts);
    out.append(b.as_str());
    out.append("}");
    out
}


pub open spec fn f_let(l: LetStmt, t: Seq<(u64, String)>) -> Seq<char> {
    match l.value {
        LetValue::Expr(e) => "let "@ + l.name@ + " = "@ + f_expr(e, t),
        LetValue::EntityInit(init) => "let "@ + l.name@ + " = "@ + init.entity_name@ + " {\n"@
            + f_entries(init.fields@, init.fields@.len() as int, indent(), t) + "}"@,
    }
}

pub fn format_let(l: &LetStmt, texts: &NumberTexts) -> (s: String)
    ensures
        s@ == f_let(*l, texts.entries@),
{
    let mut out = String::from_str("let ");
    out.append(l.name.as_str());
    out.append(" = ");
    match &l.value {
        LetValue::Expr(e) => {
            let x = format_expr(e, texts);
            out.append(x.as_str());
        },
        LetValue::EntityInit(init) => {
            out.append(init.entity_name.as_str());
            out.append(" {\n");
            let x = format_entries(&init.fields, "  ", texts);
            out.append(x.as_str());
            out.append("}");
        },
    }
    out
}

pub open spec fn f_times(count: u32, within: Duration, t: Seq<(u64, String)>) -> Seq<char> {
    " "@ + decimal(count as nat) + " times within "@ + f_duration(within, t)
}

/// A `when` condition with its `becomes`, `for` and frequency parts.
pub open spec fn f_condition(c: Condition, t: Seq<(u64, String)>) -> Seq<char> {
    f_expr(c.expr, t) + (match c.becomes {
        Some(b) => " becomes "@ + f_expr(b, t),
        None => Seq::empty(),
    }) + (match c.for_duration {
        Some(d) => " for "@ + f_duration(d, t),
        None => Seq::empty(),
    }) + (match c.frequency {
        Some(f) => f_times(f.count, f.within, t),
        None => Seq::empty(),
    })
}

fn format_times(count: u32, within: &Duration, texts: &NumberTexts) -> (s: String)
    ensures
        s@ == f_times(count, *within, texts.entries@),
{
    let mut out = String::from_str(" ");
    let c = u64_to_decimal(count as u64);
    out.append(c.as_str());
    out.append(" times within ");
    let d = format_duration(within, texts);
    out.append(d.as_str());
    out
}

pub fn format_condition(c: &Condition, texts: &NumberTexts) -> (s: String)
    ensures
        s@ == f_condition(*c, texts.entries@),
{
    let mut out = format_expr(&c.expr, texts);
    let mut a = String::new();
    match &c.becomes {
        Some(b) => {
            a.append(" becomes ");
            let x = format_expr(b, texts);
            a.append(x.as_str());
        },
        None => {},
    }
    let mut b = String::new();
    match &c.for_duration {
        Some(d) => {
            b.append(" for ");
            let x = format_duration(d, texts);
            b.append(x.as_str());
        },
        None => {},
    }
    let f = match &c.frequency {
        Some(fr) => format_times(fr.count, &fr.within, texts),
        None => String::new(),
    };
    out.append(a.as_str());
    out.append(b.as_str());
    out.append(f.as_str());
    proof {
        assert(a@ =~= (match c.becomes {
            Some(b) => " becomes "@ + f_expr(b, texts.entries@),
            None => Seq::empty(),
        }));
        assert(b@ =~= (match c.for_duration {
            Some(d) => " for "@ + f_duration(d, texts.entries@),
            None => Seq::empty(),
        }));
    }
    out
}

/// A fleet condition: `entity.field becomes value` with its `for` and
/// frequency parts.
pub open spec fn f_fleet_condition(fc: FleetCondition, t: Seq<(u64, String)>) -> Seq<char> {
    fc.entity@ + "."@ + fc.field@ + " becomes "@ + f_expr(fc.becomes, t) + (match fc.for_duration {
        Some(d) => " for "@ + f_duration(d, t),
        None => Seq::empty(),
    }) + (match fc.frequency {
        Some(f) => f_times(f.count, f.within, t),
        None => Seq::empty(),
    })
}

pub fn format_fleet_condition(fc: &FleetCondition, texts: &NumberTexts) -> (s: String)
    ensures
        s@ == f_fleet_condition(*fc, texts.entries@),
{
    let mut out = fc.entity.clone();
    out.append(".");
    out.append(fc.field.as_str());
    out.append(" becomes ");
    let x = format_expr(&fc.becomes, texts);
    out.append(x.as_str());
    let mut b = String::new();
    match &fc.for_duration {
        Some(d) => {
            b.append(" for ");
            let y = format_duration(d, texts);
            b.append(y.as_str());
        },
        None => {},
    }
    let f = match &fc.frequency {
        Some(fr) => format_times(fr.count, &fr.within, texts),
        None => String::new(),
    };
    out.append(b.as_str());
    out.append(f.as_str());
    proof {
        assert(b@ =~= (match fc.for_duration {
            Some(d) => " for "@ + f_duration(d, texts.entries@),
            None => Seq::empty(),
        }));
    }
    out
}

/// The `, key: value` parts of an alert's payload, the first `n` of them.
pub open spec fn f_payload(es: Seq<(String, Expr)>, n: int, t: Seq<(u64, String)>) -> Seq<char>
    decreases n,
{
    if n <= 0 || n > es.len() {
        Seq::empty()
    } else {
        f_payload(es, n - 1, t) + ", "@ + es[n - 1].0@ + ": "@ + f_expr(es[n - 1].1, t)
    }
}

/// An action as it is written.
pub open spec fn f_action(a: Action, t: Seq<(u64, String)>) -> Seq<char> {
    match a {
        Action::Show(e) => "show "@ + f_expr(e, t),
        Action::Update { target, value } => "update "@ + target.instance@ + "."@ + target.field@
            + " to "@ + f_expr(value, t),
        Action::Write { target, value } => "write "@ + target.instance@ + "."@ + target.field@
            + " = "@ + f_expr(value, t),
        Action::Create { entity, fields } => "create "@ + entity@ + " {\n"@ + f_entries(
            fields@,
            fields@.len() as int,
            "    "@,
            t,
        ) + indent() + "}"@,
        Action::Delete(name) => "delete "@ + name@,
        Action::Alert(al) => "alert "@ + "severity: "@ + f_expr(al.severity, t) + ", message: "@
            + f_expr(al.message, t) + (match al.source {
            Some(x) => ", source: "@ + f_expr(x, t),
            None => Seq::empty(),
        }) + (match al.code {
            Some(x) => ", code: "@ + f_expr(x, t),
            None => Seq::empty(),
        }) + f_payload(al.payload@, al.payload@.len() as int, t),
    }
}

fn format_payload(es: &Vec<(String, Expr)>, texts: &NumberTexts) -> (s: String)
    ensures
        s@ == f_payload(es@, es@.len() as int, texts.entries@),
{
    let mut out = String::new();
    let n = es.len();
    let mut i: usize = 0;
    while i < n
        invariant
            n == es@.len(),
            i <= n,
            out@ == f_payload(es@, i as int, texts.entries@),
        decreases n - i,
    {
        out.append(", ");
        out.append(es[i].0.as_str());
        out.append(": ");
        let e = format_expr(&es[i].1, texts);
        out.append(e.as_str());
        i += 1;
    }
    out
}

pub fn format_action(action: &Action, texts: &NumberTexts) -> (s: String)
    ensures
        s@ == f_action(*action, texts.entries@),
{
    match action {
        Action::Show(e) => {
            let mut out = String::from_str("show ");
            let x = format_expr(e, texts);
            out.append(x.as_str());
            out
        },
        Action::Update { target, value } => {
            let mut out = String::from_str("update ");
            out.append(target.instance.as_str());
            out.append(".");
            out.append(target.field.as_str());
            out.append(" to ");
            let x = format_expr(value, texts);
            out.append(x.as_str());
            out
        },
        Action::Write { target, value } => {
            let mut out = String::from_str("write ");
            out.append(target.instance.as_str());
            out.append(".");
            out.append(target.field.as_str());
            out.append(" = ");
            let x = format_expr(value, texts);
            out.append(x.as_str());
            out
        },
        Action::Create { entity, fields } => {
            let mut out = String::from_str("create ");
            out.append(entity.as_str());
            out.append(" {\n");
            let x = format_entries(fields, "    ", texts);
            out.append(x.as_str());
            out.append("  ");
            out.append("}");
            out
        },
        Action::Delete(name) => {
            let mut out = String::from_str("delete ");
            out.append(name.as_str());
            out
        },
        Action::Alert(a) => {
            let mut out = String::from_str("alert ");
            out.append("severity: ");
            let x = format_expr(&a.severity, texts);
            out.append(x.as_str());
            out.append(", message: ");
            let y = format_expr(&a.message, texts);
            out.append(y.as_str());
            let mut src = String::new();
            match &a.source {
                Some(e) => {
                    src.append(", source: ");
                    let z = format_expr(e, texts);
                    src.append(z.as_str());
                },
                None => {},
            }
            let mut code = String::new();
            match &a.code {
                Some(e) => {
                    code.append(", code: ");
                    let z = format_expr(e, texts);
                    code.append(z.as_str());
                },
                None => {},
            }
            let p = format_payload(&a.payload, texts);
            out.append(src.as_str());
            out.append(code.as_str());
            out.append(p.as_str());
            proof {
                assert(src@ =~= (match a.source {
                    Some(x) => ", source: "@ + f_expr(x, texts.entries@),
                    None => Seq::empty(),
                }));
                assert(code@ =~= (match a.code {
                    Some(x) => ", code: "@ + f_expr(x, texts.entries@),
                    None => Seq::empty(),
                }));
            }
            out
        },
    }
}


/// The first `n` conditions of a `when`: the first after `when`, each other
/// on a new line after `and`.
pub open spec fn f_conds(cs: Seq<Condition>, n: int, t: Seq<(u64, String)>) -> Seq<char>
    decreases n,
{
    if n <= 0 || n > cs.len() {
        Seq::empty()
    } else if n == 1 {
        "when "@ + f_condition(cs[0], t)
    } else {
        f_conds(cs, n - 1, t) + "\nand "@ + f_condition(cs[n - 1], t)
    }
}

/// The first `n` actions, each indented on its own line.
pub open spec fn f_action_lines(acts: Seq<Action>, n: int, t: Seq<(u64, String)>) -> Seq<char>
    decreases n,
{
    if n <= 0 || n > acts.len() {
        Seq::empty()
    } else {
        f_action_lines(acts, n - 1, t) + indent() + f_action(acts[n - 1], t) + "\n"@
    }
}

pub open spec fn f_trigger(tr: RuleTrigger, t: Seq<(u64, String)>) -> Seq<char> {
    match tr {
        RuleTrigger::When(cs) => f_conds(cs@, cs@.len() as int, t),
        RuleTrigger::Any(fc) => "when any "@ + f_fleet_condition(fc, t),
        RuleTrigger::All(fc) => "when all "@ + f_fleet_condition(fc, t),
        RuleTrigger::Every(d) => "every "@ + f_duration(d, t),
    }
}

/// A rule: its head, its trigger, its actions, what it does on clearing,
/// and its cooldown.
pub open spec fn f_rule(r: RuleDecl, t: Seq<(u64, String)>) -> Seq<char> {
    "rule "@ + r.name@ + (match r.param {
        Some(p) => " for ("@ + p.name@ + ": "@ + p.entity@ + ")"@,
        None => Seq::empty(),
    }) + "\n"@ + f_trigger(r.trigger, t) + " {\n"@ + f_action_lines(
        r.actions@,
        r.actions@.len() as int,
        t,
    ) + "}"@ + (match r.on_clear {
        Some(acts) => " on clear {\n"@ + f_action_lines(acts@, acts@.len() as int, t) + "}"@,
        None => Seq::empty(),
    }) + (match r.cooldown {
        Some(d) => "\ncooldown "@ + f_duration(d, t),
        None => Seq::empty(),
    })
}

fn format_conds(cs: &Vec<Condition>, texts: &NumberTexts) -> (s: String)
    ensures
        s@ == f_conds(cs@, cs@.len() as int, texts.entries@),
{
    let mut out = String::new();
    let n = cs.len();
    let mut i: usize = 0;
    while i < n
        invariant
            n == cs@.len(),
            i <= n,
            out@ == f_conds(cs@, i as int, texts.entries@),
        decreases n - i,
    {
        let c = format_condition(&cs[i], texts);
        if i == 0 {
            out.append("when ");
            assert(out@ =~= "when "@);
        } else {
            out.append("\nand ");
        }
        out.append(c.as_str());
        i += 1;
    }
    out
}

fn format_action_lines(acts: &Vec<Action>, texts: &NumberTexts) -> (s: String)
    ensures
        s@ == f_action_lines(acts@, acts@.len() as int, texts.entries@),
{
    let mut out = String::new();
    let n = acts.len();
    let mut i: usize = 0;
    while i < n
        invariant
            n == acts@.len(),
            i <= n,
            out@ == f_action_lines(acts@, i as int, texts.entries@),
        decreases n - i,
    {
        out.append("  ");
        let a = format_action(&acts[i], texts);
        out.append(a.as_str());
        out.append("\n");
        i += 1;
    }
    out
}

fn format_trigger(tr: &RuleTrigger, texts: &NumberTexts) -> (s: String)
    ensures
        s@ == f_trigger(*tr, texts.entries@),
{
    match tr {
        RuleTrigger::When(cs) => format_conds(cs, texts),
        RuleTrigger::Any(fc) => {
            let mut out = String::from_str("when any ");
            let x = format_fleet_condition(fc, texts);
            out.append(x.as_str());
            out
        },
        RuleTrigger::All(fc) => {
            let mut out = String::from_str("when all ");
            let x = format_fleet_condition(fc, texts);
            out.append(x.as_str());
            out
        },
        RuleTrigger::Every(d) => {
            let mut out = String::from_str("every ");
            let x = format_duration(d, texts);
            out.append(x.as_str());
            out
        },
    }
}

pub fn format_rule(r: &RuleDecl, texts: &NumberTexts) -> (s: String)
    ensures
        s@ == f_rule(*r, texts.entries@),
{
    let mut out = String::from_str("rule ");
    out.append(r.name.as_str());
    let mut head = String::new();
    match &r.param {
        Some(p) => {
            head.append(" for (");
            head.append(p.name.as_str());
            head.append(": ");
            head.append(p.entity.as_str());
            head.append(")");
        },
        None => {},
    }
    out.append(head.as_str());
    out.append("\n");
    let tr = format_trigger(&r.trigger, texts);
    out.append(tr.as_str());
    out.append(" {\n");
    let body = format_action_lines(&r.actions, texts);
    out.append(body.as_str());
    out.append("}");
    let mut clear = String::new();
    match &r.on_clear {
        Some(acts) => {
            clear.append(" on clear {\n");
            let x = format_action_lines(acts, texts);
            clear.append(x.as_str());
            clear.append("}");
        },
        None => {},
    }
    let mut cd = String::new();
    match &r.cooldown {
        Some(d) => {
            cd.append("\ncooldown ");
            let x = format_duration(d, texts);
            cd.append(x.as_str());
        },
        None => {},
    }
    out.append(clear.as_str());
    out.append(cd.as_str());
    proof {
        assert(head@ =~= (match r.param {
            Some(p) => " for ("@ + p.name@ + ": "@ + p.entity@ + ")"@,
            None => Seq::empty(),
        }));
        assert(clear@ =~= (match r.on_clear {
            Some(acts) => " on clear {\n"@ + f_action_lines(acts@, acts@.len() as int, texts.entries@)
                + "}"@,
            None => Seq::empty(),
        }));
        assert(cd@ =~= (match r.cooldown {
            Some(d) => "\ncooldown "@ + f_duration(d, texts.entries@),
            None => Seq::empty(),
        }));
    }
    out
}

/// The first `n` parameters as `name: Type`, separated by ", ".
pub open spec fn f_params(ps: Seq<FnParam>, n: int) -> Seq<char>
    decreases n,
{
    if n <= 0 || n > ps.len() {
        Seq::empty()
    } else if n == 1 {
        ps[0].name@ + ": "@ + f_type(ps[0].type_)
    } else {
        f_params(ps, n - 1) + ", "@ + ps[n - 1].name@ + ": "@ + f_type(ps[n - 1].type_)
    }
}

pub open spec fn f_fn(f: FnDecl, t: Seq<(u64, String)>) -> Seq<char> {
    "fn "@ + f.name@ + "("@ + f_params(f.params@, f.params@.len() as int) + ") -> "@ + f_type(
        f.returns,
    ) + " {\n"@ + indent() + f_expr(f.body, t) + "\n"@ + "}"@
}

pub fn format_fn(f: &FnDecl, texts: &NumberTexts) -> (s: String)
    ensures
        s@ == f_fn(*f, texts.entries@),
{
    let mut params = String::new();
    let n = f.params.len();
    let mut i: usize = 0;
    while i < n
        invariant
            n == f.params@.len(),
            i <= n,
            params@ == f_params(f.params@, i as int),
        decreases n - i,
    {
        if i > 0 {
            params.append(", ");
        }
        let ghost before = params@;
        params.append(f.params[i].name.as_str());
        params.append(": ");
        let ty = format_type(&f.params[i].type_);
        params.append(ty.as_str());
        if i == 0 {
            assert(params@ =~= f.params@[0].name@ + ": "@ + f_type(f.params@[0].type_));
        }
        i += 1;
    }
    let mut out = String::from_str("fn ");
    out.append(f.name.as_str());
    out.append("(");
    out.append(params.as_str());
    out.append(") -> ");
    let r = format_type(&f.returns);
    out.append(r.as_str());
    out.append(" {\n");
    out.append("  ");
    let b = format_expr(&f.body, texts);
    out.append(b.as_str());
    out.append("\n");
    out.append("}");
    out
}

pub open spec fn f_agg_expr(e: AggregateExpr) -> Seq<char> {
    match e {
        AggregateExpr::Avg(f) => "avg("@ + f@ + ")"@,
        AggregateExpr::Min(f) => "min("@ + f@ + ")"@,
        AggregateExpr::Max(f) => "max("@ + f@ + ")"@,
        AggregateExpr::Sum(f) => "sum("@ + f@ + ")"@,
        AggregateExpr::Count(Some(f)) => "count("@ + f@ + ")"@,
        AggregateExpr::Count(None) => "count()"@,
        AggregateExpr::Any(f) => "any("@ + f@ + ")"@,
        AggregateExpr::All(f) => "all("@ + f@ + ")"@,
    }
}

pub open spec fn f_scope(s: AggregateScope) -> Seq<char> {
    match s {
        AggregateScope::Local => Seq::empty(),
        AggregateScope::Cluster => " cluster"@,
        AggregateScope::Region(r) => " region[\""@ + r@ + "\"]"@,
    }
}

pub open spec fn f_agg_fields(fs: Seq<crate::ast::AggregateField>, n: int) -> Seq<char>
    decreases n,
{
    if n <= 0 || n > fs.len() {
        Seq::empty()
    } else {
        f_agg_fields(fs, n - 1) + indent() + fs[n - 1].name@ + " := "@ + f_agg_expr(fs[n - 1].expr)
            + "\n"@
    }
}

/// An aggregate: its name, what it ranges over, its scope, and its fields.
pub open spec fn f_aggregate(a: AggregateDecl) -> Seq<char> {
    "aggregate "@ + a.name@ + " over "@ + a.over@ + f_scope(a.scope) + " {\n"@ + f_agg_fields(
        a.fields@,
        a.fields@.len() as int,
    ) + "}"@
}

fn format_agg_expr(e: &AggregateExpr) -> (s: String)
    ensures
        s@ == f_agg_expr(*e),
{
    let (head, arg): (&str, Option<&String>) = match e {
        AggregateExpr::Avg(f) => ("avg(", Some(f)),
        AggregateExpr::Min(f) => ("min(", Some(f)),
        AggregateExpr::Max(f) => ("max(", Some(f)),
        AggregateExpr::Sum(f) => ("sum(", Some(f)),
        AggregateExpr::Count(Some(f)) => ("count(", Some(f)),
        AggregateExpr::Count(None) => ("count()", None),
        AggregateExpr::Any(f) => ("any(", Some(f)),
        AggregateExpr::All(f) => ("all(", Some(f)),
    };
    let mut out = String::from_str(head);
    match arg {
        Some(f) => {
            out.append(f.as_str());
            out.append(")");
        },
        None => {},
    }
    out
}

pub fn format_aggregate(a: &AggregateDecl) -> (s: String)
    ensures
        s@ == f_aggregate(*a),
{
    let mut scope = String::new();
    match &a.scope {
        AggregateScope::Local => {},
        AggregateScope::Cluster => {
            scope.append(" cluster");
        },
        AggregateScope::Region(r) => {
            scope.append(" region[\"");
            scope.append(r.as_str());
            scope.append("\"]");
        },
    }
    assert(scope@ =~= f_scope(a.scope));
    let mut out = String::from_str("aggregate ");
    out.append(a.name.as_str());
    out.append(" over ");
    out.append(a.over.as_str());
    out.append(scope.as_str());
    out.append(" {\n");
    let mut fields = String::new();
    let n = a.fields.len();
    let mut i: usize = 0;
    while i < n
        invariant
            n == a.fields@.len(),
            i <= n,
            fields@ == f_agg_fields(a.fields@, i as int),
        decreases n - i,
    {
        fields.append("  ");
        fields.append(a.fields[i].name.as_str());
        fields.append(" := ");
        let x = format_agg_expr(&a.fields[i].expr);
        fields.append(x.as_str());
        fields.append("\n");
        i += 1;
    }
    out.append(fields.as_str());
    out.append("}");
    out
}

pub open spec fn f_provider_entries(es: Seq<crate::ast::ProviderConfigEntry>, n: int, t: Seq<(u64, String)>) -> Seq<char>
    decreases n,
{
    if n <= 0 || n > es.len() {
        Seq::empty()
    } else {
        f_provider_entries(es, n - 1, t) + indent() + es[n - 1].key@ + ":"@ + " "@ + f_expr(
            es[n - 1].value,
            t,
        ) + "\n"@
    }
}

pub open spec fn f_provider(p: ProviderDecl, t: Seq<(u64, String)>) -> Seq<char> {
    "provider \""@ + p.protocol@ + "\" {\n"@ + f_provider_entries(p.config@, p.config@.len() as int, t)
        + "}"@
}

pub fn format_provider(p: &ProviderDecl, texts: &NumberTexts) -> (s: String)
    ensures
        s@ == f_provider(*p, texts.entries@),
{
    let mut body = String::new();
    let n = p.config.len();
    let mut i: usize = 0;
    while i < n
        invariant
            n == p.config@.len(),
            i <= n,
            body@ == f_provider_entries(p.config@, i as int, texts.entries@),
        decreases n - i,
    {
        body.append("  ");
        body.append(p.config[i].key.as_str());
        body.append(":");
        body.append(" ");
        let x = format_expr(&p.config[i].value, texts);
        body.append(x.as_str());
        body.append("\n");
        i += 1;
    }
    let mut out = String::from_str("provider \"");
    out.append(p.protocol.as_str());
    out.append("\" {\n");
    out.append(body.as_str());
    out.append("}");
    out
}

/// The first `n` peers, each quoted, separated by ", ".
pub open spec fn f_peers(ps: Seq<String>, n: int) -> Seq<char>
    decreases n,
{
    if n <= 0 || n > ps.len() {
        Seq::empty()
    } else if n == 1 {
        "\""@ + ps[0]@ + "\""@
    } else {
        f_peers(ps, n - 1) + ", "@ + "\""@ + ps[n - 1]@ + "\""@
    }
}

pub open spec fn f_cluster(c: ClusterDecl, t: Seq<(u64, String)>) -> Seq<char> {
    "cluster {\n"@ + indent() + "node_id: \""@ + c.node_id@ + "\"\n"@ + indent() + "peers: ["@
        + f_peers(c.peers@, c.peers@.len() as int) + "]\n"@ + indent() + "quorum: "@ + decimal(
        c.quorum as nat,
    ) + "\n"@ + indent() + "election_timeout: "@ + f_duration(c.election_timeout, t) + "\n"@
        + "}"@
}

pub fn format_cluster(c: &ClusterDecl, texts: &NumberTexts) -> (s: String)
    ensures
        s@ == f_cluster(*c, texts.entries@),
{
    let mut peers = String::new();
    let n = c.peers.len();
    let mut i: usize = 0;
    while i < n
        invariant
            n == c.peers@.len(),
            i <= n,
            peers@ == f_peers(c.peers@, i as int),
        decreases n - i,
    {
        if i > 0 {
            peers.append(", ");
        }
        let ghost before = peers@;
        peers.append("\"");
        peers.append(c.peers[i].as_str());
        peers.append("\"");
        if i == 0 {
            assert(peers@ =~= "\""@ + c.peers@[0]@ + "\""@);
        }
        i += 1;
    }
    let mut out = String::from_str("cluster {\n");
    out.append("  ");
    out.append("node_id: \"");
    out.append(c.node_id.as_str());
    out.append("\"\n");
    out.append("  ");
    out.append("peers: [");
    out.append(peers.as_str());
    out.append("]\n");
    out.append("  ");
    out.append("quorum: ");
    let q = u64_to_decimal(c.quorum as u64);
    out.append(q.as_str());
    out.append("\n");
    out.append("  ");
    out.append("election_timeout: ");
    let d = format_duration(&c.election_timeout, texts);
    out.append(d.as_str());
    out.append("\n");
    out.append("}");
    out
}

/// A statement as it is written.
pub open spec fn f_statement(s: Statement, t: Seq<(u64, String)>) -> Seq<char> {
    match s {
        Statement::Entity(e) => f_entity(e, t),
        Statement::ExternalEntity(e) => f_external_entity(e, t),
        Statement::Let(l) => f_let(l, t),
        Statement::Rule(r) => f_rule(r, t),
        Statement::Action(a) => f_action(a, t),
        Statement::Fn(f) => f_fn(f, t),
        Statement::Import(i) => match i.namespace {
            Some(ns) => "import "@ + join(views(ns@), "::"@),
            None => "import \""@ + i.path@ + "\""@,
        },
        Statement::Aggregate(a) => f_aggregate(a),
        Statement::PluginImport(p) => "import plugin \""@ + p.path@ + "\" as "@ + p.alias@,
        Statement::Provider(p) => f_provider(p, t),
        Statement::Cluster(c) => f_cluster(c, t),
    }
}

pub fn format_statement(stmt: &Statement, texts: &NumberTexts) -> (s: String)
    ensures
        s@ == f_statement(*stmt, texts.entries@),
{
    match stmt {
        Statement::Entity(e) => format_entity(e, texts),
        Statement::ExternalEntity(e) => format_external_entity(e, texts),
        Statement::Let(l) => format_let(l, texts),
        Statement::Rule(r) => format_rule(r, texts),
        Statement::Action(a) => format_action(a, texts),
        Statement::Fn(f) => format_fn(f, texts),
        Statement::Import(i) => match &i.namespace {
            Some(ns) => {
                let mut out = String::from_str("import ");
                let j = join_strings(ns, "::");
                out.append(j.as_str());
                out
            },
            None => {
                let mut out = String::from_str("import \"");
                out.append(i.path.as_str());
                out.append("\"");
                out
            },
        },
        Statement::Aggregate(a) => format_aggregate(a),
        Statement::PluginImport(p) => {
            let mut out = String::from_str("import plugin \"");
            out.append(p.path.as_str());
            out.append("\" as ");
            out.append(p.alias.as_str());
            out
        },
        Statement::Provider(p) => format_provider(p, texts),
        Statement::Cluster(c) => format_cluster(c, texts),
    }
}

/// The first `n` statements, each followed by a newline, with a blank line
/// between two of them.
pub open spec fn f_program(stmts: Seq<Statement>, n: int, t: Seq<(u64, String)>) -> Seq<char>
    decreases n,
{
    if n <= 0 || n > stmts.len() {
        Seq::empty()
    } else {
        f_program(stmts, n - 1, t) + (if n > 1 {
            "\n"@
        } else {
            Seq::empty()
        }) + f_statement(stmts[n - 1], t) + "\n"@
    }
}

/// A program in canonical form.
pub fn format_program(program: &Program, texts: &NumberTexts) -> (s: String)
    ensures
        s@ == f_program(program.statements@, program.statements@.len() as int, texts.entries@),
{
    let mut out = String::new();
    let n = program.statements.len();
    let mut i: usize = 0;
    while i < n
        invariant
            n == program.statements@.len(),
            i <= n,
            out@ == f_program(program.statements@, i as int, texts.entries@),
        decreases n - i,
    {
        let ghost before = out@;
        if i > 0 {
            out.append("\n");
        } else {
            assert(out@ =~= before + Seq::<char>::empty());
        }
        let x = format_statement(&program.statements[i], texts);
        out.append(x.as_str());
        out.append("\n");
        i += 1;
    }
    out
}


/// A formatted condition starts with its expression and, when it has one,
/// ` becomes ` and its target; with no `becomes`, `for` or frequency it is
/// just the expression.
pub proof fn law_condition_text(c: Condition, t: Seq<(u64, String)>)
    ensures
        ({
            let head = match c.becomes {
                Some(b) => f_expr(c.expr, t) + " becomes "@ + f_expr(b, t),
                None => f_expr(c.expr, t),
            };
            head.len() <= f_condition(c, t).len() && f_condition(c, t).subrange(0, head.len() as int) == head
        }),
        c.for_duration is None && c.frequency is None ==> f_condition(c, t) == match c.becomes {
            Some(b) => f_expr(c.expr, t) + " becomes "@ + f_expr(b, t),
            None => f_expr(c.expr, t),
        },
{
    let head = match c.becomes {
        Some(b) => f_expr(c.expr, t) + " becomes "@ + f_expr(b, t),
        None => f_expr(c.expr, t),
    };
    let tail1: Seq<char> = match c.for_duration {
        Some(d) => " for "@ + f_duration(d, t),
        None => Seq::empty(),
    };
    let tail2: Seq<char> = match c.frequency {
        Some(f) => f_times(f.count, f.within, t),
        None => Seq::empty(),
    };
    match c.becomes {
        Some(b) => {
            assert(f_condition(c, t) =~= head + tail1 + tail2);
        },
        None => {
            assert(f_condition(c, t) =~= head + Seq::<char>::empty() + tail1 + tail2);
        },
    }
    assert((head + tail1 + tail2).subrange(0, head.len() as int) =~= head);
    if c.for_duration is None && c.frequency is None {
        assert(head + tail1 + tail2 =~= head);
    }
}


/// A binary expression is written as its left operand, the operator's
/// symbol and its right operand, separated by single spaces, and each
/// operator has its own symbol as Lumina writes it.
pub proof fn law_binary_text(op: crate::ast::BinOp, l: Expr, r: Expr, span: crate::ast::Span, t: Seq<(u64, String)>)
    ensures
        f_expr(Expr::Binary { op, left: Box::new(l), right: Box::new(r), span }, t) == f_expr(l, t) + " "@
            + crate::ast::binop_symbol(op) + " "@ + f_expr(r, t),
        crate::ast::binop_symbol(crate::ast::BinOp::Lt) == "<"@,
        crate::ast::binop_symbol(crate::ast::BinOp::Gt) == ">"@,
        crate::ast::binop_symbol(crate::ast::BinOp::Le) == "<="@,
        crate::ast::binop_symbol(crate::ast::BinOp::Ge) == ">="@,
        crate::ast::binop_symbol(crate::ast::BinOp::Eq) == "=="@,
        crate::ast::binop_symbol(crate::ast::BinOp::Ne) == "!="@,
        crate::ast::binop_symbol(crate::ast::BinOp::Add) == "+"@,
        crate::ast::binop_symbol(crate::ast::BinOp::Sub) == "-"@,
        crate::ast::binop_symbol(crate::ast::BinOp::Mul) == "*"@,
        crate::ast::binop_symbol(crate::ast::BinOp::Div) == "/"@,
        crate::ast::binop_symbol(crate::ast::BinOp::Mod) == "%"@,
        crate::ast::binop_symbol(crate::ast::BinOp::And) == "and"@,
        crate::ast::binop_symbol(crate::ast::BinOp::Or) == "or"@,
{
}

} // verus!
