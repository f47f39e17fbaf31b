use vstd::prelude::*;
use crate::analyzer::infer::{ty_debug, ty_debug_text};
use crate::ast::{Field, Program, Span, Statement};

verus! {

/// What a document symbol stands for.
#[derive(Debug, Clone, Copy, PartialEq, Eq, Structural)]
pub enum SymbolKind {
    Class,
    Field,
    Event,
    Interface,
    Module,
    Variable,
}

/// An entry of the document outline. It starts and ends at `line`,
/// `character` (the start of its declaration); an entity has its fields as
/// children.
#[derive(Debug)]
pub struct DocSymbol {
    pub name: String,
    pub detail: String,
    pub kind: SymbolKind,
    pub line: u32,
    pub character: u32,
    pub children: Option<Vec<DocSymbol>>,
}

/// The name, detail, kind and place of a statement's symbol, for the
/// statements that have one.
pub open spec fn stmt_symbol(s: Statement) -> Option<(Seq<char>, Seq<char>, SymbolKind, Span)> {
    match s {
        Statement::Entity(e) => Some((e.name@, "Entity"@, SymbolKind::Class, e.span)),
        Statement::Rule(r) => Some((r.name@, "Rule"@, SymbolKind::Event, r.span)),
        Statement::Provider(p) => Some((p.protocol@, "Provider"@, SymbolKind::Interface, p.span)),
        Statement::Cluster(c) => Some(
            (c.node_id@, "Cluster Configuration"@, SymbolKind::Module, c.span),
        ),
        Statement::Let(l) => Some((l.name@, "Let Binding"@, SymbolKind::Variable, l.span)),
        _ => None,
    }
}

/// The name, detail and place of a field's symbol.
pub open spec fn field_symbol(f: Field) -> (Seq<char>, Seq<char>, Span) {
    match f {
        Field::Stored(s) => (s.name@, "Stored "@ + ty_debug_text(s.ty), s.span),
        Field::Derived(d) => (d.name@, "Derived"@, d.span),
        Field::Ref(r) => (r.name@, "Ref "@ + r.target_entity@, r.span),
    }
}

/// The statements that have a symbol, in order.
pub open spec fn symbol_stmts(s: Seq<Statement>) -> Seq<Statement>
    decreases s.len(),
{
    if s.len() == 0 {
        Seq::empty()
    } else {
        let rest = symbol_stmts(s.drop_last());
        if stmt_symbol(s.last()) is Some {
            rest.push(s.last())
        } else {
            rest
        }
    }
}

pub open spec fn field_symbol_matches(d: DocSymbol, f: Field) -> bool {
    let (name, detail, span) = field_symbol(f);
    &&& d.name@ == name
    &&& d.detail@ == detail
    &&& d.kind == SymbolKind::Field
    &&& d.line == span.line
    &&& d.character == span.col
    &&& d.children is None
}

/// A symbol of a statement: its entry, and for an entity one child per field.
pub open spec fn symbol_matches(d: DocSymbol, s: Statement) -> bool {
    match stmt_symbol(s) {
        Some((name, detail, kind, span)) => {
            &&& d.name@ == name
            &&& d.detail@ == detail
            &&& d.kind == kind
            &&& d.line == span.line
            &&& d.character == span.col
            &&& match s {
                Statement::Entity(e) => match d.children {
                    Some(cs) => cs@.len() == e.fields@.len() && forall|j: int|
                        0 <= j < cs@.len() ==> #[trigger] field_symbol_matches(cs@[j], e.fields@[j]),
                    None => false,
                },
                _ => d.children is None,
            }
        },
        None => false,
    }
}

fn field_doc_symbol(f: &Field) -> (d: DocSymbol)
    ensures
        field_symbol_matches(d, *f),
{
    let (name, detail, span) = match f {
        Field::Stored(s) => {
            let mut detail = String::from_str("Stored ");
            let t = ty_debug(&s.ty);
            detail.append(t.as_str());
            (s.name.clone(), detail, s.span)
        },
        Field::Derived(d) => (d.name.clone(), String::from_str("Derived"), d.span),
        Field::Ref(r) => {
            let mut detail = String::from_str("Ref ");
            detail.append(r.target_entity.as_str());
            (r.name.clone(), detail, r.span)
        },
    };
    DocSymbol {
        name,
        detail,
        kind: SymbolKind::Field,
        line: span.line,
        character: span.col,
        children: None,
    }
}

fn leaf(name: &String, detail: &str, kind: SymbolKind, span: Span) -> (d: DocSymbol)
    ensures
        d.name@ == name@,
        d.detail@ == detail@,
        d.kind == kind,
        d.line == span.line,
        d.character == span.col,
        d.children is None,
{
    DocSymbol {
        name: name.clone(),
        detail: String::from_str(detail),
        kind,
        line: span.line,
        character: span.col,
        children: None,
    }
}

fn statement_symbol(stmt: &Statement) -> (r: Option<DocSymbol>)
    ensures
        match r {
            Some(d) => stmt_symbol(*stmt) is Some && symbol_matches(d, *stmt),
            None => stmt_symbol(*stmt) is None,
        },
{
    match stmt {
        Statement::Entity(e) => {
            let mut children: Vec<DocSymbol> = Vec::new();
            let n = e.fields.len();
            let mut i: usize = 0;
            while i < n
                invariant
                    n == e.fields@.len(),
                    i <= n,
                    children@.len() == i,
                    forall|j: int|
                        0 <= j < i ==> #[trigger] field_symbol_matches(children@[j], e.fields@[j]),
                decreases n - i,
            {
                children.push(field_doc_symbol(&e.fields[i]));
                i += 1;
            }
            Some(
                DocSymbol {
                    name: e.name.clone(),
                    detail: String::from_str("Entity"),
                    kind: SymbolKind::Class,
                    line: e.span.line,
                    character: e.span.col,
                    children: Some(children),
                },
            )
        },
        Statement::Rule(r) => Some(leaf(&r.name, "Rule", SymbolKind::Event, r.span)),
        Statement::Provider(p) => Some(leaf(&p.protocol, "Provider", SymbolKind::Interface, p.span)),
        Statement::Cluster(c) => Some(
            leaf(&c.node_id, "Cluster Configuration", SymbolKind::Module, c.span),
        ),
        Statement::Let(l) => Some(leaf(&l.name, "Let Binding", SymbolKind::Variable, l.span)),
        _ => None,
    }
}

/// The outline of a document: one symbol per entity, rule, provider,
/// cluster declaration and binding, in order.
pub fn get_document_symbols(prog: &Program) -> (r: Vec<DocSymbol>)
    ensures
        r@.len() == symbol_stmts(prog.statements@).len(),
        forall|i: int|
            0 <= i < r@.len() ==> #[trigger] symbol_matches(r@[i], symbol_stmts(prog.statements@)[i]),
{
    let stmts = &prog.statements;
    let mut out: Vec<DocSymbol> = Vec::new();
    let n = stmts.len();
    let mut i: usize = 0;
    while i < n
        invariant
            n == stmts@.len(),
            i <= n,
            out@.len() == symbol_stmts(stmts@.take(i as int)).len(),
            forall|k: int|
                0 <= k < out@.len() ==> #[trigger] symbol_matches(
                    out@[k],
                    symbol_stmts(stmts@.take(i as int))[k],
                ),
        decreases n - i,
    {
        assert(stmts@.take(i + 1).drop_last() =~= stmts@.take(i as int));
        assert(stmts@.take(i + 1).last() == stmts@[i as int]);
        match statement_symbol(&stmts[i]) {
            Some(d) => {
                out.push(d);
            },
            None => {},
        }
        i += 1;
    }
    assert(stmts@.take(n as int) =~= stmts@);
    out
}

} // verus!
