use vstd::prelude::*;
use crate::text::{cat2, cat3, cat5, cat6, cat7};
use crate::assoc::StrMap;
use crate::ast::{
    binop_symbol,
    BinOp,
    Expr,
    FnDecl,
    FnParam,
    LuminaType,
    Span,
    TyView,
    UnOp,
    copy_type,
    spec_default_span,
    ty_view,
    type_eq,
};
use crate::analyzer::graph::DependencyGraph;
use crate::analyzer::types::{FieldSchema, Schema, lookup_field};
use crate::text::{debug_quoted, decimal, str_debug, str_eq};

verus! {

/// An analysis error: its code, a message for the user and where it is.
#[derive(Debug)]
pub struct AnalyzerError {
    pub code: &'static str,
    pub message: String,
    pub span: Span,
}

/// An error as the contracts speak of it: its code, its message and its span.
pub type ErrV = (Seq<char>, Seq<char>, Span);

pub open spec fn err_view(e: AnalyzerError) -> ErrV {
    (e.code@, e.message@, e.span)
}

/// What typing an expression reads: the schema, the functions, the named
/// instances, and whether it is inside `prev(..)` or a derived field.
pub struct Env {
    pub schema: Schema,
    pub fn_defs: StrMap<FnDecl>,
    pub instances: StrMap<LuminaType>,
    pub in_prev_context: bool,
    pub in_derived_context: bool,
}

/// The analyzer's state.
pub struct Analyzer {
    pub schema: Schema,
    pub graph: DependencyGraph,
    pub errors: Vec<AnalyzerError>,
    pub allow_imports: bool,
    pub fn_defs: StrMap<FnDecl>,
    pub instances: StrMap<LuminaType>,
    pub in_prev_context: bool,
    pub in_derived_context: bool,
}

pub type Infer = Result<TyView, ErrV>;

pub open spec fn locals_view(l: Option<&StrMap<LuminaType>>) -> Option<Map<Seq<char>, TyView>> {
    match l {
        Some(m) => Some(m@.map_values(|t: LuminaType| t@)),
        None => None,
    }
}

/// The type an identifier names: a local, an instance, a field of the
/// current entity, or an entity (not inside a derived field).
pub open spec fn spec_infer_ident(
    a: Env,
    name: Seq<char>,
    ctx: Option<Seq<char>>,
    locals: Option<Map<Seq<char>, TyView>>,
) -> Infer {
    if locals is Some && locals.unwrap().contains_key(name) {
        Ok(locals.unwrap()[name])
    } else if a.instances@.contains_key(name) {
        Ok(a.instances@[name]@)
    } else if ctx is Some && lookup_field(a.schema, ctx.unwrap(), name) is Some {
        Ok(lookup_field(a.schema, ctx.unwrap(), name).unwrap().ty@)
    } else if a.schema.entities@.contains_key(name) {
        if a.in_derived_context {
            Err(
                (
                    "L001"@,
                    "Cannot use entity type '"@ + name
                        + "' as a variable in a derived field. Did you mean to reference a specific instance via a reference field?"@,
                    spec_default_span(),
                ),
            )
        } else {
            Ok(TyView::Entity(name))
        }
    } else {
        Err(
            (
                "L001"@,
                "I don't recognize the identifier '"@ + name
                    + "'. Lumina needs all names (entities, fields, or functions) to be declared before they are used to ensure the safety of the reactive graph. Have you defined this name elsewhere, or is there a typo?"@,
                spec_default_span(),
            ),
        )
    }
}

pub open spec fn is_arith(op: BinOp) -> bool {
    op == BinOp::Add || op == BinOp::Sub || op == BinOp::Mul || op == BinOp::Div || op == BinOp::Mod
}

pub open spec fn is_compare(op: BinOp) -> bool {
    op == BinOp::Eq || op == BinOp::Ne || op == BinOp::Gt || op == BinOp::Lt || op == BinOp::Ge
        || op == BinOp::Le
}

/// A type as its Debug rendering shows it.
pub open spec fn tyv_debug(t: TyView) -> Seq<char>
    decreases t,
{
    match t {
        TyView::Text => "Text"@,
        TyView::Number => "Number"@,
        TyView::Boolean => "Boolean"@,
        TyView::Timestamp => "Timestamp"@,
        TyView::Duration => "Duration"@,
        TyView::Secret => "Secret"@,
        TyView::Entity(e) => "Entity("@ + str_debug(e) + ")"@,
        TyView::List(inner) => "List("@ + tyv_debug(*inner) + ")"@,
    }
}

/// Math takes two numbers, comparison two of one type, logic two booleans.
pub open spec fn spec_binop(op: BinOp, l: TyView, r: TyView, span: Span) -> Infer {
    if is_arith(op) {
        if l == TyView::Number && r == TyView::Number {
            Ok(TyView::Number)
        } else {
            Err(
                (
                    "L002"@,
                    "I can only perform math ('"@ + binop_symbol(op) + "') on two Numbers. You've provided a "@
                        + tyv_debug(l) + " and a "@ + tyv_debug(r)
                        + ". Lumina's reactive engine needs consistent math types to guarantee that sensor values doesn't cause a runtime crash."@,
                    span,
                ),
            )
        }
    } else if is_compare(op) {
        if l == r {
            Ok(TyView::Boolean)
        } else {
            Err(
                (
                    "L002"@,
                    "I can't compare a "@ + tyv_debug(l) + " with a "@ + tyv_debug(r)
                        + ". To check for equality or order, both sides must be the same type. This prevents 'comparing apples to oranges' which would break rule logic."@,
                    span,
                ),
            )
        }
    } else {
        if l == TyView::Boolean && r == TyView::Boolean {
            Ok(TyView::Boolean)
        } else {
            Err(("L002"@, "Logical operations require Booleans"@, span))
        }
    }
}

pub open spec fn spec_unop(op: UnOp, t: TyView, span: Span) -> Infer {
    match op {
        UnOp::Neg => if t == TyView::Number {
            Ok(TyView::Number)
        } else {
            Err(("L002"@, "Negation requires Number"@, span))
        },
        UnOp::Not => if t == TyView::Boolean {
            Ok(TyView::Boolean)
        } else {
            Err(("L002"@, "Logical NOT requires Boolean"@, span))
        },
    }
}

/// `prev(field)`: only on a stored field of the current entity, not nested.
pub open spec fn spec_prev(a: Env, field: Seq<char>, span: Span, ctx: Option<Seq<char>>) -> Infer {
    if a.in_prev_context {
        Err(("L025"@, "Nested prev() expressions are not allowed"@, span))
    } else if ctx is None {
        Err(("L001"@, "prev() can only be used within an entity context"@, span))
    } else if lookup_field(a.schema, ctx.unwrap(), field) is None {
        Err(
            (
                "L010"@,
                "I can't look back at the history of '."@ + field + "' because that field doesn't exist on '"@
                    + ctx.unwrap()
                    + "'. 'prev()' requires a valid stored field to track its previous state."@,
                span,
            ),
        )
    } else if lookup_field(a.schema, ctx.unwrap(), field).unwrap().is_derived {
        Err(
            (
                "L024"@,
                "I can't use 'prev()' on '"@ + field
                    + "' because it's a derived field. 'prev()' only works on stored data that has a history."@,
                span,
            ),
        )
    } else {
        Ok(lookup_field(a.schema, ctx.unwrap(), field).unwrap().ty@)
    }
}

pub open spec fn list_of(t: TyView) -> TyView {
    TyView::List(Box::new(t))
}

/// The type of an expression, or the first error found (code and span),
/// looking at sub-expressions left to right.
pub open spec fn spec_infer(
    a: Env,
    e: Expr,
    ctx: Option<Seq<char>>,
    locals: Option<Map<Seq<char>, TyView>>,
) -> Infer
    decreases e, 0nat, 0nat,
{
    match e {
        Expr::Number(_) => Ok(TyView::Number),
        Expr::Text(_) => Ok(TyView::Text),
        Expr::InterpolatedString(_) => Ok(TyView::Text),
        Expr::Bool(_) => Ok(TyView::Boolean),
        Expr::Duration(_) => Ok(TyView::Duration),
        Expr::Ident(name) => spec_infer_ident(a, name@, ctx, locals),
        Expr::FieldAccess { obj, field, span } => match spec_infer(a, *obj, ctx, locals) {
            Err(x) => Err(x),
            Ok(TyView::Entity(en)) => match lookup_field(a.schema, en, field@) {
                Some(f) => Ok(f.ty@),
                None => Err(
                    (
                        "L010"@,
                        "I can't find a field named '."@ + field@ + "' on '"@ + en + "'. Known fields: "@
                            + known_fields_text(a.schema, en),
                        span,
                    ),
                ),
            },
            Ok(TyView::Timestamp) => if field@ == "age"@ {
                Ok(TyView::Duration)
            } else {
                Err(
                    (
                        "L042"@,
                        "Timestamps only support the '.age' accessor (which returns a Duration). I don't recognize the field '."@
                            + field@ + "'."@,
                        span,
                    ),
                )
            },
            Ok(t) => Err(
                (
                    "L002"@,
                    "I can only look up fields on Entities or Timestamps. You're trying to look up '."@
                        + field@ + "' on a "@ + tyv_debug(t) + "."@,
                    span,
                ),
            ),
        },
        Expr::Binary { op, left, right, span } => match spec_infer(a, *left, ctx, locals) {
            Err(x) => Err(x),
            Ok(l) => match spec_infer(a, *right, ctx, locals) {
                Err(x) => Err(x),
                Ok(r) => spec_binop(op, l, r, span),
            },
        },
        Expr::Unary { op, operand, span } => match spec_infer(a, *operand, ctx, locals) {
            Err(x) => Err(x),
            Ok(t) => spec_unop(op, t, span),
        },
        Expr::If { cond, then_, else_, span } => match spec_infer(a, *cond, ctx, locals) {
            Err(x) => Err(x),
            Ok(c) => if c != TyView::Boolean {
                Err(("L002"@, "If condition must be Boolean"@, span))
            } else {
                match spec_infer(a, *then_, ctx, locals) {
                    Err(x) => Err(x),
                    Ok(t) => match spec_infer(a, *else_, ctx, locals) {
                        Err(x) => Err(x),
                        Ok(f) => if t == f {
                            Ok(t)
                        } else {
                            Err(("L002"@, "If branches must have same type"@, span))
                        },
                    },
                }
            },
        },
        Expr::Call { name, args, span } => spec_infer_call(a, name@, args@, span, ctx, locals),
        Expr::ListLiteral(elems) => if elems@.len() == 0 {
            Ok(list_of(TyView::Number))
        } else {
            match spec_infer(a, elems@[0], ctx, locals) {
                Err(x) => Err(x),
                Ok(first) => match spec_same_types(a, elems@, 1, first, ctx, locals) {
                    Err(x) => Err(x),
                    Ok(_) => Ok(list_of(first)),
                },
            }
        },
        Expr::Index { list, index, span } => match spec_infer(a, *list, ctx, locals) {
            Err(x) => Err(x),
            Ok(lt) => match spec_infer(a, *index, ctx, locals) {
                Err(x) => Err(x),
                Ok(it) => if it != TyView::Number {
                    Err(("L002"@, "list index must be a Number"@, span))
                } else {
                    match lt {
                        TyView::List(inner) => Ok(*inner),
                        _ => Err(
                            (
                                "L002"@,
                                "I can only use index access ([]) on Lists. You're trying to index into a "@
                                    + tyv_debug(lt)
                                    + ". Lumina enforces strict typing to prevent runtime 'undefined' errors."@,
                                span,
                            ),
                        ),
                    }
                },
            },
        },
        Expr::Prev { field, span } => spec_prev(a, field@, span, ctx),
        Expr::ClusterAccess { .. } => Ok(TyView::Text),
        Expr::Migrate { .. } => Ok(TyView::Boolean),
        Expr::Evacuate { .. } => Ok(TyView::Boolean),
        Expr::Deploy { .. } => Ok(TyView::Boolean),
    }
}

/// The elements from `i` on all have type `first`; the first that does
/// not is an error with no span.
pub open spec fn spec_same_types(
    a: Env,
    elems: Seq<Expr>,
    i: int,
    first: TyView,
    ctx: Option<Seq<char>>,
    locals: Option<Map<Seq<char>, TyView>>,
) -> Infer
    decreases elems, 1nat, elems.len() - i,
{
    if i < 0 || i >= elems.len() {
        Ok(first)
    } else {
        match spec_infer(a, elems[i], ctx, locals) {
            Err(x) => Err(x),
            Ok(t) => if t != first {
                Err(("L002"@, "all list elements must have the same type"@, spec_default_span()))
            } else {
                spec_same_types(a, elems, i + 1, first, ctx, locals)
            },
        }
    }
}

/// Arguments from `i` on match the parameters' types.
pub open spec fn spec_args_match(
    a: Env,
    args: Seq<Expr>,
    params: Seq<FnParam>,
    i: int,
    span: Span,
    ctx: Option<Seq<char>>,
    locals: Option<Map<Seq<char>, TyView>>,
) -> Infer
    decreases args, 1nat, args.len() - i,
{
    if i < 0 || i >= args.len() || i >= params.len() {
        Ok(TyView::Number)
    } else {
        match spec_infer(a, args[i], ctx, locals) {
            Err(x) => Err(x),
            Ok(t) => if t != params[i].type_@ {
                Err(
                    (
                        "L013"@,
                        "Argument type mismatch for parameter '"@ + params[i].name@ + "'. I expected a "@
                            + tyv_debug(params[i].type_@) + ", but you provided a "@ + tyv_debug(t)
                            + ". Lumina's functions require exact type matches to guarantee safe calculations."@,
                        span,
                    ),
                )
            } else {
                spec_args_match(a, args, params, i + 1, span, ctx, locals)
            },
        }
    }
}

/// A call: a built-in (`now`, `len`, `min`, `max`, `sum`, `append`, `head`,
/// `tail`, `at`) or a declared function.
pub open spec fn spec_infer_call(
    a: Env,
    name: Seq<char>,
    args: Seq<Expr>,
    span: Span,
    ctx: Option<Seq<char>>,
    locals: Option<Map<Seq<char>, TyView>>,
) -> Infer
    decreases args, 1nat, args.len() + 1,
{
    if name == "now"@ {
        if args.len() != 0 {
            Err(("L013"@, "now() takes no arguments"@, span))
        } else if a.in_derived_context {
            Err(
                (
                    "L041"@,
                    "You can't use 'now()' inside a derived field (:=). Derived fields are calculated automatically and must be 'pure' (they shouldn't change depending on when they are read)."@,
                    span,
                ),
            )
        } else {
            Ok(TyView::Timestamp)
        }
    } else if name == "len"@ {
        if args.len() != 1 {
            Err(("L013"@, arg_count_text(name, "1 arg"@, args.len()), span))
        } else {
            match spec_infer(a, args[0], ctx, locals) {
                Err(x) => Err(x),
                Ok(TyView::List(_)) => Ok(TyView::Number),
                Ok(_) => Err(("L002"@, "len() requires a list argument"@, span)),
            }
        }
    } else if name == "min"@ || name == "max"@ || name == "sum"@ {
        if args.len() != 1 {
            Err(("L013"@, arg_count_text(name, "1 arg"@, args.len()), span))
        } else {
            match spec_infer(a, args[0], ctx, locals) {
                Err(x) => Err(x),
                Ok(t) => if t == list_of(TyView::Number) {
                    Ok(TyView::Number)
                } else {
                    Err(("L002"@, name + "() requires a Number[] argument"@, span))
                },
            }
        }
    } else if name == "append"@ {
        if args.len() != 2 {
            Err(("L013"@, arg_count_text(name, "2 args"@, args.len()), span))
        } else {
            match spec_infer(a, args[0], ctx, locals) {
                Err(x) => Err(x),
                Ok(lt) => match spec_infer(a, args[1], ctx, locals) {
                    Err(x) => Err(x),
                    Ok(vt) => match lt {
                        TyView::List(inner) => if *inner == vt {
                            Ok(lt)
                        } else {
                            Err(("L002"@, "append value type must match list element type"@, span))
                        },
                        _ => Err(("L002"@, "append() first argument must be a list"@, span)),
                    },
                },
            }
        }
    } else if name == "head"@ {
        if args.len() != 1 {
            Err(("L013"@, arg_count_text(name, "1 arg"@, args.len()), span))
        } else {
            match spec_infer(a, args[0], ctx, locals) {
                Err(x) => Err(x),
                Ok(TyView::List(inner)) => Ok(*inner),
                Ok(_) => Err(("L002"@, "head() requires a list argument"@, span)),
            }
        }
    } else if name == "tail"@ {
        if args.len() != 1 {
            Err(("L013"@, arg_count_text(name, "1 arg"@, args.len()), span))
        } else {
            match spec_infer(a, args[0], ctx, locals) {
                Err(x) => Err(x),
                Ok(TyView::List(inner)) => Ok(TyView::List(inner)),
                Ok(_) => Err(("L002"@, "tail() requires a list argument"@, span)),
            }
        }
    } else if name == "at"@ {
        if args.len() != 2 {
            Err(("L013"@, arg_count_text(name, "2 args"@, args.len()), span))
        } else {
            match spec_infer(a, args[0], ctx, locals) {
                Err(x) => Err(x),
                Ok(lt) => match spec_infer(a, args[1], ctx, locals) {
                    Err(x) => Err(x),
                    Ok(it) => if it != TyView::Number {
                        Err(("L002"@, "at() index must be a Number"@, span))
                    } else {
                        match lt {
                            TyView::List(inner) => Ok(*inner),
                            _ => Err(("L002"@, "at() first argument must be a list"@, span)),
                        }
                    },
                },
            }
        }
    } else if !a.fn_defs@.contains_key(name) {
        Err(
            (
                "L012"@,
                "I don't recognize the function '"@ + name
                    + "()'. In Lumina, functions must be declared with 'fn' before they can be called. This ensures that every calculation in the DAG is accounted for. Did you forget to define it?"@,
                span,
            ),
        )
    } else if args.len() != a.fn_defs@[name].params@.len() {
        Err(
            (
                "L013"@,
                "The function '"@ + name + "()' expects "@ + decimal(a.fn_defs@[name].params@.len())
                    + " arguments, but you've provided "@ + decimal(args.len())
                    + ". Lumina uses strict function signatures to ensure that every input is accounted for in the reactive graph. Did you miss an argument or provide too many?"@,
                span,
            ),
        )
    } else {
        match spec_args_match(a, args, a.fn_defs@[name].params@, 0, span, ctx, locals) {
            Err(x) => Err(x),
            Ok(_) => Ok(a.fn_defs@[name].returns@),
        }
    }
}

/// The message for a built-in called with the wrong number of arguments.
pub open spec fn arg_count_text(name: Seq<char>, expected: Seq<char>, got: nat) -> Seq<char> {
    name + " expects "@ + expected + ", got "@ + decimal(got)
}

/// The known field names of an entity, as their Debug rendering shows them.
pub open spec fn known_fields_text(s: crate::analyzer::types::Schema, entity: Seq<char>) -> Seq<char> {
    if s.entities@.contains_key(entity) {
        let keys = s.entities@[entity].fields.pairs().map_values(|p: (String, FieldSchema)| p.0);
        "["@ + quoted_names(keys, keys.len() as int) + "]"@
    } else {
        "[]"@
    }
}

pub open spec fn ctx_view(c: Option<&str>) -> Option<Seq<char>> {
    match c {
        Some(s) => Some(s@),
        None => None,
    }
}

/// A type as its Debug rendering shows it.
pub open spec fn ty_debug_text(t: LuminaType) -> Seq<char>
    decreases t,
{
    match t {
        LuminaType::Text => "Text"@,
        LuminaType::Number => "Number"@,
        LuminaType::Boolean => "Boolean"@,
        LuminaType::Timestamp => "Timestamp"@,
        LuminaType::Duration => "Duration"@,
        LuminaType::Secret => "Secret"@,
        LuminaType::Entity(e) => "Entity("@ + str_debug(e@) + ")"@,
        LuminaType::List(inner) => "List("@ + ty_debug_text(*inner) + ")"@,
    }
}

/// The Debug rendering of a type, as `{:?}` prints it.
pub fn ty_debug(t: &LuminaType) -> (s: String)
    ensures
        s@ == ty_debug_text(*t),
        s@ == tyv_debug(t@),
    decreases t,
{
    match t {
        LuminaType::Text => String::from_str("Text"),
        LuminaType::Number => String::from_str("Number"),
        LuminaType::Boolean => String::from_str("Boolean"),
        LuminaType::Timestamp => String::from_str("Timestamp"),
        LuminaType::Duration => String::from_str("Duration"),
        LuminaType::Secret => String::from_str("Secret"),
        LuminaType::Entity(e) => {
            let q = debug_quoted(e.as_str());
            let mut s = String::from_str("Entity(");
            s.append(q.as_str());
            s.append(")");
            s
        },
        LuminaType::List(inner) => {
            let i = ty_debug(inner);
            let mut s = String::from_str("List(");
            s.append(i.as_str());
            s.append(")");
            s
        },
    }
}

/// The first `n` names as `{:?}` shows them, separated by ", ".
pub open spec fn quoted_names(names: Seq<String>, n: int) -> Seq<char>
    decreases n,
{
    if n <= 0 || n > names.len() {
        Seq::empty()
    } else if n == 1 {
        str_debug(names[0]@)
    } else {
        quoted_names(names, n - 1) + ", "@ + str_debug(names[n - 1]@)
    }
}

/// The Debug rendering of a list of names, as `{:?}` prints it.
pub fn names_debug(names: &Vec<String>) -> (s: String)
    ensures
        s@ == "["@ + quoted_names(names@, names@.len() as int) + "]"@,
{
    let mut items = String::new();
    let n = names.len();
    let mut i: usize = 0;
    while i < n
        invariant
            n == names@.len(),
            i <= n,
            items@ == quoted_names(names@, i as int),
        decreases n - i,
    {
        if i > 0 {
            items.append(", ");
        }
        let q = debug_quoted(names[i].as_str());
        items.append(q.as_str());
        if i == 0 {
            assert(items@ =~= str_debug(names@[0]@));
        }
        i += 1;
    }
    let mut out = String::from_str("[");
    out.append(items.as_str());
    out.append("]");
    out
}

pub fn mk_err(code: &'static str, message: String, span: Span) -> (e: AnalyzerError)
    ensures
        e.code == code,
        e.span == span,
        e.message == message,
{
    AnalyzerError { code, message, span }
}

impl Analyzer {
    pub open spec fn env(&self) -> Env {
        Env {
            schema: self.schema,
            fn_defs: self.fn_defs,
            instances: self.instances,
            in_prev_context: self.in_prev_context,
            in_derived_context: self.in_derived_context,
        }
    }

    pub open spec fn wf(&self) -> bool {
        &&& self.schema.wf()
        &&& self.graph.wf()
        &&& self.fn_defs.wf()
        &&& self.instances.wf()
    }

    /// An analyzer with nothing registered; imports are allowed.
    pub fn new() -> (a: Self)
        ensures
            a.wf(),
            a.schema.entities@ == Map::<Seq<char>, crate::analyzer::types::EntitySchema>::empty(),
            a.graph.len() == 0,
            a.errors@.len() == 0,
            a.allow_imports,
            a.fn_defs@ == Map::<Seq<char>, FnDecl>::empty(),
            a.instances@ == Map::<Seq<char>, LuminaType>::empty(),
            !a.in_prev_context,
            !a.in_derived_context,
    {
        Analyzer {
            schema: Schema::new(),
            graph: DependencyGraph::new(),
            errors: Vec::new(),
            allow_imports: true,
            fn_defs: StrMap::new(),
            instances: StrMap::new(),
            in_prev_context: false,
            in_derived_context: false,
        }
    }

    /// The type of an expression in the context of an entity and of local
    /// names, or the first error found.
    pub fn infer_type(
        &self,
        expr: &Expr,
        entity_ctx: Option<&str>,
        locals: Option<&StrMap<LuminaType>>,
    ) -> (r: Result<LuminaType, AnalyzerError>)
        requires
            self.wf(),
            locals matches Some(m) ==> m.wf(),
        ensures
            match r {
                Ok(t) => spec_infer(self.env(), *expr, ctx_view(entity_ctx), locals_view(locals)) == Ok::<
                    TyView,
                    ErrV,
                >(t@),
                Err(e) => spec_infer(self.env(), *expr, ctx_view(entity_ctx), locals_view(locals)) == Err::<
                    TyView,
                    ErrV,
                >(err_view(e)),
            },
        decreases expr, 0nat, 0nat,
    {
        proof {
            reveal_strlit("L001");
            reveal_strlit("L002");
            reveal_strlit("L010");
            reveal_strlit("L042");
            reveal_strlit("L024");
            reveal_strlit("L025");
            reveal_strlit("age");
        }
        match expr {
            Expr::Number(_) => Ok(LuminaType::Number),
            Expr::Text(_) => Ok(LuminaType::Text),
            Expr::InterpolatedString(_) => Ok(LuminaType::Text),
            Expr::Bool(_) => Ok(LuminaType::Boolean),
            Expr::Duration(_) => Ok(LuminaType::Duration),
            Expr::Ident(name) => self.infer_ident(name.as_str(), entity_ctx, locals),
            Expr::FieldAccess { obj, field, span } => {
                let obj_ty = self.infer_type(obj, entity_ctx, locals)?;
                match obj_ty {
                    LuminaType::Entity(e_name) => {
                        match self.schema.get_field(e_name.as_str(), field.as_str()) {
                            Some(f) => Ok(copy_type(&f.ty)),
                            None => {
                                let known = match self.schema.get_entity(e_name.as_str()) {
                                    Some(e) => {
                                        let ks = e.fields.keys();
                                        assert(ks@ =~= e.fields.pairs().map_values(
                                            |p: (String, FieldSchema)| p.0,
                                        ));
                                        names_debug(&ks)
                                    },
                                    None => String::from_str("[]"),
                                };
                                Err(
                                    mk_err(
                                        "L010",
                                        cat6("I can't find a field named '.", field.as_str(), "' on '", e_name.as_str(), "'. Known fields: ", known.as_str()),
                                        *span,
                                    ),
                                )
                            },
                        }
                    },
                    LuminaType::Timestamp => {
                        if str_eq(field.as_str(), "age") {
                            Ok(LuminaType::Duration)
                        } else {
                            Err(
                                mk_err(
                                    "L042",
                                    cat3("Timestamps only support the '.age' accessor (which returns a Duration). I don't recognize the field '.", field.as_str(), "'."),
                                    *span,
                                ),
                            )
                        }
                    },
                    other => {
                        let d = ty_debug(&other);
                        Err(
                            mk_err(
                                "L002",
                                cat5("I can only look up fields on Entities or Timestamps. You're trying to look up '.", field.as_str(), "' on a ", d.as_str(), "."),
                                *span,
                            ),
                        )
                    },
                }
            },
            Expr::Binary { op, left, right, span } => {
                let l_ty = self.infer_type(left, entity_ctx, locals)?;
                let r_ty = self.infer_type(right, entity_ctx, locals)?;
                self.check_binop(*op, l_ty, r_ty, *span)
            },
            Expr::Unary { op, operand, span } => {
                let ty = self.infer_type(operand, entity_ctx, locals)?;
                match op {
                    UnOp::Neg => {
                        if type_eq(&ty, &LuminaType::Number) {
                            Ok(LuminaType::Number)
                        } else {
                            Err(mk_err("L002", String::from_str("Negation requires Number"), *span))
                        }
                    },
                    UnOp::Not => {
                        if type_eq(&ty, &LuminaType::Boolean) {
                            Ok(LuminaType::Boolean)
                        } else {
                            Err(mk_err("L002", String::from_str("Logical NOT requires Boolean"), *span))
                        }
                    },
                }
            },
            Expr::If { cond, then_, else_, span } => {
                let c_ty = self.infer_type(cond, entity_ctx, locals)?;
                if !type_eq(&c_ty, &LuminaType::Boolean) {
                    return Err(mk_err("L002", String::from_str("If condition must be Boolean"), *span));
                }
                let t_ty = self.infer_type(then_, entity_ctx, locals)?;
                let e_ty = self.infer_type(else_, entity_ctx, locals)?;
                if type_eq(&t_ty, &e_ty) {
                    Ok(t_ty)
                } else {
                    Err(mk_err("L002", String::from_str("If branches must have same type"), *span))
                }
            },
            Expr::Call { name, args, span } => self.infer_call(name, args, *span, entity_ctx, locals),
            Expr::ListLiteral(elems) => {
                if elems.len() == 0 {
                    let t = LuminaType::List(Box::new(LuminaType::Number));
                    assert(t@ == list_of(TyView::Number)) by {
                        reveal_with_fuel(ty_view, 2);
                    }
                    return Ok(t);
                }
                let first_ty = self.infer_type(&elems[0], entity_ctx, locals)?;
                self.check_same_types(elems, 1, &first_ty, entity_ctx, locals)?;
                Ok(LuminaType::List(Box::new(first_ty)))
            },
            Expr::Index { list, index, span } => {
                let list_ty = self.infer_type(list, entity_ctx, locals)?;
                let idx_ty = self.infer_type(index, entity_ctx, locals)?;
                if !type_eq(&idx_ty, &LuminaType::Number) {
                    return Err(mk_err("L002", String::from_str("list index must be a Number"), *span));
                }
                match list_ty {
                    LuminaType::List(inner) => Ok(*inner),
                    other => {
                        let d = ty_debug(&other);
                        Err(
                            mk_err(
                                "L002",
                                cat3("I can only use index access ([]) on Lists. You're trying to index into a ", d.as_str(), ". Lumina enforces strict typing to prevent runtime 'undefined' errors."),
                                *span,
                            ),
                        )
                    },
                }
            },
            Expr::Prev { field, span } => self.infer_prev(field.as_str(), *span, entity_ctx),
            Expr::ClusterAccess { .. } => Ok(LuminaType::Text),
            Expr::Migrate { .. } => Ok(LuminaType::Boolean),
            Expr::Evacuate { .. } => Ok(LuminaType::Boolean),
            Expr::Deploy { .. } => Ok(LuminaType::Boolean),
        }
    }

    fn infer_ident(&self, name: &str, entity_ctx: Option<&str>, locals: Option<&StrMap<LuminaType>>) -> (r: Result<
        LuminaType,
        AnalyzerError,
    >)
        requires
            self.wf(),
            locals matches Some(m) ==> m.wf(),
        ensures
            match r {
                Ok(t) => spec_infer_ident(self.env(), name@, ctx_view(entity_ctx), locals_view(locals))
                    == Ok::<TyView, ErrV>(t@),
                Err(e) => spec_infer_ident(self.env(), name@, ctx_view(entity_ctx), locals_view(locals))
                    == Err::<TyView, ErrV>(err_view(e)),
            },
    {
        proof {
            reveal_strlit("L001");
        }
        match locals {
            Some(locs) => match locs.get(name) {
                Some(ty) => {
                    return Ok(copy_type(ty));
                },
                None => {},
            },
            None => {},
        }
        match self.instances.get(name) {
            Some(ty) => {
                return Ok(copy_type(ty));
            },
            None => {},
        }
        match entity_ctx {
            Some(ent) => match self.schema.get_field(ent, name) {
                Some(f) => {
                    return Ok(copy_type(&f.ty));
                },
                None => {},
            },
            None => {},
        }
        if self.schema.entities.contains_key(name) {
            if self.in_derived_context {
                return Err(
                    mk_err(
                        "L001",
                        cat3("Cannot use entity type '", name, "' as a variable in a derived field. Did you mean to reference a specific instance via a reference field?"),
                        Span::default_span(),
                    ),
                );
            }
            Ok(LuminaType::Entity(String::from_str(name)))
        } else {
            Err(
                mk_err(
                    "L001",
                    cat3("I don't recognize the identifier '", name, "'. Lumina needs all names (entities, fields, or functions) to be declared before they are used to ensure the safety of the reactive graph. Have you defined this name elsewhere, or is there a typo?"),
                    Span::default_span(),
                ),
            )
        }
    }

    fn check_binop(&self, op: BinOp, l_ty: LuminaType, r_ty: LuminaType, span: Span) -> (r: Result<
        LuminaType,
        AnalyzerError,
    >)
        ensures
            match r {
                Ok(t) => spec_binop(op, l_ty@, r_ty@, span) == Ok::<TyView, ErrV>(t@),
                Err(e) => spec_binop(op, l_ty@, r_ty@, span) == Err::<TyView, ErrV>(
                    err_view(e),
                ),
            },
    {
        proof {
            reveal_strlit("L002");
        }
        match op {
            BinOp::Add | BinOp::Sub | BinOp::Mul | BinOp::Div | BinOp::Mod => {
                if type_eq(&l_ty, &LuminaType::Number) && type_eq(&r_ty, &LuminaType::Number) {
                    Ok(LuminaType::Number)
                } else {
                    let l = ty_debug(&l_ty);
                    let r = ty_debug(&r_ty);
                    Err(
                        mk_err(
                            "L002",
                            cat7("I can only perform math ('", op.symbol(), "') on two Numbers. You've provided a ", l.as_str(), " and a ", r.as_str(), ". Lumina's reactive engine needs consistent math types to guarantee that sensor values doesn't cause a runtime crash."),
                            span,
                        ),
                    )
                }
            },
            BinOp::Eq | BinOp::Ne | BinOp::Gt | BinOp::Lt | BinOp::Ge | BinOp::Le => {
                if type_eq(&l_ty, &r_ty) {
                    Ok(LuminaType::Boolean)
                } else {
                    let l = ty_debug(&l_ty);
                    let r = ty_debug(&r_ty);
                    Err(
                        mk_err(
                            "L002",
                            cat5("I can't compare a ", l.as_str(), " with a ", r.as_str(), ". To check for equality or order, both sides must be the same type. This prevents 'comparing apples to oranges' which would break rule logic."),
                            span,
                        ),
                    )
                }
            },
            BinOp::And | BinOp::Or => {
                if type_eq(&l_ty, &LuminaType::Boolean) && type_eq(&r_ty, &LuminaType::Boolean) {
                    Ok(LuminaType::Boolean)
                } else {
                    Err(mk_err("L002", String::from_str("Logical operations require Booleans"), span))
                }
            },
        }
    }

    fn infer_prev(&self, field: &str, span: Span, entity_ctx: Option<&str>) -> (r: Result<
        LuminaType,
        AnalyzerError,
    >)
        requires
            self.wf(),
        ensures
            match r {
                Ok(t) => spec_prev(self.env(), field@, span, ctx_view(entity_ctx)) == Ok::<
                    TyView,
                    ErrV,
                >(t@),
                Err(e) => spec_prev(self.env(), field@, span, ctx_view(entity_ctx)) == Err::<
                    TyView,
                    ErrV,
                >(err_view(e)),
            },
    {
        proof {
            reveal_strlit("L001");
            reveal_strlit("L010");
            reveal_strlit("L024");
            reveal_strlit("L025");
        }
        if self.in_prev_context {
            return Err(mk_err("L025", String::from_str("Nested prev() expressions are not allowed"), span));
        }
        let entity_name = match entity_ctx {
            Some(e) => e,
            None => {
                return Err(
                    mk_err(
                        "L001",
                        String::from_str("prev() can only be used within an entity context"),
                        span,
                    ),
                );
            },
        };
        let field_schema = match self.schema.get_field(entity_name, field) {
            Some(f) => f,
            None => {
                return Err(
                    mk_err(
                        "L010",
                        cat5("I can't look back at the history of '.", field, "' because that field doesn't exist on '", entity_name, "'. 'prev()' requires a valid stored field to track its previous state."),
                        span,
                    ),
                );
            },
        };
        if field_schema.is_derived {
            return Err(
                mk_err(
                    "L024",
                    cat3("I can't use 'prev()' on '", field, "' because it's a derived field. 'prev()' only works on stored data that has a history."),
                    span,
                ),
            );
        }
        Ok(copy_type(&field_schema.ty))
    }

    fn check_same_types(
        &self,
        elems: &Vec<Expr>,
        i: usize,
        first: &LuminaType,
        entity_ctx: Option<&str>,
        locals: Option<&StrMap<LuminaType>>,
    ) -> (r: Result<(), AnalyzerError>)
        requires
            self.wf(),
            locals matches Some(m) ==> m.wf(),
        ensures
            match r {
                Ok(_) => spec_same_types(
                    self.env(),
                    elems@,
                    i as int,
                    first@,
                    ctx_view(entity_ctx),
                    locals_view(locals),
                ) == Ok::<TyView, ErrV>(first@),
                Err(e) => spec_same_types(
                    self.env(),
                    elems@,
                    i as int,
                    first@,
                    ctx_view(entity_ctx),
                    locals_view(locals),
                ) == Err::<TyView, ErrV>(err_view(e)),
            },
        decreases elems@, 1nat, elems@.len() - i,
    {
        proof {
            reveal_strlit("L002");
        }
        if i >= elems.len() {
            return Ok(());
        }
        let ty = self.infer_type(&elems[i], entity_ctx, locals)?;
        if !type_eq(&ty, first) {
            return Err(
                mk_err("L002", String::from_str("all list elements must have the same type"), Span::default_span()),
            );
        }
        self.check_same_types(elems, i + 1, first, entity_ctx, locals)
    }

    fn check_args(
        &self,
        args: &Vec<Expr>,
        params: &Vec<FnParam>,
        i: usize,
        span: Span,
        entity_ctx: Option<&str>,
        locals: Option<&StrMap<LuminaType>>,
    ) -> (r: Result<(), AnalyzerError>)
        requires
            self.wf(),
            locals matches Some(m) ==> m.wf(),
        ensures
            match r {
                Ok(_) => spec_args_match(
                    self.env(),
                    args@,
                    params@,
                    i as int,
                    span,
                    ctx_view(entity_ctx),
                    locals_view(locals),
                ) is Ok,
                Err(e) => spec_args_match(
                    self.env(),
                    args@,
                    params@,
                    i as int,
                    span,
                    ctx_view(entity_ctx),
                    locals_view(locals),
                ) == Err::<TyView, ErrV>(err_view(e)),
            },
        decreases args@, 1nat, args@.len() - i,
    {
        proof {
            reveal_strlit("L013");
        }
        if i >= args.len() || i >= params.len() {
            return Ok(());
        }
        let arg_ty = self.infer_type(&args[i], entity_ctx, locals)?;
        if !type_eq(&arg_ty, &params[i].type_) {
            let e = ty_debug(&params[i].type_);
            let g = ty_debug(&arg_ty);
            return Err(
                mk_err(
                    "L013",
                    cat7("Argument type mismatch for parameter '", params[i].name.as_str(), "'. I expected a ", e.as_str(), ", but you provided a ", g.as_str(), ". Lumina's functions require exact type matches to guarantee safe calculations."),
                    span,
                ),
            );
        }
        self.check_args(args, params, i + 1, span, entity_ctx, locals)
    }

    fn arg_count_error(name: &str, expected: &str, got: usize, span: Span) -> (e: AnalyzerError)
        ensures
            err_view(e) == ("L013"@, arg_count_text(name@, expected@, got as nat), span),
    {
        proof {
            reveal_strlit("L013");
        }
        let n = crate::text::u64_to_decimal(got as u64);
        mk_err("L013", cat5(name, " expects ", expected, ", got ", n.as_str()), span)
    }

    fn infer_call(
        &self,
        name: &String,
        args: &Vec<Expr>,
        span: Span,
        entity_ctx: Option<&str>,
        locals: Option<&StrMap<LuminaType>>,
    ) -> (r: Result<LuminaType, AnalyzerError>)
        requires
            self.wf(),
            locals matches Some(m) ==> m.wf(),
        ensures
            match r {
                Ok(t) => spec_infer_call(
                    self.env(),
                    name@,
                    args@,
                    span,
                    ctx_view(entity_ctx),
                    locals_view(locals),
                ) == Ok::<TyView, ErrV>(t@),
                Err(e) => spec_infer_call(
                    self.env(),
                    name@,
                    args@,
                    span,
                    ctx_view(entity_ctx),
                    locals_view(locals),
                ) == Err::<TyView, ErrV>(err_view(e)),
            },
        decreases args@, 1nat, args@.len() + 1,
    {
        proof {
            reveal_strlit("L002");
            reveal_strlit("L012");
            reveal_strlit("L013");
            reveal_strlit("L041");
            reveal_strlit("now");
            reveal_strlit("len");
            reveal_strlit("min");
            reveal_strlit("max");
            reveal_strlit("sum");
            reveal_strlit("append");
            reveal_strlit("head");
            reveal_strlit("tail");
            reveal_strlit("at");
        }
        let nm = name.as_str();
        if str_eq(nm, "now") {
            if args.len() != 0 {
                return Err(mk_err("L013", String::from_str("now() takes no arguments"), span));
            }
            if self.in_derived_context {
                return Err(
                    mk_err(
                        "L041",
                        String::from_str(
                            "You can't use 'now()' inside a derived field (:=). Derived fields are calculated automatically and must be 'pure' (they shouldn't change depending on when they are read).",
                        ),
                        span,
                    ),
                );
            }
            return Ok(LuminaType::Timestamp);
        }
        if str_eq(nm, "len") {
            if args.len() != 1 {
                return Err(Self::arg_count_error("len", "1 arg", args.len(), span));
            }
            let arg_ty = self.infer_type(&args[0], entity_ctx, locals)?;
            return match arg_ty {
                LuminaType::List(_) => Ok(LuminaType::Number),
                _ => Err(mk_err("L002", String::from_str("len() requires a list argument"), span)),
            };
        }
        if str_eq(nm, "min") || str_eq(nm, "max") || str_eq(nm, "sum") {
            if args.len() != 1 {
                return Err(Self::arg_count_error(nm, "1 arg", args.len(), span));
            }
            let arg_ty = self.infer_type(&args[0], entity_ctx, locals)?;
            let num_list = LuminaType::List(Box::new(LuminaType::Number));
            assert(num_list@ == list_of(TyView::Number)) by {
                reveal_with_fuel(ty_view, 2);
            }
            if !type_eq(&arg_ty, &num_list) {
                return Err(mk_err("L002", cat2(nm, "() requires a Number[] argument"), span));
            }
            return Ok(LuminaType::Number);
        }
        if str_eq(nm, "append") {
            if args.len() != 2 {
                return Err(Self::arg_count_error("append", "2 args", args.len(), span));
            }
            let list_ty = self.infer_type(&args[0], entity_ctx, locals)?;
            let val_ty = self.infer_type(&args[1], entity_ctx, locals)?;
            let matches = match &list_ty {
                LuminaType::List(inner) => Some(type_eq(inner, &val_ty)),
                _ => None,
            };
            return match matches {
                Some(true) => Ok(list_ty),
                Some(false) => Err(
                    mk_err(
                        "L002",
                        String::from_str("append value type must match list element type"),
                        span,
                    ),
                ),
                None => Err(mk_err("L002", String::from_str("append() first argument must be a list"), span)),
            };
        }
        if str_eq(nm, "head") {
            if args.len() != 1 {
                return Err(Self::arg_count_error("head", "1 arg", args.len(), span));
            }
            let arg_ty = self.infer_type(&args[0], entity_ctx, locals)?;
            return match arg_ty {
                LuminaType::List(inner) => Ok(*inner),
                _ => Err(mk_err("L002", String::from_str("head() requires a list argument"), span)),
            };
        }
        if str_eq(nm, "tail") {
            if args.len() != 1 {
                return Err(Self::arg_count_error("tail", "1 arg", args.len(), span));
            }
            let arg_ty = self.infer_type(&args[0], entity_ctx, locals)?;
            return match arg_ty {
                LuminaType::List(inner) => Ok(LuminaType::List(inner)),
                _ => Err(mk_err("L002", String::from_str("tail() requires a list argument"), span)),
            };
        }
        if str_eq(nm, "at") {
            if args.len() != 2 {
                return Err(Self::arg_count_error("at", "2 args", args.len(), span));
            }
            let list_ty = self.infer_type(&args[0], entity_ctx, locals)?;
            let idx_ty = self.infer_type(&args[1], entity_ctx, locals)?;
            if !type_eq(&idx_ty, &LuminaType::Number) {
                return Err(mk_err("L002", String::from_str("at() index must be a Number"), span));
            }
            return match list_ty {
                LuminaType::List(inner) => Ok(*inner),
                _ => Err(mk_err("L002", String::from_str("at() first argument must be a list"), span)),
            };
        }
        let decl = match self.fn_defs.get(nm) {
            Some(d) => d,
            None => {
                return Err(
                    mk_err(
                        "L012",
                        cat3("I don't recognize the function '", nm, "()'. In Lumina, functions must be declared with 'fn' before they can be called. This ensures that every calculation in the DAG is accounted for. Did you forget to define it?"),
                        span,
                    ),
                );
            },
        };
        if args.len() != decl.params.len() {
            let expected = crate::text::u64_to_decimal(decl.params.len() as u64);
            let got = crate::text::u64_to_decimal(args.len() as u64);
            return Err(
                mk_err(
                    "L013",
                    cat7("The function '", nm, "()' expects ", expected.as_str(), " arguments, but you've provided ", got.as_str(), ". Lumina uses strict function signatures to ensure that every input is accounted for in the reactive graph. Did you miss an argument or provide too many?"),
                    span,
                ),
            );
        }
        self.check_args(args, &decl.params, 0, span, entity_ctx, locals)?;
        Ok(copy_type(&decl.returns))
    }
}

} // verus!
