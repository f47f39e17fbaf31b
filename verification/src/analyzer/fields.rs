use vstd::prelude::*;
use crate::text::{cat3, cat5};
use crate::assoc::StrMap;
use crate::ast::{Expr, Field, FnDecl, FnParam, LuminaType, Span, StringSegment, TyView, copy_type, type_eq};
use crate::analyzer::check::{Check, one_error};
use crate::analyzer::graph::DependencyGraph;
use crate::analyzer::infer::{
    Analyzer,
    AnalyzerError,
    Env,
    ErrV,
    Infer,
    ctx_view,
    err_view,
    locals_view,
    mk_err,
    spec_infer,
    tyv_debug,
};
use crate::analyzer::register::{errs, same_but_schema_errors};
use crate::analyzer::types::{Schema, field_type_set, lookup_field};

verus! {

// ---- Function bodies -------------------------------------------------------

/// A field lookup on `obj` in a function body is refused unless `obj` is
/// one of its parameters; the message says which case it is.
pub open spec fn lookup_violation(obj: Expr, params: Set<Seq<char>>) -> Seq<Seq<char>> {
    match obj {
        Expr::Ident(name) => if params.contains(name@) {
            Seq::empty()
        } else {
            seq![l015_ident_text()]
        },
        _ => seq![l015_text()],
    }
}

pub open spec fn l015_ident_text() -> Seq<char> {
    "fn body cannot access entity fields"@
}

pub open spec fn l015_text() -> Seq<char> {
    "Functions are 'pure' logic and cannot directly access entity fields. They can only use the parameters passed to them. Move the field value into an argument to use it here."@
}

/// The messages for the field lookups a function body makes on anything but
/// one of its parameters, in the order the body is walked: a body may only
/// use what it is given.
pub open spec fn field_violations(e: Expr, params: Set<Seq<char>>) -> Seq<Seq<char>>
    decreases e, 0nat, 0nat,
{
    match e {
        Expr::FieldAccess { obj, .. } => lookup_violation(*obj, params) + field_violations(
            *obj,
            params,
        ),
        Expr::Binary { left, right, .. } => field_violations(*left, params) + field_violations(
            *right,
            params,
        ),
        Expr::Unary { operand, .. } => field_violations(*operand, params),
        Expr::If { cond, then_, else_, .. } => field_violations(*cond, params) + field_violations(
            *then_,
            params,
        ) + field_violations(*else_, params),
        Expr::Call { args, .. } => violations_list(args@, 0, params),
        Expr::InterpolatedString(segs) => violations_segs(segs@, 0, params),
        Expr::ListLiteral(elems) => violations_list(elems@, 0, params),
        Expr::Index { list, index, .. } => field_violations(*list, params) + field_violations(
            *index,
            params,
        ),
        _ => Seq::empty(),
    }
}

pub open spec fn violations_list(es: Seq<Expr>, i: int, params: Set<Seq<char>>) -> Seq<Seq<char>>
    decreases es, 1nat, es.len() - i,
{
    if i < 0 || i >= es.len() {
        Seq::empty()
    } else {
        field_violations(es[i], params) + violations_list(es, i + 1, params)
    }
}

pub open spec fn violations_segs(segs: Seq<StringSegment>, i: int, params: Set<Seq<char>>) -> Seq<
    Seq<char>,
>
    decreases segs, 1nat, segs.len() - i,
{
    if i < 0 || i >= segs.len() {
        Seq::empty()
    } else {
        let here: Seq<Seq<char>> = match segs[i] {
            StringSegment::Expr(e) => field_violations(*e, params),
            StringSegment::Literal(_) => Seq::empty(),
        };
        here + violations_segs(segs, i + 1, params)
    }
}

/// One error L015 at `span` for each message.
pub open spec fn l015(msgs: Seq<Seq<char>>, span: Span) -> Seq<ErrV> {
    msgs.map_values(|m: Seq<char>| ("L015"@, m, span))
}

pub proof fn lemma_l015_add(a: Seq<Seq<char>>, b: Seq<Seq<char>>, span: Span)
    ensures
        l015(a, span) + l015(b, span) == l015(a + b, span),
{
    assert(l015(a, span) + l015(b, span) =~= l015(a + b, span));
}

/// The types of a function's parameters by name (a later one of a name wins).
pub open spec fn params_map(ps: Seq<FnParam>) -> Map<Seq<char>, TyView>
    decreases ps.len(),
{
    if ps.len() == 0 {
        Map::empty()
    } else {
        params_map(ps.drop_last()).insert(ps.last().name@, ps.last().type_@)
    }
}

/// What checking a function finds: an error L015 for each field lookup on
/// anything but a parameter, and L014 when the body's type is not the
/// declared return type.
pub open spec fn fn_check_errors(a: Env, d: FnDecl) -> Seq<ErrV> {
    let locals = params_map(d.params@);
    l015(field_violations(d.body, locals.dom()), d.span) + match spec_infer(
        a,
        d.body,
        None,
        Some(locals),
    ) {
        Ok(t) => if t != d.returns@ {
            seq![("L014"@, l014_text(t, d.returns@), d.span)]
        } else {
            Seq::empty()
        },
        Err(_) => Seq::empty(),
    }
}

pub open spec fn l014_text(body: TyView, declared: TyView) -> Seq<char> {
    "The function's body returns a "@ + tyv_debug(body)
        + ", but the signature says it should return a "@ + tyv_debug(declared)
        + ". Lumina requires functions to strictly follow their return type to ensure the reactive graph remains stable."@
}

// ---- Dependencies ------------------------------------------------------------

pub type Deps = Result<Set<(Seq<char>, Seq<char>)>, ErrV>;

pub open spec fn join_deps(x: Deps, y: Deps) -> Deps {
    match x {
        Err(e) => Err(e),
        Ok(a) => match y {
            Err(e) => Err(e),
            Ok(b) => Ok(a + b),
        },
    }
}

/// The fields an expression of a derived field of `entity` reads, or the
/// first error met typing the object of a field lookup.
pub open spec fn spec_deps(a: Env, e: Expr, entity: Seq<char>) -> Deps
    decreases e, 0nat, 0nat,
{
    match e {
        Expr::Ident(name) => Ok(
            if lookup_field(a.schema, entity, name@) is Some {
                set![(entity, name@)]
            } else {
                Set::empty()
            },
        ),
        Expr::FieldAccess { obj, field, .. } => match spec_infer(a, *obj, Some(entity), None) {
            Err(x) => Err(x),
            Ok(t) => join_deps(
                Ok(
                    match t {
                        TyView::Entity(en) => set![(en, field@)],
                        _ => Set::empty(),
                    },
                ),
                spec_deps(a, *obj, entity),
            ),
        },
        Expr::Binary { left, right, .. } => join_deps(
            spec_deps(a, *left, entity),
            spec_deps(a, *right, entity),
        ),
        Expr::Unary { operand, .. } => spec_deps(a, *operand, entity),
        Expr::If { cond, then_, else_, .. } => join_deps(
            join_deps(spec_deps(a, *cond, entity), spec_deps(a, *then_, entity)),
            spec_deps(a, *else_, entity),
        ),
        Expr::InterpolatedString(segs) => deps_segs(a, segs@, 0, entity),
        Expr::Call { args, .. } => deps_list(a, args@, 0, entity),
        Expr::ListLiteral(elems) => deps_list(a, elems@, 0, entity),
        Expr::Index { list, index, .. } => join_deps(
            spec_deps(a, *list, entity),
            spec_deps(a, *index, entity),
        ),
        Expr::Prev { field, .. } => Ok(
            if lookup_field(a.schema, entity, field@) is Some {
                set![(entity, field@)]
            } else {
                Set::empty()
            },
        ),
        _ => Ok(Set::empty()),
    }
}

pub open spec fn deps_list(a: Env, es: Seq<Expr>, i: int, entity: Seq<char>) -> Deps
    decreases es, 1nat, es.len() - i,
{
    if i < 0 || i >= es.len() {
        Ok(Set::empty())
    } else {
        join_deps(spec_deps(a, es[i], entity), deps_list(a, es, i + 1, entity))
    }
}

pub open spec fn deps_segs(a: Env, segs: Seq<StringSegment>, i: int, entity: Seq<char>) -> Deps
    decreases segs, 1nat, segs.len() - i,
{
    if i < 0 || i >= segs.len() {
        Ok(Set::empty())
    } else {
        let here = match segs[i] {
            StringSegment::Expr(e) => spec_deps(a, *e, entity),
            StringSegment::Literal(_) => Ok(Set::empty()),
        };
        join_deps(here, deps_segs(a, segs, i + 1, entity))
    }
}

/// Edges from each of `d` into `t`.
pub open spec fn edges_into(d: Set<(Seq<char>, Seq<char>)>, t: (Seq<char>, Seq<char>)) -> Set<
    ((Seq<char>, Seq<char>), (Seq<char>, Seq<char>)),
> {
    Set::new(|p: ((Seq<char>, Seq<char>), (Seq<char>, Seq<char>))| d.contains(p.0) && p.1 == t)
}

/// `h` is `g` with the given nodes and edges added; the nodes of `g` keep
/// their places.
pub open spec fn graph_changed(
    g: DependencyGraph,
    h: DependencyGraph,
    nodes: Set<(Seq<char>, Seq<char>)>,
    edges: Set<((Seq<char>, Seq<char>), (Seq<char>, Seq<char>))>,
) -> bool {
    &&& g.len() <= h.len()
    &&& forall|i: int| 0 <= i < g.len() ==> #[trigger] h.node(i) == g.node(i)
    &&& h.named_nodes() == g.named_nodes() + nodes
    &&& h.named_edges() == g.named_edges() + edges
}

/// `h` is `g` with the nodes `d` added and an edge from each into `t`.
pub open spec fn graph_grown(
    g: DependencyGraph,
    h: DependencyGraph,
    d: Set<(Seq<char>, Seq<char>)>,
    t: (Seq<char>, Seq<char>),
) -> bool {
    graph_changed(g, h, d, edges_into(d, t))
}

pub proof fn lemma_graph_changed_trans(
    g: DependencyGraph,
    h: DependencyGraph,
    k: DependencyGraph,
    n1: Set<(Seq<char>, Seq<char>)>,
    e1: Set<((Seq<char>, Seq<char>), (Seq<char>, Seq<char>))>,
    n2: Set<(Seq<char>, Seq<char>)>,
    e2: Set<((Seq<char>, Seq<char>), (Seq<char>, Seq<char>))>,
)
    requires
        graph_changed(g, h, n1, e1),
        graph_changed(h, k, n2, e2),
    ensures
        graph_changed(g, k, n1 + n2, e1 + e2),
{
    assert(k.named_nodes() =~= g.named_nodes() + (n1 + n2));
    assert(k.named_edges() =~= g.named_edges() + (e1 + e2));
}

pub proof fn lemma_graph_grown_trans(
    g: DependencyGraph,
    h: DependencyGraph,
    k: DependencyGraph,
    d1: Set<(Seq<char>, Seq<char>)>,
    d2: Set<(Seq<char>, Seq<char>)>,
    t: (Seq<char>, Seq<char>),
)
    requires
        graph_grown(g, h, d1, t),
        graph_grown(h, k, d2, t),
    ensures
        graph_grown(g, k, d1 + d2, t),
{
    lemma_graph_changed_trans(g, h, k, d1, edges_into(d1, t), d2, edges_into(d2, t));
    assert(edges_into(d1, t) + edges_into(d2, t) =~= edges_into(d1 + d2, t));
}

pub proof fn lemma_graph_grown_refl(g: DependencyGraph, t: (Seq<char>, Seq<char>))
    ensures
        graph_grown(g, g, Set::empty(), t),
{
    assert(g.named_nodes() =~= g.named_nodes() + Set::empty());
    assert(edges_into(Set::empty(), t) =~= Set::empty());
    assert(g.named_edges() =~= g.named_edges() + edges_into(Set::empty(), t));
}

/// Only the graph changed.
pub open spec fn only_graph(a: Analyzer, b: Analyzer) -> bool {
    &&& b.schema == a.schema
    &&& b.errors == a.errors
    &&& b.fn_defs == a.fn_defs
    &&& b.instances == a.instances
    &&& b.allow_imports == a.allow_imports
    &&& b.in_prev_context == a.in_prev_context
    &&& b.in_derived_context == a.in_derived_context
}

pub open spec fn deps_match(
    r: Result<(), Vec<AnalyzerError>>,
    d: Deps,
    g: DependencyGraph,
    h: DependencyGraph,
    t: (Seq<char>, Seq<char>),
) -> bool {
    match r {
        Ok(_) => d is Ok && graph_grown(g, h, d->Ok_0, t),
        Err(v) => d is Err && one_error(v, d->Err_0),
    }
}

impl Analyzer {
    /// Records an error L015 for each field lookup on anything but a parameter.
    pub fn check_fn_body(&mut self, expr: &Expr, params: &StrMap<LuminaType>, span: Span)
        requires
            old(self).wf(),
            params.wf(),
        ensures
            final(self).wf(),
            same_but_schema_errors(*old(self), *final(self)),
            final(self).schema == old(self).schema,
            errs(final(self).errors@) == errs(old(self).errors@) + l015(
                field_violations(*expr, params@.dom()),
                span,
            ),
        decreases expr, 0nat,
    {
        proof {
            reveal_strlit("L015");
        }
        let ghost e0 = errs(self.errors@);
        match expr {
            Expr::FieldAccess { obj, .. } => {
                let ghost here = lookup_violation(**obj, params@.dom());
                match &**obj {
                    Expr::Ident(name) => {
                        if !params.contains_key(name.as_str()) {
                            self.push_l015(
                                String::from_str("fn body cannot access entity fields"),
                                span,
                            );
                        }
                    },
                    _ => {
                        self.push_l015(
                            String::from_str(
                                "Functions are 'pure' logic and cannot directly access entity fields. They can only use the parameters passed to them. Move the field value into an argument to use it here.",
                            ),
                            span,
                        );
                    },
                }
                assert(errs(self.errors@) == e0 + l015(here, span)) by {
                    assert(l015(Seq::empty(), span) =~= Seq::<ErrV>::empty());
                    assert(l015(seq![l015_ident_text()], span) =~= seq![
                        ("L015"@, l015_ident_text(), span),
                    ]);
                    assert(l015(seq![l015_text()], span) =~= seq![("L015"@, l015_text(), span)]);
                }
                self.check_fn_body(obj, params, span);
                proof {
                    lemma_l015_add(here, field_violations(**obj, params@.dom()), span);
                }
            },
            Expr::Binary { left, right, .. } => {
                self.check_fn_body(left, params, span);
                self.check_fn_body(right, params, span);
                proof {
                    lemma_l015_add(
                        field_violations(**left, params@.dom()),
                        field_violations(**right, params@.dom()),
                        span,
                    );
                }
            },
            Expr::Unary { operand, .. } => {
                self.check_fn_body(operand, params, span);
            },
            Expr::If { cond, then_, else_, .. } => {
                self.check_fn_body(cond, params, span);
                self.check_fn_body(then_, params, span);
                self.check_fn_body(else_, params, span);
                proof {
                    lemma_l015_add(
                        field_violations(**cond, params@.dom()),
                        field_violations(**then_, params@.dom()),
                        span,
                    );
                    lemma_l015_add(
                        field_violations(**cond, params@.dom()) + field_violations(
                            **then_,
                            params@.dom(),
                        ),
                        field_violations(**else_, params@.dom()),
                        span,
                    );
                }
            },
            Expr::Call { args, .. } => {
                self.check_fn_body_list(args, params, span);
            },
            Expr::InterpolatedString(segs) => {
                self.check_fn_body_segs(segs, params, span);
            },
            Expr::ListLiteral(elems) => {
                self.check_fn_body_list(elems, params, span);
            },
            Expr::Index { list, index, .. } => {
                self.check_fn_body(list, params, span);
                self.check_fn_body(index, params, span);
                proof {
                    lemma_l015_add(
                        field_violations(**list, params@.dom()),
                        field_violations(**index, params@.dom()),
                        span,
                    );
                }
            },
            _ => {
                assert(errs(self.errors@) =~= e0 + l015(Seq::empty(), span));
            },
        }
    }

    fn push_l015(&mut self, message: String, span: Span)
        requires
            old(self).wf(),
        ensures
            final(self).wf(),
            same_but_schema_errors(*old(self), *final(self)),
            final(self).schema == old(self).schema,
            errs(final(self).errors@) == errs(old(self).errors@).push(("L015"@, message@, span)),
    {
        let ghost before = self.errors@;
        self.errors.push(mk_err("L015", message, span));
        assert(errs(self.errors@) =~= errs(before).push(("L015"@, message@, span)));
    }

    fn check_fn_body_list(&mut self, es: &Vec<Expr>, params: &StrMap<LuminaType>, span: Span)
        requires
            old(self).wf(),
            params.wf(),
        ensures
            final(self).wf(),
            same_but_schema_errors(*old(self), *final(self)),
            final(self).schema == old(self).schema,
            errs(final(self).errors@) == errs(old(self).errors@) + l015(
                violations_list(es@, 0, params@.dom()),
                span,
            ),
        decreases es, 1nat,
    {
        let ghost e0 = errs(self.errors@);
        let ghost mut k: Seq<Seq<char>> = Seq::empty();
        let n = es.len();
        let mut i: usize = 0;
        assert(e0 =~= e0 + l015(k, span));
        assert(k + violations_list(es@, 0, params@.dom()) =~= violations_list(es@, 0, params@.dom()));
        while i < n
            invariant
                n == es@.len(),
                i <= n,
                self.wf(),
                params.wf(),
                same_but_schema_errors(*old(self), *self),
                self.schema == old(self).schema,
                e0 == errs(old(self).errors@),
                errs(self.errors@) == e0 + l015(k, span),
                k + violations_list(es@, i as int, params@.dom()) == violations_list(
                    es@,
                    0,
                    params@.dom(),
                ),
            decreases n - i,
        {
            assert(decreases_to!(es => es@[i as int]));
            self.check_fn_body(&es[i], params, span);
            proof {
                let f = field_violations(es@[i as int], params@.dom());
                lemma_l015_add(k, f, span);
                assert(k + violations_list(es@, i as int, params@.dom()) =~= (k + f)
                    + violations_list(es@, i + 1, params@.dom()));
                k = k + f;
            }
            i += 1;
        }
        assert(k + violations_list(es@, n as int, params@.dom()) =~= k);
    }

    fn check_fn_body_segs(&mut self, segs: &Vec<StringSegment>, params: &StrMap<LuminaType>, span: Span)
        requires
            old(self).wf(),
            params.wf(),
        ensures
            final(self).wf(),
            same_but_schema_errors(*old(self), *final(self)),
            final(self).schema == old(self).schema,
            errs(final(self).errors@) == errs(old(self).errors@) + l015(
                violations_segs(segs@, 0, params@.dom()),
                span,
            ),
        decreases segs, 1nat,
    {
        let ghost e0 = errs(self.errors@);
        let ghost mut k: Seq<Seq<char>> = Seq::empty();
        let n = segs.len();
        let mut i: usize = 0;
        assert(e0 =~= e0 + l015(k, span));
        assert(k + violations_segs(segs@, 0, params@.dom()) =~= violations_segs(segs@, 0, params@.dom()));
        while i < n
            invariant
                n == segs@.len(),
                i <= n,
                self.wf(),
                params.wf(),
                same_but_schema_errors(*old(self), *self),
                self.schema == old(self).schema,
                e0 == errs(old(self).errors@),
                errs(self.errors@) == e0 + l015(k, span),
                k + violations_segs(segs@, i as int, params@.dom()) == violations_segs(
                    segs@,
                    0,
                    params@.dom(),
                ),
            decreases n - i,
        {
            match &segs[i] {
                StringSegment::Expr(e) => {
                    assert(decreases_to!(segs => segs@[i as int]));
                    self.check_fn_body(e, params, span);
                    proof {
                        let f = field_violations(**e, params@.dom());
                        lemma_l015_add(k, f, span);
                        assert(k + violations_segs(segs@, i as int, params@.dom()) =~= (k + f)
                            + violations_segs(segs@, i + 1, params@.dom()));
                        k = k + f;
                    }
                },
                StringSegment::Literal(_) => {
                    assert(k + violations_segs(segs@, i as int, params@.dom()) =~= k
                        + violations_segs(segs@, i + 1, params@.dom()));
                },
            }
            i += 1;
        }
        assert(k + violations_segs(segs@, n as int, params@.dom()) =~= k);
    }

    /// The parameters of a function as local names.
    fn params_locals(ps: &Vec<FnParam>) -> (m: StrMap<LuminaType>)
        ensures
            m.wf(),
            m@.map_values(|t: LuminaType| t@) == params_map(ps@),
    {
        let mut m: StrMap<LuminaType> = StrMap::new();
        let n = ps.len();
        let mut i: usize = 0;
        assert(m@.map_values(|t: LuminaType| t@) =~= params_map(ps@.take(0)));
        while i < n
            invariant
                n == ps@.len(),
                i <= n,
                m.wf(),
                m@.map_values(|t: LuminaType| t@) == params_map(ps@.take(i as int)),
            decreases n - i,
        {
            let ghost before = m@;
            m.insert(ps[i].name.clone(), copy_type(&ps[i].type_));
            proof {
                let t = ps@.take(i + 1);
                assert(t.drop_last() =~= ps@.take(i as int));
                assert(m@.map_values(|t: LuminaType| t@) =~= before.map_values(|t: LuminaType| t@).insert(
                    ps@[i as int].name@,
                    ps@[i as int].type_@,
                ));
            }
            i += 1;
        }
        assert(ps@.take(n as int) =~= ps@);
        m
    }

    /// Checks a function: its body uses only its parameters (L015), and its
    /// type is the declared return type (L014).
    pub fn check_fn(&mut self, d: &FnDecl)
        requires
            old(self).wf(),
        ensures
            final(self).wf(),
            same_but_schema_errors(*old(self), *final(self)),
            final(self).schema == old(self).schema,
            errs(final(self).errors@) == errs(old(self).errors@) + fn_check_errors(
                old(self).env(),
                *d,
            ),
    {
        proof {
            reveal_strlit("L014");
        }
        let locals = Self::params_locals(&d.params);
        assert(ctx_view(None) == None::<Seq<char>>);
        assert(locals_view(Some(&locals)) == Some(params_map(d.params@)));
        assert(locals@.dom() =~= params_map(d.params@).dom());
        let inferred = self.infer_type(&d.body, None, Some(&locals));
        self.check_fn_body(&d.body, &locals, d.span);
        let ghost e1 = errs(self.errors@);
        let ghost e0 = errs(old(self).errors@);
        let ghost l = l015(field_violations(d.body, params_map(d.params@).dom()), d.span);
        assert(e1 == e0 + l);
        match inferred {
            Ok(body_type) => {
                if !type_eq(&body_type, &d.returns) {
                    let x = crate::analyzer::infer::ty_debug(&body_type);
                    let y = crate::analyzer::infer::ty_debug(&d.returns);
                    let ghost before = self.errors@;
                    self.errors.push(
                        mk_err(
                            "L014",
                            cat5("The function's body returns a ", x.as_str(), ", but the signature says it should return a ", y.as_str(), ". Lumina requires functions to strictly follow their return type to ensure the reactive graph remains stable."),
                            d.span,
                        ),
                    );
                    let ghost m = l014_text(body_type@, d.returns@);
                    assert(errs(self.errors@) =~= e1 + seq![("L014"@, m, d.span)]);
                    assert(errs(self.errors@) =~= e0 + (l + seq![("L014"@, m, d.span)]));
                } else {
                    assert(errs(self.errors@) =~= e0 + (l + Seq::<ErrV>::empty()));
                }
            },
            Err(_) => {
                assert(errs(self.errors@) =~= e0 + (l + Seq::<ErrV>::empty()));
            },
        }
    }
}

impl Analyzer {
    /// Adds the node `(e, f)` and an edge from it into node `target`.
    fn add_dependency(&mut self, e: &str, f: &str, target: usize)
        requires
            old(self).wf(),
            target < old(self).graph.len(),
        ensures
            final(self).wf(),
            only_graph(*old(self), *final(self)),
            graph_grown(old(self).graph, final(self).graph, set![(e@, f@)], old(self).graph.node(target as int)),
    {
        let ghost g0 = self.graph;
        let dep = self.graph.intern(e, f);
        let ghost g1 = self.graph;
        self.graph.add_edge(dep, target);
        proof {
            let t = g0.node(target as int);
            assert(g1.node(target as int) == t);
            assert(self.graph.named_nodes() =~= g0.named_nodes() + set![(e@, f@)]);
            assert(edges_into(set![(e@, f@)], t) =~= set![((e@, f@), t)]);
            assert(self.graph.named_edges() =~= g0.named_edges() + edges_into(set![(e@, f@)], t));
        }
    }

    /// Records in the graph what a derived field of `entity_name` reads: an
    /// edge from each field it reads into node `target`.
    pub fn collect_dependencies(&mut self, expr: &Expr, entity_name: &str, target: usize) -> (r: Result<
        (),
        Vec<AnalyzerError>,
    >)
        requires
            old(self).wf(),
            target < old(self).graph.len(),
        ensures
            final(self).wf(),
            only_graph(*old(self), *final(self)),
            deps_match(
                r,
                spec_deps(old(self).env(), *expr, entity_name@),
                old(self).graph,
                final(self).graph,
                old(self).graph.node(target as int),
            ),
        decreases expr, 0nat,
    {
        let ghost g0 = self.graph;
        let ghost t = g0.node(target as int);
        let ghost env = self.env();
        proof {
            lemma_graph_grown_refl(g0, t);
        }
        match expr {
            Expr::Ident(name) => {
                if self.schema.get_field(entity_name, name.as_str()).is_some() {
                    self.add_dependency(entity_name, name.as_str(), target);
                }
                Ok(())
            },
            Expr::FieldAccess { obj, field, .. } => {
                let obj_ty = match self.infer_type(obj, Some(entity_name), None) {
                    Ok(t) => t,
                    Err(e) => {
                        return Err(vec![e]);
                    },
                };
                match &obj_ty {
                    LuminaType::Entity(e_name) => {
                        self.add_dependency(e_name.as_str(), field.as_str(), target);
                    },
                    _ => {},
                }
                let ghost g1 = self.graph;
                let ghost here: Set<(Seq<char>, Seq<char>)> = match obj_ty@ {
                    TyView::Entity(en) => set![(en, field@)],
                    _ => Set::empty(),
                };
                assert(graph_grown(g0, g1, here, t));
                assert(g1.node(target as int) == t);
                let r = self.collect_dependencies(obj, entity_name, target);
                proof {
                    if r is Ok {
                        let d = spec_deps(env, **obj, entity_name@)->Ok_0;
                        lemma_graph_grown_trans(g0, g1, self.graph, here, d, t);
                    }
                }
                r
            },
            Expr::Binary { left, right, .. } => {
                match self.collect_dependencies(left, entity_name, target) {
                    Ok(_) => {},
                    Err(e) => {
                        return Err(e);
                    },
                }
                let ghost g1 = self.graph;
                assert(g1.node(target as int) == t);
                let r = self.collect_dependencies(right, entity_name, target);
                proof {
                    if r is Ok {
                        lemma_graph_grown_trans(
                            g0,
                            g1,
                            self.graph,
                            spec_deps(env, **left, entity_name@)->Ok_0,
                            spec_deps(env, **right, entity_name@)->Ok_0,
                            t,
                        );
                    }
                }
                r
            },
            Expr::Unary { operand, .. } => self.collect_dependencies(operand, entity_name, target),
            Expr::If { cond, then_, else_, .. } => {
                match self.collect_dependencies(cond, entity_name, target) {
                    Ok(_) => {},
                    Err(e) => {
                        return Err(e);
                    },
                }
                let ghost g1 = self.graph;
                assert(g1.node(target as int) == t);
                match self.collect_dependencies(then_, entity_name, target) {
                    Ok(_) => {},
                    Err(e) => {
                        return Err(e);
                    },
                }
                let ghost g2 = self.graph;
                assert(g2.node(target as int) == t);
                let r = self.collect_dependencies(else_, entity_name, target);
                proof {
                    let d0 = spec_deps(env, **cond, entity_name@)->Ok_0;
                    let d1 = spec_deps(env, **then_, entity_name@)->Ok_0;
                    lemma_graph_grown_trans(g0, g1, g2, d0, d1, t);
                    if r is Ok {
                        let d2 = spec_deps(env, **else_, entity_name@)->Ok_0;
                        lemma_graph_grown_trans(g0, g2, self.graph, d0 + d1, d2, t);
                    }
                }
                r
            },
            Expr::InterpolatedString(segs) => self.collect_segs(segs, entity_name, target),
            Expr::Call { args, .. } => self.collect_list(args, entity_name, target),
            Expr::ListLiteral(elems) => self.collect_list(elems, entity_name, target),
            Expr::Index { list, index, .. } => {
                let ghost g_a = self.graph;
                match self.collect_dependencies(list, entity_name, target) {
                    Ok(_) => {},
                    Err(e) => {
                        return Err(e);
                    },
                }
                let ghost g_b = self.graph;
                assert(g_b.node(target as int) == t);
                let r = self.collect_dependencies(index, entity_name, target);
                proof {
                    if r is Ok {
                        lemma_graph_grown_trans(
                            g_a,
                            g_b,
                            self.graph,
                            spec_deps(env, **list, entity_name@)->Ok_0,
                            spec_deps(env, **index, entity_name@)->Ok_0,
                            t,
                        );
                    }
                }
                r
            },
            Expr::Prev { field, .. } => {
                if self.schema.get_field(entity_name, field.as_str()).is_some() {
                    self.add_dependency(entity_name, field.as_str(), target);
                }
                Ok(())
            },
            _ => Ok(()),
        }
    }

    fn collect_list(&mut self, es: &Vec<Expr>, entity_name: &str, target: usize) -> (r: Result<
        (),
        Vec<AnalyzerError>,
    >)
        requires
            old(self).wf(),
            target < old(self).graph.len(),
        ensures
            final(self).wf(),
            only_graph(*old(self), *final(self)),
            deps_match(
                r,
                deps_list(old(self).env(), es@, 0, entity_name@),
                old(self).graph,
                final(self).graph,
                old(self).graph.node(target as int),
            ),
        decreases es, 1nat,
    {
        let ghost g0 = self.graph;
        let ghost t = g0.node(target as int);
        let ghost env = self.env();
        let ghost mut acc: Set<(Seq<char>, Seq<char>)> = Set::empty();
        proof {
            lemma_graph_grown_refl(g0, t);
            let whole = deps_list(env, es@, 0, entity_name@);
            if whole is Ok {
                assert(acc + whole->Ok_0 =~= whole->Ok_0);
            }
        }
        let n = es.len();
        let mut i: usize = 0;
        while i < n
            invariant
                n == es@.len(),
                i <= n,
                self.wf(),
                target < g0.len(),
                env == old(self).env(),
                g0 == old(self).graph,
                t == g0.node(target as int),
                only_graph(*old(self), *self),
                graph_grown(g0, self.graph, acc, t),
                deps_list(env, es@, 0, entity_name@) == join_deps(
                    Ok(acc),
                    deps_list(env, es@, i as int, entity_name@),
                ),
            decreases n - i,
        {
            assert(decreases_to!(es => es@[i as int]));
            let ghost g1 = self.graph;
            assert(g1.node(target as int) == t);
            match self.collect_dependencies(&es[i], entity_name, target) {
                Ok(_) => {},
                Err(e) => {
                    return Err(e);
                },
            }
            proof {
                let d = spec_deps(env, es@[i as int], entity_name@)->Ok_0;
                lemma_graph_grown_trans(g0, g1, self.graph, acc, d, t);
                let rest = deps_list(env, es@, i + 1, entity_name@);
                if rest is Ok {
                    assert(acc + (d + rest->Ok_0) =~= (acc + d) + rest->Ok_0);
                }
                acc = acc + d;
            }
            i += 1;
        }
        proof {
            assert(acc + Set::empty() =~= acc);
        }
        Ok(())
    }

    fn collect_segs(&mut self, segs: &Vec<StringSegment>, entity_name: &str, target: usize) -> (r: Result<
        (),
        Vec<AnalyzerError>,
    >)
        requires
            old(self).wf(),
            target < old(self).graph.len(),
        ensures
            final(self).wf(),
            only_graph(*old(self), *final(self)),
            deps_match(
                r,
                deps_segs(old(self).env(), segs@, 0, entity_name@),
                old(self).graph,
                final(self).graph,
                old(self).graph.node(target as int),
            ),
        decreases segs, 1nat,
    {
        let ghost g0 = self.graph;
        let ghost t = g0.node(target as int);
        let ghost env = self.env();
        let ghost mut acc: Set<(Seq<char>, Seq<char>)> = Set::empty();
        proof {
            lemma_graph_grown_refl(g0, t);
            let whole = deps_segs(env, segs@, 0, entity_name@);
            if whole is Ok {
                assert(acc + whole->Ok_0 =~= whole->Ok_0);
            }
        }
        let n = segs.len();
        let mut i: usize = 0;
        while i < n
            invariant
                n == segs@.len(),
                i <= n,
                self.wf(),
                target < g0.len(),
                env == old(self).env(),
                g0 == old(self).graph,
                t == g0.node(target as int),
                only_graph(*old(self), *self),
                graph_grown(g0, self.graph, acc, t),
                deps_segs(env, segs@, 0, entity_name@) == join_deps(
                    Ok(acc),
                    deps_segs(env, segs@, i as int, entity_name@),
                ),
            decreases n - i,
        {
            let ghost g1 = self.graph;
            assert(g1.node(target as int) == t);
            match &segs[i] {
                StringSegment::Expr(e) => {
                    assert(decreases_to!(segs => segs@[i as int]));
                    match self.collect_dependencies(e, entity_name, target) {
                        Ok(_) => {},
                        Err(x) => {
                            return Err(x);
                        },
                    }
                    proof {
                        let d = spec_deps(env, **e, entity_name@)->Ok_0;
                        lemma_graph_grown_trans(g0, g1, self.graph, acc, d, t);
                        let rest = deps_segs(env, segs@, i + 1, entity_name@);
                        if rest is Ok {
                            assert(acc + (d + rest->Ok_0) =~= (acc + d) + rest->Ok_0);
                        }
                        acc = acc + d;
                    }
                },
                StringSegment::Literal(_) => {
                    proof {
                        let rest = deps_segs(env, segs@, i + 1, entity_name@);
                        if rest is Ok {
                            assert(Set::<(Seq<char>, Seq<char>)>::empty() + rest->Ok_0 =~= rest->Ok_0);
                        }
                    }
                },
            }
            i += 1;
        }
        proof {
            assert(acc + Set::empty() =~= acc);
        }
        Ok(())
    }
}


// ---- Entity fields -----------------------------------------------------------

/// A derived field's expression is typed inside the derived-field context.
pub open spec fn derived_env(a: Env) -> Env {
    Env { in_derived_context: true, ..a }
}

/// The errors, functions, instances and flags are as they were.
pub open spec fn same_rest(a: Analyzer, b: Analyzer) -> bool {
    &&& b.errors == a.errors
    &&& b.fn_defs == a.fn_defs
    &&& b.instances == a.instances
    &&& b.allow_imports == a.allow_imports
    &&& b.in_prev_context == a.in_prev_context
    &&& b.in_derived_context == a.in_derived_context
}

pub open spec fn l051_text(name: Seq<char>) -> Seq<char> {
    "The derived field '"@ + name
        + "' resolves to a Secret type. Derived fields are automatically computed and their values may be exposed through the reactive graph. Move secret handling into a 'write' action instead."@
}

/// What checking one field of `entity` does. A derived field gets the type
/// of its expression (which may not be a Secret, L051) and an edge from each
/// field it reads; a reference gets an edge from its target entity.
pub open spec fn field_checked(a: Analyzer, b: Analyzer, entity: Seq<char>, f: Field, r: Check) -> bool {
    match f {
        Field::Stored(_) => r is Ok && b == a,
        Field::Derived(df) => match spec_infer(derived_env(a.env()), df.expr, Some(entity), None) {
            Err(x) => r == Err::<(), ErrV>(x) && b == a,
            Ok(t) => if t == TyView::Secret {
                r == Err::<(), ErrV>(("L051"@, l051_text(df.name@), df.span)) && b == a
            } else {
                &&& same_rest(a, b)
                &&& field_type_set(a.schema, b.schema, entity, df.name@, t)
                &&& match spec_deps(b.env(), df.expr, entity) {
                    Err(x) => r == Err::<(), ErrV>(x),
                    Ok(d) => r is Ok && graph_changed(
                        a.graph,
                        b.graph,
                        d.insert((entity, df.name@)),
                        edges_into(d, (entity, df.name@)),
                    ),
                }
            },
        },
        Field::Ref(rf) => {
            &&& r is Ok
            &&& same_rest(a, b)
            &&& b.schema == a.schema
            &&& graph_changed(
                a.graph,
                b.graph,
                set![(entity, rf.name@), (rf.target_entity@, "__entity__"@)],
                set![((rf.target_entity@, "__entity__"@), (entity, rf.name@))],
            )
        },
    }
}

/// A result as a check: `Ok`, or its single error.
pub open spec fn as_check(r: Result<(), Vec<AnalyzerError>>) -> Check {
    match r {
        Ok(_) => Ok(()),
        Err(v) => Err(err_view(v@[0])),
    }
}

pub open spec fn single_error(r: Result<(), Vec<AnalyzerError>>) -> bool {
    r is Err ==> r->Err_0@.len() == 1
}

/// Checking the fields in order: each one that passes leads to the next
/// state; the first that fails gives the result.
pub open spec fn fields_checked(
    a: Analyzer,
    b: Analyzer,
    entity: Seq<char>,
    fs: Seq<Field>,
    r: Check,
) -> bool {
    exists|st: Seq<Analyzer>|
        #![trigger st.len()]
        1 <= st.len() <= fs.len() + 1 && st[0] == a && (forall|i: int|
            0 <= i < st.len() - 1 ==> #[trigger] field_checked(st[i], st[i + 1], entity, fs[i], Ok(())))
            && if r is Ok {
            st.len() == fs.len() + 1 && st[st.len() - 1] == b
        } else {
            st.len() <= fs.len() && field_checked(st[st.len() - 1], b, entity, fs[st.len() - 1], r)
        }
}

impl Analyzer {
    /// The type of an expression with the derived-field context set as given
    /// for the time of the call.
    pub fn infer_type_ctx(
        &mut self,
        expr: &Expr,
        entity_ctx: Option<&str>,
        locals: Option<&StrMap<LuminaType>>,
        is_derived: bool,
    ) -> (r: Result<LuminaType, AnalyzerError>)
        requires
            old(self).wf(),
            locals matches Some(m) ==> m.wf(),
        ensures
            *final(self) == *old(self),
            match r {
                Ok(t) => spec_infer(
                    Env { in_derived_context: is_derived, ..old(self).env() },
                    *expr,
                    ctx_view(entity_ctx),
                    locals_view(locals),
                ) == Ok::<TyView, ErrV>(t@),
                Err(e) => spec_infer(
                    Env { in_derived_context: is_derived, ..old(self).env() },
                    *expr,
                    ctx_view(entity_ctx),
                    locals_view(locals),
                ) == Err::<TyView, ErrV>(err_view(e)),
            },
    {
        let prev = self.in_derived_context;
        self.in_derived_context = is_derived;
        let result = self.infer_type(expr, entity_ctx, locals);
        self.in_derived_context = prev;
        result
    }

    /// Checks a derived field: types its expression, records the type in the
    /// schema, and records what it reads in the graph.
    fn check_derived_field(&mut self, entity_name: &str, df: &crate::ast::DerivedField) -> (r: Result<
        (),
        Vec<AnalyzerError>,
    >)
        requires
            old(self).wf(),
        ensures
            final(self).wf(),
            single_error(r),
            field_checked(*old(self), *final(self), entity_name@, Field::Derived(*df), as_check(r)),
    {
        proof {
            reveal_strlit("L051");
        }
        let result = self.infer_type_ctx(&df.expr, Some(entity_name), None, true);
        let ty = match result {
            Ok(t) => t,
            Err(e) => {
                return Err(vec![e]);
            },
        };
        if type_eq(&ty, &LuminaType::Secret) {
            return Err(
                vec![
                    mk_err(
                        "L051",
                        cat3("The derived field '", df.name.as_str(), "' resolves to a Secret type. Derived fields are automatically computed and their values may be exposed through the reactive graph. Move secret handling into a 'write' action instead."),
                        df.span,
                    ),
                ],
            );
        }
        let ghost t = ty@;
        self.schema.set_field_type(entity_name, df.name.as_str(), ty);
        let ghost g0 = self.graph;
        let target = self.graph.intern(entity_name, df.name.as_str());
        let ghost g1 = self.graph;
        let ghost tn = (entity_name@, df.name@);
        proof {
            assert(g1.named_nodes() == g0.named_nodes() + set![tn]) by {
                assert(g0.named_nodes().insert(tn) =~= g0.named_nodes() + set![tn]);
            }
            assert(g1.named_edges() =~= g0.named_edges() + Set::empty());
        }
        let r = self.collect_dependencies(&df.expr, entity_name, target);
        proof {
            if r is Ok {
                let d = spec_deps(self.env(), df.expr, entity_name@)->Ok_0;
                lemma_graph_changed_trans(
                    g0,
                    g1,
                    self.graph,
                    set![tn],
                    Set::empty(),
                    d,
                    edges_into(d, tn),
                );
                assert(set![tn] + d =~= d.insert(tn));
                assert(Set::empty() + edges_into(d, tn) =~= edges_into(d, tn));
            }
        }
        r
    }

    /// Checks a reference field: an edge from its target entity into it.
    fn check_ref_field(&mut self, entity_name: &str, rf: &crate::ast::RefField)
        requires
            old(self).wf(),
        ensures
            final(self).wf(),
            field_checked(*old(self), *final(self), entity_name@, Field::Ref(*rf), Ok(())),
    {
        let ghost g0 = self.graph;
        let ref_node = self.graph.intern(entity_name, rf.name.as_str());
        let target_node = self.graph.intern(rf.target_entity.as_str(), "__entity__");
        let ghost g2 = self.graph;
        proof {
            reveal_strlit("__entity__");
        }
        self.graph.add_edge(target_node, ref_node);
        proof {
            let a = (entity_name@, rf.name@);
            let b = (rf.target_entity@, "__entity__"@);
            assert(g2.node(ref_node as int) == a);
            assert(self.graph.named_nodes() =~= g0.named_nodes() + set![a, b]);
            assert(self.graph.named_edges() =~= g0.named_edges() + set![(b, a)]);
        }
    }

    /// Checks an entity's fields in order, stopping at the first error.
    pub fn typecheck_entity_fields(&mut self, entity_name: &str, fields: &Vec<Field>) -> (r: Result<
        (),
        Vec<AnalyzerError>,
    >)
        requires
            old(self).wf(),
        ensures
            final(self).wf(),
            single_error(r),
            fields_checked(*old(self), *final(self), entity_name@, fields@, as_check(r)),
    {
        let ghost mut st: Seq<Analyzer> = seq![*self];
        let n = fields.len();
        let mut i: usize = 0;
        while i < n
            invariant
                n == fields@.len(),
                i <= n,
                self.wf(),
                st.len() == i + 1,
                st[0] == *old(self),
                st[i as int] == *self,
                forall|j: int|
                    0 <= j < i ==> #[trigger] field_checked(
                        st[j],
                        st[j + 1],
                        entity_name@,
                        fields@[j],
                        Ok(()),
                    ),
            decreases n - i,
        {
            let ghost before = *self;
            let r = match &fields[i] {
                Field::Derived(df) => self.check_derived_field(entity_name, df),
                Field::Ref(rf) => {
                    self.check_ref_field(entity_name, rf);
                    Ok(())
                },
                Field::Stored(_) => Ok(()),
            };
            match r {
                Ok(_) => {},
                Err(e) => {
                    proof {
                        assert(field_checked(before, *self, entity_name@, fields@[i as int], as_check(Err(e))));
                        assert(st[st.len() - 1] == before);
                    }
                    return Err(e);
                },
            }
            proof {
                let prev = st;
                st = st.push(*self);
                assert forall|j: int| 0 <= j < i + 1 implies #[trigger] field_checked(
                    st[j],
                    st[j + 1],
                    entity_name@,
                    fields@[j],
                    Ok(()),
                ) by {
                    if j < i {
                        assert(st[j] == prev[j] && st[j + 1] == prev[j + 1]);
                    }
                }
            }
            i += 1;
        }
        Ok(())
    }
}

} // verus!
