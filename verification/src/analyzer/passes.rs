use vstd::prelude::*;
use crate::text::{cat3, cat5};
use crate::assoc::StrMap;
use crate::ast::{Field, FnDecl, LuminaType, Program, Span, Statement};
use crate::analyzer::check::{Check, one_error, spec_check_rule};
use crate::analyzer::fields::{as_check, fields_checked, fn_check_errors, single_error};
use crate::analyzer::graph::DependencyGraph;
use crate::analyzer::infer::{Analyzer, AnalyzerError, mk_err};
use crate::analyzer::register::{all_registered, errs, same_but_schema_errors};
use crate::analyzer::types::Schema;
use crate::format::join;

verus! {

/// The output of an analysis that succeeded.
pub struct AnalyzedProgram {
    pub program: Program,
    pub schema: Schema,
    pub graph: DependencyGraph,
    pub fn_defs: StrMap<FnDecl>,
    pub instances: StrMap<LuminaType>,
}

/// The fields a statement declares (those of an entity).
pub open spec fn stmt_fields(s: Statement) -> Seq<Field> {
    match s {
        Statement::Entity(d) => d.fields@,
        Statement::ExternalEntity(d) => d.fields@,
        _ => Seq::empty(),
    }
}

/// The first reference among `fs` to an entity the schema lacks: the entity
/// it names and where it stands.
pub open spec fn missing_ref_in(s: Schema, fs: Seq<Field>) -> Option<(Seq<char>, Span)>
    decreases fs.len(),
{
    if fs.len() == 0 {
        None
    } else {
        match fs[0] {
            Field::Ref(r) => if !s.entities@.contains_key(r.target_entity@) {
                Some((r.target_entity@, r.span))
            } else {
                missing_ref_in(s, fs.drop_first())
            },
            _ => missing_ref_in(s, fs.drop_first()),
        }
    }
}

/// The first reference in the program to an entity the schema lacks.
pub open spec fn first_missing_ref(s: Schema, stmts: Seq<Statement>) -> Option<(Seq<char>, Span)>
    decreases stmts.len(),
{
    if stmts.len() == 0 {
        None
    } else {
        match missing_ref_in(s, stmt_fields(stmts[0])) {
            Some(sp) => Some(sp),
            None => first_missing_ref(s, stmts.drop_first()),
        }
    }
}

/// Two outcomes agree: both pass, or both fail with one error.
pub open spec fn same_check(x: Check, y: Check) -> bool {
    &&& x is Ok <==> y is Ok
    &&& x is Err ==> x->Err_0 == y->Err_0
}

/// What the second pass does with one statement: entities have their fields
/// checked, rules are checked, functions are checked.
pub open spec fn stmt_checked(a: Analyzer, b: Analyzer, s: Statement, r: Check) -> bool {
    match s {
        Statement::Entity(d) => fields_checked(a, b, d.name@, d.fields@, r),
        Statement::ExternalEntity(d) => fields_checked(a, b, d.name@, d.fields@, r),
        Statement::Rule(rule) => same_check(r, spec_check_rule(a.env(), rule)) && b == a,
        Statement::Fn(d) => {
            &&& r is Ok
            &&& same_but_schema_errors(a, b)
            &&& b.schema == a.schema
            &&& errs(b.errors@) == errs(a.errors@) + fn_check_errors(a.env(), d)
        },
        _ => r is Ok && b == a,
    }
}

/// Checking the statements in order up to the first that fails.
pub open spec fn stmts_checked(a: Analyzer, b: Analyzer, stmts: Seq<Statement>, r: Check) -> bool {
    exists|st: Seq<Analyzer>|
        #![trigger st.len()]
        1 <= st.len() <= stmts.len() + 1 && st[0] == a && (forall|i: int|
            0 <= i < st.len() - 1 ==> #[trigger] stmt_checked(st[i], st[i + 1], stmts[i], Ok(())))
            && if r is Ok {
            st.len() == stmts.len() + 1 && st[st.len() - 1] == b
        } else {
            st.len() <= stmts.len() && stmt_checked(st[st.len() - 1], b, stmts[st.len() - 1], r)
        }
}

pub open spec fn l036_text(target: Seq<char>) -> Seq<char> {
    "I can't find the entity '"@ + target
        + "' referenced in this 'ref'. Every 'ref' must point to a defined entity so Lumina can bridge the graph between them. Did you forget to define '"@
        + target + "'?"@
}

pub open spec fn l004_text(chain: Seq<char>) -> Seq<char> {
    "I've detected a circular dependency: "@ + chain
        + ". Lumina is a Directed Acyclic Graph (DAG); fields cannot depend on themselves (directly or indirectly) because the engine would loop forever trying to calculate the final truth."@
}

/// The outcome of the second pass from state `a` to state `b`.
pub open spec fn pass2_outcome(
    a: Analyzer,
    b: Analyzer,
    program: Program,
    r: Result<(), Vec<AnalyzerError>>,
) -> bool {
    match first_missing_ref(a.schema, program.statements@) {
        Some((target, sp)) => r is Err && one_error(r->Err_0, ("L036"@, l036_text(target), sp))
            && b == a,
        None => exists|m: Analyzer, c: Check|
            #![trigger stmts_checked(a, m, program.statements@, c)]
            stmts_checked(a, m, program.statements@, c) && match c {
                Err(x) => r is Err && one_error(r->Err_0, x) && b == m,
                Ok(_) => {
                    &&& b.graph == m.graph
                    &&& b.schema == m.schema
                    &&& b.fn_defs == m.fn_defs
                    &&& b.instances == m.instances
                    &&& if !exists|o: Seq<usize>| m.graph.is_topo_order(o) {
                        r is Err && one_error(
                            r->Err_0,
                            (
                                "L004"@,
                                l004_text(join(m.graph.blocked_names(m.graph.len() as int), " -> "@)),
                                program.span,
                            ),
                        )
                    } else if m.errors@.len() > 0 {
                        r is Err && errs(r->Err_0@) == errs(m.errors@)
                    } else {
                        r is Ok
                    }
                },
            },
    }
}

/// What analysing a program gives: the first pass's errors if it had any;
/// else the second pass's outcome, and on success the schema, graph,
/// functions and instances it built.
pub open spec fn analysis(
    a0: Analyzer,
    program: Program,
    r: Result<AnalyzedProgram, Vec<AnalyzerError>>,
) -> bool {
    exists|a1: Analyzer|
        #![trigger all_registered(a0, a1, program.statements@)]
        all_registered(a0, a1, program.statements@) && if a1.errors@.len() > 0 {
            r is Err && r->Err_0 == a1.errors
        } else {
            exists|a2: Analyzer, r2: Result<(), Vec<AnalyzerError>>|
                #![trigger pass2_outcome(a1, a2, program, r2)]
                pass2_outcome(a1, a2, program, r2) && match r2 {
                    Err(v) => r == Err::<AnalyzedProgram, Vec<AnalyzerError>>(v),
                    Ok(_) => {
                        &&& r is Ok
                        &&& r->Ok_0.program == program
                        &&& r->Ok_0.schema == a2.schema
                        &&& r->Ok_0.graph == a2.graph
                        &&& r->Ok_0.fn_defs == a2.fn_defs
                        &&& r->Ok_0.instances == a2.instances
                    },
                }
        }
}

/// A program that passes analysis has its derived fields in a dependency
/// graph without cycles: some order computes every field after what it reads.
pub proof fn law_analyzed_graph_is_acyclic(
    a0: Analyzer,
    program: Program,
    r: Result<AnalyzedProgram, Vec<AnalyzerError>>,
)
    requires
        analysis(a0, program, r),
        r is Ok,
    ensures
        exists|o: Seq<usize>| r->Ok_0.graph.is_topo_order(o),
{
}

impl Analyzer {
    /// The first reference among `fields` to an entity not in the schema.
    fn find_missing_ref(&self, fields: &Vec<Field>) -> (r: Option<(String, Span)>)
        requires
            self.wf(),
        ensures
            match r {
                Some((t, sp)) => missing_ref_in(self.schema, fields@) == Some((t@, sp)),
                None => missing_ref_in(self.schema, fields@) is None,
            },
    {
        let n = fields.len();
        let mut j: usize = 0;
        assert(fields@.skip(0) =~= fields@);
        while j < n
            invariant
                n == fields@.len(),
                j <= n,
                self.wf(),
                missing_ref_in(self.schema, fields@) == missing_ref_in(
                    self.schema,
                    fields@.skip(j as int),
                ),
            decreases n - j,
        {
            assert(fields@.skip(j as int)[0] == fields@[j as int]);
            assert(fields@.skip(j as int).drop_first() =~= fields@.skip(j + 1));
            match &fields[j] {
                Field::Ref(r) => {
                    if !self.schema.entities.contains_key(r.target_entity.as_str()) {
                        return Some((r.target_entity.clone(), r.span));
                    }
                },
                _ => {},
            }
            j += 1;
        }
        None
    }

    /// The second pass on one statement.
    fn check_statement(&mut self, stmt: &Statement) -> (r: Result<(), Vec<AnalyzerError>>)
        requires
            old(self).wf(),
        ensures
            final(self).wf(),
            single_error(r),
            stmt_checked(*old(self), *final(self), *stmt, as_check(r)),
    {
        let r = match stmt {
            Statement::Entity(decl) => self.typecheck_entity_fields(decl.name.as_str(), &decl.fields),
            Statement::ExternalEntity(decl) => self.typecheck_entity_fields(
                decl.name.as_str(),
                &decl.fields,
            ),
            Statement::Rule(rule) => self.check_rule(rule),
            Statement::Fn(decl) => {
                self.check_fn(decl);
                Ok(())
            },
            _ => Ok(()),
        };
        r
    }

    /// The second pass: every reference names an entity (L036), then each
    /// statement is checked in order, then the graph must have no cycle
    /// (L004); the errors gathered on the way are the result.
    pub fn pass2_typecheck(&mut self, program: &Program) -> (r: Result<(), Vec<AnalyzerError>>)
        requires
            old(self).wf(),
        ensures
            final(self).wf(),
            pass2_outcome(*old(self), *final(self), *program, r),
    {
        proof {
            reveal_strlit("L036");
            reveal_strlit("L004");
        }
        let n = program.statements.len();
        let mut i: usize = 0;
        assert(program.statements@.skip(0) =~= program.statements@);
        while i < n
            invariant
                n == program.statements@.len(),
                i <= n,
                self.wf(),
                *self == *old(self),
                first_missing_ref(self.schema, program.statements@) == first_missing_ref(
                    self.schema,
                    program.statements@.skip(i as int),
                ),
            decreases n - i,
        {
            let ghost rest = program.statements@.skip(i as int);
            assert(rest[0] == program.statements@[i as int]);
            assert(rest.drop_first() =~= program.statements@.skip(i + 1));
            let found = match &program.statements[i] {
                Statement::Entity(e) => self.find_missing_ref(&e.fields),
                Statement::ExternalEntity(e) => self.find_missing_ref(&e.fields),
                _ => {
                    assert(missing_ref_in(self.schema, Seq::<Field>::empty()) is None);
                    None
                },
            };
            match found {
                Some((target, span)) => {
                    return Err(
                        vec![
                            mk_err(
                                "L036",
                                cat5("I can't find the entity '", target.as_str(), "' referenced in this 'ref'. Every 'ref' must point to a defined entity so Lumina can bridge the graph between them. Did you forget to define '", target.as_str(), "'?"),
                                span,
                            ),
                        ],
                    );
                },
                None => {},
            }
            i += 1;
        }
        let ghost a0 = *self;
        let ghost mut st: Seq<Analyzer> = seq![*self];
        let mut i: usize = 0;
        while i < n
            invariant
                n == program.statements@.len(),
                i <= n,
                self.wf(),
                a0 == *old(self),
                first_missing_ref(a0.schema, program.statements@) is None,
                st.len() == i + 1,
                st[0] == a0,
                st[i as int] == *self,
                forall|j: int|
                    0 <= j < i ==> #[trigger] stmt_checked(
                        st[j],
                        st[j + 1],
                        program.statements@[j],
                        Ok(()),
                    ),
            decreases n - i,
        {
            let ghost before = *self;
            let r = self.check_statement(&program.statements[i]);
            match r {
                Ok(_) => {},
                Err(e) => {
                    proof {
                        let c = as_check(Err(e));
                        assert(stmts_checked(a0, *self, program.statements@, c)) by {
                            assert(st[st.len() - 1] == before);
                        }
                    }
                    return Err(e);
                },
            }
            proof {
                let prev = st;
                st = st.push(*self);
                assert forall|j: int| 0 <= j < i + 1 implies #[trigger] stmt_checked(
                    st[j],
                    st[j + 1],
                    program.statements@[j],
                    Ok(()),
                ) by {
                    if j < i {
                        assert(st[j] == prev[j] && st[j + 1] == prev[j + 1]);
                    }
                }
            }
            i += 1;
        }
        let ghost m = *self;
        proof {
            assert(stmts_checked(a0, m, program.statements@, Ok(())));
        }
        match self.graph.compute_topo_order() {
            Err(err) => {
                let chain = crate::format::join_strings(&err.chain, " -> ");
                let v = vec![
                    mk_err(
                        "L004",
                        cat3("I've detected a circular dependency: ", chain.as_str(), ". Lumina is a Directed Acyclic Graph (DAG); fields cannot depend on themselves (directly or indirectly) because the engine would loop forever trying to calculate the final truth."),
                        program.span,
                    ),
                ];
                return Err(v);
            },
            Ok(_) => {},
        }
        if self.errors.len() > 0 {
            let mut taken: Vec<AnalyzerError> = Vec::new();
            std::mem::swap(&mut taken, &mut self.errors);
            Err(taken)
        } else {
            Ok(())
        }
    }

    /// Analyses a program: the first pass, then (if it found nothing wrong)
    /// the second.
    pub fn analyze(self, program: Program) -> (r: Result<AnalyzedProgram, Vec<AnalyzerError>>)
        requires
            self.wf(),
        ensures
            analysis(self, program, r),
    {
        let mut a = self;
        let ghost a0 = a;
        a.pass1_register_entities(&program);
        let ghost a1 = a;
        if a.errors.len() > 0 {
            return Err(a.errors);
        }
        let r2 = a.pass2_typecheck(&program);
        let ghost a2 = a;
        proof {
            assert(pass2_outcome(a1, a2, program, r2));
        }
        match r2 {
            Err(v) => Err(v),
            Ok(_) => Ok(
                AnalyzedProgram {
                    program,
                    schema: a.schema,
                    graph: a.graph,
                    fn_defs: a.fn_defs,
                    instances: a.instances,
                },
            ),
        }
    }
}

} // verus!
