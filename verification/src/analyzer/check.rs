use vstd::prelude::*;
use crate::text::{cat2, cat3, cat4, cat5, cat6};
use crate::assoc::StrMap;
use crate::ast::{
    Action,
    Condition,
    Expr,
    FieldPath,
    FleetCondition,
    Frequency,
    LuminaType,
    RuleDecl,
    RuleTrigger,
    Span,
    TyView,
    f64_bits_nonpositive,
    type_eq,
};
use crate::analyzer::infer::{
    Analyzer,
    AnalyzerError,
    Env,
    ErrV,
    Infer,
    ctx_view,
    err_view,
    locals_view,
    mk_err,
    spec_infer,
    ty_debug,
    tyv_debug,
};
use crate::analyzer::types::{EntitySchema, FieldSchema, lookup_field};
use crate::text::{decimal, u64_to_decimal};

verus! {

/// A check's outcome: fine, or the first error (code, message and span).
pub type Check = Result<(), ErrV>;

/// The entity an action's target names: the entity type of a local or of an
/// instance of that name, else the name itself.
pub open spec fn target_entity(
    a: Env,
    locals: Option<Map<Seq<char>, TyView>>,
    inst: Seq<char>,
) -> Seq<char> {
    if locals is Some && locals.unwrap().contains_key(inst) && locals.unwrap()[inst] is Entity {
        match locals.unwrap()[inst] {
            TyView::Entity(e) => e,
            _ => inst,
        }
    } else if a.instances@.contains_key(inst) && a.instances@[inst]@ is Entity {
        match a.instances@[inst]@ {
            TyView::Entity(e) => e,
            _ => inst,
        }
    } else {
        inst
    }
}

/// The values given to `create`, from the `i`-th on: each names a field of
/// the entity and has its type.
pub open spec fn spec_create_fields(
    a: Env,
    entity: Seq<char>,
    fields: Map<Seq<char>, FieldSchema>,
    given: Seq<(String, Expr)>,
    i: int,
    span: Span,
    locals: Option<Map<Seq<char>, TyView>>,
) -> Check
    decreases given.len() - i,
{
    if i < 0 || i >= given.len() {
        Ok(())
    } else if !fields.contains_key(given[i].0@) {
        Err(("L010"@, unknown_field_text(given[i].0@, entity), span))
    } else {
        match spec_infer(a, given[i].1, None, locals) {
            Err(x) => Err(x),
            Ok(t) => if t != fields[given[i].0@].ty@ {
                Err(("L002"@, "Type mismatch for field '"@ + given[i].0@ + "'"@, span))
            } else {
                spec_create_fields(a, entity, fields, given, i + 1, span, locals)
            },
        }
    }
}

/// The message for a field an entity does not have.
pub open spec fn unknown_field_text(field: Seq<char>, entity: Seq<char>) -> Seq<char> {
    "Unknown field '"@ + field + "' on entity '"@ + entity + "'"@
}

/// The first stored field, in declaration order, that no given value names.
pub open spec fn first_missing(fs: Seq<(String, FieldSchema)>, given: Seq<(String, Expr)>) -> Option<
    Seq<char>,
>
    decreases fs.len(),
{
    if fs.len() == 0 {
        None
    } else if !fs[0].1.is_derived && forall|j: int| 0 <= j < given.len() ==> given[j].0@ != fs[0].0@ {
        Some(fs[0].0@)
    } else {
        first_missing(fs.drop_first(), given)
    }
}

/// The `i`-th field is stored and given no value.
pub open spec fn missing_at(fs: Seq<(String, FieldSchema)>, given: Seq<(String, Expr)>, i: int) -> bool {
    !fs[i].1.is_derived && forall|j: int| 0 <= j < given.len() ==> given[j].0@ != fs[i].0@
}

/// Past fields that are not missing, the search goes on from the first that may be.
pub proof fn lemma_first_missing_skip(
    fs: Seq<(String, FieldSchema)>,
    given: Seq<(String, Expr)>,
    k: int,
)
    requires
        0 <= k <= fs.len(),
        forall|i: int| 0 <= i < k ==> !#[trigger] missing_at(fs, given, i),
    ensures
        first_missing(fs, given) == first_missing(fs.skip(k), given),
    decreases k,
{
    if k == 0 {
        assert(fs.skip(0) =~= fs);
    } else {
        assert(!missing_at(fs, given, 0));
        let rest = fs.drop_first();
        assert forall|i: int| 0 <= i < k - 1 implies !#[trigger] missing_at(rest, given, i) by {
            assert(!missing_at(fs, given, i + 1));
        }
        lemma_first_missing_skip(rest, given, k - 1);
        assert(rest.skip(k - 1) =~= fs.skip(k));
    }
}

/// What checking an action finds.
pub open spec fn spec_check_action(
    a: Env,
    action: Action,
    rule_span: Span,
    locals: Option<Map<Seq<char>, TyView>>,
) -> Check {
    match action {
        Action::Show(e) => match spec_infer(a, e, None, locals) {
            Err(x) => Err(x),
            Ok(t) => if t == TyView::Secret {
                Err(
                    (
                        "L050"@,
                        "You can't use 'show' with a Secret value. Secret fields are designed to never appear in output to prevent credential leakage. Use 'write' to pass secrets to external adapters instead."@,
                        rule_span,
                    ),
                )
            } else {
                Ok(())
            },
        },
        Action::Update { target, value } => {
            let en = target_entity(a, locals, target.instance@);
            match lookup_field(a.schema, en, target.field@) {
                None => Err(("L010"@, unknown_field_text(target.field@, target.instance@), target.span)),
                Some(f) => if f.is_derived {
                    Err(
                        (
                            "L003"@,
                            "I can't manually update '"@ + target.field@
                                + "' because it's a derived field (it uses :=). Its value is automatically maintained by the engine."@,
                            target.span,
                        ),
                    )
                } else {
                    match spec_infer(a, value, None, locals) {
                        Err(x) => Err(x),
                        Ok(t) => if t != f.ty@ {
                            Err(("L002"@, "Type mismatch in update"@, target.span))
                        } else {
                            Ok(())
                        },
                    }
                },
            }
        },
        Action::Create { entity, fields } => if !a.schema.entities@.contains_key(entity@) {
            Err(
                (
                    "L008"@,
                    "I don't know what a '"@ + entity@
                        + "' is. You're trying to create one in a rule, but I only know about entities that have been defined earlier. Did you forget to add 'entity "@
                        + entity@ + " { ... }' to your code?"@,
                    rule_span,
                ),
            )
        } else {
            let efs = a.schema.entities@[entity@].fields;
            match spec_create_fields(a, entity@, efs@, fields@, 0, rule_span, locals) {
                Err(x) => Err(x),
                Ok(_) => match first_missing(efs.pairs(), fields@) {
                    Some(name) => Err(
                        (
                            "L007"@,
                            "I can't create this entity because the field '."@ + name
                                + "' is missing. Every stored field must be given a value during creation so the system starts with a valid 'truth'."@,
                            rule_span,
                        ),
                    ),
                    None => Ok(()),
                },
            }
        },
        Action::Delete(inst) => if !a.schema.entities@.contains_key(inst@) {
            Err(("L001"@, "Unknown instance: "@ + inst@, rule_span))
        } else {
            Ok(())
        },
        Action::Alert(_) => Ok(()),
        Action::Write { target, value } => {
            let en = target_entity(a, locals, target.instance@);
            if !a.schema.entities@.contains_key(en) {
                Err(("L001"@, "Unknown entity: "@ + en, target.span))
            } else if !a.schema.entities@[en].is_external {
                Err(
                    (
                        "L038"@,
                        "I can't use a 'write' action on '"@ + en
                            + "' because it is a local entity. 'write' is reserved for sending data to external hardware or systems. For local data, use 'update' instead."@,
                        target.span,
                    ),
                )
            } else {
                match lookup_field(a.schema, en, target.field@) {
                    None => Err(("L010"@, unknown_field_text(target.field@, en), target.span)),
                    Some(f) => match spec_infer(a, value, None, locals) {
                        Err(x) => Err(x),
                        Ok(t) => if t != f.ty@ {
                            Err(("L002"@, "Type mismatch in write"@, target.span))
                        } else {
                            Ok(())
                        },
                    },
                }
            }
        },
    }
}

/// The `i`-th action on, in order.
pub open spec fn spec_check_actions(
    a: Env,
    actions: Seq<Action>,
    i: int,
    rule_span: Span,
    locals: Option<Map<Seq<char>, TyView>>,
) -> Check
    decreases actions.len() - i,
{
    if i < 0 || i >= actions.len() {
        Ok(())
    } else {
        match spec_check_action(a, actions[i], rule_span, locals) {
            Err(x) => Err(x),
            Ok(_) => spec_check_actions(a, actions, i + 1, rule_span, locals),
        }
    }
}

/// A frequency needs at least two occurrences (L039) in a window longer
/// than zero (L040); a fleet trigger's frequency is reported more tersely.
pub open spec fn spec_check_frequency(f: Option<Frequency>, fleet: bool) -> Check {
    match f {
        None => Ok(()),
        Some(fr) => if fr.count < 2 {
            Err(
                (
                    "L039"@,
                    if fleet {
                        "frequency count must be >= 2, got "@ + decimal(fr.count as nat)
                    } else {
                        "A frequency condition requires at least 2 occurrences, but you've specified "@
                            + decimal(fr.count as nat)
                            + ". Lumina uses frequency to detect patterns over time (like 'at least twice in 5s'). Change this to 2 or more."@
                    },
                    fr.span,
                ),
            )
        } else if f64_bits_nonpositive(fr.within.value) {
            Err(
                (
                    "L040"@,
                    if fleet {
                        "frequency window duration must be > 0"@
                    } else {
                        "A frequency 'within' duration must be greater than 0 seconds. Lumina cannot calculate a rate over a zero-length time window. Please provide a positive duration (e.g., 'within 5s')."@
                    },
                    fr.span,
                ),
            )
        } else {
            Ok(())
        },
    }
}

/// A `when` condition: with `becomes`, both sides of one type; without it,
/// a Boolean.
pub open spec fn spec_check_condition(
    a: Env,
    c: Condition,
    rule_span: Span,
    locals: Option<Map<Seq<char>, TyView>>,
) -> Check {
    match spec_infer(a, c.expr, None, locals) {
        Err(x) => Err(x),
        Ok(t) => {
            let ok = match c.becomes {
                Some(b) => match spec_infer(a, b, None, locals) {
                    Err(x) => Err(x),
                    Ok(bt) => if t != bt {
                        Err(
                            (
                                "L002"@,
                                "becomes target type mismatch: expected "@ + tyv_debug(t) + ", got "@
                                    + tyv_debug(bt),
                                rule_span,
                            ),
                        )
                    } else {
                        Ok(())
                    },
                },
                None => if t != TyView::Boolean {
                    Err(("L002"@, "when condition must be Boolean if 'becomes' is not used"@, rule_span))
                } else {
                    Ok(())
                },
            };
            match ok {
                Err(x) => Err(x),
                Ok(_) => spec_check_frequency(c.frequency, false),
            }
        },
    }
}

pub open spec fn spec_check_conditions(
    a: Env,
    conds: Seq<Condition>,
    i: int,
    rule_span: Span,
    locals: Option<Map<Seq<char>, TyView>>,
) -> Check
    decreases conds.len() - i,
{
    if i < 0 || i >= conds.len() {
        Ok(())
    } else {
        match spec_check_condition(a, conds[i], rule_span, locals) {
            Err(x) => Err(x),
            Ok(_) => spec_check_conditions(a, conds, i + 1, rule_span, locals),
        }
    }
}

/// A fleet trigger (`any` / `all`): a Boolean field of a known entity, a
/// Boolean `becomes` value, and a sound frequency.
pub open spec fn spec_check_fleet(
    a: Env,
    fc: FleetCondition,
    rule_span: Span,
    locals: Option<Map<Seq<char>, TyView>>,
) -> Check {
    if !a.schema.entities@.contains_key(fc.entity@) {
        Err(("L026"@, "unknown entity '"@ + fc.entity@ + "' in fleet trigger"@, rule_span))
    } else if !a.schema.entities@[fc.entity@].fields@.contains_key(fc.field@) {
        Err(("L027"@, "unknown field '"@ + fc.field@ + "' on entity '"@ + fc.entity@ + "'"@, rule_span))
    } else if a.schema.entities@[fc.entity@].fields@[fc.field@].ty@ != TyView::Boolean {
        Err(
            (
                "L027"@,
                "fleet trigger field '"@ + fc.entity@ + "."@ + fc.field@ + "' must be Boolean, found "@
                    + tyv_debug(a.schema.entities@[fc.entity@].fields@[fc.field@].ty@),
                rule_span,
            ),
        )
    } else {
        match spec_infer(a, fc.becomes, None, locals) {
            Err(x) => Err(x),
            Ok(t) => if t != TyView::Boolean {
                Err(("L002"@, "fleet trigger becomes value must be Boolean"@, rule_span))
            } else {
                spec_check_frequency(fc.frequency, true)
            },
        }
    }
}

/// The locals a rule's parameter brings.
pub open spec fn rule_locals(r: RuleDecl) -> Option<Map<Seq<char>, TyView>> {
    match r.param {
        Some(p) => Some(Map::empty().insert(p.name@, TyView::Entity(p.entity@))),
        None => None,
    }
}

/// What checking a rule finds: its parameter's entity must exist (L026); a
/// `when` has at most three conditions (L035); then the trigger, then the
/// actions.
pub open spec fn spec_check_rule(a: Env, r: RuleDecl) -> Check {
    if r.param is Some && !a.schema.entities@.contains_key(r.param.unwrap().entity@) {
        Err(
            (
                "L026"@,
                "I don't recognize the entity type '"@ + r.param.unwrap().entity@
                    + "'. You're trying to use it as a parameter in this rule, but I only know about entities that were declared earlier. Did you forget to define '"@
                    + r.param.unwrap().entity@ + "'?"@,
                r.span,
            ),
        )
    } else {
        let locals = rule_locals(r);
        let t = match r.trigger {
            RuleTrigger::When(conds) => if conds@.len() > 3 {
                Err(
                    (
                        "L035"@,
                        "multi-condition trigger has "@ + decimal(conds@.len()) + " clauses, max is 3"@,
                        r.span,
                    ),
                )
            } else {
                spec_check_conditions(a, conds@, 0, r.span, locals)
            },
            RuleTrigger::Any(fc) => spec_check_fleet(a, fc, r.span, locals),
            RuleTrigger::All(fc) => spec_check_fleet(a, fc, r.span, locals),
            RuleTrigger::Every(_) => Ok(()),
        };
        match t {
            Err(x) => Err(x),
            Ok(_) => spec_check_actions(a, r.actions@, 0, r.span, locals),
        }
    }
}

/// A single error as the list the checks return.
pub open spec fn one_error(v: Vec<AnalyzerError>, x: ErrV) -> bool {
    v@.len() == 1 && err_view(v@[0]) == x
}

pub open spec fn check_matches(r: Result<(), Vec<AnalyzerError>>, c: Check) -> bool {
    match r {
        Ok(_) => c is Ok,
        Err(v) => c is Err && one_error(v, c->Err_0),
    }
}

impl Analyzer {
    /// The entity an action's target names.
    fn target_entity_name(
        &self,
        target: &FieldPath,
        locals: Option<&StrMap<LuminaType>>,
    ) -> (r: String)
        requires
            self.wf(),
            locals matches Some(m) ==> m.wf(),
        ensures
            r@ == target_entity(self.env(), locals_view(locals), target.instance@),
    {
        match locals {
            Some(l) => match l.get(target.instance.as_str()) {
                Some(LuminaType::Entity(e)) => {
                    return e.clone();
                },
                _ => {},
            },
            None => {},
        }
        match self.instances.get(target.instance.as_str()) {
            Some(LuminaType::Entity(e)) => e.clone(),
            _ => target.instance.clone(),
        }
    }

    /// The values given to `create`, from the `i`-th on.
    fn check_create_fields(
        &self,
        es: &EntitySchema,
        given: &Vec<(String, Expr)>,
        i: usize,
        rule_span: Span,
        entity: &String,
        locals: Option<&StrMap<LuminaType>>,
    ) -> (r: Result<(), AnalyzerError>)
        requires
            self.wf(),
            es.fields.wf(),
            locals matches Some(m) ==> m.wf(),
            i <= given@.len(),
        ensures
            match r {
                Ok(_) => spec_create_fields(
                    self.env(),
                    entity@,
                    es.fields@,
                    given@,
                    i as int,
                    rule_span,
                    locals_view(locals),
                ) is Ok,
                Err(e) => spec_create_fields(
                    self.env(),
                    entity@,
                    es.fields@,
                    given@,
                    i as int,
                    rule_span,
                    locals_view(locals),
                ) == Err::<(), ErrV>(err_view(e)),
            },
        decreases given@.len() - i,
    {
        proof {
            reveal_strlit("L010");
            reveal_strlit("L002");
        }
        if i >= given.len() {
            return Ok(());
        }
        let name = &given[i].0;
        let f = match es.fields.get(name.as_str()) {
            Some(f) => f,
            None => {
                return Err(
                    mk_err(
                        "L010",
                        cat5("Unknown field '", name.as_str(), "' on entity '", entity.as_str(), "'"),
                        rule_span,
                    ),
                );
            },
        };
        let ty = self.infer_type(&given[i].1, None, locals);
        assert(ctx_view(None) == None::<Seq<char>>);
        let ty = match ty {
            Ok(t) => t,
            Err(e) => {
                return Err(e);
            },
        };
        if !type_eq(&ty, &f.ty) {
            return Err(
                mk_err(
                    "L002",
                    cat3("Type mismatch for field '", name.as_str(), "'"),
                    rule_span,
                ),
            );
        }
        self.check_create_fields(es, given, i + 1, rule_span, entity, locals)
    }

    /// A stored field of the entity that no given value names, if any: the
    /// first in the schema's order.
    fn missing_stored_field(es: &EntitySchema, given: &Vec<(String, Expr)>) -> (r: Option<String>)
        requires
            es.fields.wf(),
        ensures
            match r {
                Some(n) => first_missing(es.fields.pairs(), given@) == Some(n@),
                None => first_missing(es.fields.pairs(), given@) is None,
            },
    {
        let names = es.fields.keys();
        let ghost fs = es.fields.pairs();
        let n = names.len();
        let mut k: usize = 0;
        while k < n
            invariant
                n == names@.len(),
                n == fs.len(),
                fs == es.fields.pairs(),
                k <= n,
                forall|i: int| 0 <= i < n ==> #[trigger] names@[i] == fs[i].0,
                forall|i: int| 0 <= i < k ==> !#[trigger] missing_at(fs, given@, i),
            decreases n - k,
        {
            let f = es.fields.value_at(k);
            if !f.is_derived {
                let m = given.len();
                let mut j: usize = 0;
                let mut found = false;
                while j < m
                    invariant
                        m == given@.len(),
                        k < names@.len(),
                        j <= m,
                        found == exists|q: int| 0 <= q < j && given@[q].0@ == names@[k as int]@,
                    decreases m - j,
                {
                    if crate::text::str_eq(given[j].0.as_str(), names[k].as_str()) {
                        found = true;
                    }
                    j += 1;
                }
                if !found {
                    proof {
                        assert(missing_at(fs, given@, k as int));
                        lemma_first_missing_skip(fs, given@, k as int);
                        assert(fs.skip(k as int)[0] == fs[k as int]);
                    }
                    return Some(names[k].clone());
                }
                assert(!missing_at(fs, given@, k as int));
            }
            k += 1;
        }
        proof {
            lemma_first_missing_skip(fs, given@, n as int);
            assert(fs.skip(n as int).len() == 0);
        }
        None
    }

    /// Checks an action of a rule.
    pub fn check_action(
        &self,
        action: &Action,
        rule_span: Span,
        locals: Option<&StrMap<LuminaType>>,
    ) -> (r: Result<(), Vec<AnalyzerError>>)
        requires
            self.wf(),
            locals matches Some(m) ==> m.wf(),
        ensures
            check_matches(r, spec_check_action(self.env(), *action, rule_span, locals_view(locals))),
    {
        proof {
            reveal_strlit("L050");
            reveal_strlit("L010");
            reveal_strlit("L003");
            reveal_strlit("L002");
            reveal_strlit("L008");
            reveal_strlit("L007");
            reveal_strlit("L001");
            reveal_strlit("L038");
        }
        assert(ctx_view(None) == None::<Seq<char>>);
        match action {
            Action::Show(expr) => {
                let ty = match self.infer_type(expr, None, locals) {
                    Ok(t) => t,
                    Err(e) => {
                        return Err(vec![e]);
                    },
                };
                if type_eq(&ty, &LuminaType::Secret) {
                    return Err(
                        vec![
                            mk_err(
                                "L050",
                                String::from_str(
                                    "You can't use 'show' with a Secret value. Secret fields are designed to never appear in output to prevent credential leakage. Use 'write' to pass secrets to external adapters instead.",
                                ),
                                rule_span,
                            ),
                        ],
                    );
                }
                Ok(())
            },
            Action::Update { target, value } => {
                let entity_name = self.target_entity_name(target, locals);
                let field_schema = match self.schema.get_field(
                    entity_name.as_str(),
                    target.field.as_str(),
                ) {
                    Some(f) => f,
                    None => {
                        return Err(
                            vec![
                                mk_err(
                                    "L010",
                                    cat5("Unknown field '", target.field.as_str(), "' on entity '", target.instance.as_str(), "'"),
                                    target.span,
                                ),
                            ],
                        );
                    },
                };
                if field_schema.is_derived {
                    return Err(
                        vec![
                            mk_err(
                                "L003",
                                cat3("I can't manually update '", target.field.as_str(), "' because it's a derived field (it uses :=). Its value is automatically maintained by the engine."),
                                target.span,
                            ),
                        ],
                    );
                }
                let val_ty = match self.infer_type(value, None, locals) {
                    Ok(t) => t,
                    Err(e) => {
                        return Err(vec![e]);
                    },
                };
                if !type_eq(&val_ty, &field_schema.ty) {
                    return Err(
                        vec![
                            mk_err("L002", String::from_str("Type mismatch in update"), target.span),
                        ],
                    );
                }
                Ok(())
            },
            Action::Create { entity, fields } => {
                let es = match self.schema.get_entity(entity.as_str()) {
                    Some(es) => es,
                    None => {
                        return Err(
                            vec![
                                mk_err(
                                    "L008",
                                    cat5("I don't know what a '", entity.as_str(), "' is. You're trying to create one in a rule, but I only know about entities that have been defined earlier. Did you forget to add 'entity ", entity.as_str(), " { ... }' to your code?"),
                                    rule_span,
                                ),
                            ],
                        );
                    },
                };
                match self.check_create_fields(es, fields, 0, rule_span, entity, locals) {
                    Ok(_) => {},
                    Err(e) => {
                        return Err(vec![e]);
                    },
                }
                match Self::missing_stored_field(es, fields) {
                    Some(name) => Err(
                        vec![
                            mk_err(
                                "L007",
                                cat3("I can't create this entity because the field '.", name.as_str(), "' is missing. Every stored field must be given a value during creation so the system starts with a valid 'truth'."),
                                rule_span,
                            ),
                        ],
                    ),
                    None => Ok(()),
                }
            },
            Action::Delete(instance) => {
                if !self.schema.entities.contains_key(instance.as_str()) {
                    return Err(
                        vec![
                            mk_err(
                                "L001",
                                cat2("Unknown instance: ", instance.as_str()),
                                rule_span,
                            ),
                        ],
                    );
                }
                Ok(())
            },
            Action::Alert(_) => Ok(()),
            Action::Write { target, value } => {
                let entity_name = self.target_entity_name(target, locals);
                let es = match self.schema.get_entity(entity_name.as_str()) {
                    Some(es) => es,
                    None => {
                        return Err(
                            vec![
                                mk_err(
                                    "L001",
                                    cat2("Unknown entity: ", entity_name.as_str()),
                                    target.span,
                                ),
                            ],
                        );
                    },
                };
                if !es.is_external {
                    return Err(
                        vec![
                            mk_err(
                                "L038",
                                cat3("I can't use a 'write' action on '", entity_name.as_str(), "' because it is a local entity. 'write' is reserved for sending data to external hardware or systems. For local data, use 'update' instead."),
                                target.span,
                            ),
                        ],
                    );
                }
                match es.fields.get(target.field.as_str()) {
                    Some(field_schema) => {
                        let val_ty = match self.infer_type(value, None, locals) {
                            Ok(t) => t,
                            Err(e) => {
                                return Err(vec![e]);
                            },
                        };
                        if !type_eq(&val_ty, &field_schema.ty) {
                            return Err(
                                vec![
                                    mk_err(
                                        "L002",
                                        String::from_str("Type mismatch in write"),
                                        target.span,
                                    ),
                                ],
                            );
                        }
                        Ok(())
                    },
                    None => Err(
                        vec![
                            mk_err(
                                "L010",
                                cat5("Unknown field '", target.field.as_str(), "' on entity '", entity_name.as_str(), "'"),
                                target.span,
                            ),
                        ],
                    ),
                }
            },
        }
    }
}


impl Analyzer {
    /// Checks a frequency; `fleet` picks the wording of a fleet trigger.
    fn check_frequency(f: &Option<Frequency>, fleet: bool) -> (r: Result<(), Vec<AnalyzerError>>)
        ensures
            check_matches(r, spec_check_frequency(*f, fleet)),
    {
        proof {
            reveal_strlit("L039");
            reveal_strlit("L040");
        }
        match f {
            None => Ok(()),
            Some(fr) => {
                if fr.count < 2 {
                    let c = u64_to_decimal(fr.count as u64);
                    let msg = if fleet {
                        cat2("frequency count must be >= 2, got ", c.as_str())
                    } else {
                        cat3("A frequency condition requires at least 2 occurrences, but you've specified ", c.as_str(), ". Lumina uses frequency to detect patterns over time (like 'at least twice in 5s'). Change this to 2 or more.")
                    };
                    return Err(vec![mk_err("L039", msg, fr.span)]);
                }
                if fr.within.is_nonpositive() {
                    let msg = if fleet {
                        String::from_str("frequency window duration must be > 0")
                    } else {
                        String::from_str(
                            "A frequency 'within' duration must be greater than 0 seconds. Lumina cannot calculate a rate over a zero-length time window. Please provide a positive duration (e.g., 'within 5s').",
                        )
                    };
                    return Err(vec![mk_err("L040", msg, fr.span)]);
                }
                Ok(())
            },
        }
    }

    fn check_condition(
        &self,
        c: &Condition,
        rule_span: Span,
        locals: Option<&StrMap<LuminaType>>,
    ) -> (r: Result<(), Vec<AnalyzerError>>)
        requires
            self.wf(),
            locals matches Some(m) ==> m.wf(),
        ensures
            check_matches(r, spec_check_condition(self.env(), *c, rule_span, locals_view(locals))),
    {
        proof {
            reveal_strlit("L002");
        }
        assert(ctx_view(None) == None::<Seq<char>>);
        let ty = match self.infer_type(&c.expr, None, locals) {
            Ok(t) => t,
            Err(e) => {
                return Err(vec![e]);
            },
        };
        match &c.becomes {
            Some(b) => {
                let b_ty = match self.infer_type(b, None, locals) {
                    Ok(t) => t,
                    Err(e) => {
                        return Err(vec![e]);
                    },
                };
                if !type_eq(&ty, &b_ty) {
                    let x = ty_debug(&ty);
                    let y = ty_debug(&b_ty);
                    return Err(
                        vec![
                            mk_err(
                                "L002",
                                cat4("becomes target type mismatch: expected ", x.as_str(), ", got ", y.as_str()),
                                rule_span,
                            ),
                        ],
                    );
                }
            },
            None => {
                if !type_eq(&ty, &LuminaType::Boolean) {
                    return Err(
                        vec![
                            mk_err(
                                "L002",
                                String::from_str(
                                    "when condition must be Boolean if 'becomes' is not used",
                                ),
                                rule_span,
                            ),
                        ],
                    );
                }
            },
        }
        Self::check_frequency(&c.frequency, false)
    }

    fn check_fleet(
        &self,
        fc: &FleetCondition,
        rule_span: Span,
        locals: Option<&StrMap<LuminaType>>,
    ) -> (r: Result<(), Vec<AnalyzerError>>)
        requires
            self.wf(),
            locals matches Some(m) ==> m.wf(),
        ensures
            check_matches(r, spec_check_fleet(self.env(), *fc, rule_span, locals_view(locals))),
    {
        proof {
            reveal_strlit("L026");
            reveal_strlit("L027");
            reveal_strlit("L002");
        }
        assert(ctx_view(None) == None::<Seq<char>>);
        let es = match self.schema.entities.get(fc.entity.as_str()) {
            Some(es) => es,
            None => {
                return Err(
                    vec![
                        mk_err(
                            "L026",
                            cat3("unknown entity '", fc.entity.as_str(), "' in fleet trigger"),
                            rule_span,
                        ),
                    ],
                );
            },
        };
        match es.fields.get(fc.field.as_str()) {
            Some(fs) => {
                if !type_eq(&fs.ty, &LuminaType::Boolean) {
                    let d = ty_debug(&fs.ty);
                    return Err(
                        vec![
                            mk_err(
                                "L027",
                                cat6("fleet trigger field '", fc.entity.as_str(), ".", fc.field.as_str(), "' must be Boolean, found ", d.as_str()),
                                rule_span,
                            ),
                        ],
                    );
                }
            },
            None => {
                return Err(
                    vec![
                        mk_err(
                            "L027",
                            cat5("unknown field '", fc.field.as_str(), "' on entity '", fc.entity.as_str(), "'"),
                            rule_span,
                        ),
                    ],
                );
            },
        }
        let b_ty = match self.infer_type(&fc.becomes, None, locals) {
            Ok(t) => t,
            Err(e) => {
                return Err(vec![e]);
            },
        };
        if !type_eq(&b_ty, &LuminaType::Boolean) {
            return Err(
                vec![
                    mk_err(
                        "L002",
                        String::from_str("fleet trigger becomes value must be Boolean"),
                        rule_span,
                    ),
                ],
            );
        }
        Self::check_frequency(&fc.frequency, true)
    }

    /// Checks a rule: its parameter, its trigger and its actions.
    pub fn check_rule(&self, rule: &RuleDecl) -> (r: Result<(), Vec<AnalyzerError>>)
        requires
            self.wf(),
        ensures
            check_matches(r, spec_check_rule(self.env(), *rule)),
    {
        proof {
            reveal_strlit("L026");
            reveal_strlit("L035");
        }
        let mut param_locals: StrMap<LuminaType> = StrMap::new();
        let mut has_param = false;
        match &rule.param {
            Some(param) => {
                if self.schema.get_entity(param.entity.as_str()).is_some() {
                    param_locals.insert(param.name.clone(), LuminaType::Entity(param.entity.clone()));
                    has_param = true;
                } else {
                    return Err(
                        vec![
                            mk_err(
                                "L026",
                                cat5("I don't recognize the entity type '", param.entity.as_str(), "'. You're trying to use it as a parameter in this rule, but I only know about entities that were declared earlier. Did you forget to define '", param.entity.as_str(), "'?"),
                                rule.span,
                            ),
                        ],
                    );
                }
            },
            None => {},
        }
        let locals_ref = if has_param {
            Some(&param_locals)
        } else {
            None
        };
        proof {
            assert(locals_view(locals_ref) =~= rule_locals(*rule)) by {
                if has_param {
                    assert(param_locals@.map_values(|t: LuminaType| t@) =~= rule_locals(
                        *rule,
                    ).unwrap());
                }
            }
        }
        match &rule.trigger {
            RuleTrigger::When(conds) => {
                if conds.len() > 3 {
                    let c = u64_to_decimal(conds.len() as u64);
                    return Err(
                        vec![
                            mk_err(
                                "L035",
                                cat3("multi-condition trigger has ", c.as_str(), " clauses, max is 3"),
                                rule.span,
                            ),
                        ],
                    );
                }
                let n = conds.len();
                let mut i: usize = 0;
                while i < n
                    invariant
                        n == conds@.len(),
                        n <= 3,
                        i <= n,
                        self.wf(),
                        rule.trigger == RuleTrigger::When(*conds),
                        locals_view(locals_ref) == rule_locals(*rule),
                        !(rule.param is Some && !self.schema.entities@.contains_key(
                            rule.param.unwrap().entity@,
                        )),
                        locals_ref matches Some(m) ==> m.wf(),
                        spec_check_conditions(self.env(), conds@, 0, rule.span, locals_view(locals_ref))
                            == spec_check_conditions(
                            self.env(),
                            conds@,
                            i as int,
                            rule.span,
                            locals_view(locals_ref),
                        ),
                    decreases n - i,
                {
                    match self.check_condition(&conds[i], rule.span, locals_ref) {
                        Ok(_) => {},
                        Err(e) => {
                            return Err(e);
                        },
                    }
                    i += 1;
                }
            },
            RuleTrigger::Any(fc) => {
                match self.check_fleet(fc, rule.span, locals_ref) {
                    Ok(_) => {},
                    Err(e) => {
                        return Err(e);
                    },
                }
            },
            RuleTrigger::All(fc) => {
                match self.check_fleet(fc, rule.span, locals_ref) {
                    Ok(_) => {},
                    Err(e) => {
                        return Err(e);
                    },
                }
            },
            RuleTrigger::Every(_) => {},
        }
        assert(spec_check_rule(self.env(), *rule) == spec_check_actions(
            self.env(),
            rule.actions@,
            0,
            rule.span,
            rule_locals(*rule),
        ));
        let n = rule.actions.len();
        let mut i: usize = 0;
        while i < n
            invariant
                n == rule.actions@.len(),
                i <= n,
                self.wf(),
                locals_view(locals_ref) == rule_locals(*rule),
                spec_check_rule(self.env(), *rule) == spec_check_actions(
                    self.env(),
                    rule.actions@,
                    0,
                    rule.span,
                    rule_locals(*rule),
                ),
                locals_ref matches Some(m) ==> m.wf(),
                spec_check_actions(self.env(), rule.actions@, 0, rule.span, locals_view(locals_ref))
                    == spec_check_actions(
                    self.env(),
                    rule.actions@,
                    i as int,
                    rule.span,
                    locals_view(locals_ref),
                ),
            decreases n - i,
        {
            match self.check_action(&rule.actions[i], rule.span, locals_ref) {
                Ok(_) => {},
                Err(e) => {
                    return Err(e);
                },
            }
            i += 1;
        }
        Ok(())
    }
}


/// An `update` is accepted only for a stored field of the target's entity
/// whose declared type is exactly the type of the new value; a value of
/// another type is refused with L002.
pub proof fn law_update_value_has_field_type(
    a: Env,
    target: FieldPath,
    value: Expr,
    rule_span: Span,
    locals: Option<Map<Seq<char>, TyView>>,
)
    ensures
        ({
            let en = target_entity(a, locals, target.instance@);
            let r = spec_check_action(a, Action::Update { target, value }, rule_span, locals);
            &&& r is Ok ==> lookup_field(a.schema, en, target.field@) is Some
                && !lookup_field(a.schema, en, target.field@)->0.is_derived
                && spec_infer(a, value, None, locals) == Ok::<TyView, ErrV>(lookup_field(a.schema, en, target.field@)->0.ty@)
            &&& (lookup_field(a.schema, en, target.field@) is Some && !lookup_field(a.schema, en, target.field@)->0.is_derived
                && spec_infer(a, value, None, locals) is Ok
                && spec_infer(a, value, None, locals)->Ok_0 != lookup_field(a.schema, en, target.field@)->0.ty@) ==> r == Err::<(), ErrV>(
                ("L002"@, "Type mismatch in update"@, target.span),
            )
        }),
{
}

/// A `write` is accepted only to a field of an external entity whose
/// declared type is exactly the type of the value; another type is L002.
pub proof fn law_write_value_has_field_type(
    a: Env,
    target: FieldPath,
    value: Expr,
    rule_span: Span,
    locals: Option<Map<Seq<char>, TyView>>,
)
    ensures
        ({
            let en = target_entity(a, locals, target.instance@);
            let r = spec_check_action(a, Action::Write { target, value }, rule_span, locals);
            &&& r is Ok ==> a.schema.entities@.contains_key(en) && a.schema.entities@[en].is_external
                && lookup_field(a.schema, en, target.field@) is Some
                && spec_infer(a, value, None, locals) == Ok::<TyView, ErrV>(lookup_field(a.schema, en, target.field@)->0.ty@)
            &&& (a.schema.entities@.contains_key(en) && a.schema.entities@[en].is_external
                && lookup_field(a.schema, en, target.field@) is Some
                && spec_infer(a, value, None, locals) is Ok
                && spec_infer(a, value, None, locals)->Ok_0 != lookup_field(a.schema, en, target.field@)->0.ty@) ==> r == Err::<(), ErrV>(
                ("L002"@, "Type mismatch in write"@, target.span),
            )
        }),
{
}


/// `show` refuses a Secret value (L050) and accepts any other well-typed
/// value; `write` to an entity that is not external is L038.
pub proof fn law_show_and_write_targets(
    a: Env,
    e: Expr,
    target: FieldPath,
    value: Expr,
    rule_span: Span,
    locals: Option<Map<Seq<char>, TyView>>,
)
    ensures
        spec_infer(a, e, None, locals) == Ok::<TyView, ErrV>(TyView::Secret) ==> spec_check_action(a, Action::Show(e), rule_span, locals) is Err
            && spec_check_action(a, Action::Show(e), rule_span, locals)->Err_0.0 == "L050"@,
        spec_infer(a, e, None, locals) is Ok && spec_infer(a, e, None, locals)->Ok_0 != TyView::Secret ==> spec_check_action(
            a,
            Action::Show(e),
            rule_span,
            locals,
        ) is Ok,
        ({
            let en = target_entity(a, locals, target.instance@);
            a.schema.entities@.contains_key(en) && !a.schema.entities@[en].is_external ==> spec_check_action(
                a,
                Action::Write { target, value },
                rule_span,
                locals,
            ) is Err && spec_check_action(a, Action::Write { target, value }, rule_span, locals)->Err_0.0 == "L038"@
        }),
{
}

} // verus!
