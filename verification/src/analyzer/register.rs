use vstd::prelude::*;
use crate::text::{cat2, cat3, cat5};
use crate::assoc::{StrMap, lemma_key_index};
use crate::ast::{
    AggregateDecl,
    AggregateExpr,
    AggregateField,
    ClusterDecl,
    Duration,
    EntityDecl,
    ExternalEntityDecl,
    Field,
    FieldMetadata,
    FnDecl,
    FnParam,
    ImportDecl,
    LetValue,
    LuminaType,
    Program,
    ProviderConfigEntry,
    Span,
    Statement,
    SyncStrategy,
    TyView,
    copy_type,
};
use crate::analyzer::infer::{Analyzer, AnalyzerError, ErrV, err_view, mk_err, spec_infer};
use crate::analyzer::types::{
    EntitySchema,
    FieldModel,
    FieldSchema,
    Schema,
    doc_view,
    entity_attrs_default,
    entity_attrs_same,
    entity_fields_before,
    field_added,
    field_model,
    fields_model,
    names_indexed,
    plain_field,
    sync_on_view,
};
use crate::text::{copy_strings, decimal, distinct, sort_strings, str_eq, views};

verus! {

/// What the schema records for a field of the given type, derivation and metadata.
pub open spec fn meta_model(ty: TyView, is_derived: bool, m: FieldMetadata) -> FieldModel {
    FieldModel {
        ty,
        is_derived,
        doc: doc_view(m.doc),
        range: m.range,
        affects: views(m.affects@),
    }
}

/// The name a field declares and what the schema records for it; a derived
/// field is a Number until its expression is checked.
pub open spec fn declared_field(f: Field) -> (Seq<char>, FieldModel) {
    match f {
        Field::Stored(sf) => (sf.name@, meta_model(sf.ty@, false, sf.metadata)),
        Field::Derived(df) => (df.name@, meta_model(TyView::Number, true, df.metadata)),
        Field::Ref(r) => (r.name@, plain_field(TyView::Entity(r.target_entity@))),
    }
}

/// The fields in declaration order; of two with one name the first is kept.
pub open spec fn fields_first(fs: Seq<Field>) -> Map<Seq<char>, FieldModel>
    decreases fs.len(),
{
    if fs.len() == 0 {
        Map::empty()
    } else {
        let m = fields_first(fs.drop_last());
        let d = declared_field(fs.last());
        if m.contains_key(d.0) {
            m
        } else {
            m.insert(d.0, d.1)
        }
    }
}

/// The fields in declaration order; of two with one name the last is kept.
pub open spec fn fields_last(fs: Seq<Field>) -> Map<Seq<char>, FieldModel>
    decreases fs.len(),
{
    if fs.len() == 0 {
        Map::empty()
    } else {
        let d = declared_field(fs.last());
        fields_last(fs.drop_last()).insert(d.0, d.1)
    }
}

/// The names declared again after their first occurrence, in order.
pub open spec fn repeated_names(fs: Seq<Field>) -> Seq<Seq<char>>
    decreases fs.len(),
{
    if fs.len() == 0 {
        Seq::empty()
    } else {
        let r = repeated_names(fs.drop_last());
        let n = declared_field(fs.last()).0;
        if fields_first(fs.drop_last()).contains_key(n) {
            r.push(n)
        } else {
            r
        }
    }
}

/// A copy of field metadata.
pub fn copy_metadata(m: &FieldMetadata) -> (r: FieldMetadata)
    ensures
        doc_view(r.doc) == doc_view(m.doc),
        r.range == m.range,
        views(r.affects@) == views(m.affects@),
{
    let doc = match &m.doc {
        Some(d) => Some(d.clone()),
        None => None,
    };
    FieldMetadata { doc, range: m.range, affects: copy_strings(&m.affects) }
}

/// The schema entry for a declared field.
fn field_schema_for(f: &Field) -> (r: (String, FieldSchema))
    ensures
        r.0@ == declared_field(*f).0,
        r.1.name@ == r.0@,
        field_model(r.1) == declared_field(*f).1,
{
    match f {
        Field::Stored(sf) => (
            sf.name.clone(),
            FieldSchema {
                name: sf.name.clone(),
                ty: copy_type(&sf.ty),
                is_derived: false,
                metadata: copy_metadata(&sf.metadata),
            },
        ),
        Field::Derived(df) => (
            df.name.clone(),
            FieldSchema {
                name: df.name.clone(),
                ty: crate::ast::LuminaType::Number,
                is_derived: true,
                metadata: copy_metadata(&df.metadata),
            },
        ),
        Field::Ref(r) => {
            let meta = FieldMetadata { doc: None, range: None, affects: Vec::new() };
            assert(views(meta.affects@) =~= Seq::<Seq<char>>::empty());
            (
                r.name.clone(),
                FieldSchema {
                    name: r.name.clone(),
                    ty: crate::ast::LuminaType::Entity(r.target_entity.clone()),
                    is_derived: false,
                    metadata: meta,
                },
            )
        },
    }
}

/// The schema entries of declared fields, and (when the first of two
/// fields with one name is kept) the names declared again.
pub fn build_fields(fields: &Vec<Field>, first_wins: bool) -> (r: (StrMap<FieldSchema>, Vec<String>))
    ensures
        r.0.wf(),
        first_wins ==> fields_model(r.0@) == fields_first(fields@),
        !first_wins ==> fields_model(r.0@) == fields_last(fields@),
        first_wins ==> views(r.1@) == repeated_names(fields@),
        !first_wins ==> r.1@.len() == 0,
{
    let mut map: StrMap<FieldSchema> = StrMap::new();
    let mut dups: Vec<String> = Vec::new();
    let n = fields.len();
    let mut i: usize = 0;
    proof {
        assert(fields_model(map@) =~= Map::<Seq<char>, FieldModel>::empty());
        assert(views(dups@) =~= Seq::<Seq<char>>::empty());
    }
    while i < n
        invariant
            n == fields@.len(),
            i <= n,
            map.wf(),
            first_wins ==> fields_model(map@) == fields_first(fields@.take(i as int)),
            !first_wins ==> fields_model(map@) == fields_last(fields@.take(i as int)),
            first_wins ==> views(dups@) == repeated_names(fields@.take(i as int)),
            !first_wins ==> dups@.len() == 0,
        decreases n - i,
    {
        let ghost pre = fields@.take(i + 1);
        proof {
            assert(pre.drop_last() =~= fields@.take(i as int));
            assert(pre.last() == fields@[i as int]);
        }
        let (name, fs) = field_schema_for(&fields[i]);
        let ghost old_map = map@;
        if first_wins && map.contains_key(name.as_str()) {
            let ghost before = dups@;
            dups.push(name);
            proof {
                assert(views(dups@) =~= views(before).push(declared_field(fields@[i as int]).0));
            }
        } else {
            let ghost fm = field_model(fs);
            map.insert(name, fs);
            proof {
                assert(fields_model(map@) =~= fields_model(old_map).insert(
                    declared_field(fields@[i as int]).0,
                    fm,
                ));
            }
        }
        i += 1;
    }
    proof {
        assert(fields@.take(n as int) =~= fields@);
    }
    (map, dups)
}

/// An entity's schema over the given fields: their names sorted, and each
/// name's position.
pub fn entity_schema_for(
    name: &str,
    fields: StrMap<FieldSchema>,
    is_external: bool,
    sync_path: String,
    sync_strategy: SyncStrategy,
    sync_on: Option<Vec<String>>,
    poll_interval: Option<Duration>,
) -> (es: EntitySchema)
    requires
        fields.wf(),
    ensures
        es.name@ == name@,
        es.fields == fields,
        es.field_indices.wf(),
        names_indexed(es.fields@.dom(), views(es.field_names@), es.field_indices@),
        es.is_external == is_external,
        es.sync_path == sync_path,
        es.sync_strategy == sync_strategy,
        es.sync_on == sync_on,
        es.poll_interval == poll_interval,
{
    let keys = fields.keys();
    proof {
        assert(distinct(views(keys@))) by {
            assert forall|i: int, j: int| 0 <= i < j < views(keys@).len() implies #[trigger] views(
                keys@,
            )[i] != #[trigger] views(keys@)[j] by {
                assert(keys@[i] == fields.pairs()[i].0);
                assert(keys@[j] == fields.pairs()[j].0);
            }
        }
        assert(views(keys@).to_set() =~= fields@.dom()) by {
            assert forall|k: Seq<char>| views(keys@).to_set().contains(k) implies fields@.dom().contains(k) by {
                let i = choose|i: int| 0 <= i < views(keys@).len() && views(keys@)[i] == k;
                assert(keys@[i] == fields.pairs()[i].0);
                lemma_key_index(fields.pairs(), k);
            }
            assert forall|k: Seq<char>| fields@.dom().contains(k) implies views(keys@).to_set().contains(k) by {
                lemma_key_index(fields.pairs(), k);
                let i = crate::assoc::key_index(fields.pairs(), k);
                assert(keys@[i] == fields.pairs()[i].0);
                assert(views(keys@)[i] == k);
            }
        }
    }
    let names = sort_strings(keys);
    let mut indices: StrMap<usize> = StrMap::new();
    let n = names.len();
    let mut i: usize = 0;
    while i < n
        invariant
            n == names@.len(),
            i <= n,
            indices.wf(),
            crate::text::strictly_sorted(views(names@)),
            indices@.dom() == views(names@).take(i as int).to_set(),
            forall|j: int| 0 <= j < i ==> indices@[#[trigger] views(names@)[j]] == j,
        decreases n - i,
    {
        let ghost before = indices@;
        indices.insert(names[i].clone(), i);
        proof {
            assert(views(names@).take(i + 1) =~= views(names@).take(i as int).push(
                views(names@)[i as int],
            ));
            crate::text::lemma_push_to_set(views(names@).take(i as int), views(names@)[i as int]);
            assert forall|j: int| 0 <= j < i implies indices@[#[trigger] views(names@)[j]] == j by {
                assert(crate::text::seq_lt(views(names@)[j], views(names@)[i as int]));
                crate::text::lemma_seq_lt_irreflexive(views(names@)[j]);
            }
        }
        i += 1;
    }
    proof {
        assert(views(names@).take(n as int) =~= views(names@));
    }
    EntitySchema {
        name: String::from_str(name),
        fields,
        field_indices: indices,
        field_names: names,
        is_external,
        sync_path,
        sync_strategy,
        sync_on,
        poll_interval,
    }
}


/// The errors as the contracts speak of them.
pub open spec fn errs(v: Seq<AnalyzerError>) -> Seq<ErrV> {
    v.map_values(|e: AnalyzerError| err_view(e))
}

pub open spec fn l005_text(name: Seq<char>) -> Seq<char> {
    "Duplicate entity name: "@ + name
}

pub open spec fn l006_text(name: Seq<char>) -> Seq<char> {
    "Duplicate field name: "@ + name
}

/// One L006 error at `span` for each repeated field name.
pub open spec fn dup_field_errors(names: Seq<Seq<char>>, span: Span) -> Seq<ErrV> {
    names.map_values(|n: Seq<char>| ("L006"@, l006_text(n), span))
}

/// The schema of a newly registered entity.
pub open spec fn entity_shape(
    es: EntitySchema,
    name: Seq<char>,
    fields: Map<Seq<char>, FieldModel>,
    is_external: bool,
    sync_path: Seq<char>,
    sync_strategy: SyncStrategy,
    sync_on: Option<Seq<Seq<char>>>,
    poll_interval: Option<Duration>,
) -> bool {
    &&& es.name@ == name
    &&& fields_model(es.fields@) == fields
    &&& names_indexed(es.fields@.dom(), views(es.field_names@), es.field_indices@)
    &&& es.is_external == is_external
    &&& es.sync_path@ == sync_path
    &&& es.sync_strategy == sync_strategy
    &&& sync_on_view(es.sync_on) == sync_on
    &&& es.poll_interval == poll_interval
}

/// The graph, the functions, the instances and the flags are as they were.
pub open spec fn same_but_schema_errors(a: Analyzer, b: Analyzer) -> bool {
    &&& b.graph == a.graph
    &&& b.fn_defs == a.fn_defs
    &&& b.instances == a.instances
    &&& b.allow_imports == a.allow_imports
    &&& b.in_prev_context == a.in_prev_context
    &&& b.in_derived_context == a.in_derived_context
}

/// Only the errors changed, by the ones given.
pub open spec fn only_errors(a: Analyzer, b: Analyzer, added: Seq<ErrV>) -> bool {
    &&& same_but_schema_errors(a, b)
    &&& b.schema == a.schema
    &&& errs(b.errors@) == errs(a.errors@) + added
}

/// Registering an entity: a second entity of a name is an error (L005);
/// otherwise the entity is added and each repeated field name is an error (L006).
pub open spec fn entity_registered(
    a: Analyzer,
    b: Analyzer,
    name: Seq<char>,
    fields: Map<Seq<char>, FieldModel>,
    dups: Seq<Seq<char>>,
    span: Span,
    is_external: bool,
    sync_path: Seq<char>,
    sync_strategy: SyncStrategy,
    sync_on: Option<Seq<Seq<char>>>,
    poll_interval: Option<Duration>,
) -> bool {
    &&& same_but_schema_errors(a, b)
    &&& if a.schema.entities@.contains_key(name) {
        &&& b.schema == a.schema
        &&& errs(b.errors@) == errs(a.errors@).push(("L005"@, l005_text(name), span))
    } else {
        &&& b.schema.entities@.dom() == a.schema.entities@.dom().insert(name)
        &&& forall|e: Seq<char>|
            #[trigger] a.schema.entities@.contains_key(e) ==> b.schema.entities@[e]
                == a.schema.entities@[e]
        &&& entity_shape(
            b.schema.entities@[name],
            name,
            fields,
            is_external,
            sync_path,
            sync_strategy,
            sync_on,
            poll_interval,
        )
        &&& errs(b.errors@) == errs(a.errors@) + dup_field_errors(dups, span)
    }
}

impl Analyzer {
    /// Adds an entity's schema; its derived fields are Numbers until checked.
    pub fn register_entity(&mut self, decl: &EntityDecl, is_external: bool)
        requires
            old(self).wf(),
        ensures
            final(self).wf(),
            entity_registered(
                *old(self),
                *final(self),
                decl.name@,
                fields_first(decl.fields@),
                repeated_names(decl.fields@),
                decl.span,
                is_external,
                Seq::empty(),
                SyncStrategy::Realtime,
                None,
                None,
            ),
    {
        proof {
            reveal_strlit("L005");
            reveal_strlit("L006");
        }
        if self.schema.entities.contains_key(decl.name.as_str()) {
            let ghost before = self.errors@;
            self.errors.push(
                mk_err("L005", cat2("Duplicate entity name: ", decl.name.as_str()), decl.span),
            );
            assert(errs(self.errors@) =~= errs(before).push(("L005"@, l005_text(decl.name@), decl.span)));
            return;
        }
        let (fields, dups) = build_fields(&decl.fields, true);
        self.push_duplicates(&dups, decl.span);
        let es = entity_schema_for(
            decl.name.as_str(),
            fields,
            is_external,
            String::new(),
            SyncStrategy::Realtime,
            None,
            None,
        );
        let ghost old_entities = self.schema.entities@;
        self.schema.entities.insert(decl.name.clone(), es);
        proof {
            assert(self.schema.entities@.dom() =~= old_entities.dom().insert(decl.name@));
        }
    }

    /// One L006 error for each repeated field name.
    fn push_duplicates(&mut self, dups: &Vec<String>, span: Span)
        requires
            old(self).wf(),
        ensures
            final(self).wf(),
            same_but_schema_errors(*old(self), *final(self)),
            final(self).schema == old(self).schema,
            errs(final(self).errors@) == errs(old(self).errors@) + dup_field_errors(views(dups@), span),
    {
        proof {
            reveal_strlit("L006");
        }
        let n = dups.len();
        let mut j: usize = 0;
        while j < n
            invariant
                n == dups@.len(),
                j <= n,
                self.wf(),
                same_but_schema_errors(*old(self), *self),
                self.schema == old(self).schema,
                errs(self.errors@) == errs(old(self).errors@) + dup_field_errors(
                    views(dups@).take(j as int),
                    span,
                ),
            decreases n - j,
        {
            let ghost before = self.errors@;
            self.errors.push(
                mk_err("L006", cat2("Duplicate field name: ", dups[j].as_str()), span),
            );
            proof {
                assert(dup_field_errors(views(dups@).take(j + 1), span) =~= dup_field_errors(
                    views(dups@).take(j as int),
                    span,
                ).push(("L006"@, l006_text(dups@[j as int]@), span)));
                assert(errs(self.errors@) =~= errs(before).push(
                    ("L006"@, l006_text(dups@[j as int]@), span),
                ));
            }
            j += 1;
        }
        assert(views(dups@).take(n as int) =~= views(dups@));
    }

    /// Adds an external entity's schema with its sync settings; of two fields
    /// with one name the last is kept.
    pub fn register_external_entity(&mut self, decl: &ExternalEntityDecl)
        requires
            old(self).wf(),
        ensures
            final(self).wf(),
            entity_registered(
                *old(self),
                *final(self),
                decl.name@,
                fields_last(decl.fields@),
                Seq::empty(),
                decl.span,
                true,
                decl.sync_path@,
                decl.sync_strategy,
                if decl.sync_fields@.len() == 0 {
                    None
                } else {
                    Some(views(decl.sync_fields@))
                },
                decl.poll_interval,
            ),
    {
        proof {
            reveal_strlit("L005");
        }
        if self.schema.entities.contains_key(decl.name.as_str()) {
            let ghost before = self.errors@;
            self.errors.push(
                mk_err("L005", cat2("Duplicate entity name: ", decl.name.as_str()), decl.span),
            );
            assert(errs(self.errors@) =~= errs(before).push(("L005"@, l005_text(decl.name@), decl.span)));
            return;
        }
        let (fields, _dups) = build_fields(&decl.fields, false);
        let sync_on = if decl.sync_fields.len() == 0 {
            None
        } else {
            Some(copy_strings(&decl.sync_fields))
        };
        let es = entity_schema_for(
            decl.name.as_str(),
            fields,
            true,
            decl.sync_path.clone(),
            decl.sync_strategy,
            sync_on,
            decl.poll_interval,
        );
        let ghost old_entities = self.schema.entities@;
        let ghost old_errors = self.errors@;
        self.schema.entities.insert(decl.name.clone(), es);
        proof {
            assert(self.schema.entities@.dom() =~= old_entities.dom().insert(decl.name@));
            assert(dup_field_errors(Seq::<Seq<char>>::empty(), decl.span) =~= Seq::<ErrV>::empty());
            assert(errs(self.errors@) =~= errs(old_errors) + dup_field_errors(
                Seq::<Seq<char>>::empty(),
                decl.span,
            ));
        }
    }
}


/// The standard library schemas an import may name.
pub open spec fn is_known_schema(p: Seq<char>) -> bool {
    ||| p == "LSL::datacenter::Server"@
    ||| p == "LSL::datacenter::Rack"@
    ||| p == "LSL::datacenter::PDU"@
    ||| p == "LSL::datacenter::CRAC"@
    ||| p == "LSL::network::Switch"@
    ||| p == "LSL::network::Router"@
    ||| p == "LSL::network::Firewall"@
    ||| p == "LSL::k8s::Pod"@
    ||| p == "LSL::k8s::Node"@
    ||| p == "LSL::k8s::Deployment"@
    ||| p == "LSL::power::UPS"@
    ||| p == "LSL::power::Generator"@
}

/// `f` has the name, parameters, return type and span of `d`.
pub open spec fn sig_matches(f: FnDecl, d: FnDecl) -> bool {
    &&& f.name@ == d.name@
    &&& f.params@.len() == d.params@.len()
    &&& forall|i: int|
        #![trigger f.params@[i]]
        0 <= i < d.params@.len() ==> f.params@[i].name@ == d.params@[i].name@
            && f.params@[i].type_@ == d.params@[i].type_@ && f.params@[i].span == d.params@[i].span
    &&& f.returns@ == d.returns@
    &&& f.span == d.span
}

/// `b` is `a` with `name` set to a type whose view is `tv`.
pub open spec fn instances_set(
    a: Map<Seq<char>, LuminaType>,
    b: Map<Seq<char>, LuminaType>,
    name: Seq<char>,
    tv: TyView,
) -> bool {
    &&& b.contains_key(name)
    &&& b[name]@ == tv
    &&& b.remove(name) == a.remove(name)
}

/// Only the instances changed: `name` now has the type `tv`.
pub open spec fn instance_added(a: Analyzer, b: Analyzer, name: Seq<char>, tv: TyView) -> bool {
    &&& b.schema == a.schema
    &&& b.graph == a.graph
    &&& b.fn_defs == a.fn_defs
    &&& b.errors == a.errors
    &&& b.allow_imports == a.allow_imports
    &&& b.in_prev_context == a.in_prev_context
    &&& b.in_derived_context == a.in_derived_context
    &&& instances_set(a.instances@, b.instances@, name, tv)
}

/// A function is recorded under its name; a second one of a name is an error (L011).
pub open spec fn fn_registered(a: Analyzer, b: Analyzer, d: FnDecl) -> bool {
    &&& b.schema == a.schema
    &&& b.graph == a.graph
    &&& b.instances == a.instances
    &&& b.allow_imports == a.allow_imports
    &&& b.in_prev_context == a.in_prev_context
    &&& b.in_derived_context == a.in_derived_context
    &&& if a.fn_defs@.contains_key(d.name@) {
        &&& b.fn_defs == a.fn_defs
        &&& errs(b.errors@) == errs(a.errors@).push(("L011"@, l011_text(d.name@), d.span))
    } else {
        &&& b.errors == a.errors
        &&& b.fn_defs@.dom() == a.fn_defs@.dom().insert(d.name@)
        &&& b.fn_defs@.remove(d.name@) == a.fn_defs@.remove(d.name@)
        &&& sig_matches(b.fn_defs@[d.name@], d)
    }
}

/// The type of an aggregate's field: counts and numeric folds are Numbers,
/// `any` and `all` are Booleans.
pub open spec fn agg_field_ty(e: AggregateExpr) -> TyView {
    match e {
        AggregateExpr::Any(_) => TyView::Boolean,
        AggregateExpr::All(_) => TyView::Boolean,
        _ => TyView::Number,
    }
}

/// The fields after registering each aggregate field in turn.
pub open spec fn agg_fields(m: Map<Seq<char>, FieldModel>, fs: Seq<AggregateField>) -> Map<
    Seq<char>,
    FieldModel,
>
    decreases fs.len(),
{
    if fs.len() == 0 {
        m
    } else {
        field_added(agg_fields(m, fs.drop_last()), fs.last().name@, agg_field_ty(fs.last().expr))
    }
}

/// An aggregate names an instance of its own name and a schema entity that
/// holds its fields.
pub open spec fn agg_registered(a: Analyzer, b: Analyzer, d: AggregateDecl) -> bool {
    &&& b.graph == a.graph
    &&& b.fn_defs == a.fn_defs
    &&& b.errors == a.errors
    &&& b.allow_imports == a.allow_imports
    &&& b.in_prev_context == a.in_prev_context
    &&& b.in_derived_context == a.in_derived_context
    &&& instances_set(a.instances@, b.instances@, d.name@, TyView::Entity(d.name@))
    &&& if d.fields@.len() == 0 {
        b.schema == a.schema
    } else {
        &&& b.schema.entities@.dom() == a.schema.entities@.dom().insert(d.name@)
        &&& forall|e: Seq<char>|
            e != d.name@ && #[trigger] a.schema.entities@.contains_key(e) ==> b.schema.entities@[e]
                == a.schema.entities@[e]
        &&& fields_model(b.schema.entities@[d.name@].fields@) == agg_fields(
            entity_fields_before(a.schema, d.name@),
            d.fields@,
        )
        &&& a.schema.entities@.contains_key(d.name@) ==> entity_attrs_same(
            a.schema.entities@[d.name@],
            b.schema.entities@[d.name@],
        )
        &&& !a.schema.entities@.contains_key(d.name@) ==> entity_attrs_default(
            b.schema.entities@[d.name@],
            d.name@,
        )
    }
}

/// An import of a namespace must name a known schema (L054); a plain import
/// is refused when imports are not allowed (L018).
pub open spec fn import_errors(a: Analyzer, d: ImportDecl) -> Seq<ErrV> {
    if d.namespace is Some {
        if is_known_schema(d.path@) {
            Seq::empty()
        } else {
            seq![("L054"@, l054_text(d.path@), d.span)]
        }
    } else if !a.allow_imports {
        seq![("L018"@, l018_text(), d.span)]
    } else {
        Seq::empty()
    }
}

pub open spec fn l011_text(name: Seq<char>) -> Seq<char> {
    "I've already seen a function named '"@ + name
        + "()'. Every function in Lumina must have a unique name so the engine can build a distinct calculation node. Please use a different name for this definition."@
}

pub open spec fn l054_text(path: Seq<char>) -> Seq<char> {
    "Unknown LSL schema '"@ + path + "'. Available: datacenter, network, k8s, power."@
}

pub open spec fn l018_text() -> Seq<char> {
    "import is not supported in single-file (WASM) mode"@
}

pub open spec fn l052_text(alias: Seq<char>) -> Seq<char> {
    "The plugin alias '"@ + alias
        + "' conflicts with an existing name. Each plugin alias must be unique."@
}

pub open spec fn l053_text(protocol: Seq<char>) -> Seq<char> {
    "Provider '"@ + protocol
        + "' is missing an 'endpoint' configuration. Every provider must specify where to connect."@
}

pub open spec fn l060_text() -> Seq<char> {
    "Cluster 'node_id' must be a non-empty string. Each node in the cluster needs a unique identifier."@
}

pub open spec fn l061_text() -> Seq<char> {
    "Cluster 'peers' must contain at least one peer address for the cluster to form a quorum."@
}

pub open spec fn l062_text(quorum: nat, total: nat) -> Seq<char> {
    "Quorum size "@ + decimal(quorum) + " exceeds total nodes ("@ + decimal(total)
        + "). Quorum must be ≤ peers + 1."@
}

pub open spec fn has_endpoint(config: Seq<ProviderConfigEntry>) -> bool {
    exists|i: int| 0 <= i < config.len() && config[i].key@ == "endpoint"@
}

pub open spec fn err_if(c: bool, e: ErrV) -> Seq<ErrV> {
    if c {
        seq![e]
    } else {
        Seq::empty()
    }
}

/// A cluster needs a node id (L060), a peer (L061), and a quorum no larger
/// than its nodes (L062).
pub open spec fn cluster_errors(d: ClusterDecl) -> Seq<ErrV> {
    err_if(d.node_id@.len() == 0, ("L060"@, l060_text(), d.span)) + err_if(
        d.peers@.len() == 0,
        ("L061"@, l061_text(), d.span),
    ) + err_if(
        d.quorum > d.peers@.len() + 1,
        ("L062"@, l062_text(d.quorum as nat, d.peers@.len() + 1), d.span),
    )
}

/// What registering one statement does.
pub open spec fn stmt_registered(a: Analyzer, b: Analyzer, s: Statement) -> bool {
    match s {
        Statement::Entity(d) => entity_registered(
            a,
            b,
            d.name@,
            fields_first(d.fields@),
            repeated_names(d.fields@),
            d.span,
            false,
            Seq::empty(),
            SyncStrategy::Realtime,
            None,
            None,
        ),
        Statement::ExternalEntity(d) => entity_registered(
            a,
            b,
            d.name@,
            fields_last(d.fields@),
            Seq::empty(),
            d.span,
            true,
            d.sync_path@,
            d.sync_strategy,
            if d.sync_fields@.len() == 0 {
                None
            } else {
                Some(views(d.sync_fields@))
            },
            d.poll_interval,
        ),
        Statement::Fn(d) => fn_registered(a, b, d),
        Statement::Import(d) => only_errors(a, b, import_errors(a, d)),
        Statement::Let(d) => match d.value {
            LetValue::EntityInit(init) => instance_added(
                a,
                b,
                d.name@,
                TyView::Entity(init.entity_name@),
            ),
            LetValue::Expr(e) => match spec_infer(a.env(), e, None, None) {
                Ok(t) => instance_added(a, b, d.name@, t),
                Err(_) => b == a,
            },
        },
        Statement::Aggregate(d) => agg_registered(a, b, d),
        Statement::PluginImport(d) => only_errors(
            a,
            b,
            err_if(a.instances@.contains_key(d.alias@), ("L052"@, l052_text(d.alias@), d.span)),
        ),
        Statement::Provider(d) => only_errors(
            a,
            b,
            err_if(!has_endpoint(d.config@), ("L053"@, l053_text(d.protocol@), d.span)),
        ),
        Statement::Cluster(d) => only_errors(a, b, cluster_errors(d)),
        _ => b == a,
    }
}

/// `b` comes from `a` by registering each statement in order.
pub open spec fn all_registered(a: Analyzer, b: Analyzer, stmts: Seq<Statement>) -> bool {
    exists|st: Seq<Analyzer>|
        #![trigger st.len()]
        st.len() == stmts.len() + 1 && st[0] == a && st[stmts.len() as int] == b && forall|i: int|
            0 <= i < stmts.len() ==> #[trigger] stmt_registered(st[i], st[i + 1], stmts[i])
}

/// A copy of a parameter list.
fn copy_params(ps: &Vec<FnParam>) -> (r: Vec<FnParam>)
    ensures
        r@.len() == ps@.len(),
        forall|i: int|
            #![trigger r@[i]]
            0 <= i < ps@.len() ==> r@[i].name@ == ps@[i].name@ && r@[i].type_@ == ps@[i].type_@
                && r@[i].span == ps@[i].span,
{
    let mut out: Vec<FnParam> = Vec::new();
    let n = ps.len();
    let mut i: usize = 0;
    while i < n
        invariant
            n == ps@.len(),
            i <= n,
            out@.len() == i,
            forall|j: int|
                #![trigger out@[j]]
                0 <= j < i ==> out@[j].name@ == ps@[j].name@ && out@[j].type_@ == ps@[j].type_@
                    && out@[j].span == ps@[j].span,
        decreases n - i,
    {
        out.push(
            FnParam { name: ps[i].name.clone(), type_: copy_type(&ps[i].type_), span: ps[i].span },
        );
        i += 1;
    }
    out
}

/// A copy of a function declaration.
pub fn copy_fn_decl(d: &FnDecl) -> (r: FnDecl)
    ensures
        sig_matches(r, *d),
        crate::ast::same_expr(r.body, d.body),
{
    FnDecl {
        name: d.name.clone(),
        params: copy_params(&d.params),
        returns: copy_type(&d.returns),
        body: crate::ast::copy_expr(&d.body),
        span: d.span,
    }
}

/// Whether some entry configures `endpoint`.
fn config_has_endpoint(config: &Vec<ProviderConfigEntry>) -> (r: bool)
    ensures
        r == has_endpoint(config@),
{
    let n = config.len();
    let mut i: usize = 0;
    while i < n
        invariant
            n == config@.len(),
            i <= n,
            forall|j: int| 0 <= j < i ==> config@[j].key@ != "endpoint"@,
        decreases n - i,
    {
        if str_eq(config[i].key.as_str(), "endpoint") {
            return true;
        }
        i += 1;
    }
    false
}

/// Whether `p` names a known standard library schema.
fn known_schema(p: &str) -> (r: bool)
    ensures
        r == is_known_schema(p@),
{
    str_eq(p, "LSL::datacenter::Server") || str_eq(p, "LSL::datacenter::Rack") || str_eq(
        p,
        "LSL::datacenter::PDU",
    ) || str_eq(p, "LSL::datacenter::CRAC") || str_eq(p, "LSL::network::Switch") || str_eq(
        p,
        "LSL::network::Router",
    ) || str_eq(p, "LSL::network::Firewall") || str_eq(p, "LSL::k8s::Pod") || str_eq(
        p,
        "LSL::k8s::Node",
    ) || str_eq(p, "LSL::k8s::Deployment") || str_eq(p, "LSL::power::UPS") || str_eq(
        p,
        "LSL::power::Generator",
    )
}

impl Analyzer {
    /// Pushes one error and proves what that does to the errors' view.
    fn push_error(&mut self, e: AnalyzerError)
        requires
            old(self).wf(),
        ensures
            final(self).wf(),
            same_but_schema_errors(*old(self), *final(self)),
            final(self).schema == old(self).schema,
            errs(final(self).errors@) == errs(old(self).errors@).push(err_view(e)),
    {
        let ghost before = self.errors@;
        self.errors.push(e);
        assert(errs(self.errors@) =~= errs(before).push(err_view(e)));
    }

    fn register_fn(&mut self, d: &FnDecl)
        requires
            old(self).wf(),
        ensures
            final(self).wf(),
            fn_registered(*old(self), *final(self), *d),
    {
        proof {
            reveal_strlit("L011");
        }
        if self.fn_defs.contains_key(d.name.as_str()) {
            self.push_error(
                mk_err(
                    "L011",
                    cat3("I've already seen a function named '", d.name.as_str(), "()'. Every function in Lumina must have a unique name so the engine can build a distinct calculation node. Please use a different name for this definition."),
                    d.span,
                ),
            );
        } else {
            let ghost before = self.fn_defs@;
            self.fn_defs.insert(d.name.clone(), copy_fn_decl(d));
            assert(self.fn_defs@.dom() =~= before.dom().insert(d.name@));
            assert(self.fn_defs@.remove(d.name@) =~= before.remove(d.name@));
        }
    }

    fn register_import(&mut self, d: &ImportDecl)
        requires
            old(self).wf(),
        ensures
            final(self).wf(),
            only_errors(*old(self), *final(self), import_errors(*old(self), *d)),
    {
        proof {
            reveal_strlit("L054");
            reveal_strlit("L018");
        }
        let ghost before = errs(self.errors@);
        match &d.namespace {
            Some(_) => {
                if !known_schema(d.path.as_str()) {
                    self.push_error(
                        mk_err(
                            "L054",
                            cat3("Unknown LSL schema '", d.path.as_str(), "'. Available: datacenter, network, k8s, power."),
                            d.span,
                        ),
                    );
                    assert(errs(self.errors@) =~= before + seq![("L054"@, l054_text(d.path@), d.span)]);
                } else {
                    assert(errs(self.errors@) =~= before + Seq::<ErrV>::empty());
                }
            },
            None => {
                if !self.allow_imports {
                    self.push_error(
                        mk_err(
                            "L018",
                            String::from_str("import is not supported in single-file (WASM) mode"),
                            d.span,
                        ),
                    );
                    assert(errs(self.errors@) =~= before + seq![("L018"@, l018_text(), d.span)]);
                } else {
                    assert(errs(self.errors@) =~= before + Seq::<ErrV>::empty());
                }
            },
        }
    }

    fn set_instance(&mut self, name: &String, ty: LuminaType)
        requires
            old(self).wf(),
        ensures
            final(self).wf(),
            instance_added(*old(self), *final(self), name@, ty@),
    {
        let ghost before = self.instances@;
        self.instances.insert(name.clone(), ty);
        assert(self.instances@.remove(name@) =~= before.remove(name@));
    }

    fn register_aggregate(&mut self, d: &AggregateDecl)
        requires
            old(self).wf(),
        ensures
            final(self).wf(),
            agg_registered(*old(self), *final(self), *d),
    {
        self.set_instance(&d.name, LuminaType::Entity(d.name.clone()));
        let ghost mid = *self;
        let n = d.fields.len();
        let mut i: usize = 0;
        while i < n
            invariant
                n == d.fields@.len(),
                i <= n,
                self.wf(),
                self.graph == mid.graph,
                self.fn_defs == mid.fn_defs,
                self.errors == mid.errors,
                self.instances == mid.instances,
                self.allow_imports == mid.allow_imports,
                self.in_prev_context == mid.in_prev_context,
                self.in_derived_context == mid.in_derived_context,
                i == 0 ==> self.schema == mid.schema,
                i > 0 ==> self.schema.entities@.dom() == mid.schema.entities@.dom().insert(d.name@),
                i > 0 ==> forall|e: Seq<char>|
                    e != d.name@ && #[trigger] mid.schema.entities@.contains_key(e)
                        ==> self.schema.entities@[e] == mid.schema.entities@[e],
                i > 0 ==> fields_model(self.schema.entities@[d.name@].fields@) == agg_fields(
                    entity_fields_before(mid.schema, d.name@),
                    d.fields@.take(i as int),
                ),
                i > 0 && mid.schema.entities@.contains_key(d.name@) ==> entity_attrs_same(
                    mid.schema.entities@[d.name@],
                    self.schema.entities@[d.name@],
                ),
                i > 0 && !mid.schema.entities@.contains_key(d.name@) ==> entity_attrs_default(
                    self.schema.entities@[d.name@],
                    d.name@,
                ),
            decreases n - i,
        {
            let ty = match &d.fields[i].expr {
                AggregateExpr::Any(_) => LuminaType::Boolean,
                AggregateExpr::All(_) => LuminaType::Boolean,
                _ => LuminaType::Number,
            };
            assert(ty@ == agg_field_ty(d.fields@[i as int].expr));
            let ghost pre = self.schema;
            self.schema.register_field(d.name.as_str(), d.fields[i].name.as_str(), &ty);
            proof {
                let t = d.fields@.take(i + 1);
                assert(t.drop_last() =~= d.fields@.take(i as int));
                assert(t.last() == d.fields@[i as int]);
                assert(agg_fields(entity_fields_before(mid.schema, d.name@), t) == field_added(
                    agg_fields(entity_fields_before(mid.schema, d.name@), d.fields@.take(i as int)),
                    d.fields@[i as int].name@,
                    ty@,
                ));
                assert forall|e: Seq<char>|
                    e != d.name@ && #[trigger] mid.schema.entities@.contains_key(e) implies self.schema.entities@[e]
                        == mid.schema.entities@[e] by {
                    assert(pre.entities@.contains_key(e));
                }
                if i == 0 {
                    assert(d.fields@.take(0) =~= Seq::<AggregateField>::empty());
                }
                if i > 0 {
                    assert(entity_fields_before(pre, d.name@) == fields_model(
                        pre.entities@[d.name@].fields@,
                    ));
                    assert(self.schema.entities@.dom() =~= mid.schema.entities@.dom().insert(
                        d.name@,
                    ));
                }
            }
            i += 1;
        }
        proof {
            assert(d.fields@.take(n as int) =~= d.fields@);
        }
    }

    fn register_cluster(&mut self, d: &ClusterDecl)
        requires
            old(self).wf(),
        ensures
            final(self).wf(),
            only_errors(*old(self), *final(self), cluster_errors(*d)),
    {
        proof {
            reveal_strlit("L060");
            reveal_strlit("L061");
            reveal_strlit("L062");
        }
        let ghost e0 = errs(self.errors@);
        if d.node_id.unicode_len() == 0 {
            self.push_error(
                mk_err(
                    "L060",
                    String::from_str(
                        "Cluster 'node_id' must be a non-empty string. Each node in the cluster needs a unique identifier.",
                    ),
                    d.span,
                ),
            );
        }
        let ghost e1 = errs(self.errors@);
        assert(e1 == e0 + err_if(d.node_id@.len() == 0, ("L060"@, l060_text(), d.span)));
        if d.peers.len() == 0 {
            self.push_error(
                mk_err(
                    "L061",
                    String::from_str(
                        "Cluster 'peers' must contain at least one peer address for the cluster to form a quorum.",
                    ),
                    d.span,
                ),
            );
        }
        let ghost e2 = errs(self.errors@);
        assert(e2 == e1 + err_if(d.peers@.len() == 0, ("L061"@, l061_text(), d.span)));
        if d.quorum > 0 && (d.quorum - 1) as u64 > d.peers.len() as u64 {
            let total = crate::text::u64_to_decimal(d.peers.len() as u64 + 1);
            let q = crate::text::u64_to_decimal(d.quorum as u64);
            self.push_error(
                mk_err(
                    "L062",
                    cat5("Quorum size ", q.as_str(), " exceeds total nodes (", total.as_str(), "). Quorum must be ≤ peers + 1."),
                    d.span,
                ),
            );
        }
        proof {
            assert(errs(self.errors@) == e2 + err_if(
                d.quorum > d.peers@.len() + 1,
                ("L062"@, l062_text(d.quorum as nat, d.peers@.len() + 1), d.span),
            ));
            assert(errs(self.errors@) =~= e0 + cluster_errors(*d));
        }
    }

    /// Registers what one statement declares (the first pass).
    pub fn register_statement(&mut self, stmt: &Statement)
        requires
            old(self).wf(),
        ensures
            final(self).wf(),
            stmt_registered(*old(self), *final(self), *stmt),
    {
        proof {
            reveal_strlit("L052");
            reveal_strlit("L053");
        }
        match stmt {
            Statement::Entity(d) => self.register_entity(d, false),
            Statement::ExternalEntity(d) => self.register_external_entity(d),
            Statement::Fn(d) => self.register_fn(d),
            Statement::Import(d) => self.register_import(d),
            Statement::Let(d) => match &d.value {
                LetValue::EntityInit(init) => {
                    self.set_instance(&d.name, LuminaType::Entity(init.entity_name.clone()));
                },
                LetValue::Expr(e) => {
                    let r = self.infer_type(e, None, None);
                    match r {
                        Ok(ty) => self.set_instance(&d.name, ty),
                        Err(_) => {},
                    }
                },
            },
            Statement::Aggregate(d) => self.register_aggregate(d),
            Statement::PluginImport(d) => {
                let ghost e0 = errs(self.errors@);
                if self.instances.contains_key(d.alias.as_str()) {
                    self.push_error(
                        mk_err(
                            "L052",
                            cat3("The plugin alias '", d.alias.as_str(), "' conflicts with an existing name. Each plugin alias must be unique."),
                            d.span,
                        ),
                    );
                    assert(errs(self.errors@) =~= e0 + seq![("L052"@, l052_text(d.alias@), d.span)]);
                } else {
                    assert(errs(self.errors@) =~= e0 + Seq::<ErrV>::empty());
                }
            },
            Statement::Provider(d) => {
                let ghost e0 = errs(self.errors@);
                if !config_has_endpoint(&d.config) {
                    self.push_error(
                        mk_err(
                            "L053",
                            cat3("Provider '", d.protocol.as_str(), "' is missing an 'endpoint' configuration. Every provider must specify where to connect."),
                            d.span,
                        ),
                    );
                    assert(errs(self.errors@) =~= e0 + seq![("L053"@, l053_text(d.protocol@), d.span)]);
                } else {
                    assert(errs(self.errors@) =~= e0 + Seq::<ErrV>::empty());
                }
            },
            Statement::Cluster(d) => self.register_cluster(d),
            _ => {},
        }
    }

    /// The first pass: registers entities, functions, imports, instances,
    /// aggregates, plugins, providers and the cluster, statement by statement.
    pub fn pass1_register_entities(&mut self, program: &Program)
        requires
            old(self).wf(),
        ensures
            final(self).wf(),
            all_registered(*old(self), *final(self), program.statements@),
    {
        let ghost mut states: Seq<Analyzer> = seq![*self];
        let n = program.statements.len();
        let mut i: usize = 0;
        while i < n
            invariant
                n == program.statements@.len(),
                i <= n,
                self.wf(),
                states.len() == i + 1,
                states[0] == *old(self),
                states[i as int] == *self,
                forall|j: int|
                    0 <= j < i ==> #[trigger] stmt_registered(
                        states[j],
                        states[j + 1],
                        program.statements@[j],
                    ),
            decreases n - i,
        {
            self.register_statement(&program.statements[i]);
            proof {
                let ghost prev = states;
                states = states.push(*self);
                assert forall|j: int| 0 <= j < i + 1 implies #[trigger] stmt_registered(
                    states[j],
                    states[j + 1],
                    program.statements@[j],
                ) by {
                    if j < i {
                        assert(states[j] == prev[j] && states[j + 1] == prev[j + 1]);
                    }
                }
            }
            i += 1;
        }
        assert(states.len() == n + 1);
    }
}

} // verus!
