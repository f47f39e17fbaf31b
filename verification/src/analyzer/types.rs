use vstd::prelude::*;
use crate::assoc::StrMap;
use crate::ast::{LuminaType, FieldMetadata, SyncStrategy, Duration, TyView, copy_type};
use crate::text::{views, strictly_sorted};

verus! {

/// The analyzed schema: every entity definition after type checking.
pub struct Schema {
    pub entities: StrMap<EntitySchema>,
}

pub struct EntitySchema {
    pub name: String,
    pub fields: StrMap<FieldSchema>,
    /// Each field's slot index: its position in `field_names`.
    pub field_indices: StrMap<usize>,
    /// The field names in sorted order.
    pub field_names: Vec<String>,
    pub is_external: bool,
    pub sync_path: String,
    pub sync_strategy: SyncStrategy,
    pub sync_on: Option<Vec<String>>,
    pub poll_interval: Option<Duration>,
}

pub struct FieldSchema {
    pub name: String,
    pub ty: LuminaType,
    pub is_derived: bool,
    pub metadata: FieldMetadata,
}

/// What a field of the schema says: its type, whether it is derived, and its
/// metadata.
pub struct FieldModel {
    pub ty: TyView,
    pub is_derived: bool,
    pub doc: Option<Seq<char>>,
    pub range: Option<(u64, u64)>,
    pub affects: Seq<Seq<char>>,
}

pub open spec fn doc_view(d: Option<String>) -> Option<Seq<char>> {
    match d {
        Some(s) => Some(s@),
        None => None,
    }
}

pub open spec fn field_model(f: FieldSchema) -> FieldModel {
    FieldModel {
        ty: f.ty@,
        is_derived: f.is_derived,
        doc: doc_view(f.metadata.doc),
        range: f.metadata.range,
        affects: views(f.metadata.affects@),
    }
}

pub open spec fn fields_model(m: Map<Seq<char>, FieldSchema>) -> Map<Seq<char>, FieldModel> {
    m.map_values(|f: FieldSchema| field_model(f))
}

/// `names` lists the fields in sorted order and `indices` gives each its position.
pub open spec fn names_indexed(
    dom: Set<Seq<char>>,
    names: Seq<Seq<char>>,
    indices: Map<Seq<char>, usize>,
) -> bool {
    &&& strictly_sorted(names)
    &&& names.to_set() == dom
    &&& indices.dom() == dom
    &&& forall|i: int| 0 <= i < names.len() ==> indices[#[trigger] names[i]] == i
}

pub open spec fn sync_on_view(s: Option<Vec<String>>) -> Option<Seq<Seq<char>>> {
    match s {
        Some(v) => Some(views(v@)),
        None => None,
    }
}

/// A stored field of the given type with no metadata.
pub open spec fn plain_field(ty: TyView) -> FieldModel {
    FieldModel { ty, is_derived: false, doc: None, range: None, affects: Seq::empty() }
}

/// The fields of entity `e` as the schema records them (none if it is absent).
pub open spec fn entity_fields_before(s: Schema, e: Seq<char>) -> Map<Seq<char>, FieldModel> {
    if s.entities@.contains_key(e) {
        fields_model(s.entities@[e].fields@)
    } else {
        Map::empty()
    }
}

/// `m` with a field added unless one of that name is there.
pub open spec fn field_added(m: Map<Seq<char>, FieldModel>, f: Seq<char>, ty: TyView) -> Map<
    Seq<char>,
    FieldModel,
> {
    if m.contains_key(f) {
        m
    } else {
        m.insert(f, plain_field(ty))
    }
}

/// Everything but the fields is the same.
pub open spec fn entity_attrs_same(a: EntitySchema, b: EntitySchema) -> bool {
    &&& b.name == a.name
    &&& b.field_indices == a.field_indices
    &&& b.field_names == a.field_names
    &&& b.is_external == a.is_external
    &&& b.sync_path == a.sync_path
    &&& b.sync_strategy == a.sync_strategy
    &&& b.sync_on == a.sync_on
    &&& b.poll_interval == a.poll_interval
}

/// A local entity named `name` with no sync settings.
pub open spec fn entity_attrs_default(es: EntitySchema, name: Seq<char>) -> bool {
    &&& es.name@ == name
    &&& es.field_names@.len() == 0
    &&& es.field_indices@ == Map::<Seq<char>, usize>::empty()
    &&& !es.is_external
    &&& es.sync_path@ == Seq::<char>::empty()
    &&& es.sync_strategy == SyncStrategy::Realtime
    &&& es.sync_on is None
    &&& es.poll_interval is None
}

/// `t` is `s` with the type of field `f` of entity `e` set to `ty`, when that
/// field exists; otherwise `t` is `s`.
pub open spec fn field_type_set(s: Schema, t: Schema, e: Seq<char>, f: Seq<char>, ty: TyView) -> bool {
    if lookup_field(s, e, f) is Some {
        &&& t.entities@.dom() == s.entities@.dom()
        &&& forall|x: Seq<char>|
            x != e && #[trigger] s.entities@.contains_key(x) ==> t.entities@[x] == s.entities@[x]
        &&& entity_attrs_same(s.entities@[e], t.entities@[e])
        &&& t.entities@[e].fields@.dom() == s.entities@[e].fields@.dom()
        &&& forall|g: Seq<char>|
            g != f && #[trigger] s.entities@[e].fields@.contains_key(g) ==> t.entities@[e].fields@[g]
                == s.entities@[e].fields@[g]
        &&& t.entities@[e].fields@[f].ty@ == ty
        &&& t.entities@[e].fields@[f].name == s.entities@[e].fields@[f].name
        &&& t.entities@[e].fields@[f].is_derived == s.entities@[e].fields@[f].is_derived
        &&& t.entities@[e].fields@[f].metadata == s.entities@[e].fields@[f].metadata
    } else {
        t == s
    }
}

/// The field `f` of entity `e`, if both exist.
pub open spec fn lookup_field(s: Schema, e: Seq<char>, f: Seq<char>) -> Option<FieldSchema> {
    if s.entities@.contains_key(e) && s.entities@[e].fields@.contains_key(f) {
        Some(s.entities@[e].fields@[f])
    } else {
        None
    }
}

impl Schema {
    pub open spec fn wf(&self) -> bool {
        &&& self.entities.wf()
        &&& forall|e: Seq<char>|
            #[trigger] self.entities@.contains_key(e) ==> self.entities@[e].fields.wf()
                && self.entities@[e].field_indices.wf()
    }

    pub fn new() -> (s: Self)
        ensures
            s.wf(),
            s.entities@ == Map::<Seq<char>, EntitySchema>::empty(),
    {
        Schema { entities: StrMap::new() }
    }

    pub fn get_entity(&self, name: &str) -> (r: Option<&EntitySchema>)
        requires
            self.wf(),
        ensures
            match r {
                Some(e) => self.entities@.contains_key(name@) && *e == self.entities@[name@],
                None => !self.entities@.contains_key(name@),
            },
    {
        self.entities.get(name)
    }

    pub fn get_field(&self, entity: &str, field: &str) -> (r: Option<&FieldSchema>)
        requires
            self.wf(),
        ensures
            match r {
                Some(f) => lookup_field(*self, entity@, field@) == Some(*f),
                None => lookup_field(*self, entity@, field@) is None,
            },
    {
        match self.entities.get(entity) {
            Some(e) => e.fields.get(field),
            None => None,
        }
    }

    /// Register a single field into an entity schema (used by standard
    /// library imports and aggregates): a missing entity is created, an
    /// existing field is left as it is.
    pub fn register_field(&mut self, entity: &str, field_name: &str, ty: &LuminaType)
        requires
            old(self).wf(),
        ensures
            final(self).wf(),
            final(self).entities@.dom() == old(self).entities@.dom().insert(entity@),
            forall|e: Seq<char>|
                e != entity@ && #[trigger] old(self).entities@.contains_key(e) ==> final(self).entities@[e]
                    == old(self).entities@[e],
            fields_model(final(self).entities@[entity@].fields@) == field_added(
                entity_fields_before(*old(self), entity@),
                field_name@,
                ty@,
            ),
            old(self).entities@.contains_key(entity@) ==> entity_attrs_same(
                old(self).entities@[entity@],
                final(self).entities@[entity@],
            ),
            !old(self).entities@.contains_key(entity@) ==> entity_attrs_default(
                final(self).entities@[entity@],
                entity@,
            ),
    {
        let mut es = match self.entities.remove(entity) {
            Some(e) => e,
            None => EntitySchema {
                name: String::from_str(entity),
                fields: StrMap::new(),
                field_indices: StrMap::new(),
                field_names: Vec::new(),
                is_external: false,
                sync_path: String::new(),
                sync_strategy: SyncStrategy::Realtime,
                sync_on: None,
                poll_interval: None,
            },
        };
        let ghost before = fields_model(es.fields@);
        proof {
            assert(before =~= entity_fields_before(*old(self), entity@));
        }
        if !es.fields.contains_key(field_name) {
            let meta = FieldMetadata { doc: None, range: None, affects: Vec::new() };
            let f = FieldSchema {
                name: String::from_str(field_name),
                ty: copy_type(ty),
                is_derived: false,
                metadata: meta,
            };
            proof {
                assert(views(f.metadata.affects@) =~= Seq::<Seq<char>>::empty());
            }
            es.fields.insert(String::from_str(field_name), f);
            proof {
                assert(fields_model(es.fields@) =~= before.insert(field_name@, plain_field(ty@)));
            }
        }
        self.entities.insert(String::from_str(entity), es);
        proof {
            assert(final(self).entities@.dom() =~= old(self).entities@.dom().insert(entity@));
        }
    }

    /// Sets the type of a field, when the entity has it.
    pub fn set_field_type(&mut self, entity: &str, field: &str, ty: LuminaType)
        requires
            old(self).wf(),
        ensures
            final(self).wf(),
            field_type_set(*old(self), *final(self), entity@, field@, ty@),
    {
        if self.get_field(entity, field).is_none() {
            return;
        }
        let ghost s0 = *self;
        let mut es = match self.entities.remove(entity) {
            Some(e) => e,
            None => {
                return;
            },
        };
        let ghost es0 = es;
        match es.fields.get_mut(field) {
            Some(fs) => {
                fs.ty = ty;
            },
            None => {},
        }
        proof {
            assert(es.fields@.dom() =~= es0.fields@.dom());
        }
        self.entities.insert(String::from_str(entity), es);
        proof {
            assert(self.entities@.dom() =~= s0.entities@.dom());
        }
    }
}

} // verus!
