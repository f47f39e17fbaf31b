use vstd::prelude::*;
use crate::assoc::{StrMap, lemma_key_index, lemma_pair_in_map, key_index};

verus! {

/// The version a vector holds for `node`; a node it does not list is at 0.
pub open spec fn ver(m: Map<Seq<char>, u64>, node: Seq<char>) -> nat {
    if m.contains_key(node) {
        m[node] as nat
    } else {
        0
    }
}

/// `a` is causally after `b`: at least `b`'s version everywhere, and above it somewhere.
pub open spec fn vv_dominates(a: Map<Seq<char>, u64>, b: Map<Seq<char>, u64>) -> bool {
    &&& forall|k: Seq<char>| #[trigger] ver(a, k) >= ver(b, k)
    &&& exists|k: Seq<char>| #[trigger] ver(a, k) > ver(b, k)
}

pub open spec fn max_u64(x: u64, y: u64) -> u64 {
    if x >= y {
        x
    } else {
        y
    }
}

/// Point-wise maximum over the nodes that either vector lists.
pub open spec fn vv_merge(a: Map<Seq<char>, u64>, b: Map<Seq<char>, u64>) -> Map<Seq<char>, u64> {
    Map::new(
        |k: Seq<char>| a.contains_key(k) || b.contains_key(k),
        |k: Seq<char>| max_u64(ver(a, k) as u64, ver(b, k) as u64),
    )
}

/// Version vector for conflict resolution: node id to a monotonic counter.
pub struct VersionVector {
    pub versions: StrMap<u64>,
}

impl View for VersionVector {
    type V = Map<Seq<char>, u64>;

    open spec fn view(&self) -> Map<Seq<char>, u64> {
        self.versions@
    }
}

impl Clone for VersionVector {
    fn clone(&self) -> (r: Self)
        ensures
            self.wf() ==> r.wf() && r@ == self@,
    {
        let versions = self.versions.clone();
        proof {
            assert forall|i: int| 0 <= i < self.versions.pairs().len() implies #[trigger]
                versions.pairs()[i] == self.versions.pairs()[i] by {
                assert(versions.pairs()[i].0 == self.versions.pairs()[i].0);
                assert(cloned::<u64>(self.versions.pairs()[i].1, versions.pairs()[i].1));
            }
            assert(versions.pairs() =~= self.versions.pairs());
        }
        VersionVector { versions }
    }
}

impl VersionVector {
    pub open spec fn wf(&self) -> bool {
        self.versions.wf()
    }

    pub fn new() -> (vv: Self)
        ensures
            vv.wf(),
            vv@ == Map::<Seq<char>, u64>::empty(),
    {
        VersionVector { versions: StrMap::new() }
    }

    /// The version recorded for `node`, 0 when it has none.
    pub fn get(&self, node: &String) -> (v: u64)
        requires
            self.wf(),
        ensures
            v == ver(self@, node@),
    {
        match self.versions.get(node) {
            Some(v) => *v,
            None => 0,
        }
    }

    /// Increment the version for a specific node.
    pub fn increment(&mut self, node_id: &String)
        requires
            old(self).wf(),
            ver(old(self)@, node_id@) < u64::MAX,
        ensures
            final(self).wf(),
            final(self)@ == old(self)@.insert(node_id@, (ver(old(self)@, node_id@) + 1) as u64),
    {
        let cur = self.get(node_id);
        self.versions.insert(node_id.clone(), cur + 1);
    }

    /// Check if self dominates (is causally after) other.
    pub fn dominates(&self, other: &VersionVector) -> (b: bool)
        requires
            self.wf(),
            other.wf(),
        ensures
            b == vv_dominates(self@, other@),
    {
        let mut strictly = false;
        let n = other.versions.len();
        let mut i: usize = 0;
        while i < n
            invariant
                self.wf(),
                other.wf(),
                n == other.versions.pairs().len(),
                i <= n,
                forall|j: int|
                    0 <= j < i ==> ver(self@, #[trigger] other.versions.pairs()[j].0@) >= ver(
                        other@,
                        other.versions.pairs()[j].0@,
                    ),
                strictly <==> exists|j: int|
                    0 <= j < i && ver(self@, #[trigger] other.versions.pairs()[j].0@) > ver(
                        other@,
                        other.versions.pairs()[j].0@,
                    ),
            decreases n - i,
        {
            let node = other.versions.key_at(i);
            let v = *other.versions.value_at(i);
            proof {
                lemma_pair_in_map(other.versions.pairs(), i as int);
            }
            let mine = self.get(node);
            if mine < v {
                assert(!(ver(self@, node@) >= ver(other@, node@)));
                return false;
            }
            if mine > v {
                strictly = true;
            }
            i += 1;
        }
        proof {
            assert forall|k: Seq<char>| #[trigger] ver(self@, k) >= ver(other@, k) by {
                lemma_key_index(other.versions.pairs(), k);
                if other@.contains_key(k) {
                    let j = key_index(other.versions.pairs(), k);
                    assert(ver(self@, other.versions.pairs()[j].0@) >= ver(
                        other@,
                        other.versions.pairs()[j].0@,
                    ));
                }
            }
        }
        let m = self.versions.len();
        let mut i: usize = 0;
        while i < m
            invariant
                self.wf(),
                other.wf(),
                m == self.versions.pairs().len(),
                i <= m,
                forall|k: Seq<char>| #[trigger] ver(self@, k) >= ver(other@, k),
                strictly <==> (exists|j: int|
                    0 <= j < n && ver(self@, #[trigger] other.versions.pairs()[j].0@) > ver(
                        other@,
                        other.versions.pairs()[j].0@,
                    )) || (exists|j: int|
                    0 <= j < i && ver(self@, #[trigger] self.versions.pairs()[j].0@) > ver(
                        other@,
                        self.versions.pairs()[j].0@,
                    )),
                n == other.versions.pairs().len(),
            decreases m - i,
        {
            let node = self.versions.key_at(i);
            let v = *self.versions.value_at(i);
            proof {
                lemma_pair_in_map(self.versions.pairs(), i as int);
            }
            if !other.versions.contains_key(node) && v > 0 {
                strictly = true;
            }
            proof {
                if other@.contains_key(node@) {
                    lemma_key_index(other.versions.pairs(), node@);
                    let j = key_index(other.versions.pairs(), node@);
                    if ver(self@, node@) > ver(other@, node@) {
                        assert(ver(self@, other.versions.pairs()[j].0@) > ver(
                            other@,
                            other.versions.pairs()[j].0@,
                        ));
                    }
                }
            }
            i += 1;
        }
        proof {
            if strictly {
                if exists|j: int|
                    0 <= j < n && ver(self@, #[trigger] other.versions.pairs()[j].0@) > ver(
                        other@,
                        other.versions.pairs()[j].0@,
                    ) {
                    let j = choose|j: int|
                        0 <= j < n && ver(self@, #[trigger] other.versions.pairs()[j].0@) > ver(
                            other@,
                            other.versions.pairs()[j].0@,
                        );
                    assert(ver(self@, other.versions.pairs()[j].0@) > ver(
                        other@,
                        other.versions.pairs()[j].0@,
                    ));
                } else {
                    let j = choose|j: int|
                        0 <= j < m && ver(self@, #[trigger] self.versions.pairs()[j].0@) > ver(
                            other@,
                            self.versions.pairs()[j].0@,
                        );
                    assert(ver(self@, self.versions.pairs()[j].0@) > ver(
                        other@,
                        self.versions.pairs()[j].0@,
                    ));
                }
            } else {
                assert forall|k: Seq<char>| !(#[trigger] ver(self@, k) > ver(other@, k)) by {
                    lemma_key_index(other.versions.pairs(), k);
                    lemma_key_index(self.versions.pairs(), k);
                    if other@.contains_key(k) {
                        let j = key_index(other.versions.pairs(), k);
                        assert(!(ver(self@, other.versions.pairs()[j].0@) > ver(
                            other@,
                            other.versions.pairs()[j].0@,
                        )));
                    } else if self@.contains_key(k) {
                        let j = key_index(self.versions.pairs(), k);
                        assert(!(ver(self@, self.versions.pairs()[j].0@) > ver(
                            other@,
                            self.versions.pairs()[j].0@,
                        )));
                    }
                }
            }
        }
        strictly
    }

    /// Merge two version vectors (point-wise max).
    pub fn merge(&mut self, other: &VersionVector)
        requires
            old(self).wf(),
            other.wf(),
        ensures
            final(self).wf(),
            final(self)@ == vv_merge(old(self)@, other@),
    {
        let ghost start = self@;
        let n = other.versions.len();
        let mut i: usize = 0;
        while i < n
            invariant
                self.wf(),
                other.wf(),
                n == other.versions.pairs().len(),
                i <= n,
                forall|k: Seq<char>|
                    #![trigger self@.contains_key(k)]
                    self@.contains_key(k) <==> (start.contains_key(k) || exists|j: int|
                        0 <= j < i && other.versions.pairs()[j].0@ == k),
                forall|k: Seq<char>|
                    #![trigger ver(self@, k)]
                    ver(self@, k) == if (exists|j: int|
                        0 <= j < i && other.versions.pairs()[j].0@ == k) {
                        max_u64(ver(start, k) as u64, ver(other@, k) as u64) as nat
                    } else {
                        ver(start, k)
                    },
            decreases n - i,
        {
            let node = other.versions.key_at(i);
            let v = *other.versions.value_at(i);
            proof {
                lemma_pair_in_map(other.versions.pairs(), i as int);
            }
            let mine = self.get(node);
            let ghost before = self@;
            if v > mine {
                self.versions.insert(node.clone(), v);
            } else {
                self.versions.insert(node.clone(), mine);
            }
            proof {
                assert forall|k: Seq<char>|
                    #![trigger self@.contains_key(k)]
                    self@.contains_key(k) <==> (start.contains_key(k) || exists|j: int|
                        0 <= j < i + 1 && other.versions.pairs()[j].0@ == k) by {
                    if k != node@ && before.contains_key(k) && !start.contains_key(k) {
                        let j = choose|j: int| 0 <= j < i && other.versions.pairs()[j].0@ == k;
                        assert(0 <= j < i + 1 && other.versions.pairs()[j].0@ == k);
                    }
                    if k != node@ && (exists|j: int|
                        0 <= j < i + 1 && other.versions.pairs()[j].0@ == k) {
                        let j = choose|j: int| 0 <= j < i + 1 && other.versions.pairs()[j].0@ == k;
                        assert(j != i);
                        assert(before.contains_key(k));
                    }
                }
                assert forall|k: Seq<char>|
                    #![trigger ver(self@, k)]
                    ver(self@, k) == if (exists|j: int|
                        0 <= j < i + 1 && other.versions.pairs()[j].0@ == k) {
                        max_u64(ver(start, k) as u64, ver(other@, k) as u64) as nat
                    } else {
                        ver(start, k)
                    } by {
                    assert(ver(before, k) == if (exists|j: int|
                        0 <= j < i && other.versions.pairs()[j].0@ == k) {
                        max_u64(ver(start, k) as u64, ver(other@, k) as u64) as nat
                    } else {
                        ver(start, k)
                    });
                    if k == node@ {
                        assert(0 <= i < i + 1 && other.versions.pairs()[i as int].0@ == k);
                        if exists|j: int| 0 <= j < i && other.versions.pairs()[j].0@ == k {
                            let j = choose|j: int| 0 <= j < i && other.versions.pairs()[j].0@ == k;
                            assert(j != i);
                            assert(false);
                        }
                    } else {
                        if exists|j: int| 0 <= j < i + 1 && other.versions.pairs()[j].0@ == k {
                            let j = choose|j: int|
                                0 <= j < i + 1 && other.versions.pairs()[j].0@ == k;
                            assert(0 <= j < i && other.versions.pairs()[j].0@ == k);
                        }
                    }
                }
            }
            i += 1;
        }
        proof {
            assert forall|k: Seq<char>| #[trigger] self@.contains_key(k) implies self@[k] == vv_merge(
                start,
                other@,
            )[k] by {
                assert(ver(self@, k) == self@[k]);
                lemma_key_index(other.versions.pairs(), k);
                if other@.contains_key(k) {
                    let j = key_index(other.versions.pairs(), k);
                    assert(0 <= j < n && other.versions.pairs()[j].0@ == k);
                } else {
                    if exists|j: int| 0 <= j < n && other.versions.pairs()[j].0@ == k {
                        let j = choose|j: int| 0 <= j < n && other.versions.pairs()[j].0@ == k;
                        assert(false);
                    }
                }
            }
            assert forall|k: Seq<char>| #[trigger]
                vv_merge(start, other@).contains_key(k) implies self@.contains_key(k) by {
                lemma_key_index(other.versions.pairs(), k);
                if other@.contains_key(k) {
                    let j = key_index(other.versions.pairs(), k);
                    assert(0 <= j < n && other.versions.pairs()[j].0@ == k);
                }
            }
            assert forall|k: Seq<char>| #[trigger] self@.contains_key(k) implies vv_merge(
                start,
                other@,
            ).contains_key(k) by {
                if !start.contains_key(k) {
                    let j = choose|j: int| 0 <= j < n && other.versions.pairs()[j].0@ == k;
                    lemma_pair_in_map(other.versions.pairs(), j);
                }
            }
            assert(self@ =~= vv_merge(start, other@));
        }
    }
}

/// Incrementing a node's counter yields a vector that dominates the old one.
pub proof fn law_increment_dominates(m: Map<Seq<char>, u64>, node: Seq<char>)
    requires
        ver(m, node) < u64::MAX,
    ensures
        vv_dominates(m.insert(node, (ver(m, node) + 1) as u64), m),
{
    let n = m.insert(node, (ver(m, node) + 1) as u64);
    assert(ver(n, node) > ver(m, node));
    assert forall|k: Seq<char>| #[trigger] ver(n, k) >= ver(m, k) by {}
}

/// No version vector dominates itself.
pub proof fn law_dominates_irreflexive(a: Map<Seq<char>, u64>)
    ensures
        !vv_dominates(a, a),
{
}

/// Two version vectors never dominate each other.
pub proof fn law_dominates_asymmetric(a: Map<Seq<char>, u64>, b: Map<Seq<char>, u64>)
    ensures
        !(vv_dominates(a, b) && vv_dominates(b, a)),
{
    if vv_dominates(a, b) && vv_dominates(b, a) {
        let k = choose|k: Seq<char>| #[trigger] ver(a, k) > ver(b, k);
        assert(ver(b, k) >= ver(a, k));
    }
}

/// Domination is transitive.
pub proof fn law_dominates_transitive(
    a: Map<Seq<char>, u64>,
    b: Map<Seq<char>, u64>,
    c: Map<Seq<char>, u64>,
)
    requires
        vv_dominates(a, b),
        vv_dominates(b, c),
    ensures
        vv_dominates(a, c),
{
    let k = choose|k: Seq<char>| #[trigger] ver(a, k) > ver(b, k);
    assert(ver(b, k) >= ver(c, k));
    assert forall|k: Seq<char>| #[trigger] ver(a, k) >= ver(c, k) by {
        assert(ver(a, k) >= ver(b, k));
        assert(ver(b, k) >= ver(c, k));
    }
}

/// A merged vector holds, for every node, the larger of the two versions.
pub proof fn law_merge_is_pointwise_max(a: Map<Seq<char>, u64>, b: Map<Seq<char>, u64>)
    ensures
        forall|k: Seq<char>|
            #[trigger] ver(vv_merge(a, b), k) == if ver(a, k) >= ver(b, k) {
                ver(a, k)
            } else {
                ver(b, k)
            },
{
}

/// Merging is commutative.
pub proof fn law_merge_commutative(a: Map<Seq<char>, u64>, b: Map<Seq<char>, u64>)
    ensures
        vv_merge(a, b) == vv_merge(b, a),
{
    assert(vv_merge(a, b) =~= vv_merge(b, a));
}

/// Merging a vector with itself changes nothing.
pub proof fn law_merge_idempotent(a: Map<Seq<char>, u64>)
    ensures
        vv_merge(a, a) == a,
{
    assert(vv_merge(a, a) =~= a);
}

/// Merging is associative.
pub proof fn law_merge_associative(
    a: Map<Seq<char>, u64>,
    b: Map<Seq<char>, u64>,
    c: Map<Seq<char>, u64>,
)
    ensures
        vv_merge(vv_merge(a, b), c) == vv_merge(a, vv_merge(b, c)),
{
    assert(vv_merge(vv_merge(a, b), c) =~= vv_merge(a, vv_merge(b, c)));
}

/// Neither input dominates the merge of the two.
pub proof fn law_merge_not_dominated(a: Map<Seq<char>, u64>, b: Map<Seq<char>, u64>)
    ensures
        !vv_dominates(a, vv_merge(a, b)),
        !vv_dominates(b, vv_merge(a, b)),
{
}

/// An entry in the state mesh with version tracking.
pub struct MeshEntry {
    pub value: Vec<u8>,
    pub version: VersionVector,
    pub last_writer: String,
}

/// What a mesh entry holds.
pub struct MeshEntryView {
    pub value: Seq<u8>,
    pub version: Map<Seq<char>, u64>,
    pub last_writer: Seq<char>,
}

impl View for MeshEntry {
    type V = MeshEntryView;

    open spec fn view(&self) -> MeshEntryView {
        MeshEntryView { value: self.value@, version: self.version@, last_writer: self.last_writer@ }
    }
}

impl Clone for MeshEntry {
    fn clone(&self) -> (r: Self)
        ensures
            self.version.wf() ==> r.version.wf() && r@ == self@,
    {
        MeshEntry {
            value: self.value.clone(),
            version: self.version.clone(),
            last_writer: self.last_writer.clone(),
        }
    }
}

/// The entry a local write leaves behind: the new value, the writer's
/// counter one higher, and the writer as last writer.
pub open spec fn written_entry(
    prior: Option<MeshEntryView>,
    node: Seq<char>,
    value: Seq<u8>,
) -> MeshEntryView {
    let version = match prior {
        Some(e) => e.version,
        None => Map::empty(),
    };
    MeshEntryView {
        value,
        version: version.insert(node, (ver(version, node) + 1) as u64),
        last_writer: node,
    }
}

/// A node's fields after a bulk write of `state` by that node.
pub open spec fn synced_fields(
    fields: Map<Seq<char>, MeshEntryView>,
    node: Seq<char>,
    state: Map<Seq<char>, Vec<u8>>,
) -> Map<Seq<char>, MeshEntryView> {
    Map::new(
        |f: Seq<char>| fields.contains_key(f) || state.contains_key(f),
        |f: Seq<char>|
            if state.contains_key(f) {
                written_entry(fields.get(f), node, state[f]@)
            } else {
                fields[f]
            },
    )
}

/// What a map of raw field values holds.
pub open spec fn raw_view(m: StrMap<Vec<u8>>) -> Map<Seq<char>, Seq<u8>> {
    m@.map_values(|v: Vec<u8>| v@)
}

/// The values of a node's fields.
pub open spec fn values_view(m: Map<Seq<char>, MeshEntryView>) -> Map<Seq<char>, Seq<u8>> {
    m.map_values(|e: MeshEntryView| e.value)
}

/// The counter a local write on `node` would increment.
pub open spec fn prior_version(prior: Option<MeshEntryView>, node: Seq<char>) -> nat {
    match prior {
        Some(e) => ver(e.version, node),
        None => 0,
    }
}

/// Conflict resolution for one field: the remote entry wins when its version
/// dominates; when neither dominates, the remote entry is kept with the two
/// versions merged; when the local version dominates, the local entry stays.
pub open spec fn resolve(local: Option<MeshEntryView>, remote: MeshEntryView) -> MeshEntryView {
    match local {
        None => remote,
        Some(l) => if vv_dominates(remote.version, l.version) {
            remote
        } else if !vv_dominates(l.version, remote.version) {
            MeshEntryView { version: vv_merge(remote.version, l.version), ..remote }
        } else {
            l
        },
    }
}

/// After resolution a field's version is at least both the local and the
/// remote version at every node.
pub proof fn law_resolve_upper_bound(local: Option<MeshEntryView>, remote: MeshEntryView)
    ensures
        forall|k: Seq<char>| #[trigger]
            ver(resolve(local, remote).version, k) >= ver(remote.version, k),
        forall|k: Seq<char>|
            #![trigger ver(resolve(local, remote).version, k)]
            local is Some ==> ver(resolve(local, remote).version, k) >= ver(
                local.unwrap().version,
                k,
            ),
{
}

/// Resolving an entry against itself leaves it as it is.
pub proof fn law_resolve_same(e: MeshEntryView)
    ensures
        resolve(Some(e), e) == e,
{
    law_merge_idempotent(e.version);
}

pub open spec fn inner_view(m: StrMap<MeshEntry>) -> Map<Seq<char>, MeshEntryView> {
    m@.map_values(|e: MeshEntry| e@)
}

pub open spec fn inner_wf(m: StrMap<MeshEntry>) -> bool {
    &&& m.wf()
    &&& forall|f: Seq<char>| #[trigger] m@.contains_key(f) ==> m@[f].version.wf()
}

/// The distributed state mesh: node id to field name to versioned entry.
pub struct ClusterStateMesh {
    pub mesh: StrMap<StrMap<MeshEntry>>,
}

impl View for ClusterStateMesh {
    type V = Map<Seq<char>, Map<Seq<char>, MeshEntryView>>;

    open spec fn view(&self) -> Map<Seq<char>, Map<Seq<char>, MeshEntryView>> {
        self.mesh@.map_values(|m: StrMap<MeshEntry>| inner_view(m))
    }
}

/// The node's fields, empty for a node the mesh does not know.
pub open spec fn node_fields(
    m: Map<Seq<char>, Map<Seq<char>, MeshEntryView>>,
    node: Seq<char>,
) -> Map<Seq<char>, MeshEntryView> {
    if m.contains_key(node) {
        m[node]
    } else {
        Map::empty()
    }
}

impl ClusterStateMesh {
    pub open spec fn wf(&self) -> bool {
        &&& self.mesh.wf()
        &&& forall|n: Seq<char>| #[trigger] self.mesh@.contains_key(n) ==> inner_wf(self.mesh@[n])
    }

    pub fn new() -> (m: Self)
        ensures
            m.wf(),
            m@ == Map::<Seq<char>, Map<Seq<char>, MeshEntryView>>::empty(),
    {
        let m = ClusterStateMesh { mesh: StrMap::new() };
        assert(m@ =~= Map::<Seq<char>, Map<Seq<char>, MeshEntryView>>::empty());
        m
    }

    /// Takes the node's field map out of the mesh (an empty one for an unknown node).
    fn take_node(&mut self, node_id: &String) -> (inner: StrMap<MeshEntry>)
        requires
            old(self).wf(),
        ensures
            final(self).wf(),
            final(self).mesh@ == old(self).mesh@.remove(node_id@),
            inner_wf(inner),
            inner_view(inner) == node_fields(old(self)@, node_id@),
    {
        match self.mesh.remove(node_id) {
            Some(m) => m,
            None => {
                let m = StrMap::new();
                assert(inner_view(m) =~= Map::<Seq<char>, MeshEntryView>::empty());
                m
            },
        }
    }

    /// Puts a node's field map back.
    fn put_node(&mut self, node_id: &String, inner: StrMap<MeshEntry>)
        requires
            old(self).wf(),
            inner_wf(inner),
        ensures
            final(self).wf(),
            final(self).mesh@ == old(self).mesh@.insert(node_id@, inner),
            final(self)@ == old(self)@.insert(node_id@, inner_view(inner)),
    {
        self.mesh.insert(node_id.clone(), inner);
        assert(self@ =~= old(self)@.insert(node_id@, inner_view(inner)));
    }

    /// Writes one field into a node's field map as a local write by `node_id`.
    fn write_field(inner: &mut StrMap<MeshEntry>, node_id: &String, field: &String, value: Vec<u8>)
        requires
            inner_wf(*old(inner)),
            prior_version(inner_view(*old(inner)).get(field@), node_id@) < u64::MAX,
        ensures
            inner_wf(*final(inner)),
            inner_view(*final(inner)) == inner_view(*old(inner)).insert(
                field@,
                written_entry(inner_view(*old(inner)).get(field@), node_id@, value@),
            ),
    {
        let ghost prior = inner_view(*inner).get(field@);
        let ghost before = inner_view(*inner);
        let mut entry = match inner.remove(field) {
            Some(e) => e,
            None => MeshEntry {
                value: Vec::new(),
                version: VersionVector::new(),
                last_writer: node_id.clone(),
            },
        };
        entry.value = value;
        entry.version.increment(node_id);
        entry.last_writer = node_id.clone();
        assert(entry@ == written_entry(prior, node_id@, value@));
        inner.insert(field.clone(), entry);
        assert(inner_view(*inner) =~= before.insert(field@, written_entry(prior, node_id@, value@)));
    }

    /// Update state for a local node, incrementing its version vector.
    pub fn update_local(&mut self, node_id: &String, field: &String, value: Vec<u8>)
        requires
            old(self).wf(),
            prior_version(node_fields(old(self)@, node_id@).get(field@), node_id@) < u64::MAX,
        ensures
            final(self).wf(),
            final(self)@ == old(self)@.insert(
                node_id@,
                node_fields(old(self)@, node_id@).insert(
                    field@,
                    written_entry(node_fields(old(self)@, node_id@).get(field@), node_id@, value@),
                ),
            ),
    {
        let ghost start = self@;
        let mut inner = self.take_node(node_id);
        Self::write_field(&mut inner, node_id, field, value);
        let ghost removed = self@;
        self.put_node(node_id, inner);
        assert(self@ =~= start.insert(node_id@, inner_view(inner)));
    }

    /// Update state for a node with a full state map (bulk set): each field
    /// is written as by `update_local`.
    pub fn update_node_state(&mut self, node_id: &String, state: &StrMap<Vec<u8>>)
        requires
            old(self).wf(),
            state.wf(),
            forall|f: Seq<char>|
                #[trigger] state@.contains_key(f) ==> prior_version(
                    node_fields(old(self)@, node_id@).get(f),
                    node_id@,
                ) < u64::MAX,
        ensures
            final(self).wf(),
            final(self)@ == old(self)@.insert(
                node_id@,
                synced_fields(node_fields(old(self)@, node_id@), node_id@, state@),
            ),
    {
        let ghost start = node_fields(self@, node_id@);
        let ghost whole = self@;
        let mut inner = self.take_node(node_id);
        let n = state.len();
        let mut i: usize = 0;
        while i < n
            invariant
                state.wf(),
                n == state.pairs().len(),
                i <= n,
                inner_wf(inner),
                forall|f: Seq<char>|
                    #[trigger] state@.contains_key(f) ==> prior_version(start.get(f), node_id@)
                        < u64::MAX,
                forall|f: Seq<char>|
                    #![trigger inner_view(inner).contains_key(f)]
                    inner_view(inner).contains_key(f) <==> (start.contains_key(f) || exists|j: int|
                        0 <= j < i && state.pairs()[j].0@ == f),
                forall|f: Seq<char>|
                    #![trigger inner_view(inner)[f]]
                    inner_view(inner).contains_key(f) ==> inner_view(inner)[f] == if (exists|j: int|
                        0 <= j < i && state.pairs()[j].0@ == f) {
                        written_entry(start.get(f), node_id@, state@[f]@)
                    } else {
                        start[f]
                    },
            decreases n - i,
        {
            let field = state.key_at(i);
            let value = state.value_at(i).clone();
            proof {
                lemma_pair_in_map(state.pairs(), i as int);
                if exists|j: int| 0 <= j < i && state.pairs()[j].0@ == field@ {
                    let j = choose|j: int| 0 <= j < i && state.pairs()[j].0@ == field@;
                    assert(false);
                }
                assert(inner_view(inner).get(field@) == start.get(field@));
                assert(state@.contains_key(field@));
                assert(prior_version(start.get(field@), node_id@) < u64::MAX);
            }
            let ghost before = inner_view(inner);
            Self::write_field(&mut inner, node_id, field, value);
            proof {
                assert forall|f: Seq<char>|
                    #![trigger inner_view(inner).contains_key(f)]
                    inner_view(inner).contains_key(f) <==> (start.contains_key(f) || exists|j: int|
                        0 <= j < i + 1 && state.pairs()[j].0@ == f) by {
                    if f != field@ && (exists|j: int| 0 <= j < i + 1 && state.pairs()[j].0@ == f) {
                        let j = choose|j: int| 0 <= j < i + 1 && state.pairs()[j].0@ == f;
                        assert(0 <= j < i && state.pairs()[j].0@ == f);
                    }
                    if f != field@ && before.contains_key(f) && !start.contains_key(f) {
                        let j = choose|j: int| 0 <= j < i && state.pairs()[j].0@ == f;
                        assert(0 <= j < i + 1 && state.pairs()[j].0@ == f);
                    }
                }
                assert forall|f: Seq<char>|
                    #![trigger inner_view(inner)[f]]
                    inner_view(inner).contains_key(f) implies inner_view(inner)[f] == if (exists|j: int|
                        0 <= j < i + 1 && state.pairs()[j].0@ == f) {
                        written_entry(start.get(f), node_id@, state@[f]@)
                    } else {
                        start[f]
                    } by {
                    if f == field@ {
                        assert(0 <= i < i + 1 && state.pairs()[i as int].0@ == f);
                    } else {
                        assert(before.contains_key(f));
                        if exists|j: int| 0 <= j < i + 1 && state.pairs()[j].0@ == f {
                            let j = choose|j: int| 0 <= j < i + 1 && state.pairs()[j].0@ == f;
                            assert(0 <= j < i && state.pairs()[j].0@ == f);
                        }
                    }
                }
            }
            i += 1;
        }
        self.put_node(node_id, inner);
        proof {
            let target = Map::new(
                |f: Seq<char>| start.contains_key(f) || state@.contains_key(f),
                |f: Seq<char>|
                    if state@.contains_key(f) {
                        written_entry(start.get(f), node_id@, state@[f]@)
                    } else {
                        start[f]
                    },
            );
            assert forall|f: Seq<char>| (exists|j: int| 0 <= j < n && state.pairs()[j].0@ == f)
                <==> #[trigger] state@.contains_key(f) by {
                lemma_key_index(state.pairs(), f);
                if exists|j: int| 0 <= j < n && state.pairs()[j].0@ == f {
                    let j = choose|j: int| 0 <= j < n && state.pairs()[j].0@ == f;
                    lemma_pair_in_map(state.pairs(), j);
                }
                if state@.contains_key(f) {
                    let j = key_index(state.pairs(), f);
                    assert(0 <= j < n && state.pairs()[j].0@ == f);
                }
            }
            assert(inner_view(inner) =~= target);
            assert(target =~= synced_fields(start, node_id@, state@));
            assert(self@ =~= whole.insert(node_id@, target));
        }
    }

    /// Merge remote state for `remote_node`, resolving each field as `resolve` says.
    pub fn merge_remote_state(&mut self, remote_node: &String, remote_state: &StrMap<MeshEntry>)
        requires
            old(self).wf(),
            inner_wf(*remote_state),
        ensures
            final(self).wf(),
            final(self)@ == old(self)@.insert(
                remote_node@,
                Map::new(
                    |f: Seq<char>|
                        node_fields(old(self)@, remote_node@).contains_key(f)
                            || inner_view(*remote_state).contains_key(f),
                    |f: Seq<char>|
                        if inner_view(*remote_state).contains_key(f) {
                            resolve(
                                node_fields(old(self)@, remote_node@).get(f),
                                inner_view(*remote_state)[f],
                            )
                        } else {
                            node_fields(old(self)@, remote_node@)[f]
                        },
                ),
            ),
    {
        let ghost start = node_fields(self@, remote_node@);
        let ghost whole = self@;
        let ghost rv = inner_view(*remote_state);
        let mut inner = self.take_node(remote_node);
        let n = remote_state.len();
        let mut i: usize = 0;
        while i < n
            invariant
                inner_wf(*remote_state),
                rv == inner_view(*remote_state),
                n == remote_state.pairs().len(),
                i <= n,
                inner_wf(inner),
                forall|f: Seq<char>|
                    #![trigger inner_view(inner).contains_key(f)]
                    inner_view(inner).contains_key(f) <==> (start.contains_key(f) || exists|j: int|
                        0 <= j < i && remote_state.pairs()[j].0@ == f),
                forall|f: Seq<char>|
                    #![trigger inner_view(inner)[f]]
                    inner_view(inner).contains_key(f) ==> inner_view(inner)[f] == if (exists|j: int|
                        0 <= j < i && remote_state.pairs()[j].0@ == f) {
                        resolve(start.get(f), rv[f])
                    } else {
                        start[f]
                    },
            decreases n - i,
        {
            let field = remote_state.key_at(i);
            let remote_entry = remote_state.value_at(i);
            proof {
                lemma_pair_in_map(remote_state.pairs(), i as int);
                if exists|j: int| 0 <= j < i && remote_state.pairs()[j].0@ == field@ {
                    let j = choose|j: int| 0 <= j < i && remote_state.pairs()[j].0@ == field@;
                    assert(false);
                }
                assert(inner_view(inner).get(field@) == start.get(field@));
                assert(remote_entry.version.wf());
                assert(rv[field@] == remote_entry@);
            }
            let ghost before = inner_view(inner);
            let chosen: Option<MeshEntry> = match inner.get(field) {
                Some(local_entry) => {
                    if remote_entry.version.dominates(&local_entry.version) {
                        Some(remote_entry.clone())
                    } else if !local_entry.version.dominates(&remote_entry.version) {
                        let mut merged = remote_entry.clone();
                        merged.version.merge(&local_entry.version);
                        Some(merged)
                    } else {
                        None
                    }
                },
                None => Some(remote_entry.clone()),
            };
            match chosen {
                Some(e) => {
                    assert(e@ == resolve(start.get(field@), rv[field@]));
                    inner.insert(field.clone(), e);
                },
                None => {
                    assert(before[field@] == resolve(start.get(field@), rv[field@]));
                },
            }
            assert(inner_view(inner)[field@] == resolve(start.get(field@), rv[field@]));
            proof {
                assert forall|f: Seq<char>|
                    #![trigger inner_view(inner).contains_key(f)]
                    inner_view(inner).contains_key(f) <==> (start.contains_key(f) || exists|j: int|
                        0 <= j < i + 1 && remote_state.pairs()[j].0@ == f) by {
                    if f != field@ && (exists|j: int|
                        0 <= j < i + 1 && remote_state.pairs()[j].0@ == f) {
                        let j = choose|j: int| 0 <= j < i + 1 && remote_state.pairs()[j].0@ == f;
                        assert(0 <= j < i && remote_state.pairs()[j].0@ == f);
                    }
                    if f != field@ && before.contains_key(f) && !start.contains_key(f) {
                        let j = choose|j: int| 0 <= j < i && remote_state.pairs()[j].0@ == f;
                        assert(0 <= j < i + 1 && remote_state.pairs()[j].0@ == f);
                    }
                    if f == field@ {
                        assert(0 <= i < i + 1 && remote_state.pairs()[i as int].0@ == f);
                    }
                }
                assert forall|f: Seq<char>|
                    #![trigger inner_view(inner)[f]]
                    inner_view(inner).contains_key(f) implies inner_view(inner)[f] == if (exists|
                        j: int,
                    | 0 <= j < i + 1 && remote_state.pairs()[j].0@ == f) {
                        resolve(start.get(f), rv[f])
                    } else {
                        start[f]
                    } by {
                    if f == field@ {
                        assert(0 <= i < i + 1 && remote_state.pairs()[i as int].0@ == f);
                    } else {
                        assert(before.contains_key(f));
                        assert(before[f] == if (exists|j: int|
                            0 <= j < i && remote_state.pairs()[j].0@ == f) {
                            resolve(start.get(f), rv[f])
                        } else {
                            start[f]
                        });
                        if exists|j: int| 0 <= j < i + 1 && remote_state.pairs()[j].0@ == f {
                            let j = choose|j: int|
                                0 <= j < i + 1 && remote_state.pairs()[j].0@ == f;
                            assert(0 <= j < i && remote_state.pairs()[j].0@ == f);
                        }
                    }
                }
            }
            i += 1;
        }
        self.put_node(remote_node, inner);
        proof {
            let target = Map::new(
                |f: Seq<char>| start.contains_key(f) || rv.contains_key(f),
                |f: Seq<char>|
                    if rv.contains_key(f) {
                        resolve(start.get(f), rv[f])
                    } else {
                        start[f]
                    },
            );
            assert forall|f: Seq<char>|
                (exists|j: int| 0 <= j < n && remote_state.pairs()[j].0@ == f)
                    <==> #[trigger] rv.contains_key(f) by {
                lemma_key_index(remote_state.pairs(), f);
                if exists|j: int| 0 <= j < n && remote_state.pairs()[j].0@ == f {
                    let j = choose|j: int| 0 <= j < n && remote_state.pairs()[j].0@ == f;
                    lemma_pair_in_map(remote_state.pairs(), j);
                }
                if rv.contains_key(f) {
                    let j = key_index(remote_state.pairs(), f);
                    assert(0 <= j < n && remote_state.pairs()[j].0@ == f);
                }
            }
            assert(inner_view(inner) =~= target);
            assert(self@ =~= whole.insert(remote_node@, target));
        }
    }

    /// Get a specific field value for a node.
    pub fn get_field(&self, node_id: &String, field: &String) -> (r: Option<Vec<u8>>)
        requires
            self.wf(),
        ensures
            match r {
                Some(v) => self@.contains_key(node_id@) && self@[node_id@].contains_key(field@)
                    && v@ == self@[node_id@][field@].value,
                None => !(self@.contains_key(node_id@) && self@[node_id@].contains_key(field@)),
            },
    {
        match self.mesh.get(node_id) {
            Some(node_state) => match node_state.get(field) {
                Some(entry) => Some(entry.value.clone()),
                None => None,
            },
            None => None,
        }
    }

    /// Export a snapshot of the mesh state for a given node (for gossip sync).
    pub fn snapshot_node(&self, node_id: &String) -> (r: Option<StrMap<MeshEntry>>)
        requires
            self.wf(),
        ensures
            match r {
                Some(m) => self@.contains_key(node_id@) && inner_wf(m) && inner_view(m)
                    == self@[node_id@],
                None => !self@.contains_key(node_id@),
            },
    {
        match self.mesh.get(node_id) {
            Some(node_state) => Some(Self::copy_fields(node_state)),
            None => None,
        }
    }

    fn copy_fields(m: &StrMap<MeshEntry>) -> (r: StrMap<MeshEntry>)
        requires
            inner_wf(*m),
        ensures
            inner_wf(r),
            inner_view(r) == inner_view(*m),
    {
        let mut out: StrMap<MeshEntry> = StrMap::new();
        let n = m.len();
        let mut i: usize = 0;
        while i < n
            invariant
                inner_wf(*m),
                n == m.pairs().len(),
                i <= n,
                inner_wf(out),
                forall|f: Seq<char>|
                    #![trigger out@.contains_key(f)]
                    out@.contains_key(f) <==> exists|j: int| 0 <= j < i && m.pairs()[j].0@ == f,
                forall|f: Seq<char>| #[trigger] out@.contains_key(f) ==> out@[f]@ == m@[f]@,
            decreases n - i,
        {
            proof {
                lemma_pair_in_map(m.pairs(), i as int);
            }
            let e = m.value_at(i).clone();
            let ghost k = m.pairs()[i as int].0@;
            out.insert(m.key_at(i).clone(), e);
            proof {
                assert forall|f: Seq<char>|
                    #![trigger out@.contains_key(f)]
                    out@.contains_key(f) <==> exists|j: int| 0 <= j < i + 1 && m.pairs()[j].0@ == f by {
                    if f != k && exists|j: int| 0 <= j < i + 1 && m.pairs()[j].0@ == f {
                        let j = choose|j: int| 0 <= j < i + 1 && m.pairs()[j].0@ == f;
                        assert(0 <= j < i && m.pairs()[j].0@ == f);
                    }
                    if f == k {
                        assert(0 <= i < i + 1 && m.pairs()[i as int].0@ == f);
                    }
                }
            }
            i += 1;
        }
        proof {
            assert forall|f: Seq<char>| #[trigger] m@.contains_key(f) implies out@.contains_key(f) by {
                lemma_key_index(m.pairs(), f);
                let j = key_index(m.pairs(), f);
                assert(0 <= j < n && m.pairs()[j].0@ == f);
            }
            assert forall|f: Seq<char>| #[trigger] out@.contains_key(f) implies m@.contains_key(f) by {
                let j = choose|j: int| 0 <= j < n && m.pairs()[j].0@ == f;
                lemma_pair_in_map(m.pairs(), j);
            }
            assert(inner_view(out) =~= inner_view(*m));
        }
        out
    }

    /// Get the total number of nodes in the mesh.
    pub fn node_count(&self) -> (n: usize)
        requires
            self.wf(),
        ensures
            n == self@.dom().len(),
    {
        assert(self@.dom() =~= self.mesh@.dom());
        self.mesh.len()
    }

    /// Get all node ids tracked in the mesh, each once.
    pub fn node_ids(&self) -> (ids: Vec<String>)
        requires
            self.wf(),
        ensures
            ids@.len() == self@.dom().len(),
            forall|i: int| 0 <= i < ids@.len() ==> self@.contains_key(#[trigger] ids@[i]@),
            forall|n: Seq<char>| #[trigger] self@.contains_key(n) ==> exists|i: int|
                0 <= i < ids@.len() && ids@[i]@ == n,
            forall|i: int, j: int| 0 <= i < j < ids@.len() ==> ids@[i]@ != ids@[j]@,
    {
        assert(self@.dom() =~= self.mesh@.dom());
        let n = self.mesh.len();
        let mut ids: Vec<String> = Vec::new();
        let mut i: usize = 0;
        while i < n
            invariant
                self.wf(),
                n == self.mesh.pairs().len(),
                i <= n,
                ids@.len() == i,
                forall|j: int| 0 <= j < i ==> #[trigger] ids@[j]@ == self.mesh.pairs()[j].0@,
            decreases n - i,
        {
            ids.push(self.mesh.key_at(i).clone());
            i += 1;
        }
        proof {
            assert forall|i: int| 0 <= i < ids@.len() implies self@.contains_key(#[trigger] ids@[i]@) by {
                lemma_pair_in_map(self.mesh.pairs(), i);
            }
            assert forall|k: Seq<char>| #[trigger] self@.contains_key(k) implies exists|i: int|
                0 <= i < ids@.len() && ids@[i]@ == k by {
                lemma_key_index(self.mesh.pairs(), k);
                let j = key_index(self.mesh.pairs(), k);
                assert(ids@[j]@ == k);
            }
        }
        ids
    }

    /// Get all values for a field across the nodes that have it (each node once).
    pub fn get_all_field_values(&self, field: &String) -> (r: Vec<(String, Vec<u8>)>)
        requires
            self.wf(),
        ensures
            forall|i: int|
                0 <= i < r@.len() ==> self@.contains_key(#[trigger] r@[i].0@) && self@[r@[i].0@].contains_key(
                    field@,
                ) && r@[i].1@ == self@[r@[i].0@][field@].value,
            forall|n: Seq<char>|
                #[trigger] self@.contains_key(n) && self@[n].contains_key(field@) ==> exists|i: int|
                    0 <= i < r@.len() && r@[i].0@ == n,
            forall|i: int, j: int| 0 <= i < j < r@.len() ==> r@[i].0@ != r@[j].0@,
    {
        let n = self.mesh.len();
        let mut out: Vec<(String, Vec<u8>)> = Vec::new();
        let mut i: usize = 0;
        while i < n
            invariant
                self.wf(),
                n == self.mesh.pairs().len(),
                i <= n,
                forall|k: int|
                    0 <= k < out@.len() ==> exists|j: int|
                        0 <= j < i && #[trigger] out@[k].0@ == self.mesh.pairs()[j].0@,
                forall|k: int|
                    0 <= k < out@.len() ==> self@.contains_key(#[trigger] out@[k].0@) && self@[out@[k].0@].contains_key(
                        field@,
                    ) && out@[k].1@ == self@[out@[k].0@][field@].value,
                forall|j: int|
                    0 <= j < i && #[trigger] self@[self.mesh.pairs()[j].0@].contains_key(field@)
                        ==> exists|k: int| 0 <= k < out@.len() && out@[k].0@ == self.mesh.pairs()[j].0@,
                forall|a: int, b: int| 0 <= a < b < out@.len() ==> out@[a].0@ != out@[b].0@,
            decreases n - i,
        {
            proof {
                lemma_pair_in_map(self.mesh.pairs(), i as int);
            }
            let node_state = self.mesh.value_at(i);
            let ghost key = self.mesh.pairs()[i as int].0@;
            assert(self.mesh@.contains_key(key) && self.mesh@[key] == *node_state);
            assert(inner_wf(*node_state));
            assert(self@[key] == inner_view(*node_state));
            match node_state.get(field.as_str()) {
                Some(entry) => {
                    let ghost before = out@;
                    out.push((self.mesh.key_at(i).clone(), entry.value.clone()));
                    proof {
                        assert(inner_view(*node_state).contains_key(field@));
                        assert(entry@ == inner_view(*node_state)[field@]);
                        assert forall|k: int|
                            0 <= k < out@.len() implies self@.contains_key(#[trigger] out@[k].0@)
                                && self@[out@[k].0@].contains_key(field@) && out@[k].1@
                                == self@[out@[k].0@][field@].value by {
                            if k < before.len() {
                                assert(out@[k] == before[k]);
                            } else {
                                assert(out@[k].0@ == key);
                            }
                        }
                        assert forall|a: int, b: int| 0 <= a < b < out@.len() implies out@[a].0@
                            != out@[b].0@ by {
                            if b == out@.len() - 1 {
                                let j = choose|j: int|
                                    0 <= j < i && #[trigger] before[a].0@ == self.mesh.pairs()[j].0@;
                                assert(self.mesh.pairs()[j].0@ != self.mesh.pairs()[i as int].0@);
                            }
                        }
                        assert forall|k: int|
                            0 <= k < out@.len() implies exists|j: int|
                                0 <= j < i + 1 && #[trigger] out@[k].0@ == self.mesh.pairs()[j].0@ by {
                            if k < before.len() {
                                let j = choose|j: int|
                                    0 <= j < i && #[trigger] before[k].0@ == self.mesh.pairs()[j].0@;
                                assert(out@[k] == before[k]);
                            } else {
                                assert(out@[k].0@ == self.mesh.pairs()[i as int].0@);
                            }
                        }
                        assert forall|j: int|
                            0 <= j < i + 1 && #[trigger] self@[self.mesh.pairs()[j].0@].contains_key(field@)
                                implies exists|k: int|
                                0 <= k < out@.len() && out@[k].0@ == self.mesh.pairs()[j].0@ by {
                            if j == i {
                                assert(out@[before.len() as int].0@ == self.mesh.pairs()[j].0@);
                            } else {
                                let k = choose|k: int|
                                    0 <= k < before.len() && before[k].0@ == self.mesh.pairs()[j].0@;
                                assert(out@[k] == before[k]);
                            }
                        }
                    }
                },
                None => {
                    proof {
                        assert forall|k: int|
                            0 <= k < out@.len() implies exists|j: int|
                                0 <= j < i + 1 && #[trigger] out@[k].0@ == self.mesh.pairs()[j].0@ by {
                            let j = choose|j: int|
                                0 <= j < i && #[trigger] out@[k].0@ == self.mesh.pairs()[j].0@;
                        }
                    }
                },
            }
            i += 1;
        }
        proof {
            assert forall|m: Seq<char>|
                #[trigger] self@.contains_key(m) && self@[m].contains_key(field@) implies exists|k: int|
                    0 <= k < out@.len() && out@[k].0@ == m by {
                lemma_key_index(self.mesh.pairs(), m);
                let j = key_index(self.mesh.pairs(), m);
                assert(self@[self.mesh.pairs()[j].0@].contains_key(field@));
            }
        }
        out
    }

    /// The values of a node's fields, without their versions.
    pub fn values_of(m: &StrMap<MeshEntry>) -> (r: StrMap<Vec<u8>>)
        requires
            inner_wf(*m),
        ensures
            r.wf(),
            raw_view(r) == values_view(inner_view(*m)),
    {
        let mut out: StrMap<Vec<u8>> = StrMap::new();
        let n = m.len();
        let mut i: usize = 0;
        while i < n
            invariant
                inner_wf(*m),
                n == m.pairs().len(),
                i <= n,
                out.wf(),
                forall|f: Seq<char>|
                    #![trigger out@.contains_key(f)]
                    out@.contains_key(f) <==> exists|j: int| 0 <= j < i && m.pairs()[j].0@ == f,
                forall|f: Seq<char>| #[trigger] out@.contains_key(f) ==> out@[f]@ == m@[f].value@,
            decreases n - i,
        {
            proof {
                lemma_pair_in_map(m.pairs(), i as int);
            }
            let v = m.value_at(i).value.clone();
            let ghost k = m.pairs()[i as int].0@;
            out.insert(m.key_at(i).clone(), v);
            proof {
                assert forall|f: Seq<char>|
                    #![trigger out@.contains_key(f)]
                    out@.contains_key(f) <==> exists|j: int| 0 <= j < i + 1 && m.pairs()[j].0@ == f by {
                    if f != k && exists|j: int| 0 <= j < i + 1 && m.pairs()[j].0@ == f {
                        let j = choose|j: int| 0 <= j < i + 1 && m.pairs()[j].0@ == f;
                        assert(0 <= j < i && m.pairs()[j].0@ == f);
                    }
                    if f == k {
                        assert(0 <= i < i + 1 && m.pairs()[i as int].0@ == f);
                    }
                }
            }
            i += 1;
        }
        proof {
            assert forall|f: Seq<char>| #[trigger] m@.contains_key(f) implies out@.contains_key(f) by {
                lemma_key_index(m.pairs(), f);
                let j = key_index(m.pairs(), f);
                assert(0 <= j < n && m.pairs()[j].0@ == f);
            }
            assert forall|f: Seq<char>| #[trigger] out@.contains_key(f) implies m@.contains_key(f) by {
                let j = choose|j: int| 0 <= j < n && m.pairs()[j].0@ == f;
                lemma_pair_in_map(m.pairs(), j);
            }
            assert(raw_view(out) =~= values_view(inner_view(*m)));
        }
        out
    }

    /// Export the full mesh as node to field to raw bytes.
    pub fn snapshot_raw(&self) -> (r: StrMap<StrMap<Vec<u8>>>)
        requires
            self.wf(),
        ensures
            r.wf(),
            r@.dom() == self@.dom(),
            forall|n: Seq<char>|
                #[trigger] r@.contains_key(n) ==> r@[n].wf() && raw_view(r@[n]) == values_view(
                    self@[n],
                ),
    {
        let mut out: StrMap<StrMap<Vec<u8>>> = StrMap::new();
        let n = self.mesh.len();
        let mut i: usize = 0;
        while i < n
            invariant
                self.wf(),
                n == self.mesh.pairs().len(),
                i <= n,
                out.wf(),
                forall|k: Seq<char>|
                    #![trigger out@.contains_key(k)]
                    out@.contains_key(k) <==> exists|j: int|
                        0 <= j < i && self.mesh.pairs()[j].0@ == k,
                forall|k: Seq<char>|
                    #[trigger] out@.contains_key(k) ==> out@[k].wf() && raw_view(out@[k])
                        == values_view(self@[k]),
            decreases n - i,
        {
            proof {
                lemma_pair_in_map(self.mesh.pairs(), i as int);
            }
            let ghost k = self.mesh.pairs()[i as int].0@;
            assert(inner_wf(self.mesh@[k]));
            let vals = Self::values_of(self.mesh.value_at(i));
            out.insert(self.mesh.key_at(i).clone(), vals);
            proof {
                assert forall|f: Seq<char>|
                    #![trigger out@.contains_key(f)]
                    out@.contains_key(f) <==> exists|j: int|
                        0 <= j < i + 1 && self.mesh.pairs()[j].0@ == f by {
                    if f != k && exists|j: int| 0 <= j < i + 1 && self.mesh.pairs()[j].0@ == f {
                        let j = choose|j: int| 0 <= j < i + 1 && self.mesh.pairs()[j].0@ == f;
                        assert(0 <= j < i && self.mesh.pairs()[j].0@ == f);
                    }
                    if f == k {
                        assert(0 <= i < i + 1 && self.mesh.pairs()[i as int].0@ == f);
                    }
                }
            }
            i += 1;
        }
        proof {
            assert forall|f: Seq<char>| #[trigger] self@.contains_key(f) implies out@.contains_key(f) by {
                lemma_key_index(self.mesh.pairs(), f);
                let j = key_index(self.mesh.pairs(), f);
                assert(0 <= j < n && self.mesh.pairs()[j].0@ == f);
            }
            assert forall|f: Seq<char>| #[trigger] out@.contains_key(f) implies self@.contains_key(f) by {
                let j = choose|j: int| 0 <= j < n && self.mesh.pairs()[j].0@ == f;
                lemma_pair_in_map(self.mesh.pairs(), j);
            }
            assert(out@.dom() =~= self@.dom());
        }
        out
    }
}


/// A remote entry whose version the local entry's version dominates is
/// stale: the local entry stays exactly as it is.
pub proof fn law_resolve_keeps_newer_local(l: MeshEntryView, r: MeshEntryView)
    requires
        vv_dominates(l.version, r.version),
    ensures
        resolve(Some(l), r) == l,
{
    law_dominates_asymmetric(l.version, r.version);
}

/// Unless the local version dominates it, the remote entry's value and
/// writer are taken; a field only the remote side has is taken whole.
pub proof fn law_resolve_takes_undominated_remote(local: Option<MeshEntryView>, r: MeshEntryView)
    requires
        local matches Some(l) ==> !vv_dominates(l.version, r.version),
    ensures
        resolve(local, r).value == r.value,
        resolve(local, r).last_writer == r.last_writer,
        local is None ==> resolve(local, r) == r,
{
}

/// The resolved value is that of the side whose version is not dominated by
/// the other's; when the remote version dominates, the remote entry wins whole.
pub proof fn law_resolve_value(l: MeshEntryView, r: MeshEntryView)
    ensures
        resolve(Some(l), r).value == if vv_dominates(l.version, r.version) {
            l.value
        } else {
            r.value
        },
        vv_dominates(r.version, l.version) ==> resolve(Some(l), r) == r,
{
    law_dominates_asymmetric(l.version, r.version);
}

} // verus!
