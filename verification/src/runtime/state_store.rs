use vstd::prelude::*;
use crate::assoc::StrMap;
use crate::runtime::value::Value;

verus! {

/// What infrastructure adapters remember between runs: for each instance,
/// its metadata. Reading and writing the state file is the caller's part.
pub struct StateStore {
    pub mappings: StrMap<StrMap<Value>>,
}

impl StateStore {
    pub open spec fn wf(&self) -> bool {
        &&& self.mappings.wf()
        &&& forall|k: Seq<char>| #[trigger] self.mappings@.contains_key(k) ==> self.mappings@[k].wf()
    }

    /// An empty store.
    pub fn new() -> (s: Self)
        ensures
            s.wf(),
            s.mappings@ == Map::<Seq<char>, StrMap<Value>>::empty(),
    {
        StateStore { mappings: StrMap::new() }
    }

    /// The metadata of an instance, if any.
    pub fn get_metadata(&self, instance: &str) -> (r: Option<&StrMap<Value>>)
        requires
            self.wf(),
        ensures
            match r {
                Some(m) => self.mappings@.contains_key(instance@) && *m == self.mappings@[instance@],
                None => !self.mappings@.contains_key(instance@),
            },
    {
        self.mappings.get(instance)
    }

    /// Sets the metadata of an instance.
    pub fn set_metadata(&mut self, instance: &str, metadata: StrMap<Value>)
        requires
            old(self).wf(),
            metadata.wf(),
        ensures
            final(self).wf(),
            final(self).mappings@ == old(self).mappings@.insert(instance@, metadata),
    {
        self.mappings.insert(String::from_str(instance), metadata);
    }

    /// Forgets the metadata of an instance.
    pub fn remove_metadata(&mut self, instance: &str)
        requires
            old(self).wf(),
        ensures
            final(self).wf(),
            final(self).mappings@ == old(self).mappings@.remove(instance@),
    {
        self.mappings.remove(instance);
    }
}

} // verus!
