use vstd::prelude::*;
use crate::assoc::StrMap;
use crate::runtime::value::{Value, ValueView};
use crate::text::str_eq;

verus! {

/// Reachability of hosts: each instance has a host to ping. Running the
/// pings is the caller's part; this keeps the targets and turns results into
/// updates.
pub struct PingAdapter {
    pub entity_name: String,
    pub targets: StrMap<String>,
}

/// The updates a ping result gives: `up` and `status` of the instance.
pub open spec fn ping_updates(instance: Seq<char>, reachable: bool) -> Seq<(Seq<char>, Seq<char>, ValueView)> {
    seq![
        (instance, "up"@, ValueView::Bool(reachable)),
        (instance, "status"@, ValueView::Text(if reachable { "online"@ } else { "offline"@ })),
    ]
}

pub open spec fn update_view(u: (String, String, Value)) -> (Seq<char>, Seq<char>, ValueView) {
    (u.0@, u.1@, u.2@)
}

impl PingAdapter {
    /// An adapter for `entity_name` with no targets.
    pub fn new(entity_name: &str) -> (a: Self)
        ensures
            a.entity_name@ == entity_name@,
            a.targets.wf(),
            a.targets@ == Map::<Seq<char>, String>::empty(),
    {
        PingAdapter { entity_name: String::from_str(entity_name), targets: StrMap::new() }
    }

    /// The entity this adapter serves.
    pub fn entity_name(&self) -> (s: &str)
        ensures
            s@ == self.entity_name@,
    {
        self.entity_name.as_str()
    }

    /// Pings `target` for `instance` from now on.
    pub fn add_target(&mut self, instance: &str, target: &str)
        requires
            old(self).targets.wf(),
        ensures
            final(self).targets.wf(),
            final(self).entity_name == old(self).entity_name,
            final(self).targets@.contains_key(instance@),
            final(self).targets@[instance@]@ == target@,
            final(self).targets@.remove(instance@) == old(self).targets@.remove(instance@),
    {
        let ghost before = self.targets@;
        self.targets.insert(String::from_str(instance), String::from_str(target));
        assert(self.targets@.remove(instance@) =~= before.remove(instance@));
    }

    /// A write of a Text to `target` sets the host to ping; other writes are ignored.
    pub fn on_write(&mut self, instance: &str, field: &str, value: &Value)
        requires
            old(self).targets.wf(),
        ensures
            final(self).targets.wf(),
            final(self).entity_name == old(self).entity_name,
            (field@ == "target"@ && value@ is Text) ==> {
                &&& final(self).targets@.contains_key(instance@)
                &&& ValueView::Text(final(self).targets@[instance@]@) == value@
                &&& final(self).targets@.remove(instance@) == old(self).targets@.remove(instance@)
            },
            !(field@ == "target"@ && value@ is Text) ==> *final(self) == *old(self),
    {
        if str_eq(field, "target") {
            match value.as_text() {
                Some(t) => self.add_target(instance, t),
                None => {},
            }
        }
    }

    /// The updates for ping results given in the order of the targets:
    /// `up` and `status` for each.
    pub fn poll_updates(&self, reachable: &Vec<bool>) -> (r: Vec<(String, String, Value)>)
        requires
            self.targets.wf(),
            reachable@.len() == self.targets.pairs().len(),
        ensures
            r@.len() == 2 * reachable@.len(),
            forall|i: int|
                0 <= i < reachable@.len() ==> seq![update_view(#[trigger] r@[2 * i]), update_view(r@[2 * i + 1])]
                    == ping_updates(self.targets.pairs()[i].0@, reachable@[i]),
    {
        let mut out: Vec<(String, String, Value)> = Vec::new();
        let n = reachable.len();
        let mut i: usize = 0;
        while i < n
            invariant
                n == reachable@.len(),
                n == self.targets.pairs().len(),
                i <= n,
                out@.len() == 2 * i,
                forall|j: int|
                    0 <= j < i ==> seq![update_view(#[trigger] out@[2 * j]), update_view(out@[2 * j + 1])]
                        == ping_updates(self.targets.pairs()[j].0@, reachable@[j]),
            decreases n - i,
        {
            let inst = self.targets.key_at(i);
            let up = reachable[i];
            out.push((inst.clone(), String::from_str("up"), Value::Bool(up)));
            let status = if up {
                String::from_str("online")
            } else {
                String::from_str("offline")
            };
            out.push((inst.clone(), String::from_str("status"), Value::Text(status)));
            proof {
                assert(seq![update_view(out@[2 * i as int]), update_view(out@[2 * i + 1])]
                    =~= ping_updates(self.targets.pairs()[i as int].0@, reachable@[i as int]));
            }
            i += 1;
        }
        out
    }
}

/// Values served from a queue, for testing: each poll hands out everything
/// pushed since the last one.
pub struct StaticAdapter {
    pub entity: String,
    pub queue: Vec<(String, String, Value)>,
}

impl StaticAdapter {
    pub fn new(entity: &str) -> (a: Self)
        ensures
            a.entity@ == entity@,
            a.queue@.len() == 0,
    {
        StaticAdapter { entity: String::from_str(entity), queue: Vec::new() }
    }

    /// The entity this adapter serves.
    pub fn entity_name(&self) -> (s: &str)
        ensures
            s@ == self.entity@,
    {
        self.entity.as_str()
    }

    /// Queues a value for the next poll.
    pub fn push(&mut self, instance: &str, field: &str, value: Value)
        ensures
            final(self).entity == old(self).entity,
            final(self).queue@.len() == old(self).queue@.len() + 1,
            final(self).queue@.drop_last() == old(self).queue@,
            update_view(final(self).queue@.last()) == (instance@, field@, value@),
    {
        self.queue.push((String::from_str(instance), String::from_str(field), value));
        assert(self.queue@.drop_last() =~= old(self).queue@);
    }

    /// Everything queued, in order; the queue is left empty.
    pub fn poll(&mut self) -> (r: Vec<(String, String, Value)>)
        ensures
            r@ == old(self).queue@,
            final(self).queue@.len() == 0,
            final(self).entity == old(self).entity,
    {
        let mut out: Vec<(String, String, Value)> = Vec::new();
        std::mem::swap(&mut out, &mut self.queue);
        out
    }
}

} // verus!
