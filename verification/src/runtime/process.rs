use vstd::prelude::*;
use crate::assoc::StrMap;
use crate::runtime::adapters::update_view;
use crate::runtime::value::{Value, ValueView};
use crate::text::str_eq;

verus! {

/// What one look at the processes of a watched name found: whether any
/// runs, and their summed CPU percentage and memory in MB (IEEE-754 bits).
pub struct ProcessSample {
    pub found: bool,
    pub cpu_percent: u64,
    pub memory_mb: u64,
}

/// Machine-wide figures (IEEE-754 bits): CPU percentage, total and used memory in MB.
pub struct SystemSample {
    pub cpu_percent: u64,
    pub total_memory_mb: u64,
    pub used_memory_mb: u64,
}

/// Local processes watched by name, per instance. Reading the process
/// table is the caller's part.
pub struct ProcessAdapter {
    pub entity_name: String,
    pub watch_list: StrMap<String>,
}

/// The updates of one watched instance.
pub open spec fn sample_updates(instance: Seq<char>, s: ProcessSample) -> Seq<
    (Seq<char>, Seq<char>, ValueView),
> {
    if s.found {
        seq![
            (instance, "running"@, ValueView::Bool(true)),
            (instance, "cpu_percent"@, ValueView::Number(s.cpu_percent)),
            (instance, "memory_mb"@, ValueView::Number(s.memory_mb)),
            (instance, "status"@, ValueView::Text("active"@)),
        ]
    } else {
        seq![
            (instance, "running"@, ValueView::Bool(false)),
            (instance, "status"@, ValueView::Text("missing"@)),
        ]
    }
}

/// The updates of the first `n` watched instances, in order.
pub open spec fn watch_updates(
    watched: Seq<(String, String)>,
    samples: Seq<ProcessSample>,
    n: int,
) -> Seq<(Seq<char>, Seq<char>, ValueView)>
    decreases n,
{
    if n <= 0 {
        Seq::empty()
    } else {
        watch_updates(watched, samples, n - 1) + sample_updates(watched[n - 1].0@, samples[n - 1])
    }
}

/// The machine-wide updates, reported as the instance `local_system`.
pub open spec fn system_updates(s: SystemSample) -> Seq<(Seq<char>, Seq<char>, ValueView)> {
    seq![
        ("local_system"@, "total_cpu_percent"@, ValueView::Number(s.cpu_percent)),
        ("local_system"@, "total_memory_mb"@, ValueView::Number(s.total_memory_mb)),
        ("local_system"@, "used_memory_mb"@, ValueView::Number(s.used_memory_mb)),
    ]
}

pub open spec fn views_of(r: Seq<(String, String, Value)>) -> Seq<(Seq<char>, Seq<char>, ValueView)> {
    r.map_values(|u: (String, String, Value)| update_view(u))
}

fn push_update(out: &mut Vec<(String, String, Value)>, instance: &String, field: &str, value: Value)
    ensures
        views_of(final(out)@) == views_of(old(out)@).push((instance@, field@, value@)),
{
    out.push((instance.clone(), String::from_str(field), value));
    assert(views_of(final(out)@) =~= views_of(old(out)@).push((instance@, field@, value@)));
}

impl ProcessAdapter {
    /// An adapter for `entity_name` that watches nothing yet.
    pub fn new(entity_name: &str) -> (a: Self)
        ensures
            a.entity_name@ == entity_name@,
            a.watch_list.wf(),
            a.watch_list@ == Map::<Seq<char>, String>::empty(),
    {
        ProcessAdapter { entity_name: String::from_str(entity_name), watch_list: StrMap::new() }
    }

    /// The entity this adapter serves.
    pub fn entity_name(&self) -> (s: &str)
        ensures
            s@ == self.entity_name@,
    {
        self.entity_name.as_str()
    }

    /// Watches the processes named `process_name` for `instance` from now on.
    pub fn watch(&mut self, instance: &str, process_name: &str)
        requires
            old(self).watch_list.wf(),
        ensures
            final(self).watch_list.wf(),
            final(self).entity_name == old(self).entity_name,
            final(self).watch_list@.contains_key(instance@),
            final(self).watch_list@[instance@]@ == process_name@,
            final(self).watch_list@.remove(instance@) == old(self).watch_list@.remove(instance@),
    {
        let ghost before = self.watch_list@;
        self.watch_list.insert(String::from_str(instance), String::from_str(process_name));
        assert(self.watch_list@.remove(instance@) =~= before.remove(instance@));
    }

    /// A write of a Text to `proc_name` sets the process to watch; other writes are ignored.
    pub fn on_write(&mut self, instance: &str, field: &str, value: &Value)
        requires
            old(self).watch_list.wf(),
        ensures
            final(self).watch_list.wf(),
            final(self).entity_name == old(self).entity_name,
            (field@ == "proc_name"@ && value@ is Text) ==> {
                &&& final(self).watch_list@.contains_key(instance@)
                &&& ValueView::Text(final(self).watch_list@[instance@]@) == value@
                &&& final(self).watch_list@.remove(instance@) == old(self).watch_list@.remove(
                    instance@,
                )
            },
            !(field@ == "proc_name"@ && value@ is Text) ==> *final(self) == *old(self),
    {
        if str_eq(field, "proc_name") {
            match value.as_text() {
                Some(name) => self.watch(instance, name),
                None => {},
            }
        }
    }

    /// The updates for what was found of each watched name, given in the
    /// order of the watch list; the machine-wide figures follow when the
    /// instance `local_system` is watched.
    pub fn poll_updates(&self, samples: &Vec<ProcessSample>, system: &SystemSample) -> (r: Vec<
        (String, String, Value),
    >)
        requires
            self.watch_list.wf(),
            samples@.len() == self.watch_list.pairs().len(),
        ensures
            views_of(r@) == watch_updates(
                self.watch_list.pairs(),
                samples@,
                samples@.len() as int,
            ) + if self.watch_list@.contains_key("local_system"@) {
                system_updates(*system)
            } else {
                Seq::empty()
            },
    {
        let mut out: Vec<(String, String, Value)> = Vec::new();
        let n = samples.len();
        let mut i: usize = 0;
        while i < n
            invariant
                n == samples@.len(),
                n == self.watch_list.pairs().len(),
                i <= n,
                views_of(out@) == watch_updates(self.watch_list.pairs(), samples@, i as int),
            decreases n - i,
        {
            let ghost before = views_of(out@);
            let instance = self.watch_list.key_at(i);
            let s = &samples[i];
            push_update(&mut out, instance, "running", Value::Bool(s.found));
            if s.found {
                push_update(&mut out, instance, "cpu_percent", Value::Number(s.cpu_percent));
                push_update(&mut out, instance, "memory_mb", Value::Number(s.memory_mb));
                push_update(&mut out, instance, "status", Value::Text(String::from_str("active")));
            } else {
                push_update(&mut out, instance, "status", Value::Text(String::from_str("missing")));
            }
            assert(views_of(out@) =~= before + sample_updates(
                self.watch_list.pairs()[i as int].0@,
                samples@[i as int],
            ));
            i += 1;
        }
        let ghost body = views_of(out@);
        if self.watch_list.contains_key("local_system") {
            let local = String::from_str("local_system");
            push_update(&mut out, &local, "total_cpu_percent", Value::Number(system.cpu_percent));
            push_update(&mut out, &local, "total_memory_mb", Value::Number(system.total_memory_mb));
            push_update(&mut out, &local, "used_memory_mb", Value::Number(system.used_memory_mb));
            assert(views_of(out@) =~= body + system_updates(*system));
        } else {
            assert(views_of(out@) =~= body + Seq::<(Seq<char>, Seq<char>, ValueView)>::empty());
        }
        out
    }
}

} // verus!
