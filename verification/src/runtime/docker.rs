use vstd::prelude::*;
use crate::assoc::StrMap;
use crate::cli::{trim_str, trimmed};
use crate::runtime::adapters::update_view;
use crate::runtime::value::{Value, ValueView};
use crate::text::{split_on, split_pieces, str_eq, views};

verus! {

/// What the container runtime reports of one container: its first name and
/// its state, where it has them.
pub struct ContainerSummary {
    pub first_name: Option<String>,
    pub state: Option<String>,
}

/// A command to send to the container runtime.
#[derive(Debug, Clone, Copy, PartialEq, Eq, Structural)]
pub enum ContainerCommand {
    Start,
    Stop,
}

/// What provisioning a container instance asks for: stop it, or make sure it
/// exists and runs from `image` with the environment `env`.
pub enum DockerPlan {
    Stop,
    Ensure { image: String, env: Vec<String> },
}

/// The container side of an infrastructure entity: the state last seen or
/// set for each container. Talking to the runtime is the caller's part.
pub struct DockerAdapter {
    pub entity_name: String,
    pub known_states: StrMap<String>,
}

/// `s` without its leading slashes.
pub open spec fn strip_slashes(s: Seq<char>) -> Seq<char>
    decreases s.len(),
{
    if s.len() > 0 && s[0] == '/' {
        strip_slashes(s.drop_first())
    } else {
        s
    }
}

/// The status a container state stands for.
pub open spec fn container_status(state: Seq<char>) -> Seq<char> {
    if state == "running"@ {
        "running"@
    } else if state == "exited"@ || state == "dead"@ {
        "stopped"@
    } else if state == "created"@ || state == "restarting"@ {
        "starting"@
    } else {
        "down"@
    }
}

pub open spec fn summary_name(c: ContainerSummary) -> Seq<char> {
    match c.first_name {
        Some(n) => strip_slashes(n@),
        None => Seq::empty(),
    }
}

pub open spec fn summary_status(c: ContainerSummary) -> Seq<char> {
    match c.state {
        Some(s) => container_status(s@),
        None => container_status(Seq::empty()),
    }
}

/// For each named container, in order: its status and that it was seen.
pub open spec fn docker_updates(cs: Seq<ContainerSummary>) -> Seq<(Seq<char>, Seq<char>, ValueView)>
    decreases cs.len(),
{
    if cs.len() == 0 {
        Seq::empty()
    } else {
        let rest = docker_updates(cs.drop_last());
        let c = cs.last();
        if summary_name(c).len() > 0 {
            rest.push((summary_name(c), "status"@, ValueView::Text(summary_status(c)))).push(
                (summary_name(c), "verified"@, ValueView::Bool(true)),
            )
        } else {
            rest
        }
    }
}

/// The known states after seeing the containers, in order.
pub open spec fn known_after(m: Map<Seq<char>, Seq<char>>, cs: Seq<ContainerSummary>) -> Map<
    Seq<char>,
    Seq<char>,
>
    decreases cs.len(),
{
    if cs.len() == 0 {
        m
    } else {
        let rest = known_after(m, cs.drop_last());
        let c = cs.last();
        if summary_name(c).len() > 0 {
            rest.insert(summary_name(c), summary_status(c))
        } else {
            rest
        }
    }
}

pub open spec fn known_view(m: Map<Seq<char>, String>) -> Map<Seq<char>, Seq<char>> {
    m.map_values(|s: String| s@)
}

/// A write of a new `status` of `running` or `stopped` starts or stops the
/// container; any other write asks for nothing.
pub open spec fn write_command(field: Seq<char>, value: ValueView, known: Option<Seq<char>>) -> Option<
    ContainerCommand,
> {
    if field == "status"@ {
        match value {
            ValueView::Text(s) => if Some(s) != known {
                if s == "running"@ {
                    Some(ContainerCommand::Start)
                } else if s == "stopped"@ {
                    Some(ContainerCommand::Stop)
                } else {
                    None
                }
            } else {
                None
            },
            _ => None,
        }
    } else {
        None
    }
}

/// The text a desired-state key holds, when it holds text.
pub open spec fn desired_text(d: Map<Seq<char>, Value>, key: Seq<char>) -> Option<Seq<char>> {
    if d.contains_key(key) {
        match d[key]@ {
            ValueView::Text(t) => Some(t),
            _ => None,
        }
    } else {
        None
    }
}

pub open spec fn text_or(o: Option<Seq<char>>, default: Seq<char>) -> Seq<char> {
    match o {
        Some(t) => t,
        None => default,
    }
}

/// The environment of a container: the comma-separated entries of
/// `env_vars`, trimmed, unless it is empty or `NONE`.
pub open spec fn env_entries(d: Map<Seq<char>, Value>) -> Seq<Seq<char>> {
    match desired_text(d, "env_vars"@) {
        Some(e) => if e != "NONE"@ && e.len() > 0 {
            split_on(e, ',').map_values(|p: Seq<char>| trimmed(p))
        } else {
            Seq::empty()
        },
        None => Seq::empty(),
    }
}

/// Writing a status that is already known asks nothing of the runtime: the
/// remembered states keep repeated writes from reaching it.
pub proof fn law_known_status_is_quiet(status: Seq<char>)
    ensures
        write_command("status"@, ValueView::Text(status), Some(status)) is None,
{
}

/// The state a command leaves a container in.
pub open spec fn commanded_state(c: ContainerCommand) -> Seq<char> {
    match c {
        ContainerCommand::Start => "running"@,
        ContainerCommand::Stop => "stopped"@,
    }
}

/// A write that sent a command leaves the written status as the known one,
/// so the same write again asks nothing.
pub proof fn law_command_then_quiet(field: Seq<char>, status: Seq<char>, known: Option<Seq<char>>)
    requires
        write_command(field, ValueView::Text(status), known) is Some,
    ensures
        commanded_state(write_command(field, ValueView::Text(status), known).unwrap()) == status,
        write_command(
            field,
            ValueView::Text(status),
            Some(commanded_state(write_command(field, ValueView::Text(status), known).unwrap())),
        ) is None,
{
}

fn strip_leading_slashes(s: &str) -> (r: String)
    ensures
        r@ == strip_slashes(s@),
{
    let n = s.unicode_len();
    let mut k: usize = 0;
    assert(s@.skip(0) =~= s@);
    while k < n && s.get_char(k) == '/'
        invariant
            n == s@.len(),
            k <= n,
            strip_slashes(s@) == strip_slashes(s@.skip(k as int)),
        decreases n - k,
    {
        assert(s@.skip(k as int)[0] == s@[k as int]);
        assert(s@.skip(k as int).drop_first() =~= s@.skip(k + 1));
        k += 1;
    }
    assert(s@.skip(k as int) =~= s@.subrange(k as int, n as int));
    String::from_str(s.substring_char(k, n))
}

fn status_of(state: &str) -> (r: &'static str)
    ensures
        r@ == container_status(state@),
{
    if str_eq(state, "running") {
        "running"
    } else if str_eq(state, "exited") || str_eq(state, "dead") {
        "stopped"
    } else if str_eq(state, "created") || str_eq(state, "restarting") {
        "starting"
    } else {
        "down"
    }
}

fn text_value<'a>(d: &'a StrMap<Value>, key: &str) -> (r: Option<&'a str>)
    requires
        d.wf(),
    ensures
        match r {
            Some(t) => desired_text(d@, key@) == Some(t@),
            None => desired_text(d@, key@) is None,
        },
{
    match d.get(key) {
        Some(v) => v.as_text(),
        None => None,
    }
}

fn env_of(d: &StrMap<Value>) -> (r: Vec<String>)
    requires
        d.wf(),
    ensures
        views(r@) == env_entries(d@),
{
    let mut out: Vec<String> = Vec::new();
    match text_value(d, "env_vars") {
        Some(e) => {
            if !str_eq(e, "NONE") && e.unicode_len() > 0 {
                let pieces = split_pieces(e, ',');
                let n = pieces.len();
                let mut i: usize = 0;
                while i < n
                    invariant
                        n == pieces@.len(),
                        views(pieces@) == split_on(e@, ','),
                        i <= n,
                        views(out@) == split_on(e@, ',').take(i as int).map_values(
                            |p: Seq<char>| trimmed(p),
                        ),
                    decreases n - i,
                {
                    let t = trim_str(pieces[i].as_str());
                    let ghost before = out@;
                    out.push(t);
                    assert(views(out@) =~= views(before).push(t@));
                    assert(split_on(e@, ',').take(i + 1) =~= split_on(e@, ',').take(i as int).push(
                        split_on(e@, ',')[i as int],
                    ));
                    assert(split_on(e@, ',').take(i + 1).map_values(|p: Seq<char>| trimmed(p))
                        =~= split_on(e@, ',').take(i as int).map_values(|p: Seq<char>| trimmed(p)).push(
                        trimmed(split_on(e@, ',')[i as int]),
                    ));
                    i += 1;
                }
                assert(split_on(e@, ',').take(n as int) =~= split_on(e@, ','));
            }
        },
        None => {},
    }
    out
}

impl DockerAdapter {
    /// An adapter for `entity_name` that has seen no container yet.
    pub fn new(entity_name: &str) -> (a: Self)
        ensures
            a.entity_name@ == entity_name@,
            a.known_states.wf(),
            a.known_states@ == Map::<Seq<char>, String>::empty(),
    {
        DockerAdapter { entity_name: String::from_str(entity_name), known_states: StrMap::new() }
    }

    /// The entity this adapter serves.
    pub fn entity_name(&self) -> (s: &str)
        ensures
            s@ == self.entity_name@,
    {
        self.entity_name.as_str()
    }

    /// The updates a listing of all containers gives; the states seen are
    /// remembered. Containers without a name are skipped.
    pub fn poll_updates(&mut self, containers: &Vec<ContainerSummary>) -> (r: Vec<(String, String, Value)>)
        requires
            old(self).known_states.wf(),
        ensures
            final(self).known_states.wf(),
            final(self).entity_name == old(self).entity_name,
            r@.map_values(|u: (String, String, Value)| update_view(u)) == docker_updates(containers@),
            known_view(final(self).known_states@) == known_after(
                known_view(old(self).known_states@),
                containers@,
            ),
    {
        let ghost start = known_view(self.known_states@);
        let mut out: Vec<(String, String, Value)> = Vec::new();
        let n = containers.len();
        let mut i: usize = 0;
        while i < n
            invariant
                n == containers@.len(),
                i <= n,
                self.known_states.wf(),
                self.entity_name == old(self).entity_name,
                out@.map_values(|u: (String, String, Value)| update_view(u)) == docker_updates(
                    containers@.take(i as int),
                ),
                known_view(self.known_states@) == known_after(start, containers@.take(i as int)),
            decreases n - i,
        {
            assert(containers@.take(i + 1).drop_last() =~= containers@.take(i as int));
            assert(containers@.take(i + 1).last() == containers@[i as int]);
            let c = &containers[i];
            let name = match &c.first_name {
                Some(f) => strip_leading_slashes(f.as_str()),
                None => String::new(),
            };
            if name.unicode_len() > 0 {
                let status = match &c.state {
                    Some(s) => status_of(s.as_str()),
                    None => {
                        proof {
                            reveal_strlit("");
                            assert(""@ =~= Seq::<char>::empty());
                        }
                        status_of("")
                    },
                };
                let ghost before = out@;
                let ghost kbefore = self.known_states@;
                self.known_states.insert(name.clone(), String::from_str(status));
                assert(known_view(self.known_states@) =~= known_view(kbefore).insert(name@, status@));
                out.push((name.clone(), String::from_str("status"), Value::Text(String::from_str(status))));
                out.push((name, String::from_str("verified"), Value::Bool(true)));
                assert(out@.map_values(|u: (String, String, Value)| update_view(u)) =~= before.map_values(
                    |u: (String, String, Value)| update_view(u),
                ).push(update_view(out@[out@.len() - 2])).push(update_view(out@.last())));
            }
            i += 1;
        }
        assert(containers@.take(n as int) =~= containers@);
        out
    }

    /// What a write to a container instance asks of the runtime; the state
    /// it asks for is remembered.
    pub fn on_write(&mut self, instance: &str, field: &str, value: &Value) -> (r: Option<ContainerCommand>)
        requires
            old(self).known_states.wf(),
        ensures
            final(self).known_states.wf(),
            final(self).entity_name == old(self).entity_name,
            r == write_command(
                field@,
                value@,
                if old(self).known_states@.contains_key(instance@) {
                    Some(old(self).known_states@[instance@]@)
                } else {
                    None
                },
            ),
            match r {
                Some(c) => known_view(final(self).known_states@) == known_view(
                    old(self).known_states@,
                ).insert(instance@, commanded_state(c)),
                None => final(self).known_states@ == old(self).known_states@,
            },
    {
        if !str_eq(field, "status") {
            return None;
        }
        let status = match value.as_text() {
            Some(s) => s,
            None => {
                return None;
            },
        };
        let same = match self.known_states.get(instance) {
            Some(k) => str_eq(k.as_str(), status),
            None => false,
        };
        if same {
            return None;
        }
        let ghost before = self.known_states@;
        if str_eq(status, "running") {
            self.known_states.insert(String::from_str(instance), String::from_str("running"));
            assert(known_view(self.known_states@) =~= known_view(before).insert(instance@, "running"@));
            Some(ContainerCommand::Start)
        } else if str_eq(status, "stopped") {
            self.known_states.insert(String::from_str(instance), String::from_str("stopped"));
            assert(known_view(self.known_states@) =~= known_view(before).insert(instance@, "stopped"@));
            Some(ContainerCommand::Stop)
        } else {
            None
        }
    }

    /// What provisioning an instance with the desired state asks for: a
    /// `status` of `stopped` stops it; otherwise it must run from `image`
    /// (`nginx:alpine` when none is given) with the `env_vars` entries.
    pub fn provision_plan(&self, desired: &StrMap<Value>) -> (r: DockerPlan)
        requires
            desired.wf(),
        ensures
            text_or(desired_text(desired@, "status"@), "running"@) == "stopped"@ ==> r is Stop,
            text_or(desired_text(desired@, "status"@), "running"@) != "stopped"@ ==> (r matches DockerPlan::Ensure {
                image,
                env,
            } && image@ == text_or(desired_text(desired@, "image"@), "nginx:alpine"@) && views(env@)
                == env_entries(desired@)),
    {
        let stop = match text_value(desired, "status") {
            Some(s) => str_eq(s, "stopped"),
            None => false,
        };
        proof {
            reveal_strlit("running");
            reveal_strlit("stopped");
            assert("running"@[0] != "stopped"@[0]);
        }
        if stop {
            return DockerPlan::Stop;
        }
        let image = match text_value(desired, "image") {
            Some(i) => String::from_str(i),
            None => String::from_str("nginx:alpine"),
        };
        DockerPlan::Ensure { image, env: env_of(desired) }
    }
}

} // verus!
