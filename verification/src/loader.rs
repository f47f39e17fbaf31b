use vstd::prelude::*;
use crate::assoc::StrMap;
use crate::ast::{Program, Statement, spec_default_span};
use crate::text::{distinct, str_eq, views};

verus! {

// ---- Messages -----------------------------------------------------------------------

/// A file that could not be read.
pub fn file_not_found(path: &str, reason: &str) -> (s: String)
    ensures
        s@ == "L017: file not found: "@ + path@ + " - "@ + reason@,
{
    let mut s = String::from_str("L017: file not found: ");
    s.append(path);
    s.append(" - ");
    s.append(reason);
    s
}

/// A file that imports itself, directly or not.
pub fn circular_import(path: &str) -> (s: String)
    ensures
        s@ == "L016: circular import: "@ + path@,
{
    let mut s = String::from_str("L016: circular import: ");
    s.append(path);
    s
}

/// A file that does not parse; `error` is the parser's message.
pub fn parse_to_diagnostic(error: &str, path: &str) -> (s: String)
    ensures
        s@ == "P001: "@ + error@ + " in "@ + path@,
{
    let mut s = String::from_str("P001: ");
    s.append(error);
    s.append(" in ");
    s.append(path);
    s
}

// ---- Merging --------------------------------------------------------------------------

/// The statements of the first `n` programs, imports left out, in order.
pub open spec fn merged(ps: Seq<Seq<Statement>>, n: int) -> Seq<Statement>
    decreases n,
{
    if n <= 0 || n > ps.len() {
        Seq::empty()
    } else {
        merged(ps, n - 1) + ps[n - 1].filter(|s: Statement| !(s is Import))
    }
}

pub open spec fn programs_statements(ps: Seq<Program>) -> Seq<Seq<Statement>> {
    ps.map_values(|p: Program| p.statements@)
}

/// The programs, dependencies first, merged into one: their statements in
/// order, without the imports (they are resolved).
pub fn merge(programs: Vec<Program>) -> (r: Program)
    ensures
        r.statements@ == merged(programs_statements(programs@), programs@.len() as int),
        r.span == spec_default_span(),
{
    let ghost all = programs_statements(programs@);
    let ghost total = programs@.len();
    let mut stmts: Vec<Statement> = Vec::new();
    let mut progs = programs;
    let ghost mut i: int = 0;
    while progs.len() > 0
        invariant
            i + progs@.len() == total,
            all.len() == total,
            forall|j: int| 0 <= j < progs@.len() ==> #[trigger] progs@[j].statements@ == all[i + j],
            0 <= i,
            stmts@ == merged(all, i),
        decreases progs@.len(),
    {
        let ghost before = progs@;
        let p = progs.remove(0);
        let ghost block = all[i];
        let mut ss = p.statements;
        let ghost mut k: int = 0;
        let ghost start = stmts@;
        while ss.len() > 0
            invariant
                0 <= k <= block.len(),
                ss@ == block.subrange(k, block.len() as int),
                stmts@ == start + block.subrange(0, k).filter(|s: Statement| !(s is Import)),
            decreases ss@.len(),
        {
            let st = ss.remove(0);
            proof {
                let f = |s: Statement| !(s is Import);
                assert(block.subrange(0, k + 1).drop_last() =~= block.subrange(0, k));
                assert(block.subrange(0, k + 1).last() == st);
                reveal(Seq::filter);
            }
            let keep = match &st {
                Statement::Import(_) => false,
                _ => true,
            };
            if keep {
                stmts.push(st);
            }
            proof {
                k = k + 1;
                assert(ss@ =~= block.subrange(k, block.len() as int));
                assert(stmts@ =~= start + block.subrange(0, k).filter(|s: Statement| !(s is Import)));
            }
        }
        proof {
            assert(block.subrange(0, block.len() as int) =~= block);
            assert(merged(all, i + 1) == merged(all, i) + all[i].filter(|s: Statement| !(s is Import)));
            i = i + 1;
            assert forall|j: int| 0 <= j < progs@.len() implies #[trigger] progs@[j].statements@
                == all[i + j] by {
                assert(progs@[j] == before[j + 1]);
            }
        }
    }
    Program { statements: stmts, span: crate::ast::Span::default_span() }
}

// ---- Loading ------------------------------------------------------------------------------

/// What to do with a file the loader is asked for.
pub enum Visit {
    /// It is loaded already (files form a graph, not a tree).
    Loaded,
    /// It is being loaded: the imports go round in a circle.
    Cycle(String),
    /// Read it, load its imports, then finish it.
    Enter,
}

/// Loading a file and its imports, depth first. Reading and parsing files
/// is the caller's part: it asks `begin` for each file, and after loading the
/// file's imports hands its program to `finish`.
pub struct ModuleLoader {
    /// The loaded programs by path, in the order they were finished.
    pub loaded: StrMap<Program>,
    /// The paths in load order: every file after the files it imports.
    pub order: Vec<String>,
    /// The files being loaded, innermost last.
    pub in_stack: Vec<String>,
    /// The imports each loaded file was finished with.
    pub deps: Ghost<Map<Seq<char>, Seq<Seq<char>>>>,
}

pub open spec fn key_views<V>(s: Seq<(String, V)>) -> Seq<Seq<char>> {
    s.map_values(|p: (String, V)| p.0@)
}

/// Each of the first `i` paths comes after every path it imports.
pub open spec fn deps_first(order: Seq<Seq<char>>, deps: Map<Seq<char>, Seq<Seq<char>>>) -> bool {
    forall|i: int, d: Seq<char>|
        0 <= i < order.len() && #[trigger] deps[order[i]].contains(d) ==> exists|j: int|
            0 <= j < i && order[j] == d
}

/// The loaded programs in load order.
pub open spec fn ordered_programs(order: Seq<String>, loaded: Map<Seq<char>, Program>) -> Seq<Program> {
    order.map_values(|p: String| loaded[p@])
}

impl ModuleLoader {
    pub open spec fn wf(&self) -> bool {
        &&& self.loaded.wf()
        &&& views(self.order@) == key_views(self.loaded.pairs())
        &&& distinct(views(self.in_stack@))
        &&& forall|i: int| 0 <= i < self.in_stack@.len() ==> !self.loaded@.contains_key(
            #[trigger] self.in_stack@[i]@,
        )
        &&& deps_first(views(self.order@), self.deps@)
    }

    /// A loader that has loaded nothing.
    pub fn new() -> (l: Self)
        ensures
            l.wf(),
            l.order@.len() == 0,
            l.in_stack@.len() == 0,
            l.loaded@ == Map::<Seq<char>, Program>::empty(),
    {
        let l = ModuleLoader {
            loaded: StrMap::new(),
            order: Vec::new(),
            in_stack: Vec::new(),
            deps: Ghost(Map::empty()),
        };
        assert(views(l.order@) =~= key_views(l.loaded.pairs()));
        l
    }

    /// What to do with the file at `path`: nothing if it is loaded, an error
    /// if it is being loaded, else enter it.
    pub fn begin(&mut self, path: &str) -> (v: Visit)
        requires
            old(self).wf(),
        ensures
            final(self).wf(),
            final(self).loaded == old(self).loaded,
            final(self).order == old(self).order,
            final(self).deps == old(self).deps,
            old(self).loaded@.contains_key(path@) ==> v is Loaded && final(self).in_stack
                == old(self).in_stack,
            !old(self).loaded@.contains_key(path@) && views(old(self).in_stack@).contains(path@)
                ==> (v matches Visit::Cycle(m) && m@ == "L016: circular import: "@ + path@)
                && final(self).in_stack == old(self).in_stack,
            !old(self).loaded@.contains_key(path@) && !views(old(self).in_stack@).contains(path@)
                ==> v is Enter && views(final(self).in_stack@) == views(old(self).in_stack@).push(
                path@,
            ),
    {
        if self.loaded.contains_key(path) {
            return Visit::Loaded;
        }
        let n = self.in_stack.len();
        let mut i: usize = 0;
        while i < n
            invariant
                n == self.in_stack@.len(),
                i <= n,
                *self == *old(self),
                self.wf(),
                !self.loaded@.contains_key(path@),
                forall|j: int| 0 <= j < i ==> self.in_stack@[j]@ != path@,
            decreases n - i,
        {
            if str_eq(self.in_stack[i].as_str(), path) {
                assert(views(self.in_stack@)[i as int] == path@);
                return Visit::Cycle(circular_import(path));
            }
            i += 1;
        }
        assert(!views(self.in_stack@).contains(path@)) by {
            if views(self.in_stack@).contains(path@) {
                let j = choose|j: int| 0 <= j < views(self.in_stack@).len() && views(self.in_stack@)[j]
                    == path@;
                assert(self.in_stack@[j]@ == path@);
            }
        }
        let ghost before = self.in_stack@;
        self.in_stack.push(String::from_str(path));
        assert(views(self.in_stack@) =~= views(before).push(path@));
        Visit::Enter
    }

    /// Records the program of the file being loaded, whose imports (the
    /// paths in `deps`) are all loaded: it leaves the stack and comes last in
    /// the load order.
    pub fn finish(&mut self, path: &str, program: Program, deps: &Vec<String>)
        requires
            old(self).wf(),
            old(self).in_stack@.len() > 0,
            old(self).in_stack@.last()@ == path@,
            forall|i: int| 0 <= i < deps@.len() ==> old(self).loaded@.contains_key(#[trigger] deps@[i]@),
        ensures
            final(self).wf(),
            final(self).loaded@ == old(self).loaded@.insert(path@, program),
            views(final(self).order@) == views(old(self).order@).push(path@),
            final(self).in_stack@ == old(self).in_stack@.drop_last(),
            final(self).deps@ == old(self).deps@.insert(path@, views(deps@)),
    {
        let ghost old_order = views(self.order@);
        let ghost old_pairs = self.loaded.pairs();
        let ghost old_deps = self.deps@;
        let ghost old_stack = self.in_stack@;
        assert(!self.loaded@.contains_key(path@)) by {
            assert(self.in_stack@[self.in_stack@.len() - 1]@ == path@);
        }
        self.in_stack.pop();
        self.loaded.insert(String::from_str(path), program);
        self.order.push(String::from_str(path));
        proof {
            self.deps@ = old_deps.insert(path@, views(deps@));
            assert(views(self.order@) =~= old_order.push(path@));
            assert(key_views(self.loaded.pairs()) =~= key_views(old_pairs).push(path@));
            assert(self.in_stack@ =~= old_stack.drop_last());
            assert(views(self.in_stack@) =~= views(old_stack).drop_last());
            let top = old_stack.len() - 1;
            assert forall|a: int, b: int| 0 <= a < b < views(self.in_stack@).len() implies #[trigger] views(
                self.in_stack@,
            )[a] != #[trigger] views(self.in_stack@)[b] by {
                assert(views(old_stack)[a] != views(old_stack)[b]);
            }
            assert forall|a: int| 0 <= a < self.in_stack@.len() implies !self.loaded@.contains_key(
                #[trigger] self.in_stack@[a]@,
            ) by {
                assert(views(old_stack)[a] != views(old_stack)[top]);
                assert(old_stack[a]@ != path@);
            }
            let ord = views(self.order@);
            assert forall|i: int, d: Seq<char>|
                0 <= i < ord.len() && #[trigger] self.deps@[ord[i]].contains(d) implies exists|j: int|
                0 <= j < i && ord[j] == d by {
                if i == ord.len() - 1 {
                    let k = choose|k: int| 0 <= k < views(deps@).len() && views(deps@)[k] == d;
                    assert(old(self).loaded@.contains_key(deps@[k]@));
                    crate::assoc::lemma_key_index(old_pairs, d);
                    let j = crate::assoc::key_index(old_pairs, d);
                    assert(key_views(old_pairs)[j] == d);
                    assert(ord[j] == d);
                } else {
                    assert(ord[i] == old_order[i]);
                    assert(ord[i] != path@) by {
                        crate::assoc::lemma_pair_in_map(old_pairs, i);
                        assert(key_views(old_pairs)[i] == old_pairs[i].0@);
                    }
                    assert(old_deps[old_order[i]].contains(d));
                    let j = choose|j: int| 0 <= j < i && old_order[j] == d;
                    assert(ord[j] == d);
                }
            }
        }
    }

    /// The loaded programs merged into one, dependencies first, imports left out.
    pub fn merge(self) -> (r: Program)
        requires
            self.wf(),
        ensures
            r.statements@ == merged(
                programs_statements(ordered_programs(self.order@, self.loaded@)),
                self.order@.len() as int,
            ),
    {
        let ghost start = self.loaded@;
        let ghost want = ordered_programs(self.order@, self.loaded@);
        proof {
            let ks = key_views(self.loaded.pairs());
            assert forall|a: int, b: int| 0 <= a < b < views(self.order@).len() implies #[trigger] views(
                self.order@,
            )[a] != #[trigger] views(self.order@)[b] by {
                assert(ks[a] == self.loaded.pairs()[a].0@ && ks[b] == self.loaded.pairs()[b].0@);
            }
            assert forall|j: int| 0 <= j < self.order@.len() implies #[trigger] self.loaded@.contains_key(
                self.order@[j]@,
            ) by {
                assert(views(self.order@)[j] == ks[j]);
                crate::assoc::lemma_pair_in_map(self.loaded.pairs(), j);
            }
        }
        let ModuleLoader { loaded, order, in_stack: _, deps: _ } = self;
        let mut loaded = loaded;
        let mut programs: Vec<Program> = Vec::new();
        let n = order.len();
        let mut i: usize = 0;
        while i < n
            invariant
                n == order@.len(),
                i <= n,
                loaded.wf(),
                distinct(views(order@)),
                forall|j: int| i <= j < n ==> #[trigger] loaded@.contains_key(order@[j]@)
                    && loaded@[order@[j]@] == start[order@[j]@],
                want == ordered_programs(order@, start),
                programs@ == want.take(i as int),
            decreases n - i,
        {
            let ghost before = programs@;
            let ghost lb = loaded@;
            match loaded.remove(order[i].as_str()) {
                Some(p) => {
                    programs.push(p);
                },
                None => {},
            }
            assert(programs@ =~= want.take(i + 1));
            assert forall|j: int| i + 1 <= j < n implies #[trigger] loaded@.contains_key(order@[j]@)
                && loaded@[order@[j]@] == start[order@[j]@] by {
                assert(views(order@)[j] != views(order@)[i as int]);
            }
            i += 1;
        }
        assert(want.take(n as int) =~= want);
        merge(programs)
    }
}

} // verus!
