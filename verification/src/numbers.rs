use vstd::prelude::*;
use crate::ast::{
    Action,
    Condition,
    Duration,
    Expr,
    Field,
    FieldMetadata,
    FleetCondition,
    LetValue,
    Program,
    RuleDecl,
    RuleTrigger,
    Statement,
    StringSegment,
};
use crate::text::lemma_push_to_set;

verus! {

/// The number literals of an expression, by their bits (durations count by
/// their value).
pub open spec fn e_nums(e: Expr) -> Set<u64>
    decreases e, 0nat, 0nat,
{
    match e {
        Expr::Number(n) => set![n],
        Expr::Duration(d) => set![d.value],
        Expr::FieldAccess { obj, .. } => e_nums(*obj),
        Expr::Binary { left, right, .. } => e_nums(*left) + e_nums(*right),
        Expr::Unary { operand, .. } => e_nums(*operand),
        Expr::If { cond, then_, else_, .. } => e_nums(*cond) + e_nums(*then_) + e_nums(*else_),
        Expr::InterpolatedString(segs) => segs_nums(segs@, segs@.len() as int),
        Expr::Call { args, .. } => list_nums(args@, args@.len() as int),
        Expr::ListLiteral(elems) => list_nums(elems@, elems@.len() as int),
        Expr::Index { list, index, .. } => e_nums(*list) + e_nums(*index),
        Expr::Migrate { workloads, target, .. } => e_nums(*workloads) + e_nums(*target),
        Expr::Evacuate { entities, .. } => e_nums(*entities),
        Expr::Deploy { spec, .. } => e_nums(*spec),
        _ => Set::empty(),
    }
}

pub open spec fn list_nums(es: Seq<Expr>, n: int) -> Set<u64>
    decreases es, 1nat, n,
{
    if n <= 0 || n > es.len() {
        Set::empty()
    } else {
        list_nums(es, n - 1) + e_nums(es[n - 1])
    }
}

pub open spec fn segs_nums(segs: Seq<StringSegment>, n: int) -> Set<u64>
    decreases segs, 1nat, n,
{
    if n <= 0 || n > segs.len() {
        Set::empty()
    } else {
        segs_nums(segs, n - 1) + match segs[n - 1] {
            StringSegment::Expr(e) => e_nums(*e),
            StringSegment::Literal(_) => Set::empty(),
        }
    }
}

pub open spec fn opt_expr_nums(e: Option<Expr>) -> Set<u64> {
    match e {
        Some(x) => e_nums(x),
        None => Set::empty(),
    }
}

pub open spec fn opt_dur_nums(d: Option<Duration>) -> Set<u64> {
    match d {
        Some(x) => set![x.value],
        None => Set::empty(),
    }
}

pub open spec fn entries_nums(es: Seq<(String, Expr)>, n: int) -> Set<u64>
    decreases n,
{
    if n <= 0 || n > es.len() {
        Set::empty()
    } else {
        entries_nums(es, n - 1) + e_nums(es[n - 1].1)
    }
}

pub open spec fn meta_nums(m: FieldMetadata) -> Set<u64> {
    match m.range {
        Some((lo, hi)) => set![lo, hi],
        None => Set::empty(),
    }
}

pub open spec fn field_nums(f: Field) -> Set<u64> {
    match f {
        Field::Stored(sf) => meta_nums(sf.metadata),
        Field::Derived(df) => meta_nums(df.metadata) + e_nums(df.expr),
        Field::Ref(_) => Set::empty(),
    }
}

pub open spec fn fields_nums(fs: Seq<Field>, n: int) -> Set<u64>
    decreases n,
{
    if n <= 0 || n > fs.len() {
        Set::empty()
    } else {
        fields_nums(fs, n - 1) + field_nums(fs[n - 1])
    }
}

pub open spec fn freq_nums(f: Option<crate::ast::Frequency>) -> Set<u64> {
    match f {
        Some(fr) => set![fr.within.value],
        None => Set::empty(),
    }
}

pub open spec fn cond_nums(c: Condition) -> Set<u64> {
    e_nums(c.expr) + opt_expr_nums(c.becomes) + opt_dur_nums(c.for_duration) + freq_nums(c.frequency)
}

pub open spec fn conds_nums(cs: Seq<Condition>, n: int) -> Set<u64>
    decreases n,
{
    if n <= 0 || n > cs.len() {
        Set::empty()
    } else {
        conds_nums(cs, n - 1) + cond_nums(cs[n - 1])
    }
}

pub open spec fn fleet_nums(fc: FleetCondition) -> Set<u64> {
    e_nums(fc.becomes) + opt_dur_nums(fc.for_duration) + freq_nums(fc.frequency)
}

pub open spec fn action_nums(a: Action) -> Set<u64> {
    match a {
        Action::Show(e) => e_nums(e),
        Action::Update { value, .. } => e_nums(value),
        Action::Write { value, .. } => e_nums(value),
        Action::Create { fields, .. } => entries_nums(fields@, fields@.len() as int),
        Action::Delete(_) => Set::empty(),
        Action::Alert(al) => e_nums(al.severity) + e_nums(al.message) + opt_expr_nums(al.source)
            + opt_expr_nums(al.code) + entries_nums(al.payload@, al.payload@.len() as int),
    }
}

pub open spec fn actions_nums(acts: Seq<Action>, n: int) -> Set<u64>
    decreases n,
{
    if n <= 0 || n > acts.len() {
        Set::empty()
    } else {
        actions_nums(acts, n - 1) + action_nums(acts[n - 1])
    }
}

pub open spec fn trigger_nums(t: RuleTrigger) -> Set<u64> {
    match t {
        RuleTrigger::When(cs) => conds_nums(cs@, cs@.len() as int),
        RuleTrigger::Any(fc) => fleet_nums(fc),
        RuleTrigger::All(fc) => fleet_nums(fc),
        RuleTrigger::Every(d) => set![d.value],
    }
}

pub open spec fn clear_nums(o: Option<Vec<Action>>) -> Set<u64> {
    match o {
        Some(acts) => actions_nums(acts@, acts@.len() as int),
        None => Set::empty(),
    }
}

pub open spec fn rule_nums(r: RuleDecl) -> Set<u64> {
    trigger_nums(r.trigger) + actions_nums(r.actions@, r.actions@.len() as int) + clear_nums(r.on_clear)
        + opt_dur_nums(r.cooldown)
}

/// The numbers whose texts writing a statement needs.
pub open spec fn stmt_nums(s: Statement) -> Set<u64> {
    match s {
        Statement::Entity(e) => fields_nums(e.fields@, e.fields@.len() as int),
        Statement::ExternalEntity(e) => fields_nums(e.fields@, e.fields@.len() as int)
            + opt_dur_nums(e.poll_interval) + opt_dur_nums(e.sync_timeout),
        Statement::Let(l) => match l.value {
            LetValue::Expr(e) => e_nums(e),
            LetValue::EntityInit(init) => entries_nums(init.fields@, init.fields@.len() as int),
        },
        Statement::Rule(r) => rule_nums(r),
        Statement::Action(a) => action_nums(a),
        Statement::Fn(f) => e_nums(f.body),
        Statement::Provider(p) => provider_nums(p.config@, p.config@.len() as int),
        Statement::Cluster(c) => set![c.election_timeout.value],
        _ => Set::empty(),
    }
}

pub open spec fn provider_nums(es: Seq<crate::ast::ProviderConfigEntry>, n: int) -> Set<u64>
    decreases n,
{
    if n <= 0 || n > es.len() {
        Set::empty()
    } else {
        provider_nums(es, n - 1) + e_nums(es[n - 1].value)
    }
}

/// The numbers whose texts writing a program needs.
pub open spec fn program_nums(stmts: Seq<Statement>, n: int) -> Set<u64>
    decreases n,
{
    if n <= 0 || n > stmts.len() {
        Set::empty()
    } else {
        program_nums(stmts, n - 1) + stmt_nums(stmts[n - 1])
    }
}

/// `out` grew by the numbers `s`.
pub open spec fn grew(old_out: Seq<u64>, out: Seq<u64>, s: Set<u64>) -> bool {
    out.to_set() == old_out.to_set() + s
}

fn add_num(out: &mut Vec<u64>, b: u64)
    ensures
        grew(old(out)@, final(out)@, set![b]),
{
    let ghost before = out@;
    out.push(b);
    proof {
        lemma_push_to_set(before, b);
        assert(before.to_set().insert(b) =~= before.to_set() + set![b]);
    }
}

pub proof fn lemma_grew_empty(out: Seq<u64>)
    ensures
        grew(out, out, Set::empty()),
{
    assert(out.to_set() =~= out.to_set() + Set::empty());
}

pub proof fn lemma_grew_trans(a: Seq<u64>, b: Seq<u64>, c: Seq<u64>, s: Set<u64>, t: Set<u64>)
    requires
        grew(a, b, s),
        grew(b, c, t),
    ensures
        grew(a, c, s + t),
{
    assert(c.to_set() =~= a.to_set() + (s + t));
}

/// Adds the number literals of an expression.
pub fn collect_expr(e: &Expr, out: &mut Vec<u64>)
    ensures
        grew(old(out)@, final(out)@, e_nums(*e)),
    decreases e, 0nat,
{
    let ghost o0 = out@;
    match e {
        Expr::Number(n) => add_num(out, *n),
        Expr::Duration(d) => add_num(out, d.value),
        Expr::FieldAccess { obj, .. } => collect_expr(obj, out),
        Expr::Binary { left, right, .. } => {
            collect_expr(left, out);
            let ghost o1 = out@;
            collect_expr(right, out);
            proof {
                lemma_grew_trans(o0, o1, out@, e_nums(**left), e_nums(**right));
            }
        },
        Expr::Unary { operand, .. } => collect_expr(operand, out),
        Expr::If { cond, then_, else_, .. } => {
            collect_expr(cond, out);
            let ghost o1 = out@;
            collect_expr(then_, out);
            let ghost o2 = out@;
            collect_expr(else_, out);
            proof {
                lemma_grew_trans(o0, o1, o2, e_nums(**cond), e_nums(**then_));
                lemma_grew_trans(o0, o2, out@, e_nums(**cond) + e_nums(**then_), e_nums(**else_));
            }
        },
        Expr::InterpolatedString(segs) => collect_segs(segs, out),
        Expr::Call { args, .. } => collect_list(args, out),
        Expr::ListLiteral(elems) => collect_list(elems, out),
        Expr::Index { list, index, .. } => {
            collect_expr(list, out);
            let ghost o1 = out@;
            collect_expr(index, out);
            proof {
                lemma_grew_trans(o0, o1, out@, e_nums(**list), e_nums(**index));
            }
        },
        Expr::Migrate { workloads, target, .. } => {
            collect_expr(workloads, out);
            let ghost o1 = out@;
            collect_expr(target, out);
            proof {
                lemma_grew_trans(o0, o1, out@, e_nums(**workloads), e_nums(**target));
            }
        },
        Expr::Evacuate { entities, .. } => collect_expr(entities, out),
        Expr::Deploy { spec, .. } => collect_expr(spec, out),
        _ => {
            proof {
                lemma_grew_empty(o0);
            }
        },
    }
}

fn collect_list(es: &Vec<Expr>, out: &mut Vec<u64>)
    ensures
        grew(old(out)@, final(out)@, list_nums(es@, es@.len() as int)),
    decreases es, 1nat,
{
    let ghost o0 = out@;
    proof {
        lemma_grew_empty(o0);
    }
    let n = es.len();
    let mut i: usize = 0;
    while i < n
        invariant
            n == es@.len(),
            i <= n,
            grew(o0, out@, list_nums(es@, i as int)),
        decreases n - i,
    {
        assert(decreases_to!(es => es@[i as int]));
        let ghost o1 = out@;
        collect_expr(&es[i], out);
        proof {
            lemma_grew_trans(o0, o1, out@, list_nums(es@, i as int), e_nums(es@[i as int]));
        }
        i += 1;
    }
}

fn collect_segs(segs: &Vec<StringSegment>, out: &mut Vec<u64>)
    ensures
        grew(old(out)@, final(out)@, segs_nums(segs@, segs@.len() as int)),
    decreases segs, 1nat,
{
    let ghost o0 = out@;
    proof {
        lemma_grew_empty(o0);
    }
    let n = segs.len();
    let mut i: usize = 0;
    while i < n
        invariant
            n == segs@.len(),
            i <= n,
            grew(o0, out@, segs_nums(segs@, i as int)),
        decreases n - i,
    {
        let ghost o1 = out@;
        match &segs[i] {
            StringSegment::Expr(e) => {
                assert(decreases_to!(segs => segs@[i as int]));
                collect_expr(e, out);
                proof {
                    lemma_grew_trans(o0, o1, out@, segs_nums(segs@, i as int), e_nums(**e));
                }
            },
            StringSegment::Literal(_) => {
                proof {
                    lemma_grew_empty(o1);
                    lemma_grew_trans(o0, o1, out@, segs_nums(segs@, i as int), Set::empty());
                }
            },
        }
        i += 1;
    }
}

fn collect_opt_expr(e: &Option<Expr>, out: &mut Vec<u64>)
    ensures
        grew(old(out)@, final(out)@, opt_expr_nums(*e)),
{
    match e {
        Some(x) => collect_expr(x, out),
        None => {
            proof {
                lemma_grew_empty(out@);
            }
        },
    }
}

fn collect_opt_dur(d: &Option<Duration>, out: &mut Vec<u64>)
    ensures
        grew(old(out)@, final(out)@, opt_dur_nums(*d)),
{
    match d {
        Some(x) => add_num(out, x.value),
        None => {
            proof {
                lemma_grew_empty(out@);
            }
        },
    }
}

fn collect_entries(es: &Vec<(String, Expr)>, out: &mut Vec<u64>)
    ensures
        grew(old(out)@, final(out)@, entries_nums(es@, es@.len() as int)),
{
    let ghost o0 = out@;
    proof {
        lemma_grew_empty(o0);
    }
    let n = es.len();
    let mut i: usize = 0;
    while i < n
        invariant
            n == es@.len(),
            i <= n,
            grew(o0, out@, entries_nums(es@, i as int)),
        decreases n - i,
    {
        let ghost o1 = out@;
        collect_expr(&es[i].1, out);
        proof {
            lemma_grew_trans(o0, o1, out@, entries_nums(es@, i as int), e_nums(es@[i as int].1));
        }
        i += 1;
    }
}

fn collect_meta(m: &FieldMetadata, out: &mut Vec<u64>)
    ensures
        grew(old(out)@, final(out)@, meta_nums(*m)),
{
    match m.range {
        Some((lo, hi)) => {
            let ghost o0 = out@;
            add_num(out, lo);
            let ghost o1 = out@;
            add_num(out, hi);
            proof {
                lemma_grew_trans(o0, o1, out@, set![lo], set![hi]);
                assert(set![lo] + set![hi] =~= set![lo, hi]);
            }
        },
        None => {
            proof {
                lemma_grew_empty(out@);
            }
        },
    }
}

fn collect_fields(fs: &Vec<Field>, out: &mut Vec<u64>)
    ensures
        grew(old(out)@, final(out)@, fields_nums(fs@, fs@.len() as int)),
{
    let ghost o0 = out@;
    proof {
        lemma_grew_empty(o0);
    }
    let n = fs.len();
    let mut i: usize = 0;
    while i < n
        invariant
            n == fs@.len(),
            i <= n,
            grew(o0, out@, fields_nums(fs@, i as int)),
        decreases n - i,
    {
        let ghost o1 = out@;
        match &fs[i] {
            Field::Stored(sf) => collect_meta(&sf.metadata, out),
            Field::Derived(df) => {
                collect_meta(&df.metadata, out);
                let ghost o2 = out@;
                collect_expr(&df.expr, out);
                proof {
                    lemma_grew_trans(o1, o2, out@, meta_nums(df.metadata), e_nums(df.expr));
                }
            },
            Field::Ref(_) => {
                proof {
                    lemma_grew_empty(o1);
                }
            },
        }
        proof {
            lemma_grew_trans(o0, o1, out@, fields_nums(fs@, i as int), field_nums(fs@[i as int]));
        }
        i += 1;
    }
}

fn collect_freq(f: &Option<crate::ast::Frequency>, out: &mut Vec<u64>)
    ensures
        grew(old(out)@, final(out)@, freq_nums(*f)),
{
    match f {
        Some(fr) => add_num(out, fr.within.value),
        None => {
            proof {
                lemma_grew_empty(out@);
            }
        },
    }
}

fn collect_condition(c: &Condition, out: &mut Vec<u64>)
    ensures
        grew(old(out)@, final(out)@, cond_nums(*c)),
{
    let ghost o0 = out@;
    collect_expr(&c.expr, out);
    let ghost o1 = out@;
    collect_opt_expr(&c.becomes, out);
    let ghost o2 = out@;
    collect_opt_dur(&c.for_duration, out);
    let ghost o3 = out@;
    collect_freq(&c.frequency, out);
    proof {
        let f = freq_nums(c.frequency);
        lemma_grew_trans(o0, o1, o2, e_nums(c.expr), opt_expr_nums(c.becomes));
        lemma_grew_trans(
            o0,
            o2,
            o3,
            e_nums(c.expr) + opt_expr_nums(c.becomes),
            opt_dur_nums(c.for_duration),
        );
        lemma_grew_trans(
            o0,
            o3,
            out@,
            e_nums(c.expr) + opt_expr_nums(c.becomes) + opt_dur_nums(c.for_duration),
            f,
        );
    }
}

fn collect_fleet(fc: &FleetCondition, out: &mut Vec<u64>)
    ensures
        grew(old(out)@, final(out)@, fleet_nums(*fc)),
{
    let ghost o0 = out@;
    collect_expr(&fc.becomes, out);
    let ghost o1 = out@;
    collect_opt_dur(&fc.for_duration, out);
    let ghost o2 = out@;
    collect_freq(&fc.frequency, out);
    proof {
        let f = freq_nums(fc.frequency);
        lemma_grew_trans(o0, o1, o2, e_nums(fc.becomes), opt_dur_nums(fc.for_duration));
        lemma_grew_trans(o0, o2, out@, e_nums(fc.becomes) + opt_dur_nums(fc.for_duration), f);
    }
}

fn collect_action(a: &Action, out: &mut Vec<u64>)
    ensures
        grew(old(out)@, final(out)@, action_nums(*a)),
{
    let ghost o0 = out@;
    match a {
        Action::Show(e) => collect_expr(e, out),
        Action::Update { value, .. } => collect_expr(value, out),
        Action::Write { value, .. } => collect_expr(value, out),
        Action::Create { fields, .. } => collect_entries(fields, out),
        Action::Delete(_) => {
            proof {
                lemma_grew_empty(o0);
            }
        },
        Action::Alert(al) => {
            collect_expr(&al.severity, out);
            let ghost o1 = out@;
            collect_expr(&al.message, out);
            let ghost o2 = out@;
            collect_opt_expr(&al.source, out);
            let ghost o3 = out@;
            collect_opt_expr(&al.code, out);
            let ghost o4 = out@;
            collect_entries(&al.payload, out);
            proof {
                let s1 = e_nums(al.severity);
                let s2 = s1 + e_nums(al.message);
                let s3 = s2 + opt_expr_nums(al.source);
                let s4 = s3 + opt_expr_nums(al.code);
                lemma_grew_trans(o0, o1, o2, s1, e_nums(al.message));
                lemma_grew_trans(o0, o2, o3, s2, opt_expr_nums(al.source));
                lemma_grew_trans(o0, o3, o4, s3, opt_expr_nums(al.code));
                lemma_grew_trans(o0, o4, out@, s4, entries_nums(al.payload@, al.payload@.len() as int));
            }
        },
    }
}

fn collect_actions(acts: &Vec<Action>, out: &mut Vec<u64>)
    ensures
        grew(old(out)@, final(out)@, actions_nums(acts@, acts@.len() as int)),
{
    let ghost o0 = out@;
    proof {
        lemma_grew_empty(o0);
    }
    let n = acts.len();
    let mut i: usize = 0;
    while i < n
        invariant
            n == acts@.len(),
            i <= n,
            grew(o0, out@, actions_nums(acts@, i as int)),
        decreases n - i,
    {
        let ghost o1 = out@;
        collect_action(&acts[i], out);
        proof {
            lemma_grew_trans(o0, o1, out@, actions_nums(acts@, i as int), action_nums(acts@[i as int]));
        }
        i += 1;
    }
}

fn collect_rule(r: &RuleDecl, out: &mut Vec<u64>)
    ensures
        grew(old(out)@, final(out)@, rule_nums(*r)),
{
    let ghost o0 = out@;
    match &r.trigger {
        RuleTrigger::When(cs) => {
            proof {
                lemma_grew_empty(o0);
            }
            let n = cs.len();
            let mut i: usize = 0;
            while i < n
                invariant
                    n == cs@.len(),
                    i <= n,
                    grew(o0, out@, conds_nums(cs@, i as int)),
                decreases n - i,
            {
                let ghost o1 = out@;
                collect_condition(&cs[i], out);
                proof {
                    lemma_grew_trans(o0, o1, out@, conds_nums(cs@, i as int), cond_nums(cs@[i as int]));
                }
                i += 1;
            }
        },
        RuleTrigger::Any(fc) => collect_fleet(fc, out),
        RuleTrigger::All(fc) => collect_fleet(fc, out),
        RuleTrigger::Every(d) => add_num(out, d.value),
    }
    let ghost t = trigger_nums(r.trigger);
    let ghost o1 = out@;
    collect_actions(&r.actions, out);
    let ghost o2 = out@;
    let ghost c = clear_nums(r.on_clear);
    match &r.on_clear {
        Some(acts) => collect_actions(acts, out),
        None => {
            proof {
                lemma_grew_empty(o2);
            }
        },
    }
    let ghost o3 = out@;
    collect_opt_dur(&r.cooldown, out);
    proof {
        let a = actions_nums(r.actions@, r.actions@.len() as int);
        lemma_grew_trans(o0, o1, o2, t, a);
        lemma_grew_trans(o0, o2, o3, t + a, c);
        lemma_grew_trans(o0, o3, out@, t + a + c, opt_dur_nums(r.cooldown));
    }
}

fn collect_statement(s: &Statement, out: &mut Vec<u64>)
    ensures
        grew(old(out)@, final(out)@, stmt_nums(*s)),
{
    let ghost o0 = out@;
    match s {
        Statement::Entity(e) => collect_fields(&e.fields, out),
        Statement::ExternalEntity(e) => {
            collect_fields(&e.fields, out);
            let ghost o1 = out@;
            collect_opt_dur(&e.poll_interval, out);
            let ghost o2 = out@;
            collect_opt_dur(&e.sync_timeout, out);
            proof {
                let f = fields_nums(e.fields@, e.fields@.len() as int);
                lemma_grew_trans(o0, o1, o2, f, opt_dur_nums(e.poll_interval));
                lemma_grew_trans(
                    o0,
                    o2,
                    out@,
                    f + opt_dur_nums(e.poll_interval),
                    opt_dur_nums(e.sync_timeout),
                );
            }
        },
        Statement::Let(l) => match &l.value {
            LetValue::Expr(e) => collect_expr(e, out),
            LetValue::EntityInit(init) => collect_entries(&init.fields, out),
        },
        Statement::Rule(r) => collect_rule(r, out),
        Statement::Action(a) => collect_action(a, out),
        Statement::Fn(f) => collect_expr(&f.body, out),
        Statement::Provider(p) => {
            proof {
                lemma_grew_empty(o0);
            }
            let n = p.config.len();
            let mut i: usize = 0;
            while i < n
                invariant
                    n == p.config@.len(),
                    i <= n,
                    grew(o0, out@, provider_nums(p.config@, i as int)),
                decreases n - i,
            {
                let ghost o1 = out@;
                collect_expr(&p.config[i].value, out);
                proof {
                    lemma_grew_trans(
                        o0,
                        o1,
                        out@,
                        provider_nums(p.config@, i as int),
                        e_nums(p.config@[i as int].value),
                    );
                }
                i += 1;
            }
        },
        Statement::Cluster(c) => add_num(out, c.election_timeout.value),
        _ => {
            proof {
                lemma_grew_empty(o0);
            }
        },
    }
}

/// The bits of every number whose text writing the program needs.
pub fn collect_numbers(program: &Program) -> (r: Vec<u64>)
    ensures
        r@.to_set() == program_nums(program.statements@, program.statements@.len() as int),
{
    let mut out: Vec<u64> = Vec::new();
    proof {
        assert(out@.to_set() =~= Set::<u64>::empty());
    }
    let n = program.statements.len();
    let mut i: usize = 0;
    while i < n
        invariant
            n == program.statements@.len(),
            i <= n,
            out@.to_set() == program_nums(program.statements@, i as int),
        decreases n - i,
    {
        collect_statement(&program.statements[i], &mut out);
        i += 1;
    }
    out
}

} // verus!
