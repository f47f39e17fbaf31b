use vstd::prelude::*;
use crate::assoc::StrMap;
use crate::analyzer::infer::{ty_debug, ty_debug_text};
use crate::analyzer::types::{EntitySchema, FieldSchema, Schema};

use crate::format::join;
use crate::text::{first_index_of, lemma_first_index_of, split_once_char};

verus! {

// ---- Commands of the interactive session ------------------------------------

/// A command of the interactive session.
pub enum ReplCommand {
    State,
    Schema,
    Clear,
    Help,
    Load(String),
    Save(String),
    Quit,
    Unknown(String),
}

/// The characters `char::is_whitespace` accepts (Unicode White_Space).
pub open spec fn is_ws(c: char) -> bool {
    ||| c == '\t'
    ||| c == '\n'
    ||| c == '\u{0B}'
    ||| c == '\u{0C}'
    ||| c == '\r'
    ||| c == ' '
    ||| c == '\u{85}'
    ||| c == '\u{A0}'
    ||| c == '\u{1680}'
    ||| ('\u{2000}' <= c && c <= '\u{200A}')
    ||| c == '\u{2028}'
    ||| c == '\u{2029}'
    ||| c == '\u{202F}'
    ||| c == '\u{205F}'
    ||| c == '\u{3000}'
}

/// Whether `c` is whitespace, as `char::is_whitespace` tells.
pub fn char_is_ws(c: char) -> (r: bool)
    ensures
        r == is_ws(c),
{
    c == '\t' || c == '\n' || c == '\u{0B}' || c == '\u{0C}' || c == '\r' || c == ' ' || c
        == '\u{85}' || c == '\u{A0}' || c == '\u{1680}' || ('\u{2000}' <= c && c <= '\u{200A}')
        || c == '\u{2028}' || c == '\u{2029}' || c == '\u{202F}' || c == '\u{205F}' || c
        == '\u{3000}'
}

/// `s` without leading and trailing whitespace, as `str::trim` gives it.
pub open spec fn trimmed(s: Seq<char>) -> Seq<char> {
    let lo = leading_ws(s);
    let hi = s.len() - trailing_ws(s);
    if lo >= hi {
        Seq::empty()
    } else {
        s.subrange(lo, hi)
    }
}

/// How many whitespace characters `s` starts with.
pub open spec fn leading_ws(s: Seq<char>) -> int
    decreases s.len(),
{
    if s.len() == 0 || !is_ws(s[0]) {
        0
    } else {
        1 + leading_ws(s.drop_first())
    }
}

/// How many whitespace characters `s` ends with.
pub open spec fn trailing_ws(s: Seq<char>) -> int
    decreases s.len(),
{
    if s.len() == 0 || !is_ws(s.last()) {
        0
    } else {
        1 + trailing_ws(s.drop_last())
    }
}

proof fn lemma_leading(s: Seq<char>, i: int)
    requires
        0 <= i <= s.len(),
        forall|j: int| 0 <= j < i ==> is_ws(s[j]),
        i == s.len() || !is_ws(s[i]),
    ensures
        leading_ws(s) == i,
    decreases i,
{
    if i > 0 {
        lemma_leading(s.drop_first(), i - 1);
    }
}

proof fn lemma_trailing(s: Seq<char>, k: int)
    requires
        0 <= k <= s.len(),
        forall|j: int| s.len() - k <= j < s.len() ==> is_ws(s[j]),
        k == s.len() || !is_ws(s[s.len() - k - 1]),
    ensures
        trailing_ws(s) == k,
    decreases k,
{
    if k > 0 {
        lemma_trailing(s.drop_last(), k - 1);
    }
}

/// `s` without leading and trailing whitespace.
pub fn trim_str(s: &str) -> (r: String)
    ensures
        r@ == trimmed(s@),
{
    let n = s.unicode_len();
    let mut lo: usize = 0;
    while lo < n && char_is_ws(s.get_char(lo))
        invariant
            n == s@.len(),
            lo <= n,
            forall|j: int| 0 <= j < lo ==> is_ws(s@[j]),
        decreases n - lo,
    {
        lo += 1;
    }
    proof {
        lemma_leading(s@, lo as int);
    }
    let mut k: usize = 0;
    while k < n && char_is_ws(s.get_char(n - 1 - k))
        invariant
            n == s@.len(),
            k <= n,
            forall|j: int| n - k <= j < n ==> is_ws(s@[j]),
        decreases n - k,
    {
        k += 1;
    }
    proof {
        lemma_trailing(s@, k as int);
    }
    if lo >= n - k {
        String::new()
    } else {
        String::from_str(s.substring_char(lo, n - k))
    }
}

/// What a line typed in the session asks for: the word before the first
/// space picks the command, the rest (trimmed) is its argument.
pub open spec fn spec_parse_command(cmd: Seq<char>) -> (Seq<char>, Seq<char>) {
    match first_index_of(cmd, ' ') {
        Some(i) => (cmd.subrange(0, i), trimmed(cmd.subrange(i + 1, cmd.len() as int))),
        None => (cmd, Seq::empty()),
    }
}

pub open spec fn command_matches(c: ReplCommand, cmd: Seq<char>) -> bool {
    let (head, arg) = spec_parse_command(cmd);
    if head == ":state"@ {
        c is State
    } else if head == ":schema"@ {
        c is Schema
    } else if head == ":clear"@ {
        c is Clear
    } else if head == ":help"@ {
        c is Help
    } else if head == ":load"@ {
        c matches ReplCommand::Load(p) && p@ == arg
    } else if head == ":save"@ {
        c matches ReplCommand::Save(p) && p@ == arg
    } else if head == ":quit"@ || head == ":q"@ {
        c is Quit
    } else {
        c matches ReplCommand::Unknown(h) && h@ == head
    }
}

/// The command a line of the session asks for.
pub fn parse_command(cmd: &str) -> (c: ReplCommand)
    ensures
        command_matches(c, cmd@),
{
    proof {
        lemma_first_index_of(cmd@, ' ');
    }
    let (head, arg) = match split_once_char(cmd, ' ') {
        Some((h, rest)) => (h, trim_str(rest.as_str())),
        None => (String::from_str(cmd), String::new()),
    };
    let h = head.as_str();
    if crate::text::str_eq(h, ":state") {
        ReplCommand::State
    } else if crate::text::str_eq(h, ":schema") {
        ReplCommand::Schema
    } else if crate::text::str_eq(h, ":clear") {
        ReplCommand::Clear
    } else if crate::text::str_eq(h, ":help") {
        ReplCommand::Help
    } else if crate::text::str_eq(h, ":load") {
        ReplCommand::Load(arg)
    } else if crate::text::str_eq(h, ":save") {
        ReplCommand::Save(arg)
    } else if crate::text::str_eq(h, ":quit") || crate::text::str_eq(h, ":q") {
        ReplCommand::Quit
    } else {
        ReplCommand::Unknown(head)
    }
}

/// The reply to a command the session does not know.
pub fn unknown_command_reply(other: &str) -> (s: String)
    ensures
        s@ == "Unknown command: "@ + other@ + ". Type :help for commands."@,
{
    let mut s = String::from_str("Unknown command: ");
    s.append(other);
    s.append(". Type :help for commands.");
    s
}

pub open spec fn help_text() -> Seq<char> {
    ":state - print current state as JSON\n:schema - list declared entities and fields\n:load <file> - execute a .lum file into this session\n:save <file> - save session source to file\n:clear - reset the session\n:help - show this list\n:quit - exit the REPL"@
}

/// The list of session commands.
pub fn help_cmd() -> (s: String)
    ensures
        s@ == help_text(),
{
    String::from_str(
        ":state - print current state as JSON\n:schema - list declared entities and fields\n:load <file> - execute a .lum file into this session\n:save <file> - save session source to file\n:clear - reset the session\n:help - show this list\n:quit - exit the REPL",
    )
}

/// The reply once the session is cleared.
pub fn clear_cmd() -> (s: String)
    ensures
        s@ == "Session cleared."@,
{
    String::from_str("Session cleared.")
}

/// `name: Type` for the first `n` fields, separated by ", ".
pub open spec fn field_list(fs: Seq<(String, FieldSchema)>, n: int) -> Seq<char>
    decreases n,
{
    if n <= 0 || n > fs.len() {
        Seq::empty()
    } else if n == 1 {
        fs[0].0@ + ": "@ + ty_debug_text(fs[0].1.ty)
    } else {
        field_list(fs, n - 1) + ", "@ + fs[n - 1].0@ + ": "@ + ty_debug_text(fs[n - 1].1.ty)
    }
}

/// The line of an entity: `entity Name { field: Type, ... }`.
pub open spec fn entity_line(name: Seq<char>, e: EntitySchema) -> Seq<char> {
    "entity "@ + name + " { "@ + field_list(e.fields.pairs(), e.fields.pairs().len() as int) + " }"@
}

/// The lines of the first `n` entities, separated by newlines.
pub open spec fn entity_lines(es: Seq<(String, EntitySchema)>, n: int) -> Seq<char>
    decreases n,
{
    if n <= 0 || n > es.len() {
        Seq::empty()
    } else if n == 1 {
        entity_line(es[0].0@, es[0].1)
    } else {
        entity_lines(es, n - 1) + "\n"@ + entity_line(es[n - 1].0@, es[n - 1].1)
    }
}

/// The declared entities and their fields, one entity per line in the order
/// of declaration.
pub open spec fn describe(s: Schema) -> Seq<char> {
    if s.entities.pairs().len() == 0 {
        "(no entities declared)"@
    } else {
        entity_lines(s.entities.pairs(), s.entities.pairs().len() as int)
    }
}

fn describe_entity(name: &String, e: &EntitySchema) -> (s: String)
    requires
        e.fields.wf(),
    ensures
        s@ == entity_line(name@, *e),
{
    let mut fields = String::new();
    let n = e.fields.len();
    let mut i: usize = 0;
    while i < n
        invariant
            n == e.fields.pairs().len(),
            i <= n,
            fields@ == field_list(e.fields.pairs(), i as int),
        decreases n - i,
    {
        if i > 0 {
            fields.append(", ");
        }
        let ghost before = fields@;
        fields.append(e.fields.key_at(i).as_str());
        fields.append(": ");
        let t = ty_debug(&e.fields.value_at(i).ty);
        fields.append(t.as_str());
        if i == 0 {
            assert(fields@ =~= e.fields.pairs()[0].0@ + ": "@ + ty_debug_text(e.fields.pairs()[0].1.ty));
        }
        i += 1;
    }
    let mut s = String::from_str("entity ");
    s.append(name.as_str());
    s.append(" { ");
    s.append(fields.as_str());
    s.append(" }");
    s
}

/// What `:schema` shows: every declared entity with its fields.
pub fn schema_cmd(schema: &Schema) -> (s: String)
    requires
        schema.wf(),
    ensures
        s@ == describe(*schema),
{
    let n = schema.entities.len();
    if n == 0 {
        return String::from_str("(no entities declared)");
    }
    let mut out = String::new();
    let mut i: usize = 0;
    while i < n
        invariant
            n == schema.entities.pairs().len(),
            i <= n,
            out@ == entity_lines(schema.entities.pairs(), i as int),
            schema.wf(),
        decreases n - i,
    {
        proof {
            crate::assoc::lemma_pair_in_map(schema.entities.pairs(), i as int);
        }
        if i > 0 {
            out.append("\n");
        }
        let line = describe_entity(schema.entities.key_at(i), schema.entities.value_at(i));
        if i == 0 {
            assert(out@ + line@ =~= line@);
        }
        out.append(line.as_str());
        i += 1;
    }
    out
}

/// The reply to `:load` or `:save` without a path.
pub fn usage_reply(load: bool) -> (s: String)
    ensures
        s@ == if load {
            "Usage: :load <file.lum>"@
        } else {
            "Usage: :save <file.lum>"@
        },
{
    if load {
        String::from_str("Usage: :load <file.lum>")
    } else {
        String::from_str("Usage: :save <file.lum>")
    }
}

} // verus!
