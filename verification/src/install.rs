use vstd::prelude::*;
use crate::cli::{char_is_ws, is_ws, leading_ws, trim_str, trimmed};
use crate::format::{join, join_strings};
use crate::text::{lemma_split_on_nonempty, split_on, split_pieces, str_eq, views};

verus! {

/// What the self-update does once it knows the latest released version.
#[derive(Debug, Clone, Copy, PartialEq, Eq, Structural)]
pub enum UpdateStep {
    /// Nothing to do: this version is the latest.
    UpToDate,
    /// Only checking, and a newer version exists.
    Available,
    /// Install the latest version.
    Install,
    /// Install this same version again, as asked.
    Reinstall,
}

/// The step for the latest and the running version: equal versions need
/// nothing unless forced; a check only reports; otherwise install.
pub open spec fn update_step(latest: Seq<char>, current: Seq<char>, force: bool, check_only: bool) -> UpdateStep {
    if latest == current && !force {
        UpdateStep::UpToDate
    } else if check_only {
        if latest == current {
            UpdateStep::UpToDate
        } else {
            UpdateStep::Available
        }
    } else if latest != current {
        UpdateStep::Install
    } else {
        UpdateStep::Reinstall
    }
}

/// The platform part of the release file names, empty where no release is built.
pub open spec fn platform_text(os: Seq<char>, arch: Seq<char>) -> Seq<char> {
    if os == "linux"@ && arch == "x86_64"@ {
        "linux-x64"@
    } else if os == "linux"@ && arch == "aarch64"@ {
        "linux-arm64"@
    } else if os == "macos"@ && arch == "x86_64"@ {
        "macos-x64"@
    } else if os == "macos"@ && arch == "aarch64"@ {
        "macos-arm64"@
    } else if os == "windows"@ && arch == "x86_64"@ {
        "windows-x64"@
    } else {
        Seq::empty()
    }
}

/// The released files to fetch, each with the name it is installed under:
/// the command line tool and the language server.
pub open spec fn artifact_names(platform: Seq<char>, windows: bool) -> Seq<(Seq<char>, Seq<char>)> {
    if windows {
        seq![
            ("lumina-"@ + platform + ".exe"@, "lumina.exe"@),
            ("lumina-"@ + platform + "-lsp.exe"@, "lumina-lsp.exe"@),
        ]
    } else {
        seq![("lumina-"@ + platform, "lumina"@), ("lumina-"@ + platform + "-lsp"@, "lumina-lsp"@)]
    }
}

/// The length of the run of non-whitespace characters `s` starts with.
pub open spec fn token_len(s: Seq<char>) -> int
    decreases s.len(),
{
    if s.len() == 0 || is_ws(s[0]) {
        0
    } else {
        1 + token_len(s.drop_first())
    }
}

/// The first whitespace-separated word of `s`, empty if it has none.
pub open spec fn first_word(s: Seq<char>) -> Seq<char> {
    let rest = s.skip(leading_ws(s));
    rest.take(token_len(rest))
}

/// What the self-update does for the latest and the running version.
pub fn plan_update(latest: &str, current: &str, force: bool, check_only: bool) -> (r: UpdateStep)
    ensures
        r == update_step(latest@, current@, force, check_only),
{
    let same = str_eq(latest, current);
    if same && !force {
        UpdateStep::UpToDate
    } else if check_only {
        if same {
            UpdateStep::UpToDate
        } else {
            UpdateStep::Available
        }
    } else if !same {
        UpdateStep::Install
    } else {
        UpdateStep::Reinstall
    }
}

/// The platform part of the release file names for an operating system and
/// architecture, empty where no release is built.
pub fn platform_for(os: &str, arch: &str) -> (r: String)
    ensures
        r@ == platform_text(os@, arch@),
{
    if str_eq(os, "linux") && str_eq(arch, "x86_64") {
        String::from_str("linux-x64")
    } else if str_eq(os, "linux") && str_eq(arch, "aarch64") {
        String::from_str("linux-arm64")
    } else if str_eq(os, "macos") && str_eq(arch, "x86_64") {
        String::from_str("macos-x64")
    } else if str_eq(os, "macos") && str_eq(arch, "aarch64") {
        String::from_str("macos-arm64")
    } else if str_eq(os, "windows") && str_eq(arch, "x86_64") {
        String::from_str("windows-x64")
    } else {
        String::new()
    }
}

fn joined(a: &str, b: &str, c: &str) -> (s: String)
    ensures
        s@ == a@ + b@ + c@,
{
    let mut s = String::from_str(a);
    s.append(b);
    s.append(c);
    s
}

/// The released files to fetch for a platform, each with its installed name.
pub fn release_artifacts(platform: &str, windows: bool) -> (r: Vec<(String, String)>)
    ensures
        r@.map_values(|p: (String, String)| (p.0@, p.1@)) == artifact_names(platform@, windows),
{
    let mut out: Vec<(String, String)> = Vec::new();
    if windows {
        out.push((joined("lumina-", platform, ".exe"), String::from_str("lumina.exe")));
        out.push((joined("lumina-", platform, "-lsp.exe"), String::from_str("lumina-lsp.exe")));
    } else {
        out.push((joined("lumina-", platform, ""), String::from_str("lumina")));
        out.push((joined("lumina-", platform, "-lsp"), String::from_str("lumina-lsp")));
        proof {
            reveal_strlit("");
            assert(""@ =~= Seq::<char>::empty());
            assert(out@[0].0@ =~= "lumina-"@ + platform@);
        }
    }
    assert(out@.map_values(|p: (String, String)| (p.0@, p.1@)) =~= artifact_names(
        platform@,
        windows,
    ));
    out
}

/// The checksum a `.sha256` file gives: its first word.
pub fn expected_checksum(content: &str) -> (r: String)
    ensures
        r@ == first_word(content@),
{
    let n = content.unicode_len();
    let mut lo: usize = 0;
    assert(content@.skip(0) =~= content@);
    while lo < n && char_is_ws(content.get_char(lo))
        invariant
            n == content@.len(),
            lo <= n,
            leading_ws(content@) == lo + leading_ws(content@.skip(lo as int)),
        decreases n - lo,
    {
        assert(content@.skip(lo as int)[0] == content@[lo as int]);
        assert(content@.skip(lo as int).drop_first() =~= content@.skip(lo + 1));
        lo += 1;
    }
    assert(leading_ws(content@.skip(lo as int)) == 0);
    let ghost rest = content@.skip(lo as int);
    let mut hi: usize = lo;
    assert(rest.skip(0) =~= rest);
    while hi < n && !char_is_ws(content.get_char(hi))
        invariant
            n == content@.len(),
            lo <= hi <= n,
            rest == content@.skip(lo as int),
            token_len(rest) == (hi - lo) + token_len(rest.skip(hi - lo)),
        decreases n - hi,
    {
        assert(rest.skip(hi - lo)[0] == content@[hi as int]);
        assert(rest.skip(hi - lo).drop_first() =~= rest.skip(hi - lo + 1));
        hi += 1;
    }
    assert(token_len(rest.skip(hi - lo)) == 0);
    assert(rest.take(token_len(rest)) =~= content@.subrange(lo as int, hi as int));
    String::from_str(content.substring_char(lo, hi))
}

// ---- shell profiles ---------------------------------------------------------------

/// `t` occurs in `s`.
pub open spec fn contains_text(s: Seq<char>, t: Seq<char>) -> bool {
    exists|i: int| 0 <= i && i + t.len() <= s.len() && #[trigger] s.subrange(i, i + t.len()) == t
}

/// A line that the installer added to a shell profile.
pub open spec fn installer_line(l: Seq<char>) -> bool {
    contains_text(l, ".lumina/bin"@) || contains_text(l, ".lumina/env"@) || trimmed(l) == "# Lumina"@
}

/// The lines of a text as `str::lines` gives them: split at each `\n`, a
/// `\r` before it dropped, and no empty line after a final `\n`.
pub open spec fn text_lines(s: Seq<char>) -> Seq<Seq<char>> {
    let p = split_on(s, '\n');
    let body = if p.last().len() == 0 {
        p.drop_last()
    } else {
        p
    };
    body.map(
        |i: int, l: Seq<char>|
            if i < p.len() - 1 && l.len() > 0 && l.last() == '\r' {
                l.drop_last()
            } else {
                l
            },
    )
}

/// The lines that stay, in order.
pub open spec fn kept_lines(ls: Seq<Seq<char>>) -> Seq<Seq<char>>
    decreases ls.len(),
{
    if ls.len() == 0 {
        Seq::empty()
    } else if installer_line(ls.last()) {
        kept_lines(ls.drop_last())
    } else {
        kept_lines(ls.drop_last()).push(ls.last())
    }
}

/// A profile without the installer's lines, its other lines joined by `\n`.
pub open spec fn cleaned_profile(s: Seq<char>) -> Seq<char> {
    join(kept_lines(text_lines(s)), "\n"@)
}

/// Whether `t` occurs in `s`.
pub fn contains_str(s: &str, t: &str) -> (r: bool)
    ensures
        r == contains_text(s@, t@),
{
    let n = s.unicode_len();
    let m = t.unicode_len();
    if m > n {
        proof {
            assert forall|i: int| 0 <= i && i + t@.len() <= s@.len() implies #[trigger] s@.subrange(
                i,
                i + t@.len(),
            ) != t@ by {}
        }
        return false;
    }
    let last = n - m;
    let mut i: usize = 0;
    while i < last
        invariant
            n == s@.len(),
            m == t@.len(),
            m <= n,
            last == n - m,
            i <= last,
            forall|j: int| 0 <= j < i ==> #[trigger] s@.subrange(j, j + m) != t@,
        decreases last - i,
    {
        if str_eq(s.substring_char(i, i + m), t) {
            return true;
        }
        i += 1;
    }
    if str_eq(s.substring_char(last, n), t) {
        assert(s@.subrange(last as int, last + t@.len()) == t@);
        return true;
    }
    proof {
        assert forall|j: int| 0 <= j && j + t@.len() <= s@.len() implies #[trigger] s@.subrange(
            j,
            j + t@.len(),
        ) != t@ by {
            if j == last {
            }
        }
    }
    false
}

fn is_installer_line(l: &str) -> (r: bool)
    ensures
        r == installer_line(l@),
{
    if contains_str(l, ".lumina/bin") || contains_str(l, ".lumina/env") {
        return true;
    }
    let t = trim_str(l);
    str_eq(t.as_str(), "# Lumina")
}

/// The lines of a text, as `str::lines` gives them.
pub fn lines_of(s: &str) -> (r: Vec<String>)
    ensures
        views(r@) == text_lines(s@),
{
    let pieces = split_pieces(s, '\n');
    let ghost p = split_on(s@, '\n');
    proof {
        lemma_split_on_nonempty(s@, '\n');
    }
    let total = pieces.len();
    let n = if pieces[total - 1].unicode_len() == 0 {
        total - 1
    } else {
        total
    };
    let mut out: Vec<String> = Vec::new();
    let mut i: usize = 0;
    assert(text_lines(s@).len() == n);
    while i < n
        invariant
            views(pieces@) == p,
            p == split_on(s@, '\n'),
            text_lines(s@).len() == n,
            total == p.len(),
            total >= 1,
            n == if p.last().len() == 0 {
                total - 1
            } else {
                total as int
            },
            i <= n,
            views(out@) == text_lines(s@).take(i as int),
        decreases n - i,
    {
        let piece = &pieces[i];
        let k = piece.unicode_len();
        let line = if i + 1 < total && k > 0 && piece.as_str().get_char(k - 1) == '\r' {
            String::from_str(piece.as_str().substring_char(0, k - 1))
        } else {
            piece.clone()
        };
        proof {
            assert(p[i as int] == pieces@[i as int]@);
        }
        let ghost before = out@;
        out.push(line);
        assert(views(out@) =~= views(before).push(line@));
        assert(text_lines(s@).take(i + 1) =~= text_lines(s@).take(i as int).push(text_lines(s@)[i as int]));
        i += 1;
    }
    assert(text_lines(s@).take(n as int) =~= text_lines(s@));
    out
}

/// A shell profile without the lines the installer added: the new contents
/// to write (the kept lines, each ended by `\n`), or nothing when no line goes.
pub fn clean_profile(contents: &str) -> (r: Option<String>)
    ensures
        match r {
            Some(c) => cleaned_profile(contents@) != contents@ && c@ == cleaned_profile(contents@)
                + "\n"@,
            None => cleaned_profile(contents@) == contents@,
        },
{
    let lines = lines_of(contents);
    let mut kept: Vec<String> = Vec::new();
    let n = lines.len();
    let mut i: usize = 0;
    while i < n
        invariant
            n == lines@.len(),
            i <= n,
            views(kept@) == kept_lines(views(lines@).take(i as int)),
        decreases n - i,
    {
        assert(views(lines@).take(i + 1).drop_last() =~= views(lines@).take(i as int));
        assert(views(lines@).take(i + 1).last() == lines@[i as int]@);
        if !is_installer_line(lines[i].as_str()) {
            let ghost before = kept@;
            kept.push(lines[i].clone());
            assert(views(kept@) =~= views(before).push(lines@[i as int]@));
        }
        i += 1;
    }
    assert(views(lines@).take(n as int) =~= views(lines@));
    let cleaned = join_strings(&kept, "\n");
    if str_eq(cleaned.as_str(), contents) {
        None
    } else {
        let mut out = cleaned;
        out.append("\n");
        Some(out)
    }
}

/// The string held by member `key` of the JSON object written in `text`;
/// `None` when `text` is not JSON, holds no object, or the member is missing
/// or not a string.
pub uninterp spec fn json_string_member(text: Seq<char>, key: Seq<char>) -> Option<Seq<char>>;

/// Parses `text` with `serde_json::from_str` into a `serde_json::Value`, then
/// reads member `key` with `Value::get` and `Value::as_str`. The contract
/// names the result and says no more: which texts are JSON, and what they
/// hold, is serde_json's to decide.
#[verifier::external_body]
fn json_string_member_of(text: &str, key: &str) -> (r: Option<String>)
    ensures
        r matches Some(s) ==> json_string_member(text@, key@) == Some(s@),
        r is None ==> json_string_member(text@, key@) is None,
{
    let v: serde_json::Value = serde_json::from_str(text).ok()?;
    v.get(key)?.as_str().map(|s| s.to_string())
}

/// The `tag_name` of a releases API reply, when the reply is a JSON object
/// with a string `tag_name`.
pub fn parse_latest_tag(json: &str) -> (r: Option<String>)
    ensures
        r matches Some(s) ==> json_string_member(json@, "tag_name"@) == Some(s@),
        r is None ==> json_string_member(json@, "tag_name"@) is None,
{
    json_string_member_of(json, "tag_name")
}

} // verus!
