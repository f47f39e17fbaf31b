use vstd::prelude::*;

verus! {

/// The decimal digits of `n`, most significant first, without leading zeros
/// ("0" for zero).
pub open spec fn decimal(n: nat) -> Seq<char>
    decreases n,
{
    if n < 10 {
        seq![digit_char(n)]
    } else {
        decimal(n / 10).push(digit_char(n % 10))
    }
}

pub open spec fn digit_char(d: nat) -> char {
    if d == 0 {
        '0'
    } else if d == 1 {
        '1'
    } else if d == 2 {
        '2'
    } else if d == 3 {
        '3'
    } else if d == 4 {
        '4'
    } else if d == 5 {
        '5'
    } else if d == 6 {
        '6'
    } else if d == 7 {
        '7'
    } else if d == 8 {
        '8'
    } else {
        '9'
    }
}

/// A lowercase hexadecimal digit.
pub open spec fn hex_char(d: nat) -> char {
    if d < 10 {
        digit_char(d)
    } else if d == 10 {
        'a'
    } else if d == 11 {
        'b'
    } else if d == 12 {
        'c'
    } else if d == 13 {
        'd'
    } else if d == 14 {
        'e'
    } else {
        'f'
    }
}

/// The lowercase hexadecimal digits of `n`, without leading zeros.
pub open spec fn hex(n: nat) -> Seq<char>
    decreases n,
{
    if n < 16 {
        seq![hex_char(n)]
    } else {
        hex(n / 16).push(hex_char(n % 16))
    }
}

/// How `{:?}` shows a character inside a string: quotes, backslashes and the
/// named control characters by their escapes, the other ASCII controls as
/// `\u{..}` in hexadecimal. Every other character is shown as it is (where
/// Rust's `{:?}` would escape a non-ASCII character, this does not).
pub open spec fn char_debug(c: char) -> Seq<char> {
    if c == '\0' {
        "\\0"@
    } else if c == '\t' {
        "\\t"@
    } else if c == '\r' {
        "\\r"@
    } else if c == '\n' {
        "\\n"@
    } else if c == '\\' {
        "\\\\"@
    } else if c == '"' {
        "\\\""@
    } else if (c as u32) < 0x20 || (c as u32) == 0x7f {
        "\\u{"@ + hex(c as nat) + "}"@
    } else {
        seq![c]
    }
}

/// The characters of `s` as `{:?}` shows them inside the quotes.
pub open spec fn str_debug_body(s: Seq<char>) -> Seq<char>
    decreases s.len(),
{
    if s.len() == 0 {
        Seq::empty()
    } else {
        str_debug_body(s.drop_last()) + char_debug(s.last())
    }
}

/// A string as `{:?}` shows it: in double quotes, escaped.
pub open spec fn str_debug(s: Seq<char>) -> Seq<char> {
    "\""@ + str_debug_body(s) + "\""@
}

/// One hexadecimal digit as a string.
fn hex_digit_string(d: u32) -> (s: String)
    requires
        d < 16,
    ensures
        s@ == seq![hex_char(d as nat)],
{
    let digits = "0123456789abcdef";
    proof {
        reveal_strlit("0123456789abcdef");
    }
    let one = digits.substring_char(d as usize, (d + 1) as usize);
    assert(one@ =~= seq![hex_char(d as nat)]);
    String::from_str(one)
}

/// How `{:?}` shows the character `c`, whose text is `one`.
fn char_debug_string(c: char, one: &str) -> (r: String)
    requires
        one@ == seq![c],
    ensures
        r@ == char_debug(c),
{
    if c == '\0' {
        String::from_str("\\0")
    } else if c == '\t' {
        String::from_str("\\t")
    } else if c == '\r' {
        String::from_str("\\r")
    } else if c == '\n' {
        String::from_str("\\n")
    } else if c == '\\' {
        String::from_str("\\\\")
    } else if c == '"' {
        String::from_str("\\\"")
    } else if (c as u32) < 0x20 || (c as u32) == 0x7f {
        let n = c as u32;
        let mut s = String::from_str("\\u{");
        if n >= 16 {
            let hi = hex_digit_string(n / 16);
            s.append(hi.as_str());
        }
        let lo = hex_digit_string(n % 16);
        s.append(lo.as_str());
        s.append("}");
        proof {
            if n >= 16 {
                assert(hex((n / 16) as nat) == seq![hex_char((n / 16) as nat)]);
            }
        }
        s
    } else {
        String::from_str(one)
    }
}

/// A string as `{:?}` shows it: in double quotes, escaped.
pub fn debug_quoted(s: &str) -> (r: String)
    ensures
        r@ == str_debug(s@),
{
    let n = s.unicode_len();
    let mut body = String::new();
    let mut i: usize = 0;
    while i < n
        invariant
            n == s@.len(),
            i <= n,
            body@ == str_debug_body(s@.take(i as int)),
        decreases n - i,
    {
        let one = s.substring_char(i, i + 1);
        let c = s.get_char(i);
        assert(one@ =~= seq![c]);
        let e = char_debug_string(c, one);
        body.append(e.as_str());
        assert(s@.take(i + 1).drop_last() =~= s@.take(i as int));
        i += 1;
    }
    assert(s@.take(n as int) =~= s@);
    let mut r = String::from_str("\"");
    r.append(body.as_str());
    r.append("\"");
    r
}

/// A string of one decimal digit.
fn digit_string(d: u64) -> (s: String)
    requires
        d < 10,
    ensures
        s@ == seq![digit_char(d as nat)],
{
    let digits = "0123456789";
    proof {
        reveal_strlit("0123456789");
    }
    let one = digits.substring_char(d as usize, (d + 1) as usize);
    assert(one@ =~= seq![digit_char(d as nat)]);
    String::from_str(one)
}

/// Decimal rendering of an unsigned integer, as `to_string` gives it.
pub fn u64_to_decimal(n: u64) -> (s: String)
    ensures
        s@ == decimal(n as nat),
    decreases n,
{
    if n < 10 {
        digit_string(n)
    } else {
        let mut s = u64_to_decimal(n / 10);
        let d = digit_string(n % 10);
        s.append(d.as_str());
        s
    }
}

/// Whether two strings hold the same characters.
pub fn str_eq(a: &str, b: &str) -> (r: bool)
    ensures
        r == (a@ == b@),
{
    let n = a.unicode_len();
    let m = b.unicode_len();
    if n != m {
        return false;
    }
    let mut i: usize = 0;
    while i < n
        invariant
            n == a@.len(),
            n == b@.len(),
            i <= n,
            forall|j: int| 0 <= j < i ==> a@[j] == b@[j],
        decreases n - i,
    {
        if a.get_char(i) != b.get_char(i) {
            return false;
        }
        i += 1;
    }
    assert(a@ =~= b@);
    true
}

/// Two pieces of text, one after the other.
pub fn cat2(a: &str, b: &str) -> (s: String)
    ensures
        s@ == a@ + b@,
{
    let mut s = String::from_str(a);
    s.append(b);
    s
}

/// Three pieces of text, one after the other.
pub fn cat3(a: &str, b: &str, c: &str) -> (s: String)
    ensures
        s@ == a@ + b@ + c@,
{
    let mut s = cat2(a, b);
    s.append(c);
    s
}

/// Four pieces of text, one after the other.
pub fn cat4(a: &str, b: &str, c: &str, d: &str) -> (s: String)
    ensures
        s@ == a@ + b@ + c@ + d@,
{
    let mut s = cat3(a, b, c);
    s.append(d);
    s
}

/// Five pieces of text, one after the other.
pub fn cat5(a: &str, b: &str, c: &str, d: &str, e: &str) -> (s: String)
    ensures
        s@ == a@ + b@ + c@ + d@ + e@,
{
    let mut s = cat4(a, b, c, d);
    s.append(e);
    s
}

/// Six pieces of text, one after the other.
pub fn cat6(a: &str, b: &str, c: &str, d: &str, e: &str, f: &str) -> (s: String)
    ensures
        s@ == a@ + b@ + c@ + d@ + e@ + f@,
{
    let mut s = cat5(a, b, c, d, e);
    s.append(f);
    s
}

/// Seven pieces of text, one after the other.
pub fn cat7(a: &str, b: &str, c: &str, d: &str, e: &str, f: &str, g: &str) -> (s: String)
    ensures
        s@ == a@ + b@ + c@ + d@ + e@ + f@ + g@,
{
    let mut s = cat6(a, b, c, d, e, f);
    s.append(g);
    s
}

/// The position of the first `c` in `s`, if any.
pub open spec fn first_index_of(s: Seq<char>, c: char) -> Option<int>
    decreases s.len(),
{
    if s.len() == 0 {
        None
    } else if s[0] == c {
        Some(0)
    } else {
        match first_index_of(s.drop_first(), c) {
            Some(i) => Some(i + 1),
            None => None,
        }
    }
}

pub proof fn lemma_first_index_of(s: Seq<char>, c: char)
    ensures
        match first_index_of(s, c) {
            Some(i) => 0 <= i < s.len() && s[i] == c && forall|j: int| 0 <= j < i ==> s[j] != c,
            None => forall|j: int| 0 <= j < s.len() ==> s[j] != c,
        },
    decreases s.len(),
{
    if s.len() > 0 {
        lemma_first_index_of(s.drop_first(), c);
        if s[0] != c {
            match first_index_of(s.drop_first(), c) {
                Some(i) => {
                    assert forall|j: int| 0 <= j < i + 1 implies s[j] != c by {
                        if j > 0 {
                            assert(s[j] == s.drop_first()[j - 1]);
                        }
                    }
                },
                None => {
                    assert forall|j: int| 0 <= j < s.len() implies s[j] != c by {
                        if j > 0 {
                            assert(s[j] == s.drop_first()[j - 1]);
                        }
                    }
                },
            }
        }
    }
}

/// The pieces of `s` between the occurrences of `c`, as `str::split` gives
/// them (one empty piece for an empty text).
pub open spec fn split_on(s: Seq<char>, c: char) -> Seq<Seq<char>>
    decreases s.len(),
{
    if s.len() == 0 {
        seq![Seq::<char>::empty()]
    } else {
        let rest = split_on(s.drop_last(), c);
        if s.last() == c {
            rest.push(Seq::empty())
        } else {
            rest.update(rest.len() - 1, rest.last().push(s.last()))
        }
    }
}

/// Splitting gives at least one piece.
pub proof fn lemma_split_on_nonempty(s: Seq<char>, c: char)
    ensures
        split_on(s, c).len() >= 1,
    decreases s.len(),
{
    if s.len() > 0 {
        lemma_split_on_nonempty(s.drop_last(), c);
    }
}

/// The pieces of `s` between the occurrences of `c`.
pub fn split_pieces(s: &str, c: char) -> (r: Vec<String>)
    ensures
        views(r@) == split_on(s@, c),
{
    let n = s.unicode_len();
    let mut out: Vec<String> = Vec::new();
    let mut start: usize = 0;
    let mut i: usize = 0;
    while i < n
        invariant
            n == s@.len(),
            start <= i <= n,
            split_on(s@.take(i as int), c).len() >= 1,
            views(out@) == split_on(s@.take(i as int), c).drop_last(),
            split_on(s@.take(i as int), c).last() == s@.subrange(start as int, i as int),
        decreases n - i,
    {
        let ghost prev = split_on(s@.take(i as int), c);
        assert(s@.take(i + 1).drop_last() =~= s@.take(i as int));
        assert(s@.take(i + 1).last() == s@[i as int]);
        let ch = s.get_char(i);
        if ch == c {
            let piece = String::from_str(s.substring_char(start, i));
            let ghost before = out@;
            out.push(piece);
            assert(views(out@) =~= views(before).push(piece@));
            assert(views(out@) =~= split_on(s@.take(i + 1), c).drop_last());
            start = i + 1;
            assert(split_on(s@.take(i + 1), c).last() =~= s@.subrange(start as int, i + 1));
        } else {
            assert(split_on(s@.take(i + 1), c).last() =~= s@.subrange(start as int, i + 1));
            assert(split_on(s@.take(i + 1), c).drop_last() =~= prev.drop_last());
        }
        i += 1;
    }
    let last = String::from_str(s.substring_char(start, n));
    let ghost before = out@;
    out.push(last);
    assert(s@.take(n as int) =~= s@);
    assert(views(out@) =~= views(before).push(last@));
    assert(views(out@) =~= split_on(s@, c));
    out
}


/// Splits `s` at the first `c`: the text before it and the text after it.
pub fn split_once_char(s: &str, c: char) -> (r: Option<(String, String)>)
    ensures
        match first_index_of(s@, c) {
            Some(i) => r matches Some((a, b)) && a@ == s@.subrange(0, i) && b@ == s@.subrange(
                i + 1,
                s@.len() as int,
            ),
            None => r is None,
        },
{
    proof {
        lemma_first_index_of(s@, c);
    }
    let n = s.unicode_len();
    let mut i: usize = 0;
    while i < n
        invariant
            n == s@.len(),
            i <= n,
            forall|j: int| 0 <= j < i ==> s@[j] != c,
        decreases n - i,
    {
        if s.get_char(i) == c {
            proof {
                lemma_first_index_of(s@, c);
                match first_index_of(s@, c) {
                    Some(k) => {
                        assert(k == i);
                    },
                    None => {},
                }
            }
            let a = String::from_str(s.substring_char(0, i));
            let b = String::from_str(s.substring_char(i + 1, n));
            return Some((a, b));
        }
        i += 1;
    }
    None
}


/// Lexicographic order on characters by code point; for UTF-8 text it is the
/// order in which `String`'s `Ord` compares bytes.
pub open spec fn seq_lt(a: Seq<char>, b: Seq<char>) -> bool
    decreases a.len(),
{
    if a.len() == 0 {
        b.len() > 0
    } else if b.len() == 0 {
        false
    } else if a[0] < b[0] {
        true
    } else if a[0] == b[0] {
        seq_lt(a.drop_first(), b.drop_first())
    } else {
        false
    }
}

pub proof fn lemma_seq_lt_irreflexive(a: Seq<char>)
    ensures
        !seq_lt(a, a),
    decreases a.len(),
{
    if a.len() > 0 {
        lemma_seq_lt_irreflexive(a.drop_first());
    }
}

pub proof fn lemma_seq_lt_asymmetric(a: Seq<char>, b: Seq<char>)
    ensures
        !(seq_lt(a, b) && seq_lt(b, a)),
    decreases a.len(),
{
    if a.len() > 0 && b.len() > 0 && a[0] == b[0] {
        lemma_seq_lt_asymmetric(a.drop_first(), b.drop_first());
    }
}

pub proof fn lemma_seq_lt_transitive(a: Seq<char>, b: Seq<char>, c: Seq<char>)
    requires
        seq_lt(a, b),
        seq_lt(b, c),
    ensures
        seq_lt(a, c),
    decreases a.len(),
{
    if a.len() > 0 && b.len() > 0 && c.len() > 0 && a[0] == b[0] && b[0] == c[0] {
        lemma_seq_lt_transitive(a.drop_first(), b.drop_first(), c.drop_first());
    }
}

pub proof fn lemma_seq_lt_total(a: Seq<char>, b: Seq<char>)
    ensures
        a != b ==> seq_lt(a, b) || seq_lt(b, a),
    decreases a.len(),
{
    if a.len() > 0 && b.len() > 0 && a[0] == b[0] {
        lemma_seq_lt_total(a.drop_first(), b.drop_first());
        if a != b {
            assert(a.drop_first() != b.drop_first()) by {
                if a.drop_first() == b.drop_first() {
                    assert(a =~= seq![a[0]] + a.drop_first());
                    assert(b =~= seq![b[0]] + b.drop_first());
                }
            }
        }
    } else if a.len() == 0 && b.len() == 0 {
        assert(a =~= b);
    }
}

/// Whether `a` sorts before `b`.
pub fn str_lt(a: &str, b: &str) -> (r: bool)
    ensures
        r == seq_lt(a@, b@),
{
    let n = a.unicode_len();
    let m = b.unicode_len();
    let mut i: usize = 0;
    assert(a@.skip(0) =~= a@ && b@.skip(0) =~= b@);
    while i < n && i < m
        invariant
            n == a@.len(),
            m == b@.len(),
            i <= n,
            i <= m,
            forall|j: int| 0 <= j < i ==> a@[j] == b@[j],
            seq_lt(a@, b@) == seq_lt(a@.skip(i as int), b@.skip(i as int)),
        decreases n - i,
    {
        let x = a.get_char(i);
        let y = b.get_char(i);
        proof {
            assert(a@.skip(i as int)[0] == x);
            assert(b@.skip(i as int)[0] == y);
            assert(a@.skip(i as int).drop_first() =~= a@.skip(i + 1));
            assert(b@.skip(i as int).drop_first() =~= b@.skip(i + 1));
        }
        if x < y {
            return true;
        }
        if x != y {
            return false;
        }
        i += 1;
    }
    i < m
}

/// The views of a list of strings.
pub open spec fn views(v: Seq<String>) -> Seq<Seq<char>> {
    v.map_values(|s: String| s@)
}

/// Strictly increasing in `seq_lt`.
pub open spec fn strictly_sorted(s: Seq<Seq<char>>) -> bool {
    forall|i: int, j: int| 0 <= i < j < s.len() ==> seq_lt(#[trigger] s[i], #[trigger] s[j])
}

pub open spec fn distinct(s: Seq<Seq<char>>) -> bool {
    forall|i: int, j: int| 0 <= i < j < s.len() ==> #[trigger] s[i] != #[trigger] s[j]
}

pub proof fn lemma_push_to_set<T>(s: Seq<T>, x: T)
    ensures
        s.push(x).to_set() == s.to_set().insert(x),
{
    assert forall|y: T| s.push(x).to_set().contains(y) implies s.to_set().insert(x).contains(y) by {
        let k = choose|k: int| 0 <= k < s.push(x).len() && s.push(x)[k] == y;
        if k < s.len() {
            assert(s[k] == y);
        }
    }
    assert forall|y: T| s.to_set().insert(x).contains(y) implies s.push(x).to_set().contains(y) by {
        if y == x {
            assert(s.push(x)[s.len() as int] == y);
        } else {
            let k = choose|k: int| 0 <= k < s.len() && s[k] == y;
            assert(s.push(x)[k] == y);
        }
    }
    assert(s.push(x).to_set() =~= s.to_set().insert(x));
}

/// The strings of `v`, each once, in sorted order.
pub fn sort_strings(v: Vec<String>) -> (r: Vec<String>)
    requires
        distinct(views(v@)),
    ensures
        strictly_sorted(views(r@)),
        views(r@).to_set() == views(v@).to_set(),
        r@.len() == v@.len(),
{
    let mut out: Vec<String> = Vec::new();
    let n = v.len();
    let mut i: usize = 0;
    while i < n
        invariant
            n == v@.len(),
            i <= n,
            distinct(views(v@)),
            out@.len() == i,
            strictly_sorted(views(out@)),
            views(out@).to_set() == views(v@.take(i as int)).to_set(),
        decreases n - i,
    {
        let name = v[i].clone();
        let m = out.len();
        let mut p: usize = 0;
        while p < m && !str_lt(name.as_str(), out[p].as_str())
            invariant
                m == out@.len(),
                p <= m,
                forall|j: int| 0 <= j < p ==> !seq_lt(name@, #[trigger] out@[j]@),
            decreases m - p,
        {
            p += 1;
        }
        proof {
            assert(name@ == views(v@)[i as int]);
            assert forall|j: int| 0 <= j < m implies #[trigger] out@[j]@ != name@ by {
                assert(views(out@).to_set().contains(views(out@)[j]));
                assert(views(v@.take(i as int)).to_set().contains(out@[j]@));
                let k = choose|k: int| 0 <= k < i && views(v@.take(i as int))[k] == out@[j]@;
                assert(views(v@)[k] == out@[j]@);
            }
            assert forall|j: int| 0 <= j < p implies seq_lt(#[trigger] out@[j]@, name@) by {
                lemma_seq_lt_total(out@[j]@, name@);
            }
            assert forall|j: int| p <= j < m implies seq_lt(name@, #[trigger] out@[j]@) by {
                if p < m {
                    assert(seq_lt(name@, out@[p as int]@));
                    if j > p {
                        assert(seq_lt(views(out@)[p as int], views(out@)[j]));
                        lemma_seq_lt_transitive(name@, out@[p as int]@, out@[j]@);
                    }
                }
            }
        }
        let ghost before = out@;
        out.insert(p, name);
        proof {
            assert(views(out@) =~= views(before).insert(p as int, name@));
            assert forall|a: int, b: int| 0 <= a < b < views(out@).len() implies seq_lt(
                #[trigger] views(out@)[a],
                #[trigger] views(out@)[b],
            ) by {
                if a < p && b < p {
                    assert(seq_lt(views(before)[a], views(before)[b]));
                } else if a < p && b == p {
                } else if a < p && b > p {
                    assert(seq_lt(views(before)[a], views(before)[b - 1]));
                } else if a == p {
                } else {
                    assert(seq_lt(views(before)[a - 1], views(before)[b - 1]));
                }
            }
            assert(v@.take(i + 1) =~= v@.take(i as int).push(v@[i as int]));
            assert(views(v@.take(i + 1)) =~= views(v@.take(i as int)).push(name@));
            assert(views(out@).to_set() =~= views(before).to_set().insert(name@)) by {
                assert forall|x: Seq<char>| views(out@).to_set().contains(x) implies views(
                    before,
                ).to_set().insert(name@).contains(x) by {
                    let k = choose|k: int| 0 <= k < views(out@).len() && views(out@)[k] == x;
                    if k < p {
                        assert(views(before)[k] == x);
                    } else if k > p {
                        assert(views(before)[k - 1] == x);
                    }
                }
                assert forall|x: Seq<char>| views(before).to_set().insert(name@).contains(x) implies views(
                    out@,
                ).to_set().contains(x) by {
                    if x == name@ {
                        assert(views(out@)[p as int] == x);
                    } else {
                        let k = choose|k: int| 0 <= k < views(before).len() && views(before)[k] == x;
                        if k < p {
                            assert(views(out@)[k] == x);
                        } else {
                            assert(views(out@)[k + 1] == x);
                        }
                    }
                }
            }
            lemma_push_to_set(views(v@.take(i as int)), name@);
        }
        i += 1;
    }
    assert(v@.take(n as int) =~= v@);
    out
}


/// A copy of a list of strings.
pub fn copy_strings(v: &Vec<String>) -> (r: Vec<String>)
    ensures
        views(r@) == views(v@),
{
    let mut out: Vec<String> = Vec::new();
    let n = v.len();
    let mut i: usize = 0;
    while i < n
        invariant
            n == v@.len(),
            i <= n,
            views(out@) == views(v@.take(i as int)),
        decreases n - i,
    {
        out.push(v[i].clone());
        proof {
            assert(views(v@.take(i + 1)) =~= views(v@.take(i as int)).push(v@[i as int]@));
            assert(views(out@) =~= views(v@.take(i + 1)));
        }
        i += 1;
    }
    assert(v@.take(n as int) =~= v@);
    out
}

} // verus!

