//! Feature files and the files they include.
//!
//! A feature file may pull in other files with `include(path);` statements. Paths of
//! included files are relative to the directory of the including file; they are kept
//! normalized, so `a/./b/../c.fea` is stored as `a/c.fea`.

use vstd::prelude::*;

use crate::error::{FontLoadError, FontWriteError};
use crate::path::{components, is_absolute, same_path, spec_components, spec_is_absolute, spec_same_path};
use crate::text::{chars_of, push_char, str_eq, string_of, to_string};

verus! {

/// The feature file of a font package.
pub const FEATURES_FILE: &'static str = "features.fea";

// --- Characters and trimming ---

/// True when `c` has the Unicode White_Space property, as `char::is_whitespace` says.
pub open spec fn is_unicode_whitespace(c: char) -> bool {
    let v = c as u32;
    (0x9 <= v && v <= 0xd) || v == 0x20 || v == 0x85 || v == 0xa0 || v == 0x1680 || (0x2000 <= v
        && v <= 0x200a) || v == 0x2028 || v == 0x2029 || v == 0x202f || v == 0x205f || v == 0x3000
}

/// The characters that a trim removes: quotes when `quotes`, white space otherwise.
pub open spec fn trimmed_char(quotes: bool, c: char) -> bool {
    if quotes {
        c == '"' || c == '\''
    } else {
        is_unicode_whitespace(c)
    }
}

/// The number of characters at the start of `s` that a trim removes.
pub open spec fn leading_count(s: Seq<char>, quotes: bool) -> nat
    decreases s.len(),
{
    if s.len() > 0 && trimmed_char(quotes, s[0]) {
        1 + leading_count(s.drop_first(), quotes)
    } else {
        0
    }
}

/// The number of characters at the end of `s` that a trim removes.
pub open spec fn trailing_count(s: Seq<char>, quotes: bool) -> nat
    decreases s.len(),
{
    if s.len() > 0 && trimmed_char(quotes, s.last()) {
        1 + trailing_count(s.drop_last(), quotes)
    } else {
        0
    }
}

/// `s` without the removable characters at both ends.
pub open spec fn spec_trim(s: Seq<char>, quotes: bool) -> Seq<char> {
    let t = s.subrange(leading_count(s, quotes) as int, s.len() as int);
    t.subrange(0, t.len() - trailing_count(t, quotes))
}

proof fn lemma_leading_step(s: Seq<char>, quotes: bool, i: int)
    requires
        0 <= i < s.len(),
        trimmed_char(quotes, s[i]),
    ensures
        leading_count(s.subrange(i, s.len() as int), quotes) == 1 + leading_count(s.subrange(i + 1, s.len() as int), quotes),
{
    assert(s.subrange(i, s.len() as int).drop_first() =~= s.subrange(i + 1, s.len() as int));
}

proof fn lemma_leading_bound(s: Seq<char>, quotes: bool)
    ensures
        leading_count(s, quotes) <= s.len(),
    decreases s.len(),
{
    if s.len() > 0 {
        lemma_leading_bound(s.drop_first(), quotes);
    }
}

proof fn lemma_trailing_bound(s: Seq<char>, quotes: bool)
    ensures
        trailing_count(s, quotes) <= s.len(),
    decreases s.len(),
{
    if s.len() > 0 {
        lemma_trailing_bound(s.drop_last(), quotes);
    }
}

fn is_trimmed_char(quotes: bool, c: char) -> (res: bool)
    ensures
        res == trimmed_char(quotes, c),
{
    if quotes {
        c == '"' || c == '\''
    } else {
        let v = c as u32;
        (0x9 <= v && v <= 0xd) || v == 0x20 || v == 0x85 || v == 0xa0 || v == 0x1680 || (0x2000 <= v
            && v <= 0x200a) || v == 0x2028 || v == 0x2029 || v == 0x202f || v == 0x205f || v == 0x3000
    }
}

/// The bounds of `chars[from..to]` without the removable characters at both ends.
fn trim_range(chars: &Vec<char>, from: usize, to: usize, quotes: bool) -> (res: (usize, usize))
    requires
        from <= to <= chars@.len(),
    ensures
        from <= res.0 <= res.1 <= to,
        chars@.subrange(res.0 as int, res.1 as int) == spec_trim(chars@.subrange(from as int, to as int), quotes),
{
    let ghost s = chars@.subrange(from as int, to as int);
    let mut a = from;
    proof {
        assert(s.subrange(0, s.len() as int) =~= s);
    }
    while a < to && is_trimmed_char(quotes, chars[a])
        invariant
            from <= a <= to <= chars@.len(),
            s == chars@.subrange(from as int, to as int),
            leading_count(s, quotes) == (a - from) + leading_count(s.subrange(a - from, s.len() as int), quotes),
        decreases to - a,
    {
        proof {
            lemma_leading_step(s, quotes, a - from);
        }
        a += 1;
    }
    proof {
        if a < to {
            assert(s.subrange(a - from, s.len() as int)[0] == chars@[a as int]);
        }
        assert(leading_count(s.subrange(a - from, s.len() as int), quotes) == 0);
    }
    let ghost t = s.subrange(leading_count(s, quotes) as int, s.len() as int);
    assert(t =~= chars@.subrange(a as int, to as int));
    let mut b = to;
    proof {
        assert(t.subrange(0, t.len() as int) =~= t);
    }
    while b > a && is_trimmed_char(quotes, chars[b - 1])
        invariant
            from <= a <= b <= to <= chars@.len(),
            t == chars@.subrange(a as int, to as int),
            trailing_count(t, quotes) == (to - b) + trailing_count(t.subrange(0, b - a), quotes),
        decreases b - a,
    {
        proof {
            let u = t.subrange(0, b - a);
            assert(u.drop_last() =~= t.subrange(0, b - a - 1));
            assert(u.last() == chars@[b - 1]);
        }
        b -= 1;
    }
    proof {
        let u = t.subrange(0, b - a);
        if b > a {
            assert(u.last() == chars@[b - 1]);
        }
        assert(trailing_count(u, quotes) == 0);
        assert(chars@.subrange(a as int, b as int) =~= t.subrange(0, t.len() - trailing_count(t, quotes)));
    }
    (a, b)
}

// --- Normalized paths ---

/// The components of a path after `.` and `..` are resolved: `.` is dropped, and `..`
/// drops the component before it, but never the root.
pub open spec fn normalize_components(cs: Seq<Seq<char>>) -> Seq<Seq<char>>
    decreases cs.len(),
{
    if cs.len() == 0 {
        Seq::empty()
    } else {
        let acc = normalize_components(cs.drop_last());
        let c = cs.last();
        if c == seq!['.'] {
            acc
        } else if c == seq!['.', '.'] {
            if acc.len() == 0 || acc == seq![seq!['/']] {
                acc
            } else {
                acc.drop_last()
            }
        } else {
            acc.push(c)
        }
    }
}

/// The components joined by `/`.
pub open spec fn join_slash(cs: Seq<Seq<char>>) -> Seq<char>
    decreases cs.len(),
{
    if cs.len() == 0 {
        Seq::empty()
    } else if cs.len() == 1 {
        cs[0]
    } else {
        join_slash(cs.drop_last()) + seq!['/'] + cs.last()
    }
}

/// The text of a path with these components.
pub open spec fn render(cs: Seq<Seq<char>>) -> Seq<char> {
    if cs.len() > 0 && cs[0] == seq!['/'] {
        seq!['/'] + join_slash(cs.drop_first())
    } else {
        join_slash(cs)
    }
}

/// The normalized form of a path.
pub open spec fn spec_normalize(path: Seq<char>) -> Seq<char> {
    render(normalize_components(spec_components(path)))
}

/// `relative` pushed onto `base`, as a path buffer does it for a relative path.
pub open spec fn spec_path_join(base: Seq<char>, relative: Seq<char>) -> Seq<char> {
    if base.len() == 0 {
        relative
    } else if base.last() == '/' {
        base + relative
    } else {
        base + seq!['/'] + relative
    }
}

/// The directory of a path: its text without the last component, or empty where it
/// has no parent.
pub open spec fn spec_parent(path: Seq<char>) -> Seq<char> {
    let cs = spec_components(path);
    if cs.len() == 0 || cs == seq![seq!['/']] {
        Seq::empty()
    } else {
        render(cs.drop_last())
    }
}

/// The normalized path of `relative` taken from the directory `base`.
pub open spec fn spec_join_virtual(base: Seq<char>, relative: Seq<char>) -> Seq<char> {
    if spec_is_absolute(relative) {
        spec_normalize(relative)
    } else {
        spec_normalize(spec_path_join(base, relative))
    }
}

fn join_components(cs: &Vec<String>) -> (res: String)
    ensures
        res@ == render(cs@.map_values(|c: String| c@)),
{
    let ghost v = cs@.map_values(|c: String| c@);
    let mut out = String::new();
    let mut start: usize = 0;
    let slash = "/";
    proof {
        reveal_strlit("/");
    }
    if cs.len() > 0 && str_eq(cs[0].as_str(), slash) {
        out.append(slash);
        start = 1;
    }
    let ghost rest = v.subrange(start as int, v.len() as int);
    proof {
        if start == 1 {
            assert(rest =~= v.drop_first());
            assert(v[0] == seq!['/']);
        } else {
            assert(rest =~= v);
        }
        assert(rest.subrange(0, 0) =~= Seq::<Seq<char>>::empty());
    }
    let ghost head = out@;
    let mut i = start;
    while i < cs.len()
        invariant
            start <= i <= cs@.len(),
            v == cs@.map_values(|c: String| c@),
            rest == v.subrange(start as int, v.len() as int),
            slash@ == seq!['/'],
            out@ == head + join_slash(rest.subrange(0, i - start)),
        decreases cs@.len() - i,
    {
        let ghost before = rest.subrange(0, i - start);
        let ghost after = rest.subrange(0, i - start + 1);
        proof {
            assert(after.drop_last() =~= before);
            assert(after.last() == cs@[i as int]@);
        }
        if i > start {
            out.append(slash);
        }
        out.append(cs[i].as_str());
        proof {
            if i == start {
                assert(join_slash(after) == after[0]);
            }
        }
        i += 1;
    }
    proof {
        assert(rest.subrange(0, cs@.len() - start) =~= rest);
    }
    out
}

/// The normalized form of a path: `.` components are dropped and `..` components drop
/// the component before them.
pub fn normalize_relative_path(path: &str) -> (res: String)
    ensures
        res@ == spec_normalize(path@),
{
    let cs = components(path);
    let ghost cv = spec_components(path@);
    proof {
        assert(cs@.map_values(|c: String| c@) =~= cv);
    }
    let mut acc: Vec<String> = Vec::new();
    let dot = ".";
    let dotdot = "..";
    let slash = "/";
    proof {
        reveal_strlit(".");
        reveal_strlit("..");
        reveal_strlit("/");
        assert(cv.subrange(0, 0) =~= Seq::<Seq<char>>::empty());
    }
    let mut i: usize = 0;
    while i < cs.len()
        invariant
            0 <= i <= cs@.len(),
            cv == cs@.map_values(|c: String| c@),
            dot@ == seq!['.'],
            dotdot@ == seq!['.', '.'],
            slash@ == seq!['/'],
            acc@.map_values(|c: String| c@) == normalize_components(cv.subrange(0, i as int)),
        decreases cs@.len() - i,
    {
        let ghost prev = acc@.map_values(|c: String| c@);
        let c = cs[i].as_str();
        proof {
            assert(cv.subrange(0, i + 1).drop_last() =~= cv.subrange(0, i as int));
            assert(cv.subrange(0, i + 1).last() == c@);
        }
        if str_eq(c, dot) {
        } else if str_eq(c, dotdot) {
            let root_only = acc.len() == 1 && str_eq(acc[0].as_str(), slash);
            proof {
                if acc@.len() == 1 {
                    if prev == seq![seq!['/']] {
                        assert(prev[0] == acc@[0]@);
                    }
                    if acc@[0]@ == seq!['/'] {
                        assert(prev =~= seq![seq!['/']]);
                    }
                } else {
                    assert(prev.len() != 1);
                }
            }
            if acc.len() > 0 && !root_only {
                acc.pop();
                proof {
                    assert(acc@.map_values(|c: String| c@) =~= prev.drop_last());
                }
            }
        } else {
            acc.push(to_string(c));
            proof {
                assert(acc@.map_values(|c: String| c@) =~= prev.push(c@));
            }
        }
        i += 1;
    }
    proof {
        assert(cv.subrange(0, cs@.len() as int) =~= cv);
    }
    join_components(&acc)
}

/// The directory of a path, or the empty path where it has none.
pub fn parent_path(path: &str) -> (res: String)
    ensures
        res@ == spec_parent(path@),
{
    let mut cs = components(path);
    let ghost cv = spec_components(path@);
    proof {
        assert(cs@.map_values(|c: String| c@) =~= cv);
        reveal_strlit("/");
    }
    if cs.len() == 0 {
        return String::new();
    }
    if cs.len() == 1 && str_eq(cs[0].as_str(), "/") {
        assert(cv.len() == 1 && cv[0] == cs@[0]@);
        assert(cs@[0]@ =~= seq!['/']);
        assert(cv =~= seq![seq!['/']]);
        return String::new();
    }
    proof {
        if cv == seq![seq!['/']] {
            assert(cs@[0]@ == cv[0]);
        }
    }
    let ghost before = cs@;
    cs.pop();
    proof {
        assert(cs@.map_values(|c: String| c@) =~= cv.drop_last());
    }
    join_components(&cs)
}

/// `relative` taken from the directory `base`, normalized.
pub fn join_virtual_path(base: &str, relative: &str) -> (res: String)
    ensures
        res@ == spec_join_virtual(base@, relative@),
{
    if is_absolute(relative) {
        return normalize_relative_path(relative);
    }
    let slash = "/";
    proof {
        reveal_strlit("/");
    }
    let mut joined = to_string(base);
    let n = base.unicode_len();
    if n > 0 && base.get_char(n - 1) != '/' {
        joined.append(slash);
    }
    joined.append(relative);
    assert(joined@ == spec_path_join(base@, relative@));
    normalize_relative_path(joined.as_str())
}

// --- Include statements ---

/// The position of the first `c` in `s` from `i` on.
pub open spec fn index_of_from(s: Seq<char>, c: char, i: int) -> Option<int>
    decreases s.len() - i,
{
    if i < 0 || i >= s.len() {
        None
    } else if s[i] == c {
        Some(i)
    } else {
        index_of_from(s, c, i + 1)
    }
}

/// The position of the last `c` in `s` before `i`.
pub open spec fn last_index_of_before(s: Seq<char>, c: char, i: int) -> Option<int>
    decreases i,
{
    if i <= 0 || i > s.len() {
        None
    } else if s[i - 1] == c {
        Some(i - 1)
    } else {
        last_index_of_before(s, c, i - 1)
    }
}

/// The path that an include statement on this line names, normalized, if the line is
/// one: after trimming, it starts with `include`, ends with `;`, and holds a non-empty
/// path, perhaps quoted, between its first `(` and its last `)`.
pub open spec fn spec_include_target(line: Seq<char>) -> Option<Seq<char>> {
    let t = spec_trim(line, false);
    if !(t.len() >= 7 && t.subrange(0, 7) == seq!['i', 'n', 'c', 'l', 'u', 'd', 'e']) || !(t.len() > 0
        && t.last() == ';') {
        None
    } else {
        match (index_of_from(t, '(', 0), last_index_of_before(t, ')', t.len() as int)) {
            (Some(open), Some(close)) => if close < open {
                None
            } else {
                let inner = spec_trim(t.subrange(open + 1, close), false);
                let unquoted = spec_trim(inner, true);
                if inner.len() == 0 || unquoted.len() == 0 {
                    None
                } else {
                    Some(spec_normalize(unquoted))
                }
            },
            _ => None,
        }
    }
}

fn find_first(chars: &Vec<char>, from: usize, to: usize, c: char) -> (res: Option<usize>)
    requires
        from <= to <= chars@.len(),
    ensures
        match res {
            Some(k) => from <= k < to && index_of_from(chars@.subrange(from as int, to as int), c, 0) == Some(
                (k - from) as int,
            ),
            None => index_of_from(chars@.subrange(from as int, to as int), c, 0) is None,
        },
{
    let ghost s = chars@.subrange(from as int, to as int);
    let mut i = from;
    while i < to
        invariant
            from <= i <= to <= chars@.len(),
            s == chars@.subrange(from as int, to as int),
            index_of_from(s, c, 0) == index_of_from(s, c, i - from),
        decreases to - i,
    {
        if chars[i] == c {
            assert(s[i - from] == c);
            return Some(i);
        }
        i += 1;
    }
    None
}

fn find_last(chars: &Vec<char>, from: usize, to: usize, c: char) -> (res: Option<usize>)
    requires
        from <= to <= chars@.len(),
    ensures
        match res {
            Some(k) => from <= k < to && last_index_of_before(chars@.subrange(from as int, to as int), c, to - from)
                == Some((k - from) as int),
            None => last_index_of_before(chars@.subrange(from as int, to as int), c, to - from) is None,
        },
{
    let ghost s = chars@.subrange(from as int, to as int);
    let mut i = to;
    while i > from
        invariant
            from <= i <= to <= chars@.len(),
            s == chars@.subrange(from as int, to as int),
            last_index_of_before(s, c, to - from) == last_index_of_before(s, c, i - from),
        decreases i - from,
    {
        if chars[i - 1] == c {
            assert(s[i - 1 - from] == c);
            return Some(i - 1);
        }
        i -= 1;
    }
    None
}

/// The normalized path that an include statement on `line` names, if it is one.
pub fn parse_include_target(line: &str) -> (res: Option<String>)
    ensures
        match spec_include_target(line@) {
            Some(p) => res matches Some(r) && r@ == p,
            None => res is None,
        },
{
    let chars = chars_of(line);
    let (a, b) = trim_range(&chars, 0, chars.len(), false);
    proof {
        assert(chars@.subrange(0, chars@.len() as int) =~= line@);
    }
    let ghost t = chars@.subrange(a as int, b as int);
    let keyword = "include";
    proof {
        reveal_strlit("include");
    }
    if b - a < 7 {
        return None;
    }
    let mut k: usize = 0;
    while k < 7
        invariant
            0 <= k <= 7,
            a + 7 <= b <= chars@.len(),
            keyword@ == seq!['i', 'n', 'c', 'l', 'u', 'd', 'e'],
            t == chars@.subrange(a as int, b as int),
            t == spec_trim(line@, false),
            forall|j: int| 0 <= j < k ==> chars@[a + j] == keyword@[j],
        decreases 7 - k,
    {
        if chars[a + k] != keyword.get_char(k) {
            assert(t.subrange(0, 7)[k as int] != keyword@[k as int]);
            return None;
        }
        k += 1;
    }
    assert(t.subrange(0, 7) =~= seq!['i', 'n', 'c', 'l', 'u', 'd', 'e']);
    if chars[b - 1] != ';' {
        return None;
    }
    let open = match find_first(&chars, a, b, '(') {
        Some(o) => o,
        None => {
            return None;
        },
    };
    let close = match find_last(&chars, a, b, ')') {
        Some(c) => c,
        None => {
            return None;
        },
    };
    if close < open {
        return None;
    }
    proof {
        lemma_index_of_from_bounds(t, '(', 0);
        lemma_last_index_bounds(t, ')', t.len() as int);
        assert(chars@.subrange(a as int, b as int) == t);
    }
    let (ia, ib) = trim_range(&chars, open + 1, close, false);
    proof {
        assert(chars@.subrange(open + 1, close as int) =~= t.subrange(open - a + 1, close - a));
    }
    if ia == ib {
        return None;
    }
    let (qa, qb) = trim_range(&chars, ia, ib, true);
    if qa == qb {
        return None;
    }
    let inner = string_of(&chars, qa, qb);
    Some(normalize_relative_path(inner.as_str()))
}

// --- Expanding includes from a set of files ---

/// A failed expansion of includes.
pub enum IncludeFailure {
    /// A file includes itself, through the path given.
    Cycle(Seq<char>),
    /// An included file is missing.
    Missing(Seq<char>),
}

/// The length of the first line of `s`, its line break included.
pub open spec fn line_len(s: Seq<char>) -> int {
    match index_of_from(s, '\n', 0) {
        Some(i) => i + 1,
        None => s.len() as int,
    }
}

/// True when a path on the stack names the same file as `p`.
pub open spec fn stacked(stack: Seq<Seq<char>>, p: Seq<char>) -> bool {
    exists|i: int| 0 <= i < stack.len() && spec_same_path(#[trigger] stack[i], p)
}

/// The contents of the first file of `files` named `p`, if any.
pub open spec fn lookup_file(files: Seq<(Seq<char>, Seq<char>)>, p: Seq<char>) -> Option<Seq<char>>
    decreases files.len(),
{
    if files.len() == 0 {
        None
    } else {
        match lookup_file(files.drop_last(), p) {
            Some(c) => Some(c),
            None => if spec_same_path(files.last().0, p) {
                Some(files.last().1)
            } else {
                None
            },
        }
    }
}

/// The number of files not on the stack.
pub open spec fn unstacked(files: Seq<(Seq<char>, Seq<char>)>, stack: Seq<Seq<char>>) -> nat
    decreases files.len(),
{
    if files.len() == 0 {
        0
    } else {
        unstacked(files.drop_last(), stack) + if stacked(stack, files.last().0) {
            0nat
        } else {
            1nat
        }
    }
}

pub proof fn lemma_stacked_push(stack: Seq<Seq<char>>, p: Seq<char>, q: Seq<char>)
    ensures
        stacked(stack.push(p), q) == (stacked(stack, q) || spec_same_path(p, q)),
{
    if stacked(stack.push(p), q) {
        let i = choose|i: int| 0 <= i < stack.push(p).len() && spec_same_path(#[trigger] stack.push(p)[i], q);
        if i < stack.len() {
            assert(stack[i] == stack.push(p)[i]);
        }
    }
    if stacked(stack, q) {
        let i = choose|i: int| 0 <= i < stack.len() && spec_same_path(#[trigger] stack[i], q);
        assert(stack.push(p)[i] == stack[i]);
    }
    if spec_same_path(p, q) {
        assert(stack.push(p)[stack.len() as int] == p);
    }
}

pub proof fn lemma_unstacked_push(files: Seq<(Seq<char>, Seq<char>)>, stack: Seq<Seq<char>>, p: Seq<char>)
    requires
        !stacked(stack, p),
    ensures
        unstacked(files, stack.push(p)) <= unstacked(files, stack),
        lookup_file(files, p) is Some ==> unstacked(files, stack.push(p)) < unstacked(files, stack),
    decreases files.len(),
{
    if files.len() > 0 {
        lemma_unstacked_push(files.drop_last(), stack, p);
        lemma_stacked_push(stack, p, files.last().0);
        if spec_same_path(p, files.last().0) && stacked(stack, files.last().0) {
            let i = choose|i: int| 0 <= i < stack.len() && spec_same_path(#[trigger] stack[i], files.last().0);
            assert(spec_same_path(stack[i], p));
        }
    }
}

pub proof fn lemma_line_len(s: Seq<char>)
    requires
        s.len() > 0,
    ensures
        1 <= line_len(s) <= s.len(),
{
    lemma_index_of_from_bounds(s, '\n', 0);
}

pub proof fn lemma_last_index_bounds(s: Seq<char>, c: char, i: int)
    requires
        i <= s.len(),
    ensures
        last_index_of_before(s, c, i) matches Some(k) ==> 0 <= k < i && s[k] == c,
    decreases i,
{
    if 0 < i && s[i - 1] != c {
        lemma_last_index_bounds(s, c, i - 1);
    }
}

pub proof fn lemma_index_of_from_bounds(s: Seq<char>, c: char, i: int)
    requires
        0 <= i,
    ensures
        index_of_from(s, c, i) matches Some(k) ==> i <= k < s.len() && s[k] == c,
    decreases s.len() - i,
{
    if i < s.len() && s[i] != c {
        lemma_index_of_from_bounds(s, c, i + 1);
    }
}

/// The text of `contents`, a file at `cur`, with every include statement replaced by
/// the expanded text of the file it names. `stack` holds the files being expanded.
pub open spec fn spec_expand(
    cur: Seq<char>,
    contents: Seq<char>,
    files: Seq<(Seq<char>, Seq<char>)>,
    stack: Seq<Seq<char>>,
) -> Result<Seq<char>, IncludeFailure>
    decreases unstacked(files, stack), contents.len(),
{
    if contents.len() == 0 {
        Ok(Seq::empty())
    } else {
        proof {
            lemma_line_len(contents);
        }
        let n = line_len(contents);
        let line = contents.subrange(0, n);
        let rest = contents.subrange(n, contents.len() as int);
        match spec_include_target(line) {
            None => match spec_expand(cur, rest, files, stack) {
                Ok(r) => Ok(line + r),
                Err(e) => Err(e),
            },
            Some(target) => {
                let p = spec_join_virtual(spec_parent(cur), target);
                if stacked(stack, p) {
                    Err(IncludeFailure::Cycle(p))
                } else {
                    match lookup_file(files, p) {
                        None => Err(IncludeFailure::Missing(p)),
                        Some(included) => {
                            proof {
                                lemma_unstacked_push(files, stack, p);
                            }
                            match spec_expand(p, included, files, stack.push(p)) {
                                Err(e) => Err(e),
                                Ok(x) => match spec_expand(cur, rest, files, stack) {
                                    Ok(r) => Ok(x + r),
                                    Err(e) => Err(e),
                                },
                            }
                        },
                    }
                }
            },
        }
    }
}

/// The files as paths and contents.
pub open spec fn files_view(files: Seq<(String, String)>) -> Seq<(Seq<char>, Seq<char>)> {
    files.map_values(|e: (String, String)| (e.0@, e.1@))
}

/// The texts of a list of strings.
pub open spec fn texts(v: Seq<String>) -> Seq<Seq<char>> {
    v.map_values(|s: String| s@)
}

/// True when `res` reports the outcome `out`.
pub open spec fn reports_expansion(res: Result<String, FontLoadError>, out: Result<Seq<char>, IncludeFailure>) -> bool {
    match out {
        Ok(t) => res matches Ok(r) && r@ == t,
        Err(IncludeFailure::Cycle(p)) => res matches Err(FontLoadError::FeatureIncludeCycle { path }) && path@ == p,
        Err(IncludeFailure::Missing(p)) => res matches Err(FontLoadError::MissingIncludedFeatureFile { path })
            && path@ == p,
    }
}

/// `prefix` followed by the text of `out`, or its failure.
pub open spec fn after_prefix(prefix: Seq<char>, out: Result<Seq<char>, IncludeFailure>) -> Result<Seq<char>, IncludeFailure> {
    match out {
        Ok(t) => Ok(prefix + t),
        Err(e) => Err(e),
    }
}

fn on_stack(stack: &Vec<String>, p: &str) -> (res: bool)
    ensures
        res == stacked(texts(stack@), p@),
{
    let mut i: usize = 0;
    while i < stack.len()
        invariant
            0 <= i <= stack@.len(),
            forall|j: int| 0 <= j < i ==> !spec_same_path(#[trigger] stack@[j]@, p@),
        decreases stack@.len() - i,
    {
        if same_path(stack[i].as_str(), p) {
            assert(texts(stack@)[i as int] == stack@[i as int]@);
            return true;
        }
        i += 1;
    }
    proof {
        if stacked(texts(stack@), p@) {
            let j = choose|j: int| 0 <= j < texts(stack@).len() && spec_same_path(#[trigger] texts(stack@)[j], p@);
            assert(texts(stack@)[j] == stack@[j]@);
        }
    }
    false
}

fn find_file(files: &Vec<(String, String)>, p: &str) -> (res: Option<usize>)
    ensures
        match res {
            Some(k) => k < files@.len() && lookup_file(files_view(files@), p@) == Some(files@[k as int].1@),
            None => lookup_file(files_view(files@), p@) is None,
        },
{
    let ghost fv = files_view(files@);
    let mut i: usize = 0;
    while i < files.len()
        invariant
            0 <= i <= files@.len(),
            fv == files_view(files@),
            lookup_file(fv.subrange(0, i as int), p@) is None,
        decreases files@.len() - i,
    {
        proof {
            assert(fv.subrange(0, i + 1).drop_last() =~= fv.subrange(0, i as int));
        }
        if same_path(files[i].0.as_str(), p) {
            proof {
                lemma_lookup_prefix(fv, p@, i + 1);
            }
            return Some(i);
        }
        i += 1;
    }
    proof {
        assert(fv.subrange(0, files@.len() as int) =~= fv);
    }
    None
}

proof fn lemma_lookup_prefix(fv: Seq<(Seq<char>, Seq<char>)>, p: Seq<char>, k: int)
    requires
        0 < k <= fv.len(),
        lookup_file(fv.subrange(0, k), p) is Some,
    ensures
        lookup_file(fv, p) == lookup_file(fv.subrange(0, k), p),
    decreases fv.len() - k,
{
    if k < fv.len() {
        assert(fv.subrange(0, k + 1).drop_last() =~= fv.subrange(0, k));
        lemma_lookup_prefix(fv, p, k + 1);
    } else {
        assert(fv.subrange(0, k) =~= fv);
    }
}

/// The text of `contents`, a file at `current_path`, with every include statement
/// replaced by the expanded text of the file that `feature_files` holds for it.
/// `stack` holds the files being expanded; an include of one of them is a cycle.
pub fn expand_feature_text_from_map(
    current_path: &str,
    contents: &str,
    feature_files: &Vec<(String, String)>,
    stack: &mut Vec<String>,
) -> (res: Result<String, FontLoadError>)
    ensures
        reports_expansion(res, spec_expand(current_path@, contents@, files_view(feature_files@), texts(old(stack)@))),
        res is Ok ==> final(stack)@ == old(stack)@,
    decreases unstacked(files_view(feature_files@), texts(old(stack)@)), contents@.len(),
{
    let ghost fv = files_view(feature_files@);
    let ghost st = texts(stack@);
    let chars = chars_of(contents);
    let n = chars.len();
    let mut out = String::new();
    let mut pos: usize = 0;
    let parent = parent_path(current_path);
    proof {
        assert(chars@.subrange(0, n as int) =~= contents@);
    }
    while pos < n
        invariant
            0 <= pos <= n == chars@.len(),
            chars@ == contents@,
            fv == files_view(feature_files@),
            st == texts(old(stack)@),
            stack@ == old(stack)@,
            parent@ == spec_parent(current_path@),
            spec_expand(current_path@, contents@, fv, st) == after_prefix(
                out@,
                spec_expand(current_path@, chars@.subrange(pos as int, n as int), fv, st),
            ),
        decreases n - pos,
    {
        let ghost rem = chars@.subrange(pos as int, n as int);
        let end = match find_first(&chars, pos, n, '\n') {
            Some(k) => k + 1,
            None => n,
        };
        proof {
            lemma_line_len(rem);
            assert(end - pos == line_len(rem));
            assert(rem.subrange(0, line_len(rem)) =~= chars@.subrange(pos as int, end as int));
            assert(rem.subrange(line_len(rem), rem.len() as int) =~= chars@.subrange(end as int, n as int));
        }
        let line = string_of(&chars, pos, end);
        match parse_include_target(line.as_str()) {
            None => {
                let ghost before = out@;
                out.append(line.as_str());
                proof {
                    assert(out@ == before + line@);
                    match spec_expand(current_path@, chars@.subrange(end as int, n as int), fv, st) {
                        Ok(r) => {
                            assert(before + (line@ + r) =~= (before + line@) + r);
                        },
                        Err(e) => {},
                    }
                }
            },
            Some(target) => {
                let include_path = join_virtual_path(parent.as_str(), target.as_str());
                if on_stack(stack, include_path.as_str()) {
                    return Err(FontLoadError::FeatureIncludeCycle { path: include_path });
                }
                let k = match find_file(feature_files, include_path.as_str()) {
                    Some(k) => k,
                    None => {
                        return Err(FontLoadError::MissingIncludedFeatureFile { path: include_path });
                    },
                };
                proof {
                    lemma_unstacked_push(fv, st, include_path@);
                }
                let ghost pushed = st.push(include_path@);
                stack.push(to_string(include_path.as_str()));
                proof {
                    assert(texts(stack@) =~= pushed);
                }
                let expanded = expand_feature_text_from_map(
                    include_path.as_str(),
                    feature_files[k].1.as_str(),
                    feature_files,
                    stack,
                );
                let text = match expanded {
                    Ok(t) => t,
                    Err(e) => {
                        return Err(e);
                    },
                };
                stack.pop();
                proof {
                    assert(stack@ =~= old(stack)@);
                }
                let ghost before = out@;
                out.append(text.as_str());
                proof {
                    match spec_expand(current_path@, chars@.subrange(end as int, n as int), fv, st) {
                        Ok(r) => {
                            assert(before + (text@ + r) =~= (before + text@) + r);
                        },
                        Err(e) => {},
                    }
                }
            },
        }
        pos = end;
    }
    proof {
        assert(chars@.subrange(n as int, n as int) =~= Seq::<char>::empty());
        assert(out@ + Seq::<char>::empty() =~= out@);
    }
    Ok(out)
}

/// The end of the line that starts at `from`: after its line break, or at `to`.
pub fn find_line_end(chars: &Vec<char>, from: usize, to: usize) -> (res: usize)
    requires
        from < to <= chars@.len(),
    ensures
        from < res <= to,
        res - from == line_len(chars@.subrange(from as int, to as int)),
{
    proof {
        lemma_line_len(chars@.subrange(from as int, to as int));
    }
    match find_first(chars, from, to, '\n') {
        Some(k) => k + 1,
        None => to,
    }
}

/// The text of the font's features with every include statement replaced by the
/// expanded text of the file that `feature_files` holds for it.
pub fn expand_feature_text(features: &str, feature_files: &Vec<(String, String)>) -> (res: Result<String, FontLoadError>)
    ensures
        reports_expansion(
            res,
            spec_expand(
                spec_normalize(FEATURES_FILE@),
                features@,
                files_view(feature_files@),
                seq![spec_normalize(FEATURES_FILE@)],
            ),
        ),
{
    let root = normalize_relative_path(FEATURES_FILE);
    let mut stack: Vec<String> = Vec::new();
    stack.push(to_string(root.as_str()));
    assert(texts(stack@) =~= seq![root@]);
    expand_feature_text_from_map(root.as_str(), features, feature_files, &mut stack)
}

// --- Line endings ---

/// The text with every `\r\n` replaced by `\n`.
pub open spec fn spec_crlf_to_lf(s: Seq<char>) -> Seq<char>
    decreases s.len(),
{
    if s.len() == 0 {
        s
    } else if s.len() >= 2 && s[0] == '\r' && s[1] == '\n' {
        seq!['\n'] + spec_crlf_to_lf(s.subrange(2, s.len() as int))
    } else {
        seq![s[0]] + spec_crlf_to_lf(s.drop_first())
    }
}

/// Feature text as it is written: with `\r\n` line breaks replaced by `\n`.
pub fn normalize_feature_text(contents: &str) -> (res: String)
    ensures
        res@ == spec_crlf_to_lf(contents@),
{
    let chars = chars_of(contents);
    let n = chars.len();
    let mut out = String::new();
    let mut i: usize = 0;
    proof {
        assert(chars@.subrange(0, n as int) =~= contents@);
        assert(out@ + spec_crlf_to_lf(chars@.subrange(0, n as int)) =~= spec_crlf_to_lf(contents@));
    }
    while i < n
        invariant
            0 <= i <= n == chars@.len(),
            chars@ == contents@,
            out@ + spec_crlf_to_lf(chars@.subrange(i as int, n as int)) == spec_crlf_to_lf(contents@),
        decreases n - i,
    {
        let ghost rest = chars@.subrange(i as int, n as int);
        let ghost before = out@;
        if chars[i] == '\r' && i + 1 < n && chars[i + 1] == '\n' {
            push_char(&mut out, '\n');
            proof {
                assert(rest.subrange(2, rest.len() as int) =~= chars@.subrange(i + 2, n as int));
                assert(before.push('\n') + spec_crlf_to_lf(chars@.subrange(i + 2, n as int)) =~= before + (
                seq!['\n'] + spec_crlf_to_lf(chars@.subrange(i + 2, n as int))));
            }
            i += 2;
        } else {
            push_char(&mut out, chars[i]);
            proof {
                assert(rest.drop_first() =~= chars@.subrange(i + 1, n as int));
                assert(before.push(chars@[i as int]) + spec_crlf_to_lf(chars@.subrange(i + 1, n as int)) =~= before + (
                seq![chars@[i as int]] + spec_crlf_to_lf(chars@.subrange(i + 1, n as int))));
            }
            i += 1;
        }
    }
    proof {
        assert(spec_crlf_to_lf(chars@.subrange(n as int, n as int)) =~= Seq::<char>::empty());
        assert(out@ + Seq::<char>::empty() =~= out@);
    }
    out
}

} // verus!
