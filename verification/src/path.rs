//! Relative paths inside a font package.
//!
//! Paths are text with `/` as the separator. They are compared by their components,
//! the way the standard library compares paths on Unix: repeated separators and a
//! trailing separator do not count, a `.` component counts only at the start of a
//! relative path, and a path that starts with `/` is absolute.

use vstd::prelude::*;

verus! {

/// True when the path starts at the root.
pub open spec fn spec_is_absolute(s: Seq<char>) -> bool {
    s.len() > 0 && s[0] == '/'
}

/// The pieces of `s` between separators, empty pieces included.
pub open spec fn split_slash(s: Seq<char>) -> Seq<Seq<char>>
    decreases s.len(),
{
    if s.len() == 0 {
        seq![Seq::<char>::empty()]
    } else {
        let p = split_slash(s.drop_last());
        if s.last() == '/' {
            p.push(Seq::<char>::empty())
        } else {
            p.update(p.len() - 1, p.last().push(s.last()))
        }
    }
}

/// Whether the piece at position `idx` is a component: empty pieces never are, and a
/// `.` piece only at the start of a relative path.
pub open spec fn keeps_piece(piece: Seq<char>, idx: int, absolute: bool) -> bool {
    piece.len() > 0 && (piece != seq!['.'] || (idx == 0 && !absolute))
}

/// The pieces that count as components, in order.
pub open spec fn kept_pieces(p: Seq<Seq<char>>, absolute: bool) -> Seq<Seq<char>>
    decreases p.len(),
{
    if p.len() == 0 {
        Seq::empty()
    } else {
        let r = kept_pieces(p.drop_last(), absolute);
        if keeps_piece(p.last(), p.len() - 1, absolute) {
            r.push(p.last())
        } else {
            r
        }
    }
}

/// The components of a path. An absolute path starts with the component `/`.
pub open spec fn spec_components(s: Seq<char>) -> Seq<Seq<char>> {
    let absolute = spec_is_absolute(s);
    let root: Seq<Seq<char>> = if absolute { seq![seq!['/']] } else { Seq::empty() };
    root + kept_pieces(split_slash(s), absolute)
}

/// True when the path has a parent other than the empty path: it has two components
/// or more.
pub open spec fn spec_has_parent(s: Seq<char>) -> bool {
    spec_components(s).len() >= 2
}

/// True when two paths name the same file.
pub open spec fn spec_same_path(a: Seq<char>, b: Seq<char>) -> bool {
    spec_components(a) == spec_components(b)
}

proof fn lemma_split_step(s: Seq<char>, i: int)
    requires
        0 <= i < s.len(),
    ensures
        ({
            let p = split_slash(s.subrange(0, i));
            let q = split_slash(s.subrange(0, i + 1));
            if s[i] == '/' {
                q == p.push(Seq::<char>::empty())
            } else {
                q == p.update(p.len() - 1, p.last().push(s[i]))
            }
        }),
{
    let t = s.subrange(0, i + 1);
    assert(t.drop_last() =~= s.subrange(0, i));
}

proof fn lemma_split_nonempty(s: Seq<char>)
    ensures
        1 <= split_slash(s).len() <= s.len() + 1,
    decreases s.len(),
{
    if s.len() > 0 {
        lemma_split_nonempty(s.drop_last());
    }
}

/// Returns whether the path starts at the root.
pub fn is_absolute(s: &str) -> (res: bool)
    ensures
        res == spec_is_absolute(s@),
{
    s.unicode_len() > 0 && s.get_char(0) == '/'
}

fn keep_piece(piece: &str, idx: usize, absolute: bool) -> (res: bool)
    ensures
        res == keeps_piece(piece@, idx as int, absolute),
{
    let n = piece.unicode_len();
    if n == 0 {
        return false;
    }
    if n == 1 && piece.get_char(0) == '.' {
        assert(piece@ =~= seq!['.']);
        return idx == 0 && !absolute;
    }
    assert(piece@ != seq!['.']) by {
        if n == 1 {
            assert(piece@[0] != '.');
        }
    }
    true
}

/// Returns the components of a path.
pub fn components(s: &str) -> (res: Vec<String>)
    ensures
        res@.len() == spec_components(s@).len(),
        forall|k: int| 0 <= k < res@.len() ==> #[trigger] res@[k]@ == spec_components(s@)[k],
{
    let n = s.unicode_len();
    let absolute = is_absolute(s);
    let mut out: Vec<String> = Vec::new();
    if absolute {
        let root = "/";
        proof {
            reveal_strlit("/");
        }
        out.push(root.to_owned());
        assert(out@[0]@ =~= seq!['/']);
    }
    let ghost root: Seq<Seq<char>> = if absolute { seq![seq!['/']] } else { Seq::empty() };
    let mut cur = String::new();
    let mut idx: usize = 0;
    let mut i: usize = 0;
    proof {
        assert(s@.subrange(0, 0) =~= Seq::<char>::empty());
        assert(split_slash(Seq::<char>::empty()) == seq![Seq::<char>::empty()]);
        assert(split_slash(s@.subrange(0, 0)).drop_last() =~= Seq::<Seq<char>>::empty());
        assert(root + kept_pieces(Seq::<Seq<char>>::empty(), absolute) =~= root);
    }
    while i < n
        invariant
            n == s@.len(),
            0 <= i <= n,
            absolute == spec_is_absolute(s@),
            root == (if absolute { seq![seq!['/']] } else { Seq::<Seq<char>>::empty() }),
            split_slash(s@.subrange(0, i as int)).len() == idx + 1,
            cur@ == split_slash(s@.subrange(0, i as int)).last(),
            out@.len() == (root + kept_pieces(split_slash(s@.subrange(0, i as int)).drop_last(), absolute)).len(),
            forall|k: int| 0 <= k < out@.len() ==> #[trigger] out@[k]@ == (root + kept_pieces(
                split_slash(s@.subrange(0, i as int)).drop_last(),
                absolute,
            ))[k],
        decreases n - i,
    {
        let c = s.get_char(i);
        let ghost p = split_slash(s@.subrange(0, i as int));
        proof {
            lemma_split_step(s@, i as int);
            lemma_split_nonempty(s@.subrange(0, i as int));
        }
        if c == '/' {
            let ghost q = p.push(Seq::<char>::empty());
            proof {
                assert(q.drop_last() =~= p);
                assert(p.drop_last() == p.drop_last());
            }
            if keep_piece(cur.as_str(), idx, absolute) {
                let ghost before = out@;
                out.push(cur);
                proof {
                    assert(kept_pieces(p, absolute) == kept_pieces(p.drop_last(), absolute).push(p.last()));
                    assert forall|k: int| 0 <= k < out@.len() implies #[trigger] out@[k]@ == (root
                        + kept_pieces(p, absolute))[k] by {
                        if k < before.len() {
                            assert(out@[k] == before[k]);
                        }
                    }
                }
            } else {
                proof {
                    assert(kept_pieces(p, absolute) == kept_pieces(p.drop_last(), absolute));
                }
            }
            cur = String::new();
            idx += 1;
        } else {
            let piece = s.substring_char(i, i + 1);
            let ghost old_cur = cur@;
            cur.append(piece);
            proof {
                assert(piece@ =~= seq![c]);
                assert(cur@ =~= old_cur.push(c));
                let q = p.update(p.len() - 1, p.last().push(c));
                assert(q.drop_last() =~= p.drop_last());
            }
        }
        i += 1;
    }
    proof {
        let p = split_slash(s@.subrange(0, n as int));
        assert(s@.subrange(0, n as int) =~= s@);
        lemma_split_nonempty(s@);
        assert(p.drop_last().push(p.last()) =~= p);
        assert(kept_pieces(p, absolute) == if keeps_piece(p.last(), p.len() - 1, absolute) {
            kept_pieces(p.drop_last(), absolute).push(p.last())
        } else {
            kept_pieces(p.drop_last(), absolute)
        });
    }
    if keep_piece(cur.as_str(), idx, absolute) {
        let ghost before = out@;
        out.push(cur);
        proof {
            let p = split_slash(s@);
            assert forall|k: int| 0 <= k < out@.len() implies #[trigger] out@[k]@ == spec_components(s@)[k] by {
                if k < before.len() {
                    assert(out@[k] == before[k]);
                }
            }
        }
    }
    out
}

/// Returns whether the path has a parent other than the empty path.
pub fn has_parent(s: &str) -> (res: bool)
    ensures
        res == spec_has_parent(s@),
{
    components(s).len() >= 2
}

/// Returns whether the component lists are equal.
pub fn same_components(a: &Vec<String>, b: &Vec<String>) -> (res: bool)
    ensures
        res == (a@.len() == b@.len() && forall|k: int| 0 <= k < a@.len() ==> #[trigger] a@[k]@ == b@[k]@),
{
    if a.len() != b.len() {
        return false;
    }
    let mut i: usize = 0;
    while i < a.len()
        invariant
            a@.len() == b@.len(),
            0 <= i <= a@.len(),
            forall|k: int| 0 <= k < i ==> #[trigger] a@[k]@ == b@[k]@,
        decreases a@.len() - i,
    {
        if !crate::text::str_eq(a[i].as_str(), b[i].as_str()) {
            return false;
        }
        i += 1;
    }
    true
}

/// Returns whether two paths name the same file.
pub fn same_path(a: &str, b: &str) -> (res: bool)
    ensures
        res == spec_same_path(a@, b@),
{
    let ca = components(a);
    let cb = components(b);
    let r = same_components(&ca, &cb);
    proof {
        if r {
            assert forall|k: int| 0 <= k < spec_components(a@).len() implies spec_components(a@)[k]
                == spec_components(b@)[k] by {
                assert(ca@[k]@ == cb@[k]@);
            }
            assert(spec_components(a@) =~= spec_components(b@));
        } else if ca@.len() == cb@.len() {
            let k = choose|k: int| 0 <= k < ca@.len() && #[trigger] ca@[k]@ != cb@[k]@;
            assert(spec_components(a@)[k] != spec_components(b@)[k]);
        }
    }
    r
}

} // verus!
