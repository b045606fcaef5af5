//! Glyph groups and their validation.

use vstd::prelude::*;

use crate::error::{GroupsValidationError, NamingError};
use crate::name::{Name, spec_is_valid_name};
use crate::text::starts_with;

verus! {

/// Groups in the order of their names: each group name with the names of its glyphs.
pub type Groups = Vec<(Name, Vec<Name>)>;

/// The prefix of the first-side kerning groups.
pub open spec fn kern1_prefix() -> Seq<char> {
    "public.kern1."@
}

/// The prefix of the second-side kerning groups.
pub open spec fn kern2_prefix() -> Seq<char> {
    "public.kern2."@
}

/// The outcome of validating groups.
pub enum GroupsCheck {
    /// The groups are valid.
    Valid,
    /// A group name is empty or is a kerning prefix alone.
    InvalidName,
    /// A glyph is in two kerning groups of one side: the glyph, then the later group.
    Overlap(Seq<char>, Seq<char>),
}

/// The names of a list of names.
pub open spec fn name_views(names: Seq<Name>) -> Seq<Seq<char>> {
    names.map_values(|n: Name| n@)
}

/// A group as a name and the names of its glyphs.
pub open spec fn group_view(g: (Name, Vec<Name>)) -> (Seq<char>, Seq<Seq<char>>) {
    (g.0@, name_views(g.1@))
}

/// All groups as names.
pub open spec fn groups_view(gs: Seq<(Name, Vec<Name>)>) -> Seq<(Seq<char>, Seq<Seq<char>>)> {
    gs.map_values(|g: (Name, Vec<Name>)| group_view(g))
}

/// True when `name` starts with `prefix`.
pub open spec fn has_prefix(name: Seq<char>, prefix: Seq<char>) -> bool {
    prefix.len() <= name.len() && name.subrange(0, prefix.len() as int) == prefix
}

/// The glyphs of the groups before position `i` whose names start with `prefix`.
pub open spec fn members_before(gs: Seq<(Seq<char>, Seq<Seq<char>>)>, i: int, prefix: Seq<char>) -> Set<Seq<char>>
    decreases i,
{
    if i <= 0 {
        Set::empty()
    } else {
        let earlier = members_before(gs, i - 1, prefix);
        if has_prefix(gs[i - 1].0, prefix) {
            earlier + gs[i - 1].1.to_set()
        } else {
            earlier
        }
    }
}

/// True when the glyph at position `j` of `members` occurs in `seen` or earlier in
/// `members`.
pub open spec fn repeats_at(members: Seq<Seq<char>>, seen: Set<Seq<char>>, j: int) -> bool {
    seen.contains(members[j]) || members.subrange(0, j).contains(members[j])
}

/// The first position from `j` on at which a glyph repeats, if any.
pub open spec fn first_repeat_from(members: Seq<Seq<char>>, seen: Set<Seq<char>>, j: int) -> Option<int>
    decreases members.len() - j,
{
    if j < 0 || j >= members.len() {
        None
    } else if repeats_at(members, seen, j) {
        Some(j)
    } else {
        first_repeat_from(members, seen, j + 1)
    }
}

/// What the kerning group at position `i`, whose names start with `prefix`, is found
/// to be.
pub open spec fn kerning_group_check(gs: Seq<(Seq<char>, Seq<Seq<char>>)>, i: int, prefix: Seq<char>) -> GroupsCheck {
    let (name, members) = gs[i];
    if name.len() == prefix.len() {
        GroupsCheck::InvalidName
    } else {
        match first_repeat_from(members, members_before(gs, i, prefix), 0) {
            Some(j) => GroupsCheck::Overlap(members[j], name),
            None => GroupsCheck::Valid,
        }
    }
}

/// What the group at position `i` is found to be.
pub open spec fn group_check(gs: Seq<(Seq<char>, Seq<Seq<char>>)>, i: int) -> GroupsCheck {
    let name = gs[i].0;
    if name.len() == 0 {
        GroupsCheck::InvalidName
    } else if has_prefix(name, kern1_prefix()) {
        kerning_group_check(gs, i, kern1_prefix())
    } else if has_prefix(name, kern2_prefix()) {
        kerning_group_check(gs, i, kern2_prefix())
    } else {
        GroupsCheck::Valid
    }
}

/// What the groups from position `i` on are found to be: the first failing group's
/// verdict, or valid.
pub open spec fn groups_check_from(gs: Seq<(Seq<char>, Seq<Seq<char>>)>, i: int) -> GroupsCheck
    decreases gs.len() - i,
{
    if i < 0 || i >= gs.len() {
        GroupsCheck::Valid
    } else {
        match group_check(gs, i) {
            GroupsCheck::Valid => groups_check_from(gs, i + 1),
            failed => failed,
        }
    }
}

/// The glyphs of the groups whose names start with `prefix`, in the order of the groups
/// and of their glyphs.
pub open spec fn side_members(gs: Seq<(Seq<char>, Seq<Seq<char>>)>, prefix: Seq<char>) -> Seq<Seq<char>>
    decreases gs.len(),
{
    if gs.len() == 0 {
        Seq::empty()
    } else {
        side_members(gs.drop_last(), prefix) + if has_prefix(gs.last().0, prefix) {
            gs.last().1
        } else {
            Seq::empty()
        }
    }
}

/// True when no item occurs twice.
pub open spec fn no_repeats(s: Seq<Seq<char>>) -> bool {
    forall|a: int, b: int| 0 <= a < b < s.len() ==> s[a] != s[b]
}

/// True when a group name is allowed: not empty, and not a kerning prefix alone.
pub open spec fn group_name_ok(name: Seq<char>) -> bool {
    name.len() > 0 && name != kern1_prefix() && name != kern2_prefix()
}

proof fn lemma_groups_check_from(gs: Seq<(Seq<char>, Seq<Seq<char>>)>, i: int)
    requires
        0 <= i <= gs.len(),
    ensures
        groups_check_from(gs, i) is Valid <==> forall|k: int| i <= k < gs.len() ==> #[trigger] group_check(gs, k) is Valid,
    decreases gs.len() - i,
{
    if i < gs.len() {
        lemma_groups_check_from(gs, i + 1);
    }
}

proof fn lemma_first_repeat_none(members: Seq<Seq<char>>, seen: Set<Seq<char>>, j: int)
    requires
        0 <= j <= members.len(),
    ensures
        first_repeat_from(members, seen, j) is None <==> forall|k: int| j <= k < members.len() ==> !#[trigger] repeats_at(
            members,
            seen,
            k,
        ),
    decreases members.len() - j,
{
    if j < members.len() {
        lemma_first_repeat_none(members, seen, j + 1);
    }
}

proof fn lemma_no_repeat_fresh(members: Seq<Seq<char>>, seen: Set<Seq<char>>)
    ensures
        (forall|k: int| 0 <= k < members.len() ==> !#[trigger] repeats_at(members, seen, k)) <==> (no_repeats(members)
            && forall|k: int| 0 <= k < members.len() ==> !seen.contains(#[trigger] members[k])),
{
    if forall|k: int| 0 <= k < members.len() ==> !#[trigger] repeats_at(members, seen, k) {
        assert forall|a: int, b: int| 0 <= a < b < members.len() implies members[a] != members[b] by {
            assert(!repeats_at(members, seen, b));
            if members[a] == members[b] {
                assert(members.subrange(0, b)[a] == members[b]);
            }
        }
        assert forall|k: int| 0 <= k < members.len() implies !seen.contains(#[trigger] members[k]) by {
            assert(!repeats_at(members, seen, k));
        }
    }
    if no_repeats(members) && forall|k: int| 0 <= k < members.len() ==> !seen.contains(#[trigger] members[k]) {
        assert forall|k: int| 0 <= k < members.len() implies !#[trigger] repeats_at(members, seen, k) by {
            if members.subrange(0, k).contains(members[k]) {
                let a = choose|a: int| 0 <= a < k && members.subrange(0, k)[a] == members[k];
                assert(members[a] == members[k]);
            }
        }
    }
}

proof fn lemma_members_before(gs: Seq<(Seq<char>, Seq<Seq<char>>)>, i: int, prefix: Seq<char>)
    requires
        0 <= i <= gs.len(),
    ensures
        members_before(gs, i, prefix) == side_members(gs.take(i), prefix).to_set(),
    decreases i,
{
    if i > 0 {
        lemma_members_before(gs, i - 1, prefix);
        let t = gs.take(i);
        assert(t.drop_last() =~= gs.take(i - 1));
        assert(t.last() == gs[i - 1]);
        let a = side_members(gs.take(i - 1), prefix);
        let b = if has_prefix(gs[i - 1].0, prefix) {
            gs[i - 1].1
        } else {
            Seq::<Seq<char>>::empty()
        };
        assert forall|x: Seq<char>| (a + b).to_set().contains(x) <==> (a.to_set() + b.to_set()).contains(x) by {
            if (a + b).contains(x) {
                let k = choose|k: int| 0 <= k < (a + b).len() && (a + b)[k] == x;
                if k < a.len() {
                    assert(a[k] == x);
                } else {
                    assert(b[k - a.len()] == x);
                }
            }
            if a.contains(x) {
                let k = choose|k: int| 0 <= k < a.len() && a[k] == x;
                assert((a + b)[k] == x);
            }
            if b.contains(x) {
                let k = choose|k: int| 0 <= k < b.len() && b[k] == x;
                assert((a + b)[a.len() + k] == x);
            }
        }
        assert((a + b).to_set() =~= a.to_set() + b.to_set());
        if !has_prefix(gs[i - 1].0, prefix) {
            assert(b.to_set() =~= Set::<Seq<char>>::empty());
        }
    } else {
        assert(side_members(gs.take(0), prefix) =~= Seq::<Seq<char>>::empty());
        assert(Seq::<Seq<char>>::empty().to_set() =~= Set::<Seq<char>>::empty());
    }
}

proof fn lemma_no_repeats_concat(a: Seq<Seq<char>>, b: Seq<Seq<char>>)
    ensures
        no_repeats(a + b) <==> (no_repeats(a) && no_repeats(b) && forall|k: int| 0 <= k < b.len() ==> !a.to_set().contains(
            #[trigger] b[k],
        )),
{
    let c = a + b;
    if no_repeats(c) {
        assert forall|x: int, y: int| 0 <= x < y < a.len() implies a[x] != a[y] by {
            assert(c[x] == a[x] && c[y] == a[y]);
        }
        assert forall|x: int, y: int| 0 <= x < y < b.len() implies b[x] != b[y] by {
            assert(c[a.len() + x] == b[x] && c[a.len() + y] == b[y]);
        }
        assert forall|k: int| 0 <= k < b.len() implies !a.to_set().contains(#[trigger] b[k]) by {
            if a.contains(b[k]) {
                let x = choose|x: int| 0 <= x < a.len() && a[x] == b[k];
                assert(c[x] == a[x] && c[a.len() + k] == b[k]);
            }
        }
    }
    if no_repeats(a) && no_repeats(b) && forall|k: int| 0 <= k < b.len() ==> !a.to_set().contains(#[trigger] b[k]) {
        assert forall|x: int, y: int| 0 <= x < y < c.len() implies c[x] != c[y] by {
            if y < a.len() {
                assert(c[x] == a[x] && c[y] == a[y]);
            } else if x >= a.len() {
                assert(c[x] == b[x - a.len()] && c[y] == b[y - a.len()]);
            } else {
                assert(c[x] == a[x] && c[y] == b[y - a.len()]);
                assert(!a.to_set().contains(b[y - a.len()]));
                assert(a.contains(a[x]));
            }
        }
    }
}

proof fn lemma_prefixes_exclusive(name: Seq<char>)
    ensures
        !(has_prefix(name, kern1_prefix()) && has_prefix(name, kern2_prefix())),
        has_prefix(kern1_prefix(), kern1_prefix()),
        has_prefix(kern2_prefix(), kern2_prefix()),
        kern1_prefix() != kern2_prefix(),
{
    reveal_strlit("public.kern1.");
    reveal_strlit("public.kern2.");
    assert(kern1_prefix()[11] != kern2_prefix()[11]);
    if has_prefix(name, kern1_prefix()) && has_prefix(name, kern2_prefix()) {
        assert(name.subrange(0, 13)[11] == kern1_prefix()[11]);
        assert(name.subrange(0, 13)[11] == kern2_prefix()[11]);
    }
    assert(kern1_prefix().subrange(0, 13) =~= kern1_prefix());
    assert(kern2_prefix().subrange(0, 13) =~= kern2_prefix());
}

proof fn lemma_valid_upto(gs: Seq<(Seq<char>, Seq<Seq<char>>)>, n: int)
    requires
        0 <= n <= gs.len(),
    ensures
        (forall|k: int| 0 <= k < n ==> #[trigger] group_check(gs, k) is Valid) <==> ((forall|k: int|
            0 <= k < n ==> group_name_ok(#[trigger] gs[k].0)) && no_repeats(side_members(gs.take(n), kern1_prefix()))
            && no_repeats(side_members(gs.take(n), kern2_prefix()))),
    decreases n,
{
    if n == 0 {
        assert(side_members(gs.take(0), kern1_prefix()) =~= Seq::<Seq<char>>::empty());
        assert(side_members(gs.take(0), kern2_prefix()) =~= Seq::<Seq<char>>::empty());
    } else {
        let m = n - 1;
        lemma_valid_upto(gs, m);
        let t = gs.take(n);
        assert(t.drop_last() =~= gs.take(m));
        assert(t.last() == gs[m]);
        let (name, members) = gs[m];
        lemma_prefixes_exclusive(name);
        let s1 = side_members(gs.take(m), kern1_prefix());
        let s2 = side_members(gs.take(m), kern2_prefix());
        let e = Seq::<Seq<char>>::empty();
        lemma_members_before(gs, m, kern1_prefix());
        lemma_members_before(gs, m, kern2_prefix());
        lemma_first_repeat_none(members, members_before(gs, m, kern1_prefix()), 0);
        lemma_first_repeat_none(members, members_before(gs, m, kern2_prefix()), 0);
        lemma_no_repeat_fresh(members, members_before(gs, m, kern1_prefix()));
        lemma_no_repeat_fresh(members, members_before(gs, m, kern2_prefix()));
        lemma_no_repeats_concat(s1, members);
        lemma_no_repeats_concat(s2, members);
        assert(s1 + e =~= s1);
        assert(s2 + e =~= s2);
        if has_prefix(name, kern1_prefix()) && name.len() == kern1_prefix().len() {
            assert(name =~= kern1_prefix()) by {
                assert(name.subrange(0, kern1_prefix().len() as int) =~= name);
            }
        }
        if has_prefix(name, kern2_prefix()) && name.len() == kern2_prefix().len() {
            assert(name =~= kern2_prefix()) by {
                assert(name.subrange(0, kern2_prefix().len() as int) =~= name);
            }
        }
        if (forall|k: int| 0 <= k < n ==> #[trigger] group_check(gs, k) is Valid) {
            assert(group_check(gs, m) is Valid);
        }
        if (forall|k: int| 0 <= k < n ==> group_name_ok(#[trigger] gs[k].0)) && no_repeats(
            side_members(gs.take(n), kern1_prefix()),
        ) && no_repeats(side_members(gs.take(n), kern2_prefix())) {
            assert(group_name_ok(gs[m].0));
        }
    }
}

/// The groups are valid exactly when no group name is empty or a kerning prefix alone,
/// and on each side of kerning no glyph is in two groups, nor twice in one: the glyphs
/// of all `public.kern1.` groups, taken together, hold no glyph twice, and so do those
/// of all `public.kern2.` groups. Other groups are not constrained.
pub proof fn law_groups_valid(gs: Seq<(Seq<char>, Seq<Seq<char>>)>)
    ensures
        groups_check_from(gs, 0) is Valid <==> ((forall|k: int| 0 <= k < gs.len() ==> group_name_ok(#[trigger] gs[k].0))
            && no_repeats(side_members(gs, kern1_prefix())) && no_repeats(side_members(gs, kern2_prefix()))),
{
    lemma_groups_check_from(gs, 0);
    lemma_valid_upto(gs, gs.len() as int);
    assert(gs.take(gs.len() as int) =~= gs);
}

/// True when `res` reports the verdict `check`.
pub open spec fn reports(res: Result<(), GroupsValidationError>, check: GroupsCheck) -> bool {
    match check {
        GroupsCheck::Valid => res is Ok,
        GroupsCheck::InvalidName => res matches Err(GroupsValidationError::InvalidName),
        GroupsCheck::Overlap(g, n) => res matches Err(
            GroupsValidationError::OverlappingKerningGroups { glyph_name, group_name },
        ) && glyph_name@ == g && group_name@ == n,
    }
}

fn contains_name(seen: &Vec<Name>, name: &Name) -> (res: bool)
    ensures
        res == name_views(seen@).contains(name@),
{
    let mut i: usize = 0;
    while i < seen.len()
        invariant
            0 <= i <= seen@.len(),
            forall|k: int| 0 <= k < i ==> #[trigger] seen@[k]@ != name@,
        decreases seen@.len() - i,
    {
        if crate::text::str_eq(seen[i].as_str(), name.as_str()) {
            assert(name_views(seen@)[i as int] == name@);
            return true;
        }
        i += 1;
    }
    proof {
        if name_views(seen@).contains(name@) {
            let k = choose|k: int| 0 <= k < name_views(seen@).len() && name_views(seen@)[k] == name@;
            assert(seen@[k]@ == name@);
        }
    }
    false
}

/// Checks one kerning group whose name is `name` and starts with the prefix; adds its
/// glyphs to `seen`.
fn check_kerning_group(
    name: &Name,
    members: &Vec<Name>,
    prefix_len: usize,
    seen: &mut Vec<Name>,
) -> (res: Result<(), GroupsValidationError>)
    requires
        prefix_len <= name@.len(),
    ensures
        ({
            let ms = name_views(members@);
            let check = if name@.len() == prefix_len {
                GroupsCheck::InvalidName
            } else {
                match first_repeat_from(ms, name_views(old(seen)@).to_set(), 0) {
                    Some(j) => GroupsCheck::Overlap(ms[j], name@),
                    None => GroupsCheck::Valid,
                }
            };
            &&& reports(res, check)
            &&& res is Ok ==> name_views(final(seen)@).to_set() == name_views(old(seen)@).to_set() + ms.to_set()
        }),
{
    let ghost ms = name_views(members@);
    let ghost seen0 = name_views(seen@).to_set();
    if name.as_str().unicode_len() == prefix_len {
        return Err(GroupsValidationError::InvalidName);
    }
    let mut j: usize = 0;
    while j < members.len()
        invariant
            0 <= j <= members@.len(),
            ms == name_views(members@),
            name_views(seen@).to_set() == seen0 + ms.subrange(0, j as int).to_set(),
            forall|k: int| 0 <= k < j ==> !#[trigger] repeats_at(ms, seen0, k),
            first_repeat_from(ms, seen0, 0) == first_repeat_from(ms, seen0, j as int),
            seen0 == name_views(old(seen)@).to_set(),
            name@.len() != prefix_len,
        decreases members@.len() - j,
    {
        let ghost before = seen@;
        if contains_name(seen, &members[j]) {
            proof {
                assert(ms[j as int] == members@[j as int]@);
                assert(name_views(seen@).to_set().contains(ms[j as int]));
                assert(repeats_at(ms, seen0, j as int)) by {
                    if !seen0.contains(ms[j as int]) {
                        assert(ms.subrange(0, j as int).to_set().contains(ms[j as int]));
                    }
                }
                assert(first_repeat_from(ms, seen0, j as int) == Some(j as int));
            }
            return Err(
                GroupsValidationError::OverlappingKerningGroups {
                    glyph_name: members[j].as_str().to_owned(),
                    group_name: name.as_str().to_owned(),
                },
            );
        }
        proof {
            assert(!name_views(seen@).to_set().contains(ms[j as int]));
            assert(!repeats_at(ms, seen0, j as int)) by {
                if ms.subrange(0, j as int).contains(ms[j as int]) {
                    assert(ms.subrange(0, j as int).to_set().contains(ms[j as int]));
                }
            }
        }
        seen.push(members[j].clone());
        proof {
            assert(name_views(seen@) =~= name_views(before).push(members@[j as int]@));
            name_views(before).lemma_push_to_set_commute(members@[j as int]@);
            ms.subrange(0, j as int).lemma_push_to_set_commute(ms[j as int]);
            assert(first_repeat_from(ms, seen0, j as int) == first_repeat_from(ms, seen0, j + 1));
            assert(ms.subrange(0, j + 1) =~= ms.subrange(0, j as int).push(ms[j as int]));
            assert(name_views(seen@).to_set() =~= seen0 + ms.subrange(0, j + 1).to_set());
        }
        j += 1;
    }
    proof {
        assert(ms.subrange(0, ms.len() as int) =~= ms);
    }
    Ok(())
}

/// Validate groups according to the rules of the UFO specification for groups.plist:
/// group names are not empty, a kerning group name is more than its prefix, and no
/// glyph is in two kerning groups of one side.
pub fn validate_groups(groups: &Groups) -> (res: Result<(), GroupsValidationError>)
    ensures
        reports(res, groups_check_from(groups_view(groups@), 0)),
{
    let ghost gs = groups_view(groups@);
    let mut kern1: Vec<Name> = Vec::new();
    let mut kern2: Vec<Name> = Vec::new();
    let kern1_text = "public.kern1.";
    let kern2_text = "public.kern2.";
    proof {
        reveal_strlit("public.kern1.");
        reveal_strlit("public.kern2.");
    }
    let mut i: usize = 0;
    while i < groups.len()
        invariant
            0 <= i <= groups@.len(),
            gs == groups_view(groups@),
            kern1_text@ == kern1_prefix(),
            kern2_text@ == kern2_prefix(),
            kern1_prefix().len() == 13,
            kern2_prefix().len() == 13,
            kern1_prefix()[11] == '1',
            kern2_prefix()[11] == '2',
            name_views(kern1@).to_set() == members_before(gs, i as int, kern1_prefix()),
            name_views(kern2@).to_set() == members_before(gs, i as int, kern2_prefix()),
            groups_check_from(gs, 0) == groups_check_from(gs, i as int),
        decreases groups@.len() - i,
    {
        let name = &groups[i].0;
        let members = &groups[i].1;
        let s = name.as_str();
        proof {
            assert(gs[i as int] == group_view(groups@[i as int]));
            assert(kern1_prefix()[11] != kern2_prefix()[11]);
            assert(members_before(gs, i + 1, kern1_prefix()) == (if has_prefix(gs[i as int].0, kern1_prefix()) {
                members_before(gs, i as int, kern1_prefix()) + gs[i as int].1.to_set()
            } else {
                members_before(gs, i as int, kern1_prefix())
            }));
            assert(members_before(gs, i + 1, kern2_prefix()) == (if has_prefix(gs[i as int].0, kern2_prefix()) {
                members_before(gs, i as int, kern2_prefix()) + gs[i as int].1.to_set()
            } else {
                members_before(gs, i as int, kern2_prefix())
            }));
            if has_prefix(s@, kern1_prefix()) && has_prefix(s@, kern2_prefix()) {
                assert(s@.subrange(0, 13)[11] == kern1_prefix()[11]);
                assert(s@.subrange(0, 13)[11] == kern2_prefix()[11]);
            }
        }
        if s.unicode_len() == 0 {
            return Err(GroupsValidationError::InvalidName);
        }
        if starts_with(s, kern1_text) {
            let r = check_kerning_group(name, members, 13, &mut kern1);
            if r.is_err() {
                return r;
            }
        } else if starts_with(s, kern2_text) {
            let r = check_kerning_group(name, members, 13, &mut kern2);
            if r.is_err() {
                return r;
            }
        }
        i += 1;
    }
    Ok(())
}

/// True when `s` is empty or a valid name.
pub open spec fn raw_member_ok(s: String) -> bool {
    s@.len() == 0 || spec_is_valid_name(s@)
}

/// True when a group read from groups.plist has a valid name and every glyph name in
/// it is empty or valid.
pub open spec fn raw_group_ok(g: (String, Vec<String>)) -> bool {
    spec_is_valid_name(g.0@) && forall|j: int| 0 <= j < g.1@.len() ==> #[trigger] raw_member_ok(g.1@[j])
}

/// Builds groups from names read from groups.plist: empty glyph names are dropped, and
/// every other name must be valid.
pub fn groups_from_raw(raw: Vec<(String, Vec<String>)>) -> (res: Result<Groups, NamingError>)
    ensures
        res is Ok <==> (forall|i: int| 0 <= i < raw@.len() ==> #[trigger] raw_group_ok(raw@[i])),
        res matches Ok(gs) ==> gs@.len() == raw@.len() && forall|i: int| 0 <= i < raw@.len() ==> {
            &&& (#[trigger] gs@[i]).0@ == raw@[i].0@
            &&& name_views(gs@[i].1@) == raw@[i].1@.map_values(|s: String| s@).filter(|s: Seq<char>| s.len() > 0)
        },
{
    let mut out: Groups = Vec::new();
    let mut i: usize = 0;
    while i < raw.len()
        invariant
            0 <= i <= raw@.len(),
            out@.len() == i,
            forall|k: int| 0 <= k < i ==> #[trigger] raw_group_ok(raw@[k]),
            forall|k: int| 0 <= k < i ==> {
                &&& (#[trigger] out@[k]).0@ == raw@[k].0@
                &&& name_views(out@[k].1@) == raw@[k].1@.map_values(|s: String| s@).filter(|s: Seq<char>| s.len() > 0)
            },
        decreases raw@.len() - i,
    {
        let key = match Name::new(raw[i].0.as_str()) {
            Ok(n) => n,
            Err(e) => {
                assert(!raw_group_ok(raw@[i as int]));
                return Err(e);
            },
        };
        assert(spec_is_valid_name(raw@[i as int].0@));
        let ghost strs = raw@[i as int].1@.map_values(|s: String| s@);
        let mut members: Vec<Name> = Vec::new();
        let mut j: usize = 0;
        while j < raw[i].1.len()
            invariant
                0 <= i < raw@.len(),
                0 <= j <= raw@[i as int].1@.len(),
                strs == raw@[i as int].1@.map_values(|s: String| s@),
                forall|k: int| 0 <= k < j ==> #[trigger] raw_member_ok(raw@[i as int].1@[k]),
                name_views(members@) == strs.subrange(0, j as int).filter(|s: Seq<char>| s.len() > 0),
            decreases raw@[i as int].1@.len() - j,
        {
            let s = raw[i].1[j].as_str();
            let ghost before = members@;
            proof {
                assert(strs.subrange(0, j + 1) =~= strs.subrange(0, j as int).push(strs[j as int]));
                strs.subrange(0, j as int).lemma_filter_push(strs[j as int], |s: Seq<char>| s.len() > 0);
            }
            if s.unicode_len() > 0 {
                match Name::new(s) {
                    Ok(n) => {
                        members.push(n);
                        assert(name_views(members@) =~= name_views(before).push(s@));
                    },
                    Err(e) => {
                        assert(!raw_member_ok(raw@[i as int].1@[j as int]));
                        assert(!raw_group_ok(raw@[i as int]));
                        return Err(e);
                    },
                }
            }
            j += 1;
        }
        proof {
            assert(strs.subrange(0, j as int) =~= strs);
        }
        assert(raw_group_ok(raw@[i as int]));
        out.push((key, members));
        i += 1;
    }
    Ok(out)
}

} // verus!
