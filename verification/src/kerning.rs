//! Kerning pairs and their lookup through kerning groups.

use vstd::prelude::*;

use crate::groups::{has_prefix, Groups};
use crate::name::Name;
use crate::shared_types::FloatBits;
use crate::text::{starts_with, str_eq};

verus! {

/// A map of kerning pairs: the first half of a pair (a glyph or a group name) to the
/// second halves it is kerned with, each with its kerning value.
pub type Kerning = Vec<(Name, Vec<(Name, FloatBits)>)>;

/// The second halves kerned with `first`: those of the first entry named `first`.
pub open spec fn row_for(k: Seq<(Name, Vec<(Name, FloatBits)>)>, first: Seq<char>) -> Option<Seq<(Name, FloatBits)>>
    decreases k.len(),
{
    if k.len() == 0 {
        None
    } else if k[0].0@ == first {
        Some(k[0].1@)
    } else {
        row_for(k.drop_first(), first)
    }
}

/// The value of the first entry of `row` named `second`.
pub open spec fn value_in(row: Seq<(Name, FloatBits)>, second: Seq<char>) -> Option<u64>
    decreases row.len(),
{
    if row.len() == 0 {
        None
    } else if row[0].0@ == second {
        Some(row[0].1.0)
    } else {
        value_in(row.drop_first(), second)
    }
}

/// The value kerning `first` with `second`, where the map holds one.
pub open spec fn pair_value(k: Seq<(Name, Vec<(Name, FloatBits)>)>, first: Seq<char>, second: Seq<char>) -> Option<u64> {
    match row_for(k, first) {
        Some(row) => value_in(row, second),
        None => None,
    }
}

/// The kerning group of `glyph` among the groups whose names start with `prefix`:
/// the last such group that lists the glyph.
pub open spec fn group_for(groups: Seq<(Name, Vec<Name>)>, prefix: Seq<char>, glyph: Seq<char>) -> Option<Seq<char>>
    decreases groups.len(),
{
    if groups.len() == 0 {
        None
    } else {
        let g = groups.last();
        if has_prefix(g.0@, prefix) && exists|j: int| 0 <= j < g.1@.len() && #[trigger] g.1@[j]@ == glyph {
            Some(g.0@)
        } else {
            group_for(groups.drop_last(), prefix, glyph)
        }
    }
}

/// The prefix of the groups of glyphs that stand first in a pair.
pub open spec fn first_prefix() -> Seq<char> {
    "public.kern1."@
}

/// The prefix of the groups of glyphs that stand second in a pair.
pub open spec fn second_prefix() -> Seq<char> {
    "public.kern2."@
}

/// The kerning value of a pair, each half a glyph or a group name: the pair itself,
/// then the first half with the second's group, then the first's group with the second
/// half, then the two groups.
pub open spec fn resolve(
    k: Seq<(Name, Vec<(Name, FloatBits)>)>,
    groups: Seq<(Name, Vec<Name>)>,
    first: Seq<char>,
    second: Seq<char>,
) -> Option<u64> {
    let g1 = group_for(groups, first_prefix(), first);
    let g2 = group_for(groups, second_prefix(), second);
    if pair_value(k, first, second) is Some {
        pair_value(k, first, second)
    } else if g2 is Some && pair_value(k, first, g2->0) is Some {
        pair_value(k, first, g2->0)
    } else if g1 is Some && pair_value(k, g1->0, second) is Some {
        pair_value(k, g1->0, second)
    } else if g1 is Some && g2 is Some {
        pair_value(k, g1->0, g2->0)
    } else {
        None
    }
}

/// The last entry of `pairs` whose first name is `key`, by its second name.
pub open spec fn last_match(pairs: Seq<(Name, Name)>, key: Seq<char>) -> Option<Seq<char>>
    decreases pairs.len(),
{
    if pairs.len() == 0 {
        None
    } else if pairs.last().0@ == key {
        Some(pairs.last().1@)
    } else {
        last_match(pairs.drop_last(), key)
    }
}

/// A name, if any, by its characters.
pub open spec fn opt_name(o: Option<Name>) -> Option<Seq<char>> {
    match o {
        Some(n) => Some(n@),
        None => None,
    }
}

/// A kerning value, if any, by its bits.
pub open spec fn opt_bits(o: Option<FloatBits>) -> Option<u64> {
    match o {
        Some(b) => Some(b.0),
        None => None,
    }
}

/// Looks up `key` among `pairs`, the last matching entry winning.
fn find_last(pairs: &Vec<(Name, Name)>, key: &str) -> (res: Option<Name>)
    ensures
        opt_name(res) == last_match(pairs@, key@),
{
    let mut i: usize = pairs.len();
    assert(pairs@.take(i as int) =~= pairs@);
    while i > 0
        invariant
            i <= pairs@.len(),
            last_match(pairs@, key@) == last_match(pairs@.take(i as int), key@),
        decreases i,
    {
        let entry = &pairs[i - 1];
        assert(pairs@.take(i as int).last() == pairs@[i - 1]);
        if str_eq(entry.0.as_str(), key) {
            return Some(entry.1.clone());
        }
        assert(pairs@.take(i as int).drop_last() =~= pairs@.take(i - 1));
        i -= 1;
    }
    None
}

/// The glyph-to-group entries of the groups whose names start with `prefix`, in order,
/// so that the last entry for a glyph names its group.
fn members_index(groups: &Groups, prefix: &str) -> (res: Vec<(Name, Name)>)
    ensures
        forall|key: Seq<char>| #[trigger] last_match(res@, key) == group_for(groups@, prefix@, key),
{
    let mut pairs: Vec<(Name, Name)> = Vec::new();
    let mut i: usize = 0;
    while i < groups.len()
        invariant
            i <= groups@.len(),
            forall|key: Seq<char>| #[trigger] last_match(pairs@, key) == group_for(groups@.take(i as int), prefix@, key),
        decreases groups@.len() - i,
    {
        let group = &groups[i];
        assert(groups@.take(i + 1).last() == groups@[i as int]);
        assert(groups@.take(i + 1).drop_last() =~= groups@.take(i as int));
        if starts_with(group.0.as_str(), prefix) {
            let ghost before = pairs@;
            let members = &group.1;
            let mut j: usize = 0;
            while j < members.len()
                invariant
                    i < groups@.len(),
                    group == groups@[i as int],
                    members == group.1,
                    j <= members@.len(),
                    forall|key: Seq<char>| #[trigger] last_match(before, key) == group_for(groups@.take(i as int), prefix@, key),
                    forall|key: Seq<char>| #[trigger] last_match(pairs@, key) == if exists|m: int| 0 <= m < j && #[trigger] members@[m]@ == key {
                        Some(group.0@)
                    } else {
                        last_match(before, key)
                    },
                decreases members@.len() - j,
            {
                let ghost old_pairs = pairs@;
                let m = members[j].clone();
                let gname = group.0.clone();
                pairs.push((m, gname));
                assert(pairs@.drop_last() =~= old_pairs);
                assert(pairs@.last().0@ == members@[j as int]@);
                assert(pairs@.last().1@ == group.0@);
                assert forall|key: Seq<char>| #[trigger] last_match(pairs@, key) == if exists|m: int| 0 <= m < j + 1 && #[trigger] members@[m]@ == key {
                    Some(group.0@)
                } else {
                    last_match(before, key)
                } by {
                    assert(last_match(pairs@.drop_last(), key) == last_match(old_pairs, key));
                    if members@[j as int]@ == key {
                        assert(0 <= j < j + 1 && members@[j as int]@ == key);
                    } else {
                        if exists|m: int| 0 <= m < j + 1 && #[trigger] members@[m]@ == key {
                            let m = choose|m: int| 0 <= m < j + 1 && #[trigger] members@[m]@ == key;
                            assert(0 <= m < j && members@[m]@ == key);
                        }
                    }
                }
                j += 1;
            }
            assert forall|key: Seq<char>| #[trigger] last_match(pairs@, key) == group_for(groups@.take(i + 1), prefix@, key) by {
                let g = groups@.take(i + 1).last();
                assert(g == groups@[i as int]);
                if exists|m: int| 0 <= m < members@.len() && #[trigger] members@[m]@ == key {
                    let m = choose|m: int| 0 <= m < members@.len() && #[trigger] members@[m]@ == key;
                    assert(0 <= m < g.1@.len() && g.1@[m]@ == key);
                }
            }
        }
        i += 1;
    }
    assert(groups@.take(groups@.len() as int) =~= groups@);
    pairs
}

/// The first entry of `rows` named `first`, by its second halves.
fn find_row<'a>(rows: &'a Kerning, first: &str) -> (res: Option<&'a Vec<(Name, FloatBits)>>)
    ensures
        match res {
            Some(row) => row_for(rows@, first@) == Some(row@),
            None => row_for(rows@, first@) is None,
        },
{
    let mut i: usize = 0;
    assert(rows@.subrange(0, rows@.len() as int) =~= rows@);
    while i < rows.len()
        invariant
            i <= rows@.len(),
            row_for(rows@, first@) == row_for(rows@.subrange(i as int, rows@.len() as int), first@),
        decreases rows@.len() - i,
    {
        let entry = &rows[i];
        assert(rows@.subrange(i as int, rows@.len() as int)[0] == rows@[i as int]);
        if str_eq(entry.0.as_str(), first) {
            return Some(&entry.1);
        }
        assert(rows@.subrange(i as int, rows@.len() as int).drop_first() =~= rows@.subrange(i + 1, rows@.len() as int));
        i += 1;
    }
    None
}

/// The value of the first entry of `row` named `second`.
fn find_value(row: &Vec<(Name, FloatBits)>, second: &str) -> (res: Option<FloatBits>)
    ensures
        opt_bits(res) == value_in(row@, second@),
{
    let mut i: usize = 0;
    assert(row@.subrange(0, row@.len() as int) =~= row@);
    while i < row.len()
        invariant
            i <= row@.len(),
            value_in(row@, second@) == value_in(row@.subrange(i as int, row@.len() as int), second@),
        decreases row@.len() - i,
    {
        let entry = &row[i];
        assert(row@.subrange(i as int, row@.len() as int)[0] == row@[i as int]);
        if str_eq(entry.0.as_str(), second) {
            return Some(entry.1);
        }
        assert(row@.subrange(i as int, row@.len() as int).drop_first() =~= row@.subrange(i + 1, row@.len() as int));
        i += 1;
    }
    None
}

/// The kerning value of the pair `first`, `second` as the map holds it.
pub fn kerning_lookup(kerning: &Kerning, first: &str, second: &str) -> (res: Option<FloatBits>)
    ensures
        opt_bits(res) == pair_value(kerning@, first@, second@),
{
    match find_row(kerning, first) {
        Some(row) => find_value(row, second),
        None => None,
    }
}

/// A helper for kerning lookups that resolves the kerning groups of glyphs.
pub struct KerningResolver<'font> {
    kerning: &'font Kerning,
    first: Vec<(Name, Name)>,
    second: Vec<(Name, Name)>,
    groups: Ghost<Seq<(Name, Vec<Name>)>>,
}

impl<'font> KerningResolver<'font> {
    #[verifier::type_invariant]
    closed spec fn inv(self) -> bool {
        &&& forall|key: Seq<char>| #[trigger] last_match(self.first@, key) == group_for(self.groups@, first_prefix(), key)
        &&& forall|key: Seq<char>| #[trigger] last_match(self.second@, key) == group_for(self.groups@, second_prefix(), key)
    }

    /// The kerning pairs that the resolver reads.
    pub closed spec fn kerning(self) -> Seq<(Name, Vec<(Name, FloatBits)>)> {
        self.kerning@
    }

    /// The groups that the resolver was made from.
    pub closed spec fn groups(self) -> Seq<(Name, Vec<Name>)> {
        self.groups@
    }

    /// Makes a resolver for `kerning` that knows the kerning groups among `groups`.
    pub fn new(kerning: &'font Kerning, groups: &Groups) -> (res: Self)
        ensures
            res.kerning() == kerning@,
            res.groups() == groups@,
    {
        let kern1 = "public.kern1.";
        let kern2 = "public.kern2.";
        proof {
            reveal_strlit("public.kern1.");
            reveal_strlit("public.kern2.");
        }
        let first = members_index(groups, kern1);
        let second = members_index(groups, kern2);
        KerningResolver { kerning, first, second, groups: Ghost(groups@) }
    }

    /// The group, if any, of the glyph when it stands first in a kerning pair.
    pub fn get_first_group(&self, glyph_name: &str) -> (res: Option<Name>)
        ensures
            opt_name(res) == group_for(self.groups(), first_prefix(), glyph_name@),
    {
        proof {
            use_type_invariant(self);
        }
        find_last(&self.first, glyph_name)
    }

    /// The group, if any, of the glyph when it stands second in a kerning pair.
    pub fn get_second_group(&self, glyph_name: &str) -> (res: Option<Name>)
        ensures
            opt_name(res) == group_for(self.groups(), second_prefix(), glyph_name@),
    {
        proof {
            use_type_invariant(self);
        }
        find_last(&self.second, glyph_name)
    }

    /// The kerning value, if any, between two elements, each a glyph or a kerning group
    /// (by name).
    pub fn get(&self, first: &str, second: &str) -> (res: Option<FloatBits>)
        ensures
            opt_bits(res) == resolve(self.kerning(), self.groups(), first@, second@),
    {
        if let Some(kern) = kerning_lookup(self.kerning, first, second) {
            return Some(kern);
        }
        let second_group = self.get_second_group(second);
        if let Some(g2) = &second_group {
            if let Some(kern) = kerning_lookup(self.kerning, first, g2.as_str()) {
                return Some(kern);
            }
        }
        let first_group = self.get_first_group(first);
        if let Some(g1) = &first_group {
            if let Some(kern) = kerning_lookup(self.kerning, g1.as_str(), second) {
                return Some(kern);
            }
        }
        if let (Some(g1), Some(g2)) = (&first_group, &second_group) {
            return kerning_lookup(self.kerning, g1.as_str(), g2.as_str());
        }
        None
    }
}

} // verus!
