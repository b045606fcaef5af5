//! Interned glyph names.
//!
//! Names that many glyphs share, such as the base of a component, are kept once: a
//! [`NameList`] hands out the name it holds already for a name equal to it.

use vstd::prelude::*;

use crate::name::Name;
use crate::text::str_eq;

verus! {

/// The text of each name of a list.
pub open spec fn name_texts(names: Seq<Name>) -> Seq<Seq<char>> {
    names.map_values(|n: Name| n@)
}

/// A set of names.
#[derive(Debug, Default)]
pub struct NameList {
    names: Vec<Name>,
}

impl NameList {
    /// The names held, in the order in which they came.
    pub closed spec fn spec_names(&self) -> Seq<Seq<char>> {
        name_texts(self.names@)
    }

    /// A list holding no name.
    pub fn new() -> (res: Self)
        ensures
            res.spec_names().len() == 0,
    {
        NameList { names: Vec::new() }
    }

    fn position(&self, key: &str) -> (res: Option<usize>)
        ensures
            match res {
                Some(i) => i < self.spec_names().len() && self.spec_names()[i as int] == key@,
                None => !self.spec_names().contains(key@),
            },
    {
        let mut i: usize = 0;
        while i < self.names.len()
            invariant
                0 <= i <= self.names@.len(),
                forall|j: int| 0 <= j < i ==> #[trigger] self.names@[j]@ != key@,
            decreases self.names@.len() - i,
        {
            if str_eq(self.names[i].as_str(), key) {
                return Some(i);
            }
            i += 1;
        }
        proof {
            if self.spec_names().contains(key@) {
                let j = choose|j: int| 0 <= j < self.spec_names().len() && self.spec_names()[j] == key@;
                assert(self.names@[j]@ == key@);
            }
        }
        None
    }

    /// The name held that equals `name`; `name` is added first when none does.
    pub fn get(&mut self, name: &Name) -> (res: Name)
        ensures
            res@ == name@,
            old(self).spec_names().contains(name@) ==> final(self).spec_names() == old(self).spec_names(),
            !old(self).spec_names().contains(name@) ==> final(self).spec_names() == old(self).spec_names().push(name@),
    {
        match self.position(name.as_str()) {
            Some(i) => self.names[i].clone(),
            None => {
                let ghost before = self.names@;
                self.names.push(name.clone());
                assert(name_texts(self.names@) =~= name_texts(before).push(name@));
                name.clone()
            },
        }
    }

    /// Whether a name with the text `key` is held.
    pub fn contains(&self, key: &str) -> (res: bool)
        ensures
            res == self.spec_names().contains(key@),
    {
        self.position(key).is_some()
    }
}

/// Handing out a name never changes what it says, and asking twice for a name leaves
/// the list as the first time did.
pub proof fn law_get_is_idempotent(names: Seq<Seq<char>>, n: Seq<char>)
    ensures
        ({
            let once = if names.contains(n) { names } else { names.push(n) };
            once.contains(n) && (if once.contains(n) { once } else { once.push(n) }) == once
        }),
{
    if !names.contains(n) {
        assert(names.push(n)[names.len() as int] == n);
    }
}

} // verus!
