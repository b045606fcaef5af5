//! Layers, the collections of glyphs of a font, and the set of a font's layers.

use vstd::prelude::*;

use crate::error::NamingError;
use crate::glyph::Glyph;
use crate::name::Name;
use crate::datastore::{join, spec_join};
use crate::error::LayerWriteError;
use crate::glyph::serialize::{color_text, guideline_libs_identified, is_saved_glif, shows_one_way};
use crate::plist_ops::{
    dict_insert_dictionary, dict_insert_string, dict_is_empty, dict_keys, dict_strings, dict_to_xml, new_dict, pair_texts,
    dict_holds_uid, plist_xml, sort_keys_recursively, string_pairs_to_xml, string_pairs_xml,
};
use crate::shared_types::{Color, Float32Bits, FloatBits, Plist};
use crate::write::WriteOptions;
use crate::text::{lemma_lex_asym, lemma_lex_total, lemma_lex_trans, lex_lt, str_eq, str_lt, to_string};
use crate::util::{default_file_name_for_glyph_name, lowercase, spec_file_name, text_set, to_lowercase};

verus! {

/// The name of the file that lists a font's layers.
pub const LAYER_CONTENTS_FILE: &'static str = "layercontents.plist";

/// The name of the default layer.
pub const DEFAULT_LAYER_NAME: &'static str = "public.default";

/// The directory of the default layer.
pub const DEFAULT_GLYPHS_DIRNAME: &'static str = "glyphs";

/// A glyph of a layer, with the name it is filed under and its file name.
pub type LayerEntry = (Name, Glyph, String);

/// An entry by its plain values.
pub open spec fn entry_view(e: LayerEntry) -> (Seq<char>, Glyph, Seq<char>) {
    (e.0@, e.1, e.2@)
}

/// Entries by their plain values.
pub open spec fn entries_view(es: Seq<LayerEntry>) -> Seq<(Seq<char>, Glyph, Seq<char>)> {
    es.map_values(|e: LayerEntry| entry_view(e))
}

/// The names of entries.
pub open spec fn entry_names(es: Seq<(Seq<char>, Glyph, Seq<char>)>) -> Seq<Seq<char>> {
    es.map_values(|e: (Seq<char>, Glyph, Seq<char>)| e.0)
}

/// True when the names come in strictly increasing order.
pub open spec fn is_sorted(ns: Seq<Seq<char>>) -> bool {
    forall|i: int, j: int| 0 <= i < j < ns.len() ==> lex_lt(#[trigger] ns[i], #[trigger] ns[j])
}

/// True when some entry has the name.
pub open spec fn has_name(es: Seq<(Seq<char>, Glyph, Seq<char>)>, name: Seq<char>) -> bool {
    exists|i: int| 0 <= i < es.len() && (#[trigger] es[i]).0 == name
}

/// The glyph filed under the name, if any.
pub open spec fn glyph_of(es: Seq<(Seq<char>, Glyph, Seq<char>)>, name: Seq<char>) -> Option<Glyph> {
    if has_name(es, name) {
        Some(es[choose|i: int| 0 <= i < es.len() && (#[trigger] es[i]).0 == name].1)
    } else {
        None
    }
}

/// In sorted names, a name stands at one position only.
pub proof fn lemma_sorted_unique(ns: Seq<Seq<char>>, i: int, j: int)
    requires
        is_sorted(ns),
        0 <= i < ns.len(),
        0 <= j < ns.len(),
        ns[i] == ns[j],
    ensures
        i == j,
{
    if i < j {
        assert(lex_lt(ns[i], ns[j]));
        lemma_lex_asym(ns[i], ns[j]);
    } else if j < i {
        assert(lex_lt(ns[j], ns[i]));
        lemma_lex_asym(ns[j], ns[i]);
    }
}

/// In entries with sorted names, the glyph filed under the name of an entry is that
/// entry's glyph.
pub proof fn lemma_glyph_of_entry(es: Seq<(Seq<char>, Glyph, Seq<char>)>, i: int)
    requires
        is_sorted(entry_names(es)),
        0 <= i < es.len(),
    ensures
        glyph_of(es, es[i].0) == Some(es[i].1),
{
    let j = choose|j: int| 0 <= j < es.len() && (#[trigger] es[j]).0 == es[i].0;
    assert(entry_names(es)[i] == es[i].0 && entry_names(es)[j] == es[j].0);
    lemma_sorted_unique(entry_names(es), i, j);
}

/// True when some entry files the glyph under the name.
pub open spec fn holds_entry(es: Seq<(Seq<char>, Glyph, Seq<char>)>, n: Seq<char>, g: Glyph) -> bool {
    exists|i: int| 0 <= i < es.len() && (#[trigger] es[i]).0 == n && es[i].1 == g
}

/// After an entry is inserted, replaced or removed, every other name keeps its glyph.
proof fn lemma_others_kept(
    before: Seq<(Seq<char>, Glyph, Seq<char>)>,
    after: Seq<(Seq<char>, Glyph, Seq<char>)>,
    name: Seq<char>,
)
    requires
        is_sorted(entry_names(before)),
        is_sorted(entry_names(after)),
        forall|n: Seq<char>, g: Glyph| n != name ==> (#[trigger] holds_entry(before, n, g) <==> holds_entry(after, n, g)),
    ensures
        forall|n: Seq<char>| n != name ==> #[trigger] glyph_of(after, n) == glyph_of(before, n),
{
    assert forall|n: Seq<char>| n != name implies #[trigger] glyph_of(after, n) == glyph_of(before, n) by {
        if has_name(before, n) {
            let i = choose|i: int| 0 <= i < before.len() && (#[trigger] before[i]).0 == n;
            lemma_glyph_of_entry(before, i);
            assert(holds_entry(before, n, before[i].1));
            let j = choose|j: int| 0 <= j < after.len() && (#[trigger] after[j]).0 == n && after[j].1 == before[i].1;
            lemma_glyph_of_entry(after, j);
        } else if has_name(after, n) {
            let j = choose|j: int| 0 <= j < after.len() && (#[trigger] after[j]).0 == n;
            assert(holds_entry(after, n, after[j].1));
            assert(holds_entry(before, n, after[j].1));
            let i = choose|i: int| 0 <= i < before.len() && (#[trigger] before[i]).0 == n && before[i].1 == after[j].1;
            assert(has_name(before, n));
        }
    }
}

/// A [UFO layer]: a collection of glyphs, stored in one directory, each filed under
/// its name, with the name of its file.
///
/// [UFO layer]: http://unifiedfontobject.org/versions/ufo3/glyphs/
#[derive(Debug)]
pub struct Layer {
    entries: Vec<LayerEntry>,
    name: Name,
    path: String,
    path_set: Vec<String>,
    /// An optional color, as the layer's `layerinfo.plist` gives it.
    pub color: Option<Color>,
    /// Optional lib data for this layer. An empty lib is not written.
    pub lib: Plist,
}

impl Layer {
    /// The layer's glyphs, in the order of their names: each name, glyph and file name.
    pub closed spec fn spec_entries(&self) -> Seq<(Seq<char>, Glyph, Seq<char>)> {
        entries_view(self.entries@)
    }

    /// The layer's name.
    pub closed spec fn spec_name(&self) -> Seq<char> {
        self.name@
    }

    /// The layer's directory.
    pub closed spec fn spec_path(&self) -> Seq<char> {
        self.path@
    }

    /// The layer's color.
    pub closed spec fn spec_color(&self) -> Option<Color> {
        self.color
    }

    /// The layer's lib.
    pub closed spec fn spec_lib(&self) -> Plist {
        self.lib
    }

    /// The lowercased file names taken in the layer's directory.
    pub closed spec fn spec_taken(&self) -> Set<Seq<char>> {
        text_set(self.path_set@)
    }

    /// True when the layer is well formed: its glyph names come in increasing order.
    pub closed spec fn wf(&self) -> bool {
        is_sorted(entry_names(self.spec_entries()))
    }

    /// Returns a new, empty layer with the given name and directory.
    pub fn new(name: Name, path: String) -> (res: Self)
        ensures
            res.wf(),
            res.spec_entries().len() == 0,
            res.spec_name() == name@,
            res.spec_path() == path@,
            res.spec_taken() == Set::<Seq<char>>::empty(),
            res.spec_color() is None,
            dict_keys(res.spec_lib()) == Set::<Seq<char>>::empty(),
    {
        let res = Layer { entries: Vec::new(), name, path, path_set: Vec::new(), color: None, lib: new_dict() };
        assert(res.spec_taken() =~= Set::<Seq<char>>::empty());
        res
    }

    /// Returns the number of glyphs in the layer.
    pub fn len(&self) -> (res: usize)
        ensures
            res == self.spec_entries().len(),
    {
        self.entries.len()
    }

    /// Returns `true` if the layer contains no glyphs.
    pub fn is_empty(&self) -> (res: bool)
        ensures
            res == (self.spec_entries().len() == 0),
    {
        self.entries.len() == 0
    }

    /// Returns the name of the layer.
    pub fn name(&self) -> (res: &Name)
        ensures
            res@ == self.spec_name(),
    {
        &self.name
    }

    /// Returns the directory of the layer.
    pub fn path(&self) -> (res: &str)
        ensures
            res@ == self.spec_path(),
    {
        self.path.as_str()
    }

    /// The position of the glyph with the given name.
    fn position(&self, name: &str) -> (res: Option<usize>)
        ensures
            match res {
                Some(i) => i < self.spec_entries().len() && self.spec_entries()[i as int].0 == name@,
                None => !has_name(self.spec_entries(), name@),
            },
    {
        let mut i: usize = 0;
        while i < self.entries.len()
            invariant
                i <= self.entries@.len(),
                forall|k: int| 0 <= k < i ==> (#[trigger] self.spec_entries()[k]).0 != name@,
            decreases self.entries@.len() - i,
        {
            if str_eq(self.entries[i].0.as_str(), name) {
                return Some(i);
            }
            i += 1;
        }
        None
    }

    /// Returns a mutable reference to the glyph with the given name, if it exists. The
    /// glyph stays filed under that name.
    pub fn get_glyph_mut(&mut self, glyph: &str) -> (res: Option<&mut Glyph>)
        ensures
            res is None <==> !has_name(old(self).spec_entries(), glyph@),
            res is None ==> *final(self) == *old(self),
            res matches Some(g) ==> exists|i: int|
                0 <= i < old(self).spec_entries().len() && (#[trigger] old(self).spec_entries()[i]).0 == glyph@ && *g
                    == old(self).spec_entries()[i].1 && final(self).spec_entries() == old(self).spec_entries().update(
                    i,
                    (glyph@, *final(g), old(self).spec_entries()[i].2),
                ),
            final(self).spec_name() == old(self).spec_name(),
            final(self).spec_path() == old(self).spec_path(),
            final(self).spec_taken() == old(self).spec_taken(),
            final(self).spec_color() == old(self).spec_color(),
            final(self).spec_lib() == old(self).spec_lib(),
            final(self).spec_entries().len() == old(self).spec_entries().len(),
            entry_names(final(self).spec_entries()) == entry_names(old(self).spec_entries()),
            old(self).wf() ==> final(self).wf(),
            old(self).wf() ==> (res matches Some(g) ==> glyph_of(old(self).spec_entries(), glyph@) == Some(*g)),
    {
        match self.position(glyph) {
            Some(i) => {
                let ghost before = self.entries@;
                let entry = &mut self.entries[i];
                let res = &mut entry.1;
                proof {
                    assert(entries_view(before.update(i as int, (before[i as int].0, *final(res), before[i as int].2)))
                        =~= entries_view(before).update(
                        i as int,
                        (glyph@, *final(res), entries_view(before)[i as int].2),
                    ));
                    assert(entry_names(entries_view(before.update(i as int, (before[i as int].0, *final(res), before[i as int].2))))
                        =~= entry_names(entries_view(before)));
                    if is_sorted(entry_names(entries_view(before))) {
                        lemma_glyph_of_entry(entries_view(before), i as int);
                    }
                }
                Some(res)
            },
            None => None,
        }
    }

    /// Returns the glyph with the given name, if it exists.
    pub fn get_glyph(&self, glyph: &str) -> (res: Option<&Glyph>)
        ensures
            res is None <==> !has_name(self.spec_entries(), glyph@),
            self.wf() ==> match res {
                Some(g) => glyph_of(self.spec_entries(), glyph@) == Some(*g),
                None => glyph_of(self.spec_entries(), glyph@) is None,
            },
            res matches Some(g) ==> exists|i: int|
                0 <= i < self.spec_entries().len() && (#[trigger] self.spec_entries()[i]).0 == glyph@ && *g
                    == self.spec_entries()[i].1,
    {
        match self.position(glyph) {
            Some(i) => {
                proof {
                    if self.wf() {
                        lemma_glyph_of_entry(self.spec_entries(), i as int);
                    }
                }
                Some(&self.entries[i].1)
            },
            None => None,
        }
    }

    /// Returns `true` if the layer contains a glyph with this name.
    pub fn contains_glyph(&self, name: &str) -> (res: bool)
        ensures
            res == has_name(self.spec_entries(), name@),
    {
        self.position(name).is_some()
    }

    /// Returns the file name of the glyph with the given name, relative to the layer's
    /// directory.
    pub fn get_path(&self, name: &str) -> (res: Option<&str>)
        ensures
            res is None <==> !has_name(self.spec_entries(), name@),
            res matches Some(p) ==> exists|i: int|
                0 <= i < self.spec_entries().len() && (#[trigger] self.spec_entries()[i]).0 == name@ && p@
                    == self.spec_entries()[i].2,
    {
        match self.position(name) {
            Some(i) => Some(self.entries[i].2.as_str()),
            None => None,
        }
    }

    /// Returns the names the glyphs are filed under, in order.
    pub fn glyph_names(&self) -> (res: Vec<Name>)
        ensures
            res@.len() == self.spec_entries().len(),
            forall|i: int| 0 <= i < res@.len() ==> (#[trigger] res@[i])@ == self.spec_entries()[i].0,
    {
        let mut out: Vec<Name> = Vec::new();
        let mut i: usize = 0;
        while i < self.entries.len()
            invariant
                i <= self.entries@.len(),
                out@.len() == i,
                forall|k: int| 0 <= k < i ==> (#[trigger] out@[k])@ == self.spec_entries()[k].0,
            decreases self.entries@.len() - i,
        {
            out.push(self.entries[i].0.clone());
            i += 1;
        }
        out
    }

    /// Returns the glyphs, in the order of their names.
    pub fn iter(&self) -> (res: Vec<&Glyph>)
        ensures
            res@.len() == self.spec_entries().len(),
            forall|i: int| 0 <= i < res@.len() ==> *(#[trigger] res@[i]) == self.spec_entries()[i].1,
    {
        let mut out: Vec<&Glyph> = Vec::new();
        let mut i: usize = 0;
        while i < self.entries.len()
            invariant
                i <= self.entries@.len(),
                out@.len() == i,
                forall|k: int| 0 <= k < i ==> *(#[trigger] out@[k]) == self.spec_entries()[k].1,
            decreases self.entries@.len() - i,
        {
            out.push(&self.entries[i].1);
            i += 1;
        }
        out
    }

    /// Removes all glyphs from the layer. The color and the lib stay.
    pub fn clear(&mut self)
        ensures
            final(self).wf(),
            final(self).spec_entries().len() == 0,
            final(self).spec_taken() == Set::<Seq<char>>::empty(),
            final(self).spec_name() == old(self).spec_name(),
            final(self).spec_path() == old(self).spec_path(),
            final(self).spec_color() == old(self).spec_color(),
            final(self).spec_lib() == old(self).spec_lib(),
    {
        self.entries = Vec::new();
        self.path_set = Vec::new();
        assert(self.spec_taken() =~= Set::<Seq<char>>::empty());
        assert(entry_names(self.spec_entries()) =~= Seq::<Seq<char>>::empty());
    }

    /// The first position whose name does not come before `name`.
    fn insertion_point(&self, name: &str) -> (res: usize)
        ensures
            res <= self.spec_entries().len(),
            forall|k: int| 0 <= k < res ==> lex_lt(#[trigger] self.spec_entries()[k].0, name@),
            res < self.spec_entries().len() ==> !lex_lt(self.spec_entries()[res as int].0, name@),
    {
        let mut i: usize = 0;
        while i < self.entries.len()
            invariant
                i <= self.entries@.len(),
                forall|k: int| 0 <= k < i ==> lex_lt(#[trigger] self.spec_entries()[k].0, name@),
            decreases self.entries@.len() - i,
        {
            if !str_lt(self.entries[i].0.as_str(), name) {
                return i;
            }
            i += 1;
        }
        i
    }

    /// Records a taken file name, lowercased.
    fn take_file_name(&mut self, file: &str)
        ensures
            final(self).spec_taken() == old(self).spec_taken().insert(lowercase(file@)),
            final(self).entries == old(self).entries,
            final(self).name == old(self).name,
            final(self).path == old(self).path,
            final(self).spec_color() == old(self).spec_color(),
            final(self).spec_lib() == old(self).spec_lib(),
    {
        let l = to_lowercase(file);
        let ghost before = self.path_set@;
        self.path_set.push(l);
        proof {
            assert forall|s: Seq<char>| #[trigger] text_set(self.path_set@).contains(s) <==> text_set(before).insert(lowercase(file@)).contains(s) by {
                if text_set(before).contains(s) {
                    let i = choose|i: int| 0 <= i < before.len() && (#[trigger] before[i])@ == s;
                    assert(self.path_set@[i] == before[i]);
                }
                if s == lowercase(file@) {
                    assert(self.path_set@[before.len() as int]@ == s);
                }
                if text_set(self.path_set@).contains(s) {
                    let i = choose|i: int| 0 <= i < self.path_set@.len() && (#[trigger] self.path_set@[i])@ == s;
                    if i < before.len() {
                        assert(before[i] == self.path_set@[i]);
                    }
                }
            }
            assert(text_set(self.path_set@) =~= text_set(before).insert(lowercase(file@)));
        }
    }

    /// Forgets a taken file name, lowercased.
    fn release_file_name(&mut self, file: &str)
        ensures
            final(self).spec_taken() == old(self).spec_taken().remove(lowercase(file@)),
            final(self).entries == old(self).entries,
            final(self).name == old(self).name,
            final(self).path == old(self).path,
            final(self).spec_color() == old(self).spec_color(),
            final(self).spec_lib() == old(self).spec_lib(),
    {
        let l = to_lowercase(file);
        let mut kept: Vec<String> = Vec::new();
        let mut i: usize = 0;
        while i < self.path_set.len()
            invariant
                i <= self.path_set@.len(),
                l@ == lowercase(file@),
                forall|s: Seq<char>| #[trigger] text_set(kept@).contains(s) <==> (text_set(self.path_set@.take(i as int)).contains(s) && s != l@),
            decreases self.path_set@.len() - i,
        {
            let ghost before = kept@;
            if !str_eq(self.path_set[i].as_str(), l.as_str()) {
                kept.push(self.path_set[i].clone());
            }
            proof {
                let t = self.path_set@.take(i + 1);
                assert forall|s: Seq<char>| #[trigger] text_set(kept@).contains(s) <==> (text_set(t).contains(s) && s != l@) by {
                    if text_set(t).contains(s) {
                        let k = choose|k: int| 0 <= k < t.len() && (#[trigger] t[k])@ == s;
                        if k < i {
                            assert(self.path_set@.take(i as int)[k] == t[k]);
                        }
                    }
                    if text_set(self.path_set@.take(i as int)).contains(s) {
                        let k = choose|k: int| 0 <= k < i && (#[trigger] self.path_set@.take(i as int)[k])@ == s;
                        assert(t[k] == self.path_set@.take(i as int)[k]);
                    }
                    if text_set(before).contains(s) {
                        let k = choose|k: int| 0 <= k < before.len() && (#[trigger] before[k])@ == s;
                        assert(kept@[k] == before[k]);
                    }
                    if text_set(kept@).contains(s) {
                        let k = choose|k: int| 0 <= k < kept@.len() && (#[trigger] kept@[k])@ == s;
                        if k < before.len() {
                            assert(before[k] == kept@[k]);
                        } else {
                            assert(t[i as int]@ == s);
                        }
                    }
                    if s != l@ && self.path_set@[i as int]@ == s {
                        assert(t[i as int]@ == s);
                        assert(kept@[before.len() as int]@ == s);
                    }
                }
            }
            i += 1;
        }
        assert(self.path_set@.take(self.path_set@.len() as int) =~= self.path_set@);
        self.path_set = kept;
        assert(self.spec_taken() =~= old(self).spec_taken().remove(lowercase(file@)));
    }

    /// Adds the given glyph, filed under its name, or replaces the glyph of that name.
    ///
    /// A new glyph gets the default file name of its name, among the file names taken
    /// in the layer.
    pub fn insert_glyph(&mut self, glyph: Glyph)
        requires
            old(self).wf(),
        ensures
            final(self).wf(),
            final(self).spec_name() == old(self).spec_name(),
            final(self).spec_path() == old(self).spec_path(),
            final(self).spec_color() == old(self).spec_color(),
            final(self).spec_lib() == old(self).spec_lib(),
            glyph_of(final(self).spec_entries(), glyph.name@) == Some(glyph),
            forall|n: Seq<char>| n != glyph.name@ ==> #[trigger] glyph_of(final(self).spec_entries(), n) == glyph_of(
                old(self).spec_entries(),
                n,
            ),
            has_name(old(self).spec_entries(), glyph.name@) ==> exists|i: int|
                0 <= i < old(self).spec_entries().len() && (#[trigger] old(self).spec_entries()[i]).0 == glyph.name@
                    && final(self).spec_entries() == old(self).spec_entries().update(
                    i,
                    (glyph.name@, glyph, old(self).spec_entries()[i].2),
                ) && final(self).spec_taken() == old(self).spec_taken(),
            !has_name(old(self).spec_entries(), glyph.name@) ==> exists|k: int|
                0 <= k <= old(self).spec_entries().len() && #[trigger] final(self).spec_entries()
                    == old(self).spec_entries().insert(
                    k,
                    (
                        glyph.name@,
                        glyph,
                        spec_file_name(glyph.name@, Seq::empty(), ".glif"@, old(self).spec_taken()),
                    ),
                ) && final(self).spec_taken() == old(self).spec_taken().insert(
                    lowercase(spec_file_name(glyph.name@, Seq::empty(), ".glif"@, old(self).spec_taken())),
                ),
    {
        let ghost g = glyph;
        match self.position(glyph.name.as_str()) {
            Some(i) => {
                let key = self.entries[i].0.clone();
                let file = self.entries[i].2.clone();
                let ghost before = self.entries@;
                self.entries.set(i, (key, glyph, file));
                proof {
                    assert(entries_view(self.entries@) =~= entries_view(before).update(i as int, (g.name@, g, before[i as int].2@)));
                    assert(entry_names(self.spec_entries()) =~= entry_names(entries_view(before)));
                    lemma_glyph_of_entry(self.spec_entries(), i as int);
                    let bv = entries_view(before);
                    let av = self.spec_entries();
                    assert forall|n: Seq<char>, gg: Glyph| n != g.name@ implies (#[trigger] holds_entry(bv, n, gg) <==> holds_entry(av, n, gg)) by {
                        if holds_entry(bv, n, gg) {
                            let a = choose|a: int| 0 <= a < bv.len() && (#[trigger] bv[a]).0 == n && bv[a].1 == gg;
                            assert(av[a] == bv[a]);
                        }
                        if holds_entry(av, n, gg) {
                            let b = choose|b: int| 0 <= b < av.len() && (#[trigger] av[b]).0 == n && av[b].1 == gg;
                            assert(av[b] == bv[b]);
                        }
                    }
                    lemma_others_kept(bv, av, g.name@);
                }
            },
            None => {
                let file = default_file_name_for_glyph_name(glyph.name.as_str(), &self.path_set);
                self.take_file_name(file.as_str());
                let k = self.insertion_point(glyph.name.as_str());
                let key = glyph.name.clone();
                let ghost before = self.entries@;
                let ghost fv = file@;
                self.entries.insert(k, (key, glyph, file));
                proof {
                    assert(entries_view(self.entries@) =~= entries_view(before).insert(k as int, (g.name@, g, fv)));
                    let ns = entry_names(self.spec_entries());
                    let old_ns = entry_names(entries_view(before));
                    assert(ns =~= old_ns.insert(k as int, g.name@));
                    if (k as int) < old_ns.len() {
                        lemma_lex_total(old_ns[k as int], g.name@);
                        assert(old_ns[k as int] != g.name@);
                        assert(lex_lt(g.name@, old_ns[k as int]));
                    }
                    assert forall|a: int, b: int| 0 <= a < b < ns.len() implies lex_lt(#[trigger] ns[a], #[trigger] ns[b]) by {
                        if b < k {
                            assert(ns[a] == old_ns[a] && ns[b] == old_ns[b]);
                        } else if b == k {
                            assert(ns[a] == old_ns[a]);
                        } else if a == k {
                            assert(ns[b] == old_ns[b - 1]);
                            if b - 1 > k {
                                lemma_lex_trans(g.name@, old_ns[k as int], old_ns[b - 1]);
                            }
                        } else if a < k {
                            assert(ns[a] == old_ns[a] && ns[b] == old_ns[b - 1]);
                            if b - 1 >= k {
                                if a < b - 1 {
                                    assert(lex_lt(old_ns[a], old_ns[b - 1]));
                                }
                            }
                        } else {
                            assert(ns[a] == old_ns[a - 1] && ns[b] == old_ns[b - 1]);
                        }
                    }
                    lemma_glyph_of_entry(self.spec_entries(), k as int);
                    let bv = entries_view(before);
                    let av = self.spec_entries();
                    assert forall|n: Seq<char>, gg: Glyph| n != g.name@ implies (#[trigger] holds_entry(bv, n, gg) <==> holds_entry(av, n, gg)) by {
                        if holds_entry(bv, n, gg) {
                            let a = choose|a: int| 0 <= a < bv.len() && (#[trigger] bv[a]).0 == n && bv[a].1 == gg;
                            if a < k {
                                assert(av[a] == bv[a]);
                            } else {
                                assert(av[a + 1] == bv[a]);
                            }
                        }
                        if holds_entry(av, n, gg) {
                            let b = choose|b: int| 0 <= b < av.len() && (#[trigger] av[b]).0 == n && av[b].1 == gg;
                            if b < k {
                                assert(av[b] == bv[b]);
                            } else if b > k {
                                assert(av[b] == bv[b - 1]);
                            }
                        }
                    }
                    lemma_others_kept(bv, av, g.name@);
                }
            },
        }
    }

    /// Removes the glyph with the given name and returns it, if it exists.
    pub fn remove_glyph(&mut self, name: &str) -> (res: Option<Glyph>)
        requires
            old(self).wf(),
        ensures
            final(self).wf(),
            final(self).spec_name() == old(self).spec_name(),
            final(self).spec_path() == old(self).spec_path(),
            final(self).spec_color() == old(self).spec_color(),
            final(self).spec_lib() == old(self).spec_lib(),
            res is None <==> !has_name(old(self).spec_entries(), name@),
            res == glyph_of(old(self).spec_entries(), name@),
            glyph_of(final(self).spec_entries(), name@) is None,
            forall|n: Seq<char>| n != name@ ==> #[trigger] glyph_of(final(self).spec_entries(), n) == glyph_of(
                old(self).spec_entries(),
                n,
            ),
            res is None ==> final(self).spec_entries() == old(self).spec_entries() && final(self).spec_taken()
                == old(self).spec_taken(),
            res matches Some(g) ==> exists|i: int|
                0 <= i < old(self).spec_entries().len() && (#[trigger] old(self).spec_entries()[i]).0 == name@
                    && g == old(self).spec_entries()[i].1 && final(self).spec_entries()
                    == old(self).spec_entries().remove(i) && final(self).spec_taken()
                    == old(self).spec_taken().remove(lowercase(old(self).spec_entries()[i].2)),
    {
        match self.position(name) {
            Some(i) => {
                let ghost before = self.entries@;
                let entry = self.entries.remove(i);
                proof {
                    assert(entries_view(self.entries@) =~= entries_view(before).remove(i as int));
                    let ns = entry_names(self.spec_entries());
                    let old_ns = entry_names(entries_view(before));
                    assert(ns =~= old_ns.remove(i as int));
                    assert forall|a: int, b: int| 0 <= a < b < ns.len() implies lex_lt(#[trigger] ns[a], #[trigger] ns[b]) by {
                        if b < i {
                            assert(ns[a] == old_ns[a] && ns[b] == old_ns[b]);
                        } else if a < i {
                            assert(ns[a] == old_ns[a] && ns[b] == old_ns[b + 1]);
                        } else {
                            assert(ns[a] == old_ns[a + 1] && ns[b] == old_ns[b + 1]);
                        }
                    }
                    let bv = entries_view(before);
                    let av = self.spec_entries();
                    lemma_glyph_of_entry(bv, i as int);
                    assert(!has_name(av, name@)) by {
                        if has_name(av, name@) {
                            let j = choose|j: int| 0 <= j < av.len() && (#[trigger] av[j]).0 == name@;
                            let jj = if j < i { j } else { j + 1 };
                            assert(bv[jj] == av[j]);
                            assert(entry_names(bv)[jj] == entry_names(bv)[i as int]);
                            lemma_sorted_unique(entry_names(bv), i as int, jj);
                        }
                    }
                    assert forall|n: Seq<char>, gg: Glyph| n != name@ implies (#[trigger] holds_entry(bv, n, gg) <==> holds_entry(av, n, gg)) by {
                        if holds_entry(bv, n, gg) {
                            let a = choose|a: int| 0 <= a < bv.len() && (#[trigger] bv[a]).0 == n && bv[a].1 == gg;
                            if a < i {
                                assert(av[a] == bv[a]);
                            } else {
                                assert(av[a - 1] == bv[a]);
                            }
                        }
                        if holds_entry(av, n, gg) {
                            let b = choose|b: int| 0 <= b < av.len() && (#[trigger] av[b]).0 == n && av[b].1 == gg;
                            if b < i {
                                assert(av[b] == bv[b]);
                            } else {
                                assert(av[b] == bv[b + 1]);
                            }
                        }
                    }
                    lemma_others_kept(bv, av, name@);
                }
                self.release_file_name(entry.2.as_str());
                Some(entry.1)
            },
            None => None,
        }
    }

    /// Renames a glyph. Where `overwrite` is true and a glyph with the new name exists,
    /// it is replaced.
    ///
    /// Returns an error if `overwrite` is false but a glyph with the new name exists,
    /// if no glyph with the old name exists, or if the new name is not a valid name.
    pub fn rename_glyph(&mut self, old_name: &str, new_name: &str, overwrite: bool) -> (res: Result<(), NamingError>)
        requires
            old(self).wf(),
        ensures
            final(self).wf(),
            !overwrite && has_name(old(self).spec_entries(), new_name@) ==> (res matches Err(NamingError::Duplicate(n))
                && n@ == new_name@),
            !(!overwrite && has_name(old(self).spec_entries(), new_name@)) && !has_name(old(self).spec_entries(), old_name@)
                ==> (res matches Err(NamingError::Missing(n)) && n@ == old_name@),
            !(!overwrite && has_name(old(self).spec_entries(), new_name@)) && has_name(old(self).spec_entries(), old_name@)
                && !crate::name::spec_is_valid_name(new_name@) ==> (res matches Err(NamingError::Invalid(n)) && n@ == new_name@),
            res is Ok <==> (!(!overwrite && has_name(old(self).spec_entries(), new_name@)) && has_name(
                old(self).spec_entries(),
                old_name@,
            ) && crate::name::spec_is_valid_name(new_name@)),
            res is Err ==> final(self).spec_entries() == old(self).spec_entries(),
            res is Ok ==> has_name(final(self).spec_entries(), new_name@) && (old_name@ != new_name@ ==> !has_name(
                final(self).spec_entries(),
                old_name@,
            )),
            res is Ok ==> glyph_renamed(old(self).spec_entries(), old_name@, new_name@, final(self).spec_entries()),
            final(self).spec_name() == old(self).spec_name(),
            final(self).spec_path() == old(self).spec_path(),
    {
        if !overwrite && self.contains_glyph(new_name) {
            return Err(NamingError::Duplicate(to_string(new_name)));
        }
        if !self.contains_glyph(old_name) {
            return Err(NamingError::Missing(to_string(old_name)));
        }
        let name = match Name::new(new_name) {
            Ok(n) => n,
            Err(_) => {
                return Err(NamingError::Invalid(to_string(new_name)));
            },
        };
        let removed = self.remove_glyph(old_name);
        match removed {
            Some(mut g) => {
                g.name = name;
                let ghost mid = self.spec_entries();
                let ghost mid_taken = self.spec_taken();
                self.insert_glyph(g);
                proof {
                    if has_name(mid, new_name@) {
                        let i = choose|i: int| 0 <= i < mid.len() && (#[trigger] mid[i]).0 == new_name@;
                        assert(self.spec_entries()[i].0 == new_name@);
                    } else {
                        let k = choose|k: int| 0 <= k <= mid.len() && #[trigger] self.spec_entries() == mid.insert(
                            k,
                            (new_name@, g, spec_file_name(new_name@, Seq::empty(), ".glif"@, mid_taken)),
                        );
                        assert(self.spec_entries()[k].0 == new_name@);
                    }
                    if old_name@ != new_name@ {
                        assert(!has_name(mid, old_name@)) by {
                            let i = choose|i: int| 0 <= i < old(self).spec_entries().len()
                                && (#[trigger] old(self).spec_entries()[i]).0 == old_name@ && mid == old(self).spec_entries().remove(i);
                            if has_name(mid, old_name@) {
                                let j = choose|j: int| 0 <= j < mid.len() && (#[trigger] mid[j]).0 == old_name@;
                                let ns = entry_names(old(self).spec_entries());
                                let jj = if j < i { j } else { j + 1 };
                                assert(old(self).spec_entries()[jj].0 == old_name@);
                                assert(ns[i] == ns[jj]);
                                if i < jj {
                                    assert(lex_lt(ns[i], ns[jj]));
                                } else {
                                    assert(lex_lt(ns[jj], ns[i]));
                                }
                                lemma_lex_asym(ns[i], ns[jj]);
                            }
                        }
                        assert forall|j: int| 0 <= j < self.spec_entries().len() implies (#[trigger] self.spec_entries()[j]).0
                            != old_name@ by {
                            if has_name(mid, new_name@) {
                                let i = choose|i: int| 0 <= i < mid.len() && (#[trigger] mid[i]).0 == new_name@
                                    && self.spec_entries() == mid.update(i, (new_name@, g, mid[i].2));
                                if j != i {
                                    assert(self.spec_entries()[j] == mid[j]);
                                }
                            } else {
                                let k = choose|k: int| 0 <= k <= mid.len() && #[trigger] self.spec_entries() == mid.insert(
                                    k,
                                    (new_name@, g, spec_file_name(new_name@, Seq::empty(), ".glif"@, mid_taken)),
                                );
                                if j < k {
                                    assert(self.spec_entries()[j] == mid[j]);
                                } else if j > k {
                                    assert(self.spec_entries()[j] == mid[j - 1]);
                                }
                            }
                        }
                    }
                }
                Ok(())
            },
            None => Ok(()),
        }
    }
}

/// True when the entries `after` are `before` with the glyph named `old_name` renamed
/// `new_name`: the glyph now under `new_name` is the one that was under `old_name`,
/// its outline, metrics, code points and all else kept, but for its name; no glyph is
/// left under `old_name` where the names differ; every other name keeps its glyph.
pub open spec fn glyph_renamed(
    before: Seq<(Seq<char>, Glyph, Seq<char>)>,
    old_name: Seq<char>,
    new_name: Seq<char>,
    after: Seq<(Seq<char>, Glyph, Seq<char>)>,
) -> bool {
    &&& match (glyph_of(before, old_name), glyph_of(after, new_name)) {
        (Some(g0), Some(g1)) => g1 == (Glyph { name: g1.name, ..g0 }) && g1.name@ == new_name,
        _ => false,
    }
    &&& old_name != new_name ==> glyph_of(after, old_name) is None
    &&& forall|n: Seq<char>| n != old_name && n != new_name ==> #[trigger] glyph_of(after, n) == glyph_of(before, n)
}

/// Renaming a glyph and renaming it back, where no glyph had the new name, gives back
/// the layer's glyphs: every name keeps its glyph, and the renamed glyph is the one it
/// was, but for its name, which is `a` again.
pub proof fn law_rename_glyph_and_back(
    e0: Seq<(Seq<char>, Glyph, Seq<char>)>,
    e1: Seq<(Seq<char>, Glyph, Seq<char>)>,
    e2: Seq<(Seq<char>, Glyph, Seq<char>)>,
    a: Seq<char>,
    c: Seq<char>,
)
    requires
        a != c,
        glyph_of(e0, c) is None,
        glyph_renamed(e0, a, c, e1),
        glyph_renamed(e1, c, a, e2),
    ensures
        forall|n: Seq<char>| n != a ==> #[trigger] glyph_of(e2, n) == glyph_of(e0, n),
        match (glyph_of(e0, a), glyph_of(e2, a)) {
            (Some(g0), Some(g2)) => g2 == (Glyph { name: g2.name, ..g0 }) && g2.name@ == a,
            _ => false,
        },
{
    assert forall|n: Seq<char>| n != a implies #[trigger] glyph_of(e2, n) == glyph_of(e0, n) by {
        if n == c {
        } else {
            assert(glyph_of(e2, n) == glyph_of(e1, n));
            assert(glyph_of(e1, n) == glyph_of(e0, n));
        }
    }
}

impl Default for Layer {
    /// The default layer: named `public.default`, in the `glyphs` directory, empty.
    fn default() -> (res: Self)
        ensures
            res.wf(),
            res.spec_entries().len() == 0,
            res.spec_name() == DEFAULT_LAYER_NAME@,
            res.spec_path() == DEFAULT_GLYPHS_DIRNAME@,
    {
        proof {
            reveal_strlit("public.default");
        }
        Layer::new(Name::new_raw(DEFAULT_LAYER_NAME), to_string(DEFAULT_GLYPHS_DIRNAME))
    }
}

/// The first position at or after `from` of a layer with the given name.
pub open spec fn layer_index(ls: Seq<Layer>, name: Seq<char>, from: int) -> Option<int>
    decreases ls.len() - from,
{
    if from < 0 || from >= ls.len() {
        None
    } else if ls[from].spec_name() == name {
        Some(from)
    } else {
        layer_index(ls, name, from + 1)
    }
}

/// Where `layer_index` finds a layer, it has the name, and no layer between has it.
pub proof fn lemma_layer_index(ls: Seq<Layer>, name: Seq<char>, from: int)
    requires
        0 <= from,
    ensures
        layer_index(ls, name, from) matches Some(i) ==> from <= i < ls.len() && ls[i].spec_name() == name
            && forall|k: int| from <= k < i ==> (#[trigger] ls[k]).spec_name() != name,
        layer_index(ls, name, from) is None ==> forall|k: int| from <= k < ls.len() ==> (#[trigger] ls[k]).spec_name() != name,
    decreases ls.len() - from,
{
    if from < ls.len() && ls[from].spec_name() != name {
        lemma_layer_index(ls, name, from + 1);
    }
}

/// A layer added at the end, where no layer had its name, is the first with that name.
pub proof fn lemma_layer_index_push(ls: Seq<Layer>, x: Layer, name: Seq<char>, from: int)
    requires
        0 <= from <= ls.len(),
        layer_index(ls, name, from) is None,
        x.spec_name() == name,
    ensures
        layer_index(ls.push(x), name, from) == Some(ls.len() as int),
    decreases ls.len() - from,
{
    if from < ls.len() {
        assert(ls.push(x)[from] == ls[from]);
        lemma_layer_index_push(ls, x, name, from + 1);
    }
}

/// True when the layers make a well-formed set: there is one, in the `glyphs`
/// directory first, and every layer is well formed.
pub open spec fn wf_layers(ls: Seq<Layer>) -> bool {
    &&& ls.len() >= 1
    &&& ls[0].spec_path() == DEFAULT_GLYPHS_DIRNAME@
    &&& forall|i: int| 0 <= i < ls.len() ==> (#[trigger] ls[i]).wf()
}

/// Replacing a layer by a well-formed one keeps a set well formed, where the default
/// layer keeps its directory.
pub proof fn lemma_update_keeps_wf(ls: Seq<Layer>, i: int, x: Layer)
    requires
        wf_layers(ls),
        0 <= i < ls.len(),
        x.wf(),
        x.spec_path() == ls[i].spec_path(),
    ensures
        wf_layers(ls.update(i, x)),
{
    assert forall|k: int| 0 <= k < ls.update(i, x).len() implies (#[trigger] ls.update(i, x)[k]).wf() by {
        if k != i {
            assert(ls.update(i, x)[k] == ls[k]);
        }
    }
}

/// Adding a well-formed layer at the end keeps a set well formed.
pub proof fn lemma_push_keeps_wf(ls: Seq<Layer>, x: Layer)
    requires
        wf_layers(ls),
        x.wf(),
    ensures
        wf_layers(ls.push(x)),
{
    assert forall|k: int| 0 <= k < ls.push(x).len() implies (#[trigger] ls.push(x)[k]).wf() by {
        if k < ls.len() {
            assert(ls.push(x)[k] == ls[k]);
        }
    }
    assert(ls.push(x)[0] == ls[0]);
}

/// A collection of layers. It always holds a default layer, the first, stored in
/// the `glyphs` directory, and may hold more.
#[derive(Debug)]
pub struct LayerSet {
    layers: Vec<Layer>,
    path_set: Vec<String>,
}

impl LayerSet {
    /// The layers, the default one first.
    pub closed spec fn spec_layers(&self) -> Seq<Layer> {
        self.layers@
    }

    /// The lowercased directory names taken by layers other than the default one.
    pub closed spec fn spec_taken(&self) -> Set<Seq<char>> {
        text_set(self.path_set@)
    }

    /// True when the set is well formed: it has a layer, in the `glyphs` directory
    /// first, and every layer is well formed.
    pub closed spec fn wf(&self) -> bool {
        wf_layers(self.layers@)
    }

    /// Every set is well formed exactly when its layers are.
    pub proof fn lemma_wf_iff_all()
        ensures
            forall|s: LayerSet| #[trigger] s.wf() == wf_layers(s.spec_layers()),
    {
    }

    /// A set is well formed when its layers are.
    pub proof fn lemma_wf_iff(&self)
        ensures
            self.wf() == wf_layers(self.spec_layers()),
    {
    }

    /// In a well-formed set, every layer is well formed.
    pub proof fn lemma_wf_layers(&self)
        requires
            self.wf(),
        ensures
            forall|i: int| 0 <= i < self.spec_layers().len() ==> (#[trigger] self.spec_layers()[i]).wf(),
            self.spec_layers().len() >= 1,
    {
    }

    /// Returns a set of the given layers; the first becomes the default layer, stored
    /// in the `glyphs` directory.
    pub fn new(layers: Vec<Layer>) -> (res: Self)
        requires
            layers@.len() > 0,
            forall|i: int| 0 <= i < layers@.len() ==> (#[trigger] layers@[i]).wf(),
        ensures
            res.wf(),
            res.spec_layers().len() == layers@.len(),
            forall|i: int| 1 <= i < layers@.len() ==> #[trigger] res.spec_layers()[i] == layers@[i],
            res.spec_layers()[0].spec_name() == layers@[0].spec_name(),
            res.spec_layers()[0].spec_entries() == layers@[0].spec_entries(),
            res.spec_layers()[0].spec_color() == layers@[0].spec_color(),
            res.spec_layers()[0].spec_lib() == layers@[0].spec_lib(),
            res.spec_taken() == Set::<Seq<char>>::empty(),
    {
        let mut layers = layers;
        let ghost before = layers@;
        let mut first = layers.remove(0);
        first.path = to_string(DEFAULT_GLYPHS_DIRNAME);
        layers.insert(0, first);
        let res = LayerSet { layers, path_set: Vec::new() };
        proof {
            assert forall|i: int| 1 <= i < before.len() implies #[trigger] res.layers@[i] == before[i] by {
                assert(res.layers@[i] == before.remove(0)[i - 1]);
            }
            assert(res.spec_taken() =~= Set::<Seq<char>>::empty());
        }
        res
    }

    /// Returns the number of layers in the set, never zero.
    pub fn len(&self) -> (res: usize)
        ensures
            res == self.spec_layers().len(),
    {
        self.layers.len()
    }

    /// The position of the first layer with the given name, from position `from` on.
    fn position_from(&self, name: &str, from: usize) -> (res: Option<usize>)
        ensures
            match res {
                Some(i) => layer_index(self.spec_layers(), name@, from as int) == Some(i as int) && i < self.spec_layers().len(),
                None => layer_index(self.spec_layers(), name@, from as int) is None,
            },
    {
        let mut i: usize = from;
        while i < self.layers.len()
            invariant
                from <= i,
                layer_index(self.spec_layers(), name@, from as int) == layer_index(self.spec_layers(), name@, i as int),
            decreases self.layers@.len() - i,
        {
            if str_eq(self.layers[i].name.as_str(), name) {
                return Some(i);
            }
            i += 1;
        }
        None
    }

    /// Returns the layer with the given name.
    pub fn get(&self, name: &str) -> (res: Option<&Layer>)
        ensures
            match res {
                Some(l) => layer_index(self.spec_layers(), name@, 0) matches Some(i) && *l == self.spec_layers()[i],
                None => layer_index(self.spec_layers(), name@, 0) is None,
            },
    {
        match self.position_from(name, 0) {
            Some(i) => Some(&self.layers[i]),
            None => None,
        }
    }

    /// Returns the layer with the given name, to change it.
    pub fn get_mut(&mut self, name: &str) -> (res: Option<&mut Layer>)
        ensures
            match res {
                Some(l) => layer_index(old(self).spec_layers(), name@, 0) matches Some(i) && *l == old(self).spec_layers()[i]
                    && final(self).spec_layers() == old(self).spec_layers().update(i, *final(l))
                    && final(self).spec_taken() == old(self).spec_taken(),
                None => layer_index(old(self).spec_layers(), name@, 0) is None && *final(self) == *old(self),
            },
    {
        match self.position_from(name, 0) {
            Some(i) => Some(&mut self.layers[i]),
            None => None,
        }
    }

    /// Returns the default layer.
    pub fn default_layer(&self) -> (res: &Layer)
        requires
            self.wf(),
        ensures
            *res == self.spec_layers()[0],
    {
        &self.layers[0]
    }

    /// Returns the default layer, to change it.
    pub fn default_layer_mut(&mut self) -> (res: &mut Layer)
        requires
            old(self).wf(),
        ensures
            *res == old(self).spec_layers()[0],
            final(self).spec_layers() == old(self).spec_layers().update(0, *final(res)),
            final(self).spec_taken() == old(self).spec_taken(),
    {
        &mut self.layers[0]
    }

    /// Returns the layers, the default one first.
    pub fn iter(&self) -> (res: Vec<&Layer>)
        ensures
            res@.len() == self.spec_layers().len(),
            forall|i: int| 0 <= i < res@.len() ==> *(#[trigger] res@[i]) == self.spec_layers()[i],
    {
        let mut out: Vec<&Layer> = Vec::new();
        let mut i: usize = 0;
        while i < self.layers.len()
            invariant
                i <= self.layers@.len(),
                out@.len() == i,
                forall|k: int| 0 <= k < i ==> *(#[trigger] out@[k]) == self.spec_layers()[k],
            decreases self.layers@.len() - i,
        {
            out.push(&self.layers[i]);
            i += 1;
        }
        out
    }

    /// Returns the names of the layers, the default one first.
    pub fn names(&self) -> (res: Vec<&Name>)
        ensures
            res@.len() == self.spec_layers().len(),
            forall|i: int| 0 <= i < res@.len() ==> (#[trigger] res@[i])@ == self.spec_layers()[i].spec_name(),
    {
        let mut out: Vec<&Name> = Vec::new();
        let mut i: usize = 0;
        while i < self.layers.len()
            invariant
                i <= self.layers@.len(),
                out@.len() == i,
                forall|k: int| 0 <= k < i ==> (#[trigger] out@[k])@ == self.spec_layers()[k].spec_name(),
            decreases self.layers@.len() - i,
        {
            out.push(&self.layers[i].name);
            i += 1;
        }
        out
    }

    /// Records a taken directory name, lowercased.
    fn take_dir_name(&mut self, dir: &str)
        ensures
            final(self).spec_taken() == old(self).spec_taken().insert(lowercase(dir@)),
            final(self).layers == old(self).layers,
    {
        let l = to_lowercase(dir);
        let ghost before = self.path_set@;
        self.path_set.push(l);
        proof {
            assert forall|s: Seq<char>| #[trigger] text_set(self.path_set@).contains(s) <==> text_set(before).insert(lowercase(dir@)).contains(s) by {
                if text_set(before).contains(s) {
                    let i = choose|i: int| 0 <= i < before.len() && (#[trigger] before[i])@ == s;
                    assert(self.path_set@[i] == before[i]);
                }
                if s == lowercase(dir@) {
                    assert(self.path_set@[before.len() as int]@ == s);
                }
                if text_set(self.path_set@).contains(s) {
                    let i = choose|i: int| 0 <= i < self.path_set@.len() && (#[trigger] self.path_set@[i])@ == s;
                    if i < before.len() {
                        assert(before[i] == self.path_set@[i]);
                    }
                }
            }
            assert(text_set(self.path_set@) =~= text_set(before).insert(lowercase(dir@)));
        }
    }

    /// Forgets a taken directory name, lowercased.
    fn release_dir_name(&mut self, dir: &str)
        ensures
            final(self).spec_taken() == old(self).spec_taken().remove(lowercase(dir@)),
            final(self).layers == old(self).layers,
    {
        let l = to_lowercase(dir);
        let mut kept: Vec<String> = Vec::new();
        let mut i: usize = 0;
        while i < self.path_set.len()
            invariant
                i <= self.path_set@.len(),
                l@ == lowercase(dir@),
                forall|s: Seq<char>| #[trigger] text_set(kept@).contains(s) <==> (text_set(self.path_set@.take(i as int)).contains(s) && s != l@),
            decreases self.path_set@.len() - i,
        {
            let ghost before = kept@;
            if !str_eq(self.path_set[i].as_str(), l.as_str()) {
                kept.push(self.path_set[i].clone());
            }
            proof {
                let t = self.path_set@.take(i + 1);
                assert forall|s: Seq<char>| #[trigger] text_set(kept@).contains(s) <==> (text_set(t).contains(s) && s != l@) by {
                    if text_set(t).contains(s) {
                        let k = choose|k: int| 0 <= k < t.len() && (#[trigger] t[k])@ == s;
                        if k < i {
                            assert(self.path_set@.take(i as int)[k] == t[k]);
                        }
                    }
                    if text_set(self.path_set@.take(i as int)).contains(s) {
                        let k = choose|k: int| 0 <= k < i && (#[trigger] self.path_set@.take(i as int)[k])@ == s;
                        assert(t[k] == self.path_set@.take(i as int)[k]);
                    }
                    if text_set(before).contains(s) {
                        let k = choose|k: int| 0 <= k < before.len() && (#[trigger] before[k])@ == s;
                        assert(kept@[k] == before[k]);
                    }
                    if text_set(kept@).contains(s) {
                        let k = choose|k: int| 0 <= k < kept@.len() && (#[trigger] kept@[k])@ == s;
                        if k < before.len() {
                            assert(before[k] == kept@[k]);
                        } else {
                            assert(t[i as int]@ == s);
                        }
                    }
                    if s != l@ && self.path_set@[i as int]@ == s {
                        assert(t[i as int]@ == s);
                        assert(kept@[before.len() as int]@ == s);
                    }
                }
            }
            i += 1;
        }
        assert(self.path_set@.take(self.path_set@.len() as int) =~= self.path_set@);
        self.path_set = kept;
        assert(self.spec_taken() =~= old(self).spec_taken().remove(lowercase(dir@)));
    }

    /// Adds a new, empty layer with the given name, stored in the default directory of
    /// its name among the directory names taken, and returns it.
    ///
    /// The name `public.default` is reserved for the default layer; a name that a
    /// layer has already, or an invalid name, is refused.
    #[verifier::spinoff_prover]
    pub fn new_layer(&mut self, name: &str) -> (res: Result<&mut Layer, NamingError>)
        requires
            old(self).wf(),
        ensures
            name@ == DEFAULT_LAYER_NAME@ ==> (res matches Err(NamingError::ReservedName)),
            name@ != DEFAULT_LAYER_NAME@ && layer_index(old(self).spec_layers(), name@, 0) is Some ==> (res matches Err(
                NamingError::Duplicate(n),
            ) && n@ == name@),
            name@ != DEFAULT_LAYER_NAME@ && layer_index(old(self).spec_layers(), name@, 0) is None
                && !crate::name::spec_is_valid_name(name@) ==> (res matches Err(NamingError::Invalid(n)) && n@ == name@),
            res is Ok <==> (name@ != DEFAULT_LAYER_NAME@ && layer_index(old(self).spec_layers(), name@, 0) is None
                && crate::name::spec_is_valid_name(name@)),
            res is Err ==> *final(self) == *old(self),
            match res {
                Ok(l) => {
                    let dir = spec_file_name(name@, "glyphs."@, Seq::empty(), old(self).spec_taken());
                    &&& l.wf()
                    &&& l.spec_name() == name@
                    &&& l.spec_path() == dir
                    &&& l.spec_entries().len() == 0
                    &&& final(self).spec_layers() == old(self).spec_layers().push(*final(l))
                    &&& final(self).spec_taken() == old(self).spec_taken().insert(lowercase(dir))
                    &&& (final(l).spec_name() == name@ ==> layer_index(final(self).spec_layers(), name@, 0) == Some(
                        old(self).spec_layers().len() as int,
                    ))
                    &&& (final(l).wf() ==> final(self).wf())
                },
                Err(_) => true,
            },
    {
        proof {
            reveal_strlit("public.default");
        }
        if str_eq(name, DEFAULT_LAYER_NAME) {
            return Err(NamingError::ReservedName);
        }
        if self.position_from(name, 0).is_some() {
            return Err(NamingError::Duplicate(to_string(name)));
        }
        let layer_name = match Name::new(name) {
            Ok(n) => n,
            Err(_) => {
                return Err(NamingError::Invalid(to_string(name)));
            },
        };
        let dir = crate::util::default_file_name_for_layer_name(name, &self.path_set);
        self.take_dir_name(dir.as_str());
        let layer = Layer::new(layer_name, dir);
        let ghost before = self.layers@;
        self.layers.push(layer);
        let n = self.layers.len();
        let res = &mut self.layers[n - 1];
        proof {
            assert forall|x: Layer| x.spec_name() == name@ implies layer_index(before.push(x), name@, 0) == Some(before.len() as int) by {
                lemma_layer_index_push(before, x, name@, 0);
            }
            assert forall|x: Layer| x.wf() implies #[trigger] wf_layers(before.push(x)) by {
                lemma_push_keeps_wf(before, x);
            }
        }
        Ok(res)
    }

    /// Removes the layer with the given name, other than the default layer, and
    /// returns it.
    pub fn remove(&mut self, name: &str) -> (res: Option<Layer>)
        requires
            old(self).wf(),
        ensures
            final(self).wf(),
            match layer_index(old(self).spec_layers(), name@, 1) {
                Some(i) => res == Some(old(self).spec_layers()[i]) && final(self).spec_layers()
                    == old(self).spec_layers().remove(i) && final(self).spec_taken() == old(self).spec_taken().remove(
                    lowercase(old(self).spec_layers()[i].spec_path()),
                ),
                None => res is None && *final(self) == *old(self),
            },
    {
        match self.position_from(name, 1) {
            Some(i) => {
                proof {
                    lemma_layer_index(self.spec_layers(), name@, 1);
                }
                let ghost before = self.layers@;
                let layer = self.layers.remove(i);
                proof {
                    assert forall|k: int| 0 <= k < self.layers@.len() implies (#[trigger] self.layers@[k]).wf() by {
                        if k < i {
                            assert(self.layers@[k] == before[k]);
                        } else {
                            assert(self.layers@[k] == before[k + 1]);
                        }
                    }
                    assert(self.layers@[0] == before[0]);
                }
                self.release_dir_name(layer.path.as_str());
                Some(layer)
            },
            None => None,
        }
    }
}

/// The layers after removing the first one after the default layer with the given
/// name, if any.
pub open spec fn without_layer(ls: Seq<Layer>, name: Seq<char>) -> Seq<Layer> {
    match layer_index(ls, name, 1) {
        Some(i) => ls.remove(i),
        None => ls,
    }
}

/// True when no two layers have the same name.
pub open spec fn names_distinct(ls: Seq<Layer>) -> bool {
    forall|i: int, j: int| 0 <= i < j < ls.len() ==> (#[trigger] ls[i]).spec_name() != (#[trigger] ls[j]).spec_name()
}

/// The layers after a rename of the layer named `old_name` to `new_name`: with
/// `overwrite` and two different names, a layer after the default one named
/// `new_name` is dropped first; the
/// layer named `old_name` then takes the new name, and every other layer stays as it
/// was, in its place.
pub open spec fn renamed_layers(before: Seq<Layer>, old_name: Seq<char>, new_name: Seq<char>, overwrite: bool, after: Seq<Layer>) -> bool {
    let l1 = if overwrite && old_name != new_name {
        without_layer(before, new_name)
    } else {
        before
    };
    &&& layer_index(l1, old_name, 0) is Some
    &&& after.len() == l1.len()
    &&& forall|j: int| 0 <= j < l1.len() && j != layer_index(l1, old_name, 0)->0 ==> #[trigger] after[j] == l1[j]
    &&& after[layer_index(l1, old_name, 0)->0].spec_name() == new_name
}

/// A rename that succeeds leaves a layer with the new name and, where the names
/// differ, none with the old one, in a set whose layers have distinct names.
pub proof fn law_rename_layer(before: Seq<Layer>, old_name: Seq<char>, new_name: Seq<char>, overwrite: bool, after: Seq<Layer>)
    requires
        names_distinct(before),
        renamed_layers(before, old_name, new_name, overwrite, after),
    ensures
        layer_index(after, new_name, 0) is Some,
        old_name != new_name ==> layer_index(after, old_name, 0) is None,
{
    let l1 = if overwrite && old_name != new_name {
        without_layer(before, new_name)
    } else {
        before
    };
    let p = layer_index(l1, old_name, 0)->0;
    lemma_layer_index(l1, old_name, 0);
    if overwrite && old_name != new_name {
        lemma_layer_index(before, new_name, 1);
        match layer_index(before, new_name, 1) {
            Some(i) => {
                assert(l1 == before.remove(i));
                assert forall|a: int, b: int| 0 <= a < b < l1.len() implies (#[trigger] l1[a]).spec_name() != (
                #[trigger] l1[b]).spec_name() by {
                    let oa = if a < i { a } else { a + 1 };
                    let ob = if b < i { b } else { b + 1 };
                    assert(l1[a] == before[oa]);
                    assert(l1[b] == before[ob]);
                }
            },
            None => {},
        }
    }
    assert(names_distinct(l1));
    lemma_layer_index(after, new_name, 0);
    if layer_index(after, new_name, 0) is None {
        assert(after[p].spec_name() == new_name);
    }
    if old_name != new_name {
        lemma_layer_index(after, old_name, 0);
        if layer_index(after, old_name, 0) is Some {
            let k = layer_index(after, old_name, 0)->0;
            assert(k != p);
            assert(after[k] == l1[k]);
            if k < p {
                assert(l1[k].spec_name() != l1[p].spec_name());
            } else {
                assert(l1[p].spec_name() != l1[k].spec_name());
            }
        }
    }
}

/// The taken directory names after removing the first layer after the default layer
/// with the given name, if any.
pub open spec fn without_dir(ls: Seq<Layer>, taken: Set<Seq<char>>, name: Seq<char>) -> Set<Seq<char>> {
    match layer_index(ls, name, 1) {
        Some(i) => taken.remove(lowercase(ls[i].spec_path())),
        None => taken,
    }
}

impl LayerSet {
    /// Renames a layer. Where `overwrite` is true and a layer other than the default
    /// one has the new name, that layer is removed first. The default layer keeps its
    /// directory; another layer gets the default directory of its new name.
    ///
    /// Returns an error if `overwrite` is false but a layer with the new name exists,
    /// if no layer has the old name, if anything but the default layer would be named
    /// `public.default`, or if the new name is not valid.
    pub fn rename_layer(&mut self, old_name: &str, new_name: &str, overwrite: bool) -> (res: Result<(), NamingError>)
        requires
            old(self).wf(),
        ensures
            final(self).wf(),
            !overwrite && layer_index(old(self).spec_layers(), new_name@, 0) is Some ==> (res matches Err(
                NamingError::Duplicate(n),
            ) && n@ == new_name@),
            !(!overwrite && layer_index(old(self).spec_layers(), new_name@, 0) is Some) && layer_index(
                old(self).spec_layers(),
                old_name@,
                0,
            ) is None ==> (res matches Err(NamingError::Missing(n)) && n@ == old_name@),
            !(!overwrite && layer_index(old(self).spec_layers(), new_name@, 0) is Some) && layer_index(
                old(self).spec_layers(),
                old_name@,
                0,
            ) is Some && new_name@ == DEFAULT_LAYER_NAME@ && old(self).spec_layers()[0].spec_name() != old_name@ ==> (res matches Err(
                NamingError::ReservedName,
            )),
            res is Ok <==> (!(!overwrite && layer_index(old(self).spec_layers(), new_name@, 0) is Some) && layer_index(
                old(self).spec_layers(),
                old_name@,
                0,
            ) is Some && !(new_name@ == DEFAULT_LAYER_NAME@ && old(self).spec_layers()[0].spec_name() != old_name@)
                && crate::name::spec_is_valid_name(new_name@)),
            res is Err ==> *final(self) == *old(self),
            res is Ok ==> renamed_layers(old(self).spec_layers(), old_name@, new_name@, overwrite, final(self).spec_layers()),
            res is Ok && old_name@ == new_name@ ==> *final(self) == *old(self),
            res is Ok && old_name@ != new_name@ ==> {
                let l1 = if overwrite {
                    without_layer(old(self).spec_layers(), new_name@)
                } else {
                    old(self).spec_layers()
                };
                let t1 = if overwrite {
                    without_dir(old(self).spec_layers(), old(self).spec_taken(), new_name@)
                } else {
                    old(self).spec_taken()
                };
                let p = layer_index(l1, old_name@, 0)->0;
                &&& final(self).spec_layers().len() == l1.len()
                &&& forall|j: int| 0 <= j < l1.len() && j != p ==> #[trigger] final(self).spec_layers()[j] == l1[j]
                &&& final(self).spec_layers()[p].spec_name() == new_name@
                &&& final(self).spec_layers()[p].spec_entries() == l1[p].spec_entries()
                &&& final(self).spec_layers()[p].spec_color() == l1[p].spec_color()
                &&& final(self).spec_layers()[p].spec_lib() == l1[p].spec_lib()
                &&& p == 0 ==> final(self).spec_layers()[p].spec_path() == l1[p].spec_path() && final(self).spec_taken() == t1
                &&& p != 0 ==> {
                    let released = t1.remove(lowercase(l1[p].spec_path()));
                    let dir = spec_file_name(new_name@, "glyphs."@, Seq::empty(), released);
                    final(self).spec_layers()[p].spec_path() == dir && final(self).spec_taken() == released.insert(
                        lowercase(dir),
                    )
                }
            },
    {
        proof {
            reveal_strlit("public.default");
        }
        if !overwrite && self.position_from(new_name, 0).is_some() {
            return Err(NamingError::Duplicate(to_string(new_name)));
        }
        if self.position_from(old_name, 0).is_none() {
            return Err(NamingError::Missing(to_string(old_name)));
        }
        if str_eq(new_name, DEFAULT_LAYER_NAME) && !str_eq(self.layers[0].name.as_str(), old_name) {
            return Err(NamingError::ReservedName);
        }
        let name = match Name::new(new_name) {
            Ok(n) => n,
            Err(e) => {
                return Err(e);
            },
        };
        if str_eq(old_name, new_name) {
            proof {
                lemma_layer_index(self.spec_layers(), old_name@, 0);
            }
            return Ok(());
        }
        let ghost before = self.spec_layers();
        if overwrite {
            proof {
                lemma_layer_index(before, old_name@, 0);
                lemma_layer_index(before, new_name@, 1);
            }
            self.remove(new_name);
            proof {
                let j = layer_index(before, old_name@, 0)->0;
                if layer_index(before, new_name@, 1) is Some {
                    let i = layer_index(before, new_name@, 1)->0;
                    assert(i != j);
                    let jj = if j < i { j } else { j - 1 };
                    assert(self.spec_layers()[jj] == before[j]);
                    lemma_layer_index(self.spec_layers(), old_name@, 0);
                }
            }
        }
        let pos = match self.position_from(old_name, 0) {
            Some(p) => p,
            None => {
                return Ok(());
            },
        };
        proof {
            lemma_layer_index(self.spec_layers(), old_name@, 0);
        }
        let ghost l1 = self.layers@;
        let ghost t1 = self.spec_taken();
        if pos == 0 {
            let mut layer = self.layers.remove(0);
            layer.name = name;
            self.layers.insert(0, layer);
            proof {
                assert forall|j: int| 0 <= j < l1.len() && j != 0 implies #[trigger] self.layers@[j] == l1[j] by {
                    assert(self.layers@[j] == l1.remove(0)[j - 1]);
                }
                assert forall|k: int| 0 <= k < self.layers@.len() implies (#[trigger] self.layers@[k]).wf() by {
                    if k != 0 {
                        assert(self.layers@[k] == l1[k]);
                    }
                    assert(entry_names(self.layers@[0].spec_entries()) == entry_names(l1[0].spec_entries()));
                }
            }
        } else {
            let mut layer = self.layers.remove(pos);
            self.release_dir_name(layer.path.as_str());
            let ghost released = self.spec_taken();
            let dir = crate::util::default_file_name_for_layer_name(new_name, &self.path_set);
            self.take_dir_name(dir.as_str());
            layer.name = name;
            layer.path = dir;
            self.layers.insert(pos, layer);
            proof {
                assert forall|j: int| 0 <= j < l1.len() && j != pos implies #[trigger] self.layers@[j] == l1[j] by {
                    if j < pos {
                        assert(self.layers@[j] == l1.remove(pos as int)[j]);
                    } else {
                        assert(self.layers@[j] == l1.remove(pos as int)[j - 1]);
                    }
                }
                assert forall|k: int| 0 <= k < self.layers@.len() implies (#[trigger] self.layers@[k]).wf() by {
                    if k != pos {
                        assert(self.layers@[k] == l1[k]);
                    }
                }
                assert(self.layers@[0] == l1[0]);
            }
        }
        Ok(())
    }
}

impl Default for LayerSet {
    /// A set of one layer: the default layer, empty.
    fn default() -> (res: Self)
        ensures
            res.wf(),
            res.spec_layers().len() == 1,
            res.spec_layers()[0].spec_name() == DEFAULT_LAYER_NAME@,
            res.spec_layers()[0].spec_entries().len() == 0,
            res.spec_taken() == Set::<Seq<char>>::empty(),
    {
        let mut layers: Vec<Layer> = Vec::new();
        layers.push(Layer::default());
        let res = LayerSet { layers, path_set: Vec::new() };
        assert(res.spec_taken() =~= Set::<Seq<char>>::empty());
        res
    }
}

/// The `contents.plist` map of entries: each glyph name to the name of its file.
pub open spec fn contents_map(es: Seq<(Seq<char>, Glyph, Seq<char>)>) -> Map<Seq<char>, Seq<char>>
    decreases es.len(),
{
    if es.len() == 0 {
        Map::empty()
    } else {
        contents_map(es.drop_last()).insert(es.last().0, es.last().2)
    }
}

/// The keys of a layer's `layerinfo.plist`: `color` where the layer has a color, `lib`
/// where its lib is not empty.
pub open spec fn layerinfo_keys(color: Option<Color>, lib: Plist) -> Set<Seq<char>> {
    let with_color = if color is Some { set!["color"@] } else { Set::empty() };
    if dict_keys(lib) == Set::<Seq<char>>::empty() { with_color } else { with_color.insert("lib"@) }
}

/// The string values of a layer's `layerinfo.plist`: the text of its color, if any.
pub open spec fn layerinfo_strings<G: Fn(Float32Bits) -> String>(color: Option<Color>, show3: G) -> Map<Seq<char>, Seq<char>> {
    match color {
        Some(c) => Map::empty().insert("color"@, color_text(c, show3)),
        None => Map::empty(),
    }
}

/// True when `bytes` are a layer's `contents.plist` for the entries: the property list
/// of a dictionary from each glyph name to the name of its file.
pub open spec fn is_contents_plist(bytes: Seq<u8>, es: Seq<(Seq<char>, Glyph, Seq<char>)>, opts: WriteOptions) -> bool {
    exists|d: Plist|
        #[trigger] plist_xml(d, opts.spec_indent_char(), opts.spec_indent().len() as usize) == bytes
        && dict_strings(d) == contents_map(es)
        && dict_keys(d) == contents_map(es).dom()
}

/// True when `bytes` are a layer's `layerinfo.plist` for its color and lib: the
/// property list of a dictionary that holds the color's text under `color` and the lib
/// under `lib`.
pub open spec fn is_layerinfo_plist<G: Fn(Float32Bits) -> String>(
    bytes: Seq<u8>,
    color: Option<Color>,
    lib: Plist,
    opts: WriteOptions,
    show3: G,
) -> bool {
    exists|d: Plist|
        #[trigger] plist_xml(d, opts.spec_indent_char(), opts.spec_indent().len() as usize) == bytes
        && dict_keys(d) == layerinfo_keys(color, lib)
        && dict_strings(d) == layerinfo_strings(color, show3)
}

/// True when a layer with this color and lib has a `layerinfo.plist` to write.
pub open spec fn needs_layerinfo(color: Option<Color>, lib: Plist) -> bool {
    !(color is None && dict_keys(lib) == Set::<Seq<char>>::empty())
}

impl Layer {
    /// The bytes of the layer's `contents.plist`: a dictionary from each glyph name to
    /// the name of its file, in the order of the names.
    pub fn contents_plist(&self, opts: &WriteOptions) -> (res: Result<Vec<u8>, plist::Error>)
        ensures
            res matches Ok(b) && is_contents_plist(b@, self.spec_entries(), *opts),
    {
        let mut d = new_dict();
        let mut i: usize = 0;
        while i < self.entries.len()
            invariant
                i <= self.entries@.len(),
                dict_strings(d) == contents_map(self.spec_entries().take(i as int)),
                dict_keys(d) == contents_map(self.spec_entries().take(i as int)).dom(),
                !dict_holds_uid(d),
            decreases self.entries@.len() - i,
        {
            let e = &self.entries[i];
            dict_insert_string(&mut d, to_string(e.0.as_str()), e.2.clone());
            proof {
                assert(self.spec_entries().take(i + 1).drop_last() =~= self.spec_entries().take(i as int));
                assert(dict_keys(d) =~= contents_map(self.spec_entries().take(i + 1)).dom());
            }
            i += 1;
        }
        assert(self.spec_entries().take(i as int) =~= self.spec_entries());
        let r = dict_to_xml(&d, opts.whitespace_char(), opts.whitespace_count());
        assert(r matches Ok(b) ==> plist_xml(d, opts.spec_indent_char(), opts.spec_indent().len() as usize) == b@);
        r
    }

    /// The bytes of the layer's `layerinfo.plist`, or `None` where the layer has no
    /// color and an empty lib, so that there is nothing to write. The dictionary holds
    /// the color's text under `color` and the lib under `lib`, keys sorted at every
    /// depth. `show3` gives the text of a color channel with three decimals.
    pub fn layerinfo_plist<G: Fn(Float32Bits) -> String>(&self, opts: &WriteOptions, show3: &G) -> (res: Result<Option<Vec<u8>>, plist::Error>)
        requires
            shows_one_way(*show3),
        ensures
            (res matches Ok(None)) <==> !needs_layerinfo(self.spec_color(), self.spec_lib()),
            res matches Ok(Some(b)) ==> is_layerinfo_plist(b@, self.spec_color(), self.spec_lib(), *opts, *show3),
    {
        let lib_empty = dict_is_empty(&self.lib);
        if self.color.is_none() && lib_empty {
            return Ok(None);
        }
        proof {
            reveal_strlit("color");
            reveal_strlit("lib");
        }
        let mut d = new_dict();
        match &self.color {
            Some(c) => {
                let text = c.to_rgba_string(show3);
                dict_insert_string(&mut d, to_string("color"), text);
                assert(dict_strings(d) =~= layerinfo_strings(self.spec_color(), *show3));
            },
            None => {
                assert(dict_strings(d) =~= layerinfo_strings(self.spec_color(), *show3));
            },
        }
        if !lib_empty {
            assert("lib"@ != "color"@) by {
                assert("lib"@.len() != "color"@.len());
            }
            dict_insert_dictionary(&mut d, to_string("lib"), self.lib.clone());
            assert(dict_strings(d) =~= layerinfo_strings(self.spec_color(), *show3));
        }
        sort_keys_recursively(&mut d);
        assert(dict_keys(d) =~= layerinfo_keys(self.spec_color(), self.spec_lib()));
        assert(dict_strings(d) =~= layerinfo_strings(self.spec_color(), *show3));
        match dict_to_xml(&d, opts.whitespace_char(), opts.whitespace_count()) {
            Ok(b) => {
                assert(plist_xml(d, opts.spec_indent_char(), opts.spec_indent().len() as usize) == b@);
                Ok(Some(b))
            },
            Err(e) => Err(e),
        }
    }
}

/// The name and directory of each layer, in order.
pub open spec fn layer_dirs(ls: Seq<Layer>) -> Seq<(Seq<char>, Seq<char>)> {
    ls.map_values(|l: Layer| (l.spec_name(), l.spec_path()))
}

impl LayerSet {
    /// The bytes of the font's `layercontents.plist`: for each layer in order, its name
    /// and its directory.
    pub fn contents_plist(&self, opts: &WriteOptions) -> (res: Result<Vec<u8>, plist::Error>)
        ensures
            res matches Ok(b) && b@ == string_pairs_xml(
                layer_dirs(self.spec_layers()),
                opts.spec_indent_char(),
                opts.spec_indent().len() as usize,
            ),
    {
        let mut pairs: Vec<(String, String)> = Vec::new();
        let mut i: usize = 0;
        while i < self.layers.len()
            invariant
                i <= self.layers@.len(),
                pairs@.len() == i,
                pair_texts(pairs@) == layer_dirs(self.spec_layers()).take(i as int),
            decreases self.layers@.len() - i,
        {
            let l = &self.layers[i];
            let ghost before = pairs@;
            let pair = (to_string(l.name.as_str()), l.path.clone());
            assert(pair.0@ == l.spec_name() && pair.1@ == l.spec_path());
            pairs.push(pair);
            proof {
                let want = layer_dirs(self.spec_layers()).take(i + 1);
                assert(pairs@ == before.push(pair));
                assert(pair_texts(pairs@).len() == want.len());
                assert forall|k: int| 0 <= k < want.len() implies pair_texts(pairs@)[k] == want[k] by {
                    assert(pair_texts(pairs@)[k] == (pairs@[k].0@, pairs@[k].1@));
                    assert(want[k] == (self.spec_layers()[k].spec_name(), self.spec_layers()[k].spec_path()));
                    if k < i {
                        assert(pair_texts(before)[k] == want[k]);
                        assert(pairs@[k] == before[k]);
                    } else {
                        assert(pairs@[k] == pair);
                    }
                }
                assert(pair_texts(pairs@) =~= want);
            }
            i += 1;
        }
        assert(layer_dirs(self.spec_layers()).take(i as int) =~= layer_dirs(self.spec_layers()));
        string_pairs_to_xml(&pairs, opts.whitespace_char(), opts.whitespace_count())
    }
}

/// The name of the file, in a layer's directory, that files each glyph name under the
/// name of its glif file.
pub const CONTENTS_FILE: &'static str = "contents.plist";

/// The name of the file, in a layer's directory, that holds the layer's color and lib.
pub const LAYER_INFO_FILE: &'static str = "layerinfo.plist";

/// True when every glyph of the entries has an identifier on each guideline that has
/// a lib, as the library's guidelines always do.
pub open spec fn glyph_guidelines_identified(es: Seq<(Seq<char>, Glyph, Seq<char>)>) -> bool {
    forall|j: int| 0 <= j < es.len() ==> guideline_libs_identified((#[trigger] es[j]).1.guidelines@)
}

/// True when `files` are the files that saving the layer writes, by path relative to
/// the font's root: its `contents.plist`; its `layerinfo.plist` where it has one to
/// write; the glif file of each glyph, in the order of the names.
pub open spec fn layer_files_ok<F: Fn(FloatBits) -> String, G: Fn(Float32Bits) -> String>(
    l: Layer,
    files: Seq<(String, Vec<u8>)>,
    opts: WriteOptions,
    show: F,
    show3: G,
) -> bool {
    let es = l.spec_entries();
    let off: int = if needs_layerinfo(l.spec_color(), l.spec_lib()) { 2 } else { 1 };
    &&& files.len() == off + es.len()
    &&& files[0].0@ == spec_join(l.spec_path(), CONTENTS_FILE@)
    &&& is_contents_plist(files[0].1@, es, opts)
    &&& (off == 2 ==> files[1].0@ == spec_join(l.spec_path(), LAYER_INFO_FILE@) && is_layerinfo_plist(
        files[1].1@,
        l.spec_color(),
        l.spec_lib(),
        opts,
        show3,
    ))
    &&& forall|j: int|
        0 <= j < es.len() ==> files[off + j].0@ == spec_join(l.spec_path(), (#[trigger] es[j]).2) && is_saved_glif(
            es[j].1,
            opts,
            show,
            show3,
            files[off + j].1@,
        )
}

impl Layer {
    /// The files that saving the layer writes, by path relative to the font's root:
    /// the layer's `contents.plist`, then its `layerinfo.plist` where it has a color or
    /// a lib, then the glif file of each glyph, in the order of the names. The first
    /// file that cannot be made decides the error.
    pub fn files_for_saving<F: Fn(FloatBits) -> String, G: Fn(Float32Bits) -> String>(
        &self,
        opts: &WriteOptions,
        show: &F,
        show3: &G,
    ) -> (res: Result<Vec<(String, Vec<u8>)>, LayerWriteError>)
        requires
            shows_one_way(*show),
            shows_one_way(*show3),
            glyph_guidelines_identified(self.spec_entries()),
        ensures
            res matches Ok(files) ==> layer_files_ok(*self, files@, *opts, *show, *show3),
            res matches Err(e) ==> (e is WriteGlyph || (e is WriteLayerInfo && needs_layerinfo(self.spec_color(), self.spec_lib()))),
            self.spec_entries().len() == 0 && !needs_layerinfo(self.spec_color(), self.spec_lib()) ==> res is Ok,
            res matches Err(LayerWriteError::WriteGlyph(n, p, _)) ==> exists|j: int|
                0 <= j < self.spec_entries().len() && n@ == (#[trigger] self.spec_entries()[j]).0 && p@ == spec_join(
                    self.spec_path(),
                    self.spec_entries()[j].2,
                ),
    {
        let contents = match self.contents_plist(opts) {
            Ok(b) => b,
            Err(e) => {
                return Err(LayerWriteError::WriteContents(e));
            },
        };
        let mut files: Vec<(String, Vec<u8>)> = Vec::new();
        files.push((join(self.path.as_str(), CONTENTS_FILE), contents));
        match self.layerinfo_plist(opts, show3) {
            Ok(Some(b)) => {
                files.push((join(self.path.as_str(), LAYER_INFO_FILE), b));
            },
            Ok(None) => {},
            Err(e) => {
                return Err(LayerWriteError::WriteLayerInfo(e));
            },
        }
        let ghost off: int = files@.len() as int;
        let ghost head = files@;
        let ghost es = self.spec_entries();
        assert(off == if needs_layerinfo(self.spec_color(), self.spec_lib()) { 2int } else { 1int });
        let mut i: usize = 0;
        while i < self.entries.len()
            invariant
                i <= self.entries@.len(),
                es == self.spec_entries(),
                es.len() == self.entries@.len(),
                shows_one_way(*show),
                shows_one_way(*show3),
                glyph_guidelines_identified(es),
                off == 1 || off == 2,
                files@.len() == off + i,
                files@.subrange(0, off) == head,
                forall|j: int|
                    0 <= j < i ==> files@[off + j].0@ == spec_join(self.spec_path(), (#[trigger] es[j]).2) && is_saved_glif(
                        es[j].1,
                        *opts,
                        *show,
                        *show3,
                        files@[off + j].1@,
                    ),
            decreases self.entries@.len() - i,
        {
            let e = &self.entries[i];
            assert(es[i as int] == entry_view(self.entries@[i as int]));
            let path = join(self.path.as_str(), e.2.as_str());
            match e.1.encode_for_saving(opts, show, show3) {
                Ok(b) => {
                    let ghost before = files@;
                    files.push((path, b));
                    assert(files@.subrange(0, off) =~= head) by {
                        assert(before.subrange(0, off) == head);
                    }
                    assert forall|j: int|
                        0 <= j < i + 1 implies files@[off + j].0@ == spec_join(self.spec_path(), (#[trigger] es[j]).2)
                        && is_saved_glif(es[j].1, *opts, *show, *show3, files@[off + j].1@) by {
                        if j < i {
                            assert(files@[off + j] == before[off + j]);
                        }
                    }
                },
                Err(err) => {
                    return Err(LayerWriteError::WriteGlyph(to_string(e.0.as_str()), path, err));
                },
            }
            i += 1;
        }
        assert(files@[0] == head[0]);
        assert(off == 2 ==> files@[1] == head[1]);
        Ok(files)
    }
}

/// Dropping the last of entries with sorted names leaves them sorted.
proof fn lemma_sorted_drop_last(es: Seq<(Seq<char>, Glyph, Seq<char>)>)
    requires
        is_sorted(entry_names(es)),
        es.len() > 0,
    ensures
        is_sorted(entry_names(es.drop_last())),
{
    let init = es.drop_last();
    assert forall|i: int, j: int| 0 <= i < j < entry_names(init).len() implies lex_lt(
        #[trigger] entry_names(init)[i],
        #[trigger] entry_names(init)[j],
    ) by {
        assert(entry_names(init)[i] == entry_names(es)[i]);
        assert(entry_names(init)[j] == entry_names(es)[j]);
    }
}

/// In entries with sorted names, the contents map files the entry at `i` under its
/// name, with its file name.
proof fn lemma_contents_map_at(es: Seq<(Seq<char>, Glyph, Seq<char>)>, i: int)
    requires
        is_sorted(entry_names(es)),
        0 <= i < es.len(),
    ensures
        contents_map(es).contains_key(es[i].0),
        contents_map(es)[es[i].0] == es[i].2,
    decreases es.len(),
{
    let last = es.len() - 1;
    let init = es.drop_last();
    assert(contents_map(es) == contents_map(init).insert(es[last].0, es[last].2));
    if i < last {
        lemma_sorted_drop_last(es);
        lemma_contents_map_at(init, i);
        assert(init[i] == es[i]);
        if es[i].0 == es[last].0 {
            assert(entry_names(es)[i] == es[i].0 && entry_names(es)[last] == es[last].0);
            lemma_sorted_unique(entry_names(es), i, last);
        }
    }
}

/// The contents map names only names of the entries.
proof fn lemma_contents_map_names(es: Seq<(Seq<char>, Glyph, Seq<char>)>, n: Seq<char>)
    requires
        contents_map(es).contains_key(n),
    ensures
        has_name(es, n),
    decreases es.len(),
{
    let last = es.len() - 1;
    let init = es.drop_last();
    if n == es[last].0 {
        assert(es[last].0 == n);
    } else {
        assert(contents_map(init).contains_key(n));
        lemma_contents_map_names(init, n);
        let k = choose|k: int| 0 <= k < init.len() && (#[trigger] init[k]).0 == n;
        assert(es[k] == init[k]);
    }
}

/// Law: the `contents.plist` of a layer files each of its glyphs under its name, with
/// the name of its file, and names nothing else.
pub proof fn law_contents_plist_files_each_glyph(l: Layer)
    requires
        l.wf(),
    ensures
        forall|i: int|
            0 <= i < l.spec_entries().len() ==> #[trigger] contents_map(l.spec_entries()).contains_key(l.spec_entries()[i].0)
                && contents_map(l.spec_entries())[l.spec_entries()[i].0] == l.spec_entries()[i].2,
        forall|n: Seq<char>| #[trigger] contents_map(l.spec_entries()).contains_key(n) ==> has_name(l.spec_entries(), n),
{
    let es = l.spec_entries();
    assert forall|i: int| 0 <= i < es.len() implies #[trigger] contents_map(es).contains_key(es[i].0)
        && contents_map(es)[es[i].0] == es[i].2 by {
        lemma_contents_map_at(es, i);
    }
    assert forall|n: Seq<char>| #[trigger] contents_map(es).contains_key(n) implies has_name(es, n) by {
        lemma_contents_map_names(es, n);
    }
}

} // verus!
