//! The font's metainfo and the checks made before a font is written.

use vstd::prelude::*;

use crate::error::{FontWriteError, StoreError};
use crate::datastore::{DataStore, ImageStore};
use crate::fontinfo::{describes_failure, first_failed_check, spec_info_is_empty, FontInfo};
use crate::glyph::Glyph;
use crate::guideline::Guideline;
use crate::kerning::{Kerning, KerningResolver};
use crate::layer::{glyph_of, has_name, lemma_update_keeps_wf, wf_layers, Layer, LayerSet};
use crate::name::Name;
use crate::groups::{groups_check_from, groups_view, reports, validate_groups, Groups, GroupsCheck};
use crate::plist_ops::{dict_contains_key, dict_keys, new_dict};
use crate::shared_types::{Plist, PUBLIC_OBJECT_LIBS_KEY};
use crate::text::str_eq;

verus! {

/// The name of the file that holds a font's metainfo.
pub const METAINFO_FILE: &'static str = "metainfo.plist";

/// The name of the file that holds a font's font info.
pub const FONTINFO_FILE: &'static str = "fontinfo.plist";

/// The name of the file that holds a font's lib.
pub const LIB_FILE: &'static str = "lib.plist";

/// The name of the file that holds a font's groups.
pub const GROUPS_FILE: &'static str = "groups.plist";

/// The name of the file that holds a font's kerning.
pub const KERNING_FILE: &'static str = "kerning.plist";

/// The creator that the library writes into the metainfo of the fonts it saves.
pub const DEFAULT_METAINFO_CREATOR: &'static str = "org.linebender.norad";

/// A major version of the UFO specification.
#[derive(Debug, Clone, Copy, PartialEq, Eq, Structural)]
pub enum FormatVersion {
    /// UFO specification major version 1. Only reading (and upconversion) is supported.
    V1,
    /// UFO specification major version 2. Only reading (and upconversion) is supported.
    V2,
    /// UFO specification major version 3.
    V3,
}

/// The contents of the `metainfo.plist` file.
#[derive(Debug)]
pub struct MetaInfo {
    /// Creator field.
    pub creator: Option<String>,
    /// UFO specification major version field.
    pub format_version: FormatVersion,
    /// UFO specification minor version field.
    pub format_version_minor: u32,
}

/// An optional string by its characters.
pub open spec fn opt_text(o: Option<String>) -> Option<Seq<char>> {
    match o {
        Some(s) => Some(s@),
        None => None,
    }
}

impl MetaInfo {
    /// True when the metainfo is the one a new font gets: made by this library, in
    /// version 3.0 of the format.
    pub open spec fn is_default(self) -> bool {
        &&& opt_text(self.creator) == Some(DEFAULT_METAINFO_CREATOR@)
        &&& self.format_version == FormatVersion::V3
        &&& self.format_version_minor == 0
    }

    /// True when the two hold the same values.
    pub open spec fn same_as(self, other: MetaInfo) -> bool {
        &&& opt_text(self.creator) == opt_text(other.creator)
        &&& self.format_version == other.format_version
        &&& self.format_version_minor == other.format_version_minor
    }

    /// The metainfo to write when saving: this one where the library created the font,
    /// else the default one, so that the library always stands as the creator.
    pub fn for_saving(&self) -> (res: MetaInfo)
        ensures
            opt_text(res.creator) == Some(DEFAULT_METAINFO_CREATOR@),
            res.format_version == FormatVersion::V3 || res.same_as(*self),
            opt_text(self.creator) == Some(DEFAULT_METAINFO_CREATOR@) ==> res.same_as(*self),
            opt_text(self.creator) != Some(DEFAULT_METAINFO_CREATOR@) ==> res.is_default(),
    {
        let made_here = match &self.creator {
            Some(c) => str_eq(c.as_str(), DEFAULT_METAINFO_CREATOR),
            None => false,
        };
        if made_here {
            self.clone()
        } else {
            MetaInfo::default()
        }
    }
}

impl Clone for MetaInfo {
    fn clone(&self) -> (res: Self)
        ensures
            res.same_as(*self),
    {
        let creator = match &self.creator {
            Some(c) => Some(c.clone()),
            None => None,
        };
        MetaInfo { creator, format_version: self.format_version, format_version_minor: self.format_version_minor }
    }
}

impl Default for MetaInfo {
    fn default() -> (res: Self)
        ensures
            res.is_default(),
    {
        MetaInfo {
            creator: Some(DEFAULT_METAINFO_CREATOR.to_string()),
            format_version: FormatVersion::V3,
            format_version_minor: 0,
        }
    }
}

/// Whether a minor version is zero, so that it need not be written.
pub fn is_zero(v: &u32) -> (res: bool)
    ensures
        res == (*v == 0),
{
    *v == 0
}

/// True when every entry before position `k` loaded.
pub open spec fn loaded_before(entries: Seq<(String, Result<Vec<u8>, StoreError>)>, k: int) -> bool {
    forall|i: int| 0 <= i < k ==> (#[trigger] entries[i]).1 is Ok
}

/// True when the entry at `k` is the first that did not load.
pub open spec fn first_failed_entry(entries: Seq<(String, Result<Vec<u8>, StoreError>)>, k: int) -> bool {
    0 <= k < entries.len() && loaded_before(entries, k) && entries[k].1 is Err
}

/// The index of the first entry that did not load, if any.
fn first_unloaded(entries: &Vec<(String, Result<Vec<u8>, StoreError>)>) -> (res: Option<usize>)
    ensures
        res is None <==> loaded_before(entries@, entries@.len() as int),
        res matches Some(k) ==> first_failed_entry(entries@, k as int),
{
    let mut i: usize = 0;
    while i < entries.len()
        invariant
            i <= entries@.len(),
            loaded_before(entries@, i as int),
        decreases entries@.len() - i,
    {
        if entries[i].1.is_err() {
            return Some(i);
        }
        i += 1;
    }
    None
}

/// Where the entries of `a` all loaded, the first failure of `a + b` is that of `b`,
/// shifted; a failure of `a` stays first in `a + b`.
proof fn lemma_first_failed_concat(
    a: Seq<(String, Result<Vec<u8>, StoreError>)>,
    b: Seq<(String, Result<Vec<u8>, StoreError>)>,
)
    ensures
        forall|k: int| first_failed_entry(a, k) ==> #[trigger] first_failed_entry(a + b, k),
        loaded_before(a, a.len() as int) ==> forall|k: int|
            first_failed_entry(b, k) ==> #[trigger] first_failed_entry(a + b, a.len() + k),
        loaded_before(a + b, (a + b).len() as int) <==> (loaded_before(a, a.len() as int) && loaded_before(b, b.len() as int)),
{
    assert forall|k: int| first_failed_entry(a, k) implies #[trigger] first_failed_entry(a + b, k) by {
        assert forall|i: int| 0 <= i < k implies (#[trigger] (a + b)[i]).1 is Ok by {
            assert((a + b)[i] == a[i]);
        }
        assert((a + b)[k] == a[k]);
    }
    if loaded_before(a, a.len() as int) {
        assert forall|k: int| first_failed_entry(b, k) implies #[trigger] first_failed_entry(a + b, a.len() + k) by {
            assert forall|i: int| 0 <= i < a.len() + k implies (#[trigger] (a + b)[i]).1 is Ok by {
                if i < a.len() {
                    assert((a + b)[i] == a[i]);
                } else {
                    assert((a + b)[i] == b[i - a.len()]);
                }
            }
            assert((a + b)[a.len() + k] == b[k]);
        }
    }
    if loaded_before(a + b, (a + b).len() as int) {
        assert forall|i: int| 0 <= i < a.len() implies (#[trigger] a[i]).1 is Ok by {
            assert((a + b)[i] == a[i]);
        }
        assert forall|i: int| 0 <= i < b.len() implies (#[trigger] b[i]).1 is Ok by {
            assert((a + b)[a.len() + i] == b[i]);
        }
    }
    if loaded_before(a, a.len() as int) && loaded_before(b, b.len() as int) {
        assert forall|i: int| 0 <= i < (a + b).len() implies (#[trigger] (a + b)[i]).1 is Ok by {
            if i < a.len() {
                assert((a + b)[i] == a[i]);
            } else {
                assert((a + b)[i] == b[i - a.len()]);
            }
        }
    }
}

/// Every entry of `a + b` loaded exactly when every entry of `a` and of `b` did.
pub proof fn lemma_loaded_concat(
    a: Seq<(String, Result<Vec<u8>, StoreError>)>,
    b: Seq<(String, Result<Vec<u8>, StoreError>)>,
)
    ensures
        loaded_before(a + b, (a + b).len() as int) <==> (loaded_before(a, a.len() as int) && loaded_before(b, b.len() as int)),
{
    lemma_first_failed_concat(a, b);
}

/// True when a font passes every check made before it is written.
pub open spec fn passes_save_checks(
    meta: MetaInfo,
    lib: Plist,
    groups: Seq<(Name, Vec<Name>)>,
    font_info: FontInfo,
    entries: Seq<(String, Result<Vec<u8>, StoreError>)>,
) -> bool {
    &&& meta.format_version == FormatVersion::V3
    &&& !dict_keys(lib).contains(PUBLIC_OBJECT_LIBS_KEY@)
    &&& groups_check_from(groups_view(groups), 0) is Valid
    &&& first_failed_check(font_info) is None
    &&& loaded_before(entries, entries.len() as int)
}

/// True when `e` is the error of the first check that the font fails: its format
/// version, that its lib leaves `public.objectLibs` to the library, its groups, its
/// font info and the entries of its data and images stores, in that order.
pub open spec fn is_save_check_error(
    e: FontWriteError,
    meta: MetaInfo,
    lib: Plist,
    groups: Seq<(Name, Vec<Name>)>,
    font_info: FontInfo,
    entries: Seq<(String, Result<Vec<u8>, StoreError>)>,
) -> bool {
    if meta.format_version != FormatVersion::V3 {
        e is Downgrade
    } else if dict_keys(lib).contains(PUBLIC_OBJECT_LIBS_KEY@) {
        e is PreexistingPublicObjectLibsKey
    } else if !(groups_check_from(groups_view(groups), 0) is Valid) {
        e matches FontWriteError::InvalidGroups(g) && reports(Err(g), groups_check_from(groups_view(groups), 0))
    } else if first_failed_check(font_info) is Some {
        e matches FontWriteError::InvalidFontInfo(k) && describes_failure(k, first_failed_check(font_info)->0, font_info)
    } else {
        e matches FontWriteError::InvalidStoreEntry { path, source } && exists|k: int|
            #[trigger] first_failed_entry(entries, k) && path@ == entries[k].0@
                && Err::<Vec<u8>, StoreError>(source) == entries[k].1
    }
}

/// Checks a font before anything of it is written: its format version, that its lib
/// leaves `public.objectLibs` to the library, its groups, its font info and the entries
/// of its data store, then of its images store, in that order; the first check that
/// fails decides the error.
pub fn check_before_save(
    meta: &MetaInfo,
    lib: &Plist,
    groups: &Groups,
    font_info: &FontInfo,
    data: &Vec<(String, Result<Vec<u8>, StoreError>)>,
    images: &Vec<(String, Result<Vec<u8>, StoreError>)>,
) -> (res: Result<(), FontWriteError>)
    ensures
        res is Ok <==> passes_save_checks(*meta, *lib, groups@, *font_info, data@ + images@),
        res matches Err(e) ==> is_save_check_error(e, *meta, *lib, groups@, *font_info, data@ + images@),
{
    if meta.format_version != FormatVersion::V3 {
        return Err(FontWriteError::Downgrade);
    }
    if dict_contains_key(lib, PUBLIC_OBJECT_LIBS_KEY) {
        return Err(FontWriteError::PreexistingPublicObjectLibsKey);
    }
    match validate_groups(groups) {
        Ok(()) => {},
        Err(e) => {
            return Err(FontWriteError::InvalidGroups(e));
        },
    }
    match font_info.validate() {
        Ok(()) => {},
        Err(e) => {
            return Err(FontWriteError::InvalidFontInfo(e));
        },
    }
    proof {
        lemma_first_failed_concat(data@, images@);
    }
    match first_unloaded(data) {
        Some(k) => {
            let entry = &data[k];
            assert(first_failed_entry(data@ + images@, k as int));
            assert((data@ + images@)[k as int] == data@[k as int]);
            match &entry.1 {
                Ok(_) => {},
                Err(source) => {
                    return Err(FontWriteError::InvalidStoreEntry { path: entry.0.clone(), source: source.clone() });
                },
            }
        },
        None => {},
    }
    match first_unloaded(images) {
        Some(k) => {
            let entry = &images[k];
            assert(first_failed_entry(data@ + images@, data@.len() + k));
            assert((data@ + images@)[data@.len() + k] == images@[k as int]);
            match &entry.1 {
                Ok(_) => {},
                Err(source) => {
                    return Err(FontWriteError::InvalidStoreEntry { path: entry.0.clone(), source: source.clone() });
                },
            }
        },
        None => {},
    }
    Ok(())
}

/// A font: the contents of a UFO package.
#[derive(Debug)]
pub struct Font {
    /// The font's metainfo, as `metainfo.plist` holds it.
    pub meta: MetaInfo,
    /// The font info, as `fontinfo.plist` holds it.
    pub font_info: FontInfo,
    /// The font's layers, each a directory of glyphs.
    pub layers: LayerSet,
    /// Arbitrary data, as `lib.plist` holds it. An empty lib is not written.
    pub lib: Plist,
    /// Glyph groups, as `groups.plist` holds them.
    pub groups: Groups,
    /// Horizontal kerning pairs, as `kerning.plist` holds them.
    pub kerning: Kerning,
    /// The contents of `features.fea`.
    pub features: String,
    /// The feature files that `features.fea` includes, by path, with their text.
    pub feature_files: Vec<(String, String)>,
    /// The contents of the font's `data` directory.
    pub data: DataStore,
    /// The contents of the font's `images` directory.
    pub images: ImageStore,
}

impl Font {
    /// Returns a new, empty font: version 3, created by this library, with one empty
    /// default layer.
    pub fn new() -> (res: Self)
        ensures
            res.meta.is_default(),
            spec_info_is_empty(res.font_info),
            res.layers.wf(),
            res.layers.spec_layers().len() == 1,
            res.layers.spec_layers()[0].spec_entries().len() == 0,
            dict_keys(res.lib) == Set::<Seq<char>>::empty(),
            res.groups@.len() == 0,
            res.kerning@.len() == 0,
            res.features@.len() == 0,
            res.feature_files@.len() == 0,
            res.data.spec_items().len() == 0,
            res.images.spec_items().len() == 0,
    {
        Font {
            meta: MetaInfo::default(),
            font_info: FontInfo::default(),
            layers: LayerSet::default(),
            lib: new_dict(),
            groups: Vec::new(),
            kerning: Vec::new(),
            features: String::new(),
            feature_files: Vec::new(),
            data: DataStore::empty(),
            images: ImageStore::empty(),
        }
    }

    /// Returns the default layer.
    pub fn default_layer(&self) -> (res: &Layer)
        requires
            self.layers.wf(),
        ensures
            *res == self.layers.spec_layers()[0],
    {
        self.layers.default_layer()
    }

    /// Returns the default layer, to change it.
    pub fn default_layer_mut(&mut self) -> (res: &mut Layer)
        requires
            old(self).layers.wf(),
        ensures
            *res == old(self).layers.spec_layers()[0],
            final(self).layers.spec_layers() == old(self).layers.spec_layers().update(0, *final(res)),
    {
        self.layers.default_layer_mut()
    }

    /// Returns a mutable reference to the glyph with the given name _in the default
    /// layer_, if it exists.
    pub fn get_glyph_mut(&mut self, key: &str) -> (res: Option<&mut Glyph>)
        requires
            old(self).layers.wf(),
        ensures
            res is None <==> !has_name(old(self).layers.spec_layers()[0].spec_entries(), key@),
            res matches Some(g) ==> glyph_of(old(self).layers.spec_layers()[0].spec_entries(), key@) == Some(*g),
            final(self).layers.wf(),
            final(self).layers.spec_layers().len() == old(self).layers.spec_layers().len(),
    {
        proof {
            self.layers.lemma_wf_iff();
        }
        let ghost before = self.layers.spec_layers();
        let layer = self.layers.default_layer_mut();
        assert(before[0].wf());
        proof {
            LayerSet::lemma_wf_iff_all();
            assert forall|x: Layer| x.wf() && x.spec_path() == before[0].spec_path() implies #[trigger] wf_layers(
                before.update(0, x),
            ) by {
                lemma_update_keeps_wf(before, 0, x);
            }
        }
        layer.get_glyph_mut(key)
    }

    /// Returns the font's global guidelines, which the font info holds, to change them;
    /// they are created, empty, where there are none.
    pub fn guidelines_mut(&mut self) -> (res: &mut Vec<Guideline>)
        ensures
            res@ == match old(self).font_info.guidelines {
                Some(g) => g@,
                None => Seq::<Guideline>::empty(),
            },
            final(self).font_info.guidelines == Some(*final(res)),
            final(self).layers == old(self).layers,
    {
        self.font_info.guidelines.get_or_insert(Vec::new())
    }

    /// Returns the layers, the default one first.
    pub fn iter_layers(&self) -> (res: Vec<&Layer>)
        ensures
            res@.len() == self.layers.spec_layers().len(),
            forall|i: int| 0 <= i < res@.len() ==> *(#[trigger] res@[i]) == self.layers.spec_layers()[i],
    {
        self.layers.iter()
    }

    /// Returns the names of the glyphs of the default layer, in order.
    pub fn iter_names(&self) -> (res: Vec<Name>)
        requires
            self.layers.wf(),
        ensures
            res@.len() == self.layers.spec_layers()[0].spec_entries().len(),
            forall|i: int| 0 <= i < res@.len() ==> (#[trigger] res@[i])@ == self.layers.spec_layers()[0].spec_entries()[i].0,
    {
        self.layers.default_layer().glyph_names()
    }

    /// Returns the glyph of the default layer with the given name.
    pub fn get_glyph(&self, key: &str) -> (res: Option<&Glyph>)
        requires
            self.layers.wf(),
        ensures
            match res {
                Some(g) => glyph_of(self.layers.spec_layers()[0].spec_entries(), key@) == Some(*g),
                None => glyph_of(self.layers.spec_layers()[0].spec_entries(), key@) is None,
            },
    {
        proof {
            self.layers.lemma_wf_layers();
        }
        self.layers.default_layer().get_glyph(key)
    }

    /// Returns the number of glyphs in the default layer.
    pub fn glyph_count(&self) -> (res: usize)
        requires
            self.layers.wf(),
        ensures
            res == self.layers.spec_layers()[0].spec_entries().len(),
    {
        self.layers.default_layer().len()
    }

    /// Returns the font's guidelines, which the font info holds.
    pub fn guidelines(&self) -> (res: &[Guideline])
        ensures
            match self.font_info.guidelines {
                Some(g) => res@ == g@,
                None => res@.len() == 0,
            },
    {
        match &self.font_info.guidelines {
            Some(g) => g.as_slice(),
            None => &[],
        }
    }

    /// Returns a resolver of kerning pairs through the font's kerning groups.
    pub fn kerning_resolver(&self) -> (res: KerningResolver<'_>)
        ensures
            res.kerning() == self.kerning@,
            res.groups() == self.groups@,
    {
        KerningResolver::new(&self.kerning, &self.groups)
    }
}

} // verus!
