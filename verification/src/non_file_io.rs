//! Reading a font through a caller's source of files, and the files that saving writes.
//!
//! The caller's reader of files answers with the text of a file of the font package,
//! or with nothing where there is no such file, and reports failures as text. Saving gives
//! the files to write, in order, with their bytes.

use vstd::prelude::*;

use crate::data_request::LayerFilter;
use crate::datastore::{join, not_found_error};
use crate::error::{FontLoadError, FontWriteError, GlifLoadError, LayerLoadError};
use crate::font::{opt_text, FormatVersion, MetaInfo};
use crate::glyph::parse::{glif_reported, is_function_of_text, is_function_of_text32, meaning32, meaning64};
use crate::glyph::Glyph;
use crate::guideline::Guideline;
use crate::layer::{glyph_of, Layer, LayerSet, DEFAULT_GLYPHS_DIRNAME, DEFAULT_LAYER_NAME, LAYER_CONTENTS_FILE};
use crate::features::{
    line_len, lookup_file, spec_include_target, spec_join_virtual, spec_parent, stacked,
};
use crate::features::{
    files_view, join_virtual_path, normalize_relative_path, parent_path, parse_include_target, spec_normalize,
    texts,
};
use crate::path::{same_path, spec_same_path};
use crate::datastore::spec_join;
use crate::error::StoreError;
use crate::features::{normalize_feature_text, spec_crlf_to_lf, FEATURES_FILE};
use crate::data_request::DataRequest;
use crate::datastore::{DataStore, ImageStore, DATA_DIR, IMAGES_DIR};
use crate::groups::{groups_check_from, groups_view, reports, validate_groups, Groups, GroupsCheck};
use crate::kerning::Kerning;
use crate::plist_ops::{new_dict, parse_xml_dictionary, xml_dictionary};
use crate::font::{
    check_before_save, is_save_check_error, lemma_loaded_concat, loaded_before, passes_save_checks, Font, FONTINFO_FILE,
    GROUPS_FILE, KERNING_FILE, LIB_FILE, METAINFO_FILE,
};
use crate::fontinfo::{describes_failure, first_failed_check, spec_info_is_empty};
use crate::fontinfo::FontInfo;
use crate::glyph::serialize::{font_object_lib_ids, guideline_libs_identified, shows_one_way};
use crate::layer::{glyph_guidelines_identified, layer_dirs, layer_files_ok, needs_layerinfo};
use crate::plist_ops::{
    dict_insert_dictionary, dict_is_empty, dict_keys, dict_strings, dict_to_xml, pair_texts, plist_xml,
    sort_keys_recursively, string_pairs_xml,
};
use crate::shared_types::{Float32Bits, FloatBits, Plist, PUBLIC_OBJECT_LIBS_KEY};
use crate::write::WriteOptions;
use crate::text::{chars_of, string_of, to_string};
use crate::name::Name;

verus! {

/// True when the reader of a package's files, wherever it succeeds, gives one answer
/// for each path: the text the package holds there, or `None` where it holds no such
/// file.
pub open spec fn reads_consistently<R: Fn(&str) -> Result<Option<String>, String>>(read: R) -> bool {
    forall|p1: &str, p2: &str, r1: Result<Option<String>, String>, r2: Result<Option<String>, String>|
        #![trigger call_ensures(read, (p1,), r1), call_ensures(read, (p2,), r2)]
        p1@ == p2@ && call_ensures(read, (p1,), r1) && call_ensures(read, (p2,), r2) && r1 is Ok && r2 is Ok ==> opt_text(
            r1->Ok_0,
        ) == opt_text(r2->Ok_0)
}

/// True when a read of the path `p` can succeed with the text `o`.
pub open spec fn reads_as_text<R: Fn(&str) -> Result<Option<String>, String>>(read: R, p: Seq<char>, o: Option<Seq<char>>) -> bool {
    exists|x: &str, r: Result<Option<String>, String>|
        #[trigger] call_ensures(read, (x,), r) && x@ == p && r is Ok && opt_text(r->Ok_0) == o
}

/// The text that the package that `read` reads holds at `p`, `None` where it holds no
/// such file.
pub open spec fn package_text<R: Fn(&str) -> Result<Option<String>, String>>(read: R, p: Seq<char>) -> Option<Seq<char>> {
    choose|o: Option<Seq<char>>| #[trigger] reads_as_text(read, p, o)
}

/// A read that succeeds gives the text that the package holds at the path.
pub proof fn lemma_package_text<R: Fn(&str) -> Result<Option<String>, String>>(read: R, x: &str, r: Result<Option<String>, String>)
    requires
        reads_consistently(read),
        call_ensures(read, (x,), r),
        r is Ok,
    ensures
        opt_text(r->Ok_0) == package_text(read, x@),
{
    assert(reads_as_text(read, x@, opt_text(r->Ok_0)));
    let o = package_text(read, x@);
    let (x2, r2) = choose|x2: &str, r2: Result<Option<String>, String>|
        #[trigger] call_ensures(read, (x2,), r2) && x2@ == x@ && r2 is Ok && opt_text(r2->Ok_0) == o;
}

/// Reads the file at `path` from `source`; a failure of the source becomes
/// [`FontLoadError::Source`] for the path.
pub fn read_optional_text<R: Fn(&str) -> Result<Option<String>, String>>(source: &R, path: &str) -> (res: Result<Option<String>, FontLoadError>)
    requires
        forall|p: &str| #[trigger] call_requires(*source, (p,)),
        reads_consistently(*source),
    ensures
        res matches Ok(t) ==> opt_text(t) == package_text(*source, path@),
        res matches Err(e) ==> (e matches FontLoadError::Source { path: p, .. } && p@ == path@),
{
    let r = source(path);
    proof {
        if r is Ok {
            lemma_package_text(*source, path, r);
        }
    }
    source_reply(path, r)
}

/// What reading the file at `path` gives for the source's reply: the text or its
/// absence as the source gave it, or [`FontLoadError::Source`] with the source's
/// message.
pub fn source_reply(path: &str, reply: Result<Option<String>, String>) -> (res: Result<Option<String>, FontLoadError>)
    ensures
        match reply {
            Ok(t) => res == Ok::<Option<String>, FontLoadError>(t),
            Err(m) => res matches Err(FontLoadError::Source { path: p, message }) && p@ == path@ && message == m,
        },
{
    match reply {
        Ok(text) => Ok(text),
        Err(message) => Err(FontLoadError::Source { path: to_string(path), message }),
    }
}

/// Reads the file at `path` from `source`; a missing file is the error `missing`.
pub fn read_required_text<R: Fn(&str) -> Result<Option<String>, String>>(source: &R, path: &str, missing: FontLoadError) -> (res: Result<String, FontLoadError>)
    requires
        forall|p: &str| #[trigger] call_requires(*source, (p,)),
        reads_consistently(*source),
    ensures
        res matches Ok(t) ==> package_text(*source, path@) == Some(t@),
        package_text(*source, path@) is None && res is Err ==> (res == Err::<String, FontLoadError>(missing) || (res matches Err(
            FontLoadError::Source { path: p, .. },
        ) && p@ == path@)),
        res matches Err(e) ==> (e == missing || (e matches FontLoadError::Source { path: p, .. } && p@ == path@)),
{
    required_text(read_optional_text(source, path), missing)
}

/// The text of a file that must be there, given what reading it gave: a missing file
/// is the error `missing`; an error of reading stays.
pub fn required_text(read: Result<Option<String>, FontLoadError>, missing: FontLoadError) -> (res: Result<String, FontLoadError>)
    ensures
        match read {
            Ok(Some(t)) => res == Ok::<String, FontLoadError>(t),
            Ok(None) => res == Err::<String, FontLoadError>(missing),
            Err(e) => res == Err::<String, FontLoadError>(e),
        },
{
    match read {
        Ok(Some(text)) => Ok(text),
        Ok(None) => Err(missing),
        Err(e) => Err(e),
    }
}

/// What writing the file at `path` gives for the sink's reply: success, or
/// [`FontWriteError::Sink`] with the sink's message.
pub fn sink_reply(path: &str, reply: Result<(), String>) -> (res: Result<(), FontWriteError>)
    ensures
        match reply {
            Ok(()) => res is Ok,
            Err(m) => res matches Err(FontWriteError::Sink { path: p, message }) && p@ == path@ && message == m,
        },
{
    match reply {
        Ok(()) => Ok(()),
        Err(message) => Err(FontWriteError::Sink { path: to_string(path), message }),
    }
}

fn position_in(stack: &Vec<String>, p: &str) -> (res: Option<usize>)
    ensures
        match res {
            Some(i) => i < stack@.len() && crate::path::spec_same_path(stack@[i as int]@, p@),
            None => !crate::features::stacked(texts(stack@), p@),
        },
{
    let mut i: usize = 0;
    while i < stack.len()
        invariant
            0 <= i <= stack@.len(),
            forall|j: int| 0 <= j < i ==> !crate::path::spec_same_path(#[trigger] stack@[j]@, p@),
        decreases stack@.len() - i,
    {
        if same_path(stack[i].as_str(), p) {
            return Some(i);
        }
        i += 1;
    }
    proof {
        if crate::features::stacked(texts(stack@), p@) {
            let j = choose|j: int| 0 <= j < texts(stack@).len() && crate::path::spec_same_path(#[trigger] texts(stack@)[j], p@);
            assert(texts(stack@)[j] == stack@[j]@);
        }
    }
    None
}

fn has_file(files: &Vec<(String, String)>, p: &str) -> (res: bool)
    ensures
        res == (crate::features::lookup_file(files_view(files@), p@) is Some),
{
    let ghost fv = files_view(files@);
    let mut i: usize = 0;
    while i < files.len()
        invariant
            0 <= i <= files@.len(),
            fv == files_view(files@),
            crate::features::lookup_file(fv.subrange(0, i as int), p@) is None,
        decreases files@.len() - i,
    {
        proof {
            assert(fv.subrange(0, i + 1).drop_last() =~= fv.subrange(0, i as int));
        }
        if same_path(files[i].0.as_str(), p) {
            proof {
                lemma_lookup_some(fv, p@, i + 1);
            }
            return true;
        }
        i += 1;
    }
    proof {
        assert(fv.subrange(0, files@.len() as int) =~= fv);
    }
    false
}

proof fn lemma_lookup_some(fv: Seq<(Seq<char>, Seq<char>)>, p: Seq<char>, k: int)
    requires
        0 < k <= fv.len(),
        crate::features::lookup_file(fv.subrange(0, k), p) is Some,
    ensures
        crate::features::lookup_file(fv, p) is Some,
    decreases fv.len() - k,
{
    if k < fv.len() {
        assert(fv.subrange(0, k + 1).drop_last() =~= fv.subrange(0, k));
        lemma_lookup_some(fv, p, k + 1);
    } else {
        assert(fv.subrange(0, k) =~= fv);
    }
}

/// The paths of the files that the include statements of `contents`, the text of the
/// file at `cur`, name, in the order of its lines.
pub open spec fn include_paths(cur: Seq<char>, contents: Seq<char>) -> Seq<Seq<char>>
    decreases contents.len(),
{
    if contents.len() == 0 {
        Seq::empty()
    } else {
        let n = if 1 <= line_len(contents) <= contents.len() {
            line_len(contents)
        } else {
            contents.len() as int
        };
        let rest = include_paths(cur, contents.subrange(n, contents.len() as int));
        match spec_include_target(contents.subrange(0, n)) {
            Some(t) => seq![spec_join_virtual(spec_parent(cur), t)] + rest,
            None => rest,
        }
    }
}

/// True when no path of `paths` is on the stack, and every one is among the files.
pub open spec fn includes_known(paths: Seq<Seq<char>>, stack: Seq<Seq<char>>, files: Seq<(Seq<char>, Seq<char>)>) -> bool {
    forall|k: int| 0 <= k < paths.len() ==> !stacked(stack, #[trigger] paths[k]) && lookup_file(files, paths[k]) is Some
}

proof fn lemma_lookup_prefix(a: Seq<(String, String)>, b: Seq<(String, String)>, p: Seq<char>)
    requires
        a.len() <= b.len(),
        b.subrange(0, a.len() as int) == a,
        lookup_file(files_view(a), p) is Some,
    ensures
        lookup_file(files_view(b), p) is Some,
{
    if a.len() == 0 {
        assert(files_view(a).len() == 0);
    } else {
        assert(files_view(b).subrange(0, a.len() as int) =~= files_view(a));
        lemma_lookup_some(files_view(b), p, a.len() as int);
    }
}

/// Reads, through `source`, every file that `contents` (the text of the file at
/// `current_path`) includes, directly or through other files, and adds each to
/// `included_files` after the files it includes. A file already there is not read
/// again. `stack` holds the files being read; an include of one of them is a cycle.
pub fn collect_feature_includes<R: Fn(&str) -> Result<Option<String>, String>>(
    source: &R,
    current_path: &str,
    contents: &str,
    stack: &mut Vec<String>,
    included_files: &mut Vec<(String, String)>,
) -> (res: Result<(), FontLoadError>)
    requires
        forall|p: &str| #[trigger] call_requires(*source, (p,)),
        reads_consistently(*source),
    ensures
        res is Ok ==> final(stack)@ == old(stack)@,
        res matches Err(e) ==> (e is Source || e is FeatureIncludeCycle || e is MissingIncludedFeatureFile),
        final(included_files)@.len() >= old(included_files)@.len(),
        final(included_files)@.subrange(0, old(included_files)@.len() as int) == old(included_files)@,
        old(stack)@.len() < usize::MAX && includes_known(
            include_paths(current_path@, contents@),
            texts(old(stack)@),
            files_view(old(included_files)@),
        ) ==> res is Ok && final(included_files)@ == old(included_files)@,
        res is Ok ==> includes_known(
            include_paths(current_path@, contents@),
            texts(old(stack)@),
            files_view(final(included_files)@),
        ),
    decreases usize::MAX - old(stack)@.len(),
{
    let ghost all = include_paths(current_path@, contents@);
    let ghost known = old(stack)@.len() < usize::MAX && includes_known(all, texts(old(stack)@), files_view(old(included_files)@));
    let ghost mut done: Seq<Seq<char>> = Seq::empty();
    let chars = chars_of(contents);
    let n = chars.len();
    let parent = parent_path(current_path);
    let mut pos: usize = 0;
    proof {
        assert(chars@.subrange(0, n as int) =~= contents@);
    }
    while pos < n
        invariant
            forall|p: &str| #[trigger] call_requires(*source, (p,)),
            reads_consistently(*source),
            0 <= pos <= n == chars@.len(),
            chars@ == contents@,
            parent@ == spec_parent(current_path@),
            stack@ == old(stack)@,
            included_files@.len() >= old(included_files)@.len(),
            included_files@.subrange(0, old(included_files)@.len() as int) == old(included_files)@,
            all == include_paths(current_path@, contents@),
            known == (old(stack)@.len() < usize::MAX && includes_known(all, texts(old(stack)@), files_view(old(included_files)@))),
            all == done + include_paths(current_path@, chars@.subrange(pos as int, n as int)),
            includes_known(done, texts(old(stack)@), files_view(included_files@)),
            known ==> included_files@ == old(included_files)@,
        decreases n - pos,
    {
        let ghost rem = chars@.subrange(pos as int, n as int);
        let end = crate::features::find_line_end(&chars, pos, n);
        proof {
            crate::features::lemma_line_len(rem);
            assert(rem.subrange(0, line_len(rem)) =~= chars@.subrange(pos as int, end as int));
            assert(rem.subrange(line_len(rem), rem.len() as int) =~= chars@.subrange(end as int, n as int));
        }
        let line = string_of(&chars, pos, end);
        match parse_include_target(line.as_str()) {
            None => {},
            Some(target) => {
                let include_path = join_virtual_path(parent.as_str(), target.as_str());
                let ghost ipv = include_path@;
                proof {
                    assert(all[done.len() as int] == include_path@);
                    assert(all == done.push(include_path@) + include_paths(current_path@, chars@.subrange(end as int, n as int)));
                }
                let found = position_in(stack, include_path.as_str());
                if found.is_some() || stack.len() == usize::MAX {
                    proof {
                        if known {
                            assert(!stacked(texts(old(stack)@), all[done.len() as int]));
                            match found {
                                Some(i) => {
                                    assert(texts(stack@)[i as int] == stack@[i as int]@);
                                },
                                None => {},
                            }
                        }
                    }
                    return Err(FontLoadError::FeatureIncludeCycle { path: include_path });
                }
                if !has_file(included_files, include_path.as_str()) {
                    proof {
                        if known {
                            assert(lookup_file(files_view(old(included_files)@), all[done.len() as int]) is Some);
                        }
                    }
                    let include_contents = match read_optional_text(source, include_path.as_str()) {
                        Ok(Some(text)) => text,
                        Ok(None) => {
                            return Err(FontLoadError::MissingIncludedFeatureFile { path: include_path });
                        },
                        Err(e) => {
                            return Err(e);
                        },
                    };
                    stack.push(to_string(include_path.as_str()));
                    let ghost before = included_files@;
                    match collect_feature_includes(
                        source,
                        include_path.as_str(),
                        include_contents.as_str(),
                        stack,
                        included_files,
                    ) {
                        Ok(()) => {},
                        Err(e) => {
                            proof {
                                assert(included_files@.subrange(0, old(included_files)@.len() as int) =~= before.subrange(
                                    0,
                                    old(included_files)@.len() as int,
                                ));
                            }
                            return Err(e);
                        },
                    }
                    stack.pop();
                    proof {
                        assert(stack@ =~= old(stack)@);
                    }
                    let ghost mid = included_files@;
                    let ghost ip = include_path@;
                    included_files.push((include_path, include_contents));
                    proof {
                        assert(included_files@.subrange(0, old(included_files)@.len() as int) =~= mid.subrange(
                            0,
                            old(included_files)@.len() as int,
                        ));
                        assert(mid.subrange(0, old(included_files)@.len() as int) =~= before.subrange(
                            0,
                            old(included_files)@.len() as int,
                        ));
                        assert(included_files@.subrange(0, mid.len() as int) =~= mid);
                        assert(mid.subrange(0, before.len() as int) =~= before);
                        assert forall|k: int| 0 <= k < done.len() implies lookup_file(
                            files_view(included_files@),
                            #[trigger] done[k],
                        ) is Some by {
                            assert(lookup_file(files_view(before), done[k]) is Some);
                            lemma_lookup_prefix(before, mid, done[k]);
                            lemma_lookup_prefix(mid, included_files@, done[k]);
                        }
                        let fv = files_view(included_files@);
                        assert(fv.subrange(0, fv.len() - 1).len() == mid.len());
                        assert(fv.last().0 == ip);
                        assert(crate::path::spec_same_path(ip, ip));
                        assert(lookup_file(fv, ip) is Some);
                    }
                }
                proof {
                    done = done.push(ipv);
                }
            },
        }
        proof {
            assert(includes_known(done, texts(old(stack)@), files_view(included_files@)));
        }
        pos = end;
    }
    proof {
        assert(chars@.subrange(n as int, n as int) =~= Seq::<char>::empty());
        assert(done =~= all);
    }
    Ok(())
}

/// Reads the feature file at `path` and, through `source`, every file it includes.
/// Returns `None` where there is no feature file; otherwise its text and the included
/// files by normalized path.
pub fn load_feature_files<R: Fn(&str) -> Result<Option<String>, String>>(source: &R, path: &str) -> (res: Result<Option<(String, Vec<(String, String)>)>, FontLoadError>)
    requires
        forall|p: &str| #[trigger] call_requires(*source, (p,)),
        reads_consistently(*source),
    ensures
        res matches Err(e) ==> (e is Source || e is FeatureIncludeCycle || e is MissingIncludedFeatureFile),
        res matches Ok(Some((text, _))) ==> package_text(*source, path@) == Some(text@),
        res matches Ok(None) ==> package_text(*source, path@) is None,
        res matches Ok(Some((text, files))) ==> includes_known(
            include_paths(spec_normalize(path@), text@),
            seq![spec_normalize(path@)],
            files_view(files@),
        ),
{
    let contents = match read_optional_text(source, path) {
        Ok(Some(text)) => text,
        Ok(None) => {
            return Ok(None);
        },
        Err(e) => {
            return Err(e);
        },
    };
    let normalized = normalize_relative_path(path);
    let mut stack: Vec<String> = Vec::new();
    stack.push(to_string(normalized.as_str()));
    assert(texts(stack@) =~= seq![spec_normalize(path@)]);
    let mut included: Vec<(String, String)> = Vec::new();
    match collect_feature_includes(source, normalized.as_str(), contents.as_str(), &mut stack, &mut included) {
        Ok(()) => Ok(Some((contents, included))),
        Err(e) => Err(e),
    }
}

/// The pairs of strings that `plist::from_reader_xml` reads from the bytes, as a list
/// of two-string lists, or `None` where it fails.
pub uninterp spec fn plist_string_pairs(bytes: Seq<u8>) -> Option<Seq<(Seq<char>, Seq<char>)>>;

/// The entries that `plist::from_reader_xml` reads from the bytes into an ordered map
/// of strings to strings, in the order of their keys, or `None` where it fails.
pub uninterp spec fn plist_string_map(bytes: Seq<u8>) -> Option<Seq<(Seq<char>, Seq<char>)>>;

/// The UTF-8 encoding of the text, as `String::into_bytes` gives it.
pub uninterp spec fn utf8_encoding(s: Seq<char>) -> Seq<u8>;

/// `String::into_bytes`: the UTF-8 encoding of the text.
#[verifier::external_body]
fn into_bytes(s: String) -> (res: Vec<u8>)
    ensures
        res@ == utf8_encoding(s@),
{
    s.into_bytes()
}

/// `plist::from_reader_xml` into a list of pairs of strings.
#[verifier::external_body]
fn read_string_pairs(bytes: &[u8]) -> (res: Result<Vec<(String, String)>, plist::Error>)
    ensures
        match res {
            Ok(v) => plist_string_pairs(bytes@) == Some(pair_texts(v@)),
            Err(_) => plist_string_pairs(bytes@) is None,
        },
{
    plist::from_reader_xml(bytes)
}

/// `plist::from_reader_xml` into an ordered map of strings to strings, as its entries;
/// the keys of a map are distinct.
#[verifier::external_body]
fn read_string_map(bytes: &[u8]) -> (res: Result<Vec<(String, String)>, plist::Error>)
    ensures
        match res {
            Ok(v) => plist_string_map(bytes@) == Some(pair_texts(v@)) && forall|a: int, b: int|
                0 <= a < b < v@.len() ==> (#[trigger] v@[a]).0@ != (#[trigger] v@[b]).0@,
            Err(_) => plist_string_map(bytes@) is None,
        },
{
    plist::from_reader_xml::<_, std::collections::BTreeMap<String, String>>(bytes).map(|m| m.into_iter().collect())
}

/// The error of a layer, for the layer `name` and the file at `path`.
fn layer_error(name: &str, path: &str, source: LayerLoadError) -> (res: FontLoadError)
    ensures
        res matches FontLoadError::Layer { name: n, path: p, source: s } && n@ == name@ && p@ == path@ && s == source,
{
    FontLoadError::Layer { name: to_string(name), path: to_string(path), source }
}

/// True when `g` is a glyph that reading the glif file `xml` gives, but for its name.
pub open spec fn glif_gives(
    xml: Seq<u8>,
    g: Glyph,
    n64: spec_fn(Seq<char>) -> Option<u64>,
    n32: spec_fn(Seq<char>) -> Option<u32>,
) -> bool {
    exists|nm: Name| glif_reported(xml, Ok(Glyph { name: nm, ..g }), n64, n32)
}

/// True when the entries hold, under `key`, a glyph of that name read from the file
/// `file` of the layer's directory `dir`.
pub open spec fn entry_loaded<R: Fn(&str) -> Result<Option<String>, String>>(
    source: R,
    dir: Seq<char>,
    es: Seq<(Seq<char>, Glyph, Seq<char>)>,
    key: Seq<char>,
    file: Seq<char>,
    n64: spec_fn(Seq<char>) -> Option<u64>,
    n32: spec_fn(Seq<char>) -> Option<u32>,
) -> bool {
    match glyph_of(es, key) {
        Some(g) => g.name@ == key && match package_text(source, spec_join(dir, file)) {
            Some(x) => glif_gives(utf8_encoding(x), g, n64, n32),
            None => false,
        },
        None => false,
    }
}

/// True when the entries of a layer stored in `dir` hold exactly the glyphs that its
/// `contents.plist` lists, each read from its glif file and named as the list names it.
pub open spec fn glyphs_loaded_from<R: Fn(&str) -> Result<Option<String>, String>>(
    source: R,
    dir: Seq<char>,
    es: Seq<(Seq<char>, Glyph, Seq<char>)>,
    n64: spec_fn(Seq<char>) -> Option<u64>,
    n32: spec_fn(Seq<char>) -> Option<u32>,
) -> bool {
    match package_text(source, spec_join(dir, "contents.plist"@)) {
        Some(t) => match plist_string_map(utf8_encoding(t)) {
            Some(cs) => {
                &&& forall|k: int| 0 <= k < cs.len() ==> entry_loaded(source, dir, es, #[trigger] cs[k].0, cs[k].1, n64, n32)
                &&& forall|n: Seq<char>| #[trigger] glyph_of(es, n) is Some ==> exists|k: int| 0 <= k < cs.len() && cs[k].0 == n
            },
            None => false,
        },
        None => false,
    }
}

/// Loads the glyphs that the layer's `contents.plist` lists from `source`, into the
/// empty layer; each glyph takes the name that the list gives it.
fn load_layer_glyphs<R: Fn(&str) -> Result<Option<String>, String>, F: Fn(&str) -> Option<u64>, G: Fn(&str) -> Option<u32>>(
    source: &R,
    layer: &mut Layer,
    layer_name: &str,
    layer_dir: &str,
    read_f64: &F,
    read_f32: &G,
) -> (res: Result<(), FontLoadError>)
    requires
        forall|p: &str| #[trigger] call_requires(*source, (p,)),
        reads_consistently(*source),
        old(layer).wf(),
        old(layer).spec_entries().len() == 0,
        forall|t: &str| #[trigger] call_requires(*read_f64, (t,)),
        forall|t: &str| #[trigger] call_requires(*read_f32, (t,)),
        is_function_of_text(*read_f64),
        is_function_of_text32(*read_f32),
    ensures
        final(layer).wf(),
        final(layer).spec_name() == old(layer).spec_name(),
        final(layer).spec_path() == old(layer).spec_path(),
        res is Ok ==> glyphs_loaded_from(
            *source,
            layer_dir@,
            final(layer).spec_entries(),
            meaning64(*read_f64),
            meaning32(*read_f32),
        ),
        res matches Err(e) ==> !(e is ParsePlist),
{
    proof {
        reveal_strlit("contents.plist");
    }
    let ghost n64 = meaning64(*read_f64);
    let ghost n32 = meaning32(*read_f32);
    let contents_path = join(layer_dir, "contents.plist");
    let contents = match read_optional_text(source, contents_path.as_str()) {
        Ok(Some(text)) => text,
        Ok(None) => {
            return Err(layer_error(layer_name, contents_path.as_str(), LayerLoadError::MissingContentsFile));
        },
        Err(e) => {
            return Err(e);
        },
    };
    let ghost ctext = contents@;
    let contents_bytes = into_bytes(contents);
    let glyph_files = match read_string_map(contents_bytes.as_slice()) {
        Ok(files) => files,
        Err(e) => {
            return Err(layer_error(
                layer_name,
                contents_path.as_str(),
                LayerLoadError::ParsePlist { name: "contents.plist", source: e },
            ));
        },
    };
    let ghost cs = pair_texts(glyph_files@);
    let mut i: usize = 0;
    while i < glyph_files.len()
        invariant
            forall|p: &str| #[trigger] call_requires(*source, (p,)),
            reads_consistently(*source),
            layer.wf(),
            layer.spec_name() == old(layer).spec_name(),
            layer.spec_path() == old(layer).spec_path(),
            i <= glyph_files@.len(),
            cs == pair_texts(glyph_files@),
            cs.len() == glyph_files@.len(),
            forall|a: int, b: int| 0 <= a < b < cs.len() ==> (#[trigger] cs[a]).0 != (#[trigger] cs[b]).0,
            forall|k: int| 0 <= k < i ==> entry_loaded(*source, layer_dir@, layer.spec_entries(), #[trigger] cs[k].0, cs[k].1, n64, n32),
            forall|n: Seq<char>| #[trigger] glyph_of(layer.spec_entries(), n) is Some ==> exists|k: int| 0 <= k < i && cs[k].0 == n,
            n64 == meaning64(*read_f64),
            n32 == meaning32(*read_f32),
            forall|t: &str| #[trigger] call_requires(*read_f64, (t,)),
            forall|t: &str| #[trigger] call_requires(*read_f32, (t,)),
            is_function_of_text(*read_f64),
            is_function_of_text32(*read_f32),
        decreases glyph_files@.len() - i,
    {
        let glyph_name = &glyph_files[i].0;
        let relative = &glyph_files[i].1;
        let name = match Name::new(glyph_name.as_str()) {
            Ok(n) => n,
            Err(_) => {
                return Err(layer_error(layer_name, contents_path.as_str(), LayerLoadError::InvalidName(glyph_name.clone())));
            },
        };
        let glif_path = join(layer_dir, relative.as_str());
        let text = match read_optional_text(source, glif_path.as_str()) {
            Ok(Some(text)) => text,
            Ok(None) => {
                let missing = GlifLoadError::Io(not_found_error());
                return Err(layer_error(
                    layer_name,
                    glif_path.as_str(),
                    LayerLoadError::Glyph { name: relative.clone(), path: glif_path.clone(), source: missing },
                ));
            },
            Err(e) => {
                return Err(e);
            },
        };
        let ghost text_view = text@;
        let bytes = into_bytes(text);
        let glyph = match Glyph::parse_raw(bytes.as_slice(), read_f64, read_f32) {
            Ok(g) => g,
            Err(e) => {
                return Err(layer_error(
                    layer_name,
                    glif_path.as_str(),
                    LayerLoadError::Glyph { name: relative.clone(), path: glif_path.clone(), source: e },
                ));
            },
        };
        let ghost g0 = glyph;
        let mut glyph = glyph;
        glyph.name = name;
        proof {
            assert(Glyph { name: g0.name, ..glyph } == g0);
            assert(glif_gives(utf8_encoding(text_view), glyph, n64, n32));
            assert(cs[i as int] == (glyph_name@, relative@));
        }
        let ghost before = layer.spec_entries();
        layer.insert_glyph(glyph);
        proof {
            assert forall|k: int| 0 <= k < i + 1 implies entry_loaded(
                *source,
                layer_dir@,
                layer.spec_entries(),
                #[trigger] cs[k].0,
                cs[k].1,
                n64,
                n32,
            ) by {
                if k < i {
                    assert(cs[k].0 != cs[i as int].0);
                    assert(glyph_of(layer.spec_entries(), cs[k].0) == glyph_of(before, cs[k].0));
                }
            }
            assert forall|n: Seq<char>| #[trigger] glyph_of(layer.spec_entries(), n) is Some implies exists|k: int|
                0 <= k < i + 1 && cs[k].0 == n by {
                if n != glyph_name@ {
                    assert(glyph_of(layer.spec_entries(), n) == glyph_of(before, n));
                } else {
                    assert(cs[i as int].0 == n);
                }
            }
        }
        i += 1;
    }
    proof {
        assert(package_text(*source, spec_join(layer_dir@, "contents.plist"@)) == Some(ctext));
        assert(plist_string_map(utf8_encoding(ctext)) == Some(cs));
        assert(match package_text(*source, spec_join(layer_dir@, "contents.plist"@)) {
            Some(t) => match plist_string_map(utf8_encoding(t)) {
                Some(cs2) => cs2 == cs,
                None => false,
            },
            None => false,
        });
        assert(glyphs_loaded_from(*source, layer_dir@, layer.spec_entries(), n64, n32));
    }
    Ok(())
}

/// True when `f` gives one answer for each pair of texts.
pub open spec fn answers_by_two_texts<F: Fn(&str, &str) -> bool>(f: F) -> bool {
    forall|a1: &str, b1: &str, a2: &str, b2: &str, r1: bool, r2: bool|
        #![trigger call_ensures(f, (a1, b1), r1), call_ensures(f, (a2, b2), r2)]
        a1@ == a2@ && b1@ == b2@ && call_ensures(f, (a1, b1), r1) && call_ensures(f, (a2, b2), r2) ==> r1 == r2
}

/// True when `f` gives `r` for some pair of texts that read `a` and `b`.
pub open spec fn gives_for_texts<F: Fn(&str, &str) -> bool>(f: F, a: Seq<char>, b: Seq<char>, r: bool) -> bool {
    exists|x: &str, y: &str| #[trigger] call_ensures(f, (x, y), r) && x@ == a && y@ == b
}

/// What `f` gives for the texts `a` and `b`, where it gives one answer for each pair.
pub open spec fn verdict<F: Fn(&str, &str) -> bool>(f: F, a: Seq<char>, b: Seq<char>) -> bool {
    choose|r: bool| #[trigger] gives_for_texts(f, a, b, r)
}

/// What a function that gives one answer for each pair of texts gave is its answer.
pub proof fn lemma_verdict<F: Fn(&str, &str) -> bool>(f: F, x: &str, y: &str, r: bool)
    requires
        answers_by_two_texts(f),
        call_ensures(f, (x, y), r),
    ensures
        r == verdict(f, x@, y@),
{
    assert(gives_for_texts(f, x@, y@, r));
    let r2 = verdict(f, x@, y@);
    let (x2, y2) = choose|x2: &str, y2: &str| #[trigger] call_ensures(f, (x2, y2), r2) && x2@ == x@ && y2@ == y@;
}

/// True when the filter takes the layer `name` in `dir`, where the caller's verdict on
/// it is `v`.
pub open spec fn filter_admits(filter: LayerFilter, name: Seq<char>, dir: Seq<char>, v: bool) -> bool {
    filter.all || (filter.load_default && spec_same_path(dir, DEFAULT_GLYPHS_DIRNAME@)) || (filter.custom && v)
}

/// The layers, by name and directory, of `ds` that the filter takes, in order;
/// `custom` gives the caller's verdict on each.
pub open spec fn admitted<F: Fn(&str, &str) -> bool>(
    ds: Seq<(Seq<char>, Seq<char>)>,
    filter: LayerFilter,
    custom: F,
) -> Seq<(Seq<char>, Seq<char>)>
    decreases ds.len(),
{
    if ds.len() == 0 {
        Seq::empty()
    } else {
        let a = admitted(ds.drop_last(), filter, custom);
        let d = ds.last();
        if filter_admits(filter, d.0, d.1, verdict(custom, d.0, d.1)) {
            a.push(d)
        } else {
            a
        }
    }
}

/// The layers that loading makes, by name and directory, before the default one is
/// moved first: those the filter takes, then, where the filter does not take the
/// default layer, an empty default layer.
pub open spec fn layer_plan<F: Fn(&str, &str) -> bool>(
    ds: Seq<(Seq<char>, Seq<char>)>,
    filter: LayerFilter,
    custom: F,
) -> Seq<(Seq<char>, Seq<char>)> {
    let a = admitted(ds, filter, custom);
    if filter.all || filter.load_default {
        a
    } else {
        a.push((DEFAULT_LAYER_NAME@, DEFAULT_GLYPHS_DIRNAME@))
    }
}

/// The position of the first layer of the plan in the `glyphs` directory, from `from`
/// on.
pub open spec fn first_default(plan: Seq<(Seq<char>, Seq<char>)>, from: int) -> Option<int>
    decreases plan.len() - from,
{
    if from < 0 || from >= plan.len() {
        None
    } else if spec_same_path(plan[from].1, DEFAULT_GLYPHS_DIRNAME@) {
        Some(from)
    } else {
        first_default(plan, from + 1)
    }
}

/// The items of `s` from position `i` on, then those before it.
pub open spec fn rotated<A>(s: Seq<A>, i: int) -> Seq<A> {
    s.subrange(i, s.len() as int) + s.subrange(0, i)
}

/// The layers that `layercontents.plist` lists, by name and directory, where its text
/// reads as a list of pairs of strings; where there is no such file, the default
/// layer in the `glyphs` directory.
pub open spec fn layer_descriptors(text: Option<Seq<char>>) -> Option<Seq<(Seq<char>, Seq<char>)>> {
    match text {
        Some(t) => plist_string_pairs(utf8_encoding(t)),
        None => Some(seq![(DEFAULT_LAYER_NAME@, DEFAULT_GLYPHS_DIRNAME@)]),
    }
}

/// True when the layers have, in order, the names and directories of `plan` (the first
/// one, the default layer, being in the `glyphs` directory).
pub open spec fn layers_as_planned(ls: Seq<Layer>, plan: Seq<(Seq<char>, Seq<char>)>) -> bool {
    &&& ls.len() == plan.len()
    &&& forall|k: int| 0 <= k < ls.len() ==> (#[trigger] ls[k]).spec_name() == plan[k].0
    &&& forall|k: int| 1 <= k < ls.len() ==> (#[trigger] ls[k]).spec_path() == plan[k].1
    &&& ls.len() > 0 ==> ls[0].spec_path() == DEFAULT_GLYPHS_DIRNAME@
}

/// The position, among the layers before the default one was moved first, of the
/// layer at position `k` after the move, for `len` layers with the default one at `i`.
pub open spec fn layer_origin(len: int, i: int, k: int) -> int {
    if k < len - i {
        i + k
    } else {
        k - (len - i)
    }
}

/// True when the layer holds the glyphs that its files give, where it is the layer
/// at position `o` of the admitted layers `a`; else (the empty default layer that
/// loading adds) when it holds none.
pub open spec fn layer_glyphs_ok<R: Fn(&str) -> Result<Option<String>, String>>(
    source: R,
    l: Layer,
    a: Seq<(Seq<char>, Seq<char>)>,
    o: int,
    n64: spec_fn(Seq<char>) -> Option<u64>,
    n32: spec_fn(Seq<char>) -> Option<u32>,
) -> bool {
    if o < a.len() {
        glyphs_loaded_from(source, a[o].1, l.spec_entries(), n64, n32)
    } else {
        l.spec_entries().len() == 0
    }
}

/// True when `ls` are the layers that loading gives from `source` with the filter and
/// the caller's verdicts: from the layers that `layercontents.plist` lists (where
/// there is none, the default layer alone), those that the filter takes, in the order
/// listed, with an empty default layer after them where the filter does not take the
/// default layer; the first of them in the `glyphs` directory moved first with those
/// after it; each holding the glyphs that its files give.
pub open spec fn layers_loaded_from<R: Fn(&str) -> Result<Option<String>, String>, F: Fn(&str, &str) -> bool>(
    ls: Seq<Layer>,
    source: R,
    v3: bool,
    filter: LayerFilter,
    custom: F,
    n64: spec_fn(Seq<char>) -> Option<u64>,
    n32: spec_fn(Seq<char>) -> Option<u32>,
) -> bool {
    let text = package_text(source, LAYER_CONTENTS_FILE@);
    &&& v3 ==> text is Some
    &&& match layer_descriptors(text) {
        Some(ds) => match first_default(layer_plan(ds, filter, custom), 0) {
            Some(i) => {
                &&& layers_as_planned(ls, rotated(layer_plan(ds, filter, custom), i))
                &&& forall|k: int|
                    0 <= k < ls.len() ==> layer_glyphs_ok(
                        source,
                        #[trigger] ls[k],
                        admitted(ds, filter, custom),
                        layer_origin(ls.len() as int, i, k),
                        n64,
                        n32,
                    )
            },
            None => false,
        },
        None => false,
    }
}

/// A filter that takes no layer admits none.
proof fn lemma_admitted_none<F: Fn(&str, &str) -> bool>(ds: Seq<(Seq<char>, Seq<char>)>, filter: LayerFilter, custom: F)
    requires
        !filter.all,
        !filter.load_default,
        !filter.custom,
    ensures
        admitted(ds, filter, custom).len() == 0,
    decreases ds.len(),
{
    if ds.len() > 0 {
        lemma_admitted_none(ds.drop_last(), filter, custom);
    }
}

/// Loading with a filter that takes no layer gives the default layer alone, empty,
/// named `public.default`, in the `glyphs` directory.
pub proof fn law_no_layers_requested<R: Fn(&str) -> Result<Option<String>, String>, F: Fn(&str, &str) -> bool>(
    ls: Seq<Layer>,
    source: R,
    v3: bool,
    filter: LayerFilter,
    custom: F,
    n64: spec_fn(Seq<char>) -> Option<u64>,
    n32: spec_fn(Seq<char>) -> Option<u32>,
)
    requires
        !filter.all,
        !filter.load_default,
        !filter.custom,
        layers_loaded_from(ls, source, v3, filter, custom, n64, n32),
    ensures
        ls.len() == 1,
        ls[0].spec_name() == DEFAULT_LAYER_NAME@,
        ls[0].spec_path() == DEFAULT_GLYPHS_DIRNAME@,
        ls[0].spec_entries().len() == 0,
{
    let ds = layer_descriptors(package_text(source, LAYER_CONTENTS_FILE@))->0;
    lemma_admitted_none(ds, filter, custom);
    let plan = layer_plan(ds, filter, custom);
    assert(plan =~= seq![(DEFAULT_LAYER_NAME@, DEFAULT_GLYPHS_DIRNAME@)]);
    lemma_first_default(plan, 0);
    let i = first_default(plan, 0)->0;
    assert(i == 0);
    assert(rotated(plan, 0) =~= plan);
    assert(layer_glyphs_ok(source, ls[0], admitted(ds, filter, custom), layer_origin(1, 0, 0), n64, n32));
}

proof fn lemma_first_default(plan: Seq<(Seq<char>, Seq<char>)>, from: int)
    requires
        0 <= from,
    ensures
        first_default(plan, from) matches Some(i) ==> from <= i < plan.len() && spec_same_path(
            plan[i].1,
            DEFAULT_GLYPHS_DIRNAME@,
        ),
    decreases plan.len() - from,
{
    if from < plan.len() && !spec_same_path(plan[from].1, DEFAULT_GLYPHS_DIRNAME@) {
        lemma_first_default(plan, from + 1);
    }
}

/// Loads the layers of a font from `source`: the layers that `layercontents.plist`
/// lists and the filter takes (where the filter is custom, `custom` decides on a
/// layer's name and directory), each with the glyphs that its `contents.plist` lists;
/// where the filter does not take the default layer, an empty default layer joins
/// them. The first layer in the `glyphs` directory becomes the default layer, moved
/// first with the layers after it. A font of a format before version 3 may lack
/// `layercontents.plist`; it then has the default layer alone.
pub fn load_layer_set<
    R: Fn(&str) -> Result<Option<String>, String>,
    C: Fn(&str, &str) -> bool,
    F: Fn(&str) -> Option<u64>,
    G: Fn(&str) -> Option<u32>,
>(
    source: &R,
    meta: &MetaInfo,
    filter: &LayerFilter,
    custom: &C,
    read_f64: &F,
    read_f32: &G,
) -> (res: Result<LayerSet, FontLoadError>)
    requires
        forall|p: &str| #[trigger] call_requires(*source, (p,)),
        reads_consistently(*source),
        forall|n: &str, d: &str| #[trigger] call_requires(*custom, (n, d)),
        answers_by_two_texts(*custom),
        forall|t: &str| #[trigger] call_requires(*read_f64, (t,)),
        forall|t: &str| #[trigger] call_requires(*read_f32, (t,)),
        is_function_of_text(*read_f64),
        is_function_of_text32(*read_f32),
    ensures
        res matches Ok(ls) ==> ls.wf() && layers_loaded_from(
            ls.spec_layers(),
            *source,
            meta.format_version == FormatVersion::V3,
            *filter,
            *custom,
            meaning64(*read_f64),
            meaning32(*read_f32),
        ),
        res matches Err(FontLoadError::ParsePlist { name, .. }) ==> name@ == LAYER_CONTENTS_FILE@,
{
    proof {
        reveal_strlit("public.default");
        reveal_strlit("glyphs");
    }
    let descriptors: Vec<(String, String)> = match read_optional_text(source, LAYER_CONTENTS_FILE) {
        Ok(Some(text)) => match read_string_pairs(into_bytes(text).as_slice()) {
            Ok(d) => d,
            Err(e) => {
                return Err(FontLoadError::ParsePlist { name: LAYER_CONTENTS_FILE, source: e });
            },
        },
        Ok(None) => {
            if meta.format_version == FormatVersion::V3 {
                return Err(FontLoadError::MissingLayerContentsFile);
            }
            let mut only: Vec<(String, String)> = Vec::new();
            only.push((to_string(DEFAULT_LAYER_NAME), to_string(DEFAULT_GLYPHS_DIRNAME)));
            proof {
                assert(pair_texts(only@) =~= seq![(DEFAULT_LAYER_NAME@, DEFAULT_GLYPHS_DIRNAME@)]);
            }
            only
        },
        Err(e) => {
            return Err(e);
        },
    };
    let ghost ds = pair_texts(descriptors@);
    assert(layer_descriptors(package_text(*source, LAYER_CONTENTS_FILE@)) == Some(ds));
    let mut loaded: Vec<Layer> = Vec::new();
    let mut i: usize = 0;
    while i < descriptors.len()
        invariant
            forall|p: &str| #[trigger] call_requires(*source, (p,)),
            reads_consistently(*source),
            i <= descriptors@.len(),
            ds == pair_texts(descriptors@),
            ds.len() == descriptors@.len(),
            loaded@.len() == admitted(ds.take(i as int), *filter, *custom).len(),
            forall|k: int| 0 <= k < loaded@.len() ==> (#[trigger] loaded@[k]).wf(),
            forall|k: int|
                0 <= k < loaded@.len() ==> (#[trigger] loaded@[k]).spec_name() == admitted(
                    ds.take(i as int),
                    *filter,
                    *custom,
                )[k].0 && loaded@[k].spec_path() == admitted(ds.take(i as int), *filter, *custom)[k].1,
            forall|k: int|
                0 <= k < loaded@.len() ==> glyphs_loaded_from(
                    *source,
                    admitted(ds.take(i as int), *filter, *custom)[k].1,
                    (#[trigger] loaded@[k]).spec_entries(),
                    meaning64(*read_f64),
                    meaning32(*read_f32),
                ),
            forall|n: &str, d: &str| #[trigger] call_requires(*custom, (n, d)),
            answers_by_two_texts(*custom),
            forall|t: &str| #[trigger] call_requires(*read_f64, (t,)),
            forall|t: &str| #[trigger] call_requires(*read_f32, (t,)),
            is_function_of_text(*read_f64),
            is_function_of_text32(*read_f32),
        decreases descriptors@.len() - i,
    {
        let layer_name = descriptors[i].0.as_str();
        let layer_dir = descriptors[i].1.as_str();
        let v = custom(layer_name, layer_dir);
        proof {
            lemma_verdict(*custom, layer_name, layer_dir, v);
            assert(ds.take(i + 1).drop_last() =~= ds.take(i as int));
            assert(ds.take(i + 1).last() == ds[i as int]);
            assert(ds[i as int] == (layer_name@, layer_dir@));
        }
        if filter.should_load(layer_name, layer_dir, v) {
            let name = match Name::new(layer_name) {
                Ok(n) => n,
                Err(_) => {
                    return Err(layer_error(layer_name, layer_dir, LayerLoadError::InvalidName(to_string(layer_name))));
                },
            };
            let mut layer = Layer::new(name, to_string(layer_dir));
            match load_layer_glyphs(source, &mut layer, layer_name, layer_dir, read_f64, read_f32) {
                Ok(()) => {},
                Err(e) => {
                    return Err(e);
                },
            }
            loaded.push(layer);
        }
        i += 1;
    }
    assert(ds.take(ds.len() as int) =~= ds);
    let ghost plan = layer_plan(ds, *filter, *custom);
    if !filter.includes_default_layer() {
        loaded.push(Layer::default());
    }
    assert(loaded@.len() == plan.len());
    assert(forall|k: int| 0 <= k < loaded@.len() ==> (#[trigger] loaded@[k]).spec_path() == plan[k].1);
    let mut idx: usize = 0;
    while idx < loaded.len()
        invariant
            idx <= loaded@.len(),
            loaded@.len() == plan.len(),
            forall|k: int| 0 <= k < loaded@.len() ==> (#[trigger] loaded@[k]).spec_path() == plan[k].1,
            first_default(plan, 0) == first_default(plan, idx as int),
        ensures
            idx <= loaded@.len(),
            first_default(plan, 0) == first_default(plan, idx as int),
            idx < loaded@.len() ==> spec_same_path(plan[idx as int].1, DEFAULT_GLYPHS_DIRNAME@),
        decreases loaded@.len() - idx,
    {
        if same_path(loaded[idx].path(), DEFAULT_GLYPHS_DIRNAME) {
            break;
        }
        idx += 1;
    }
    if idx == loaded.len() {
        return Err(FontLoadError::MissingDefaultLayer);
    }
    assert(first_default(plan, 0) == Some(idx as int));
    let mut front = loaded.split_off(idx);
    front.append(&mut loaded);
    let ghost rot = rotated(plan, idx as int);
    assert(forall|k: int| 0 <= k < front@.len() ==> (#[trigger] front@[k]).spec_name() == rot[k].0 && front@[k].spec_path()
        == rot[k].1);
    let layers = LayerSet::new(front);
    proof {
        layers.lemma_wf_iff();
    }
    Ok(layers)
}

/// The bytes of the files of a font that the application serializes: the metainfo
/// that [`MetaInfo::for_saving`] gives, the font info, the groups and the kerning, each
/// as its property list.
pub struct SerializedParts {
    /// The contents of `metainfo.plist`.
    pub metainfo: Vec<u8>,
    /// The contents of `fontinfo.plist`.
    pub font_info: Vec<u8>,
    /// The contents of `groups.plist`.
    pub groups: Vec<u8>,
    /// The contents of `kerning.plist`.
    pub kerning: Vec<u8>,
}

/// The files that saving a font writes, each by the bytes to write.
pub struct FontFiles {
    /// `metainfo.plist`.
    pub metainfo: Vec<u8>,
    /// `fontinfo.plist`, where the font info is not empty.
    pub font_info: Option<Vec<u8>>,
    /// `lib.plist`, where the lib, with the libs of the font's guidelines, is not empty.
    pub lib: Option<Vec<u8>>,
    /// `groups.plist`, where there are groups.
    pub groups: Option<Vec<u8>>,
    /// `kerning.plist`, where there is kerning.
    pub kerning: Option<Vec<u8>>,
    /// `features.fea` and the feature files it includes, by path.
    pub features: Vec<(String, Vec<u8>)>,
    /// `layercontents.plist`.
    pub layer_contents: Vec<u8>,
    /// The files of the layers, layer by layer, by path.
    pub layers: Vec<(String, Vec<u8>)>,
    /// The files of the data store, then of the images store, by path.
    pub stores: Vec<(String, Vec<u8>)>,
}

/// Files by the characters of their paths and their bytes.
pub open spec fn file_texts(files: Seq<(String, Vec<u8>)>) -> Seq<(Seq<char>, Seq<u8>)> {
    files.map_values(|f: (String, Vec<u8>)| (f.0@, f.1@))
}

/// The feature files that saving writes: `features.fea` and each feature file it
/// includes, their `\r\n` line breaks made `\n`; none where there are no features.
pub open spec fn feature_files_for_saving(features: Seq<char>, files: Seq<(String, String)>) -> Seq<(Seq<char>, Seq<u8>)> {
    if features.len() == 0 && files.len() == 0 {
        Seq::empty()
    } else {
        seq![(FEATURES_FILE@, utf8_encoding(spec_crlf_to_lf(features)))] + files.map_values(
            |f: (String, String)| (f.0@, utf8_encoding(spec_crlf_to_lf(f.1@))),
        )
    }
}

/// The files of a store whose entries all loaded: each entry's path under the
/// directory, with its bytes.
pub open spec fn store_files(dir: Seq<char>, entries: Seq<(String, Result<Vec<u8>, StoreError>)>) -> Seq<(Seq<char>, Seq<u8>)> {
    entries.map_values(
        |e: (String, Result<Vec<u8>, StoreError>)|
            (
                spec_join(dir, e.0@),
                match e.1 {
                    Ok(b) => b@,
                    Err(_) => Seq::empty(),
                },
            ),
    )
}

/// The keys of the dictionary that `lib.plist` holds: those of the font's lib, and
/// `public.objectLibs` where a guideline of the font has a lib.
pub open spec fn font_lib_keys(lib: Plist, fi: FontInfo) -> Set<Seq<char>> {
    if font_object_lib_ids(fi) == Set::<Seq<char>>::empty() {
        dict_keys(lib)
    } else {
        dict_keys(lib).insert(PUBLIC_OBJECT_LIBS_KEY@)
    }
}

/// The string values of the dictionary that `lib.plist` holds.
pub open spec fn font_lib_strings(lib: Plist, fi: FontInfo) -> Map<Seq<char>, Seq<char>> {
    if font_object_lib_ids(fi) == Set::<Seq<char>>::empty() {
        dict_strings(lib)
    } else {
        dict_strings(lib).remove(PUBLIC_OBJECT_LIBS_KEY@)
    }
}

/// True when `bytes` are the font's `lib.plist`: the property list of its lib, with
/// the libs of its guidelines filed under `public.objectLibs`, keys sorted at every
/// depth.
pub open spec fn is_font_lib_plist(bytes: Seq<u8>, lib: Plist, fi: FontInfo, opts: WriteOptions) -> bool {
    exists|d: Plist|
        #[trigger] plist_xml(d, opts.spec_indent_char(), opts.spec_indent().len() as usize) == bytes
        && dict_keys(d) == font_lib_keys(lib, fi)
        && dict_strings(d) == font_lib_strings(lib, fi)
}

/// True when `files` are, layer by layer in order, the files that saving each layer
/// writes.
pub open spec fn layers_files_ok<F: Fn(FloatBits) -> String, G: Fn(Float32Bits) -> String>(
    ls: Seq<Layer>,
    files: Seq<(String, Vec<u8>)>,
    opts: WriteOptions,
    show: F,
    show3: G,
) -> bool {
    exists|parts: Seq<Seq<(String, Vec<u8>)>>|
        #[trigger] parts.flatten_alt() == files && parts.len() == ls.len() && forall|i: int|
            0 <= i < ls.len() ==> layer_files_ok(ls[i], #[trigger] parts[i], opts, show, show3)
}

/// The bytes of the font's `lib.plist`, or `None` where there is nothing to write:
/// the lib, with the libs of the font's guidelines filed under `public.objectLibs`,
/// keys sorted at every depth.
pub fn font_lib_plist(lib: &Plist, font_info: &FontInfo, opts: &WriteOptions) -> (res: Result<Option<Vec<u8>>, plist::Error>)
    requires
        font_info.guidelines matches Some(gs) ==> guideline_libs_identified(gs@),
    ensures
        (res matches Ok(None)) <==> font_lib_keys(*lib, *font_info) == Set::<Seq<char>>::empty(),
        res matches Ok(Some(b)) ==> is_font_lib_plist(b@, *lib, *font_info, *opts),
{
    let mut d = lib.clone();
    let object_libs = font_info.dump_object_libs();
    if !dict_is_empty(&object_libs) {
        dict_insert_dictionary(&mut d, to_string(PUBLIC_OBJECT_LIBS_KEY), object_libs);
    }
    assert(dict_keys(d) =~= font_lib_keys(*lib, *font_info));
    assert(dict_strings(d) =~= font_lib_strings(*lib, *font_info));
    if dict_is_empty(&d) {
        return Ok(None);
    }
    sort_keys_recursively(&mut d);
    match dict_to_xml(&d, opts.whitespace_char(), opts.whitespace_count()) {
        Ok(b) => {
            assert(plist_xml(d, opts.spec_indent_char(), opts.spec_indent().len() as usize) == b@);
            Ok(Some(b))
        },
        Err(e) => Err(e),
    }
}

/// `features.fea` and the feature files it includes, by path, their `\r\n` line
/// breaks made `\n`; none where there are no features.
pub fn feature_files_to_write(features: &str, feature_files: &Vec<(String, String)>) -> (res: Vec<(String, Vec<u8>)>)
    ensures
        file_texts(res@) == feature_files_for_saving(features@, feature_files@),
{
    let mut out: Vec<(String, Vec<u8>)> = Vec::new();
    if features.unicode_len() == 0 && feature_files.len() == 0 {
        assert(file_texts(out@) =~= feature_files_for_saving(features@, feature_files@));
        return out;
    }
    out.push((to_string(FEATURES_FILE), into_bytes(normalize_feature_text(features))));
    let ghost tail = feature_files@.map_values(|f: (String, String)| (f.0@, utf8_encoding(spec_crlf_to_lf(f.1@))));
    let mut i: usize = 0;
    while i < feature_files.len()
        invariant
            i <= feature_files@.len(),
            out@.len() == i + 1,
            tail == feature_files@.map_values(|f: (String, String)| (f.0@, utf8_encoding(spec_crlf_to_lf(f.1@)))),
            file_texts(out@) == seq![(FEATURES_FILE@, utf8_encoding(spec_crlf_to_lf(features@)))] + tail.take(i as int),
        decreases feature_files@.len() - i,
    {
        let f = &feature_files[i];
        let ghost before = out@;
        out.push((f.0.clone(), into_bytes(normalize_feature_text(f.1.as_str()))));
        proof {
            assert(file_texts(out@) =~= file_texts(before).push((f.0@, utf8_encoding(spec_crlf_to_lf(f.1@)))));
            assert(tail.take(i + 1) =~= tail.take(i as int).push(tail[i as int]));
            assert(file_texts(out@) =~= seq![(FEATURES_FILE@, utf8_encoding(spec_crlf_to_lf(features@)))] + tail.take(i + 1));
        }
        i += 1;
    }
    assert(tail.take(i as int) =~= tail);
    out
}

/// The files of a store whose entries all loaded, each entry's path under `dir`.
fn store_files_to_write(dir: &str, entries: Vec<(String, Result<Vec<u8>, StoreError>)>) -> (res: Vec<(String, Vec<u8>)>)
    requires
        loaded_before(entries@, entries@.len() as int),
    ensures
        file_texts(res@) == store_files(dir@, entries@),
{
    let ghost all = entries@;
    let mut out: Vec<(String, Vec<u8>)> = Vec::new();
    for e in it: entries.into_iter()
        invariant
            it.seq() == all,
            loaded_before(all, all.len() as int),
            file_texts(out@) == store_files(dir@, all.take(it.index() as int)),
    {
        let ghost k = it.index();
        assert(all[k as int] == e);
        assert(all[k as int].1 is Ok);
        let (path, bytes) = e;
        match bytes {
            Ok(b) => {
                let ghost before = out@;
                let ghost item = (spec_join(dir@, path@), b@);
                assert(all[k as int].0 == path && all[k as int].1 == Ok::<Vec<u8>, StoreError>(b));
                out.push((join(dir, path.as_str()), b));
                assert(file_texts(out@) =~= file_texts(before).push(item));
                assert(all.take(k + 1) =~= all.take(k as int).push(all[k as int]));
                assert(store_files(dir@, all.take(k + 1)) =~= store_files(dir@, all.take(k as int)).push(item));
            },
            Err(_) => {},
        }
    }
    assert(all.take(all.len() as int) =~= all);
    out
}

/// True when every glyph of every layer has an identifier on each guideline that has a
/// lib, as the library's guidelines always do.
pub open spec fn layers_guidelines_identified(ls: Seq<Layer>) -> bool {
    forall|i: int| 0 <= i < ls.len() ==> glyph_guidelines_identified((#[trigger] ls[i]).spec_entries())
}

/// Whether every guideline of `gs` that has a lib has an identifier.
pub fn guidelines_have_ids(gs: &Vec<Guideline>) -> (res: bool)
    ensures
        res == guideline_libs_identified(gs@),
{
    let mut i: usize = 0;
    while i < gs.len()
        invariant
            i <= gs@.len(),
            forall|k: int| 0 <= k < i && (#[trigger] gs@[k]).spec_lib() is Some ==> gs@[k].spec_identifier() is Some,
        decreases gs@.len() - i,
    {
        if gs[i].lib().is_some() && gs[i].identifier().is_none() {
            return false;
        }
        i += 1;
    }
    true
}

/// Whether every guideline with a lib, of the font info and of every glyph of every
/// layer, has an identifier, as saving asks of a font.
pub fn font_guidelines_have_ids(font: &Font) -> (res: bool)
    ensures
        res == ((font.font_info.guidelines matches Some(gs) ==> guideline_libs_identified(gs@))
            && layers_guidelines_identified(font.layers.spec_layers())),
{
    match &font.font_info.guidelines {
        Some(gs) => {
            if !guidelines_have_ids(gs) {
                return false;
            }
        },
        None => {},
    }
    let layers = font.layers.iter();
    let mut i: usize = 0;
    while i < layers.len()
        invariant
            i <= layers@.len(),
            layers@.len() == font.layers.spec_layers().len(),
            forall|k: int| 0 <= k < layers@.len() ==> *(#[trigger] layers@[k]) == font.layers.spec_layers()[k],
            forall|k: int| 0 <= k < i ==> glyph_guidelines_identified((#[trigger] font.layers.spec_layers()[k]).spec_entries()),
            font.font_info.guidelines matches Some(gs) ==> guideline_libs_identified(gs@),
        decreases layers@.len() - i,
    {
        let glyphs = layers[i].iter();
        let ghost es = font.layers.spec_layers()[i as int].spec_entries();
        let mut j: usize = 0;
        while j < glyphs.len()
            invariant
                j <= glyphs@.len(),
                glyphs@.len() == es.len(),
                forall|k: int| 0 <= k < glyphs@.len() ==> *(#[trigger] glyphs@[k]) == es[k].1,
                forall|k: int| 0 <= k < j ==> guideline_libs_identified((#[trigger] es[k]).1.guidelines@),
                es == font.layers.spec_layers()[i as int].spec_entries(),
                i < font.layers.spec_layers().len(),
            decreases glyphs@.len() - j,
        {
            if !guidelines_have_ids(&glyphs[j].guidelines) {
                proof {
                    assert(!guideline_libs_identified(es[j as int].1.guidelines@));
                    assert(!glyph_guidelines_identified(font.layers.spec_layers()[i as int].spec_entries()));
                }
                return false;
            }
            j += 1;
        }
        assert(glyph_guidelines_identified(font.layers.spec_layers()[i as int].spec_entries()));
        i += 1;
    }
    true
}

/// True when `ff` holds the files that saving the font writes, given the bytes that
/// the application serialized and the entries of the data and images stores.
pub open spec fn font_files_ok<F: Fn(FloatBits) -> String, G: Fn(Float32Bits) -> String>(
    ff: FontFiles,
    font: Font,
    data: Seq<(String, Result<Vec<u8>, StoreError>)>,
    images: Seq<(String, Result<Vec<u8>, StoreError>)>,
    parts: SerializedParts,
    opts: WriteOptions,
    show: F,
    show3: G,
) -> bool {
    &&& ff.metainfo == parts.metainfo
    &&& ff.font_info == if spec_info_is_empty(font.font_info) { None } else { Some(parts.font_info) }
    &&& (ff.lib is None <==> font_lib_keys(font.lib, font.font_info) == Set::<Seq<char>>::empty())
    &&& (ff.lib matches Some(b) ==> is_font_lib_plist(b@, font.lib, font.font_info, opts))
    &&& ff.groups == if font.groups@.len() == 0 { None } else { Some(parts.groups) }
    &&& ff.kerning == if font.kerning@.len() == 0 { None } else { Some(parts.kerning) }
    &&& file_texts(ff.features@) == feature_files_for_saving(font.features@, font.feature_files@)
    &&& ff.layer_contents@ == string_pairs_xml(
        layer_dirs(font.layers.spec_layers()),
        opts.spec_indent_char(),
        opts.spec_indent().len() as usize,
    )
    &&& layers_files_ok(font.layers.spec_layers(), ff.layers@, opts, show, show3)
    &&& file_texts(ff.stores@) == store_files(DATA_DIR@, data) + store_files(IMAGES_DIR@, images)
}

/// True when saving the font has nothing to write that could fail: its lib, with the
/// libs of its guidelines, is empty, and every layer is empty, with no color and an
/// empty lib.
pub open spec fn nothing_to_fail(font: Font) -> bool {
    &&& font_lib_keys(font.lib, font.font_info) == Set::<Seq<char>>::empty()
    &&& forall|i: int|
        0 <= i < font.layers.spec_layers().len() ==> (#[trigger] font.layers.spec_layers()[i]).spec_entries().len() == 0
            && !needs_layerinfo(font.layers.spec_layers()[i].spec_color(), font.layers.spec_layers()[i].spec_lib())
}

/// The files that saving the font writes: its metainfo, font info, lib, groups, kerning
/// and features, its `layercontents.plist`, the files of each layer and those of its
/// data and images stores. The application serializes the metainfo, the font info,
/// the groups and the kerning; the first file that cannot be made decides the error.
pub fn font_files<F: Fn(FloatBits) -> String, G: Fn(Float32Bits) -> String>(
    font: &Font,
    data: Vec<(String, Result<Vec<u8>, StoreError>)>,
    images: Vec<(String, Result<Vec<u8>, StoreError>)>,
    parts: SerializedParts,
    opts: &WriteOptions,
    show: &F,
    show3: &G,
) -> (res: Result<FontFiles, FontWriteError>)
    requires
        shows_one_way(*show),
        shows_one_way(*show3),
        font.font_info.guidelines matches Some(gs) ==> guideline_libs_identified(gs@),
        layers_guidelines_identified(font.layers.spec_layers()),
        loaded_before(data@, data@.len() as int),
        loaded_before(images@, images@.len() as int),
    ensures
        nothing_to_fail(*font) ==> res is Ok,
        res matches Err(e) ==> (e is WriteLib || (e matches FontWriteError::WriteLayer(n, p, _)
            && exists|i: int|
            0 <= i < font.layers.spec_layers().len() && n@ == (#[trigger] font.layers.spec_layers()[i]).spec_name()
                && p@ == font.layers.spec_layers()[i].spec_path())),
        res matches Ok(ff) ==> font_files_ok(ff, *font, data@, images@, parts, *opts, *show, *show3),
{
    let ghost given = parts;
    let ghost data_view = data@;
    let ghost images_view = images@;
    let SerializedParts { metainfo, font_info, groups, kerning } = parts;
    let font_info_file = if font.font_info.is_empty() {
        None
    } else {
        Some(font_info)
    };
    let lib = match font_lib_plist(&font.lib, &font.font_info, opts) {
        Ok(l) => l,
        Err(e) => {
            return Err(FontWriteError::WriteLib(e));
        },
    };
    let groups_file = if font.groups.len() == 0 {
        None
    } else {
        Some(groups)
    };
    let kerning_file = if font.kerning.len() == 0 {
        None
    } else {
        Some(kerning)
    };
    let features = feature_files_to_write(font.features.as_str(), &font.feature_files);
    let layer_contents = match font.layers.contents_plist(opts) {
        Ok(b) => b,
        Err(e) => {
            return Err(FontWriteError::WriteLayerContents(e));
        },
    };
    let layers = font.layers.iter();
    let ghost ls = font.layers.spec_layers();
    let mut layer_files: Vec<(String, Vec<u8>)> = Vec::new();
    let ghost mut pieces: Seq<Seq<(String, Vec<u8>)>> = Seq::empty();
    let mut i: usize = 0;
    while i < layers.len()
        invariant
            i <= layers@.len(),
            layers@.len() == ls.len(),
            ls == font.layers.spec_layers(),
            forall|k: int| 0 <= k < layers@.len() ==> *(#[trigger] layers@[k]) == ls[k],
            shows_one_way(*show),
            shows_one_way(*show3),
            layers_guidelines_identified(ls),
            pieces.len() == i,
            pieces.flatten_alt() == layer_files@,
            forall|k: int| 0 <= k < i ==> layer_files_ok(ls[k], #[trigger] pieces[k], *opts, *show, *show3),
            nothing_to_fail(*font) ==> forall|k: int|
                0 <= k < ls.len() ==> (#[trigger] ls[k]).spec_entries().len() == 0 && !needs_layerinfo(
                    ls[k].spec_color(),
                    ls[k].spec_lib(),
                ),
        decreases layers@.len() - i,
    {
        let l = layers[i];
        assert(glyph_guidelines_identified(ls[i as int].spec_entries()));
        match l.files_for_saving(opts, show, show3) {
            Ok(mut fs) => {
                let ghost fsv = fs@;
                let ghost before = pieces;
                layer_files.append(&mut fs);
                proof {
                    pieces = pieces.push(fsv);
                    assert(pieces.drop_last() =~= before);
                    assert forall|k: int| 0 <= k < i + 1 implies layer_files_ok(ls[k], #[trigger] pieces[k], *opts, *show, *show3) by {
                        if k < i {
                            assert(pieces[k] == before[k]);
                        }
                    }
                }
            },
            Err(e) => {
                return Err(FontWriteError::WriteLayer(to_string(l.name().as_str()), to_string(l.path()), e));
            },
        }
        i += 1;
    }
    let mut stores = store_files_to_write(DATA_DIR, data);
    let mut image_files = store_files_to_write(IMAGES_DIR, images);
    let ghost store_part = stores@;
    let ghost image_part = image_files@;
    stores.append(&mut image_files);
    proof {
        assert(file_texts(stores@) =~= file_texts(store_part) + file_texts(image_part));
    }
    let ff = FontFiles {
        metainfo,
        font_info: font_info_file,
        lib,
        groups: groups_file,
        kerning: kerning_file,
        features,
        layer_contents,
        layers: layer_files,
        stores,
    };
    assert(layers_files_ok(ls, ff.layers@, *opts, *show, *show3));
    Ok(ff)
}

/// A file by the characters of its path and its bytes, where there is one to write.
pub open spec fn opt_file(path: Seq<char>, bytes: Option<Vec<u8>>) -> Seq<(Seq<char>, Seq<u8>)> {
    match bytes {
        Some(b) => seq![(path, b@)],
        None => Seq::empty(),
    }
}

/// The files in the order that saving writes them, each by its path relative to the
/// font's root.
pub open spec fn files_in_order(ff: FontFiles) -> Seq<(Seq<char>, Seq<u8>)> {
    seq![(METAINFO_FILE@, ff.metainfo@)] + opt_file(FONTINFO_FILE@, ff.font_info) + opt_file(LIB_FILE@, ff.lib)
        + opt_file(GROUPS_FILE@, ff.groups) + opt_file(KERNING_FILE@, ff.kerning) + file_texts(ff.features@)
        + seq![(LAYER_CONTENTS_FILE@, ff.layer_contents@)] + file_texts(ff.layers@) + file_texts(ff.stores@)
}

/// Appends a file where there is one.
fn push_opt_file(out: &mut Vec<(String, Vec<u8>)>, path: &str, bytes: Option<Vec<u8>>)
    ensures
        file_texts(final(out)@) == file_texts(old(out)@) + opt_file(path@, bytes),
{
    match bytes {
        Some(b) => {
            let ghost bv = b@;
            out.push((to_string(path), b));
            assert(file_texts(out@) =~= file_texts(old(out)@) + opt_file(path@, Some(b)));
        },
        None => {
            assert(file_texts(out@) =~= file_texts(old(out)@) + opt_file(path@, bytes));
        },
    }
}

/// Appends files.
fn append_files(out: &mut Vec<(String, Vec<u8>)>, mut more: Vec<(String, Vec<u8>)>)
    ensures
        file_texts(final(out)@) == file_texts(old(out)@) + file_texts(more@),
{
    let ghost m = more@;
    out.append(&mut more);
    assert(file_texts(out@) =~= file_texts(old(out)@) + file_texts(m));
}

impl FontFiles {
    /// The files in the order that saving writes them, each by its path relative to
    /// the font's root.
    pub fn in_order(self) -> (res: Vec<(String, Vec<u8>)>)
        ensures
            file_texts(res@) == files_in_order(self),
    {
        let ghost ff = self;
        let FontFiles { metainfo, font_info, lib, groups, kerning, features, layer_contents, layers, stores } = self;
        let mut out: Vec<(String, Vec<u8>)> = Vec::new();
        out.push((to_string(METAINFO_FILE), metainfo));
        assert(file_texts(out@) =~= seq![(METAINFO_FILE@, ff.metainfo@)]);
        push_opt_file(&mut out, FONTINFO_FILE, font_info);
        push_opt_file(&mut out, LIB_FILE, lib);
        push_opt_file(&mut out, GROUPS_FILE, groups);
        push_opt_file(&mut out, KERNING_FILE, kerning);
        append_files(&mut out, features);
        let ghost before = out@;
        out.push((to_string(LAYER_CONTENTS_FILE), layer_contents));
        assert(file_texts(out@) =~= file_texts(before) + seq![(LAYER_CONTENTS_FILE@, ff.layer_contents@)]);
        append_files(&mut out, layers);
        append_files(&mut out, stores);
        assert(file_texts(out@) =~= files_in_order(ff));
        out
    }
}

/// The files that saving the font writes, in the order in which they are written: the
/// font is checked as [`check_before_save`] does, then come the files that
/// [`font_files`] makes, in the order of [`FontFiles::in_order`]. The application
/// serializes the metainfo, the font info, the groups and the kerning, gives the
/// entries of the data and images stores, and writes each file, replacing any there.
pub fn save_font_files<F: Fn(FloatBits) -> String, G: Fn(Float32Bits) -> String>(
    font: &Font,
    data: Vec<(String, Result<Vec<u8>, StoreError>)>,
    images: Vec<(String, Result<Vec<u8>, StoreError>)>,
    parts: SerializedParts,
    opts: &WriteOptions,
    show: &F,
    show3: &G,
) -> (res: Result<Vec<(String, Vec<u8>)>, FontWriteError>)
    requires
        shows_one_way(*show),
        shows_one_way(*show3),
        font.font_info.guidelines matches Some(gs) ==> guideline_libs_identified(gs@),
        layers_guidelines_identified(font.layers.spec_layers()),
    ensures
        !passes_save_checks(font.meta, font.lib, font.groups@, font.font_info, data@ + images@) ==> (res matches Err(e)
            && is_save_check_error(e, font.meta, font.lib, font.groups@, font.font_info, data@ + images@)),
        passes_save_checks(font.meta, font.lib, font.groups@, font.font_info, data@ + images@) ==> match res {
            Ok(files) => exists|ff: FontFiles|
                #[trigger] font_files_ok(ff, *font, data@, images@, parts, *opts, *show, *show3) && file_texts(files@)
                    == files_in_order(ff),
            Err(e) => e is WriteLib || e is WriteLayer,
        },
        passes_save_checks(font.meta, font.lib, font.groups@, font.font_info, data@ + images@) && nothing_to_fail(*font)
            ==> res is Ok,
{
    match check_before_save(&font.meta, &font.lib, &font.groups, &font.font_info, &data, &images) {
        Ok(()) => {},
        Err(e) => {
            return Err(e);
        },
    }
    assert(passes_save_checks(font.meta, font.lib, font.groups@, font.font_info, data@ + images@));
    proof {
        lemma_loaded_concat(data@, images@);
    }
    let ghost data_view = data@;
    let ghost images_view = images@;
    match font_files(font, data, images, parts, opts, show, show3) {
        Ok(ff) => {
            let ghost g = ff;
            let files = ff.in_order();
            assert(font_files_ok(g, *font, data_view, images_view, parts, *opts, *show, *show3));
            Ok(files)
        },
        Err(e) => Err(e),
    }
}

/// True when `features` is the text of the feature file `text`, or empty where there
/// is none.
pub open spec fn features_from(text: Option<Seq<char>>, features: Seq<char>) -> bool {
    match text {
        Some(t) => features == t,
        None => features.len() == 0,
    }
}

/// True when `f` gives one answer for each text.
pub open spec fn answers_by_text<T, F: Fn(&str) -> T>(f: F) -> bool {
    forall|t1: &str, t2: &str, r1: T, r2: T|
        #![trigger call_ensures(f, (t1,), r1), call_ensures(f, (t2,), r2)]
        t1@ == t2@ && call_ensures(f, (t1,), r1) && call_ensures(f, (t2,), r2) ==> r1 == r2
}

/// True when `f` gives `r` for some text that reads `s`.
pub open spec fn gives_for_text<T, F: Fn(&str) -> T>(f: F, s: Seq<char>, r: T) -> bool {
    exists|t: &str| #[trigger] call_ensures(f, (t,), r) && t@ == s
}

/// What `f` gives for the text `s`, where it gives one answer for each text.
pub open spec fn text_answer<T, F: Fn(&str) -> T>(f: F, s: Seq<char>) -> T {
    choose|r: T| #[trigger] gives_for_text(f, s, r)
}

/// What a function that gives one answer for each text gave is its answer for the text.
pub proof fn lemma_text_answer<T, F: Fn(&str) -> T>(f: F, t: &str, r: T)
    requires
        answers_by_text(f),
        call_ensures(f, (t,), r),
    ensures
        r == text_answer(f, t@),
{
    assert(gives_for_text(f, t@, r));
    let r2 = text_answer(f, t@);
    let t2 = choose|t2: &str| #[trigger] call_ensures(f, (t2,), r2) && t2@ == t@;
}

/// What reading an optional property list file gives: nothing where there is no such
/// file, else what `parse` reads from its text, a parse failure being
/// [`FontLoadError::ParsePlist`] for `name`.
pub open spec fn parsed_file<T>(
    text: Option<Seq<char>>,
    parse: spec_fn(Seq<char>) -> Result<T, plist::Error>,
    name: &'static str,
) -> Result<Option<T>, FontLoadError> {
    match text {
        None => Ok(None),
        Some(t) => match parse(t) {
            Ok(x) => Ok(Some(x)),
            Err(e) => Err(FontLoadError::ParsePlist { name, source: e }),
        },
    }
}

/// What reading `metainfo.plist` gives: [`FontLoadError::MissingMetaInfoFile`] where
/// there is no such file, else what `parse` reads from its text.
pub open spec fn parsed_meta(
    text: Option<Seq<char>>,
    parse: spec_fn(Seq<char>) -> Result<MetaInfo, plist::Error>,
) -> Result<MetaInfo, FontLoadError> {
    match parsed_file(text, parse, METAINFO_FILE) {
        Ok(Some(m)) => Ok(m),
        Ok(None) => Err(FontLoadError::MissingMetaInfoFile),
        Err(e) => Err(e),
    }
}

/// What reading an optional file gives where the request asks for it: nothing where
/// it does not.
pub open spec fn if_requested<T>(asked: bool, r: Result<Option<T>, FontLoadError>) -> Result<Option<T>, FontLoadError> {
    if asked {
        r
    } else {
        Ok(None)
    }
}

/// True when `name` is one of the property list files of a font's root directory.
pub open spec fn is_font_plist_name(name: Seq<char>) -> bool {
    ||| name == METAINFO_FILE@
    ||| name == LIB_FILE@
    ||| name == FONTINFO_FILE@
    ||| name == GROUPS_FILE@
    ||| name == KERNING_FILE@
    ||| name == LAYER_CONTENTS_FILE@
}

/// The metainfo of a font that the library loads: one of format version 3.
pub fn meta_checked(meta: MetaInfo) -> (res: Result<MetaInfo, FontLoadError>)
    ensures
        meta.format_version == FormatVersion::V3 ==> res == Ok::<MetaInfo, FontLoadError>(meta),
        meta.format_version != FormatVersion::V3 ==> res == Err::<MetaInfo, FontLoadError>(
            FontLoadError::SourceUnsupportedFormatVersion,
        ),
{
    if meta.format_version != FormatVersion::V3 {
        return Err(FontLoadError::SourceUnsupportedFormatVersion);
    }
    Ok(meta)
}

/// The lib that the text of `lib.plist` gives: empty where there is no such file, the
/// dictionary that the text holds, [`FontLoadError::LibFileMustBeDictionary`] where
/// it holds another property list, and the reader's error where it holds none.
pub fn lib_from_text(text: Option<String>) -> (res: Result<Plist, FontLoadError>)
    ensures
        match text {
            None => res matches Ok(d) && dict_keys(d) == Set::<Seq<char>>::empty(),
            Some(t) => match xml_dictionary(utf8_encoding(t@)) {
                Some(Some((keys, strings))) => res matches Ok(d) && dict_keys(d) == keys && dict_strings(d) == strings,
                Some(None) => res == Err::<Plist, FontLoadError>(FontLoadError::LibFileMustBeDictionary),
                None => res matches Err(FontLoadError::ParsePlist { name, .. }) && name@ == LIB_FILE@,
            },
        },
{
    match text {
        None => {
            let d = new_dict();
            assert(dict_keys(d) =~= Set::<Seq<char>>::empty());
            Ok(d)
        },
        Some(t) => match parse_xml_dictionary(into_bytes(t).as_slice()) {
            Ok(Some(d)) => Ok(d),
            Ok(None) => Err(FontLoadError::LibFileMustBeDictionary),
            Err(e) => Err(FontLoadError::ParsePlist { name: LIB_FILE, source: e }),
        },
    }
}

/// The groups, where they are valid, or the first reason they are not.
pub fn groups_checked(g: Groups) -> (res: Result<Groups, FontLoadError>)
    ensures
        groups_check_from(groups_view(g@), 0) is Valid ==> res == Ok::<Groups, FontLoadError>(g),
        !(groups_check_from(groups_view(g@), 0) is Valid) ==> (res matches Err(FontLoadError::InvalidGroups(ge))
            && reports(Err(ge), groups_check_from(groups_view(g@), 0))),
{
    match validate_groups(&g) {
        Ok(()) => Ok(g),
        Err(e) => Err(FontLoadError::InvalidGroups(e)),
    }
}

/// The font info, where it is valid, with the libs of its guidelines taken from `lib`;
/// the first check it fails otherwise, with `lib` as it was.
pub fn font_info_checked(fi: FontInfo, lib: &mut Plist) -> (res: Result<FontInfo, FontLoadError>)
    ensures
        first_failed_check(fi) matches Some(c) ==> (res matches Err(FontLoadError::FontInfo(e)) && describes_failure(
            e,
            c,
            fi,
        ) && *final(lib) == *old(lib)),
        first_failed_check(fi) is None && res is Ok ==> dict_keys(*final(lib)) == dict_keys(*old(lib)).remove(
            PUBLIC_OBJECT_LIBS_KEY@,
        ),
        first_failed_check(fi) is None && res is Err ==> (res matches Err(e) && (e is PublicObjectLibsMustBeDictionary
            || e is GlobalGuidelineLibMustBeDictionary)),
        res matches Ok(f) ==> (f.guidelines is Some) == (fi.guidelines is Some),
{
    match fi.validate() {
        Ok(()) => {},
        Err(k) => {
            return Err(FontLoadError::FontInfo(k));
        },
    }
    let mut fi = fi;
    match fi.load_object_libs(lib) {
        Ok(()) => Ok(fi),
        Err(e) => Err(e),
    }
}

/// The keys of the lib that the text of `lib.plist` gives, where it gives one: none
/// where there is no such file.
pub open spec fn text_lib_keys(text: Option<Seq<char>>) -> Set<Seq<char>> {
    match text {
        Some(t) => match xml_dictionary(utf8_encoding(t)) {
            Some(Some((keys, _))) => keys,
            _ => Set::empty(),
        },
        None => Set::empty(),
    }
}

/// True when the text of `lib.plist`, if there is one, holds a dictionary.
pub open spec fn lib_text_ok(text: Option<String>) -> bool {
    text matches Some(t) ==> xml_dictionary(utf8_encoding(t@)) matches Some(Some(_))
}

/// True when the metainfo was read and is of format version 3.
pub open spec fn meta_ok(meta: Result<MetaInfo, FontLoadError>) -> bool {
    meta matches Ok(m) && m.format_version == FormatVersion::V3
}

/// True when the metainfo and the lib were read, the first of format version 3 and
/// the second a dictionary.
pub open spec fn meta_lib_ok(meta: Result<MetaInfo, FontLoadError>, lib_text: Result<Option<String>, FontLoadError>) -> bool {
    lib_text matches Ok(t) && meta_ok(meta) && lib_text_ok(t)
}

/// True when the font info was read and, where there is one, passes its checks.
pub open spec fn font_info_ok(font_info: Result<Option<FontInfo>, FontLoadError>) -> bool {
    font_info matches Ok(o) && (o matches Some(fi) ==> first_failed_check(fi) is None)
}

/// True when the error comes from taking the libs of the font info's guidelines from
/// the lib.
pub open spec fn is_object_lib_error(e: FontLoadError) -> bool {
    e is PublicObjectLibsMustBeDictionary || e is GlobalGuidelineLibMustBeDictionary
}

/// True when the groups were read and, where there are any, are valid.
pub open spec fn groups_ok(groups: Result<Option<Groups>, FontLoadError>) -> bool {
    match groups {
        Ok(Some(g)) => groups_check_from(groups_view(g@), 0) is Valid,
        Ok(None) => true,
        Err(_) => false,
    }
}

/// True when there is a font info and the result is an error taking the libs of its
/// guidelines from the lib.
pub open spec fn fails_object_lib<T>(res: Result<T, FontLoadError>, font_info: Result<Option<FontInfo>, FontLoadError>) -> bool {
    match (res, font_info) {
        (Err(x), Ok(Some(_))) => is_object_lib_error(x),
        _ => false,
    }
}

/// True when the result is the error `e`, or an error taking the libs of the font
/// info's guidelines, which comes first.
pub open spec fn fails_with_or_object_lib<T>(
    res: Result<T, FontLoadError>,
    e: FontLoadError,
    font_info: Result<Option<FontInfo>, FontLoadError>,
) -> bool {
    res == Err::<T, FontLoadError>(e) || fails_object_lib(res, font_info)
}

/// True when the result reports the first reason the groups `g` are not valid, or is
/// an error taking the libs of the font info's guidelines, which comes first.
pub open spec fn fails_invalid_groups_or_object_lib<T>(
    res: Result<T, FontLoadError>,
    g: Groups,
    font_info: Result<Option<FontInfo>, FontLoadError>,
) -> bool {
    match res {
        Err(FontLoadError::InvalidGroups(ge)) => reports(Err(ge), groups_check_from(groups_view(g@), 0)),
        _ => fails_object_lib(res, font_info),
    }
}

/// The text of the lib file as read, by its characters.
pub open spec fn lib_view(lib_text: Result<Option<String>, FontLoadError>) -> Result<Option<Seq<char>>, FontLoadError> {
    match lib_text {
        Ok(t) => Ok(opt_text(t)),
        Err(e) => Err(e),
    }
}

/// True when `m`, `lib`, `fi`, `g` and `k` are the root parts of a font whose files gave
/// the metainfo `m0`, the lib text `lib_text`, the font info `fi0`, the groups `g0` and
/// the kerning `k0` (each `None` where there is no such file): the metainfo as it is,
/// of format version 3; the lib that the text holds, without `public.objectLibs`
/// where there is a font info; the font info, which passes its checks, with the libs
/// of its guidelines taken from the lib (empty where there is none); the groups,
/// which are valid; and the kerning, each empty where there is no file.
pub open spec fn head_fits(
    m0: MetaInfo,
    lib_text: Option<Seq<char>>,
    fi0: Option<FontInfo>,
    g0: Option<Groups>,
    k0: Option<Kerning>,
    m: MetaInfo,
    lib: Plist,
    fi: FontInfo,
    g: Groups,
    k: Kerning,
) -> bool {
    &&& m == m0
    &&& m.format_version == FormatVersion::V3
    &&& match fi0 {
        Some(_) => dict_keys(lib) == text_lib_keys(lib_text).remove(PUBLIC_OBJECT_LIBS_KEY@),
        None => dict_keys(lib) == text_lib_keys(lib_text),
    }
    &&& match fi0 {
        Some(f0) => first_failed_check(f0) is None && (fi.guidelines is Some) == (f0.guidelines is Some),
        None => spec_info_is_empty(fi),
    }
    &&& groups_check_from(groups_view(g@), 0) is Valid
    &&& match g0 {
        Some(x) => g == x,
        None => g@.len() == 0,
    }
    &&& match k0 {
        Some(x) => k == x,
        None => k@.len() == 0,
    }
}

/// True when the root files were all read and parsed, and `m`, `lib`, `fi`, `g` and `k`
/// are the parts that they give (see [`head_fits`]).
pub open spec fn head_gives(
    meta: Result<MetaInfo, FontLoadError>,
    lib_text: Result<Option<Seq<char>>, FontLoadError>,
    font_info: Result<Option<FontInfo>, FontLoadError>,
    groups: Result<Option<Groups>, FontLoadError>,
    kerning: Result<Option<Kerning>, FontLoadError>,
    m: MetaInfo,
    lib: Plist,
    fi: FontInfo,
    g: Groups,
    k: Kerning,
) -> bool {
    match (meta, lib_text, font_info, groups, kerning) {
        (Ok(m0), Ok(t), Ok(fi0), Ok(g0), Ok(k0)) => head_fits(m0, t, fi0, g0, k0, m, lib, fi, g, k),
        _ => false,
    }
}

/// The root files of a font, from what reading (and parsing) each of them gave: the
/// metainfo, the text of the lib, the font info, the groups and the kerning, each
/// `None` where there is no such file and an error where reading or parsing failed.
/// The first failure, in that order, is the result: a metainfo of another format
/// version than 3, a lib that is not a dictionary, a font info that fails a check or
/// whose guidelines' libs cannot be taken from the lib, groups that are not valid.
/// Otherwise the parts, the lib without `public.objectLibs` where there is a font info,
/// and empty parts for missing files.
pub fn font_head(
    meta: Result<MetaInfo, FontLoadError>,
    lib_text: Result<Option<String>, FontLoadError>,
    font_info: Result<Option<FontInfo>, FontLoadError>,
    groups: Result<Option<Groups>, FontLoadError>,
    kerning: Result<Option<Kerning>, FontLoadError>,
) -> (res: Result<(MetaInfo, Plist, FontInfo, Groups, Kerning), FontLoadError>)
    ensures
        meta matches Err(e) ==> res == Err::<(MetaInfo, Plist, FontInfo, Groups, Kerning), FontLoadError>(e),
        meta matches Ok(m) && m.format_version != FormatVersion::V3 ==> res == Err::<
            (MetaInfo, Plist, FontInfo, Groups, Kerning),
            FontLoadError,
        >(FontLoadError::SourceUnsupportedFormatVersion),
        lib_text matches Err(e) ==> (meta_ok(meta) ==> res == Err::<(MetaInfo, Plist, FontInfo, Groups, Kerning), FontLoadError>(e)),
        lib_text matches Ok(Some(t)) ==> (meta_ok(meta) ==> match xml_dictionary(utf8_encoding(t@)) {
            Some(Some(_)) => true,
            Some(None) => res == Err::<(MetaInfo, Plist, FontInfo, Groups, Kerning), FontLoadError>(
                FontLoadError::LibFileMustBeDictionary,
            ),
            None => res matches Err(FontLoadError::ParsePlist { name, .. }) && name@ == LIB_FILE@,
        }),
        font_info matches Err(e) ==> (meta_lib_ok(meta, lib_text) ==> res == Err::<
            (MetaInfo, Plist, FontInfo, Groups, Kerning),
            FontLoadError,
        >(e)),
        font_info matches Ok(Some(fi)) ==> (meta_lib_ok(meta, lib_text) && first_failed_check(fi) is Some ==> (res matches Err(
            FontLoadError::FontInfo(k),
        ) && describes_failure(k, first_failed_check(fi)->0, fi))),
        groups matches Err(e) ==> (meta_lib_ok(meta, lib_text) && font_info_ok(font_info) ==> fails_with_or_object_lib(res, e, font_info)),
        groups matches Ok(Some(g)) ==> (meta_lib_ok(meta, lib_text) && font_info_ok(font_info) && !(groups_check_from(
            groups_view(g@),
            0,
        ) is Valid) ==> fails_invalid_groups_or_object_lib(res, g, font_info)),
        kerning matches Err(e) ==> (meta_lib_ok(meta, lib_text) && font_info_ok(font_info) && groups_ok(groups)
            ==> fails_with_or_object_lib(res, e, font_info)),
        meta_lib_ok(meta, lib_text) && font_info_ok(font_info) && groups_ok(groups) && kerning is Ok ==> (res is Ok
            || fails_object_lib(res, font_info)),
        res matches Ok((m, lib, fi, g, k)) ==> head_gives(meta, lib_view(lib_text), font_info, groups, kerning, m, lib, fi, g, k),
{
    let m = match meta {
        Ok(m) => m,
        Err(e) => {
            return Err(e);
        },
    };
    let m = match meta_checked(m) {
        Ok(m) => m,
        Err(e) => {
            return Err(e);
        },
    };
    let t = match lib_text {
        Ok(t) => t,
        Err(e) => {
            return Err(e);
        },
    };
    let ghost text = t;
    let mut lib = match lib_from_text(t) {
        Ok(d) => d,
        Err(e) => {
            return Err(e);
        },
    };
    assert(dict_keys(lib) == text_lib_keys(opt_text(text)));
    let fi = match font_info {
        Ok(Some(f0)) => match font_info_checked(f0, &mut lib) {
            Ok(fi) => fi,
            Err(e) => {
                return Err(e);
            },
        },
        Ok(None) => FontInfo::default(),
        Err(e) => {
            return Err(e);
        },
    };
    let g = match groups {
        Ok(Some(g0)) => match groups_checked(g0) {
            Ok(g) => g,
            Err(e) => {
                return Err(e);
            },
        },
        Ok(None) => {
            let g: Groups = Vec::new();
            assert(groups_view(g@) =~= Seq::empty());
            g
        },
        Err(e) => {
            return Err(e);
        },
    };
    let k = match kerning {
        Ok(Some(k0)) => k0,
        Ok(None) => Vec::new(),
        Err(e) => {
            return Err(e);
        },
    };
    Ok((m, lib, fi, g, k))
}

/// Loads a font through `source`: its metainfo, which must be of format version 3,
/// then, as `request` asks, its lib, its font info (checked, with the libs of its
/// guidelines taken from the lib), its groups (checked), its kerning, its features
/// and the layers that the request's filter and `custom` admit. The data and images
/// stores stay empty. `reader` reads the property lists whose shape is that of a type
/// of the library; `read_f64` and `read_f32` read the numbers of the glyphs.
pub fn load_font_with_source<
    R: Fn(&str) -> Result<Option<String>, String>,
    RM: Fn(&str) -> Result<MetaInfo, plist::Error>,
    RI: Fn(&str) -> Result<FontInfo, plist::Error>,
    RG: Fn(&str) -> Result<Groups, plist::Error>,
    RK: Fn(&str) -> Result<Kerning, plist::Error>,
    C: Fn(&str, &str) -> bool,
    F: Fn(&str) -> Option<u64>,
    G: Fn(&str) -> Option<u32>,
>(
    request: &DataRequest,
    source: &R,
    read_meta: &RM,
    read_info: &RI,
    read_groups: &RG,
    read_kerning: &RK,
    custom: &C,
    read_f64: &F,
    read_f32: &G,
) -> (res: Result<Font, FontLoadError>)
    requires
        forall|p: &str| #[trigger] call_requires(*source, (p,)),
        reads_consistently(*source),
        forall|t: &str| #[trigger] call_requires(*read_meta, (t,)),
        forall|t: &str| #[trigger] call_requires(*read_info, (t,)),
        forall|t: &str| #[trigger] call_requires(*read_groups, (t,)),
        forall|t: &str| #[trigger] call_requires(*read_kerning, (t,)),
        answers_by_text(*read_meta),
        answers_by_text(*read_info),
        answers_by_text(*read_groups),
        answers_by_text(*read_kerning),
        forall|n: &str, d: &str| #[trigger] call_requires(*custom, (n, d)),
        answers_by_two_texts(*custom),
        forall|t: &str| #[trigger] call_requires(*read_f64, (t,)),
        forall|t: &str| #[trigger] call_requires(*read_f32, (t,)),
        is_function_of_text(*read_f64),
        is_function_of_text32(*read_f32),
    ensures
        res matches Ok(font) ==> head_gives(
            parsed_meta(package_text(*source, METAINFO_FILE@), |t: Seq<char>| text_answer(*read_meta, t)),
            if_requested(request.lib, Ok(package_text(*source, LIB_FILE@))),
            parsed_file(package_text(*source, FONTINFO_FILE@), |t: Seq<char>| text_answer(*read_info, t), FONTINFO_FILE),
            if_requested(
                request.groups,
                parsed_file(package_text(*source, GROUPS_FILE@), |t: Seq<char>| text_answer(*read_groups, t), GROUPS_FILE),
            ),
            if_requested(
                request.kerning,
                parsed_file(package_text(*source, KERNING_FILE@), |t: Seq<char>| text_answer(*read_kerning, t), KERNING_FILE),
            ),
            font.meta,
            font.lib,
            font.font_info,
            font.groups,
            font.kerning,
        ),
        res matches Ok(font) ==> {
            &&& font.layers.wf()
            &&& layers_loaded_from(
                font.layers.spec_layers(),
                *source,
                true,
                request.layers,
                *custom,
                meaning64(*read_f64),
                meaning32(*read_f32),
            )
            &&& (!request.features ==> font.features@.len() == 0 && font.feature_files@.len() == 0)
            &&& (request.features ==> features_from(package_text(*source, FEATURES_FILE@), font.features@))
            &&& font.data.spec_items().len() == 0
            &&& font.images.spec_items().len() == 0
        },
        res matches Err(FontLoadError::ParsePlist { name, .. }) ==> is_font_plist_name(name@),
{
    let ghost parse_meta = |t: Seq<char>| text_answer(*read_meta, t);
    let ghost parse_info = |t: Seq<char>| text_answer(*read_info, t);
    let ghost parse_groups = |t: Seq<char>| text_answer(*read_groups, t);
    let ghost parse_kerning = |t: Seq<char>| text_answer(*read_kerning, t);
    let meta: Result<MetaInfo, FontLoadError> = match read_required_text(source, METAINFO_FILE, FontLoadError::MissingMetaInfoFile) {
        Ok(text) => {
            let t = text.as_str();
            let r = read_meta(t);
            proof {
                lemma_text_answer(*read_meta, t, r);
            }
            match r {
                Ok(m) => Ok(m),
                Err(e) => Err(FontLoadError::ParsePlist { name: METAINFO_FILE, source: e }),
            }
        },
        Err(e) => Err(e),
    };
    assert(meta is Ok ==> meta == parsed_meta(package_text(*source, METAINFO_FILE@), parse_meta));
    let lib_text: Result<Option<String>, FontLoadError> = if request.lib {
        read_optional_text(source, LIB_FILE)
    } else {
        Ok(None)
    };
    assert(lib_text is Ok ==> lib_view(lib_text) == if_requested(request.lib, Ok(package_text(*source, LIB_FILE@))));
    let font_info: Result<Option<FontInfo>, FontLoadError> = match read_optional_text(source, FONTINFO_FILE) {
        Ok(Some(text)) => {
            let t = text.as_str();
            let r = read_info(t);
            proof {
                lemma_text_answer(*read_info, t, r);
            }
            match r {
                Ok(fi) => Ok(Some(fi)),
                Err(e) => Err(FontLoadError::ParsePlist { name: FONTINFO_FILE, source: e }),
            }
        },
        Ok(None) => Ok(None),
        Err(e) => Err(e),
    };
    assert(font_info is Ok ==> font_info == parsed_file(package_text(*source, FONTINFO_FILE@), parse_info, FONTINFO_FILE));
    let groups: Result<Option<Groups>, FontLoadError> = if request.groups {
        match read_optional_text(source, GROUPS_FILE) {
            Ok(Some(text)) => {
                let t = text.as_str();
                let r = read_groups(t);
                proof {
                    lemma_text_answer(*read_groups, t, r);
                }
                match r {
                    Ok(g) => Ok(Some(g)),
                    Err(e) => Err(FontLoadError::ParsePlist { name: GROUPS_FILE, source: e }),
                }
            },
            Ok(None) => Ok(None),
            Err(e) => Err(e),
        }
    } else {
        Ok(None)
    };
    assert(groups is Ok ==> groups == if_requested(
        request.groups,
        parsed_file(package_text(*source, GROUPS_FILE@), parse_groups, GROUPS_FILE),
    ));
    let kerning: Result<Option<Kerning>, FontLoadError> = if request.kerning {
        match read_optional_text(source, KERNING_FILE) {
            Ok(Some(text)) => {
                let t = text.as_str();
                let r = read_kerning(t);
                proof {
                    lemma_text_answer(*read_kerning, t, r);
                }
                match r {
                    Ok(k) => Ok(Some(k)),
                    Err(e) => Err(FontLoadError::ParsePlist { name: KERNING_FILE, source: e }),
                }
            },
            Ok(None) => Ok(None),
            Err(e) => Err(e),
        }
    } else {
        Ok(None)
    };
    assert(kerning is Ok ==> kerning == if_requested(
        request.kerning,
        parsed_file(package_text(*source, KERNING_FILE@), parse_kerning, KERNING_FILE),
    ));
    let ghost g_meta = meta;
    let ghost g_lib = lib_view(lib_text);
    let ghost g_info = font_info;
    let ghost g_groups = groups;
    let ghost g_kerning = kerning;
    let (meta, lib, font_info, groups, kerning) = match font_head(meta, lib_text, font_info, groups, kerning) {
        Ok(h) => h,
        Err(e) => {
            return Err(e);
        },
    };
    let mut features = String::new();
    let mut feature_files: Vec<(String, String)> = Vec::new();
    if request.features {
        match load_feature_files(source, FEATURES_FILE) {
            Ok(Some((f, ff))) => {
                features = f;
                feature_files = ff;
            },
            Ok(None) => {},
            Err(e) => {
                return Err(e);
            },
        }
    }
    let layers = match load_layer_set(source, &meta, &request.layers, custom, read_f64, read_f32) {
        Ok(ls) => ls,
        Err(e) => {
            return Err(e);
        },
    };
    Ok(Font {
        layers,
        meta,
        font_info,
        lib,
        groups,
        kerning,
        features,
        feature_files,
        data: DataStore::empty(),
        images: ImageStore::empty(),
    })
}

} // verus!
