//! The operations on property list dictionaries that the library makes.

use vstd::prelude::*;

use crate::shared_types::Plist;
use crate::text::lex_lt;

verus! {

/// The keys of a dictionary.
pub uninterp spec fn dict_keys(d: plist::Dictionary) -> Set<Seq<char>>;

/// The keys of a dictionary in the order the dictionary keeps them.
pub uninterp spec fn dict_key_order(d: plist::Dictionary) -> Seq<Seq<char>>;

/// True when the keys come in strictly increasing order, as `String`'s order, which
/// is that of their characters, ranks them.
pub open spec fn keys_sorted(keys: Seq<Seq<char>>) -> bool {
    forall|i: int, j: int| 0 <= i < j < keys.len() ==> lex_lt(#[trigger] keys[i], #[trigger] keys[j])
}

/// The keys of a dictionary whose values are dictionaries themselves.
pub uninterp spec fn dict_dictionary_keys(d: plist::Dictionary) -> Set<Seq<char>>;

/// How deeply dictionaries nest in a dictionary: one more than the deepest of the
/// dictionaries it holds as values.
pub uninterp spec fn dict_depth(d: plist::Dictionary) -> nat;

/// The entries of a dictionary whose values are strings: each such key with its string.
pub uninterp spec fn dict_strings(d: plist::Dictionary) -> Map<Seq<char>, Seq<char>>;

/// The XML property list document that `plist::to_writer_xml_with_options` writes for a
/// list of string pairs: an array that holds, for each pair, an array of its two
/// strings; indented by `indent_count` times `indent_char` per level.
pub uninterp spec fn string_pairs_xml(pairs: Seq<(Seq<char>, Seq<char>)>, indent_char: u8, indent_count: usize) -> Seq<u8>;

/// Whether the dictionary holds a `plist::Value::Uid`, at any depth: the one value that
/// an XML property list cannot hold.
pub uninterp spec fn dict_holds_uid(d: plist::Dictionary) -> bool;

/// The XML property list document that `plist::Value::to_writer_xml_with_options`
/// writes for the dictionary, indented by `indent_count` times `indent_char` per level.
pub uninterp spec fn plist_xml(d: plist::Dictionary, indent_char: u8, indent_count: usize) -> Seq<u8>;

/// `plist::Dictionary::new`: the dictionary it returns holds no key, and so no `Uid`.
#[verifier::external_body]
pub fn new_dict() -> (res: Plist)
    ensures
        dict_keys(res) == Set::<Seq<char>>::empty(),
        dict_dictionary_keys(res) == Set::<Seq<char>>::empty(),
        dict_strings(res).dom() == Set::<Seq<char>>::empty(),
        !dict_holds_uid(res),
{
    plist::Dictionary::new()
}

/// `plist::Dictionary::contains_key`: whether the key is in the dictionary.
#[verifier::external_body]
pub fn dict_contains_key(d: &Plist, key: &str) -> (res: bool)
    ensures
        res == dict_keys(*d).contains(key@),
        !res ==> !dict_dictionary_keys(*d).contains(key@) && !dict_strings(*d).contains_key(key@),
{
    d.contains_key(key)
}

/// `plist::Dictionary::is_empty`: whether the dictionary holds no key.
#[verifier::external_body]
pub fn dict_is_empty(d: &Plist) -> (res: bool)
    ensures
        res == (dict_keys(*d) == Set::<Seq<char>>::empty()),
{
    d.is_empty()
}

/// `plist::Dictionary::remove`, followed by `plist::Value::into_dictionary` on the value
/// removed. The outer `Option` says whether the key was there, the inner one whether
/// its value was a dictionary. The key leaves the dictionary.
#[verifier::external_body]
pub fn dict_remove_dictionary(d: &mut Plist, key: &str) -> (res: Option<Option<Plist>>)
    ensures
        res is Some <==> dict_keys(*old(d)).contains(key@),
        (res matches Some(inner) && inner is Some) <==> dict_dictionary_keys(*old(d)).contains(key@),
        dict_keys(*final(d)) == dict_keys(*old(d)).remove(key@),
        dict_dictionary_keys(*final(d)) == dict_dictionary_keys(*old(d)).remove(key@),
        res matches Some(Some(inner)) ==> dict_depth(inner) < dict_depth(*old(d)),
        dict_depth(*final(d)) <= dict_depth(*old(d)),
        dict_strings(*final(d)) == dict_strings(*old(d)).remove(key@),
        (res matches Some(Some(_))) ==> !dict_strings(*old(d)).contains_key(key@),
{
    d.remove(key).map(|v| v.into_dictionary())
}

/// `plist::Dictionary::insert` of a dictionary value under `key`.
#[verifier::external_body]
pub fn dict_insert_dictionary(d: &mut Plist, key: String, value: Plist)
    ensures
        dict_keys(*final(d)) == dict_keys(*old(d)).insert(key@),
        dict_dictionary_keys(*final(d)) == dict_dictionary_keys(*old(d)).insert(key@),
        dict_depth(*final(d)) <= if dict_depth(*old(d)) > dict_depth(value) + 1 {
            dict_depth(*old(d))
        } else {
            dict_depth(value) + 1
        },
        dict_strings(*final(d)) == dict_strings(*old(d)).remove(key@),
{
    d.insert(key, plist::Value::Dictionary(value));
}

/// `plist::Dictionary::sort_keys`: the same entries, the keys in sorted order.
#[verifier::external_body]
pub fn dict_sort_keys(d: &mut Plist)
    ensures
        dict_keys(*final(d)) == dict_keys(*old(d)),
        dict_dictionary_keys(*final(d)) == dict_dictionary_keys(*old(d)),
        dict_depth(*final(d)) == dict_depth(*old(d)),
        dict_strings(*final(d)) == dict_strings(*old(d)),
        keys_sorted(dict_key_order(*final(d))),
        dict_key_order(*final(d)).to_set() == dict_keys(*final(d)),
{
    d.sort_keys();
}

/// `plist::Dictionary::insert` of a string value under `key`; a string is no `Uid`, so
/// a dictionary without one stays without one.
#[verifier::external_body]
pub fn dict_insert_string(d: &mut Plist, key: String, value: String)
    ensures
        dict_keys(*final(d)) == dict_keys(*old(d)).insert(key@),
        dict_dictionary_keys(*final(d)) == dict_dictionary_keys(*old(d)).remove(key@),
        dict_strings(*final(d)) == dict_strings(*old(d)).insert(key@, value@),
        !dict_holds_uid(*old(d)) ==> !dict_holds_uid(*final(d)),
{
    d.insert(key, plist::Value::String(value));
}

/// `plist::to_writer_xml_with_options` on the list of string pairs, into memory, with
/// `plist::XmlWriteOptions::indent`. Arrays of strings written into memory give no
/// error: the writer fails only on a `Uid` or on a write to its output that fails.
#[verifier::external_body]
pub fn string_pairs_to_xml(pairs: &Vec<(String, String)>, indent_char: u8, indent_count: usize) -> (res: Result<Vec<u8>, plist::Error>)
    ensures
        res is Ok,
        res matches Ok(b) ==> b@ == string_pairs_xml(pair_texts(pairs@), indent_char, indent_count),
{
    let mut out: Vec<u8> = Vec::new();
    let options = plist::XmlWriteOptions::default().indent(indent_char, indent_count);
    plist::to_writer_xml_with_options(&mut out, pairs, &options).map(|_| out)
}

/// `plist::Dictionary::keys`, each cloned: the keys in the dictionary's order.
#[verifier::external_body]
pub fn dict_key_list(d: &Plist) -> (res: Vec<String>)
    ensures
        forall|k: Seq<char>| dict_keys(*d).contains(k) <==> exists|i: int| 0 <= i < res@.len() && #[trigger] res@[i]@ == k,
{
    d.keys().cloned().collect()
}

/// `plist::Dictionary::get`: whether the key holds a dictionary.
#[verifier::external_body]
pub fn dict_holds_dictionary(d: &Plist, key: &str) -> (res: bool)
    ensures
        res == dict_dictionary_keys(*d).contains(key@),
{
    matches!(d.get(key), Some(plist::Value::Dictionary(_)))
}

/// `plist::Value::to_writer_xml_with_options` on the dictionary, into memory, with
/// `plist::XmlWriteOptions::indent`. Into memory, it fails exactly where the
/// dictionary holds a `Uid`, which XML cannot write.
#[verifier::external_body]
pub fn dict_to_xml(d: &Plist, indent_char: u8, indent_count: usize) -> (res: Result<Vec<u8>, plist::Error>)
    ensures
        res matches Ok(b) ==> b@ == plist_xml(*d, indent_char, indent_count),
        res is Ok <==> !dict_holds_uid(*d),
{
    let mut out: Vec<u8> = Vec::new();
    let options = plist::XmlWriteOptions::default().indent(indent_char, indent_count);
    let value = plist::Value::Dictionary(d.clone());
    value.to_writer_xml_with_options(&mut out, &options).map(|_| out)
}

/// A list of string pairs by the characters of its strings.
pub open spec fn pair_texts(pairs: Seq<(String, String)>) -> Seq<(Seq<char>, Seq<char>)> {
    pairs.map_values(|p: (String, String)| (p.0@, p.1@))
}

/// Sorts the keys of the dictionary, and of every dictionary it holds as a value,
/// at every depth.
pub fn sort_keys_recursively(d: &mut Plist)
    ensures
        keys_sorted(dict_key_order(*final(d))),
        dict_key_order(*final(d)).to_set() == dict_keys(*final(d)),
        dict_keys(*final(d)) == dict_keys(*old(d)),
        dict_dictionary_keys(*final(d)) == dict_dictionary_keys(*old(d)),
        dict_strings(*final(d)) == dict_strings(*old(d)),
        dict_depth(*final(d)) <= dict_depth(*old(d)),
    decreases dict_depth(*old(d)),
{
    let ghost top = dict_depth(*d);
    let keys = dict_key_list(d);
    let mut i: usize = 0;
    while i < keys.len()
        invariant
            i <= keys@.len(),
            dict_keys(*d) == dict_keys(*old(d)),
            dict_dictionary_keys(*d) == dict_dictionary_keys(*old(d)),
            dict_strings(*d) == dict_strings(*old(d)),
            dict_depth(*d) <= top,
            top == dict_depth(*old(d)),
        decreases keys@.len() - i,
    {
        let key = &keys[i];
        if dict_holds_dictionary(d, key.as_str()) {
            let ghost before = *d;
            match dict_remove_dictionary(d, key.as_str()) {
                Some(Some(mut inner)) => {
                    sort_keys_recursively(&mut inner);
                    dict_insert_dictionary(d, key.clone(), inner);
                    assert(dict_keys(*d) =~= dict_keys(before));
                    assert(dict_dictionary_keys(*d) =~= dict_dictionary_keys(before));
                    assert(dict_strings(*d) =~= dict_strings(before));
                },
                _ => {},
            }
        }
        i += 1;
    }
    dict_sort_keys(d);
}

/// `Clone::clone` on a dictionary: an equal dictionary.
pub assume_specification[ <plist::Dictionary as std::clone::Clone>::clone ](d: &plist::Dictionary) -> (res: plist::Dictionary)
    ensures
        res == *d,
;

/// What `plist::Value::from_reader_xml` reads from the bytes, followed by
/// `plist::Value::into_dictionary`: `None` where reading fails; `Some(None)` where the
/// root is not a dictionary; otherwise the dictionary's keys and its string entries.
pub uninterp spec fn xml_dictionary(bytes: Seq<u8>) -> Option<Option<(Set<Seq<char>>, Map<Seq<char>, Seq<char>>)>>;

/// `plist::Value::from_reader_xml` on the bytes, followed by
/// `plist::Value::into_dictionary`: `Ok(None)` where the bytes hold a property list whose
/// root is not a dictionary. The dictionary read is stated by its keys and its string
/// entries.
#[verifier::external_body]
pub fn parse_xml_dictionary(bytes: &[u8]) -> (res: Result<Option<Plist>, plist::Error>)
    ensures
        match res {
            Ok(Some(d)) => xml_dictionary(bytes@) == Some(Some((dict_keys(d), dict_strings(d)))),
            Ok(None) => xml_dictionary(bytes@) == Some(None::<(Set<Seq<char>>, Map<Seq<char>, Seq<char>>)>),
            Err(_) => xml_dictionary(bytes@) is None,
        },
{
    plist::Value::from_reader_xml(bytes).map(|v| v.into_dictionary())
}

/// The `plist` crate's error, carried through unchanged.
#[verifier::external_type_specification]
#[verifier::external_body]
pub struct ExPlistError(plist::Error);

} // verus!
