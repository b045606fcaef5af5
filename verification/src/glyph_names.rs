//! PostScript glyph names from the Adobe Glyph List For New Fonts.
//!
//! The table holds the list's entries for the Basic Latin and Latin-1 Supplement
//! blocks.

use vstd::prelude::*;

verus! {

/// The number of entries in [`AGLFN`].
pub const AGLFN_LEN: usize = 186;

/// Characters and their glyph names, in the order of their code points.
pub const AGLFN: [(char, &'static str); 186] = [
    (' ', "space"),
    ('!', "exclam"),
    ('"', "quotedbl"),
    ('#', "numbersign"),
    ('$', "dollar"),
    ('%', "percent"),
    ('&', "ampersand"),
    ('\'', "quotesingle"),
    ('(', "parenleft"),
    (')', "parenright"),
    ('*', "asterisk"),
    ('+', "plus"),
    (',', "comma"),
    ('-', "hyphen"),
    ('.', "period"),
    ('/', "slash"),
    ('0', "zero"),
    ('1', "one"),
    ('2', "two"),
    ('3', "three"),
    ('4', "four"),
    ('5', "five"),
    ('6', "six"),
    ('7', "seven"),
    ('8', "eight"),
    ('9', "nine"),
    (':', "colon"),
    (';', "semicolon"),
    ('<', "less"),
    ('=', "equal"),
    ('>', "greater"),
    ('?', "question"),
    ('@', "at"),
    ('A', "A"),
    ('B', "B"),
    ('C', "C"),
    ('D', "D"),
    ('E', "E"),
    ('F', "F"),
    ('G', "G"),
    ('H', "H"),
    ('I', "I"),
    ('J', "J"),
    ('K', "K"),
    ('L', "L"),
    ('M', "M"),
    ('N', "N"),
    ('O', "O"),
    ('P', "P"),
    ('Q', "Q"),
    ('R', "R"),
    ('S', "S"),
    ('T', "T"),
    ('U', "U"),
    ('V', "V"),
    ('W', "W"),
    ('X', "X"),
    ('Y', "Y"),
    ('Z', "Z"),
    ('[', "bracketleft"),
    ('\\', "backslash"),
    (']', "bracketright"),
    ('^', "asciicircum"),
    ('_', "underscore"),
    ('`', "grave"),
    ('a', "a"),
    ('b', "b"),
    ('c', "c"),
    ('d', "d"),
    ('e', "e"),
    ('f', "f"),
    ('g', "g"),
    ('h', "h"),
    ('i', "i"),
    ('j', "j"),
    ('k', "k"),
    ('l', "l"),
    ('m', "m"),
    ('n', "n"),
    ('o', "o"),
    ('p', "p"),
    ('q', "q"),
    ('r', "r"),
    ('s', "s"),
    ('t', "t"),
    ('u', "u"),
    ('v', "v"),
    ('w', "w"),
    ('x', "x"),
    ('y', "y"),
    ('z', "z"),
    ('{', "braceleft"),
    ('|', "bar"),
    ('}', "braceright"),
    ('~', "asciitilde"),
    ('\u{a1}', "exclamdown"),
    ('\u{a2}', "cent"),
    ('\u{a3}', "sterling"),
    ('\u{a4}', "currency"),
    ('\u{a5}', "yen"),
    ('\u{a6}', "brokenbar"),
    ('\u{a7}', "section"),
    ('\u{a8}', "dieresis"),
    ('\u{a9}', "copyright"),
    ('\u{aa}', "ordfeminine"),
    ('\u{ab}', "guillemotleft"),
    ('\u{ac}', "logicalnot"),
    ('\u{ae}', "registered"),
    ('\u{af}', "macron"),
    ('\u{b0}', "degree"),
    ('\u{b1}', "plusminus"),
    ('\u{b4}', "acute"),
    ('\u{b5}', "mu"),
    ('\u{b6}', "paragraph"),
    ('\u{b7}', "periodcentered"),
    ('\u{b8}', "cedilla"),
    ('\u{ba}', "ordmasculine"),
    ('\u{bb}', "guillemotright"),
    ('\u{bc}', "onequarter"),
    ('\u{bd}', "onehalf"),
    ('\u{be}', "threequarters"),
    ('\u{bf}', "questiondown"),
    ('\u{c0}', "Agrave"),
    ('\u{c1}', "Aacute"),
    ('\u{c2}', "Acircumflex"),
    ('\u{c3}', "Atilde"),
    ('\u{c4}', "Adieresis"),
    ('\u{c5}', "Aring"),
    ('\u{c6}', "AE"),
    ('\u{c7}', "Ccedilla"),
    ('\u{c8}', "Egrave"),
    ('\u{c9}', "Eacute"),
    ('\u{ca}', "Ecircumflex"),
    ('\u{cb}', "Edieresis"),
    ('\u{cc}', "Igrave"),
    ('\u{cd}', "Iacute"),
    ('\u{ce}', "Icircumflex"),
    ('\u{cf}', "Idieresis"),
    ('\u{d0}', "Eth"),
    ('\u{d1}', "Ntilde"),
    ('\u{d2}', "Ograve"),
    ('\u{d3}', "Oacute"),
    ('\u{d4}', "Ocircumflex"),
    ('\u{d5}', "Otilde"),
    ('\u{d6}', "Odieresis"),
    ('\u{d7}', "multiply"),
    ('\u{d8}', "Oslash"),
    ('\u{d9}', "Ugrave"),
    ('\u{da}', "Uacute"),
    ('\u{db}', "Ucircumflex"),
    ('\u{dc}', "Udieresis"),
    ('\u{dd}', "Yacute"),
    ('\u{de}', "Thorn"),
    ('\u{df}', "germandbls"),
    ('\u{e0}', "agrave"),
    ('\u{e1}', "aacute"),
    ('\u{e2}', "acircumflex"),
    ('\u{e3}', "atilde"),
    ('\u{e4}', "adieresis"),
    ('\u{e5}', "aring"),
    ('\u{e6}', "ae"),
    ('\u{e7}', "ccedilla"),
    ('\u{e8}', "egrave"),
    ('\u{e9}', "eacute"),
    ('\u{ea}', "ecircumflex"),
    ('\u{eb}', "edieresis"),
    ('\u{ec}', "igrave"),
    ('\u{ed}', "iacute"),
    ('\u{ee}', "icircumflex"),
    ('\u{ef}', "idieresis"),
    ('\u{f0}', "eth"),
    ('\u{f1}', "ntilde"),
    ('\u{f2}', "ograve"),
    ('\u{f3}', "oacute"),
    ('\u{f4}', "ocircumflex"),
    ('\u{f5}', "otilde"),
    ('\u{f6}', "odieresis"),
    ('\u{f7}', "divide"),
    ('\u{f8}', "oslash"),
    ('\u{f9}', "ugrave"),
    ('\u{fa}', "uacute"),
    ('\u{fb}', "ucircumflex"),
    ('\u{fc}', "udieresis"),
    ('\u{fd}', "yacute"),
    ('\u{fe}', "thorn"),
    ('\u{ff}', "ydieresis"),
];

/// The glyph name that the table gives a character: that of its first entry from
/// position `i` on with that character, if any.
pub open spec fn spec_glyph_name_from(table: Seq<(char, &'static str)>, c: char, i: int) -> Option<&'static str>
    decreases table.len() - i,
{
    if i < 0 || i >= table.len() {
        None
    } else if table[i].0 == c {
        Some(table[i].1)
    } else {
        spec_glyph_name_from(table, c, i + 1)
    }
}

/// The glyph name that the table gives a character, if any.
pub open spec fn spec_glyph_name(table: Seq<(char, &'static str)>, c: char) -> Option<&'static str> {
    spec_glyph_name_from(table, c, 0)
}

/// Given a `char`, returns the postscript name for that `char`'s glyph, if one exists
/// in the table.
pub fn glyph_name_for_char(chr: char) -> (res: Option<&'static str>)
    ensures
        res == spec_glyph_name(AGLFN@, chr),
{
    let table = AGLFN;
    let mut i: usize = 0;
    while i < AGLFN_LEN
        invariant
            table@ == AGLFN@,
            AGLFN_LEN == table@.len(),
            0 <= i <= table@.len(),
            spec_glyph_name(table@, chr) == spec_glyph_name_from(table@, chr, i as int),
        decreases AGLFN_LEN - i,
    {
        if table[i].0 == chr {
            return Some(table[i].1);
        }
        i += 1;
    }
    None
}

/// Given a glyph as text, returns its postscript name, if the text is one character
/// and the table names it.
pub fn glyph_name_for_glyph(glyph: &str) -> (res: Option<&'static str>)
    ensures
        res == (if glyph@.len() == 1 {
            spec_glyph_name(AGLFN@, glyph@[0])
        } else {
            None
        }),
{
    if glyph.unicode_len() == 1 {
        glyph_name_for_char(glyph.get_char(0))
    } else {
        None
    }
}

} // verus!
