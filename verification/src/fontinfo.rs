//! The contents of a font's `fontinfo.plist` file.

use vstd::prelude::*;

use crate::error::{FontInfoErrorKind, FontLoadError};
use crate::guideline::Guideline;
use crate::plist_ops::{dict_dictionary_keys, dict_keys, dict_remove_dictionary};
use crate::shared_types::{
    Plist, PUBLIC_OBJECT_LIBS_KEY, Bitlist, Float, Integer, IntegerOrFloat, NonNegativeInteger, NonNegativeIntegerOrFloat,
};

verus! {

/// The contents of the [`fontinfo.plist`][] file, hard-wired to the attributes of UFO version 3.
///
/// [`fontinfo.plist`]: http://unifiedfontobject.org/versions/ufo3/fontinfo.plist/
#[derive(Debug, Clone)]
pub struct FontInfo {
    /// The `ascender` entry.
    pub ascender: Option<IntegerOrFloat>,
    /// The `capHeight` entry.
    pub cap_height: Option<IntegerOrFloat>,
    /// The `copyright` entry.
    pub copyright: Option<String>,
    /// The `descender` entry.
    pub descender: Option<IntegerOrFloat>,
    /// The `familyName` entry.
    pub family_name: Option<String>,
    /// The `guidelines` entry.
    pub guidelines: Option<Vec<Guideline>>,
    /// The `italicAngle` entry.
    pub italic_angle: Option<IntegerOrFloat>,
    /// The `macintoshFONDFamilyID` entry.
    pub macintosh_fond_family_id: Option<Integer>,
    /// The `macintoshFONDName` entry.
    pub macintosh_fond_name: Option<String>,
    /// The `note` entry.
    pub note: Option<String>,
    /// The `openTypeGaspRangeRecords` entry.
    pub open_type_gasp_range_records: Option<Vec<GaspRangeRecord>>,
    /// The `openTypeHeadCreated` entry.
    pub open_type_head_created: Option<String>,
    /// The `openTypeHeadFlags` entry.
    pub open_type_head_flags: Option<Bitlist>,
    /// The `openTypeHeadLowestRecPPEM` entry.
    pub open_type_head_lowest_rec_ppem: Option<NonNegativeInteger>,
    /// The `openTypeHheaAscender` entry.
    pub open_type_hhea_ascender: Option<Integer>,
    /// The `openTypeHheaCaretOffset` entry.
    pub open_type_hhea_caret_offset: Option<Integer>,
    /// The `openTypeHheaCaretSlopeRise` entry.
    pub open_type_hhea_caret_slope_rise: Option<Integer>,
    /// The `openTypeHheaCaretSlopeRun` entry.
    pub open_type_hhea_caret_slope_run: Option<Integer>,
    /// The `openTypeHheaDescender` entry.
    pub open_type_hhea_descender: Option<Integer>,
    /// The `openTypeHheaLineGap` entry.
    pub open_type_hhea_line_gap: Option<Integer>,
    /// The `openTypeNameCompatibleFullName` entry.
    pub open_type_name_compatible_full_name: Option<String>,
    /// The `openTypeNameDescription` entry.
    pub open_type_name_description: Option<String>,
    /// The `openTypeNameDesignerURL` entry.
    pub open_type_name_designer_url: Option<String>,
    /// The `openTypeNameDesigner` entry.
    pub open_type_name_designer: Option<String>,
    /// The `openTypeNameLicenseURL` entry.
    pub open_type_name_license_url: Option<String>,
    /// The `openTypeNameLicense` entry.
    pub open_type_name_license: Option<String>,
    /// The `openTypeNameManufacturerURL` entry.
    pub open_type_name_manufacturer_url: Option<String>,
    /// The `openTypeNameManufacturer` entry.
    pub open_type_name_manufacturer: Option<String>,
    /// The `openTypeNamePreferredFamilyName` entry.
    pub open_type_name_preferred_family_name: Option<String>,
    /// The `openTypeNamePreferredSubfamilyName` entry.
    pub open_type_name_preferred_subfamily_name: Option<String>,
    /// The `openTypeNameRecords` entry.
    pub open_type_name_records: Option<Vec<NameRecord>>,
    /// The `openTypeNameSampleText` entry.
    pub open_type_name_sample_text: Option<String>,
    /// The `openTypeNameUniqueID` entry.
    pub open_type_name_unique_id: Option<String>,
    /// The `openTypeNameVersion` entry.
    pub open_type_name_version: Option<String>,
    /// The `openTypeNameWWSFamilyName` entry.
    pub open_type_name_wws_family_name: Option<String>,
    /// The `openTypeNameWWSSubfamilyName` entry.
    pub open_type_name_wws_subfamily_name: Option<String>,
    /// The `openTypeOS2CodePageRanges` entry.
    pub open_type_os2_code_page_ranges: Option<Bitlist>,
    /// The `openTypeOS2FamilyClass` entry.
    pub open_type_os2_family_class: Option<OS2FamilyClass>,
    /// The `openTypeOS2Panose` entry.
    pub open_type_os2_panose: Option<OS2Panose>,
    /// The `openTypeOS2Selection` entry.
    pub open_type_os2_selection: Option<Bitlist>,
    /// The `openTypeOS2StrikeoutPosition` entry.
    pub open_type_os2_strikeout_position: Option<Integer>,
    /// The `openTypeOS2StrikeoutSize` entry.
    pub open_type_os2_strikeout_size: Option<Integer>,
    /// The `openTypeOS2SubscriptXOffset` entry.
    pub open_type_os2_subscript_x_offset: Option<Integer>,
    /// The `openTypeOS2SubscriptXSize` entry.
    pub open_type_os2_subscript_x_size: Option<Integer>,
    /// The `openTypeOS2SubscriptYOffset` entry.
    pub open_type_os2_subscript_y_offset: Option<Integer>,
    /// The `openTypeOS2SubscriptYSize` entry.
    pub open_type_os2_subscript_y_size: Option<Integer>,
    /// The `openTypeOS2SuperscriptXOffset` entry.
    pub open_type_os2_superscript_x_offset: Option<Integer>,
    /// The `openTypeOS2SuperscriptXSize` entry.
    pub open_type_os2_superscript_x_size: Option<Integer>,
    /// The `openTypeOS2SuperscriptYOffset` entry.
    pub open_type_os2_superscript_y_offset: Option<Integer>,
    /// The `openTypeOS2SuperscriptYSize` entry.
    pub open_type_os2_superscript_y_size: Option<Integer>,
    /// The `openTypeOS2Type` entry.
    pub open_type_os2_type: Option<Bitlist>,
    /// The `openTypeOS2TypoAscender` entry.
    pub open_type_os2_typo_ascender: Option<Integer>,
    /// The `openTypeOS2TypoDescender` entry.
    pub open_type_os2_typo_descender: Option<Integer>,
    /// The `openTypeOS2TypoLineGap` entry.
    pub open_type_os2_typo_line_gap: Option<Integer>,
    /// The `openTypeOS2UnicodeRanges` entry.
    pub open_type_os2_unicode_ranges: Option<Bitlist>,
    /// The `openTypeOS2VendorID` entry.
    pub open_type_os2_vendor_id: Option<String>,
    /// The `openTypeOS2WeightClass` entry.
    pub open_type_os2_weight_class: Option<NonNegativeInteger>,
    /// The `openTypeOS2WidthClass` entry.
    pub open_type_os2_width_class: Option<OS2WidthClass>,
    /// The `openTypeOS2WinAscent` entry.
    pub open_type_os2_win_ascent: Option<NonNegativeInteger>,
    /// The `openTypeOS2WinDescent` entry.
    pub open_type_os2_win_descent: Option<NonNegativeInteger>,
    /// The `openTypeVheaCaretOffset` entry.
    pub open_type_vhea_caret_offset: Option<Integer>,
    /// The `openTypeVheaCaretSlopeRise` entry.
    pub open_type_vhea_caret_slope_rise: Option<Integer>,
    /// The `openTypeVheaCaretSlopeRun` entry.
    pub open_type_vhea_caret_slope_run: Option<Integer>,
    /// The `openTypeVheaVertTypoAscender` entry.
    pub open_type_vhea_vert_typo_ascender: Option<Integer>,
    /// The `openTypeVheaVertTypoDescender` entry.
    pub open_type_vhea_vert_typo_descender: Option<Integer>,
    /// The `openTypeVheaVertTypoLineGap` entry.
    pub open_type_vhea_vert_typo_line_gap: Option<Integer>,
    /// The `postscriptBlueFuzz` entry.
    pub postscript_blue_fuzz: Option<IntegerOrFloat>,
    /// The `postscriptBlueScale` entry.
    pub postscript_blue_scale: Option<Float>,
    /// The `postscriptBlueShift` entry.
    pub postscript_blue_shift: Option<IntegerOrFloat>,
    /// The `postscriptBlueValues` entry.
    pub postscript_blue_values: Option<Vec<IntegerOrFloat>>,
    /// The `postscriptDefaultCharacter` entry.
    pub postscript_default_character: Option<String>,
    /// The `postscriptDefaultWidthX` entry.
    pub postscript_default_width_x: Option<IntegerOrFloat>,
    /// The `postscriptFamilyBlues` entry.
    pub postscript_family_blues: Option<Vec<IntegerOrFloat>>,
    /// The `postscriptFamilyOtherBlues` entry.
    pub postscript_family_other_blues: Option<Vec<IntegerOrFloat>>,
    /// The `postscriptFontName` entry.
    pub postscript_font_name: Option<String>,
    /// The `postscriptForceBold` entry.
    pub postscript_force_bold: Option<bool>,
    /// The `postscriptFullName` entry.
    pub postscript_full_name: Option<String>,
    /// The `postscriptIsFixedPitch` entry.
    pub postscript_is_fixed_pitch: Option<bool>,
    /// The `postscriptNominalWidthX` entry.
    pub postscript_nominal_width_x: Option<IntegerOrFloat>,
    /// The `postscriptOtherBlues` entry.
    pub postscript_other_blues: Option<Vec<IntegerOrFloat>>,
    /// The `postscriptSlantAngle` entry.
    pub postscript_slant_angle: Option<IntegerOrFloat>,
    /// The `postscriptStemSnapH` entry.
    pub postscript_stem_snap_h: Option<Vec<IntegerOrFloat>>,
    /// The `postscriptStemSnapV` entry.
    pub postscript_stem_snap_v: Option<Vec<IntegerOrFloat>>,
    /// The `postscriptUnderlinePosition` entry.
    pub postscript_underline_position: Option<IntegerOrFloat>,
    /// The `postscriptUnderlineThickness` entry.
    pub postscript_underline_thickness: Option<IntegerOrFloat>,
    /// The `postscriptUniqueID` entry.
    pub postscript_unique_id: Option<Integer>,
    /// The `postscriptWeightName` entry.
    pub postscript_weight_name: Option<String>,
    /// The `postscriptWindowsCharacterSet` entry.
    pub postscript_windows_character_set: Option<PostscriptWindowsCharacterSet>,
    /// The `styleMapFamilyName` entry.
    pub style_map_family_name: Option<String>,
    /// The `styleMapStyleName` entry.
    pub style_map_style_name: Option<StyleMapStyle>,
    /// The `styleName` entry.
    pub style_name: Option<String>,
    /// The `trademark` entry.
    pub trademark: Option<String>,
    /// The `unitsPerEm` entry.
    pub units_per_em: Option<NonNegativeIntegerOrFloat>,
    /// The `versionMajor` entry.
    pub version_major: Option<Integer>,
    /// The `versionMinor` entry.
    pub version_minor: Option<NonNegativeInteger>,
    /// The `woffMajorVersion` entry.
    pub woff_major_version: Option<NonNegativeInteger>,
    /// The `woffMetadataCopyright` entry.
    pub woff_metadata_copyright: Option<WoffMetadataCopyright>,
    /// The `woffMetadataCredits` entry.
    pub woff_metadata_credits: Option<WoffMetadataCredits>,
    /// The `woffMetadataDescription` entry.
    pub woff_metadata_description: Option<WoffMetadataDescription>,
    /// The `woffMetadataExtensions` entry.
    pub woff_metadata_extensions: Option<Vec<WoffMetadataExtensionRecord>>,
    /// The `woffMetadataLicense` entry.
    pub woff_metadata_license: Option<WoffMetadataLicense>,
    /// The `woffMetadataLicensee` entry.
    pub woff_metadata_licensee: Option<WoffMetadataLicensee>,
    /// The `woffMetadataTrademark` entry.
    pub woff_metadata_trademark: Option<WoffMetadataTrademark>,
    /// The `woffMetadataUniqueID` entry.
    pub woff_metadata_unique_id: Option<WoffMetadataUniqueID>,
    /// The `woffMetadataVendor` entry.
    pub woff_metadata_vendor: Option<WoffMetadataVendor>,
    /// The `woffMinorVersion` entry.
    pub woff_minor_version: Option<NonNegativeInteger>,
    /// The `xHeight` entry.
    pub x_height: Option<IntegerOrFloat>,
    /// The `year` entry.
    pub year: Option<Integer>,
}

/// Corresponds to [gasp Range Record Format](http://unifiedfontobject.org/versions/ufo3/fontinfo.plist/#gasp-range-record-format).
#[derive(Debug, Clone, Default)]
pub struct GaspRangeRecord {
    /// The `rangeMaxPPEM` entry.
    pub range_max_ppem: NonNegativeInteger,
    /// The `rangeGaspBehavior` entry.
    pub range_gasp_behavior: Vec<GaspBehavior>,
}

/// Corresponds to [rangeGaspBehavior Bits](http://unifiedfontobject.org/versions/ufo3/fontinfo.plist/#rangegaspbehavior-bits).
///
/// The variants stand for the bits 0 to 3, in this order.
#[derive(Debug, Clone, Copy, PartialEq, Eq)]
pub enum GaspBehavior {
    /// Bit 0.
    Gridfit,
    /// Bit 1.
    DoGray,
    /// Bit 2.
    SymmetricGridfit,
    /// Bit 3.
    SymmetricSmoothing,
}

/// Corresponds to [Name Record Format](http://unifiedfontobject.org/versions/ufo3/fontinfo.plist/#name-record-format).
#[derive(Debug, Clone, Default)]
pub struct NameRecord {
    /// The `nameID` entry.
    pub name_id: NonNegativeInteger,
    /// The `platformID` entry.
    pub platform_id: NonNegativeInteger,
    /// The `encodingID` entry.
    pub encoding_id: NonNegativeInteger,
    /// The `languageID` entry.
    pub language_id: NonNegativeInteger,
    /// The `string` entry.
    pub string: String,
}

/// Corresponds to the allowed values for [openTypeOS2WidthClass](http://unifiedfontobject.org/versions/ufo3/fontinfo.plist/#opentype-os2-table-fields).
///
/// The variants stand for the values 1 to 9, in this order.
#[derive(Debug, Clone, Copy, PartialEq, Eq)]
pub enum OS2WidthClass {
    /// 1.
    UltraCondensed,
    /// 2.
    ExtraCondensed,
    /// 3.
    Condensed,
    /// 4.
    SemiCondensed,
    /// 5.
    Normal,
    /// 6.
    SemiExpanded,
    /// 7.
    Expanded,
    /// 8.
    ExtraExpanded,
    /// 9.
    UltraExpanded,
}

/// Corresponds to [openTypeOS2FamilyClass](http://unifiedfontobject.org/versions/ufo3/fontinfo.plist/#opentype-os2-table-fields).
#[derive(Debug, Clone, Copy, Default, PartialEq, Eq)]
pub struct OS2FamilyClass {
    /// The class ID, which must be in the range 0-14.
    pub class_id: u8,
    /// The subclass ID, which must be in the range 0-15.
    pub subclass_id: u8,
}

impl OS2FamilyClass {
    /// The class ID must be in the range 0-14 and the subclass ID in the range 0-15.
    pub open spec fn spec_is_valid(&self) -> bool {
        self.class_id <= 14 && self.subclass_id <= 15
    }

    /// Returns whether the class and subclass IDs are in their ranges.
    pub fn is_valid(&self) -> (res: bool)
        ensures
            res == self.spec_is_valid(),
    {
        self.class_id <= 14 && self.subclass_id <= 15
    }
}

/// Corresponds to [openTypeOS2Panose](http://unifiedfontobject.org/versions/ufo3/fontinfo.plist/#opentype-os2-table-fields).
#[derive(Debug, Clone, Copy, Default, PartialEq, Eq)]
pub struct OS2Panose {
    /// Family type.
    pub family_type: NonNegativeInteger,
    /// Serif style.
    pub serif_style: NonNegativeInteger,
    /// Weight.
    pub weight: NonNegativeInteger,
    /// Proportion.
    pub proportion: NonNegativeInteger,
    /// Contrast.
    pub contrast: NonNegativeInteger,
    /// Stroke variation.
    pub stroke_variation: NonNegativeInteger,
    /// Arm style.
    pub arm_style: NonNegativeInteger,
    /// Letterform.
    pub letterform: NonNegativeInteger,
    /// Midline.
    pub midline: NonNegativeInteger,
    /// x-height.
    pub x_height: NonNegativeInteger,
}

impl OS2Panose {
    /// Builds the PANOSE classification from its ten numbers, in the order of the specification.
    pub fn from_values(values: &Vec<NonNegativeInteger>) -> (res: Option<OS2Panose>)
        ensures
            values.len() == 10 <==> res is Some,
            res matches Some(p) ==> p.family_type == values[0] && p.serif_style == values[1]
                && p.weight == values[2] && p.proportion == values[3] && p.contrast == values[4]
                && p.stroke_variation == values[5] && p.arm_style == values[6]
                && p.letterform == values[7] && p.midline == values[8] && p.x_height == values[9],
    {
        if values.len() != 10 {
            return None;
        }
        Some(OS2Panose {
            family_type: values[0],
            serif_style: values[1],
            weight: values[2],
            proportion: values[3],
            contrast: values[4],
            stroke_variation: values[5],
            arm_style: values[6],
            letterform: values[7],
            midline: values[8],
            x_height: values[9],
        })
    }
}

/// Corresponds to postscriptWindowsCharacterSet in [PostScript Specific Data](http://unifiedfontobject.org/versions/ufo3/fontinfo.plist/#postscript-specific-data).
///
/// The variants stand for the values 1 to 20, in this order.
#[derive(Debug, Clone, Copy, PartialEq, Eq)]
pub enum PostscriptWindowsCharacterSet {
    /// 1.
    ANSI,
    /// 2.
    Default,
    /// 3.
    Symbol,
    /// 4.
    Macintosh,
    /// 5.
    ShiftJIS,
    /// 6.
    Hangul,
    /// 7.
    HangulJohab,
    /// 8.
    GB2312,
    /// 9.
    ChineseBIG5,
    /// 10.
    Greek,
    /// 11.
    Turkish,
    /// 12.
    Vietnamese,
    /// 13.
    Hebrew,
    /// 14.
    Arabic,
    /// 15.
    Baltic,
    /// 16.
    Bitstream,
    /// 17.
    Cyrillic,
    /// 18.
    Thai,
    /// 19.
    EasternEuropean,
    /// 20.
    OEM,
}

/// Corresponds to woffMetadataCopyright in [WOFF Data](http://unifiedfontobject.org/versions/ufo3/fontinfo.plist/#woff-data).
#[derive(Debug, Clone, Default)]
pub struct WoffMetadataCopyright {
    /// The text records.
    pub text: Vec<WoffMetadataTextRecord>,
}

/// Corresponds to woffMetadataCredits in [WOFF Data](http://unifiedfontobject.org/versions/ufo3/fontinfo.plist/#woff-data).
#[derive(Debug, Clone, Default)]
pub struct WoffMetadataCredits {
    /// The credit records.
    pub credits: Vec<WoffMetadataCredit>,
}

/// A credit record of the WOFF metadata.
#[derive(Debug, Clone, Default)]
pub struct WoffMetadataCredit {
    /// The credited name.
    pub name: String,
    /// An optional URL.
    pub url: Option<String>,
    /// An optional role.
    pub role: Option<String>,
    /// An optional writing direction.
    pub dir: Option<WoffAttributeDirection>,
    /// An optional class.
    pub class: Option<String>,
}

/// Corresponds to woffMetadataDescription in [WOFF Data](http://unifiedfontobject.org/versions/ufo3/fontinfo.plist/#woff-data).
#[derive(Debug, Clone, Default)]
pub struct WoffMetadataDescription {
    /// An optional URL.
    pub url: Option<String>,
    /// The text records.
    pub text: Vec<WoffMetadataTextRecord>,
}

/// A text record of the WOFF metadata.
#[derive(Debug, Clone, Default)]
pub struct WoffMetadataTextRecord {
    /// The text.
    pub text: String,
    /// An optional language.
    pub language: Option<String>,
    /// An optional writing direction.
    pub dir: Option<WoffAttributeDirection>,
    /// An optional class.
    pub class: Option<String>,
}

/// An extension record of the WOFF metadata.
#[derive(Debug, Clone, Default)]
pub struct WoffMetadataExtensionRecord {
    /// An optional identifier.
    pub id: Option<String>,
    /// The name records.
    pub names: Vec<WoffMetadataExtensionNameRecord>,
    /// The item records.
    pub items: Vec<WoffMetadataExtensionItemRecord>,
}

/// A name record of a WOFF metadata extension.
#[derive(Debug, Clone, Default)]
pub struct WoffMetadataExtensionNameRecord {
    /// The text.
    pub text: String,
    /// An optional language.
    pub language: Option<String>,
    /// An optional writing direction.
    pub dir: Option<WoffAttributeDirection>,
    /// An optional class.
    pub class: Option<String>,
}

/// An item record of a WOFF metadata extension.
#[derive(Debug, Clone, Default)]
pub struct WoffMetadataExtensionItemRecord {
    /// An optional identifier.
    pub id: Option<String>,
    /// The name records.
    pub names: Vec<WoffMetadataExtensionNameRecord>,
    /// The value records.
    pub values: Vec<WoffMetadataExtensionValueRecord>,
}

/// A value record of a WOFF metadata extension item.
#[derive(Debug, Clone, Default)]
pub struct WoffMetadataExtensionValueRecord {
    /// The text.
    pub text: String,
    /// An optional language.
    pub language: Option<String>,
    /// An optional writing direction.
    pub dir: Option<WoffAttributeDirection>,
    /// An optional class.
    pub class: Option<String>,
}

/// Corresponds to woffMetadataLicense in [WOFF Data](http://unifiedfontobject.org/versions/ufo3/fontinfo.plist/#woff-data).
#[derive(Debug, Clone, Default)]
pub struct WoffMetadataLicense {
    /// An optional URL.
    pub url: Option<String>,
    /// An optional identifier.
    pub id: Option<String>,
    /// The text records.
    pub text: Vec<WoffMetadataTextRecord>,
}

/// Corresponds to woffMetadataLicensee in [WOFF Data](http://unifiedfontobject.org/versions/ufo3/fontinfo.plist/#woff-data).
#[derive(Debug, Clone, Default)]
pub struct WoffMetadataLicensee {
    /// The licensee's name.
    pub name: String,
    /// An optional writing direction.
    pub dir: Option<WoffAttributeDirection>,
    /// An optional class.
    pub class: Option<String>,
}

/// Corresponds to woffMetadataTrademark in [WOFF Data](http://unifiedfontobject.org/versions/ufo3/fontinfo.plist/#woff-data).
#[derive(Debug, Clone, Default)]
pub struct WoffMetadataTrademark {
    /// The text records.
    pub text: Vec<WoffMetadataTextRecord>,
}

/// Corresponds to woffMetadataUniqueID in [WOFF Data](http://unifiedfontobject.org/versions/ufo3/fontinfo.plist/#woff-data).
#[derive(Debug, Clone, Default)]
pub struct WoffMetadataUniqueID {
    /// The identifier.
    pub id: String,
}

/// Corresponds to woffMetadataVendor in [WOFF Data](http://unifiedfontobject.org/versions/ufo3/fontinfo.plist/#woff-data).
#[derive(Debug, Clone, Default)]
pub struct WoffMetadataVendor {
    /// The vendor's name.
    pub name: String,
    /// The vendor's URL.
    pub url: String,
    /// An optional writing direction.
    pub dir: Option<WoffAttributeDirection>,
    /// An optional class.
    pub class: Option<String>,
}

/// The writing direction attribute used in [WOFF Data](http://unifiedfontobject.org/versions/ufo3/fontinfo.plist/#woff-data):
/// "ltr" or "rtl".
#[derive(Debug, Clone, Copy, PartialEq, Eq)]
pub enum WoffAttributeDirection {
    /// "ltr".
    LeftToRight,
    /// "rtl".
    RightToLeft,
}

/// The styleMapStyleName of [Generic Identification Information](http://unifiedfontobject.org/versions/ufo3/fontinfo.plist/#generic-identification-information):
/// "regular", "italic", "bold" or "bold italic".
#[derive(Debug, Clone, Copy, PartialEq, Eq)]
pub enum StyleMapStyle {
    /// "regular".
    Regular,
    /// "italic".
    Italic,
    /// "bold".
    Bold,
    /// "bold italic".
    BoldItalic,
}

/// The checks that [`FontInfo::validate`] makes, in the order it makes them.
#[derive(Debug, Clone, Copy, PartialEq, Eq)]
pub enum FontInfoCheck {
    /// `openTypeHeadCreated` has the form `YYYY/MM/DD HH:MM:SS`.
    HeadCreated,
    /// `openTypeGaspRangeRecords` are sorted by `rangeMaxPPEM`.
    GaspOrder,
    /// `openTypeOS2Selection` holds none of the bits 0, 5 and 6.
    Selection,
    /// `openTypeOS2FamilyClass` is in range.
    FamilyClass,
    /// `postscriptBlueValues` holds at most 14 items.
    BlueValues,
    /// `postscriptOtherBlues` holds at most 10 items.
    OtherBlues,
    /// `postscriptFamilyBlues` holds at most 14 items.
    FamilyBlues,
    /// `postscriptFamilyOtherBlues` holds at most 10 items.
    FamilyOtherBlues,
    /// `postscriptStemSnapH` holds at most 12 items.
    StemSnapH,
    /// `postscriptStemSnapV` holds at most 12 items.
    StemSnapV,
    /// `woffMetadataExtensions`, their items, and the items' names and values are not empty.
    WoffExtensions,
    /// `woffMetadataCredits` holds at least one credit.
    WoffCredits,
    /// `woffMetadataCopyright` holds at least one text.
    WoffCopyright,
    /// `woffMetadataDescription` holds at least one text.
    WoffDescription,
    /// `woffMetadataTrademark` holds at least one text.
    WoffTrademark,
}

/// True when `c` is an ASCII digit.
pub open spec fn is_digit(c: char) -> bool {
    '0' <= c <= '9'
}

/// The two-digit number at positions `i` and `i + 1` of `s`.
pub open spec fn two_digits(s: Seq<char>, i: int) -> int {
    (s[i] as int - 48) * 10 + (s[i + 1] as int - 48)
}

/// The positions of a `YYYY/MM/DD HH:MM:SS` date that hold a separator.
pub open spec fn is_date_separator_pos(i: int) -> bool {
    i == 4 || i == 7 || i == 10 || i == 13 || i == 16
}

/// True when `s` has the form `YYYY/MM/DD HH:MM:SS` with a month of at most 12, a day of
/// at most 31, an hour below 24 and minutes and seconds below 60.
pub open spec fn spec_valid_head_created(s: Seq<char>) -> bool {
    &&& s.len() == 19
    &&& forall|i: int| 0 <= i < 19 && !is_date_separator_pos(i) ==> is_digit(#[trigger] s[i])
    &&& s[4] == '/' && s[7] == '/' && s[10] == ' ' && s[13] == ':' && s[16] == ':'
    &&& two_digits(s, 5) <= 12
    &&& two_digits(s, 8) <= 31
    &&& two_digits(s, 11) < 24
    &&& two_digits(s, 14) < 60
    &&& two_digits(s, 17) < 60
}

/// True when the records are sorted by their `rangeMaxPPEM`, ascending.
pub open spec fn spec_gasp_sorted(v: Seq<GaspRangeRecord>) -> bool {
    forall|i: int| 0 < i < v.len() ==> v[i - 1].range_max_ppem <= #[trigger] v[i].range_max_ppem
}

/// True when the list holds none of the bits 0, 5 and 6.
pub open spec fn spec_selection_ok(v: Seq<u8>) -> bool {
    !v.contains(0) && !v.contains(5) && !v.contains(6)
}

/// True when an optional list holds at most `max` items.
pub open spec fn opt_len_at_most<T>(v: Option<Vec<T>>, max: nat) -> bool {
    match v {
        Some(v) => v@.len() <= max,
        None => true,
    }
}

/// True when an extension item has at least one name and at least one value.
pub open spec fn spec_item_ok(it: WoffMetadataExtensionItemRecord) -> bool {
    it.names@.len() > 0 && it.values@.len() > 0
}

/// True when an extension record has items, each of them with names and values.
pub open spec fn spec_record_ok(r: WoffMetadataExtensionRecord) -> bool {
    r.items@.len() > 0 && forall|j: int| 0 <= j < r.items@.len() ==> spec_item_ok(#[trigger] r.items@[j])
}

/// True when the extension list is absent, or holds records, each of them well formed.
pub open spec fn spec_extensions_ok(v: Option<Vec<WoffMetadataExtensionRecord>>) -> bool {
    match v {
        Some(v) => v@.len() > 0 && forall|i: int| 0 <= i < v@.len() ==> spec_record_ok(#[trigger] v@[i]),
        None => true,
    }
}

/// True when the check `c` holds of `fi`.
pub open spec fn check_holds(c: FontInfoCheck, fi: FontInfo) -> bool {
    match c {
        FontInfoCheck::HeadCreated => match fi.open_type_head_created {
            Some(s) => spec_valid_head_created(s@),
            None => true,
        },
        FontInfoCheck::GaspOrder => match fi.open_type_gasp_range_records {
            Some(v) => spec_gasp_sorted(v@),
            None => true,
        },
        FontInfoCheck::Selection => match fi.open_type_os2_selection {
            Some(v) => spec_selection_ok(v@),
            None => true,
        },
        FontInfoCheck::FamilyClass => match fi.open_type_os2_family_class {
            Some(c) => c.spec_is_valid(),
            None => true,
        },
        FontInfoCheck::BlueValues => opt_len_at_most(fi.postscript_blue_values, 14),
        FontInfoCheck::OtherBlues => opt_len_at_most(fi.postscript_other_blues, 10),
        FontInfoCheck::FamilyBlues => opt_len_at_most(fi.postscript_family_blues, 14),
        FontInfoCheck::FamilyOtherBlues => opt_len_at_most(fi.postscript_family_other_blues, 10),
        FontInfoCheck::StemSnapH => opt_len_at_most(fi.postscript_stem_snap_h, 12),
        FontInfoCheck::StemSnapV => opt_len_at_most(fi.postscript_stem_snap_v, 12),
        FontInfoCheck::WoffExtensions => spec_extensions_ok(fi.woff_metadata_extensions),
        FontInfoCheck::WoffCredits => match fi.woff_metadata_credits {
            Some(c) => c.credits@.len() > 0,
            None => true,
        },
        FontInfoCheck::WoffCopyright => match fi.woff_metadata_copyright {
            Some(c) => c.text@.len() > 0,
            None => true,
        },
        FontInfoCheck::WoffDescription => match fi.woff_metadata_description {
            Some(c) => c.text@.len() > 0,
            None => true,
        },
        FontInfoCheck::WoffTrademark => match fi.woff_metadata_trademark {
            Some(c) => c.text@.len() > 0,
            None => true,
        },
    }
}

/// The first check, in the order of [`FontInfoCheck`], that `fi` fails, if any.
pub open spec fn first_failed_check(fi: FontInfo) -> Option<FontInfoCheck> {
    if !check_holds(FontInfoCheck::HeadCreated, fi) {
        Some(FontInfoCheck::HeadCreated)
    } else if !check_holds(FontInfoCheck::GaspOrder, fi) {
        Some(FontInfoCheck::GaspOrder)
    } else if !check_holds(FontInfoCheck::Selection, fi) {
        Some(FontInfoCheck::Selection)
    } else if !check_holds(FontInfoCheck::FamilyClass, fi) {
        Some(FontInfoCheck::FamilyClass)
    } else if !check_holds(FontInfoCheck::BlueValues, fi) {
        Some(FontInfoCheck::BlueValues)
    } else if !check_holds(FontInfoCheck::OtherBlues, fi) {
        Some(FontInfoCheck::OtherBlues)
    } else if !check_holds(FontInfoCheck::FamilyBlues, fi) {
        Some(FontInfoCheck::FamilyBlues)
    } else if !check_holds(FontInfoCheck::FamilyOtherBlues, fi) {
        Some(FontInfoCheck::FamilyOtherBlues)
    } else if !check_holds(FontInfoCheck::StemSnapH, fi) {
        Some(FontInfoCheck::StemSnapH)
    } else if !check_holds(FontInfoCheck::StemSnapV, fi) {
        Some(FontInfoCheck::StemSnapV)
    } else if !check_holds(FontInfoCheck::WoffExtensions, fi) {
        Some(FontInfoCheck::WoffExtensions)
    } else if !check_holds(FontInfoCheck::WoffCredits, fi) {
        Some(FontInfoCheck::WoffCredits)
    } else if !check_holds(FontInfoCheck::WoffCopyright, fi) {
        Some(FontInfoCheck::WoffCopyright)
    } else if !check_holds(FontInfoCheck::WoffDescription, fi) {
        Some(FontInfoCheck::WoffDescription)
    } else if !check_holds(FontInfoCheck::WoffTrademark, fi) {
        Some(FontInfoCheck::WoffTrademark)
    } else {
        None
    }
}

/// True when `e` is a list-length error for the field `name`, its limit `max` and the
/// optional list `v`.
pub open spec fn is_length_error<T>(e: FontInfoErrorKind, name: Seq<char>, max: u8, v: Option<Vec<T>>) -> bool {
    &&& e matches FontInfoErrorKind::InvalidPostscriptListLength(n, m, l)
    &&& n@ == name
    &&& m == max
    &&& v matches Some(v) && l == v@.len()
}

/// True when `e` is the error that [`FontInfo::validate`] reports for a failed check `c` on `fi`.
pub open spec fn describes_failure(e: FontInfoErrorKind, c: FontInfoCheck, fi: FontInfo) -> bool {
    match c {
        FontInfoCheck::HeadCreated => e is InvalidOpenTypeHeadCreatedDate,
        FontInfoCheck::GaspOrder => e is UnsortedGaspEntries,
        FontInfoCheck::Selection => e is DisallowedSelectionBits,
        FontInfoCheck::FamilyClass => e is InvalidOs2FamilyClass,
        FontInfoCheck::BlueValues => is_length_error(e, "postscriptBlueValues"@, 14, fi.postscript_blue_values),
        FontInfoCheck::OtherBlues => is_length_error(e, "postscriptOtherBlues"@, 10, fi.postscript_other_blues),
        FontInfoCheck::FamilyBlues => is_length_error(e, "postscriptFamilyBlues"@, 14, fi.postscript_family_blues),
        FontInfoCheck::FamilyOtherBlues => is_length_error(
            e,
            "postscriptFamilyOtherBlues"@,
            10,
            fi.postscript_family_other_blues,
        ),
        FontInfoCheck::StemSnapH => is_length_error(e, "postscriptStemSnapH"@, 12, fi.postscript_stem_snap_h),
        FontInfoCheck::StemSnapV => is_length_error(e, "postscriptStemSnapV"@, 12, fi.postscript_stem_snap_v),
        FontInfoCheck::WoffExtensions => e matches FontInfoErrorKind::EmptyWoffAttribute(n) && n@
            == "woffMetadataExtensions"@,
        FontInfoCheck::WoffCredits => e matches FontInfoErrorKind::EmptyWoffAttribute(n) && n@
            == "woffMetadataCredits"@,
        FontInfoCheck::WoffCopyright => e matches FontInfoErrorKind::EmptyWoffAttribute(n) && n@
            == "woffMetadataCopyright"@,
        FontInfoCheck::WoffDescription => e matches FontInfoErrorKind::EmptyWoffAttribute(n) && n@
            == "woffMetadataDescription"@,
        FontInfoCheck::WoffTrademark => e matches FontInfoErrorKind::EmptyWoffAttribute(n) && n@
            == "woffMetadataTrademark"@,
    }
}

/// Returns whether `s` has the form `YYYY/MM/DD HH:MM:SS` within the ranges of a date and time.
pub fn valid_head_created(s: &str) -> (res: bool)
    ensures
        res == spec_valid_head_created(s@),
{
    let n = s.unicode_len();
    if n != 19 {
        return false;
    }
    let mut i: usize = 0;
    while i < 19
        invariant
            n == 19 == s@.len(),
            0 <= i <= 19,
            forall|j: int| 0 <= j < i && !is_date_separator_pos(j) ==> is_digit(#[trigger] s@[j]),
        decreases 19 - i,
    {
        if !(i == 4 || i == 7 || i == 10 || i == 13 || i == 16) {
            let c = s.get_char(i);
            if !('0' <= c && c <= '9') {
                return false;
            }
        }
        i += 1;
    }
    if !(s.get_char(4) == '/' && s.get_char(7) == '/' && s.get_char(10) == ' '
        && s.get_char(13) == ':' && s.get_char(16) == ':') {
        return false;
    }
    proof {
        assert(is_digit(s@[5]) && is_digit(s@[6]) && is_digit(s@[8]) && is_digit(s@[9]));
        assert(is_digit(s@[11]) && is_digit(s@[12]) && is_digit(s@[14]) && is_digit(s@[15]));
        assert(is_digit(s@[17]) && is_digit(s@[18]));
    }
    let month = (s.get_char(5) as u32 - 48) * 10 + (s.get_char(6) as u32 - 48);
    let day = (s.get_char(8) as u32 - 48) * 10 + (s.get_char(9) as u32 - 48);
    let hour = (s.get_char(11) as u32 - 48) * 10 + (s.get_char(12) as u32 - 48);
    let minute = (s.get_char(14) as u32 - 48) * 10 + (s.get_char(15) as u32 - 48);
    let second = (s.get_char(17) as u32 - 48) * 10 + (s.get_char(18) as u32 - 48);
    month <= 12 && day <= 31 && hour < 24 && minute < 60 && second < 60
}

fn gasp_sorted(v: &Vec<GaspRangeRecord>) -> (res: bool)
    ensures
        res == spec_gasp_sorted(v@),
{
    let mut i: usize = 1;
    while i < v.len()
        invariant
            1 <= i,
            i <= v.len() || v.len() == 0,
            forall|k: int| 0 < k < i && k < v@.len() ==> v@[k - 1].range_max_ppem <= #[trigger] v@[k].range_max_ppem,
        decreases v.len() - i,
    {
        if v[i - 1].range_max_ppem > v[i].range_max_ppem {
            return false;
        }
        i += 1;
    }
    true
}

fn selection_ok(v: &Vec<u8>) -> (res: bool)
    ensures
        res == spec_selection_ok(v@),
{
    let mut i: usize = 0;
    while i < v.len()
        invariant
            0 <= i <= v.len(),
            forall|k: int| 0 <= k < i ==> #[trigger] v@[k] != 0 && v@[k] != 5 && v@[k] != 6,
        decreases v.len() - i,
    {
        if v[i] == 0 || v[i] == 5 || v[i] == 6 {
            assert(v@[i as int] == v[i as int]);
            return false;
        }
        i += 1;
    }
    true
}

fn extensions_ok(v: &Vec<WoffMetadataExtensionRecord>) -> (res: bool)
    ensures
        res == spec_extensions_ok(Some(*v)),
{
    if v.len() == 0 {
        return false;
    }
    let mut i: usize = 0;
    while i < v.len()
        invariant
            0 <= i <= v.len(),
            forall|k: int| 0 <= k < i ==> spec_record_ok(#[trigger] v@[k]),
        decreases v.len() - i,
    {
        let r = &v[i];
        if r.items.len() == 0 {
            return false;
        }
        let mut j: usize = 0;
        while j < r.items.len()
            invariant
                0 <= i < v.len(),
                *r == v@[i as int],
                0 <= j <= r.items.len(),
                forall|k: int| 0 <= k < j ==> spec_item_ok(#[trigger] r.items@[k]),
            decreases r.items.len() - j,
        {
            if r.items[j].names.len() == 0 || r.items[j].values.len() == 0 {
                assert(!spec_item_ok(r.items@[j as int]));
                assert(!spec_record_ok(v@[i as int]));
                return false;
            }
            j += 1;
        }
        i += 1;
    }
    true
}

fn length_error(name: &str, max: u8, len: usize) -> (res: FontInfoErrorKind)
    ensures
        res matches FontInfoErrorKind::InvalidPostscriptListLength(n, m, l) && n@ == name@ && m
            == max && l == len,
{
    FontInfoErrorKind::InvalidPostscriptListLength(name.to_owned(), max, len)
}

fn empty_woff(name: &str) -> (res: FontInfoErrorKind)
    ensures
        res matches FontInfoErrorKind::EmptyWoffAttribute(n) && n@ == name@,
{
    FontInfoErrorKind::EmptyWoffAttribute(name.to_owned())
}

impl FontInfo {
    /// Validates various fields according to the [specification][].
    ///
    /// The checks are made in the order of [`FontInfoCheck`]; the first that fails
    /// decides the error.
    ///
    /// [specification]: http://unifiedfontobject.org/versions/ufo3/fontinfo.plist/
    pub fn validate(&self) -> (res: Result<(), FontInfoErrorKind>)
        ensures
            first_failed_check(*self) is None <==> res is Ok,
            first_failed_check(*self) matches Some(c) ==> (res matches Err(e) && describes_failure(e, c, *self)),
    {
        if let Some(v) = &self.open_type_head_created {
            if !valid_head_created(v.as_str()) {
                return Err(FontInfoErrorKind::InvalidOpenTypeHeadCreatedDate);
            }
        }
        if let Some(v) = &self.open_type_gasp_range_records {
            if !gasp_sorted(v) {
                return Err(FontInfoErrorKind::UnsortedGaspEntries);
            }
        }
        if let Some(v) = &self.open_type_os2_selection {
            if !selection_ok(v) {
                return Err(FontInfoErrorKind::DisallowedSelectionBits);
            }
        }
        if let Some(v) = &self.open_type_os2_family_class {
            if !v.is_valid() {
                return Err(FontInfoErrorKind::InvalidOs2FamilyClass);
            }
        }
        if let Some(v) = &self.postscript_blue_values {
            if v.len() > 14 {
                return Err(length_error("postscriptBlueValues", 14, v.len()));
            }
        }
        if let Some(v) = &self.postscript_other_blues {
            if v.len() > 10 {
                return Err(length_error("postscriptOtherBlues", 10, v.len()));
            }
        }
        if let Some(v) = &self.postscript_family_blues {
            if v.len() > 14 {
                return Err(length_error("postscriptFamilyBlues", 14, v.len()));
            }
        }
        if let Some(v) = &self.postscript_family_other_blues {
            if v.len() > 10 {
                return Err(length_error("postscriptFamilyOtherBlues", 10, v.len()));
            }
        }
        if let Some(v) = &self.postscript_stem_snap_h {
            if v.len() > 12 {
                return Err(length_error("postscriptStemSnapH", 12, v.len()));
            }
        }
        if let Some(v) = &self.postscript_stem_snap_v {
            if v.len() > 12 {
                return Err(length_error("postscriptStemSnapV", 12, v.len()));
            }
        }
        if let Some(v) = &self.woff_metadata_extensions {
            if !extensions_ok(v) {
                return Err(empty_woff("woffMetadataExtensions"));
            }
        }
        if let Some(v) = &self.woff_metadata_credits {
            if v.credits.len() == 0 {
                return Err(empty_woff("woffMetadataCredits"));
            }
        }
        if let Some(v) = &self.woff_metadata_copyright {
            if v.text.len() == 0 {
                return Err(empty_woff("woffMetadataCopyright"));
            }
        }
        if let Some(v) = &self.woff_metadata_description {
            if v.text.len() == 0 {
                return Err(empty_woff("woffMetadataDescription"));
            }
        }
        if let Some(v) = &self.woff_metadata_trademark {
            if v.text.len() == 0 {
                return Err(empty_woff("woffMetadataTrademark"));
            }
        }
        Ok(())
    }
}


/// True when the font info holds no value at all.
pub open spec fn spec_info_is_empty(fi: FontInfo) -> bool {
    &&& fi.ascender is None
    &&& fi.cap_height is None
    &&& fi.copyright is None
    &&& fi.descender is None
    &&& fi.family_name is None
    &&& fi.guidelines is None
    &&& fi.italic_angle is None
    &&& fi.macintosh_fond_family_id is None
    &&& fi.macintosh_fond_name is None
    &&& fi.note is None
    &&& fi.open_type_gasp_range_records is None
    &&& fi.open_type_head_created is None
    &&& fi.open_type_head_flags is None
    &&& fi.open_type_head_lowest_rec_ppem is None
    &&& fi.open_type_hhea_ascender is None
    &&& fi.open_type_hhea_caret_offset is None
    &&& fi.open_type_hhea_caret_slope_rise is None
    &&& fi.open_type_hhea_caret_slope_run is None
    &&& fi.open_type_hhea_descender is None
    &&& fi.open_type_hhea_line_gap is None
    &&& fi.open_type_name_compatible_full_name is None
    &&& fi.open_type_name_description is None
    &&& fi.open_type_name_designer_url is None
    &&& fi.open_type_name_designer is None
    &&& fi.open_type_name_license_url is None
    &&& fi.open_type_name_license is None
    &&& fi.open_type_name_manufacturer_url is None
    &&& fi.open_type_name_manufacturer is None
    &&& fi.open_type_name_preferred_family_name is None
    &&& fi.open_type_name_preferred_subfamily_name is None
    &&& fi.open_type_name_records is None
    &&& fi.open_type_name_sample_text is None
    &&& fi.open_type_name_unique_id is None
    &&& fi.open_type_name_version is None
    &&& fi.open_type_name_wws_family_name is None
    &&& fi.open_type_name_wws_subfamily_name is None
    &&& fi.open_type_os2_code_page_ranges is None
    &&& fi.open_type_os2_family_class is None
    &&& fi.open_type_os2_panose is None
    &&& fi.open_type_os2_selection is None
    &&& fi.open_type_os2_strikeout_position is None
    &&& fi.open_type_os2_strikeout_size is None
    &&& fi.open_type_os2_subscript_x_offset is None
    &&& fi.open_type_os2_subscript_x_size is None
    &&& fi.open_type_os2_subscript_y_offset is None
    &&& fi.open_type_os2_subscript_y_size is None
    &&& fi.open_type_os2_superscript_x_offset is None
    &&& fi.open_type_os2_superscript_x_size is None
    &&& fi.open_type_os2_superscript_y_offset is None
    &&& fi.open_type_os2_superscript_y_size is None
    &&& fi.open_type_os2_type is None
    &&& fi.open_type_os2_typo_ascender is None
    &&& fi.open_type_os2_typo_descender is None
    &&& fi.open_type_os2_typo_line_gap is None
    &&& fi.open_type_os2_unicode_ranges is None
    &&& fi.open_type_os2_vendor_id is None
    &&& fi.open_type_os2_weight_class is None
    &&& fi.open_type_os2_width_class is None
    &&& fi.open_type_os2_win_ascent is None
    &&& fi.open_type_os2_win_descent is None
    &&& fi.open_type_vhea_caret_offset is None
    &&& fi.open_type_vhea_caret_slope_rise is None
    &&& fi.open_type_vhea_caret_slope_run is None
    &&& fi.open_type_vhea_vert_typo_ascender is None
    &&& fi.open_type_vhea_vert_typo_descender is None
    &&& fi.open_type_vhea_vert_typo_line_gap is None
    &&& fi.postscript_blue_fuzz is None
    &&& fi.postscript_blue_scale is None
    &&& fi.postscript_blue_shift is None
    &&& fi.postscript_blue_values is None
    &&& fi.postscript_default_character is None
    &&& fi.postscript_default_width_x is None
    &&& fi.postscript_family_blues is None
    &&& fi.postscript_family_other_blues is None
    &&& fi.postscript_font_name is None
    &&& fi.postscript_force_bold is None
    &&& fi.postscript_full_name is None
    &&& fi.postscript_is_fixed_pitch is None
    &&& fi.postscript_nominal_width_x is None
    &&& fi.postscript_other_blues is None
    &&& fi.postscript_slant_angle is None
    &&& fi.postscript_stem_snap_h is None
    &&& fi.postscript_stem_snap_v is None
    &&& fi.postscript_underline_position is None
    &&& fi.postscript_underline_thickness is None
    &&& fi.postscript_unique_id is None
    &&& fi.postscript_weight_name is None
    &&& fi.postscript_windows_character_set is None
    &&& fi.style_map_family_name is None
    &&& fi.style_map_style_name is None
    &&& fi.style_name is None
    &&& fi.trademark is None
    &&& fi.units_per_em is None
    &&& fi.version_major is None
    &&& fi.version_minor is None
    &&& fi.woff_major_version is None
    &&& fi.woff_metadata_copyright is None
    &&& fi.woff_metadata_credits is None
    &&& fi.woff_metadata_description is None
    &&& fi.woff_metadata_extensions is None
    &&& fi.woff_metadata_license is None
    &&& fi.woff_metadata_licensee is None
    &&& fi.woff_metadata_trademark is None
    &&& fi.woff_metadata_unique_id is None
    &&& fi.woff_metadata_vendor is None
    &&& fi.woff_minor_version is None
    &&& fi.x_height is None
    &&& fi.year is None
}

impl Default for FontInfo {
    /// The font info with no value set.
    fn default() -> (res: Self)
        ensures
            spec_info_is_empty(res),
    {
        FontInfo {
            ascender: None,
            cap_height: None,
            copyright: None,
            descender: None,
            family_name: None,
            guidelines: None,
            italic_angle: None,
            macintosh_fond_family_id: None,
            macintosh_fond_name: None,
            note: None,
            open_type_gasp_range_records: None,
            open_type_head_created: None,
            open_type_head_flags: None,
            open_type_head_lowest_rec_ppem: None,
            open_type_hhea_ascender: None,
            open_type_hhea_caret_offset: None,
            open_type_hhea_caret_slope_rise: None,
            open_type_hhea_caret_slope_run: None,
            open_type_hhea_descender: None,
            open_type_hhea_line_gap: None,
            open_type_name_compatible_full_name: None,
            open_type_name_description: None,
            open_type_name_designer_url: None,
            open_type_name_designer: None,
            open_type_name_license_url: None,
            open_type_name_license: None,
            open_type_name_manufacturer_url: None,
            open_type_name_manufacturer: None,
            open_type_name_preferred_family_name: None,
            open_type_name_preferred_subfamily_name: None,
            open_type_name_records: None,
            open_type_name_sample_text: None,
            open_type_name_unique_id: None,
            open_type_name_version: None,
            open_type_name_wws_family_name: None,
            open_type_name_wws_subfamily_name: None,
            open_type_os2_code_page_ranges: None,
            open_type_os2_family_class: None,
            open_type_os2_panose: None,
            open_type_os2_selection: None,
            open_type_os2_strikeout_position: None,
            open_type_os2_strikeout_size: None,
            open_type_os2_subscript_x_offset: None,
            open_type_os2_subscript_x_size: None,
            open_type_os2_subscript_y_offset: None,
            open_type_os2_subscript_y_size: None,
            open_type_os2_superscript_x_offset: None,
            open_type_os2_superscript_x_size: None,
            open_type_os2_superscript_y_offset: None,
            open_type_os2_superscript_y_size: None,
            open_type_os2_type: None,
            open_type_os2_typo_ascender: None,
            open_type_os2_typo_descender: None,
            open_type_os2_typo_line_gap: None,
            open_type_os2_unicode_ranges: None,
            open_type_os2_vendor_id: None,
            open_type_os2_weight_class: None,
            open_type_os2_width_class: None,
            open_type_os2_win_ascent: None,
            open_type_os2_win_descent: None,
            open_type_vhea_caret_offset: None,
            open_type_vhea_caret_slope_rise: None,
            open_type_vhea_caret_slope_run: None,
            open_type_vhea_vert_typo_ascender: None,
            open_type_vhea_vert_typo_descender: None,
            open_type_vhea_vert_typo_line_gap: None,
            postscript_blue_fuzz: None,
            postscript_blue_scale: None,
            postscript_blue_shift: None,
            postscript_blue_values: None,
            postscript_default_character: None,
            postscript_default_width_x: None,
            postscript_family_blues: None,
            postscript_family_other_blues: None,
            postscript_font_name: None,
            postscript_force_bold: None,
            postscript_full_name: None,
            postscript_is_fixed_pitch: None,
            postscript_nominal_width_x: None,
            postscript_other_blues: None,
            postscript_slant_angle: None,
            postscript_stem_snap_h: None,
            postscript_stem_snap_v: None,
            postscript_underline_position: None,
            postscript_underline_thickness: None,
            postscript_unique_id: None,
            postscript_weight_name: None,
            postscript_windows_character_set: None,
            style_map_family_name: None,
            style_map_style_name: None,
            style_name: None,
            trademark: None,
            units_per_em: None,
            version_major: None,
            version_minor: None,
            woff_major_version: None,
            woff_metadata_copyright: None,
            woff_metadata_credits: None,
            woff_metadata_description: None,
            woff_metadata_extensions: None,
            woff_metadata_license: None,
            woff_metadata_licensee: None,
            woff_metadata_trademark: None,
            woff_metadata_unique_id: None,
            woff_metadata_vendor: None,
            woff_minor_version: None,
            x_height: None,
            year: None,
        }
    }
}

impl FontInfo {
    /// Returns `true` if the font info holds no value, so that it need not be written.
    pub fn is_empty(&self) -> (res: bool)
        ensures
            res == spec_info_is_empty(*self),
    {
        self.ascender.is_none() && self.cap_height.is_none() && self.copyright.is_none() && self.descender.is_none() && self.family_name.is_none() && self.guidelines.is_none() && self.italic_angle.is_none() && self.macintosh_fond_family_id.is_none() && self.macintosh_fond_name.is_none() && self.note.is_none() && self.open_type_gasp_range_records.is_none() && self.open_type_head_created.is_none() && self.open_type_head_flags.is_none() && self.open_type_head_lowest_rec_ppem.is_none() && self.open_type_hhea_ascender.is_none() && self.open_type_hhea_caret_offset.is_none() && self.open_type_hhea_caret_slope_rise.is_none() && self.open_type_hhea_caret_slope_run.is_none() && self.open_type_hhea_descender.is_none() && self.open_type_hhea_line_gap.is_none() && self.open_type_name_compatible_full_name.is_none() && self.open_type_name_description.is_none() && self.open_type_name_designer_url.is_none() && self.open_type_name_designer.is_none() && self.open_type_name_license_url.is_none() && self.open_type_name_license.is_none() && self.open_type_name_manufacturer_url.is_none() && self.open_type_name_manufacturer.is_none() && self.open_type_name_preferred_family_name.is_none() && self.open_type_name_preferred_subfamily_name.is_none() && self.open_type_name_records.is_none() && self.open_type_name_sample_text.is_none() && self.open_type_name_unique_id.is_none() && self.open_type_name_version.is_none() && self.open_type_name_wws_family_name.is_none() && self.open_type_name_wws_subfamily_name.is_none() && self.open_type_os2_code_page_ranges.is_none() && self.open_type_os2_family_class.is_none() && self.open_type_os2_panose.is_none() && self.open_type_os2_selection.is_none() && self.open_type_os2_strikeout_position.is_none() && self.open_type_os2_strikeout_size.is_none() && self.open_type_os2_subscript_x_offset.is_none() && self.open_type_os2_subscript_x_size.is_none() && self.open_type_os2_subscript_y_offset.is_none() && self.open_type_os2_subscript_y_size.is_none() && self.open_type_os2_superscript_x_offset.is_none() && self.open_type_os2_superscript_x_size.is_none() && self.open_type_os2_superscript_y_offset.is_none() && self.open_type_os2_superscript_y_size.is_none() && self.open_type_os2_type.is_none() && self.open_type_os2_typo_ascender.is_none() && self.open_type_os2_typo_descender.is_none() && self.open_type_os2_typo_line_gap.is_none() && self.open_type_os2_unicode_ranges.is_none() && self.open_type_os2_vendor_id.is_none() && self.open_type_os2_weight_class.is_none() && self.open_type_os2_width_class.is_none() && self.open_type_os2_win_ascent.is_none() && self.open_type_os2_win_descent.is_none() && self.open_type_vhea_caret_offset.is_none() && self.open_type_vhea_caret_slope_rise.is_none() && self.open_type_vhea_caret_slope_run.is_none() && self.open_type_vhea_vert_typo_ascender.is_none() && self.open_type_vhea_vert_typo_descender.is_none() && self.open_type_vhea_vert_typo_line_gap.is_none() && self.postscript_blue_fuzz.is_none() && self.postscript_blue_scale.is_none() && self.postscript_blue_shift.is_none() && self.postscript_blue_values.is_none() && self.postscript_default_character.is_none() && self.postscript_default_width_x.is_none() && self.postscript_family_blues.is_none() && self.postscript_family_other_blues.is_none() && self.postscript_font_name.is_none() && self.postscript_force_bold.is_none() && self.postscript_full_name.is_none() && self.postscript_is_fixed_pitch.is_none() && self.postscript_nominal_width_x.is_none() && self.postscript_other_blues.is_none() && self.postscript_slant_angle.is_none() && self.postscript_stem_snap_h.is_none() && self.postscript_stem_snap_v.is_none() && self.postscript_underline_position.is_none() && self.postscript_underline_thickness.is_none() && self.postscript_unique_id.is_none() && self.postscript_weight_name.is_none() && self.postscript_windows_character_set.is_none() && self.style_map_family_name.is_none() && self.style_map_style_name.is_none() && self.style_name.is_none() && self.trademark.is_none() && self.units_per_em.is_none() && self.version_major.is_none() && self.version_minor.is_none() && self.woff_major_version.is_none() && self.woff_metadata_copyright.is_none() && self.woff_metadata_credits.is_none() && self.woff_metadata_description.is_none() && self.woff_metadata_extensions.is_none() && self.woff_metadata_license.is_none() && self.woff_metadata_licensee.is_none() && self.woff_metadata_trademark.is_none() && self.woff_metadata_unique_id.is_none() && self.woff_metadata_vendor.is_none() && self.woff_minor_version.is_none() && self.x_height.is_none() && self.year.is_none()
    }
}

/// Moves the lib filed under a guideline's identifier in `object_libs` into it.
fn transfer_global_guideline_lib(guideline: &mut Guideline, object_libs: &mut Plist) -> (res: Result<(), FontLoadError>)
    ensures
        match old(guideline).spec_identifier() {
            None => res is Ok && *final(guideline) == *old(guideline) && *final(object_libs) == *old(object_libs),
            Some(id) => {
                &&& !dict_keys(*old(object_libs)).contains(id@) ==> res is Ok && *final(guideline) == *old(guideline)
                    && *final(object_libs) == *old(object_libs)
                &&& dict_dictionary_keys(*old(object_libs)).contains(id@) ==> res is Ok
                    && final(guideline).spec_lib() is Some && final(guideline).spec_identifier() == Some(id)
                    && final(guideline).spec_line() == old(guideline).spec_line()
                    && final(guideline).spec_name() == old(guideline).spec_name()
                    && final(guideline).spec_color() == old(guideline).spec_color()
                    && dict_keys(*final(object_libs)) == dict_keys(*old(object_libs)).remove(id@)
                &&& dict_keys(*old(object_libs)).contains(id@) && !dict_dictionary_keys(*old(object_libs)).contains(id@)
                    ==> (res matches Err(FontLoadError::GlobalGuidelineLibMustBeDictionary(k)) && k@ == id@)
            },
        },
{
    let key = match guideline.identifier() {
        Some(id) => crate::text::to_string(id.as_str()),
        None => {
            return Ok(());
        },
    };
    if !crate::plist_ops::dict_contains_key(object_libs, key.as_str()) {
        return Ok(());
    }
    match dict_remove_dictionary(object_libs, key.as_str()) {
        Some(Some(lib)) => {
            guideline.replace_lib(lib);
            Ok(())
        },
        Some(None) => Err(FontLoadError::GlobalGuidelineLibMustBeDictionary(key)),
        None => Ok(()),
    }
}

impl FontInfo {
    /// Moves the libs that the font's lib files under `public.objectLibs` into the
    /// font info's guidelines with those identifiers. The key leaves the font's lib.
    pub fn load_object_libs(&mut self, lib: &mut Plist) -> (res: Result<(), FontLoadError>)
        ensures
            res is Ok ==> dict_keys(*final(lib)) == dict_keys(*old(lib)).remove(PUBLIC_OBJECT_LIBS_KEY@),
            res matches Err(e) ==> (e is PublicObjectLibsMustBeDictionary || e is GlobalGuidelineLibMustBeDictionary),
            (final(self).guidelines is Some) == (old(self).guidelines is Some),
    {
        let mut object_libs = match dict_remove_dictionary(lib, PUBLIC_OBJECT_LIBS_KEY) {
            Some(Some(d)) => d,
            Some(None) => {
                return Err(FontLoadError::PublicObjectLibsMustBeDictionary);
            },
            None => {
                return Ok(());
            },
        };
        let ghost lib_keys = dict_keys(*lib);
        match self.guidelines.take() {
            Some(mut guidelines) => {
                let mut done: Vec<Guideline> = Vec::new();
                while guidelines.len() > 0
                    invariant
                        self.guidelines is None,
                        old(self).guidelines is Some,
                        dict_keys(*lib) == lib_keys,
                    decreases guidelines@.len(),
                {
                    let mut guideline = guidelines.remove(0);
                    match transfer_global_guideline_lib(&mut guideline, &mut object_libs) {
                        Ok(()) => {},
                        Err(e) => {
                            self.guidelines = Some(done);
                            return Err(e);
                        },
                    }
                    done.push(guideline);
                }
                self.guidelines = Some(done);
            },
            None => {},
        }
        Ok(())
    }
}

/// `openTypeOS2Selection` may hold any bits but 0, 5 and 6: its check fails exactly when
/// the list holds one of those three, and a font info whose other checks pass is then
/// refused for its selection bits alone, while one holding only other bits (such as 7,
/// `USE_TYPO_METRICS`, or 8) passes.
pub proof fn law_selection_bits(fi: FontInfo)
    ensures
        check_holds(FontInfoCheck::Selection, fi) <==> (fi.open_type_os2_selection matches Some(v) ==> forall|k: int|
            0 <= k < v@.len() ==> v@[k] != 0 && v@[k] != 5 && v@[k] != 6),
        (forall|c: FontInfoCheck| c != FontInfoCheck::Selection ==> #[trigger] check_holds(c, fi)) ==> ((first_failed_check(fi)
            is None) <==> (fi.open_type_os2_selection matches Some(v) ==> forall|k: int|
            0 <= k < v@.len() ==> v@[k] != 0 && v@[k] != 5 && v@[k] != 6)),
        fi.open_type_os2_selection matches Some(v) ==> ((exists|k: int| 0 <= k < v@.len() && (v@[k] == 0 || v@[k] == 5 || v@[k] == 6))
            && check_holds(FontInfoCheck::HeadCreated, fi) && check_holds(FontInfoCheck::GaspOrder, fi)
            ==> first_failed_check(fi) == Some(FontInfoCheck::Selection)),
{
    if let Some(v) = fi.open_type_os2_selection {
        if forall|k: int| 0 <= k < v@.len() ==> v@[k] != 0 && v@[k] != 5 && v@[k] != 6 {
            assert(!v@.contains(0) && !v@.contains(5) && !v@.contains(6));
        } else {
            let k = choose|k: int| 0 <= k < v@.len() && !(v@[k] != 0 && v@[k] != 5 && v@[k] != 6);
            assert(v@.contains(v@[k]));
        }
    }
    if forall|c: FontInfoCheck| c != FontInfoCheck::Selection ==> #[trigger] check_holds(c, fi) {
        assert(check_holds(FontInfoCheck::HeadCreated, fi));
        assert(check_holds(FontInfoCheck::GaspOrder, fi));
        assert(check_holds(FontInfoCheck::FamilyClass, fi));
        assert(check_holds(FontInfoCheck::BlueValues, fi));
        assert(check_holds(FontInfoCheck::OtherBlues, fi));
        assert(check_holds(FontInfoCheck::FamilyBlues, fi));
        assert(check_holds(FontInfoCheck::FamilyOtherBlues, fi));
        assert(check_holds(FontInfoCheck::StemSnapH, fi));
        assert(check_holds(FontInfoCheck::StemSnapV, fi));
        assert(check_holds(FontInfoCheck::WoffExtensions, fi));
        assert(check_holds(FontInfoCheck::WoffCredits, fi));
        assert(check_holds(FontInfoCheck::WoffCopyright, fi));
        assert(check_holds(FontInfoCheck::WoffDescription, fi));
        assert(check_holds(FontInfoCheck::WoffTrademark, fi));
    }
}

/// The PostScript hinting lists have their limits: blue values and family blues at
/// most 14 items, other blues and family other blues at most 10, the horizontal and
/// vertical stem snaps at most 12; a font info passes each of these checks exactly
/// when its list, if any, is within the limit.
pub proof fn law_postscript_list_limits(fi: FontInfo)
    ensures
        check_holds(FontInfoCheck::BlueValues, fi) <==> (fi.postscript_blue_values matches Some(v) ==> v@.len() <= 14),
        check_holds(FontInfoCheck::OtherBlues, fi) <==> (fi.postscript_other_blues matches Some(v) ==> v@.len() <= 10),
        check_holds(FontInfoCheck::FamilyBlues, fi) <==> (fi.postscript_family_blues matches Some(v) ==> v@.len() <= 14),
        check_holds(FontInfoCheck::FamilyOtherBlues, fi) <==> (fi.postscript_family_other_blues matches Some(v) ==> v@.len()
            <= 10),
        check_holds(FontInfoCheck::StemSnapH, fi) <==> (fi.postscript_stem_snap_h matches Some(v) ==> v@.len() <= 12),
        check_holds(FontInfoCheck::StemSnapV, fi) <==> (fi.postscript_stem_snap_v matches Some(v) ==> v@.len() <= 12),
{
}

} // verus!
