//! Error types.

use vstd::prelude::*;

verus! {

/// The standard library's I/O error, carried through unchanged.
#[verifier::external_type_specification]
#[verifier::external_body]
pub struct ExIoError(std::io::Error);

/// The reason for a glif parse failure.
#[derive(Debug, Clone, Copy, PartialEq, Eq)]
pub enum ErrorKind {
    /// The glif version is not supported by this library.
    UnsupportedGlifVersion,
    /// An unknown point type.
    UnknownPointType,
    /// The first XML element of a glif file is invalid.
    WrongFirstElement,
    /// Missing a close tag.
    MissingCloseTag,
    /// Has an unexpected tag.
    UnexpectedTag,
    /// Has an invalid hexadecimal value.
    BadHexValue,
    /// Has an invalid numeric value.
    BadNumber,
    /// Has an invalid color value.
    BadColor,
    /// Has an invalid anchor definition.
    BadAnchor,
    /// Has an invalid point definition.
    BadPoint,
    /// Has an invalid guideline definition.
    BadGuideline,
    /// Has an invalid component definition.
    BadComponent,
    /// Has an invalid image definition.
    BadImage,
    /// Has an invalid identifier.
    BadIdentifier,
    /// Has an invalid lib.
    BadLib,
    /// Has an unexected duplicate value.
    UnexpectedDuplicate,
    /// Has an unexpected move definition.
    UnexpectedMove,
    /// Has an unexpected smooth definition.
    UnexpectedSmooth,
    /// Has an unexpected element definition.
    UnexpectedElement,
    /// Has an unexpected attribute definition.
    UnexpectedAttribute,
    /// Has an unexpected end of file definition.
    UnexpectedEof,
    /// Has an unexpected point following an off curve point definition.
    UnexpectedPointAfterOffCurve,
    /// Has too many off curve points in sequence.
    TooManyOffCurves,
    /// The contour pen path was not started
    PenPathNotStarted,
    /// Has trailing off curve points defined.
    TrailingOffCurves,
    /// Has duplicate identifiers.
    DuplicateIdentifier,
    /// Has unexepected drawing data.
    UnexpectedDrawing,
    /// Has incomplete drawing data.
    UnfinishedDrawing,
    /// Has an unexpected point field.
    UnexpectedPointField,
    /// Has an unexpected component field.
    UnexpectedComponentField,
    /// Has an unexpected anchor field.
    UnexpectedAnchorField,
    /// Has an unexpected guideline field.
    UnexpectedGuidelineField,
    /// Has an unexpected image field.
    UnexpectedImageField,
    /// An element that may occur once occurs again.
    DuplicateElement(&'static str),
    /// An element that format 1 does not have.
    UnexpectedV1Element(&'static str),
    /// An attribute that format 1 does not have.
    UnexpectedV1Attribute(&'static str),
    /// A component's base attribute is empty.
    ComponentEmptyBase,
    /// A component has no base attribute.
    ComponentMissingBase,
    /// A name is empty or holds a control character.
    InvalidName,
    /// The lib is not a dictionary.
    LibMustBeDictionary,
    /// A guideline's angle is not between 0 and 360.
    BadAngle,
}

/// The XML reader's error.
pub type XmlError = quick_xml::Error;

/// An error that occurs while reading a glif file.
#[derive(Debug)]
pub enum GlifLoadError {
    /// The file could not be read.
    Io(std::io::Error),
    /// The XML is malformed.
    Xml(quick_xml::Error),
    /// The glif data is malformed.
    Parse(ErrorKind),
    /// The glyph lib's `public.objectLibs` value is not a dictionary.
    PublicObjectLibsMustBeDictionary,
    /// The `public.objectLibs` entry for the object with this identifier is not a
    /// dictionary.
    ObjectLibMustBeDictionary(String),
}

/// An error that occurs when a name is refused.
#[derive(Debug, Clone)]
pub enum NamingError {
    /// The name is empty or holds a control character.
    Invalid(String),
    /// An item with this name exists already.
    Duplicate(String),
    /// No item has this name.
    Missing(String),
    /// The name is reserved for the default layer.
    ReservedName,
}

/// An error representing a failure to insert content into a [`crate::datastore::Store`].
#[derive(Debug)]
pub enum StoreError {
    /// Tried to insert a path whose ancestor is in the store already, implying nesting a file under a file.
    DirUnderFile,
    /// The path was empty.
    EmptyPath,
    /// The path was neither plain file nor directory, but e.g. a symlink.
    NotPlainFileOrDir,
    /// The path was absolute; only relative paths are allowed.
    PathIsAbsolute,
    /// The path was not a plain file, but e.g. a directory or symlink.
    NotPlainFile,
    /// The path contained a subdirectory; `images` is a flat directory.
    Subdir,
    /// The image did not have a valid PNG header.
    InvalidImage,
    /// Encountered an IO error while trying to load data
    Io(std::sync::Arc<std::io::Error>),
}

impl Clone for StoreError {
    fn clone(&self) -> (res: Self)
        ensures
            res == *self,
    {
        match self {
            StoreError::DirUnderFile => StoreError::DirUnderFile,
            StoreError::EmptyPath => StoreError::EmptyPath,
            StoreError::NotPlainFileOrDir => StoreError::NotPlainFileOrDir,
            StoreError::PathIsAbsolute => StoreError::PathIsAbsolute,
            StoreError::NotPlainFile => StoreError::NotPlainFile,
            StoreError::Subdir => StoreError::Subdir,
            StoreError::InvalidImage => StoreError::InvalidImage,
            StoreError::Io(e) => StoreError::Io(e.clone()),
        }
    }
}

/// An error representing a failure with a particular [`crate::datastore::Store`] entry.
#[derive(Debug, Clone)]
pub struct StoreEntryError {
    /// The path of the entry.
    pub path: String,
    /// What went wrong with it.
    pub source: StoreError,
}

impl StoreEntryError {
    /// Returns a new [`StoreEntryError`].
    pub fn new(path: String, source: StoreError) -> (res: Self)
        ensures
            res.path == path,
            res.source == source,
    {
        Self { path, source }
    }
}

/// An error representing a failure to validate UFO groups.
#[derive(Debug, Clone)]
pub enum GroupsValidationError {
    /// An error returned when there is an invalid groups name.
    InvalidName,
    /// An error returned when there are overlapping kerning groups.
    OverlappingKerningGroups {
        /// The glyph name.
        glyph_name: String,
        /// The group name.
        group_name: String,
    },
}

/// An error pointing to invalid data in the font's info.
#[derive(Debug, Clone)]
pub enum FontInfoErrorKind {
    /// The OS/2 width class is not one of the known values.
    UnknownWidthClass(String),
    /// The msCharSet is not one of the known values.
    UnknownMsCharSet(i32),
    /// The fontStyle is not one of the known values.
    UnknownFontStyle(i32),
    /// openTypeHeadCreated must be of format 'YYYY/MM/DD HH:MM:SS'.
    InvalidOpenTypeHeadCreatedDate,
    /// openTypeGaspRangeRecords must be sorted by their rangeMaxPPEM values.
    UnsortedGaspEntries,
    /// Guideline identifiers must be unique within fontinfo.plist.
    DuplicateGuidelineIdentifiers,
    /// openTypeOS2Selection must not contain bits 0, 5 or 6.
    DisallowedSelectionBits,
    /// openTypeOS2FamilyClass must be two numbers in the range 0-14 and 0-15, respectively.
    InvalidOs2FamilyClass,
    /// A Postscript list field holds more items than allowed: the field, its limit, the count found.
    InvalidPostscriptListLength(String, u8, usize),
    /// A WOFF element that must not be empty is empty.
    EmptyWoffAttribute(String),
}

/// An error representing an invalid color string.
#[derive(Debug, Clone)]
pub struct InvalidColorString {
    /// The source string that caused the error.
    pub string: String,
}

impl InvalidColorString {
    /// Returns a new [`InvalidColorString`] for the given source string.
    pub fn new(source: String) -> (res: Self)
        ensures
            res.string == source,
    {
        InvalidColorString { string: source }
    }
}

/// An error that occurs while loading a layer.
#[derive(Debug)]
pub enum LayerLoadError {
    /// The layer's `contents.plist` file is missing.
    MissingContentsFile,
    /// A property list file of the layer could not be read.
    ParsePlist {
        /// The name of the file.
        name: &'static str,
        /// The property list reader's error.
        source: plist::Error,
    },
    /// A glyph of the layer could not be loaded.
    Glyph {
        /// The glyph's file name.
        name: String,
        /// The path of the glyph's file.
        path: String,
        /// What went wrong.
        source: GlifLoadError,
    },
    /// A name in the layer's files is not a valid name.
    InvalidName(String),
}

/// An error that occurs while loading a font from a source of files.
#[derive(Debug)]
pub enum FontLoadError {
    /// The source failed to read a file.
    Source {
        /// The path of the file.
        path: String,
        /// What the source reported.
        message: String,
    },
    /// The metainfo.plist file is missing.
    MissingMetaInfoFile,
    /// The layercontents.plist file is missing.
    MissingLayerContentsFile,
    /// A feature file includes itself, directly or through other files.
    FeatureIncludeCycle {
        /// The path of the file included again.
        path: String,
    },
    /// A feature file includes a file that does not exist.
    MissingIncludedFeatureFile {
        /// The path of the missing file.
        path: String,
    },
    /// The source holds a font of a format version older than the one it can load.
    SourceUnsupportedFormatVersion,
    /// The lib file does not hold a dictionary.
    LibFileMustBeDictionary,
    /// The groups are not valid.
    InvalidGroups(GroupsValidationError),
    /// The font info is not valid.
    FontInfo(FontInfoErrorKind),
    /// The lib's `public.objectLibs` value is not a dictionary.
    PublicObjectLibsMustBeDictionary,
    /// The lib's `public.objectLibs` entry for the font info's guideline with this
    /// identifier is not a dictionary.
    GlobalGuidelineLibMustBeDictionary(String),
    /// No layer is stored in the default directory.
    MissingDefaultLayer,
    /// A property list file could not be read.
    ParsePlist {
        /// The name of the file.
        name: &'static str,
        /// The property list reader's error.
        source: plist::Error,
    },
    /// A layer could not be loaded.
    Layer {
        /// The layer's name.
        name: String,
        /// The path of the file in question.
        path: String,
        /// What went wrong.
        source: LayerLoadError,
    },
}

/// An error that occurs while writing a font to a sink of files.
#[derive(Debug)]
pub enum FontWriteError {
    /// The sink failed to write a file.
    Sink {
        /// The path of the file.
        path: String,
        /// What the sink reported.
        message: String,
    },
    /// The font's format version is older than the one this library writes.
    Downgrade,
    /// The font lib holds the `public.objectLibs` key, which the library manages itself.
    PreexistingPublicObjectLibsKey,
    /// The groups are not valid.
    InvalidGroups(GroupsValidationError),
    /// The font info is not valid.
    InvalidFontInfo(FontInfoErrorKind),
    /// An entry of the data or images store could not be loaded.
    InvalidStoreEntry {
        /// The path of the entry.
        path: String,
        /// What went wrong with it.
        source: StoreError,
    },
    /// Writing the font's `lib.plist` failed.
    WriteLib(plist::Error),
    /// Writing the font's `layercontents.plist` failed.
    WriteLayerContents(plist::Error),
    /// Preparing the files of a layer failed: the layer's name, its directory, and why.
    WriteLayer(String, String, LayerWriteError),
}

/// Errors that occur while working with font objects.
#[derive(Debug, Clone)]
pub enum FontError {
    /// An expected layer is missing.
    MissingLayer(String),
    /// A layer is duplicated.
    DuplicateLayer(String),
    /// A color definition is invalid.
    InvalidColor(InvalidColorString),
    /// A glyph is duplicated.
    DuplicateGlyph {
        /// The layer name.
        layer: String,
        /// The glyph name.
        glyph: String,
    },
    /// An expected glyph is missing.
    MissingGlyph {
        /// The layer name.
        layer: String,
        /// The glyph name.
        glyph: String,
    },
    /// Loading a font failed, for the reason given.
    UfoLoad(String),
    /// Writing a font failed, for the reason given.
    UfoWrite(String),
    /// A property list dictionary was expected at the given key.
    ExpectedPlistDictionary(String),
    /// A value that must be positive has a negative sign.
    ExpectedPositiveValue,
    /// A contour could not be converted.
    ConvertContour(ErrorKind),
}

/// An error that occurs while writing a glif file.
#[derive(Debug)]
pub enum GlifWriteError {
    /// Writing into the in-memory buffer failed.
    Buffer(std::io::Error),
    /// Writing below glyph format version 2 is not supported.
    Downgrade,
    /// The property list text of the lib did not have the shape that the library
    /// takes the lib section from.
    InternalLibWriteError,
    /// Writing the file failed.
    Io(std::io::Error),
    /// Writing the lib as a property list failed.
    Plist(plist::Error),
    /// The glyph lib holds the `public.objectLibs` key, which the library manages itself.
    PreexistingPublicObjectLibsKey,
    /// Writing the XML failed.
    Xml(quick_xml::Error),
}

/// An error that occurs while preparing the files of a layer.
#[derive(Debug)]
pub enum LayerWriteError {
    /// Writing the layer's `contents.plist` failed.
    WriteContents(plist::Error),
    /// Writing a glyph failed: the glyph's name, the path of its file, and why.
    WriteGlyph(String, String, GlifWriteError),
    /// Writing the layer's `layerinfo.plist` failed.
    WriteLayerInfo(plist::Error),
}

} // verus!
