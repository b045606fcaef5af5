//! The substitution rules and localized strings of designspace documents.

use vstd::prelude::*;

use crate::name::Name;
use crate::shared_types::{Float32Bits, FloatBits, Plist};

verus! {

/// Whether a flag is unset, so that it need not be written.
pub fn is_false(value: &bool) -> (res: bool)
    ensures
        res == !*value,
{
    !*value
}

/// A localised string for UI use.
#[derive(Debug)]
pub struct LocalizedString {
    /// Language tag, e.g. `"fa-IR"`.
    pub language: String,
    /// The label name.
    pub string: String,
}

/// Whether substitution rules are applied before or after other glyph substitution
/// features.
#[derive(Debug, Clone, Copy, PartialEq, Eq, Structural)]
pub enum RuleProcessing {
    /// Apply before other substitution features.
    First,
    /// Apply after other substitution features.
    Last,
}

impl Default for RuleProcessing {
    fn default() -> (res: Self)
        ensures
            res == RuleProcessing::First,
    {
        RuleProcessing::First
    }
}

/// A single substitution: the glyph `name` is substituted `with` another.
#[derive(Debug)]
pub struct Substitution {
    /// Substitute this glyph...
    pub name: Name,
    /// ...with this one.
    pub with: Name,
}

/// A single condition on an axis.
#[derive(Debug)]
pub struct Condition {
    /// The name of the axis.
    pub name: String,
    /// Lower bound in design space coordinates.
    pub minimum: Option<FloatBits>,
    /// Upper bound in design space coordinates.
    pub maximum: Option<FloatBits>,
}

/// A set of conditions that must all be met for a rule to apply.
#[derive(Debug)]
pub struct ConditionSet {
    /// The conditions.
    pub conditions: Vec<Condition>,
}

/// A single set of substitution rules.
#[derive(Debug)]
pub struct Rule {
    /// Name of the rule.
    pub name: Option<String>,
    /// Condition sets. If any condition set is true or is empty, the rule is applied.
    pub condition_sets: Vec<ConditionSet>,
    /// Substitutions (in, out).
    pub substitutions: Vec<Substitution>,
}

/// A rule as a document writes it: its condition sets, and the conditions that stand
/// directly inside the rule, outside any condition set.
#[derive(Debug)]
pub struct RawRule {
    /// Name of the rule.
    pub name: Option<String>,
    /// The condition sets.
    pub condition_sets: Vec<ConditionSet>,
    /// The conditions outside any condition set.
    pub conditions: Vec<Condition>,
    /// Substitutions (in, out).
    pub substitutions: Vec<Substitution>,
}

impl Rule {
    /// Makes a rule from what a document holds. Conditions outside any condition set
    /// become one more condition set, after the others.
    pub fn from_raw(raw: RawRule) -> (res: Rule)
        ensures
            res.name == raw.name,
            res.substitutions == raw.substitutions,
            raw.conditions@.len() == 0 ==> res.condition_sets@ == raw.condition_sets@,
            raw.conditions@.len() > 0 ==> res.condition_sets@.len() == raw.condition_sets@.len() + 1
                && res.condition_sets@.drop_last() == raw.condition_sets@
                && res.condition_sets@.last().conditions@ == raw.conditions@,
    {
        let RawRule { name, condition_sets, conditions, substitutions } = raw;
        let mut condition_sets = condition_sets;
        if conditions.len() > 0 {
            condition_sets.push(ConditionSet { conditions });
        }
        Rule { name, condition_sets, substitutions }
    }

    /// The rule as a document writes it: every condition inside a condition set.
    pub fn into_raw(self) -> (res: RawRule)
        ensures
            res.name == self.name,
            res.condition_sets == self.condition_sets,
            res.conditions@.len() == 0,
            res.substitutions == self.substitutions,
    {
        RawRule {
            name: self.name,
            condition_sets: self.condition_sets,
            conditions: Vec::new(),
            substitutions: self.substitutions,
        }
    }
}

/// A [design space location] on one axis.
///
/// [design space location]: https://fonttools.readthedocs.io/en/latest/designspaceLib/xml.html#location-element-source
#[derive(Debug, Clone)]
pub struct Dimension {
    /// Name of the axis, e.g. Weight.
    pub name: String,
    /// Value on the axis in user coordinates.
    pub uservalue: Option<FloatBits>,
    /// Value on the axis in design coordinates.
    pub xvalue: Option<FloatBits>,
    /// Separate value for anisotropic interpolations.
    pub yvalue: Option<FloatBits>,
}

/// The portion of an axis included in a variable font.
#[derive(Debug, Clone, Copy, PartialEq, Eq, Structural)]
pub enum SubsetValue {
    /// A range of the axis, in user coordinates. Each value is optional, and missing
    /// values are taken from the parent axis; if all are missing, the subset is the
    /// whole axis.
    Range {
        /// The lower end of the range; the axis minimum if missing.
        minimum: Option<FloatBits>,
        /// The default value; the axis default, clamped to the range, if missing.
        default: Option<FloatBits>,
        /// The upper end of the range; the axis maximum if missing.
        maximum: Option<FloatBits>,
    },
    /// A single point on the axis, in user coordinates (`uservalue`).
    Discrete(FloatBits),
}

impl Default for SubsetValue {
    fn default() -> (res: Self)
        ensures
            res == (SubsetValue::Range { minimum: None, default: None, maximum: None }),
    {
        SubsetValue::Range { minimum: None, default: None, maximum: None }
    }
}

impl SubsetValue {
    /// Returns `true` if this subset covers the whole axis: a range with no value set,
    /// which is written as an `<axis-subset>` with only a name.
    pub fn is_full(&self) -> (res: bool)
        ensures
            res == (*self == SubsetValue::Range { minimum: None, default: None, maximum: None }),
    {
        match self {
            SubsetValue::Range { minimum, default, maximum } => minimum.is_none() && default.is_none()
                && maximum.is_none(),
            SubsetValue::Discrete(_) => false,
        }
    }
}

/// An axis included in a variable font, and how much of it.
#[derive(Debug, Clone)]
pub struct AxisSubset {
    /// The name of the axis being subset.
    pub name: String,
    /// How much of the axis is included in the variable font.
    pub value: SubsetValue,
}

/// An `<axis-subset>` element as a document holds it.
#[derive(Debug, Clone)]
pub struct RawAxisSubset {
    /// The name of the axis.
    pub name: String,
    /// The `userminimum` attribute.
    pub user_minimum: Option<FloatBits>,
    /// The `userdefault` attribute.
    pub user_default: Option<FloatBits>,
    /// The `usermaximum` attribute.
    pub user_maximum: Option<FloatBits>,
    /// The `uservalue` attribute.
    pub user_value: Option<FloatBits>,
}

/// An error encountered while interpreting an `<axis-subset>` element.
#[derive(Debug, Clone, Copy, PartialEq, Eq)]
pub struct AxisSubsetError(pub &'static str);

/// What the error of an `<axis-subset>` element that mixes a value and a range says.
pub const MIXED_AXIS_SUBSET: &'static str = "axis-subset element with uservalue must not have userminimum/userdefault/usermaximum";

impl AxisSubset {
    /// Interprets an `<axis-subset>` element: a `uservalue` makes a single point,
    /// which no range attribute may accompany; otherwise the range attributes make a
    /// range.
    pub fn from_raw(raw: RawAxisSubset) -> (res: Result<AxisSubset, AxisSubsetError>)
        ensures
            res is Err <==> raw.user_value is Some && (raw.user_minimum is Some || raw.user_default is Some
                || raw.user_maximum is Some),
            res matches Err(e) ==> e.0@ == MIXED_AXIS_SUBSET@,
            res matches Ok(a) ==> a.name == raw.name && a.value == match raw.user_value {
                Some(v) => SubsetValue::Discrete(v),
                None => SubsetValue::Range {
                    minimum: raw.user_minimum,
                    default: raw.user_default,
                    maximum: raw.user_maximum,
                },
            },
    {
        let RawAxisSubset { name, user_minimum, user_default, user_maximum, user_value } = raw;
        let value = match user_value {
            Some(v) => {
                if user_minimum.is_some() || user_default.is_some() || user_maximum.is_some() {
                    return Err(AxisSubsetError(MIXED_AXIS_SUBSET));
                }
                SubsetValue::Discrete(v)
            },
            None => SubsetValue::Range { minimum: user_minimum, default: user_default, maximum: user_maximum },
        };
        Ok(AxisSubset { name, value })
    }

    /// The `<axis-subset>` element of the subset: the range's attributes, or the
    /// single point's `uservalue`.
    pub fn into_raw(self) -> (res: RawAxisSubset)
        ensures
            res.name == self.name,
            match self.value {
                SubsetValue::Range { minimum, default, maximum } => res.user_minimum == minimum
                    && res.user_default == default && res.user_maximum == maximum && res.user_value is None,
                SubsetValue::Discrete(v) => res.user_value == Some(v) && res.user_minimum is None
                    && res.user_default is None && res.user_maximum is None,
            },
    {
        let AxisSubset { name, value } = self;
        match value {
            SubsetValue::Range { minimum, default, maximum } => RawAxisSubset {
                name,
                user_minimum: minimum,
                user_default: default,
                user_maximum: maximum,
                user_value: None,
            },
            SubsetValue::Discrete(v) => RawAxisSubset {
                name,
                user_minimum: None,
                user_default: None,
                user_maximum: None,
                user_value: Some(v),
            },
        }
    }
}

/// A single axis mapping entry with input and output locations.
#[derive(Debug, Clone)]
pub struct AxisMappingEntry {
    /// Optional description of this mapping.
    pub description: Option<String>,
    /// The input location in designspace coordinates.
    pub input: Vec<Dimension>,
    /// The output location in designspace coordinates.
    pub output: Vec<Dimension>,
}

/// A group of axis mappings for avar2-style mappings.
#[derive(Debug, Clone)]
pub struct AxisMappings {
    /// Optional description of this mappings group.
    pub description: Option<String>,
    /// The individual axis mappings.
    pub mappings: Vec<AxisMappingEntry>,
}

impl AxisMappings {
    /// Returns `true` if there are no mappings.
    pub fn is_empty(&self) -> (res: bool)
        ensures
            res == (self.mappings@.len() == 0),
    {
        self.mappings.len() == 0
    }
}

/// An instance of a designspace: a font that the document describes.
#[derive(Debug)]
pub struct Instance {
    /// The family name of the instance font. Corresponds with font.info.familyName
    pub familyname: Option<String>,
    /// The style name of the instance font. Corresponds with font.info.styleName
    pub stylename: Option<String>,
    /// A unique name that can be used to identify this font if it needs to be
    /// referenced elsewhere.
    pub name: Option<String>,
    /// A path to the instance file, relative to the root path of this document.
    pub filename: Option<String>,
    /// Corresponds with font.info.postscriptFontName
    pub postscriptfontname: Option<String>,
    /// Corresponds with styleMapFamilyName
    pub stylemapfamilyname: Option<String>,
    /// Corresponds with styleMapStyleName
    pub stylemapstylename: Option<String>,
    /// The name of a location label that gives this instance's location. It excludes
    /// [`Self::location`]: a document that gives both is refused, and when saving,
    /// `location` is omitted where `location_label` is set.
    pub location_label: Option<String>,
    /// Localised UI strings for the style name of the instance font.
    pub localised_style_names: Vec<LocalizedString>,
    /// Localised UI strings for the family name of the instance font.
    pub localised_family_names: Vec<LocalizedString>,
    /// Localised UI strings for the styleMapStyleName of the instance font.
    pub localised_style_map_style_names: Vec<LocalizedString>,
    /// Localised UI strings for the styleMapFamilyName of the instance font.
    pub localised_style_map_family_names: Vec<LocalizedString>,
    /// Location in designspace.
    pub location: Vec<Dimension>,
    /// Arbitrary data about this instance.
    pub lib: Plist,
}

/// An `<instance>` element as a document holds it.
#[derive(Debug)]
pub struct RawInstance {
    /// The `familyname` attribute.
    pub familyname: Option<String>,
    /// The `stylename` attribute.
    pub stylename: Option<String>,
    /// The `name` attribute.
    pub name: Option<String>,
    /// The `filename` attribute.
    pub filename: Option<String>,
    /// The `postscriptfontname` attribute.
    pub postscriptfontname: Option<String>,
    /// The `stylemapfamilyname` attribute.
    pub stylemapfamilyname: Option<String>,
    /// The `stylemapstylename` attribute.
    pub stylemapstylename: Option<String>,
    /// The `location` attribute.
    pub location_label: Option<String>,
    /// The localised style names.
    pub localised_style_names: Vec<LocalizedString>,
    /// The localised family names.
    pub localised_family_names: Vec<LocalizedString>,
    /// The localised style map style names.
    pub localised_style_map_style_names: Vec<LocalizedString>,
    /// The localised style map family names.
    pub localised_style_map_family_names: Vec<LocalizedString>,
    /// The `<location>` element.
    pub location: Vec<Dimension>,
    /// The `<lib>` element.
    pub lib: Plist,
}

/// An error produced when an `<instance>` element is malformed.
#[derive(Debug, Clone, Copy, PartialEq, Eq)]
pub struct InstanceError(pub &'static str);

/// What the error of an `<instance>` element that gives its location twice says.
pub const TWO_LOCATIONS: &'static str = "instance element must have at most one of the location attribute or the location element";

/// True when the instance and the element hold the same names, strings and lib.
pub open spec fn same_instance_text(i: Instance, r: RawInstance) -> bool {
    &&& i.familyname == r.familyname
    &&& i.stylename == r.stylename
    &&& i.name == r.name
    &&& i.filename == r.filename
    &&& i.postscriptfontname == r.postscriptfontname
    &&& i.stylemapfamilyname == r.stylemapfamilyname
    &&& i.stylemapstylename == r.stylemapstylename
    &&& i.location_label == r.location_label
    &&& i.localised_style_names == r.localised_style_names
    &&& i.localised_family_names == r.localised_family_names
    &&& i.localised_style_map_style_names == r.localised_style_map_style_names
    &&& i.localised_style_map_family_names == r.localised_style_map_family_names
    &&& i.lib == r.lib
}

impl Instance {
    /// Interprets an `<instance>` element: refused where it gives both a location
    /// label and a location.
    pub fn from_raw(raw: RawInstance) -> (res: Result<Instance, InstanceError>)
        ensures
            res is Err <==> raw.location_label is Some && raw.location@.len() > 0,
            res matches Err(e) ==> e.0@ == TWO_LOCATIONS@,
            res matches Ok(i) ==> same_instance_text(i, raw) && i.location == raw.location,
    {
        if raw.location_label.is_some() && raw.location.len() > 0 {
            return Err(InstanceError(TWO_LOCATIONS));
        }
        Ok(Instance {
            familyname: raw.familyname,
            stylename: raw.stylename,
            name: raw.name,
            filename: raw.filename,
            postscriptfontname: raw.postscriptfontname,
            stylemapfamilyname: raw.stylemapfamilyname,
            stylemapstylename: raw.stylemapstylename,
            location_label: raw.location_label,
            localised_style_names: raw.localised_style_names,
            localised_family_names: raw.localised_family_names,
            localised_style_map_style_names: raw.localised_style_map_style_names,
            localised_style_map_family_names: raw.localised_style_map_family_names,
            location: raw.location,
            lib: raw.lib,
        })
    }

    /// The `<instance>` element of the instance: a location label takes precedence
    /// over an explicit location, which is then left out.
    pub fn into_raw(self) -> (res: RawInstance)
        ensures
            same_instance_text(self, res),
            self.location_label is Some ==> res.location@.len() == 0,
            self.location_label is None ==> res.location == self.location,
    {
        let location = if self.location_label.is_some() {
            Vec::new()
        } else {
            self.location
        };
        RawInstance {
            familyname: self.familyname,
            stylename: self.stylename,
            name: self.name,
            filename: self.filename,
            postscriptfontname: self.postscriptfontname,
            stylemapfamilyname: self.stylemapfamilyname,
            stylemapstylename: self.stylemapstylename,
            location_label: self.location_label,
            localised_style_names: self.localised_style_names,
            localised_family_names: self.localised_family_names,
            localised_style_map_style_names: self.localised_style_map_style_names,
            localised_style_map_family_names: self.localised_style_map_family_names,
            location,
            lib: self.lib,
        }
    }
}

/// A mapping between user space and design space coordinates of an axis.
#[derive(Debug, Clone, Copy)]
pub struct AxisMapping {
    /// The user space coordinate.
    pub input: FloatBits,
    /// The design space coordinate.
    pub output: FloatBits,
}

/// A STAT label of an axis.
#[derive(Debug)]
pub struct AxisLabel {
    /// The name of this label.
    pub name: String,
    /// The value of this label, in user coordinates.
    pub user_value: FloatBits,
    /// The lower end of the range this label applies to, in user coordinates.
    pub user_minimum: Option<FloatBits>,
    /// The upper end of the range this label applies to, in user coordinates.
    pub user_maximum: Option<FloatBits>,
    /// Whether this label can be omitted from the style name.
    pub elidable: bool,
    /// Whether this label should sort before its siblings in the STAT table.
    pub older_sibling: bool,
    /// The user value of the label this one is linked to, e.g. by bold linking.
    pub linked_user_value: Option<FloatBits>,
    /// Localised UI strings for this label's name.
    pub label_names: Vec<LocalizedString>,
}

/// An axis of a designspace.
#[derive(Debug)]
pub struct Axis {
    /// Name of the axis that is used in the location elements.
    pub name: String,
    /// 4 letters. Some axis tags are registered in the OpenType Specification.
    pub tag: String,
    /// The default value for this axis, in user space coordinates.
    pub default: FloatBits,
    /// Records whether this axis needs to be hidden in interfaces.
    pub hidden: bool,
    /// The minimum value for a continuous axis, in user space coordinates.
    pub minimum: Option<FloatBits>,
    /// The maximum value for a continuous axis, in user space coordinates.
    pub maximum: Option<FloatBits>,
    /// The possible values for a discrete axis, in user space coordinates.
    pub values: Option<Vec<FloatBits>>,
    /// Mapping between user space coordinates and design space coordinates.
    pub map: Option<Vec<AxisMapping>>,
    /// Localised UI strings for the axis name.
    pub label_names: Vec<LocalizedString>,
    /// The STAT ordering of this axis.
    pub axis_ordering: Option<u32>,
    /// The STAT labels for this axis.
    pub axis_labels: Vec<AxisLabel>,
}

/// The `<labels>` element of an `<axis>`.
#[derive(Debug)]
pub struct RawAxisLabels {
    /// The `ordering` attribute.
    pub ordering: Option<u32>,
    /// The labels.
    pub labels: Vec<AxisLabel>,
}

impl RawAxisLabels {
    /// Whether the element holds nothing, so that it need not be written.
    pub fn is_empty(&self) -> (res: bool)
        ensures
            res == (self.ordering is None && self.labels@.len() == 0),
    {
        self.ordering.is_none() && self.labels.len() == 0
    }
}

/// An `<axis>` element as a document holds it, with its labels nested.
#[derive(Debug)]
pub struct RawAxis {
    /// The `name` attribute.
    pub name: String,
    /// The `tag` attribute.
    pub tag: String,
    /// The `default` attribute.
    pub default: FloatBits,
    /// The `hidden` attribute.
    pub hidden: bool,
    /// The `minimum` attribute.
    pub minimum: Option<FloatBits>,
    /// The `maximum` attribute.
    pub maximum: Option<FloatBits>,
    /// The `values` attribute.
    pub values: Option<Vec<FloatBits>>,
    /// The `labelname` elements.
    pub label_names: Vec<LocalizedString>,
    /// The `<map>` elements.
    pub map: Option<Vec<AxisMapping>>,
    /// The `<labels>` element.
    pub labels: RawAxisLabels,
}

impl Axis {
    /// The axis of an `<axis>` element: its labels hoisted from the `<labels>`
    /// element.
    pub fn from_raw(raw: RawAxis) -> (res: Axis)
        ensures
            res.name == raw.name && res.tag == raw.tag && res.default == raw.default && res.hidden == raw.hidden,
            res.minimum == raw.minimum && res.maximum == raw.maximum && res.values == raw.values,
            res.map == raw.map && res.label_names == raw.label_names,
            res.axis_ordering == raw.labels.ordering && res.axis_labels == raw.labels.labels,
    {
        Axis {
            name: raw.name,
            tag: raw.tag,
            default: raw.default,
            hidden: raw.hidden,
            minimum: raw.minimum,
            maximum: raw.maximum,
            values: raw.values,
            map: raw.map,
            label_names: raw.label_names,
            axis_ordering: raw.labels.ordering,
            axis_labels: raw.labels.labels,
        }
    }

    /// The `<axis>` element of the axis, its labels nested in a `<labels>` element.
    pub fn into_raw(self) -> (res: RawAxis)
        ensures
            res.name == self.name && res.tag == self.tag && res.default == self.default && res.hidden == self.hidden,
            res.minimum == self.minimum && res.maximum == self.maximum && res.values == self.values,
            res.map == self.map && res.label_names == self.label_names,
            res.labels.ordering == self.axis_ordering && res.labels.labels == self.axis_labels,
    {
        RawAxis {
            name: self.name,
            tag: self.tag,
            default: self.default,
            hidden: self.hidden,
            minimum: self.minimum,
            maximum: self.maximum,
            values: self.values,
            label_names: self.label_names,
            map: self.map,
            labels: RawAxisLabels { ordering: self.axis_ordering, labels: self.axis_labels },
        }
    }
}

/// A label that names a freestanding location.
#[derive(Debug)]
pub struct LocationLabel {
    /// The name of this label.
    pub name: String,
    /// Whether this label can be omitted from the style name.
    pub elidable: bool,
    /// Whether this label should sort before its siblings in the STAT table.
    pub older_sibling: bool,
    /// Localised UI strings for this label's name.
    pub label_names: Vec<LocalizedString>,
    /// The location this label names, in user coordinates.
    pub location: Vec<Dimension>,
}

/// A variable font that can be built from a designspace.
#[derive(Debug)]
pub struct VariableFont {
    /// The name of this variable font.
    pub name: String,
    /// The file name of this variable font, if it differs from the name.
    pub filename: Option<String>,
    /// The subset of the designspace's axes that this font covers.
    pub axis_subsets: Vec<AxisSubset>,
    /// Additional arbitrary user data.
    pub lib: Plist,
}

/// The substitution rules of a designspace.
#[derive(Debug)]
pub struct Rules {
    /// Whether the rules apply before or after other glyph substitution features.
    pub processing: RuleProcessing,
    /// The rules.
    pub rules: Vec<Rule>,
}

/// A source of a designspace.
#[derive(Debug)]
pub struct Source {
    /// The family name of the source font.
    pub familyname: Option<String>,
    /// The style name of the source font.
    pub stylename: Option<String>,
    /// A unique name that can be used to identify this font if it needs to be
    /// referenced elsewhere.
    pub name: Option<String>,
    /// A path to the source file, relative to the root path of this document.
    pub filename: String,
    /// The name of the layer in the source file; the foreground layer if missing.
    pub layer: Option<String>,
    /// Localised UI strings for the family name of the source font.
    pub localised_family_names: Vec<LocalizedString>,
    /// Location in designspace coordinates.
    pub location: Vec<Dimension>,
}

/// A designspace document.
#[derive(Debug)]
pub struct DesignSpaceDocument {
    /// The format version that the document declared.
    pub format: Float32Bits,
    /// The axes.
    pub axes: Vec<Axis>,
    /// Optional avar2-style axis mappings.
    pub axis_mappings: Option<AxisMappings>,
    /// The style name to use when all STAT labels of a location are elided.
    pub elided_fallback_name: Option<String>,
    /// Labels for freestanding locations.
    pub location_labels: Vec<LocationLabel>,
    /// The substitution rules.
    pub rules: Rules,
    /// The sources.
    pub sources: Vec<Source>,
    /// The variable fonts that can be built from the designspace.
    pub variable_fonts: Vec<VariableFont>,
    /// The instances.
    pub instances: Vec<Instance>,
    /// Additional arbitrary user data.
    pub lib: Plist,
}

/// The `<axes>` element of a document.
#[derive(Debug)]
pub struct RawAxes {
    /// The `elidedfallbackname` attribute.
    pub elided_fallback_name: Option<String>,
    /// The `<axis>` elements.
    pub axis: Vec<Axis>,
    /// The `<mappings>` element.
    pub mappings: Option<AxisMappings>,
}

/// A designspace document as its XML holds it.
#[derive(Debug)]
pub struct RawDesignSpaceDocument {
    /// The `format` attribute.
    pub format: Float32Bits,
    /// The `<axes>` element.
    pub axes: RawAxes,
    /// The `<labels>` element.
    pub location_labels: Vec<LocationLabel>,
    /// The `<rules>` element.
    pub rules: Rules,
    /// The `<sources>` element.
    pub sources: Vec<Source>,
    /// The `<variable-fonts>` element.
    pub variable_fonts: Vec<VariableFont>,
    /// The `<instances>` element.
    pub instances: Vec<Instance>,
    /// The `<lib>` element.
    pub lib: Plist,
}

/// The oldest format version that can hold a document, beyond the version it
/// declares.
#[derive(Debug, Clone, Copy, PartialEq, Eq, Structural)]
pub enum FormatRequirement {
    /// Any version: the declared one stands.
    Declared,
    /// At least 5.0, for STAT labels, discrete axes, variable fonts, localised source
    /// names or user locations of instances.
    V5,
    /// At least 5.1, for avar2-style axis mappings.
    V5_1,
}

/// True when an axis needs format 5: it is discrete or has STAT labels.
pub open spec fn axis_needs_v5(a: Axis) -> bool {
    a.values is Some || a.axis_ordering is Some || a.axis_labels@.len() > 0
}

/// True when an instance needs format 5: it names a location label or gives a user
/// location.
pub open spec fn instance_needs_v5(i: Instance) -> bool {
    i.location_label is Some || exists|k: int| 0 <= k < i.location@.len() && (#[trigger] i.location@[k]).uservalue is Some
}

/// True when the document holds anything that format 5 introduced.
pub open spec fn needs_v5(d: DesignSpaceDocument) -> bool {
    ||| exists|k: int| 0 <= k < d.axes@.len() && axis_needs_v5(#[trigger] d.axes@[k])
    ||| d.location_labels@.len() > 0
    ||| d.variable_fonts@.len() > 0
    ||| exists|k: int| 0 <= k < d.sources@.len() && (#[trigger] d.sources@[k]).localised_family_names@.len() > 0
    ||| exists|k: int| 0 <= k < d.instances@.len() && instance_needs_v5(#[trigger] d.instances@[k])
}

/// The oldest format version that can hold the document: 5.1 where it has axis
/// mappings, 5.0 where it needs format 5 otherwise.
pub open spec fn spec_format_requirement(d: DesignSpaceDocument) -> FormatRequirement {
    if d.axis_mappings matches Some(m) && m.mappings@.len() > 0 {
        FormatRequirement::V5_1
    } else if needs_v5(d) {
        FormatRequirement::V5
    } else {
        FormatRequirement::Declared
    }
}

fn instance_wants_v5(i: &Instance) -> (res: bool)
    ensures
        res == instance_needs_v5(*i),
{
    if i.location_label.is_some() {
        return true;
    }
    let mut k: usize = 0;
    while k < i.location.len()
        invariant
            k <= i.location@.len(),
            forall|j: int| 0 <= j < k ==> (#[trigger] i.location@[j]).uservalue is None,
        decreases i.location@.len() - k,
    {
        if i.location[k].uservalue.is_some() {
            return true;
        }
        k += 1;
    }
    false
}

impl DesignSpaceDocument {
    /// The oldest format version that can hold the document, beyond the version it
    /// declares: saving writes the newer of the two.
    pub fn format_requirement(&self) -> (res: FormatRequirement)
        ensures
            res == spec_format_requirement(*self),
    {
        match &self.axis_mappings {
            Some(m) => {
                if !m.is_empty() {
                    return FormatRequirement::V5_1;
                }
            },
            None => {},
        }
        if self.location_labels.len() > 0 || self.variable_fonts.len() > 0 {
            return FormatRequirement::V5;
        }
        let mut k: usize = 0;
        while k < self.axes.len()
            invariant
                k <= self.axes@.len(),
                !(self.axis_mappings matches Some(m) && m.mappings@.len() > 0),
                forall|j: int| 0 <= j < k ==> !axis_needs_v5(#[trigger] self.axes@[j]),
            decreases self.axes@.len() - k,
        {
            let a = &self.axes[k];
            if a.values.is_some() || a.axis_ordering.is_some() || a.axis_labels.len() > 0 {
                assert(axis_needs_v5(self.axes@[k as int]));
                return FormatRequirement::V5;
            }
            k += 1;
        }
        let mut k: usize = 0;
        while k < self.sources.len()
            invariant
                k <= self.sources@.len(),
                !(self.axis_mappings matches Some(m) && m.mappings@.len() > 0),
                forall|j: int| 0 <= j < k ==> (#[trigger] self.sources@[j]).localised_family_names@.len() == 0,
            decreases self.sources@.len() - k,
        {
            if self.sources[k].localised_family_names.len() > 0 {
                assert(self.sources@[k as int].localised_family_names@.len() > 0);
                return FormatRequirement::V5;
            }
            k += 1;
        }
        let mut k: usize = 0;
        while k < self.instances.len()
            invariant
                k <= self.instances@.len(),
                !(self.axis_mappings matches Some(m) && m.mappings@.len() > 0),
                self.location_labels@.len() == 0 && self.variable_fonts@.len() == 0,
                forall|j: int| 0 <= j < self.axes@.len() ==> !axis_needs_v5(#[trigger] self.axes@[j]),
                forall|j: int| 0 <= j < self.sources@.len() ==> (#[trigger] self.sources@[j]).localised_family_names@.len() == 0,
                forall|j: int| 0 <= j < k ==> !instance_needs_v5(#[trigger] self.instances@[j]),
            decreases self.instances@.len() - k,
        {
            if instance_wants_v5(&self.instances[k]) {
                assert(instance_needs_v5(self.instances@[k as int]));
                return FormatRequirement::V5;
            }
            k += 1;
        }
        FormatRequirement::Declared
    }

    /// The document of its XML: the axes, their mappings and the fallback name taken
    /// from the `<axes>` element.
    pub fn from_raw(raw: RawDesignSpaceDocument) -> (res: DesignSpaceDocument)
        ensures
            res.format == raw.format && res.axes == raw.axes.axis && res.axis_mappings == raw.axes.mappings,
            res.elided_fallback_name == raw.axes.elided_fallback_name,
            res.location_labels == raw.location_labels && res.rules == raw.rules && res.sources == raw.sources,
            res.variable_fonts == raw.variable_fonts && res.instances == raw.instances && res.lib == raw.lib,
    {
        DesignSpaceDocument {
            format: raw.format,
            axes: raw.axes.axis,
            axis_mappings: raw.axes.mappings,
            elided_fallback_name: raw.axes.elided_fallback_name,
            location_labels: raw.location_labels,
            rules: raw.rules,
            sources: raw.sources,
            variable_fonts: raw.variable_fonts,
            instances: raw.instances,
            lib: raw.lib,
        }
    }

    /// The XML of the document, declaring `format`: the version to write, which is the
    /// newer of the declared one and the one that [`Self::format_requirement`] gives.
    pub fn into_raw(self, format: Float32Bits) -> (res: RawDesignSpaceDocument)
        ensures
            res.format == format && res.axes.axis == self.axes && res.axes.mappings == self.axis_mappings,
            res.axes.elided_fallback_name == self.elided_fallback_name,
            res.location_labels == self.location_labels && res.rules == self.rules && res.sources == self.sources,
            res.variable_fonts == self.variable_fonts && res.instances == self.instances && res.lib == self.lib,
    {
        RawDesignSpaceDocument {
            format,
            axes: RawAxes {
                elided_fallback_name: self.elided_fallback_name,
                axis: self.axes,
                mappings: self.axis_mappings,
            },
            location_labels: self.location_labels,
            rules: self.rules,
            sources: self.sources,
            variable_fonts: self.variable_fonts,
            instances: self.instances,
            lib: self.lib,
        }
    }
}

} // verus!
