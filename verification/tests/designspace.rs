use norad::designspace::{
    Axis, AxisMappingEntry, AxisMappings, AxisSubset, DesignSpaceDocument, Dimension, FormatRequirement, Instance,
    RawAxisSubset, RawInstance, RuleProcessing, Rules, SubsetValue,
};
use norad::shared_types::{Float32Bits, FloatBits};

fn bits(v: f64) -> FloatBits {
    FloatBits(v.to_bits())
}

fn raw_instance(location_label: Option<&str>, location: Vec<Dimension>) -> RawInstance {
    RawInstance {
        familyname: Some("Fam".to_string()),
        stylename: Some("Bold".to_string()),
        name: None,
        filename: Some("instances/Fam-Bold.ufo".to_string()),
        postscriptfontname: None,
        stylemapfamilyname: None,
        stylemapstylename: None,
        location_label: location_label.map(|s| s.to_string()),
        localised_style_names: Vec::new(),
        localised_family_names: Vec::new(),
        localised_style_map_style_names: Vec::new(),
        localised_style_map_family_names: Vec::new(),
        location,
        lib: plist::Dictionary::new(),
    }
}

fn weight(v: f64) -> Dimension {
    Dimension { name: "Weight".to_string(), uservalue: None, xvalue: Some(bits(v)), yvalue: None }
}

#[test]
fn instance_with_both_location_forms_is_rejected() {
    let err = Instance::from_raw(raw_instance(Some("Bold"), vec![weight(700.0)])).unwrap_err();
    assert!(err.0.contains("at most one of the location"));
}

#[test]
fn instance_location_label_wins_when_written() {
    let instance = Instance::from_raw(raw_instance(Some("Bold"), Vec::new())).unwrap();
    assert_eq!(instance.location_label.as_deref(), Some("Bold"));
    let mut instance = instance;
    instance.location = vec![weight(700.0)];
    let raw = instance.into_raw();
    assert!(raw.location.is_empty());
    assert_eq!(raw.familyname.as_deref(), Some("Fam"));

    let plain = Instance::from_raw(raw_instance(None, vec![weight(300.0)])).unwrap();
    let raw = plain.into_raw();
    assert_eq!(raw.location.len(), 1);
    assert_eq!(raw.location[0].xvalue, Some(bits(300.0)));
}

#[test]
fn axis_subsets_are_a_range_or_a_point() {
    let raw = RawAxisSubset {
        name: "Weight".to_string(),
        user_minimum: Some(bits(100.0)),
        user_default: None,
        user_maximum: Some(bits(900.0)),
        user_value: None,
    };
    let subset = AxisSubset::from_raw(raw).unwrap();
    assert_eq!(subset.value, SubsetValue::Range { minimum: Some(bits(100.0)), default: None, maximum: Some(bits(900.0)) });
    assert!(!subset.value.is_full());

    let point = RawAxisSubset {
        name: "Width".to_string(),
        user_minimum: None,
        user_default: None,
        user_maximum: None,
        user_value: Some(bits(75.0)),
    };
    let subset = AxisSubset::from_raw(point).unwrap();
    assert_eq!(subset.value, SubsetValue::Discrete(bits(75.0)));
    let back = subset.into_raw();
    assert_eq!(back.user_value, Some(bits(75.0)));
    assert!(back.user_minimum.is_none() && back.user_default.is_none() && back.user_maximum.is_none());

    let mixed = RawAxisSubset {
        name: "Width".to_string(),
        user_minimum: Some(bits(50.0)),
        user_default: None,
        user_maximum: None,
        user_value: Some(bits(75.0)),
    };
    assert!(AxisSubset::from_raw(mixed).unwrap_err().0.contains("must not have"));

    assert!(SubsetValue::default().is_full());
    let whole = AxisSubset { name: "Weight".to_string(), value: SubsetValue::default() }.into_raw();
    assert!(whole.user_minimum.is_none() && whole.user_value.is_none());
}

#[test]
fn axis_mappings_emptiness() {
    let mut mappings = AxisMappings { description: None, mappings: Vec::new() };
    assert!(mappings.is_empty());
    mappings.mappings.push(AxisMappingEntry { description: None, input: vec![weight(400.0)], output: vec![weight(420.0)] });
    assert!(!mappings.is_empty());
}

fn empty_document() -> DesignSpaceDocument {
    DesignSpaceDocument {
        format: Float32Bits(4.1f32.to_bits()),
        axes: Vec::new(),
        axis_mappings: None,
        elided_fallback_name: None,
        location_labels: Vec::new(),
        rules: Rules { processing: RuleProcessing::First, rules: Vec::new() },
        sources: Vec::new(),
        variable_fonts: Vec::new(),
        instances: Vec::new(),
        lib: plist::Dictionary::new(),
    }
}

fn axis(values: Option<Vec<FloatBits>>) -> Axis {
    Axis {
        name: "Weight".to_string(),
        tag: "wght".to_string(),
        default: bits(400.0),
        hidden: false,
        minimum: Some(bits(100.0)),
        maximum: Some(bits(900.0)),
        values,
        map: None,
        label_names: Vec::new(),
        axis_ordering: None,
        axis_labels: Vec::new(),
    }
}

#[test]
fn format_requirement_follows_contents() {
    let mut doc = empty_document();
    doc.axes.push(axis(None));
    assert_eq!(doc.format_requirement(), FormatRequirement::Declared);

    doc.axes.push(axis(Some(vec![bits(0.0), bits(1.0)])));
    assert_eq!(doc.format_requirement(), FormatRequirement::V5);

    let mut doc = empty_document();
    doc.instances.push(Instance::from_raw(raw_instance(Some("Bold"), Vec::new())).unwrap());
    assert_eq!(doc.format_requirement(), FormatRequirement::V5);

    let mut doc = empty_document();
    let mut user = weight(700.0);
    user.uservalue = Some(bits(700.0));
    doc.instances.push(Instance::from_raw(raw_instance(None, vec![user])).unwrap());
    assert_eq!(doc.format_requirement(), FormatRequirement::V5);

    let mut doc = empty_document();
    doc.axis_mappings = Some(AxisMappings { description: None, mappings: Vec::new() });
    assert_eq!(doc.format_requirement(), FormatRequirement::Declared);
    doc.axis_mappings = Some(AxisMappings {
        description: None,
        mappings: vec![AxisMappingEntry { description: None, input: vec![weight(1.0)], output: vec![weight(2.0)] }],
    });
    assert_eq!(doc.format_requirement(), FormatRequirement::V5_1);
}

#[test]
fn documents_keep_their_parts_through_their_xml_form() {
    let mut doc = empty_document();
    doc.elided_fallback_name = Some("Regular".to_string());
    doc.axes.push(axis(None));
    let raw = doc.into_raw(Float32Bits(5.0f32.to_bits()));
    assert_eq!(raw.format, Float32Bits(5.0f32.to_bits()));
    assert_eq!(raw.axes.elided_fallback_name.as_deref(), Some("Regular"));
    assert_eq!(raw.axes.axis.len(), 1);
    let back = DesignSpaceDocument::from_raw(raw);
    assert_eq!(back.axes[0].tag, "wght");

    let raw_axis = axis(None).into_raw();
    assert!(raw_axis.labels.is_empty());
    let again = Axis::from_raw(raw_axis);
    assert_eq!(again.name, "Weight");
}
