use norad::error::{GroupsValidationError, NamingError};
use norad::groups::{groups_from_raw, validate_groups};
use norad::Name;

fn raw(groups: &[(&str, &[&str])]) -> Vec<(String, Vec<String>)> {
    groups.iter().map(|(k, v)| (k.to_string(), v.iter().map(|s| s.to_string()).collect())).collect()
}

#[test]
fn deserialize_skip_empty_group_member() {
    let group = groups_from_raw(raw(&[("derpy_group", &["", "hi", ""])])).unwrap();
    let derpy = group.iter().find(|(k, _)| k.as_str() == "derpy_group").unwrap();
    assert_eq!(derpy.1[0].as_str(), "hi");
    assert_eq!(derpy.1.len(), 1);
}

#[test]
fn raw_groups_with_invalid_names_are_refused() {
    assert!(matches!(groups_from_raw(raw(&[("", &["a"])])), Err(NamingError::Invalid(_))));
    assert!(matches!(groups_from_raw(raw(&[("g", &["a\u{7}"])])), Err(NamingError::Invalid(_))));
    assert!(groups_from_raw(raw(&[("g", &["a", "b"]), ("h", &[])])).is_ok());
}

#[test]
fn kerning_groups_must_not_overlap() {
    let groups = vec![
        (Name::new_raw("public.kern1.A"), vec![Name::new_raw("A"), Name::new_raw("Aacute")]),
        (Name::new_raw("public.kern1.B"), vec![Name::new_raw("A")]),
    ];
    assert!(matches!(validate_groups(&groups), Err(GroupsValidationError::OverlappingKerningGroups { .. })));
    let groups = vec![(Name::new_raw("public.kern2."), vec![Name::new_raw("A")])];
    assert!(matches!(validate_groups(&groups), Err(GroupsValidationError::InvalidName)));
    let groups = vec![
        (Name::new_raw("public.kern1.A"), vec![Name::new_raw("A")]),
        (Name::new_raw("public.kern2.A"), vec![Name::new_raw("A")]),
    ];
    assert!(validate_groups(&groups).is_ok());
}

#[test]
fn one_glyph_in_one_group_per_side() {
    let n = |s: &str| Name::new(s).unwrap();
    let ok = vec![
        (n("public.kern1.A"), vec![n("A")]),
        (n("public.kern2.A"), vec![n("A")]),
        (n("other"), vec![n("A"), n("A")]),
    ];
    assert!(validate_groups(&ok).is_ok());
    let twice = vec![(n("public.kern2.A"), vec![n("A"), n("A")])];
    assert!(matches!(validate_groups(&twice), Err(GroupsValidationError::OverlappingKerningGroups { .. })));
    let bare = vec![(n("public.kern1."), vec![n("A")])];
    assert!(matches!(validate_groups(&bare), Err(GroupsValidationError::InvalidName)));
}
