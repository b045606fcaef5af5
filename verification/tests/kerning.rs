use norad::groups::Groups;
use norad::kerning::{kerning_lookup, Kerning, KerningResolver};
use norad::shared_types::FloatBits;
use norad::Name;

fn bits(v: f64) -> FloatBits {
    FloatBits(v.to_bits())
}

fn name(s: &str) -> Name {
    Name::new_raw(s)
}

fn exceptions_font() -> (Groups, Kerning) {
    let groups: Groups = vec![
        (name("public.kern1.O"), vec![name("O"), name("D"), name("Q")]),
        (name("public.kern2.E"), vec![name("E"), name("F")]),
    ];
    let kerning: Kerning = vec![
        (name("D"), vec![(name("F"), bits(-300.0))]),
        (name("Q"), vec![(name("public.kern2.E"), bits(-250.0))]),
        (
            name("public.kern1.O"),
            vec![(name("F"), bits(-200.0)), (name("public.kern2.E"), bits(-100.0))],
        ),
    ];
    (groups, kerning)
}

#[test]
fn test_kerning_resolution() {
    let (groups, kerning) = exceptions_font();
    let resolver = KerningResolver::new(&kerning, &groups);
    for (left, right, expected) in [
        ("O", "E", -100f64),
        ("O", "F", -200f64),
        ("D", "E", -100f64),
        ("D", "F", -300f64),
        ("Q", "E", -250f64),
        ("Q", "F", -250f64),
    ] {
        assert_eq!(
            resolver.get(left, right),
            Some(bits(expected)),
            "kerning_lookup incorrect for /{left}/{right}"
        );
    }
}

#[test]
fn kerning_resolver_doc_example() {
    let groups: Groups = vec![(name("public.kern1.A"), vec![name("A")])];
    let kerning: Kerning = vec![(name("public.kern1.A"), vec![(name("V"), bits(-15.0))])];
    let resolver = KerningResolver::new(&kerning, &groups);
    assert_eq!(resolver.get("A", "V"), Some(bits(-15.0)));
}

#[test]
fn kerning_groups_by_side() {
    let (groups, kerning) = exceptions_font();
    let resolver = KerningResolver::new(&kerning, &groups);
    assert_eq!(resolver.get_first_group("D").map(|n| n.as_str().to_string()), Some("public.kern1.O".to_string()));
    assert_eq!(resolver.get_second_group("D"), None);
    assert_eq!(resolver.get_second_group("F").map(|n| n.as_str().to_string()), Some("public.kern2.E".to_string()));
    assert_eq!(resolver.get_first_group("F"), None);
    assert_eq!(resolver.get_first_group("Z"), None);
}

#[test]
fn later_kerning_group_wins_for_a_glyph() {
    let groups: Groups = vec![
        (name("public.kern1.A"), vec![name("A")]),
        (name("public.kern1.B"), vec![name("A"), name("B")]),
    ];
    let kerning: Kerning = vec![];
    let resolver = KerningResolver::new(&kerning, &groups);
    assert_eq!(resolver.get_first_group("A").map(|n| n.as_str().to_string()), Some("public.kern1.B".to_string()));
}

#[test]
fn unknown_pairs_have_no_kerning() {
    let (groups, kerning) = exceptions_font();
    let resolver = KerningResolver::new(&kerning, &groups);
    assert_eq!(resolver.get("E", "O"), None);
    assert_eq!(resolver.get("X", "Y"), None);
    assert_eq!(kerning_lookup(&kerning, "D", "E"), None);
    assert_eq!(kerning_lookup(&kerning, "D", "F"), Some(bits(-300.0)));
}

#[test]
fn groups_may_be_looked_up_directly() {
    let (groups, kerning) = exceptions_font();
    let resolver = KerningResolver::new(&kerning, &groups);
    assert_eq!(resolver.get("public.kern1.O", "public.kern2.E"), Some(bits(-100.0)));
    assert_eq!(resolver.get("public.kern1.O", "E"), Some(bits(-100.0)));
}
