use std_traits::entry::{Attribute, Entry, Kind};
use std_traits::stability::{
    calculate_stability, is_readable, is_well_formed, parse_stability_str, same_text, Stability,
};
use std_traits::tally::{tally, try_tally, StabilityCounts};

const STABLE: &str =
    "#[attr = Stability {stability: Stability {level: Stable {since: Version(1.0.0)}}}]";
const UNSTABLE: &str =
    "#[attr = Stability {stability: Stability {level: Unstable {reason: None, issue: 1}}}]";

fn item(attrs: &[Option<&str>]) -> Entry {
    Entry {
        id: 0,
        name: None,
        kind: Kind::Other,
        attrs: attrs
            .iter()
            .map(|a| match a {
                Some(s) => Attribute::Other(s.to_string()),
                None => Attribute::Structured,
            })
            .collect(),
    }
}

#[test]
fn parses_the_two_levels() {
    assert_eq!(parse_stability_str(STABLE), Some(Stability::Stable));
    assert_eq!(parse_stability_str(UNSTABLE), Some(Stability::Unstable));
    assert_eq!(parse_stability_str("#[inline]"), None);
    assert_eq!(parse_stability_str(""), None);
    assert_eq!(parse_stability_str("#[attr = Stability"), None);
}

#[test]
fn tells_what_is_readable() {
    assert!(is_readable(STABLE));
    assert!(is_readable(UNSTABLE));
    assert!(is_readable("#[must_use]"));
    assert!(is_readable(""));
    assert!(!is_readable("#[attr = Stability "));
    assert!(!is_readable("#[attr = Stability {stability: Stability {level: Stable"));
    assert!(!is_readable("#[attr = Stability {stability: Stability {level: Frozen {}}}]"));
    assert!(!is_readable("#[attr = Stability {stability: Stability {level: Stables {}}}]"));
    assert!(!is_readable("#[attr = Stability {feature: x}]"));
    assert!(is_readable("#[attr = Stability {stability: Stability {level: Stable é"));
}

#[test]
fn stability_of_an_item() {
    assert_eq!(calculate_stability(&item(&[])), None);
    assert_eq!(calculate_stability(&item(&[None, Some("#[inline]")])), None);
    assert_eq!(
        calculate_stability(&item(&[Some("#[inline]"), Some(STABLE), None])),
        Some(Stability::Stable)
    );
    assert_eq!(calculate_stability(&item(&[Some(UNSTABLE)])), Some(Stability::Unstable));
}

#[test]
fn tells_what_is_well_formed() {
    assert!(is_well_formed(&item(&[])));
    assert!(is_well_formed(&item(&[Some(STABLE), None, Some("#[doc(hidden)]")])));
    assert!(!is_well_formed(&item(&[Some(STABLE), Some(UNSTABLE)])));
    assert!(!is_well_formed(&item(&[Some(STABLE), Some(STABLE)])));
    assert!(!is_well_formed(&item(&[Some("#[attr = Stability {x}]")])));
}

#[test]
fn counts_each_stability() {
    let items = vec![
        item(&[Some(STABLE)]),
        item(&[]),
        item(&[Some(UNSTABLE), None]),
        item(&[None, Some(STABLE)]),
        item(&[Some("#[inline]")]),
        item(&[Some(STABLE)]),
    ];
    let counts = tally(&items);
    assert_eq!(counts.get(None), 2);
    assert_eq!(counts.get(Some(Stability::Stable)), 3);
    assert_eq!(counts.get(Some(Stability::Unstable)), 1);
}

#[test]
fn a_new_tally_is_empty_and_records_one_at_a_time() {
    let mut counts = StabilityCounts::new();
    assert_eq!(counts.get(None), 0);
    assert_eq!(counts.get(Some(Stability::Stable)), 0);
    assert_eq!(counts.get(Some(Stability::Unstable)), 0);
    assert!(counts.record(Some(Stability::Unstable)));
    assert!(counts.record(Some(Stability::Unstable)));
    assert!(counts.record(None));
    assert_eq!(counts.get(None), 1);
    assert_eq!(counts.get(Some(Stability::Stable)), 0);
    assert_eq!(counts.get(Some(Stability::Unstable)), 2);
}

#[test]
fn tallies_unless_an_entry_is_not_well_formed() {
    let good = vec![item(&[Some(STABLE)]), item(&[]), item(&[Some(UNSTABLE)])];
    let counts = try_tally(&good).unwrap();
    assert_eq!(counts.get(None), 1);
    assert_eq!(counts.get(Some(Stability::Stable)), 1);
    assert_eq!(counts.get(Some(Stability::Unstable)), 1);
    let twice = vec![item(&[Some(STABLE)]), item(&[Some(STABLE), Some(UNSTABLE)])];
    assert!(try_tally(&twice).is_none());
    let broken = vec![item(&[Some("#[attr = Stability {}]")])];
    assert!(try_tally(&broken).is_none());
    assert_eq!(try_tally(&Vec::new()).unwrap().get(None), 0);
}

#[test]
fn compares_texts() {
    assert!(same_text("u32", "u32"));
    assert!(same_text("", ""));
    assert!(!same_text("u32", "u3"));
    assert!(!same_text("u3", "u32"));
    assert!(!same_text("u32", "i32"));
    assert!(same_text("é", "é"));
}
