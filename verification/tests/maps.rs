use eip_operator::json::{parse_string_map, string_map_text};
use eip_operator::string_map::StringMap;

fn map(pairs: &[(&str, &str)]) -> StringMap {
    StringMap::from_pairs(
        pairs.iter().map(|(k, v)| (k.to_string(), v.to_string())).collect(),
    )
}

#[test]
fn a_later_pair_overrides_an_earlier_one() {
    let m = map(&[("a", "1"), ("b", "2"), ("a", "3")]);
    assert_eq!(m.get("a"), Some(&"3".to_owned()));
    assert_eq!(m.get("b"), Some(&"2".to_owned()));
    assert_eq!(m.get("c"), None);
    assert_eq!(m.pairs().len(), 2);
    assert_eq!(m.to_pairs().len(), 2);
    assert_eq!(m.clone().get("a"), Some(&"3".to_owned()));
}

#[test]
fn containment_looks_at_keys_and_values() {
    let small = map(&[("a", "1")]);
    let large = map(&[("b", "2"), ("a", "1")]);
    assert!(small.is_contained_in(&large));
    assert!(!large.is_contained_in(&small));
    assert!(!map(&[("a", "2")]).is_contained_in(&large));
    assert!(StringMap::new().is_contained_in(&small));
    assert!(!small.is_contained_in(&StringMap::new()));
}

#[test]
fn json_objects_are_read() {
    let m = parse_string_map("{\"tag1\": \"value1\", \"tag2\": \"value2\"}").unwrap();
    assert_eq!(m.pairs().len(), 2);
    assert_eq!(m.get("tag1"), Some(&"value1".to_owned()));
    assert_eq!(m.get("tag2"), Some(&"value2".to_owned()));
    assert_eq!(parse_string_map("{}").unwrap().pairs().len(), 0);
    assert!(parse_string_map("").is_err());
    assert!(parse_string_map("[]").is_err());
    assert!(parse_string_map("{\"a\": null}").is_err());
}

#[test]
fn json_objects_are_written_in_the_order_of_their_keys() {
    assert_eq!(string_map_text(&map(&[("b", "2"), ("a", "\"")])), "{\"a\":\"\\\"\",\"b\":\"2\"}");
    assert_eq!(string_map_text(&StringMap::new()), "{}");
}

#[test]
fn what_is_written_is_read_again() {
    let m = map(&[("kind", "egress"), ("zone", "é")]);
    let again = parse_string_map(&string_map_text(&m)).unwrap();
    assert!(m.is_contained_in(&again) && again.is_contained_in(&m));
}
