use shape_validation::bag::Bag;
use shape_validation::string_or_iri_stem::StringOrIriStem;
use std::str::FromStr;

#[test]
fn bag_test() {
    let mut bag = Bag::new();
    bag.insert("a".to_string());
    bag.insert("b".to_string());
    bag.insert("b".to_string());
    assert_eq!(bag.contains(&"b".to_string()), 2);
}

#[test]
fn bag_counts_and_items() {
    let mut bag = Bag::new();
    assert_eq!(bag.len(), 0);
    assert_eq!(bag.insert("x".to_string()), 0);
    assert_eq!(bag.insert("x".to_string()), 1);
    assert_eq!(bag.insert("y".to_string()), 0);
    assert_eq!(bag.len(), 3);
    assert_eq!(bag.contains(&"z".to_string()), 0);
    let mut items = bag.iter();
    items.sort();
    assert_eq!(items, vec![("x".to_string(), 2), ("y".to_string(), 1)]);
}

#[test]
fn string_or_iri_stem_from_str() {
    assert_eq!(StringOrIriStem::from_str("abc").ok(), Some(StringOrIriStem::String("abc".to_string())));
    assert_eq!(StringOrIriStem::from_text(""), StringOrIriStem::String(String::new()));
}
