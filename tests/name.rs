use shape_validation::name::Name;
use std::path::PathBuf;

#[test]
fn prefixed_name_gets_local_ref() {
    let folder = PathBuf::from("out");
    let n = Name::new(":Person", Some("http://example.org/Person"), &folder);
    assert_eq!(n.name(), ":Person");
    assert_eq!(n.href(), Some("http://example.org/Person".to_string()));
    assert_eq!(n.as_local_href(), Some("Person".to_string()));
    assert_eq!(n.as_path(), Some(PathBuf::from("out").join("Person")));
    assert_eq!(n.as_local_ref(), Some((PathBuf::from("out").join("Person"), "Person".to_string())));
}

#[test]
fn plain_name_has_no_local_ref() {
    let n = Name::new("Person", None, &PathBuf::from("out"));
    assert_eq!(n.name(), "Person");
    assert_eq!(n.href(), None);
    assert_eq!(n.as_local_href(), None);
    assert_eq!(n.as_path(), None);
    assert_eq!(n.as_local_ref(), None);
}

#[test]
fn empty_name() {
    let n = Name::new("", None, &PathBuf::from("out"));
    assert_eq!(n.name(), "");
    assert_eq!(n.as_local_ref(), None);
}
