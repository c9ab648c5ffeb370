use store_validate::model::{Atom, Class, Property};
use store_validate::store::Store;
use store_validate::storelike::Storelike;
use store_validate::values::DataType;

fn text(s: &str) -> String {
    s.to_string()
}

fn atom(subject: &str, property: &str, value: &str) -> Atom {
    Atom::new(text(subject), text(property), text(value))
}

fn pairs_of(store: &Store) -> Vec<(String, Vec<(String, String)>)> {
    store.all_resources().into_iter().map(|r| (r.subject, r.pairs)).collect()
}

#[test]
fn new_store_holds_nothing() {
    let store = Store::init();
    assert!(store.all_resources().is_empty());
    assert_eq!(store.get_property(&text("p")).unwrap_err(), "Property not found: p");
    assert!(store.get_classes_for_subject(&text("s")).unwrap().is_empty());
}

#[test]
fn atoms_are_grouped_by_subject_in_order() {
    let mut store = Store::init();
    store.add_atom(atom("a", "p", "1"));
    store.add_atom(atom("b", "p", "2"));
    store.add_atom(atom("a", "q", "3"));
    assert_eq!(
        pairs_of(&store),
        vec![
            (text("a"), vec![(text("p"), text("1")), (text("q"), text("3"))]),
            (text("b"), vec![(text("p"), text("2"))]),
        ]
    );
}

#[test]
fn later_value_replaces_the_earlier_one() {
    let mut store = Store::init();
    store.add_atoms(vec![atom("a", "p", "1"), atom("a", "q", "2"), atom("a", "p", "3")]);
    assert_eq!(
        pairs_of(&store),
        vec![(text("a"), vec![(text("p"), text("3")), (text("q"), text("2"))])]
    );
}

#[test]
fn property_is_found_by_its_subject() {
    let mut store = Store::init();
    store.add_property(Property {
        subject: text("p"),
        shortname: text("first"),
        data_type: DataType::Integer,
    });
    store.add_property(Property {
        subject: text("q"),
        shortname: text("other"),
        data_type: DataType::Boolean,
    });
    store.add_property(Property {
        subject: text("p"),
        shortname: text("second"),
        data_type: DataType::String,
    });
    let found = store.get_property(&text("p")).unwrap();
    assert_eq!(found.subject, "p");
    assert_eq!(found.shortname, "first");
    assert_eq!(found.data_type, DataType::Integer);
    assert_eq!(store.get_property(&text("q")).unwrap().data_type, DataType::Boolean);
    assert_eq!(store.get_property(&text("r")).unwrap_err(), "Property not found: r");
}

#[test]
fn classes_are_those_that_the_subject_claims() {
    let mut store = Store::init();
    store.add_class(Class { subject: text("c"), shortname: text("c"), required: Vec::new() });
    store.add_class(Class {
        subject: text("d"),
        shortname: text("d"),
        required: vec![Property {
            subject: text("p"),
            shortname: text("p"),
            data_type: DataType::String,
        }],
    });
    store.add_claim(text("s"), text("d"));
    store.add_claim(text("t"), text("c"));
    store.add_claim(text("s"), text("c"));
    let classes = store.get_classes_for_subject(&text("s")).unwrap();
    assert_eq!(classes.len(), 2);
    assert_eq!(classes[0].subject, "d");
    assert_eq!(classes[0].required.len(), 1);
    assert_eq!(classes[0].required[0].subject, "p");
    assert_eq!(classes[1].subject, "c");
    assert!(store.get_classes_for_subject(&text("u")).unwrap().is_empty());
}

#[test]
fn unknown_class_fails_the_lookup() {
    let mut store = Store::init();
    store.add_class(Class { subject: text("c"), shortname: text("c"), required: Vec::new() });
    store.add_claim(text("s"), text("c"));
    store.add_claim(text("s"), text("x"));
    store.add_claim(text("s"), text("y"));
    store.add_claim(text("t"), text("c"));
    assert_eq!(store.get_classes_for_subject(&text("s")).unwrap_err(), "Class not found: x");
    assert_eq!(store.get_classes_for_subject(&text("t")).unwrap().len(), 1);
}
