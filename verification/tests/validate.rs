use store_validate::validate::{subjects_to_fetch, validate_resource};
use store_validate::{
    validate_store, Atom, Class, DataType, Property, Resource, Store, Storelike, ValidationReport,
};

const SHORTNAME: &str = "https://example.com/properties/shortname";
const DESCRIPTION: &str = "https://example.com/properties/description";
const AGE: &str = "https://example.com/properties/age";
const PUBLISHED: &str = "https://example.com/properties/published";
const PERSON: &str = "https://example.com/classes/Person";
const ARTICLE: &str = "https://example.com/classes/Article";

fn text(s: &str) -> String {
    s.to_string()
}

fn atom(subject: &str, property: &str, value: &str) -> Atom {
    Atom::new(text(subject), text(property), text(value))
}

fn property(subject: &str, shortname: &str, data_type: DataType) -> Property {
    Property { subject: text(subject), shortname: text(shortname), data_type }
}

fn no_fetches() -> Vec<Option<String>> {
    Vec::new()
}

/// A store with the four properties and two classes that the tests use, and nothing else.
fn schema() -> Store {
    let mut store = Store::init();
    store.add_property(property(SHORTNAME, "shortname", DataType::String));
    store.add_property(property(DESCRIPTION, "description", DataType::String));
    store.add_property(property(AGE, "age", DataType::Integer));
    store.add_property(property(PUBLISHED, "published", DataType::Boolean));
    store.add_class(Class {
        subject: text(PERSON),
        shortname: text("person"),
        required: vec![
            property(SHORTNAME, "shortname", DataType::String),
            property(AGE, "age", DataType::Integer),
        ],
    });
    store.add_class(Class {
        subject: text(ARTICLE),
        shortname: text("article"),
        required: vec![
            property(SHORTNAME, "shortname", DataType::String),
            property(PUBLISHED, "published", DataType::Boolean),
        ],
    });
    store
}

/// Fills `store` with the schema, eight persons and four articles, all of them well-formed.
fn populate(store: &mut Store) {
    *store = schema();
    for i in 0..8 {
        let subject = format!("https://example.com/persons/{}", i);
        store.add_atom(atom(&subject, SHORTNAME, &format!("person-{}", i)));
        store.add_atom(atom(&subject, DESCRIPTION, "Somebody who is known to the store"));
        store.add_atom(atom(&subject, AGE, &format!("{}", 20 + i)));
        store.add_claim(subject, text(PERSON));
    }
    for i in 0..4 {
        let subject = format!("https://example.com/articles/{}", i);
        store.add_atom(atom(&subject, SHORTNAME, &format!("article-{}", i)));
        store.add_atom(atom(&subject, DESCRIPTION, "Something that was written"));
        store.add_atom(atom(&subject, PUBLISHED, if i % 2 == 0 { "true" } else { "false" }));
        store.add_claim(subject, text(ARTICLE));
    }
}

#[test]
fn validate_populated() {
    let mut store = Store::init();
    populate(&mut store);
    let report = store.validate();
    assert!(report.atom_count > 30);
    assert!(report.resource_count > 5);
    assert!(report.is_valid());
}

#[test]
fn invalid_ad3() {
    let mut store = Store::init();
    let atoms = vec![atom(
        "https://example.com",
        "https://example.com",
        "[\"https://atomicdata.dev/classes/Class\"]",
    )];
    store.add_atoms(atoms);
    let report = validate_store(&store, false, &no_fetches());
    println!("resource_count: {}", report.resource_count);
    assert!(report.resource_count == 1);
    println!("atom_count: {}", report.resource_count);
    assert!(report.atom_count == 1);
    assert!(!report.is_valid());
}

#[test]
fn populated_store_counts_every_atom_and_resource() {
    let mut store = Store::init();
    populate(&mut store);
    let report = validate_store(&store, false, &no_fetches());
    assert_eq!(report.resource_count, 12);
    assert_eq!(report.atom_count, 36);
    assert!(report.missing_props.is_empty());
    assert_eq!(report.to_string(), "Valid!");
}

#[test]
fn empty_store_is_valid() {
    let store = Store::init();
    let report = validate_store(&store, true, &no_fetches());
    assert_eq!(report.resource_count, 0);
    assert_eq!(report.atom_count, 0);
    assert!(report.is_valid());
}

#[test]
fn unresolved_property_stops_the_resource_only() {
    let mut store = schema();
    store.add_atom(atom("https://example.com/a", SHORTNAME, "a"));
    store.add_atom(atom("https://example.com/a", "https://example.com/unknown", "x"));
    store.add_atom(atom("https://example.com/a", AGE, "not a number"));
    store.add_atom(atom("https://example.com/b", SHORTNAME, "b"));
    store.add_atom(atom("https://example.com/b", AGE, "7"));
    let report = validate_store(&store, false, &no_fetches());
    assert_eq!(report.resource_count, 2);
    // Two pairs of the first resource, the third is never reached; both of the second.
    assert_eq!(report.atom_count, 4);
    assert_eq!(
        report.unfetchable_props,
        vec![(
            text("https://example.com/unknown"),
            text("Property not found: https://example.com/unknown"),
        )]
    );
    assert!(report.invalid_value.is_empty());
    assert!(!report.is_valid());
}

#[test]
fn single_invalid_value_is_reported_once() {
    let mut store = schema();
    store.add_atom(atom("https://example.com/a", AGE, "forty-two"));
    let report = validate_store(&store, false, &no_fetches());
    assert_eq!(report.resource_count, 1);
    assert_eq!(report.atom_count, 1);
    assert_eq!(report.invalid_value.len(), 1);
    let (found, message) = &report.invalid_value[0];
    assert_eq!(found.subject, "https://example.com/a");
    assert_eq!(found.property, AGE);
    assert_eq!(found.value, "forty-two");
    assert_eq!(message, "Not a valid Integer");
    assert!(report.unfetchable.is_empty());
    assert!(report.unfetchable_props.is_empty());
    assert!(report.unfetchable_classes.is_empty());
    assert!(!report.is_valid());
}

#[test]
fn invalid_values_among_valid_ones() {
    let mut store = schema();
    store.add_atom(atom("https://example.com/a", SHORTNAME, "a"));
    store.add_atom(atom("https://example.com/a", PUBLISHED, "yes"));
    store.add_atom(atom("https://example.com/a", AGE, "12"));
    store.add_atom(atom("https://example.com/b", AGE, "1e3"));
    let report = validate_store(&store, false, &no_fetches());
    assert_eq!(report.atom_count, 4);
    assert_eq!(report.invalid_value.len(), 2);
    assert_eq!(report.invalid_value[0].0.subject, "https://example.com/a");
    assert_eq!(report.invalid_value[0].0.property, PUBLISHED);
    assert_eq!(report.invalid_value[0].0.value, "yes");
    assert_eq!(report.invalid_value[0].1, "Not a valid Boolean");
    assert_eq!(report.invalid_value[1].0.subject, "https://example.com/b");
    assert_eq!(report.invalid_value[1].1, "Not a valid Integer");
}

#[test]
fn failed_fetch_is_recorded_and_the_walk_goes_on() {
    let mut store = schema();
    store.add_atom(atom("https://example.com/a", SHORTNAME, "a"));
    store.add_atom(atom("https://example.com/b", SHORTNAME, "b"));
    store.add_atom(atom("https://example.com/b", AGE, "old"));
    store.add_atom(atom("https://example.com/c", SHORTNAME, "c"));
    let fetches = vec![None, Some(text("connection refused")), None];
    let report = validate_store(&store, true, &fetches);
    assert_eq!(
        report.unfetchable,
        vec![(text("https://example.com/b"), text("connection refused"))]
    );
    assert!(!report.unfetchable[0].1.is_empty());
    assert_eq!(report.resource_count, 3);
    assert_eq!(report.atom_count, 4);
    // The failed fetch did not stop the checks on its own resource.
    assert_eq!(report.invalid_value.len(), 1);
    assert_eq!(report.invalid_value[0].0.subject, "https://example.com/b");
    assert!(!report.is_valid());
}

#[test]
fn fetch_outcomes_are_not_read_without_fetch_items() {
    let mut store = schema();
    store.add_atom(atom("https://example.com/a", SHORTNAME, "a"));
    let fetches = vec![Some(text("connection refused"))];
    let report = validate_store(&store, false, &fetches);
    assert!(report.unfetchable.is_empty());
    assert!(report.is_valid());
}

#[test]
fn missing_required_property_is_recorded_but_does_not_invalidate() {
    let mut store = Store::init();
    store.add_property(property("P", "p", DataType::String));
    store.add_property(property("Q", "q", DataType::String));
    store.add_class(Class {
        subject: text("C"),
        shortname: text("c"),
        required: vec![property("P", "p", DataType::String)],
    });
    store.add_atom(atom("S", "Q", "some text"));
    store.add_claim(text("S"), text("C"));
    let report = validate_store(&store, false, &no_fetches());
    assert_eq!(report.missing_props, vec![(text("S"), text("P"), text("C"))]);
    assert!(report.is_valid());
    assert_eq!(report.to_string(), "Valid!");
}

#[test]
fn required_property_counts_as_found_whatever_its_value() {
    let mut store = schema();
    store.add_atom(atom("https://example.com/a", SHORTNAME, "a"));
    store.add_atom(atom("https://example.com/a", AGE, "unknown"));
    store.add_claim(text("https://example.com/a"), text(PERSON));
    let report = validate_store(&store, false, &no_fetches());
    assert!(report.missing_props.is_empty());
    assert_eq!(report.invalid_value.len(), 1);
}

#[test]
fn property_after_the_unresolved_one_counts_as_missing() {
    let mut store = schema();
    store.add_atom(atom("https://example.com/a", SHORTNAME, "a"));
    store.add_atom(atom("https://example.com/a", "https://example.com/unknown", "x"));
    store.add_atom(atom("https://example.com/a", AGE, "3"));
    store.add_claim(text("https://example.com/a"), text(PERSON));
    let report = validate_store(&store, false, &no_fetches());
    assert_eq!(
        report.missing_props,
        vec![(text("https://example.com/a"), text(AGE), text(PERSON))]
    );
}

#[test]
fn missing_properties_come_class_by_class() {
    let mut store = schema();
    store.add_atom(atom("https://example.com/a", DESCRIPTION, "neither fish nor fowl"));
    store.add_claim(text("https://example.com/a"), text(PERSON));
    store.add_claim(text("https://example.com/a"), text(ARTICLE));
    let report = validate_store(&store, false, &no_fetches());
    assert_eq!(
        report.missing_props,
        vec![
            (text("https://example.com/a"), text(SHORTNAME), text(PERSON)),
            (text("https://example.com/a"), text(AGE), text(PERSON)),
            (text("https://example.com/a"), text(SHORTNAME), text(ARTICLE)),
            (text("https://example.com/a"), text(PUBLISHED), text(ARTICLE)),
        ]
    );
    assert!(report.is_valid());
}

#[test]
fn failed_class_lookup_is_recorded_and_the_walk_goes_on() {
    let mut store = schema();
    store.add_atom(atom("https://example.com/a", SHORTNAME, "a"));
    store.add_claim(text("https://example.com/a"), text("https://example.com/classes/Ghost"));
    store.add_atom(atom("https://example.com/b", AGE, "x"));
    let report = validate_store(&store, false, &no_fetches());
    assert_eq!(
        report.unfetchable_classes,
        vec![(
            text("https://example.com/a"),
            text("Class not found: https://example.com/classes/Ghost"),
        )]
    );
    assert_eq!(report.resource_count, 2);
    assert_eq!(report.atom_count, 2);
    assert_eq!(report.invalid_value.len(), 1);
    assert!(!report.is_valid());
}

#[test]
fn class_lookup_follows_an_unresolved_property() {
    let mut store = schema();
    store.add_atom(atom("https://example.com/a", "https://example.com/unknown", "x"));
    store.add_claim(text("https://example.com/a"), text("https://example.com/classes/Ghost"));
    let report = validate_store(&store, false, &no_fetches());
    assert_eq!(report.unfetchable_props.len(), 1);
    assert_eq!(report.unfetchable_classes.len(), 1);
}

#[test]
fn resources_are_validated_one_by_one() {
    let store = schema();
    let first = Resource {
        subject: text("https://example.com/a"),
        pairs: vec![(text(AGE), text("1")), (text(PUBLISHED), text("maybe"))],
    };
    let second = Resource {
        subject: text("https://example.com/b"),
        pairs: vec![(text("https://example.com/unknown"), text("1")), (text(AGE), text("2"))],
    };
    let mut report = ValidationReport::new();
    validate_resource(&store, &first, &None, &mut report);
    assert_eq!(report.resource_count, 1);
    assert_eq!(report.atom_count, 2);
    assert_eq!(report.invalid_value.len(), 1);
    validate_resource(&store, &second, &Some(text("timed out")), &mut report);
    assert_eq!(report.resource_count, 2);
    assert_eq!(report.atom_count, 3);
    assert_eq!(report.unfetchable, vec![(text("https://example.com/b"), text("timed out"))]);
    assert_eq!(report.unfetchable_props.len(), 1);
    assert_eq!(report.invalid_value.len(), 1);
}

#[test]
fn counters_stop_at_the_largest_number() {
    let store = schema();
    let resource = Resource {
        subject: text("https://example.com/a"),
        pairs: vec![(text(AGE), text("1")), (text(AGE), text("2"))],
    };
    let mut report = ValidationReport::new();
    report.resource_count = usize::MAX;
    report.atom_count = usize::MAX - 1;
    validate_resource(&store, &resource, &None, &mut report);
    assert_eq!(report.resource_count, usize::MAX);
    assert_eq!(report.atom_count, usize::MAX);
}

#[test]
fn validation_works_through_a_trait_object() {
    let mut store = Store::init();
    populate(&mut store);
    let store: &dyn Storelike = &store;
    let report = validate_store(store, false, &no_fetches());
    assert_eq!(report.resource_count, 12);
    assert!(report.is_valid());
}

#[test]
fn subjects_to_fetch_are_those_of_the_resources() {
    let mut store = schema();
    store.add_atom(atom("https://example.com/b", SHORTNAME, "b"));
    store.add_atom(atom("https://example.com/a", SHORTNAME, "a"));
    store.add_atom(atom("https://example.com/b", AGE, "1"));
    assert_eq!(
        subjects_to_fetch(&store, true),
        vec![text("https://example.com/b"), text("https://example.com/a")]
    );
    assert!(subjects_to_fetch(&store, false).is_empty());
}
