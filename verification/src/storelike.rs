//! The read-only view of a store that validation works on.

use crate::model::{Class, ClassView, Property, PropertyView, Resource, ResourceView, Text};
use vstd::prelude::*;

verus! {

/// The subjects of `resources`, in order.
pub open spec fn subjects(resources: Seq<ResourceView>) -> Seq<Text> {
    Seq::new(resources.len(), |i: int| resources[i].subject)
}

/// Whether no two of `resources` have the same subject.
pub open spec fn distinct_subjects(resources: Seq<ResourceView>) -> bool {
    subjects(resources).no_duplicates()
}

/// A store, as far as validation reads it: it enumerates its resources and
/// looks up properties and classes. A lookup may fail, with a message.
///
/// The three spec functions are the store's content; the three methods read it.
pub trait Storelike {
    /// The resources, in the order in which the store enumerates them.
    spec fn resources(&self) -> Seq<ResourceView>;

    /// The property that `url` resolves to, or the message of the failed lookup.
    spec fn property(&self, url: Text) -> Result<PropertyView, Text>;

    /// The classes that `subject` claims, or the message of the failed lookup.
    spec fn classes(&self, subject: Text) -> Result<Seq<ClassView>, Text>;

    /// All resources, in the order of the store. No two have the same subject.
    fn all_resources(&self) -> (resources: Vec<Resource>)
        ensures
            resources.deep_view() == self.resources(),
            distinct_subjects(self.resources()),
    ;

    /// Looks up the property with the identifier `url`.
    fn get_property(&self, url: &String) -> (found: Result<Property, String>)
        ensures
            match found {
                Ok(property) => self.property(url@) == Ok::<PropertyView, Text>(property@),
                Err(message) => self.property(url@) == Err::<PropertyView, Text>(message@),
            },
    ;

    /// Looks up the classes that `subject` claims.
    fn get_classes_for_subject(&self, subject: &String) -> (found: Result<Vec<Class>, String>)
        ensures
            match found {
                Ok(classes) => self.classes(subject@) == Ok::<Seq<ClassView>, Text>(
                    classes.deep_view(),
                ),
                Err(message) => self.classes(subject@) == Err::<Seq<ClassView>, Text>(message@),
            },
    ;
}

} // verus!
