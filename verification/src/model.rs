//! The data that the validator reads: atoms, properties, classes and resources.

use crate::values::DataType;
use vstd::prelude::*;

verus! {

/// A text as a finding holds it: an identifier, a raw value or a message.
pub type Text = Seq<char>;

/// Pushing an item onto a vector pushes the item's view onto the vector's deep view.
pub proof fn lemma_deep_view_push<T: DeepView>(before: Vec<T>, after: Vec<T>, last: T)
    requires
        after@ == before@.push(last),
    ensures
        after.deep_view() == before.deep_view().push(last.deep_view()),
{
}

/// A (subject, property, value) triple, as it is named in a finding.
#[derive(Debug)]
pub struct Atom {
    pub subject: String,
    pub property: String,
    pub value: String,
}

/// The mathematical content of an [`Atom`].
pub struct AtomView {
    pub subject: Text,
    pub property: Text,
    pub value: Text,
}

impl View for Atom {
    type V = AtomView;

    open spec fn view(&self) -> AtomView {
        AtomView { subject: self.subject@, property: self.property@, value: self.value@ }
    }
}

impl DeepView for Atom {
    type V = AtomView;

    open spec fn deep_view(&self) -> AtomView {
        self@
    }
}

impl Atom {
    pub fn new(subject: String, property: String, value: String) -> (atom: Atom)
        ensures
            atom@ == (AtomView { subject: subject@, property: property@, value: value@ }),
    {
        Atom { subject, property, value }
    }
}

impl Clone for Atom {
    fn clone(&self) -> (copy: Atom)
        ensures
            copy@ == self@,
    {
        Atom {
            subject: self.subject.clone(),
            property: self.property.clone(),
            value: self.value.clone(),
        }
    }
}

/// A declared attribute: its identifier, a short name, and the datatype of its values.
#[derive(Debug)]
pub struct Property {
    pub subject: String,
    pub shortname: String,
    pub data_type: DataType,
}

/// The mathematical content of a [`Property`].
pub struct PropertyView {
    pub subject: Text,
    pub shortname: Text,
    pub data_type: DataType,
}

impl View for Property {
    type V = PropertyView;

    open spec fn view(&self) -> PropertyView {
        PropertyView {
            subject: self.subject@,
            shortname: self.shortname@,
            data_type: self.data_type,
        }
    }
}

impl DeepView for Property {
    type V = PropertyView;

    open spec fn deep_view(&self) -> PropertyView {
        self@
    }
}

impl Clone for Property {
    fn clone(&self) -> (copy: Property)
        ensures
            copy@ == self@,
    {
        Property {
            subject: self.subject.clone(),
            shortname: self.shortname.clone(),
            data_type: self.data_type,
        }
    }
}

/// A named grouping that says which properties its members must have.
#[derive(Debug)]
pub struct Class {
    pub subject: String,
    pub shortname: String,
    pub required: Vec<Property>,
}

/// The mathematical content of a [`Class`].
pub struct ClassView {
    pub subject: Text,
    pub shortname: Text,
    pub required: Seq<PropertyView>,
}

impl View for Class {
    type V = ClassView;

    open spec fn view(&self) -> ClassView {
        ClassView {
            subject: self.subject@,
            shortname: self.shortname@,
            required: self.required.deep_view(),
        }
    }
}

impl DeepView for Class {
    type V = ClassView;

    open spec fn deep_view(&self) -> ClassView {
        self@
    }
}

impl Clone for Class {
    fn clone(&self) -> (copy: Class)
        ensures
            copy@ == self@,
    {
        let mut required: Vec<Property> = Vec::new();
        let mut i: usize = 0;
        while i < self.required.len()
            invariant
                i <= self.required.len(),
                required.deep_view() == self.required.deep_view().take(i as int),
            decreases self.required.len() - i,
        {
            let ghost before = required;
            let property = self.required[i].clone();
            required.push(property);
            proof {
                lemma_deep_view_push(before, required, property);
            }
            i += 1;
        }
        assert(self.required.deep_view().take(i as int) =~= self.required.deep_view());
        Class { subject: self.subject.clone(), shortname: self.shortname.clone(), required }
    }
}

/// A subject and its (property, raw value) pairs, in the order the store gives them.
#[derive(Debug)]
pub struct Resource {
    pub subject: String,
    pub pairs: Vec<(String, String)>,
}

/// The mathematical content of a [`Resource`].
pub struct ResourceView {
    pub subject: Text,
    pub pairs: Seq<(Text, Text)>,
}

impl View for Resource {
    type V = ResourceView;

    open spec fn view(&self) -> ResourceView {
        ResourceView { subject: self.subject@, pairs: self.pairs.deep_view() }
    }
}

impl DeepView for Resource {
    type V = ResourceView;

    open spec fn deep_view(&self) -> ResourceView {
        self@
    }
}

impl Clone for Resource {
    fn clone(&self) -> (copy: Resource)
        ensures
            copy@ == self@,
    {
        let mut pairs: Vec<(String, String)> = Vec::new();
        let mut i: usize = 0;
        while i < self.pairs.len()
            invariant
                i <= self.pairs.len(),
                pairs.deep_view() == self.pairs.deep_view().take(i as int),
            decreases self.pairs.len() - i,
        {
            let ghost before = pairs;
            let pair = (self.pairs[i].0.clone(), self.pairs[i].1.clone());
            pairs.push(pair);
            proof {
                lemma_deep_view_push(before, pairs, pair);
            }
            i += 1;
        }
        assert(self.pairs.deep_view().take(i as int) =~= self.pairs.deep_view());
        Resource { subject: self.subject.clone(), pairs }
    }
}

/// The property identifiers of `pairs`, in order.
pub open spec fn properties_of(pairs: Seq<(Text, Text)>) -> Seq<Text> {
    Seq::new(pairs.len(), |i: int| pairs[i].0)
}

impl ResourceView {
    /// The property identifiers of the pairs, in order.
    pub open spec fn properties(self) -> Seq<Text> {
        properties_of(self.pairs)
    }
}

} // verus!
