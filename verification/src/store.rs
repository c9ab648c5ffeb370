//! A store held in memory: resources, and the properties and classes that
//! they refer to.

use crate::model::{
    Atom, AtomView, Class, ClassView, Property, PropertyView, Resource, ResourceView, Text,
};
use crate::storelike::Storelike;
use crate::validate::{validate_store, ReportView, ValidationReport};
use vstd::prelude::*;

verus! {

/// The position of the first of `ids` that equals `id`; the length of `ids`
/// where none does.
pub open spec fn position(ids: Seq<Text>, id: Text) -> nat
    decreases ids.len(),
{
    if ids.len() == 0 || ids[0] == id {
        0
    } else {
        1 + position(ids.drop_first(), id)
    }
}

/// None of `ids` before `at` equals `id` and the one at `at`, if there is one,
/// does: then `at` is the position of `id`.
pub proof fn lemma_position(ids: Seq<Text>, id: Text, at: int)
    requires
        0 <= at <= ids.len(),
        forall|j: int| 0 <= j < at ==> ids[j] != id,
        at < ids.len() ==> ids[at] == id,
    ensures
        position(ids, id) == at,
    decreases ids.len(),
{
    if at > 0 {
        let rest = ids.drop_first();
        lemma_position(rest, id, at - 1);
    }
}

/// The position of `id` is within `ids` or their length; none of `ids` before
/// it equals `id`, and the one at it, if there is one, does.
pub proof fn lemma_position_ends(ids: Seq<Text>, id: Text)
    ensures
        position(ids, id) <= ids.len(),
        forall|j: int| 0 <= j < position(ids, id) ==> ids[j] != id,
        position(ids, id) < ids.len() ==> ids[position(ids, id) as int] == id,
    decreases ids.len(),
{
    if ids.len() != 0 && ids[0] != id {
        let rest = ids.drop_first();
        lemma_position_ends(rest, id);
        let at = position(rest, id) as int;
        assert forall|j: int| 0 <= j < at + 1 implies ids[j] != id by {
            if j > 0 {
                assert(ids[j] == rest[j - 1]);
            }
        }
    }
}

/// The subjects of `properties`, in order.
pub open spec fn property_subjects(properties: Seq<PropertyView>) -> Seq<Text> {
    Seq::new(properties.len(), |i: int| properties[i].subject)
}

/// The subjects of `classes`, in order.
pub open spec fn class_subjects(classes: Seq<ClassView>) -> Seq<Text> {
    Seq::new(classes.len(), |i: int| classes[i].subject)
}

/// `pairs` with `value` for `property`: in place of the value that the
/// property had, or as a new pair at the end.
pub open spec fn with_pair(pairs: Seq<(Text, Text)>, property: Text, value: Text) -> Seq<
    (Text, Text),
> {
    let at = position(crate::model::properties_of(pairs), property) as int;
    if at < pairs.len() {
        pairs.update(at, (property, value))
    } else {
        pairs.push((property, value))
    }
}

/// What a [`Store`] holds.
pub struct StoreContent {
    /// The resources, in the order in which they were first named.
    pub resources: Seq<ResourceView>,
    /// The known properties, in the order in which they were added.
    pub properties: Seq<PropertyView>,
    /// The known classes, in the order in which they were added.
    pub classes: Seq<ClassView>,
    /// Which subject claims which class, as (subject, class).
    pub claims: Seq<(Text, Text)>,
}

impl StoreContent {
    /// The content of a store that holds nothing.
    pub open spec fn empty() -> StoreContent {
        StoreContent {
            resources: Seq::empty(),
            properties: Seq::empty(),
            classes: Seq::empty(),
            claims: Seq::empty(),
        }
    }

    /// Whether no two resources have the same subject and no resource has two
    /// pairs with the same property.
    pub open spec fn well_formed(self) -> bool {
        &&& crate::storelike::distinct_subjects(self.resources)
        &&& forall|i: int|
            0 <= i < self.resources.len() ==> crate::model::properties_of(
                (#[trigger] self.resources[i]).pairs,
            ).no_duplicates()
    }

    /// The first known property with the subject `url`; a message where there is none.
    pub open spec fn property(self, url: Text) -> Result<PropertyView, Text> {
        let at = position(property_subjects(self.properties), url) as int;
        if at < self.properties.len() {
            Ok(self.properties[at])
        } else {
            Err("Property not found: "@ + url)
        }
    }

    /// The classes that the first `upto` claims give to `subject`, in the
    /// order of the claims; a message for the first of these classes that is
    /// not known.
    pub open spec fn classes_upto(self, subject: Text, upto: nat) -> Result<Seq<ClassView>, Text>
        decreases upto,
    {
        if upto == 0 {
            Ok(Seq::empty())
        } else {
            let claim = self.claims[upto - 1];
            let at = position(class_subjects(self.classes), claim.1) as int;
            match self.classes_upto(subject, (upto - 1) as nat) {
                Err(message) => Err(message),
                Ok(earlier) => if claim.0 != subject {
                    Ok(earlier)
                } else if at < self.classes.len() {
                    Ok(earlier.push(self.classes[at]))
                } else {
                    Err("Class not found: "@ + claim.1)
                },
            }
        }
    }

    /// The classes that `subject` claims; a message for the first claimed
    /// class that is not known.
    pub open spec fn classes_of(self, subject: Text) -> Result<Seq<ClassView>, Text> {
        self.classes_upto(subject, self.claims.len())
    }

    /// This content with `atom` added: its value stands for its property in the
    /// resource of its subject, which is new at the end where no resource had
    /// that subject.
    pub open spec fn with_atom(self, atom: AtomView) -> StoreContent {
        let at = position(crate::storelike::subjects(self.resources), atom.subject) as int;
        StoreContent {
            resources: if at < self.resources.len() {
                self.resources.update(
                    at,
                    ResourceView {
                        subject: atom.subject,
                        pairs: with_pair(self.resources[at].pairs, atom.property, atom.value),
                    },
                )
            } else {
                self.resources.push(
                    ResourceView {
                        subject: atom.subject,
                        pairs: seq![(atom.property, atom.value)],
                    },
                )
            },
            ..self
        }
    }

    /// This content with `atoms` added one after the other.
    pub open spec fn with_atoms(self, atoms: Seq<AtomView>) -> StoreContent
        decreases atoms.len(),
    {
        if atoms.len() == 0 {
            self
        } else {
            self.with_atoms(atoms.drop_last()).with_atom(atoms.last())
        }
    }
}

/// Adding a pair keeps the properties of the pairs distinct.
proof fn lemma_with_pair_keeps_distinct(pairs: Seq<(Text, Text)>, property: Text, value: Text)
    requires
        crate::model::properties_of(pairs).no_duplicates(),
    ensures
        crate::model::properties_of(with_pair(pairs, property, value)).no_duplicates(),
{
    let were = crate::model::properties_of(pairs);
    let are = crate::model::properties_of(with_pair(pairs, property, value));
    lemma_position_ends(were, property);
    assert forall|i: int, j: int|
        0 <= i < are.len() && 0 <= j < are.len() && i != j implies are[i] != are[j] by {
        assert(i < were.len() ==> are[i] == were[i]);
        assert(j < were.len() ==> are[j] == were[j]);
    }
}

/// Adding an atom keeps the content well-formed.
pub proof fn lemma_with_atom_keeps_well_formed(content: StoreContent, atom: AtomView)
    requires
        content.well_formed(),
    ensures
        content.with_atom(atom).well_formed(),
{
    let next = content.with_atom(atom);
    let were = crate::storelike::subjects(content.resources);
    let are = crate::storelike::subjects(next.resources);
    let at = position(were, atom.subject) as int;
    lemma_position_ends(were, atom.subject);
    assert forall|i: int, j: int|
        0 <= i < are.len() && 0 <= j < are.len() && i != j implies are[i] != are[j] by {
        assert(i < were.len() ==> are[i] == were[i]);
        assert(j < were.len() ==> are[j] == were[j]);
    }
    assert forall|i: int| 0 <= i < next.resources.len() implies crate::model::properties_of(
        (#[trigger] next.resources[i]).pairs,
    ).no_duplicates() by {
        if i == at && at < content.resources.len() {
            lemma_with_pair_keeps_distinct(
                content.resources[at].pairs,
                atom.property,
                atom.value,
            );
        }
    }
}

/// A store held in memory. No two of its resources have the same subject, and
/// no resource has two pairs with the same property.
pub struct Store {
    resources: Vec<Resource>,
    properties: Vec<Property>,
    classes: Vec<Class>,
    claims: Vec<(String, String)>,
}

impl View for Store {
    type V = StoreContent;

    closed spec fn view(&self) -> StoreContent {
        StoreContent {
            resources: self.resources.deep_view(),
            properties: self.properties.deep_view(),
            classes: self.classes.deep_view(),
            claims: self.claims.deep_view(),
        }
    }
}

/// The position of the first of `resources` with the subject `subject`.
fn find_resource(resources: &Vec<Resource>, subject: &String) -> (at: usize)
    ensures
        at == position(crate::storelike::subjects(resources.deep_view()), subject@),
{
    let ghost ids = crate::storelike::subjects(resources.deep_view());
    let mut at: usize = 0;
    while at < resources.len()
        invariant
            at <= resources.len(),
            ids == crate::storelike::subjects(resources.deep_view()),
            forall|j: int| 0 <= j < at ==> ids[j] != subject@,
        decreases resources.len() - at,
    {
        if resources[at].subject == *subject {
            proof {
                lemma_position(ids, subject@, at as int);
            }
            return at;
        }
        at += 1;
    }
    proof {
        lemma_position(ids, subject@, at as int);
    }
    at
}

/// The position of the first of `pairs` with the property `property`.
fn find_pair(pairs: &Vec<(String, String)>, property: &String) -> (at: usize)
    ensures
        at == position(crate::model::properties_of(pairs.deep_view()), property@),
{
    let ghost ids = crate::model::properties_of(pairs.deep_view());
    let mut at: usize = 0;
    while at < pairs.len()
        invariant
            at <= pairs.len(),
            ids == crate::model::properties_of(pairs.deep_view()),
            forall|j: int| 0 <= j < at ==> ids[j] != property@,
        decreases pairs.len() - at,
    {
        if pairs[at].0 == *property {
            proof {
                lemma_position(ids, property@, at as int);
            }
            return at;
        }
        at += 1;
    }
    proof {
        lemma_position(ids, property@, at as int);
    }
    at
}

impl Store {
    #[verifier::type_invariant]
    closed spec fn well_formed(&self) -> bool {
        self@.well_formed()
    }

    /// A store that holds nothing.
    pub fn init() -> (store: Store)
        ensures
            store@ == StoreContent::empty(),
    {
        let store = Store {
            resources: Vec::new(),
            properties: Vec::new(),
            classes: Vec::new(),
            claims: Vec::new(),
        };
        assert(store@.resources =~= Seq::empty());
        assert(store@.properties =~= Seq::empty());
        assert(store@.classes =~= Seq::empty());
        assert(store@.claims =~= Seq::empty());
        store
    }

    /// Adds `atom`: its value stands for its property in the resource of its
    /// subject from now on.
    pub fn add_atom(&mut self, atom: Atom)
        ensures
            final(self)@ == old(self)@.with_atom(atom@),
    {
        proof {
            use_type_invariant(&*self);
        }
        let ghost before = self@;
        let mut resources: Vec<Resource> = Vec::new();
        std::mem::swap(&mut self.resources, &mut resources);
        let ghost held = resources.deep_view();
        let at = find_resource(&resources, &atom.subject);
        proof {
            lemma_position_ends(crate::storelike::subjects(held), atom.subject@);
        }
        if at < resources.len() {
            let ghost pairs = held[at as int].pairs;
            let spot = find_pair(&resources[at].pairs, &atom.property);
            proof {
                lemma_position_ends(crate::model::properties_of(pairs), atom.property@);
            }
            if spot < resources[at].pairs.len() {
                resources[at].pairs[spot].1 = atom.value;
                assert(resources@[at as int].pairs.deep_view() =~= pairs.update(
                    spot as int,
                    (atom.property@, atom.value@),
                ));
            } else {
                resources[at].pairs.push((atom.property, atom.value));
                assert(resources@[at as int].pairs.deep_view() =~= pairs.push(
                    (atom.property@, atom.value@),
                ));
            }
            assert(resources.deep_view() =~= before.with_atom(atom@).resources);
        } else {
            let mut pairs: Vec<(String, String)> = Vec::new();
            pairs.push((atom.property, atom.value));
            assert(pairs.deep_view() =~= seq![(atom.property@, atom.value@)]);
            resources.push(Resource { subject: atom.subject, pairs });
            assert(resources.deep_view() =~= before.with_atom(atom@).resources);
        }
        proof {
            lemma_with_atom_keeps_well_formed(before, atom@);
        }
        std::mem::swap(&mut self.resources, &mut resources);
    }

    /// Adds `atoms` one after the other.
    pub fn add_atoms(&mut self, atoms: Vec<Atom>)
        ensures
            final(self)@ == old(self)@.with_atoms(atoms.deep_view()),
    {
        let ghost before = self@;
        let ghost all = atoms.deep_view();
        let mut i: usize = 0;
        while i < atoms.len()
            invariant
                i <= atoms.len(),
                all == atoms.deep_view(),
                self@ == before.with_atoms(all.take(i as int)),
            decreases atoms.len() - i,
        {
            self.add_atom(atoms[i].clone());
            proof {
                assert(all.take(i + 1).drop_last() =~= all.take(i as int));
            }
            i += 1;
        }
        assert(all.take(i as int) =~= all);
    }

    /// Checks every resource of this store, without reading any fetch outcome.
    pub fn validate(&self) -> (report: ValidationReport)
        ensures
            report@ == ReportView::of_store(self, self@.resources, false, Seq::empty()),
            report.resource_count == self@.resources.len(),
            report.atom_count == crate::validate::capped(
                crate::laws::atoms_visited(self, self@.resources),
            ),
            report@.is_valid() <==> crate::laws::store_conforms(self, self@.resources),
    {
        let no_fetches: Vec<Option<String>> = Vec::new();
        assert(no_fetches.deep_view() =~= Seq::<Option<Text>>::empty());
        validate_store(self, false, &no_fetches)
    }

    /// Makes `property` known. A property that was known under the same
    /// subject stays the one that lookups find.
    pub fn add_property(&mut self, property: Property)
        ensures
            final(self)@ == (StoreContent {
                properties: old(self)@.properties.push(property@),
                ..old(self)@
            }),
    {
        proof {
            use_type_invariant(&*self);
        }
        let mut properties: Vec<Property> = Vec::new();
        std::mem::swap(&mut self.properties, &mut properties);
        let ghost before = properties;
        properties.push(property);
        proof {
            crate::model::lemma_deep_view_push(before, properties, property);
        }
        std::mem::swap(&mut self.properties, &mut properties);
    }

    /// Makes `class` known. A class that was known under the same subject
    /// stays the one that lookups find.
    pub fn add_class(&mut self, class: Class)
        ensures
            final(self)@ == (StoreContent {
                classes: old(self)@.classes.push(class@),
                ..old(self)@
            }),
    {
        proof {
            use_type_invariant(&*self);
        }
        let mut classes: Vec<Class> = Vec::new();
        std::mem::swap(&mut self.classes, &mut classes);
        let ghost before = classes;
        classes.push(class);
        proof {
            crate::model::lemma_deep_view_push(before, classes, class);
        }
        std::mem::swap(&mut self.classes, &mut classes);
    }

    /// Records that `subject` claims the class `class`.
    pub fn add_claim(&mut self, subject: String, class: String)
        ensures
            final(self)@ == (StoreContent {
                claims: old(self)@.claims.push((subject@, class@)),
                ..old(self)@
            }),
    {
        proof {
            use_type_invariant(&*self);
        }
        let mut claims: Vec<(String, String)> = Vec::new();
        std::mem::swap(&mut self.claims, &mut claims);
        let ghost before = claims;
        let claim = (subject, class);
        claims.push(claim);
        proof {
            crate::model::lemma_deep_view_push(before, claims, claim);
        }
        std::mem::swap(&mut self.claims, &mut claims);
    }
}

/// The position of the first of `properties` with the subject `url`.
fn find_property(properties: &Vec<Property>, url: &String) -> (at: usize)
    ensures
        at == position(property_subjects(properties.deep_view()), url@),
{
    let ghost ids = property_subjects(properties.deep_view());
    let mut at: usize = 0;
    while at < properties.len()
        invariant
            at <= properties.len(),
            ids == property_subjects(properties.deep_view()),
            forall|j: int| 0 <= j < at ==> ids[j] != url@,
        decreases properties.len() - at,
    {
        if properties[at].subject == *url {
            proof {
                lemma_position(ids, url@, at as int);
            }
            return at;
        }
        at += 1;
    }
    proof {
        lemma_position(ids, url@, at as int);
    }
    at
}

/// The position of the first of `classes` with the subject `url`.
fn find_class(classes: &Vec<Class>, url: &String) -> (at: usize)
    ensures
        at == position(class_subjects(classes.deep_view()), url@),
{
    let ghost ids = class_subjects(classes.deep_view());
    let mut at: usize = 0;
    while at < classes.len()
        invariant
            at <= classes.len(),
            ids == class_subjects(classes.deep_view()),
            forall|j: int| 0 <= j < at ==> ids[j] != url@,
        decreases classes.len() - at,
    {
        if classes[at].subject == *url {
            proof {
                lemma_position(ids, url@, at as int);
            }
            return at;
        }
        at += 1;
    }
    proof {
        lemma_position(ids, url@, at as int);
    }
    at
}

impl Storelike for Store {
    open spec fn resources(&self) -> Seq<ResourceView> {
        self@.resources
    }

    open spec fn property(&self, url: Text) -> Result<PropertyView, Text> {
        self@.property(url)
    }

    open spec fn classes(&self, subject: Text) -> Result<Seq<ClassView>, Text> {
        self@.classes_of(subject)
    }

    fn all_resources(&self) -> (resources: Vec<Resource>)
        ensures
            self@.well_formed(),
    {
        proof {
            use_type_invariant(self);
        }
        let mut resources: Vec<Resource> = Vec::new();
        let mut i: usize = 0;
        while i < self.resources.len()
            invariant
                i <= self.resources.len(),
                resources.deep_view() == self.resources.deep_view().take(i as int),
            decreases self.resources.len() - i,
        {
            let ghost before = resources;
            let resource = self.resources[i].clone();
            resources.push(resource);
            proof {
                crate::model::lemma_deep_view_push(before, resources, resource);
            }
            i += 1;
        }
        resources
    }

    fn get_property(&self, url: &String) -> (found: Result<Property, String>) {
        let at = find_property(&self.properties, url);
        if at < self.properties.len() {
            Ok(self.properties[at].clone())
        } else {
            let mut message = String::from_str("Property not found: ");
            message.append(url.as_str());
            Err(message)
        }
    }

    fn get_classes_for_subject(&self, subject: &String) -> (found: Result<Vec<Class>, String>) {
        let mut classes: Vec<Class> = Vec::new();
        let mut i: usize = 0;
        assert(classes.deep_view() =~= Seq::<ClassView>::empty());
        while i < self.claims.len()
            invariant
                i <= self.claims.len(),
                self@.classes_upto(subject@, i as nat) == Ok::<Seq<ClassView>, Text>(
                    classes.deep_view(),
                ),
            decreases self.claims.len() - i,
        {
            let claim = &self.claims[i];
            if claim.0 == *subject {
                let at = find_class(&self.classes, &claim.1);
                if at < self.classes.len() {
                    let ghost before = classes;
                    let class = self.classes[at].clone();
                    classes.push(class);
                    proof {
                        crate::model::lemma_deep_view_push(before, classes, class);
                    }
                } else {
                    let mut message = String::from_str("Class not found: ");
                    message.append(claim.1.as_str());
                    proof {
                        lemma_classes_error_stays(self@, subject@, (i + 1) as nat);
                    }
                    return Err(message);
                }
            }
            i += 1;
        }
        Ok(classes)
    }
}

/// Once a claimed class is not known, later claims do not change the message.
proof fn lemma_classes_error_stays(content: StoreContent, subject: Text, upto: nat)
    requires
        upto <= content.claims.len(),
        content.classes_upto(subject, upto) is Err,
    ensures
        content.classes_of(subject) == content.classes_upto(subject, upto),
    decreases content.claims.len() - upto,
{
    if upto < content.claims.len() {
        lemma_classes_error_stays(content, subject, upto + 1);
    }
}

} // verus!
