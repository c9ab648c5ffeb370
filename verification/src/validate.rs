//! The validation walk over a store, and the report that it produces.

use crate::model::{Atom, AtomView, Class, ClassView, PropertyView, Resource, ResourceView, Text};
use crate::storelike::Storelike;
use crate::values::Value;
use vstd::prelude::*;

verus! {

/// What one validation run found.
///
/// The four lists `unfetchable`, `unfetchable_classes`, `unfetchable_props` and
/// `invalid_value` are the defects that decide validity. `missing_props` lists
/// the required properties that a resource lacks, as (subject, property, class);
/// it is kept for diagnostics only and neither validity nor the rendering
/// reads it.
#[derive(Debug)]
pub struct ValidationReport {
    pub resource_count: usize,
    pub atom_count: usize,
    pub unfetchable: Vec<(String, String)>,
    pub invalid_value: Vec<(Atom, String)>,
    pub unfetchable_props: Vec<(String, String)>,
    pub unfetchable_classes: Vec<(String, String)>,
    pub missing_props: Vec<(String, String, String)>,
}

/// The mathematical content of a [`ValidationReport`].
pub struct ReportView {
    pub resource_count: nat,
    pub atom_count: nat,
    pub unfetchable: Seq<(Text, Text)>,
    pub invalid_value: Seq<(AtomView, Text)>,
    pub unfetchable_props: Seq<(Text, Text)>,
    pub unfetchable_classes: Seq<(Text, Text)>,
    pub missing_props: Seq<(Text, Text, Text)>,
}

impl View for ValidationReport {
    type V = ReportView;

    open spec fn view(&self) -> ReportView {
        ReportView {
            resource_count: self.resource_count as nat,
            atom_count: self.atom_count as nat,
            unfetchable: self.unfetchable.deep_view(),
            invalid_value: self.invalid_value.deep_view(),
            unfetchable_props: self.unfetchable_props.deep_view(),
            unfetchable_classes: self.unfetchable_classes.deep_view(),
            missing_props: self.missing_props.deep_view(),
        }
    }
}

/// A count as a counter of the report holds it: the counters stop at `usize::MAX`.
pub open spec fn capped(count: nat) -> nat {
    if count <= usize::MAX {
        count
    } else {
        usize::MAX as nat
    }
}

/// How many leading pairs have a property that the store resolves.
pub open spec fn resolved_prefix<S: Storelike + ?Sized>(store: &S, pairs: Seq<(Text, Text)>) -> nat
    decreases pairs.len(),
{
    if pairs.len() == 0 || store.property(pairs[0].0) is Err {
        0
    } else {
        1 + resolved_prefix(store, pairs.drop_first())
    }
}

/// How many pairs the walk visits: those of the resolved prefix and, where
/// there is one, the pair whose property does not resolve.
pub open spec fn pairs_visited<S: Storelike + ?Sized>(store: &S, pairs: Seq<(Text, Text)>) -> nat {
    let reached = resolved_prefix(store, pairs);
    if reached < pairs.len() {
        reached + 1
    } else {
        reached
    }
}

/// The finding for one pair of `subject` whose property resolves: the atom and
/// the parse error, if the value is not of the property's datatype.
pub open spec fn ill_typed<S: Storelike + ?Sized>(store: &S, subject: Text) -> spec_fn(
    (Text, Text),
) -> Option<(AtomView, Text)> {
    |pair: (Text, Text)|
        match store.property(pair.0) {
            Ok(property) => match property.data_type.parse_error(pair.1) {
                Some(message) => Some(
                    (AtomView { subject, property: pair.0, value: pair.1 }, message),
                ),
                None => None,
            },
            Err(_) => None,
        }
}

/// The finding for one required property of a class: it is missing if it is
/// not among `found`.
pub open spec fn missing_one(subject: Text, found: Seq<Text>, class: Text) -> spec_fn(
    PropertyView,
) -> Option<(Text, Text, Text)> {
    |required: PropertyView|
        if found.contains(required.subject) {
            None
        } else {
            Some((subject, required.subject, class))
        }
}

/// The required properties of one class that are not among `found`.
pub open spec fn missing_in(subject: Text, found: Seq<Text>) -> spec_fn(ClassView) -> Seq<
    (Text, Text, Text),
> {
    |class: ClassView| class.required.filter_map(missing_one(subject, found, class.subject))
}

impl ReportView {
    /// The report of a run that visited nothing.
    pub open spec fn empty() -> ReportView {
        ReportView {
            resource_count: 0,
            atom_count: 0,
            unfetchable: Seq::empty(),
            invalid_value: Seq::empty(),
            unfetchable_props: Seq::empty(),
            unfetchable_classes: Seq::empty(),
            missing_props: Seq::empty(),
        }
    }

    /// This report continued by `next`: the counters add up and stop at
    /// `usize::MAX`, and each list of `next` follows the list of `self`.
    pub open spec fn join(self, next: ReportView) -> ReportView {
        ReportView {
            resource_count: capped(self.resource_count + next.resource_count),
            atom_count: capped(self.atom_count + next.atom_count),
            unfetchable: self.unfetchable + next.unfetchable,
            invalid_value: self.invalid_value + next.invalid_value,
            unfetchable_props: self.unfetchable_props + next.unfetchable_props,
            unfetchable_classes: self.unfetchable_classes + next.unfetchable_classes,
            missing_props: self.missing_props + next.missing_props,
        }
    }

    /// True iff the four defect lists are empty. The missing required
    /// properties do not count.
    pub open spec fn is_valid(self) -> bool {
        &&& self.unfetchable.len() == 0
        &&& self.unfetchable_classes.len() == 0
        &&& self.unfetchable_props.len() == 0
        &&& self.invalid_value.len() == 0
    }

    /// What the walk finds on one resource. `fetch_error` is the message of the
    /// failed fetch of the subject, `None` where the fetch succeeded or was not
    /// asked for.
    ///
    /// The pairs are visited in order up to and including the first whose
    /// property the store does not resolve. Each pair before it is type-checked
    /// and its property counts as found. The class lookup follows in any case.
    pub open spec fn of_resource<S: Storelike + ?Sized>(
        store: &S,
        resource: ResourceView,
        fetch_error: Option<Text>,
    ) -> ReportView {
        let reached = resolved_prefix(store, resource.pairs) as int;
        let stopped = reached < resource.pairs.len();
        let found = resource.properties().take(reached);
        ReportView {
            resource_count: 1,
            atom_count: pairs_visited(store, resource.pairs),
            unfetchable: match fetch_error {
                Some(message) => seq![(resource.subject, message)],
                None => Seq::empty(),
            },
            invalid_value: resource.pairs.take(reached).filter_map(
                ill_typed(store, resource.subject),
            ),
            unfetchable_props: if stopped {
                seq![
                    (
                        resource.pairs[reached].0,
                        store.property(resource.pairs[reached].0)->Err_0,
                    ),
                ]
            } else {
                Seq::empty()
            },
            unfetchable_classes: match store.classes(resource.subject) {
                Ok(_) => Seq::empty(),
                Err(message) => seq![(resource.subject, message)],
            },
            missing_props: match store.classes(resource.subject) {
                Ok(classes) => classes.flat_map(missing_in(resource.subject, found)),
                Err(_) => Seq::empty(),
            },
        }
    }

    /// What the walk finds on `resources`, visited in order. With `fetch_items`,
    /// `fetch_errors[i]` is the outcome of fetching the subject of
    /// `resources[i]`; without it no fetch outcome is read.
    pub open spec fn of_store<S: Storelike + ?Sized>(
        store: &S,
        resources: Seq<ResourceView>,
        fetch_items: bool,
        fetch_errors: Seq<Option<Text>>,
    ) -> ReportView
        decreases resources.len(),
    {
        if resources.len() == 0 {
            ReportView::empty()
        } else {
            let last = resources.len() - 1;
            ReportView::of_store(store, resources.drop_last(), fetch_items, fetch_errors).join(
                ReportView::of_resource(
                    store,
                    resources[last],
                    if fetch_items {
                        fetch_errors[last]
                    } else {
                        None
                    },
                ),
            )
        }
    }
}

impl ValidationReport {
    /// The report of a run that has visited nothing yet.
    pub fn new() -> (report: ValidationReport)
        ensures
            report@ == ReportView::empty(),
    {
        let report = ValidationReport {
            resource_count: 0,
            atom_count: 0,
            unfetchable: Vec::new(),
            invalid_value: Vec::new(),
            unfetchable_props: Vec::new(),
            unfetchable_classes: Vec::new(),
            missing_props: Vec::new(),
        };
        assert(report@.invalid_value =~= Seq::empty());
        assert(report@.unfetchable_classes =~= Seq::empty());
        assert(report@.missing_props =~= Seq::empty());
        report
    }

    /// Whether the run found no defect: no failed fetch, no failed class or
    /// property lookup, no ill-typed value.
    pub fn is_valid(&self) -> (valid: bool)
        ensures
            valid == self@.is_valid(),
    {
        self.unfetchable.is_empty() && self.unfetchable_classes.is_empty()
            && self.unfetchable_props.is_empty() && self.invalid_value.is_empty()
    }
}

/// The pairs before position `reached` resolve and the pair at `reached`, if
/// there is one, does not: then `reached` is the length of the resolved prefix.
pub proof fn lemma_resolved_prefix<S: Storelike + ?Sized>(
    store: &S,
    pairs: Seq<(Text, Text)>,
    reached: int,
)
    requires
        0 <= reached <= pairs.len(),
        forall|j: int| 0 <= j < reached ==> store.property((#[trigger] pairs[j]).0) is Ok,
        reached < pairs.len() ==> store.property(pairs[reached].0) is Err,
    ensures
        resolved_prefix(store, pairs) == reached,
    decreases pairs.len(),
{
    if reached > 0 {
        let rest = pairs.drop_first();
        lemma_resolved_prefix(store, rest, reached - 1);
    }
}

/// Adds one to a counter that stops at `usize::MAX`.
fn count_one(counter: usize) -> (next: usize)
    ensures
        next == capped(counter as nat + 1),
{
    if counter < usize::MAX {
        counter + 1
    } else {
        counter
    }
}

/// Whether `needle` is among `texts`.
fn text_in(texts: &Vec<String>, needle: &String) -> (found: bool)
    ensures
        found == texts.deep_view().contains(needle@),
{
    let mut i: usize = 0;
    while i < texts.len()
        invariant
            i <= texts.len(),
            forall|j: int| 0 <= j < i ==> texts.deep_view()[j] != needle@,
        decreases texts.len() - i,
    {
        if texts[i] == *needle {
            assert(texts.deep_view()[i as int] == needle@);
            return true;
        }
        i += 1;
    }
    false
}

/// Visits the pairs of `resource`: counts each visited pair, records the first
/// property that does not resolve and stops there, and records each value that
/// is not of its property's datatype. Returns the properties found before the stop.
fn check_pairs<S: Storelike + ?Sized>(
    store: &S,
    resource: &Resource,
    report: &mut ValidationReport,
) -> (found: Vec<String>)
    ensures
        found.deep_view() == resource@.properties().take(
            resolved_prefix(store, resource@.pairs) as int,
        ),
        final(report)@ == (ReportView {
            atom_count: capped(
                old(report)@.atom_count + ReportView::of_resource(
                    store,
                    resource@,
                    None,
                ).atom_count,
            ),
            invalid_value: old(report)@.invalid_value + ReportView::of_resource(
                store,
                resource@,
                None,
            ).invalid_value,
            unfetchable_props: old(report)@.unfetchable_props + ReportView::of_resource(
                store,
                resource@,
                None,
            ).unfetchable_props,
            ..old(report)@
        }),
{
    let ghost start = (*report)@;
    let ghost pairs = resource@.pairs;
    let ghost finding = ill_typed(store, resource@.subject);
    let mut found: Vec<String> = Vec::new();
    let mut resolved = true;
    let mut i: usize = 0;
    while resolved && i < resource.pairs.len()
        invariant
            pairs == resource@.pairs,
            pairs.len() == resource.pairs.len(),
            finding == ill_typed(store, resource@.subject),
            i <= resource.pairs.len(),
            forall|j: int| 0 <= j < i ==> store.property((#[trigger] pairs[j]).0) is Ok,
            found.deep_view() == resource@.properties().take(i as int),
            report@.resource_count == start.resource_count,
            report@.unfetchable == start.unfetchable,
            report@.unfetchable_classes == start.unfetchable_classes,
            report@.missing_props == start.missing_props,
            report@.invalid_value == start.invalid_value + pairs.take(i as int).filter_map(
                finding,
            ),
            resolved ==> report@.unfetchable_props == start.unfetchable_props
                && report@.atom_count == capped(start.atom_count + i as nat),
            !resolved ==> i < pairs.len() && store.property(pairs[i as int].0) is Err
                && report@.unfetchable_props == start.unfetchable_props.push(
                (pairs[i as int].0, store.property(pairs[i as int].0)->Err_0),
            ) && report@.atom_count == capped(start.atom_count + i as nat + 1),
        decreases resource.pairs.len() - i + if resolved { 1int } else { 0int },
    {
        let pair = &resource.pairs[i];
        report.atom_count = count_one(report.atom_count);
        match store.get_property(&pair.0) {
            Err(message) => {
                report.unfetchable_props.push((pair.0.clone(), message));
                resolved = false;
            },
            Ok(property) => {
                if let Err(message) = Value::new(&pair.1, &property.data_type) {
                    let ghost before = report.invalid_value;
                    let entry = (
                        Atom::new(resource.subject.clone(), pair.0.clone(), pair.1.clone()),
                        message,
                    );
                    report.invalid_value.push(entry);
                    proof {
                        crate::model::lemma_deep_view_push(before, report.invalid_value, entry);
                    }
                }
                let ghost before = found;
                let property_id = pair.0.clone();
                found.push(property_id);
                proof {
                    crate::model::lemma_deep_view_push(before, found, property_id);
                    pairs.lemma_filter_map_take_succ(finding, i as int);
                }
                i += 1;
            },
        }
    }
    proof {
        lemma_resolved_prefix(store, pairs, i as int);
        let piece = ReportView::of_resource(store, resource@, None);
        assert(report@.unfetchable_props =~= start.unfetchable_props + piece.unfetchable_props);
    }
    found
}

/// Looks up the classes that the subject of `resource` claims. Records a failed
/// lookup; else records each required property of each class that is not among `found`.
fn check_classes<S: Storelike + ?Sized>(
    store: &S,
    resource: &Resource,
    found: &Vec<String>,
    report: &mut ValidationReport,
)
    ensures
        final(report)@ == (ReportView {
            unfetchable_classes: old(report)@.unfetchable_classes + match store.classes(
                resource@.subject,
            ) {
                Ok(_) => Seq::empty(),
                Err(message) => seq![(resource@.subject, message)],
            },
            missing_props: old(report)@.missing_props + match store.classes(resource@.subject) {
                Ok(classes) => classes.flat_map(missing_in(resource@.subject, found.deep_view())),
                Err(_) => Seq::empty(),
            },
            ..old(report)@
        }),
{
    let ghost start = (*report)@;
    let ghost per_class = missing_in(resource@.subject, found.deep_view());
    match store.get_classes_for_subject(&resource.subject) {
        Err(message) => {
            let entry = (resource.subject.clone(), message);
            report.unfetchable_classes.push(entry);
            assert(report@.unfetchable_classes =~= start.unfetchable_classes + seq![
                (resource@.subject, entry.1@),
            ]);
        },
        Ok(classes) => {
            let ghost claimed = classes.deep_view();
            let mut c: usize = 0;
            while c < classes.len()
                invariant
                    c <= classes.len(),
                    claimed == classes.deep_view(),
                    per_class == missing_in(resource@.subject, found.deep_view()),
                    report@ == (ReportView {
                        missing_props: start.missing_props + claimed.take(c as int).flat_map(
                            per_class,
                        ),
                        ..start
                    }),
                decreases classes.len() - c,
            {
                let class = &classes[c];
                let ghost required = class@.required;
                let ghost per_property = missing_one(
                    resource@.subject,
                    found.deep_view(),
                    class@.subject,
                );
                let ghost so_far = start.missing_props + claimed.take(c as int).flat_map(
                    per_class,
                );
                let mut r: usize = 0;
                while r < class.required.len()
                    invariant
                        r <= class.required.len(),
                        required == class@.required,
                        per_property == missing_one(
                            resource@.subject,
                            found.deep_view(),
                            class@.subject,
                        ),
                        report@ == (ReportView {
                            missing_props: so_far + required.take(r as int).filter_map(
                                per_property,
                            ),
                            ..start
                        }),
                    decreases class.required.len() - r,
                {
                    let property = &class.required[r];
                    if !text_in(found, &property.subject) {
                        let ghost before = report.missing_props;
                        let entry = (
                            resource.subject.clone(),
                            property.subject.clone(),
                            class.subject.clone(),
                        );
                        report.missing_props.push(entry);
                        proof {
                            crate::model::lemma_deep_view_push(before, report.missing_props, entry);
                        }
                    }
                    proof {
                        required.lemma_filter_map_take_succ(per_property, r as int);
                        assert(report@.missing_props =~= so_far + required.take(
                            r + 1,
                        ).filter_map(per_property));
                    }
                    r += 1;
                }
                proof {
                    assert(required.take(r as int) =~= required);
                    claimed.lemma_flat_map_take_append(per_class, c as int);
                    assert(report@.missing_props =~= start.missing_props + claimed.take(
                        c + 1,
                    ).flat_map(per_class));
                }
                c += 1;
            }
            proof {
                assert(claimed.take(c as int) =~= claimed);
            }
        },
    }
}

/// Visits one resource and adds what it finds to `report`.
///
/// `fetch_error` is the message of the failed fetch of the resource's subject;
/// `None` where the fetch succeeded or was not asked for. A failed fetch is
/// recorded and does not stop the other checks.
pub fn validate_resource<S: Storelike + ?Sized>(
    store: &S,
    resource: &Resource,
    fetch_error: &Option<String>,
    report: &mut ValidationReport,
)
    ensures
        final(report)@ == old(report)@.join(
            ReportView::of_resource(store, resource@, fetch_error.deep_view()),
        ),
{
    let ghost start = (*report)@;
    let ghost piece = ReportView::of_resource(store, resource@, fetch_error.deep_view());
    report.resource_count = count_one(report.resource_count);
    if let Some(message) = fetch_error {
        report.unfetchable.push((resource.subject.clone(), message.clone()));
    }
    let found = check_pairs(store, resource, report);
    check_classes(store, resource, &found, report);
    proof {
        let joined = start.join(piece);
        assert(report@.unfetchable =~= joined.unfetchable);
    }
}

/// The subjects whose fetch outcomes a run reads, in the order in which it
/// reads them: with `fetch_items` the subject of every resource of `store`,
/// without it none.
pub fn subjects_to_fetch<S: Storelike + ?Sized>(store: &S, fetch_items: bool) -> (subjects: Vec<
    String,
>)
    ensures
        subjects.deep_view() == if fetch_items {
            crate::storelike::subjects(store.resources())
        } else {
            Seq::empty()
        },
{
    let mut subjects: Vec<String> = Vec::new();
    if !fetch_items {
        return subjects;
    }
    let resources = store.all_resources();
    let ghost all = crate::storelike::subjects(store.resources());
    let mut i: usize = 0;
    while i < resources.len()
        invariant
            i <= resources.len(),
            resources.deep_view() == store.resources(),
            all == crate::storelike::subjects(store.resources()),
            subjects.deep_view() == all.take(i as int),
        decreases resources.len() - i,
    {
        let ghost before = subjects;
        let subject = resources[i].subject.clone();
        subjects.push(subject);
        proof {
            crate::model::lemma_deep_view_push(before, subjects, subject);
        }
        i += 1;
    }
    subjects
}

/// Checks every resource of `store` and reports all that is wrong with them.
///
/// For each resource, in the order of the store: the pairs are visited up to
/// and including the first whose property does not resolve; each value before
/// it is read under its property's datatype; then the classes of the subject
/// are looked up and their required properties compared with those found.
/// Nothing stops the walk: every resource is visited.
///
/// With `fetch_items`, `fetch_errors` holds for each resource, in the same
/// order, the message of the failed fetch of its subject, or `None`. Without
/// it `fetch_errors` is not read.
pub fn validate_store<S: Storelike + ?Sized>(
    store: &S,
    fetch_items: bool,
    fetch_errors: &Vec<Option<String>>,
) -> (report: ValidationReport)
    requires
        fetch_items ==> fetch_errors.len() == store.resources().len(),
    ensures
        report@ == ReportView::of_store(
            store,
            store.resources(),
            fetch_items,
            fetch_errors.deep_view(),
        ),
        report.resource_count == store.resources().len(),
        report.resource_count == crate::storelike::subjects(store.resources()).to_set().len(),
        report.atom_count == capped(crate::laws::atoms_visited(store, store.resources())),
        report@.is_valid() <==> (crate::laws::store_conforms(store, store.resources()) && (
        fetch_items ==> crate::laws::no_failed_fetch(
            store.resources().len(),
            fetch_errors.deep_view(),
        ))),
{
    let resources = store.all_resources();
    let ghost all = store.resources();
    let ghost errors = fetch_errors.deep_view();
    let not_fetched: Option<String> = None;
    let mut report = ValidationReport::new();
    let mut i: usize = 0;
    while i < resources.len()
        invariant
            i <= resources.len(),
            all == store.resources(),
            all == resources.deep_view(),
            errors == fetch_errors.deep_view(),
            not_fetched is None,
            fetch_items ==> fetch_errors.len() == resources.len(),
            report@ == ReportView::of_store(store, all.take(i as int), fetch_items, errors),
            report.resource_count == i,
        decreases resources.len() - i,
    {
        let fetch_error = if fetch_items {
            &fetch_errors[i]
        } else {
            &not_fetched
        };
        validate_resource(store, &resources[i], fetch_error, &mut report);
        proof {
            let visited = all.take(i + 1);
            assert(visited.drop_last() =~= all.take(i as int));
        }
        i += 1;
    }
    proof {
        assert(all.take(i as int) =~= all);
        crate::laws::lemma_distinct_subjects_count(all);
        crate::laws::lemma_counters(store, all, fetch_items, errors);
        crate::laws::lemma_valid_iff_conforms(store, all, fetch_items, errors);
    }
    report
}

} // verus!
