//! What holds of every validation run, proved from the definition of the walk.

use crate::model::{AtomView, ResourceView, Text};
use crate::storelike::Storelike;
use crate::validate::ReportView;
use vstd::prelude::*;

verus! {

/// The store resolves the property of `pair` and the value is of its datatype.
pub open spec fn pair_conforms<S: Storelike + ?Sized>(store: &S, pair: (Text, Text)) -> bool {
    match store.property(pair.0) {
        Ok(property) => property.data_type.parse_error(pair.1) is None,
        Err(_) => false,
    }
}

/// Every pair of `resource` conforms and the lookup of its classes succeeds.
pub open spec fn resource_conforms<S: Storelike + ?Sized>(
    store: &S,
    resource: ResourceView,
) -> bool {
    &&& forall|j: int|
        0 <= j < resource.pairs.len() ==> pair_conforms(store, #[trigger] resource.pairs[j])
    &&& store.classes(resource.subject) is Ok
}

/// Every one of `resources` conforms: the store holds well-typed atoms only and
/// every reference resolves.
pub open spec fn store_conforms<S: Storelike + ?Sized>(
    store: &S,
    resources: Seq<ResourceView>,
) -> bool {
    forall|i: int| 0 <= i < resources.len() ==> resource_conforms(store, #[trigger] resources[i])
}

/// None of the first `count` fetch outcomes is a failure.
pub open spec fn no_failed_fetch(count: nat, fetch_errors: Seq<Option<Text>>) -> bool {
    forall|i: int| 0 <= i < count ==> (#[trigger] fetch_errors[i]) is None
}

/// How many pairs the walk visits on `resources` in all.
pub open spec fn atoms_visited<S: Storelike + ?Sized>(
    store: &S,
    resources: Seq<ResourceView>,
) -> nat
    decreases resources.len(),
{
    if resources.len() == 0 {
        0
    } else {
        atoms_visited(store, resources.drop_last()) + crate::validate::pairs_visited(
            store,
            resources.last().pairs,
        )
    }
}

/// How many pairs the walk type-checks on `resources` in all.
pub open spec fn atoms_checked<S: Storelike + ?Sized>(
    store: &S,
    resources: Seq<ResourceView>,
) -> nat
    decreases resources.len(),
{
    if resources.len() == 0 {
        0
    } else {
        atoms_checked(store, resources.drop_last()) + crate::validate::resolved_prefix(
            store,
            resources.last().pairs,
        )
    }
}

/// How many pairs `resources` hold in all.
pub open spec fn atoms_held(resources: Seq<ResourceView>) -> nat
    decreases resources.len(),
{
    if resources.len() == 0 {
        0
    } else {
        atoms_held(resources.drop_last()) + resources.last().pairs.len()
    }
}

/// The failed fetches among `resources`, in order, each with its message.
pub open spec fn failed_fetches(
    resources: Seq<ResourceView>,
    fetch_errors: Seq<Option<Text>>,
) -> Seq<(Text, Text)>
    decreases resources.len(),
{
    if resources.len() == 0 {
        Seq::empty()
    } else {
        let last = resources.len() - 1;
        let earlier = failed_fetches(resources.drop_last(), fetch_errors);
        match fetch_errors[last] {
            Some(message) => earlier.push((resources[last].subject, message)),
            None => earlier,
        }
    }
}

/// Where no two resources have the same subject, there are as many resources
/// as distinct subjects.
pub proof fn lemma_distinct_subjects_count(resources: Seq<ResourceView>)
    requires
        crate::storelike::distinct_subjects(resources),
    ensures
        crate::storelike::subjects(resources).to_set().len() == resources.len(),
{
    crate::storelike::subjects(resources).unique_seq_to_set();
}

/// The resolved prefix is within the pairs, each pair of it resolves, and the
/// pair after it, if there is one, does not.
pub proof fn lemma_resolved_prefix_ends<S: Storelike + ?Sized>(
    store: &S,
    pairs: Seq<(Text, Text)>,
)
    ensures
        crate::validate::resolved_prefix(store, pairs) <= pairs.len(),
        forall|j: int|
            0 <= j < crate::validate::resolved_prefix(store, pairs) ==> store.property(
                (#[trigger] pairs[j]).0,
            ) is Ok,
        crate::validate::resolved_prefix(store, pairs) < pairs.len() ==> store.property(
            pairs[crate::validate::resolved_prefix(store, pairs) as int].0,
        ) is Err,
    decreases pairs.len(),
{
    if pairs.len() != 0 && store.property(pairs[0].0) is Ok {
        let rest = pairs.drop_first();
        lemma_resolved_prefix_ends(store, rest);
        let reached = crate::validate::resolved_prefix(store, rest) as int;
        assert forall|j: int| 0 <= j < reached + 1 implies store.property(
            (#[trigger] pairs[j]).0,
        ) is Ok by {
            if j > 0 {
                assert(pairs[j] == rest[j - 1]);
            }
        }
    }
}

/// Where `finding` gives nothing for any of `items`, nothing is kept of them.
proof fn lemma_filter_map_nothing<A, B>(items: Seq<A>, finding: spec_fn(A) -> Option<B>)
    requires
        forall|i: int| 0 <= i < items.len() ==> finding(#[trigger] items[i]) is None,
    ensures
        items.filter_map(finding) == Seq::<B>::empty(),
    decreases items.len(),
{
    if items.len() > 0 {
        let rest = items.drop_last();
        lemma_filter_map_nothing(rest, finding);
    }
}

/// Where `finding` gives something for one of `items`, something is kept of them.
proof fn lemma_filter_map_something<A, B>(
    items: Seq<A>,
    finding: spec_fn(A) -> Option<B>,
    at: int,
)
    requires
        0 <= at < items.len(),
        finding(items[at]) is Some,
    ensures
        items.filter_map(finding).len() > 0,
    decreases items.len(),
{
    if at < items.len() - 1 {
        let rest = items.drop_last();
        lemma_filter_map_something(rest, finding, at);
    }
}

/// Where `finding` gives something for exactly one of `items`, that alone is kept.
proof fn lemma_filter_map_one<A, B>(items: Seq<A>, finding: spec_fn(A) -> Option<B>, at: int)
    requires
        0 <= at < items.len(),
        finding(items[at]) is Some,
        forall|i: int| 0 <= i < items.len() && i != at ==> finding(#[trigger] items[i]) is None,
    ensures
        items.filter_map(finding) == seq![finding(items[at])->Some_0],
    decreases items.len(),
{
    let rest = items.drop_last();
    if at == items.len() - 1 {
        lemma_filter_map_nothing(rest, finding);
    } else {
        lemma_filter_map_one(rest, finding, at);
    }
}

/// A resource is reported without defect exactly if it conforms and its fetch
/// did not fail.
pub proof fn lemma_resource_valid_iff_conforms<S: Storelike + ?Sized>(
    store: &S,
    resource: ResourceView,
    fetch_error: Option<Text>,
)
    ensures
        ReportView::of_resource(store, resource, fetch_error).is_valid() <==> (resource_conforms(
            store,
            resource,
        ) && fetch_error is None),
{
    let pairs = resource.pairs;
    let reached = crate::validate::resolved_prefix(store, pairs) as int;
    let finding = crate::validate::ill_typed(store, resource.subject);
    let report = ReportView::of_resource(store, resource, fetch_error);
    lemma_resolved_prefix_ends(store, pairs);
    if resource_conforms(store, resource) {
        assert(pairs.take(reached) =~= pairs);
        lemma_filter_map_nothing(pairs, finding);
    }
    if report.is_valid() {
        assert(pairs.take(reached) =~= pairs);
        assert forall|j: int| 0 <= j < pairs.len() implies pair_conforms(
            store,
            #[trigger] pairs[j],
        ) by {
            if finding(pairs[j]) is Some {
                lemma_filter_map_something(pairs, finding, j);
            }
        }
    }
}

/// A store that holds well-typed atoms only and whose references all resolve
/// is reported valid, where no fetch is asked for. With fetches it is reported
/// valid where none of them failed. No other store is reported valid.
pub proof fn lemma_valid_iff_conforms<S: Storelike + ?Sized>(
    store: &S,
    resources: Seq<ResourceView>,
    fetch_items: bool,
    fetch_errors: Seq<Option<Text>>,
)
    ensures
        ReportView::of_store(store, resources, fetch_items, fetch_errors).is_valid() <==> (
        store_conforms(store, resources) && (fetch_items ==> no_failed_fetch(
            resources.len(),
            fetch_errors,
        ))),
    decreases resources.len(),
{
    if resources.len() > 0 {
        let earlier = resources.drop_last();
        let last = resources.len() - 1;
        lemma_valid_iff_conforms(store, earlier, fetch_items, fetch_errors);
        lemma_resource_valid_iff_conforms(
            store,
            resources.last(),
            if fetch_items {
                fetch_errors[last]
            } else {
                None
            },
        );
        if store_conforms(store, earlier) && resource_conforms(store, resources.last()) {
            assert forall|i: int| 0 <= i < resources.len() implies resource_conforms(
                store,
                #[trigger] resources[i],
            ) by {
                if i < earlier.len() {
                    assert(earlier[i] == resources[i]);
                }
            }
        }
    }
}

/// The counters of a run: one for each resource that the store enumerates,
/// whatever was found on it, and one for each pair visited. Each stops at
/// `usize::MAX`.
pub proof fn lemma_counters<S: Storelike + ?Sized>(
    store: &S,
    resources: Seq<ResourceView>,
    fetch_items: bool,
    fetch_errors: Seq<Option<Text>>,
)
    ensures
        ReportView::of_store(store, resources, fetch_items, fetch_errors).resource_count
            == crate::validate::capped(resources.len()),
        ReportView::of_store(store, resources, fetch_items, fetch_errors).atom_count
            == crate::validate::capped(atoms_visited(store, resources)),
    decreases resources.len(),
{
    if resources.len() > 0 {
        lemma_counters(store, resources.drop_last(), fetch_items, fetch_errors);
    }
}

/// Every pair that is type-checked was visited, and every pair visited is one
/// of the store's. Where every property resolves, every pair is visited and
/// type-checked.
pub proof fn lemma_atoms_visited_bounds<S: Storelike + ?Sized>(
    store: &S,
    resources: Seq<ResourceView>,
)
    ensures
        atoms_checked(store, resources) <= atoms_visited(store, resources) <= atoms_held(resources),
        (forall|i: int, j: int|
            0 <= i < resources.len() && 0 <= j < resources[i].pairs.len() ==> store.property(
                (#[trigger] resources[i].pairs[j]).0,
            ) is Ok) ==> atoms_checked(store, resources) == atoms_held(resources),
    decreases resources.len(),
{
    if resources.len() > 0 {
        let earlier = resources.drop_last();
        let pairs = resources.last().pairs;
        lemma_atoms_visited_bounds(store, earlier);
        lemma_resolved_prefix_ends(store, pairs);
    }
}

/// A failed fetch has no part in what else the walk finds: a run that reads
/// the fetch outcomes lists the failed fetches, in order, and is otherwise the
/// run that reads none.
pub proof fn lemma_fetches_only_add_entries<S: Storelike + ?Sized>(
    store: &S,
    resources: Seq<ResourceView>,
    fetch_errors: Seq<Option<Text>>,
)
    ensures
        ReportView::of_store(store, resources, true, fetch_errors) == (ReportView {
            unfetchable: failed_fetches(resources, fetch_errors),
            ..ReportView::of_store(store, resources, false, fetch_errors)
        }),
        ReportView::of_store(store, resources, false, fetch_errors).unfetchable == Seq::<
            (Text, Text),
        >::empty(),
    decreases resources.len(),
{
    if resources.len() > 0 {
        lemma_fetches_only_add_entries(store, resources.drop_last(), fetch_errors);
        assert(ReportView::of_store(store, resources, true, fetch_errors).unfetchable
            =~= failed_fetches(resources, fetch_errors));
    }
}

/// Where the fetch of exactly one subject failed, the report lists that
/// subject alone as unfetchable, with the message of the failure.
pub proof fn lemma_one_failed_fetch<S: Storelike + ?Sized>(
    store: &S,
    resources: Seq<ResourceView>,
    fetch_errors: Seq<Option<Text>>,
    at: int,
)
    requires
        0 <= at < resources.len(),
        fetch_errors[at] is Some,
        forall|i: int| 0 <= i < resources.len() && i != at ==> fetch_errors[i] is None,
    ensures
        ReportView::of_store(store, resources, true, fetch_errors).unfetchable == seq![
            (resources[at].subject, fetch_errors[at]->Some_0),
        ],
        !ReportView::of_store(store, resources, true, fetch_errors).is_valid(),
{
    lemma_fetches_only_add_entries(store, resources, fetch_errors);
    lemma_failed_fetches_one(resources, fetch_errors, at);
}

/// No fetch of the first `resources` failed: none is listed.
proof fn lemma_failed_fetches_none(resources: Seq<ResourceView>, fetch_errors: Seq<Option<Text>>)
    requires
        forall|i: int| 0 <= i < resources.len() ==> fetch_errors[i] is None,
    ensures
        failed_fetches(resources, fetch_errors) == Seq::<(Text, Text)>::empty(),
    decreases resources.len(),
{
    if resources.len() > 0 {
        lemma_failed_fetches_none(resources.drop_last(), fetch_errors);
    }
}

/// One fetch failed: it alone is listed.
proof fn lemma_failed_fetches_one(
    resources: Seq<ResourceView>,
    fetch_errors: Seq<Option<Text>>,
    at: int,
)
    requires
        0 <= at < resources.len(),
        fetch_errors[at] is Some,
        forall|i: int| 0 <= i < resources.len() && i != at ==> fetch_errors[i] is None,
    ensures
        failed_fetches(resources, fetch_errors) == seq![
            (resources[at].subject, fetch_errors[at]->Some_0),
        ],
    decreases resources.len(),
{
    let earlier = resources.drop_last();
    if at == resources.len() - 1 {
        lemma_failed_fetches_none(earlier, fetch_errors);
    } else {
        lemma_failed_fetches_one(earlier, fetch_errors, at);
    }
}

/// A store of one resource, whose properties all resolve and of whose values
/// exactly one is not of its property's datatype: the report lists that atom
/// alone as an invalid value, with the parse error, and is not valid.
pub proof fn lemma_one_invalid_value<S: Storelike + ?Sized>(
    store: &S,
    resource: ResourceView,
    at: int,
    fetch_errors: Seq<Option<Text>>,
)
    requires
        0 <= at < resource.pairs.len(),
        forall|j: int|
            0 <= j < resource.pairs.len() ==> store.property(
                (#[trigger] resource.pairs[j]).0,
            ) is Ok,
        forall|j: int|
            0 <= j < resource.pairs.len() && j != at ==> pair_conforms(
                store,
                #[trigger] resource.pairs[j],
            ),
        !pair_conforms(store, resource.pairs[at]),
    ensures
        ReportView::of_store(store, seq![resource], false, fetch_errors).invalid_value == seq![
            (
                AtomView {
                    subject: resource.subject,
                    property: resource.pairs[at].0,
                    value: resource.pairs[at].1,
                },
                store.property(resource.pairs[at].0)->Ok_0.data_type.parse_error(
                    resource.pairs[at].1,
                )->Some_0,
            ),
        ],
        !ReportView::of_store(store, seq![resource], false, fetch_errors).is_valid(),
{
    let pairs = resource.pairs;
    let finding = crate::validate::ill_typed(store, resource.subject);
    let alone = seq![resource];
    crate::validate::lemma_resolved_prefix(store, pairs, pairs.len() as int);
    assert(pairs.take(pairs.len() as int) =~= pairs);
    lemma_filter_map_one(pairs, finding, at);
    assert(ReportView::of_store(store, alone.drop_last(), false, fetch_errors)
        == ReportView::empty());
}

/// What `finding` gives for one of `items` is kept.
proof fn lemma_filter_map_keeps<A, B>(items: Seq<A>, finding: spec_fn(A) -> Option<B>, at: int)
    requires
        0 <= at < items.len(),
        finding(items[at]) is Some,
    ensures
        items.filter_map(finding).contains(finding(items[at])->Some_0),
    decreases items.len(),
{
    let rest = items.drop_last();
    let kept = items.filter_map(finding);
    if at == items.len() - 1 {
        assert(kept[kept.len() - 1] == finding(items[at])->Some_0);
    } else {
        lemma_filter_map_keeps(rest, finding, at);
        let before = rest.filter_map(finding);
        let k = choose|k: int| 0 <= k < before.len() && before[k] == finding(items[at])->Some_0;
        assert(kept[k] == before[k]);
    }
}

/// What is listed for one of `items` is listed for all of them.
proof fn lemma_flat_map_keeps<A, B>(items: Seq<A>, listing: spec_fn(A) -> Seq<B>, at: int, entry: B)
    requires
        0 <= at < items.len(),
        listing(items[at]).contains(entry),
    ensures
        items.flat_map(listing).contains(entry),
    decreases items.len(),
{
    let rest = items.drop_last();
    assert(items =~= rest.push(items.last()));
    rest.lemma_flat_map_push(listing, items.last());
    let all = items.flat_map(listing);
    let before = rest.flat_map(listing);
    if at == items.len() - 1 {
        let last = listing(items[at]);
        let k = choose|k: int| 0 <= k < last.len() && last[k] == entry;
        assert(all[before.len() + k] == entry);
    } else {
        lemma_flat_map_keeps(rest, listing, at, entry);
        let k = choose|k: int| 0 <= k < before.len() && before[k] == entry;
        assert(all[k] == entry);
    }
}

/// A required property of a class of the resource that is not among the
/// properties found on it is recorded as missing, with the subject and the class.
pub proof fn lemma_missing_required_is_recorded<S: Storelike + ?Sized>(
    store: &S,
    resource: ResourceView,
    fetch_error: Option<Text>,
    class: int,
    required: int,
)
    requires
        store.classes(resource.subject) is Ok,
        0 <= class < store.classes(resource.subject)->Ok_0.len(),
        0 <= required < store.classes(resource.subject)->Ok_0[class].required.len(),
        !resource.properties().take(
            crate::validate::resolved_prefix(store, resource.pairs) as int,
        ).contains(store.classes(resource.subject)->Ok_0[class].required[required].subject),
    ensures
        ReportView::of_resource(store, resource, fetch_error).missing_props.contains(
            (
                resource.subject,
                store.classes(resource.subject)->Ok_0[class].required[required].subject,
                store.classes(resource.subject)->Ok_0[class].subject,
            ),
        ),
{
    let classes = store.classes(resource.subject)->Ok_0;
    let found = resource.properties().take(
        crate::validate::resolved_prefix(store, resource.pairs) as int,
    );
    let per_class = crate::validate::missing_in(resource.subject, found);
    let per_property = crate::validate::missing_one(
        resource.subject,
        found,
        classes[class].subject,
    );
    lemma_filter_map_keeps(classes[class].required, per_property, required);
    lemma_flat_map_keeps(
        classes,
        per_class,
        class,
        (resource.subject, classes[class].required[required].subject, classes[class].subject),
    );
}

/// The missing required properties decide neither validity nor the rendering:
/// a report reads the same whatever it lists as missing.
pub proof fn lemma_missing_props_are_not_read(report: ReportView, missing: Seq<(Text, Text, Text)>)
    ensures
        (ReportView { missing_props: missing, ..report }).is_valid() == report.is_valid(),
        (ReportView { missing_props: missing, ..report }).rendering() == report.rendering(),
{
}

/// How many newline characters `text` holds.
pub open spec fn newlines(text: Text) -> nat
    decreases text.len(),
{
    if text.len() == 0 {
        0
    } else {
        newlines(text.drop_last()) + if text.last() == '\n' {
            1nat
        } else {
            0nat
        }
    }
}

/// Whether `text` holds no newline character.
pub open spec fn single_line(text: Text) -> bool {
    forall|i: int| 0 <= i < text.len() ==> #[trigger] text[i] != '\n'
}

/// Whether no text of a defect of `report` holds a newline character: no
/// subject, no property, no message, and no atom as the rendering shows it.
pub open spec fn plain(report: ReportView) -> bool {
    &&& forall|i: int|
        0 <= i < report.unfetchable.len() ==> single_line((#[trigger] report.unfetchable[i]).0)
            && single_line(report.unfetchable[i].1)
    &&& forall|i: int|
        0 <= i < report.unfetchable_classes.len() ==> single_line(
            (#[trigger] report.unfetchable_classes[i]).0,
        ) && single_line(report.unfetchable_classes[i].1)
    &&& forall|i: int|
        0 <= i < report.unfetchable_props.len() ==> single_line(
            (#[trigger] report.unfetchable_props[i]).0,
        ) && single_line(report.unfetchable_props[i].1)
    &&& forall|i: int|
        0 <= i < report.invalid_value.len() ==> single_line(
            (#[trigger] report.invalid_value[i]).0.text(),
        ) && single_line(report.invalid_value[i].1)
}

proof fn lemma_newlines_concat(front: Text, back: Text)
    ensures
        newlines(front + back) == newlines(front) + newlines(back),
    decreases back.len(),
{
    if back.len() > 0 {
        assert((front + back).drop_last() =~= front + back.drop_last());
        lemma_newlines_concat(front, back.drop_last());
    }
}

proof fn lemma_newlines_of_single_line(text: Text)
    requires
        single_line(text),
    ensures
        newlines(text) == 0,
    decreases text.len(),
{
    if text.len() > 0 {
        let rest = text.drop_last();
        lemma_newlines_of_single_line(rest);
    }
}

/// A line of the rendering holds one newline, the one it ends in, where its
/// three parts hold none.
proof fn lemma_defect_line_is_one_line(kind: Text, entity: Text, message: Text)
    requires
        single_line(kind),
        single_line(entity),
        single_line(message),
    ensures
        newlines(crate::render::defect_line(kind, entity, message)) == 1,
        crate::render::defect_line(kind, entity, message).last() == '\n',
{
    reveal_strlit(": ");
    reveal_strlit(" \n");
    let body = kind + entity + ": "@ + message;
    lemma_newlines_of_single_line(body);
    lemma_newlines_concat(body, " \n"@);
    assert(newlines(" \n"@) == 1) by {
        reveal_with_fuel(newlines, 3);
    }
}

/// Lines of one newline each, put one after the other, hold as many newlines
/// as there are lines.
proof fn lemma_newlines_of_lines(lines: Seq<Text>)
    requires
        forall|i: int| 0 <= i < lines.len() ==> newlines(#[trigger] lines[i]) == 1,
    ensures
        newlines(lines.flatten()) == lines.len(),
    decreases lines.len(),
{
    if lines.len() > 0 {
        let rest = lines.drop_first();
        lemma_newlines_of_lines(rest);
        lemma_newlines_concat(lines.first(), rest.flatten());
    }
}

/// The rendering of a report without defect is the fixed message `Valid!`.
/// The rendering of any other report is its lines, one after the other: as
/// many as the four lists hold defects, each ending in a newline. The missing
/// required properties have no line.
pub proof fn lemma_rendering_has_one_line_for_each_defect(report: ReportView)
    ensures
        report.is_valid() <==> report.defects() == 0,
        report.is_valid() ==> report.rendering() == "Valid!"@,
        !report.is_valid() ==> report.rendering() == report.lines().flatten(),
        report.lines().len() == report.defects(),
        forall|i: int|
            0 <= i < report.lines().len() ==> (#[trigger] report.lines()[i]).len() > 0
                && report.lines()[i].last() == '\n',
{
    reveal_strlit(" \n");
}

/// A line of a report whose texts hold no newline holds one: the one it ends in.
proof fn lemma_line_is_one_line(report: ReportView, i: int)
    requires
        plain(report),
        0 <= i < report.lines().len(),
    ensures
        newlines(report.lines()[i]) == 1,
{
    let fetches = report.unfetchable.len() as int;
    let classes = report.unfetchable_classes.len() as int;
    let props = report.unfetchable_props.len() as int;
    reveal_strlit("Cannot fetch Resource ");
    reveal_strlit("Cannot fetch Class ");
    reveal_strlit("Cannot fetch Property ");
    reveal_strlit("Invalid value ");
    if i < fetches {
        let entry = report.unfetchable[i];
        lemma_defect_line_is_one_line("Cannot fetch Resource "@, entry.0, entry.1);
    } else if i < fetches + classes {
        let entry = report.unfetchable_classes[i - fetches];
        lemma_defect_line_is_one_line("Cannot fetch Class "@, entry.0, entry.1);
    } else if i < fetches + classes + props {
        let entry = report.unfetchable_props[i - fetches - classes];
        lemma_defect_line_is_one_line("Cannot fetch Property "@, entry.0, entry.1);
    } else {
        let entry = report.invalid_value[i - fetches - classes - props];
        lemma_defect_line_is_one_line("Invalid value "@, entry.0.text(), entry.1);
    }
}

/// Where no text of a defect holds a newline, the rendering holds as many
/// newlines as the report lists defects: one line for each, and none for a
/// report without defect.
pub proof fn lemma_rendering_counts_defects(report: ReportView)
    requires
        plain(report),
    ensures
        newlines(report.rendering()) == report.defects(),
{
    if report.is_valid() {
        reveal_strlit("Valid!");
        lemma_newlines_of_single_line("Valid!"@);
    } else {
        assert forall|i: int| 0 <= i < report.lines().len() implies newlines(
            #[trigger] report.lines()[i],
        ) == 1 by {
            lemma_line_is_one_line(report, i);
        }
        lemma_newlines_of_lines(report.lines());
    }
}

} // verus!
