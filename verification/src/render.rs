//! The report as text: one line for each defect, or a fixed message where there is none.

use crate::model::{Atom, AtomView, Text};
use crate::validate::{ReportView, ValidationReport};
use vstd::prelude::*;

verus! {

/// What `{:?}` prints for a text: the text between double quotes, with the
/// characters that need it escaped.
pub uninterp spec fn debug_quoted(text: Seq<char>) -> Seq<char>;

/// `text` as `{:?}` prints it. This is `<str as Debug>::fmt` of the standard
/// library, reached through `format!`; what it returns is given a name and
/// nothing more is claimed of it.
#[verifier::external_body]
fn quoted(text: &str) -> (shown: String)
    ensures
        shown@ == debug_quoted(text@),
{
    format!("{:?}", text)
}

/// An atom written out as a struct, around its three fields as they are shown.
pub open spec fn atom_layout(subject: Text, property: Text, value: Text) -> Text {
    "Atom { subject: "@ + subject + ", property: "@ + property + ", value: "@ + value + " }"@
}

impl AtomView {
    /// The atom as a line of the rendering names it: written out as a struct,
    /// each of its three texts as `{:?}` prints it.
    pub open spec fn text(self) -> Text {
        atom_layout(
            debug_quoted(self.subject),
            debug_quoted(self.property),
            debug_quoted(self.value),
        )
    }
}

impl Atom {
    /// An atom written out as a struct, around its three fields as they are shown.
    pub fn layout(subject: &str, property: &str, value: &str) -> (text: String)
        ensures
            text@ == atom_layout(subject@, property@, value@),
    {
        let mut text = String::from_str("Atom { subject: ");
        text.append(subject);
        text.append(", property: ");
        text.append(property);
        text.append(", value: ");
        text.append(value);
        text.append(" }");
        text
    }

    /// The atom as a line of the rendering names it: what `{:?}` prints for it.
    pub fn to_text(&self) -> (text: String)
        ensures
            text@ == self@.text(),
    {
        let subject = quoted(self.subject.as_str());
        let property = quoted(self.property.as_str());
        let value = quoted(self.value.as_str());
        Atom::layout(subject.as_str(), property.as_str(), value.as_str())
    }
}

/// One line of the rendering: what kind of defect, the entity, and the message.
pub open spec fn defect_line(kind: Text, entity: Text, message: Text) -> Text {
    kind + entity + ": "@ + message + " \n"@
}

/// The line for an entry of one of the three lists of failed lookups.
pub open spec fn lookup_line(kind: Text) -> spec_fn((Text, Text)) -> Text {
    |entry: (Text, Text)| defect_line(kind, entry.0, entry.1)
}

/// The line for an entry of the list of ill-typed values.
pub open spec fn value_line() -> spec_fn((AtomView, Text)) -> Text {
    |entry: (AtomView, Text)| defect_line("Invalid value "@, entry.0.text(), entry.1)
}

impl ReportView {
    /// How many defects the report lists.
    pub open spec fn defects(self) -> nat {
        self.unfetchable.len() + self.unfetchable_classes.len() + self.unfetchable_props.len()
            + self.invalid_value.len()
    }

    /// The lines of the rendering, one for each defect: failed fetches first,
    /// then failed class lookups, failed property lookups, and ill-typed values.
    pub open spec fn lines(self) -> Seq<Text> {
        self.unfetchable.map_values(lookup_line("Cannot fetch Resource "@))
            + self.unfetchable_classes.map_values(lookup_line("Cannot fetch Class "@))
            + self.unfetchable_props.map_values(lookup_line("Cannot fetch Property "@))
            + self.invalid_value.map_values(value_line())
    }

    /// The report as text: `Valid!` where there is no defect, else the lines one
    /// after the other.
    pub open spec fn rendering(self) -> Text {
        if self.is_valid() {
            "Valid!"@
        } else {
            self.lines().flatten()
        }
    }
}

/// One line of the rendering: what kind of defect, the entity as it is shown,
/// and the message.
pub fn render_line(kind: &str, entity: &str, message: &str) -> (line: String)
    ensures
        line@ == defect_line(kind@, entity@, message@),
{
    let mut line = String::from_str(kind);
    line.append(entity);
    line.append(": ");
    line.append(message);
    line.append(" \n");
    line
}

/// Appends the lines for a list of failed lookups to `text`.
fn append_lookup_lines(text: &mut String, kind: &str, entries: &Vec<(String, String)>)
    ensures
        final(text)@ == old(text)@ + entries.deep_view().map_values(lookup_line(kind@)).flatten(),
{
    let ghost start = text@;
    let ghost listed = entries.deep_view();
    let ghost line = lookup_line(kind@);
    let mut i: usize = 0;
    while i < entries.len()
        invariant
            i <= entries.len(),
            listed == entries.deep_view(),
            line == lookup_line(kind@),
            text@ == start + listed.take(i as int).map_values(line).flatten(),
        decreases entries.len() - i,
    {
        let entry = &entries[i];
        let next = render_line(kind, entry.0.as_str(), entry.1.as_str());
        text.append(next.as_str());
        proof {
            listed.lemma_map_take_succ(line, i as int);
            listed.take(i as int).map_values(line).lemma_flatten_push(line(listed[i as int]));
        }
        i += 1;
    }
    assert(listed.take(i as int) =~= listed);
}

/// Appends the lines for the ill-typed values to `text`.
fn append_value_lines(text: &mut String, entries: &Vec<(Atom, String)>)
    ensures
        final(text)@ == old(text)@ + entries.deep_view().map_values(value_line()).flatten(),
{
    let ghost start = text@;
    let ghost listed = entries.deep_view();
    let ghost line = value_line();
    let mut i: usize = 0;
    while i < entries.len()
        invariant
            i <= entries.len(),
            listed == entries.deep_view(),
            line == value_line(),
            text@ == start + listed.take(i as int).map_values(line).flatten(),
        decreases entries.len() - i,
    {
        let entry = &entries[i];
        let atom = entry.0.to_text();
        let next = render_line("Invalid value ", atom.as_str(), entry.1.as_str());
        text.append(next.as_str());
        proof {
            listed.lemma_map_take_succ(line, i as int);
            listed.take(i as int).map_values(line).lemma_flatten_push(line(listed[i as int]));
        }
        i += 1;
    }
    assert(listed.take(i as int) =~= listed);
}

impl ValidationReport {
    /// The report as text. A valid report reads `Valid!`. Any other report has
    /// one line for each defect, in the order of [`ReportView::lines`]; a line
    /// names the kind of defect, the entity and the message, and ends in a newline.
    pub fn to_string(&self) -> (text: String)
        ensures
            text@ == self@.rendering(),
    {
        if self.is_valid() {
            return String::from_str("Valid!");
        }
        let mut text = String::new();
        append_lookup_lines(&mut text, "Cannot fetch Resource ", &self.unfetchable);
        append_lookup_lines(&mut text, "Cannot fetch Class ", &self.unfetchable_classes);
        append_lookup_lines(&mut text, "Cannot fetch Property ", &self.unfetchable_props);
        append_value_lines(&mut text, &self.invalid_value);
        proof {
            let fetches = self@.unfetchable.map_values(lookup_line("Cannot fetch Resource "@));
            let classes = self@.unfetchable_classes.map_values(
                lookup_line("Cannot fetch Class "@),
            );
            let props = self@.unfetchable_props.map_values(lookup_line("Cannot fetch Property "@));
            let values = self@.invalid_value.map_values(value_line());
            vstd::seq_lib::lemma_flatten_concat(fetches, classes);
            vstd::seq_lib::lemma_flatten_concat(fetches + classes, props);
            vstd::seq_lib::lemma_flatten_concat(fetches + classes + props, values);
        }
        text
    }
}

} // verus!
