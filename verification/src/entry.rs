//! One participant of a course, and the order in which participants are listed:
//! by name, and by customer number where two names are the same.

use vstd::prelude::*;
use std::cmp::Ordering;
use crate::text::{lemma_text_transitive, lemma_text_trichotomy, text_lt, text_precedes};

verus! {

/// A participant as contracts see it.
pub ghost struct EntryView {
    pub id: int,
    pub group: Seq<char>,
    pub name: Seq<char>,
    pub telephone: Seq<char>,
    pub email: Seq<char>,
    pub auxiliaries: Seq<Seq<char>>,
}

/// One participant, read from one row of a registration sheet.
#[derive(Debug, Clone)]
pub struct CourseEntry {
    /// The customer number.
    pub id: i32,
    /// The course group that the participant belongs to.
    pub group: String,
    pub name: String,
    /// The telephone numbers, separated by semicolons where there are several.
    pub telephone: String,
    pub email: String,
    /// The values of the additional columns, in the order in which they were asked for.
    pub auxiliaries: Vec<String>,
}

impl View for CourseEntry {
    type V = EntryView;

    open spec fn view(&self) -> EntryView {
        EntryView {
            id: self.id as int,
            group: self.group@,
            name: self.name@,
            telephone: self.telephone@,
            email: self.email@,
            auxiliaries: self.auxiliaries@.map_values(|text: String| text@),
        }
    }
}

/// Whether `a` is listed before `b`: its name comes first, or the names are
/// the same and its customer number is the smaller one.
pub open spec fn entry_precedes(a: EntryView, b: EntryView) -> bool {
    text_precedes(a.name, b.name) || (a.name == b.name && a.id < b.id)
}

/// Whether `a` and `b` have the same name and the same customer number. The
/// order cannot tell two such entries apart, whatever else they hold.
pub open spec fn same_key(a: EntryView, b: EntryView) -> bool {
    a.name == b.name && a.id == b.id
}

/// Of two entries exactly one holds: the first is listed before the second,
/// the two have the same name and number, or the second is listed before
/// the first.
pub proof fn lemma_entry_trichotomy(a: EntryView, b: EntryView)
    ensures
        entry_precedes(a, b) || same_key(a, b) || entry_precedes(b, a),
        !(entry_precedes(a, b) && entry_precedes(b, a)),
        !(entry_precedes(a, b) && same_key(a, b)),
        !(entry_precedes(b, a) && same_key(a, b)),
{
    lemma_text_trichotomy(a.name, b.name);
}

/// What is listed before an entry is listed before everything that the
/// entry is listed before.
pub proof fn lemma_entry_transitive(a: EntryView, b: EntryView, c: EntryView)
    requires
        entry_precedes(a, b),
        entry_precedes(b, c),
    ensures
        entry_precedes(a, c),
{
    if text_precedes(a.name, b.name) && text_precedes(b.name, c.name) {
        lemma_text_transitive(a.name, b.name, c.name);
    }
}

/// What is listed before an entry is listed before everything that is not
/// listed before that entry.
pub proof fn lemma_entry_before_not_after(a: EntryView, b: EntryView, c: EntryView)
    requires
        entry_precedes(a, b),
        !entry_precedes(c, b),
    ensures
        entry_precedes(a, c),
{
    lemma_entry_trichotomy(b, c);
    if entry_precedes(b, c) {
        lemma_entry_transitive(a, b, c);
    }
}

impl CourseEntry {
    /// Whether this entry is listed before `other`.
    pub fn precedes(&self, other: &CourseEntry) -> (before: bool)
        ensures
            before == entry_precedes(self@, other@),
    {
        if text_lt(self.name.as_str(), other.name.as_str()) {
            true
        } else if self.name == other.name {
            self.id < other.id
        } else {
            false
        }
    }
}

impl PartialEq for CourseEntry {
    /// Two entries are equal where they have the same name and customer number.
    fn eq(&self, other: &CourseEntry) -> (equal: bool) {
        self.name == other.name && self.id == other.id
    }
}

impl Eq for CourseEntry {

}

impl vstd::std_specs::cmp::PartialEqSpecImpl for CourseEntry {
    open spec fn obeys_eq_spec() -> bool {
        true
    }

    open spec fn eq_spec(&self, other: &CourseEntry) -> bool {
        self.name@ == other.name@ && self.id == other.id
    }
}

impl PartialOrd for CourseEntry {
    /// Orders two entries by name, then by customer number.
    fn partial_cmp(&self, other: &CourseEntry) -> (order: Option<Ordering>) {
        if self.precedes(other) {
            Some(Ordering::Less)
        } else if other.precedes(self) {
            Some(Ordering::Greater)
        } else {
            Some(Ordering::Equal)
        }
    }
}

impl vstd::std_specs::cmp::PartialOrdSpecImpl for CourseEntry {
    open spec fn obeys_partial_cmp_spec() -> bool {
        true
    }

    open spec fn partial_cmp_spec(&self, other: &CourseEntry) -> Option<Ordering> {
        if entry_precedes(self@, other@) {
            Some(Ordering::Less)
        } else if entry_precedes(other@, self@) {
            Some(Ordering::Greater)
        } else {
            Some(Ordering::Equal)
        }
    }
}

} // verus!
