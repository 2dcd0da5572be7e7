//! Small repairs to a task's syntax, and hints on what a task lacks.
//!
//! A due or start date that is not written as `YYYY-MM-DD` may be written in
//! plain words. Reading plain words is not this library's work. The caller
//! hands a reader to `fixup_read`, which asks it as the need arises; or it
//! asks `natural_date_text` what to read, has it read, and hands the date
//! that came of it, or none, to `fixup`.

use vstd::prelude::*;
use vstd::string::*;
use crate::date::format_date;
use crate::date::lemma_parse_of_format;
use crate::date::parse_date;
use crate::date::Date;
use crate::item::fields::due_key;
use crate::item::fields::find;
use crate::item::fields::kv_pairs;
use crate::item::fields::kv_pairs_of;
use crate::item::fields::lookup;
use crate::item::fields::start_key;
use crate::item::tokens::lemma_date_is_atom_text;
use crate::item::tokens::lemma_with_value;
use crate::item::tokens::pair_bounds_of;
use crate::item::tokens::with_value;
use crate::item::Item;
use crate::item::ItemView;
use crate::text::append_chars;
use crate::text::chars_of;
use crate::text::slice_of;
use crate::text::string_of;

verus! {

/// The two dates that a description can name.
#[derive(Clone, Copy, Debug, PartialEq, Eq, Structural)]
pub enum DateSlot {
    Due,
    Start,
}

impl DateSlot {
    /// The key under which the date stands.
    pub open spec fn key(self) -> Seq<char> {
        match self {
            DateSlot::Due => due_key(),
            DateSlot::Start => start_key(),
        }
    }

    /// The key under which the date stands.
    pub fn name(&self) -> (s: &'static str)
        ensures
            s@ == self.key(),
    {
        proof {
            reveal_strlit("due");
            reveal_strlit("start");
            assert("due"@ =~= due_key());
            assert("start"@ =~= start_key());
        }
        match self {
            DateSlot::Due => "due",
            DateSlot::Start => "start",
        }
    }
}

/// A remark on a task: a repair that was made, or a hint on what could be better.
#[derive(Debug)]
pub enum Advisory {
    /// The task has no priority.
    NoPriority,
    /// A date written in plain words was read and is now written as `YYYY-MM-DD`.
    DateChanged { slot: DateSlot, given: String, date: Date },
    /// A date is not written as `YYYY-MM-DD` and could not be read.
    DateUnreadable { slot: DateSlot, given: String },
    /// The task has no due date.
    NoDueDate,
    /// The task names no size.
    NoSize,
    /// The description is longer than 120 characters.
    LongDescription,
    /// The description is shorter than 30 characters.
    ShortDescription,
}

/// A remark, as mathematical values.
pub enum AdvisoryView {
    NoPriority,
    DateChanged { slot: DateSlot, given: Seq<char>, date: Date },
    DateUnreadable { slot: DateSlot, given: Seq<char> },
    NoDueDate,
    NoSize,
    LongDescription,
    ShortDescription,
}

impl AdvisoryView {
    /// Whether the date held, if any, is a date of the calendar.
    pub open spec fn is_valid(self) -> bool {
        self matches AdvisoryView::DateChanged { date, .. } ==> date.is_valid()
    }

    /// The remark in words.
    pub open spec fn message(self) -> Seq<char> {
        match self {
            AdvisoryView::NoPriority =>
                "Hint: a task can be given an importance be prefixing it with a parenthesized capital letter, like `(A)`."@,
            AdvisoryView::DateChanged { slot, given, date } => "Notice: "@ + slot.key()
                + " date `"@ + given + "` changed to `"@ + format_date(date) + "`."@,
            AdvisoryView::DateUnreadable { slot, given } => "Notice: "@ + slot.key() + " date `"@
                + given + "` should be in YYYY-MM-DD format."@,
            AdvisoryView::NoDueDate =>
                "Hint: a task can be given a due date by including `due:YYYY-MM-DD`."@,
            AdvisoryView::NoSize =>
                "Hint: a task can be given a size by including `@S`, `@M`, or `@L`."@,
            AdvisoryView::LongDescription =>
                "Hint: long descriptions can make a task list slower to skim read."@,
            AdvisoryView::ShortDescription =>
                "Hint: short descriptions can make it hard to remember what a task means!"@,
        }
    }
}

impl View for Advisory {
    type V = AdvisoryView;

    open spec fn view(&self) -> AdvisoryView {
        match self {
            Advisory::NoPriority => AdvisoryView::NoPriority,
            Advisory::DateChanged { slot, given, date } => AdvisoryView::DateChanged {
                slot: *slot,
                given: given@,
                date: *date,
            },
            Advisory::DateUnreadable { slot, given } => AdvisoryView::DateUnreadable {
                slot: *slot,
                given: given@,
            },
            Advisory::NoDueDate => AdvisoryView::NoDueDate,
            Advisory::NoSize => AdvisoryView::NoSize,
            Advisory::LongDescription => AdvisoryView::LongDescription,
            Advisory::ShortDescription => AdvisoryView::ShortDescription,
        }
    }
}

impl DeepView for Advisory {
    type V = AdvisoryView;

    open spec fn deep_view(&self) -> AdvisoryView {
        self@
    }
}

impl Advisory {
    /// The remark in words, as it is shown to the user.
    pub fn message(&self) -> (r: String)
        requires
            self@.is_valid(),
        ensures
            r@ == self@.message(),
    {
        match self {
            Advisory::NoPriority => String::from_str(
                "Hint: a task can be given an importance be prefixing it with a parenthesized capital letter, like `(A)`.",
            ),
            Advisory::DateChanged { slot, given, date } => {
                let mut r = String::from_str("Notice: ");
                r.append(slot.name());
                r.append(" date `");
                r.append(given.as_str());
                r.append("` changed to `");
                r.append(date.to_string().as_str());
                r.append("`.");
                r
            },
            Advisory::DateUnreadable { slot, given } => {
                let mut r = String::from_str("Notice: ");
                r.append(slot.name());
                r.append(" date `");
                r.append(given.as_str());
                r.append("` should be in YYYY-MM-DD format.");
                r
            },
            Advisory::NoDueDate => String::from_str(
                "Hint: a task can be given a due date by including `due:YYYY-MM-DD`.",
            ),
            Advisory::NoSize => String::from_str(
                "Hint: a task can be given a size by including `@S`, `@M`, or `@L`.",
            ),
            Advisory::LongDescription => String::from_str(
                "Hint: long descriptions can make a task list slower to skim read.",
            ),
            Advisory::ShortDescription => String::from_str(
                "Hint: short descriptions can make it hard to remember what a task means!",
            ),
        }
    }
}

/// `given` with a space in place of each underscore: the words that a date
/// given as `next_friday` is meant to say.
pub open spec fn natural_text(given: Seq<char>) -> Seq<char> {
    given.map_values(
        |c: char|
            if c == '_' {
                ' '
            } else {
                c
            },
    )
}

/// The words to read for the date `slot` of `v`: those of its value, where
/// the description names the date and does not write it as `YYYY-MM-DD`.
pub open spec fn date_to_read(v: ItemView, slot: DateSlot) -> Option<Seq<char>> {
    match lookup(v.kv_pairs(), slot.key()) {
        Some(given) => if parse_date(given) is None {
            Some(natural_text(given))
        } else {
            None
        },
        None => None,
    }
}

/// The repair of the date `slot` of `v`, given what reading its words gave,
/// and the remarks made on the way.
///
/// A date written as `YYYY-MM-DD` is left alone. For another, where `reading`
/// is a date, the token for that date stands in the place of the pair that
/// named the date, the last with that key, and every other character stays;
/// where it is none, the task stays and a remark says so. A missing due
/// date is remarked on, a missing start date is not.
pub open spec fn date_fixed(v: ItemView, slot: DateSlot, reading: Option<Date>) -> (
    ItemView,
    Seq<AdvisoryView>,
) {
    match lookup(v.kv_pairs(), slot.key()) {
        Some(given) => if parse_date(given) is Some {
            (v, seq![])
        } else {
            match reading {
                Some(d) => (
                    ItemView {
                        description: with_value(v.description, slot.key(), format_date(d)),
                        ..v
                    },
                    seq![AdvisoryView::DateChanged { slot, given, date: d }],
                ),
                None => (v, seq![AdvisoryView::DateUnreadable { slot, given }]),
            }
        },
        None => (
            v,
            if slot == DateSlot::Due {
                seq![AdvisoryView::NoDueDate]
            } else {
                seq![]
            },
        ),
    }
}

/// A date that was read is the date that is read from then on: where the
/// description named the date of `slot` in words and reading them gave
/// `d`, the repaired task has `d` for that date, and its other date is as
/// it was.
pub proof fn lemma_date_fixed_is_read(v: ItemView, slot: DateSlot, d: Date)
    requires
        d.is_valid(),
        date_to_read(v, slot) is Some,
    ensures
        ({
            let w = date_fixed(v, slot, Some(d)).0;
            match slot {
                DateSlot::Due => w.due_date() == Some(d) && w.start_date() == v.start_date(),
                DateSlot::Start => w.start_date() == Some(d) && w.due_date() == v.due_date(),
            }
        }),
{
    crate::item::schedule::lemma_date_keys();
    lemma_date_is_atom_text(d);
    lemma_parse_of_format(d);
    lemma_with_value(v.description, slot.key(), format_date(d));
}

/// Whether `new` and `notes` are what `fixup` makes of the task `v` with the
/// readings `a` for the due date and `b` for the start date, each none
/// where there was nothing to read.
pub open spec fn is_fixup_with(
    v: ItemView,
    warnings: bool,
    new: ItemView,
    notes: Seq<AdvisoryView>,
    a: Option<Date>,
    b: Option<Date>,
) -> bool {
    &&& date_to_read(v, DateSlot::Due) is None ==> a is None
    &&& date_to_read(date_fixed(v, DateSlot::Due, a).0, DateSlot::Start) is None ==> b is None
    &&& new == fixed(v, a, b)
    &&& notes == if warnings {
        remarks(v, a, b)
    } else {
        seq![]
    }
}

/// The remarks on what the task `v` lacks, its dates apart.
pub open spec fn priority_hint(v: ItemView) -> Seq<AdvisoryView> {
    if v.priority == '\0' {
        seq![AdvisoryView::NoPriority]
    } else {
        seq![]
    }
}

/// The remark on a task that names no size.
pub open spec fn size_hint(v: ItemView) -> Seq<AdvisoryView> {
    if v.tshirt_size() is None {
        seq![AdvisoryView::NoSize]
    } else {
        seq![]
    }
}

/// The remark on a description of more than 120 or fewer than 30 characters.
pub open spec fn length_hint(v: ItemView) -> Seq<AdvisoryView> {
    if v.description.len() > 120 {
        seq![AdvisoryView::LongDescription]
    } else if v.description.len() < 30 {
        seq![AdvisoryView::ShortDescription]
    } else {
        seq![]
    }
}

/// The task `v` after all repairs: first its due date, then its start date.
pub open spec fn fixed(v: ItemView, due_reading: Option<Date>, start_reading: Option<Date>)
    -> ItemView {
    date_fixed(date_fixed(v, DateSlot::Due, due_reading).0, DateSlot::Start, start_reading).0
}

/// The remarks that the repairs of `v` make, in order: on the priority, the
/// due date, the start date, the size, and the length of the description.
pub open spec fn remarks(v: ItemView, due_reading: Option<Date>, start_reading: Option<Date>)
    -> Seq<AdvisoryView> {
    let first = date_fixed(v, DateSlot::Due, due_reading);
    let second = date_fixed(first.0, DateSlot::Start, start_reading);
    priority_hint(v) + first.1 + second.1 + size_hint(second.0) + length_hint(second.0)
}

fn natural_text_of(given: &Vec<char>) -> (r: Vec<char>)
    ensures
        r@ == natural_text(given@),
{
    let mut r: Vec<char> = Vec::new();
    let mut i: usize = 0;
    while i < given.len()
        invariant
            i <= given.len(),
            r@ == natural_text(given@.take(i as int)),
        decreases given.len() - i,
    {
        let c = given[i];
        r.push(
            if c == '_' {
                ' '
            } else {
                c
            },
        );
        assert(natural_text(given@.take(i + 1)) =~= natural_text(given@.take(i as int)).push(
            if c == '_' {
                ' '
            } else {
                c
            },
        ));
        i += 1;
    }
    assert(given@.take(given.len() as int) =~= given@);
    r
}

fn parses_as_date(v: &Vec<char>) -> (r: bool)
    ensures
        r == parse_date(v@) is Some,
{
    if v.len() == 10 {
        assert(v@.subrange(0, 10) =~= v@);
        Date::parse_at(v, 0).is_some()
    } else {
        false
    }
}

impl Item {
    /// The words to read for the date `slot`: its value with a space for
    /// each underscore, where the description names the date and does not
    /// write it as `YYYY-MM-DD`; none where there is nothing to read.
    pub fn natural_date_text(&self, slot: DateSlot) -> (r: Option<String>)
        ensures
            r.deep_view() == date_to_read(self@, slot),
    {
        let desc = self.description_chars();
        let pairs = kv_pairs_of(&desc);
        let key = chars_of(slot.name());
        match find(&pairs, &key) {
            Some(given) => {
                if parses_as_date(&given) {
                    None
                } else {
                    Some(string_of(&natural_text_of(&given)))
                }
            },
            None => None,
        }
    }

    /// Repairs the date `slot`, given what reading its words gave.
    pub fn fixup_date(&self, slot: DateSlot, reading: Option<Date>) -> (r: (Item, Vec<Advisory>))
        requires
            reading matches Some(d) ==> d.is_valid(),
        ensures
            r.0@ == date_fixed(self@, slot, reading).0,
            r.1.deep_view() == date_fixed(self@, slot, reading).1,
            all_valid(r.1@),
    {
        let mut new = self.clone();
        let mut notes: Vec<Advisory> = Vec::new();
        let desc = self.description_chars();
        let pairs = kv_pairs_of(&desc);
        let key = chars_of(slot.name());
        match find(&pairs, &key) {
            Some(given) => {
                if !parses_as_date(&given) {
                    match reading {
                        Some(d) => {
                            let mut fresh = chars_of(slot.name());
                            fresh.push(':');
                            append_chars(&mut fresh, &d.to_chars());
                            match pair_bounds_of(&desc, &key) {
                                Some((a, e)) => {
                                    let mut text = slice_of(&desc, 0, a);
                                    append_chars(&mut text, &fresh);
                                    append_chars(&mut text, &slice_of(&desc, e, desc.len()));
                                    assert(text@ =~= with_value(
                                        desc@,
                                        slot.key(),
                                        format_date(d),
                                    ));
                                    new.set_description(string_of(&text));
                                },
                                None => {},
                            }
                            notes.push(
                                Advisory::DateChanged { slot, given: string_of(&given), date: d },
                            );
                        },
                        None => {
                            notes.push(Advisory::DateUnreadable { slot, given: string_of(&given) });
                        },
                    }
                }
            },
            None => {
                if slot == DateSlot::Due {
                    notes.push(Advisory::NoDueDate);
                }
            },
        }
        assert(notes.deep_view() =~= date_fixed(self@, slot, reading).1);
        (new, notes)
    }

    /// Performs a bunch of small fixes on the item syntax.
    ///
    /// `due_reading` is what reading the words of the due date gave, where
    /// `natural_date_text` named any; `start_reading` is the same for the
    /// start date, asked of the task as it stands once the due date is
    /// repaired. The remarks are returned for the caller to show, and are
    /// left out when `warnings` is false.
    pub fn fixup(
        &self,
        warnings: bool,
        due_reading: Option<Date>,
        start_reading: Option<Date>,
    ) -> (r: (Item, Vec<Advisory>))
        requires
            due_reading matches Some(d) ==> d.is_valid(),
            start_reading matches Some(d) ==> d.is_valid(),
        ensures
            r.0@ == fixed(self@, due_reading, start_reading),
            r.1.deep_view() == if warnings {
                remarks(self@, due_reading, start_reading)
            } else {
                seq![]
            },
            all_valid(r.1@),
    {
        let mut notes = self.priority_notes();
        let (first, due_notes) = self.fixup_date(DateSlot::Due, due_reading);
        add_notes(&mut notes, due_notes);
        let (new, start_notes) = first.fixup_date(DateSlot::Start, start_reading);
        add_notes(&mut notes, start_notes);
        add_notes(&mut notes, new.size_notes());
        add_notes(&mut notes, new.length_notes());
        if warnings {
            (new, notes)
        } else {
            let none: Vec<Advisory> = Vec::new();
            assert(none.deep_view() =~= Seq::<AdvisoryView>::empty());
            (new, none)
        }
    }

    /// Performs a bunch of small fixes on the item syntax, with `read` to read
    /// dates that are written in plain words.
    ///
    /// `read` is asked for the due date first, where the description names
    /// one that is not written as `YYYY-MM-DD`, and then for the start date of
    /// the task as it stands once the due date is repaired. What it returns
    /// is up to the reader; the task is repaired with it as `fixup` says.
    pub fn fixup_read<F: Fn(String) -> Option<Date>>(&self, warnings: bool, read: F) -> (r: (
        Item,
        Vec<Advisory>,
    ))
        requires
            forall|text: String| call_requires(read, (text,)),
            forall|text: String, date: Option<Date>|
                call_ensures(read, (text,), date) ==> (date matches Some(d) ==> d.is_valid()),
        ensures
            exists|a: Option<Date>, b: Option<Date>|
                #[trigger] is_fixup_with(self@, warnings, r.0@, r.1.deep_view(), a, b),
            all_valid(r.1@),
    {
        let due_reading = match self.natural_date_text(DateSlot::Due) {
            Some(text) => read(text),
            None => None,
        };
        let (first, _) = self.fixup_date(DateSlot::Due, due_reading);
        let start_reading = match first.natural_date_text(DateSlot::Start) {
            Some(text) => read(text),
            None => None,
        };
        let r = self.fixup(warnings, due_reading, start_reading);
        assert(is_fixup_with(self@, warnings, r.0@, r.1.deep_view(), due_reading, start_reading));
        r
    }

    fn priority_notes(&self) -> (r: Vec<Advisory>)
        ensures
            r.deep_view() == priority_hint(self@),
            all_valid(r@),
    {
        let mut notes: Vec<Advisory> = Vec::new();
        if self.priority() == '\0' {
            notes.push(Advisory::NoPriority);
        }
        assert(notes.deep_view() =~= priority_hint(self@));
        notes
    }

    fn size_notes(&self) -> (r: Vec<Advisory>)
        ensures
            r.deep_view() == size_hint(self@),
            all_valid(r@),
    {
        let mut notes: Vec<Advisory> = Vec::new();
        if self.tshirt_size().is_none() {
            notes.push(Advisory::NoSize);
        }
        assert(notes.deep_view() =~= size_hint(self@));
        notes
    }

    fn length_notes(&self) -> (r: Vec<Advisory>)
        ensures
            r.deep_view() == length_hint(self@),
            all_valid(r@),
    {
        let mut notes: Vec<Advisory> = Vec::new();
        let n = self.description_chars().len();
        if n > 120 {
            notes.push(Advisory::LongDescription);
        } else if n < 30 {
            notes.push(Advisory::ShortDescription);
        }
        assert(notes.deep_view() =~= length_hint(self@));
        notes
    }
}

/// Whether the date of each remark, where it holds one, is a date of the calendar.
pub open spec fn all_valid(notes: Seq<Advisory>) -> bool {
    forall|i: int| 0 <= i < notes.len() ==> (#[trigger] notes[i])@.is_valid()
}

fn add_notes(notes: &mut Vec<Advisory>, more: Vec<Advisory>)
    requires
        all_valid(old(notes)@),
        all_valid(more@),
    ensures
        final(notes).deep_view() == old(notes).deep_view() + more.deep_view(),
        all_valid(final(notes)@),
{
    let mut more = more;
    let ghost a = notes.deep_view();
    let ghost b = more.deep_view();
    let ghost old_notes = notes@;
    let ghost old_more = more@;
    notes.append(&mut more);
    assert(notes@ =~= old_notes + old_more);
    assert(notes.deep_view() =~= a + b);
}

} // verus!
