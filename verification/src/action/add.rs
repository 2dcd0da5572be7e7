//! Add a task to the todo list

use vstd::prelude::*;
use crate::action::Outputter;
use crate::date::Date;
use crate::date::FIRST_DAY;
use crate::date::LAST_DAY;
use crate::item::fixup::all_valid;
use crate::item::fixup::fixed;
use crate::item::fixup::is_fixup_with;
use crate::item::fixup::remarks;
use crate::item::fixup::Advisory;
use crate::item::fixup::AdvisoryView;
use crate::item::grammar::parse_line;
use crate::item::schedule::due_day;
use crate::item::schedule::rescheduled;
use crate::item::Item;
use crate::item::ItemView;
use crate::item::Urgency;
use crate::list::Line;
use crate::list::LineView;

verus! {

/// Config object for the `add` action.
#[derive(Debug)]
pub struct AddActionConfig {
    pub no_date: bool,
    pub no_fixup: bool,
    pub urgency: Option<Urgency>,
    pub quiet: bool,
    pub outputter: Outputter,
}

impl Default for AddActionConfig {
    fn default() -> (r: Self)
        ensures
            !r.no_date,
            !r.no_fixup,
            r.urgency is None,
            !r.quiet,
    {
        Self::new()
    }
}

impl AddActionConfig {
    /// Constructor. The outputter is as wide as the terminal.
    pub fn new() -> (r: Self)
        ensures
            !r.no_date,
            !r.no_fixup,
            r.urgency is None,
            !r.quiet,
            !r.outputter.colour,
            !r.outputter.with_creation_date,
            !r.outputter.with_completion_date,
            !r.outputter.with_line_numbers,
            r.outputter.with_newline,
            r.outputter.line_number_digits == 2,
            r.outputter.io@ == Seq::<char>::empty(),
    {
        Self {
            no_date: false,
            no_fixup: false,
            urgency: None,
            quiet: false,
            outputter: Outputter::default(),
        }
    }
}

/// The task that the text `input` writes, with the creation date `today`
/// where it names none and dates are wanted.
pub open spec fn dated(input: Seq<char>, cfg: &AddActionConfig, today: Date) -> ItemView {
    let v = parse_line(input);
    if v.creation_date is None && !cfg.no_date {
        ItemView { creation_date: Some(today), ..v }
    } else {
        v
    }
}

/// The task that is added for the text `input`, before its syntax is
/// repaired: the dated task, due as the urgency asked for says.
pub open spec fn drafted(input: Seq<char>, cfg: &AddActionConfig, today: Date) -> ItemView {
    match cfg.urgency {
        Some(u) => rescheduled(dated(input, cfg, today), u, today),
        None => dated(input, cfg, today),
    }
}

/// Whether a task can be added for `input`: the due date asked for is one
/// that `YYYY-MM-DD` can write.
pub open spec fn can_draft(input: Seq<char>, cfg: &AddActionConfig, today: Date) -> bool {
    cfg.urgency matches Some(u) ==> FIRST_DAY <= due_day(dated(input, cfg, today), u, today)
        <= LAST_DAY
}

/// The task that is added for the text `input`, before its syntax is repaired.
pub fn draft_item(input: &str, cfg: &AddActionConfig, today: Date) -> (r: Item)
    requires
        today.is_valid(),
        can_draft(input@, cfg, today),
    ensures
        r@ == drafted(input@, cfg, today),
{
    let mut item = Item::parse(input);
    if item.creation_date().is_none() && !cfg.no_date {
        item.set_creation_date(today);
    }
    if let Some(u) = cfg.urgency {
        item.set_urgency(u, today);
    }
    item
}

/// Process a line to be added to a todo list.
///
/// Returns the line, and the remarks on the task for the caller to show.
/// The readings are what `Item::fixup` asks for, for the task that
/// `draft_item` returns.
pub fn process_line(
    input: &str,
    cfg: &AddActionConfig,
    today: Date,
    due_reading: Option<Date>,
    start_reading: Option<Date>,
) -> (r: (Line, Vec<Advisory>))
    requires
        today.is_valid(),
        can_draft(input@, cfg, today),
        due_reading matches Some(d) ==> d.is_valid(),
        start_reading matches Some(d) ==> d.is_valid(),
    ensures
        r.0@ == LineView::of_item(
            if cfg.no_fixup {
                drafted(input@, cfg, today)
            } else {
                fixed(drafted(input@, cfg, today), due_reading, start_reading)
            },
        ),
        r.0.is_well_formed(),
        r.1.deep_view() == if !cfg.no_fixup && !cfg.quiet {
            remarks(drafted(input@, cfg, today), due_reading, start_reading)
        } else {
            seq![]
        },
        all_valid(r.1@),
{
    let item = draft_item(input, cfg, today);
    if !cfg.no_fixup {
        let (fixed_item, notes) = item.fixup(!cfg.quiet, due_reading, start_reading);
        (Line::from_item(fixed_item), notes)
    } else {
        let none: Vec<Advisory> = Vec::new();
        assert(none.deep_view() =~= Seq::<AdvisoryView>::empty());
        (Line::from_item(item), none)
    }
}

/// Whether `line` and `notes` are what `process_line` makes of the text
/// `input` with the readings `a` for the due date and `b` for the start
/// date, each none where there was nothing to read.
pub open spec fn is_processed_with(
    input: Seq<char>,
    cfg: &AddActionConfig,
    today: Date,
    line: LineView,
    notes: Seq<AdvisoryView>,
    a: Option<Date>,
    b: Option<Date>,
) -> bool {
    let draft = drafted(input, cfg, today);
    if cfg.no_fixup {
        a is None && b is None && line == LineView::of_item(draft) && notes == Seq::<
            AdvisoryView,
        >::empty()
    } else {
        line == LineView::of_item(fixed(draft, a, b)) && is_fixup_with(
            draft,
            !cfg.quiet,
            fixed(draft, a, b),
            notes,
            a,
            b,
        )
    }
}

/// Process a line to be added to a todo list, with `read` to read dates
/// that are written in plain words.
///
/// `read` is asked as `Item::fixup_read` asks it, and only where the syntax
/// of the task is to be repaired. What it returns is up to the reader.
pub fn process_line_read<F: Fn(String) -> Option<Date>>(
    input: &str,
    cfg: &AddActionConfig,
    today: Date,
    read: F,
) -> (r: (Line, Vec<Advisory>))
    requires
        today.is_valid(),
        can_draft(input@, cfg, today),
        forall|text: String| call_requires(read, (text,)),
        forall|text: String, date: Option<Date>|
            call_ensures(read, (text,), date) ==> (date matches Some(d) ==> d.is_valid()),
    ensures
        exists|a: Option<Date>, b: Option<Date>| #[trigger]
            is_processed_with(input@, cfg, today, r.0@, r.1.deep_view(), a, b),
        r.0.is_well_formed(),
        all_valid(r.1@),
{
    let item = draft_item(input, cfg, today);
    if !cfg.no_fixup {
        let warnings = !cfg.quiet;
        let (fixed_item, notes) = item.fixup_read(warnings, read);
        let ghost (a, b) = choose|a: Option<Date>, b: Option<Date>| #[trigger]
            is_fixup_with(item@, warnings, fixed_item@, notes.deep_view(), a, b);
        let r = (Line::from_item(fixed_item), notes);
        assert(is_processed_with(input@, cfg, today, r.0@, r.1.deep_view(), a, b));
        r
    } else {
        let r = (Line::from_item(item), Vec::new());
        assert(r.1.deep_view() =~= Seq::<AdvisoryView>::empty());
        assert(is_processed_with(
            input@,
            cfg,
            today,
            r.0@,
            r.1.deep_view(),
            None::<Date>,
            None::<Date>,
        ));
        r
    }
}

} // verus!
