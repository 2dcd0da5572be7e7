//! Mark a task or tasks as done

use vstd::prelude::*;
use crate::action::change::apply_change;
use crate::action::change::outcome;
use crate::action::change::Change;
use crate::action::ConfirmationStatus;
use crate::action::Outputter;
use crate::action::SearchTerms;
use crate::date::Date;
use crate::item::Item;
use crate::list::List;

verus! {

/// Return a new list with certain tasks in the given list marked as complete, based on the
/// search terms. Also returns a count of items modified.
///
/// `answers` holds what the user said to each question in turn; it counts
/// only where the status is to ask, and an answer that is missing is a yes.
pub fn mark_items_done_in_list(
    input: List,
    search_terms: SearchTerms,
    outputter: &mut Outputter,
    status: ConfirmationStatus,
    include_date: bool,
    today: Date,
    answers: &Vec<bool>,
) -> (r: (usize, List))
    requires
        today.is_valid(),
        input.is_well_formed(),
        search_terms.is_readable(),
    ensures
        ({
            let o = outcome(
                Change::Done { include_date },
                input.line_views(),
                &search_terms,
                status,
                answers@,
                old(outputter),
                today,
            );
            &&& r.1.line_views() == o.lines
            &&& r.0 == o.count
            &&& final(outputter).io@ == old(outputter).io@ + o.written
        }),
        r.1.is_well_formed(),
        final(outputter).same_settings(old(outputter)),
{
    let (new_list, count) = apply_change(
        Change::Done { include_date },
        input,
        &search_terms,
        status,
        answers,
        outputter,
        today,
    );
    (count, new_list)
}

/// Settles whether to mark an item as complete, and writes the item and the
/// response before returning a bool. `answer` is what the user said when
/// asked; it counts only where the status is to ask.
pub fn check_if_complete(
    item: &Item,
    outputter: &mut Outputter,
    status: ConfirmationStatus,
    answer: bool,
    today: Date,
) -> (r: bool)
    requires
        today.is_valid(),
    ensures
        r == status.decision(answer),
        final(outputter).io@ == old(outputter).io@ + old(outputter).item_text(item@, today) + old(
            outputter,
        ).line_of(
            (if r {
                "Marking finished"@
            } else {
                "Skipping"@
            }).push('\n'),
            "magenta"@,
        ),
        final(outputter).same_settings(old(outputter)),
{
    outputter.write_item(item, today);
    status.check(outputter, answer, "Marking finished", "Skipping")
}

} // verus!
