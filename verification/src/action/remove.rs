//! Remove a task or tasks

use vstd::prelude::*;
use crate::action::change::apply_change;
use crate::action::change::outcome;
use crate::action::change::Change;
use crate::action::ConfirmationStatus;
use crate::action::Outputter;
use crate::action::SearchTerms;
use crate::date::Date;
use crate::item::Item;
use crate::list::List;

verus! {

/// Given a list and set of search terms, creates a copy of the list but without any items
/// matching the search terms. (In fact, replaces removed items with a blank line.)
///
/// The confirmation status and outputter will be used to check whether each individual item
/// should be altered. `answers` holds what the user said to each question in
/// turn; it counts only where the status is to ask, and an answer that is
/// missing is a yes.
///
/// Also returns the number of items removed.
pub fn remove_items_from_list(
    list: List,
    search_terms: SearchTerms,
    confirmation: ConfirmationStatus,
    outputter: &mut Outputter,
    today: Date,
    answers: &Vec<bool>,
) -> (r: (List, usize))
    requires
        today.is_valid(),
        list.is_well_formed(),
        search_terms.is_readable(),
    ensures
        ({
            let o = outcome(
                Change::Remove,
                list.line_views(),
                &search_terms,
                confirmation,
                answers@,
                old(outputter),
                today,
            );
            &&& r.0.line_views() == o.lines
            &&& r.1 == o.count
            &&& final(outputter).io@ == old(outputter).io@ + o.written
        }),
        r.0.is_well_formed(),
        final(outputter).same_settings(old(outputter)),
{
    apply_change(Change::Remove, list, &search_terms, confirmation, answers, outputter, today)
}

/// Settles whether to delete an item, and writes the item and the response
/// before returning a bool. `answer` is what the user said when asked; it
/// counts only where the status is to ask.
pub fn check_if_delete(
    item: &Item,
    outputter: &mut Outputter,
    status: ConfirmationStatus,
    answer: bool,
    today: Date,
) -> (r: bool)
    requires
        today.is_valid(),
    ensures
        r == status.decision(answer),
        final(outputter).io@ == old(outputter).io@ + old(outputter).item_text(item@, today) + old(
            outputter,
        ).line_of(
            (if r {
                "Removing"@
            } else {
                "Keeping"@
            }).push('\n'),
            "magenta"@,
        ),
        final(outputter).same_settings(old(outputter)),
{
    outputter.write_item(item, today);
    status.check(outputter, answer, "Removing", "Keeping")
}

} // verus!
