//! Changes that are made to the lines of a list one task at a time, each
//! only where the user agrees: marking done, pulling forward, removing.

use vstd::prelude::*;
use crate::action::ConfirmationStatus;
use crate::action::Outputter;
use crate::action::SearchTerms;
use crate::date::Date;
use crate::date::FIRST_DAY;
use crate::date::LAST_DAY;
use crate::item::schedule::done;
use crate::item::schedule::due_day;
use crate::item::schedule::pulled;
use crate::item::ItemView;
use crate::item::Urgency;
use crate::list::line_views;
use crate::list::Line;
use crate::list::LineKind;
use crate::list::LineView;
use crate::list::List;

verus! {

/// A change to a task line.
#[derive(Clone, Copy, Debug, PartialEq, Eq, Structural)]
pub enum Change {
    /// The task is marked done, with the date or without.
    Done { include_date: bool },
    /// The task is pulled forward to an urgency.
    Pull { urgency: Urgency },
    /// The line is emptied.
    Remove,
}

impl Change {
    /// What the user is asked before the change is made.
    pub open spec fn question(self) -> Seq<char> {
        match self {
            Change::Done { .. } => "Mark finished?"@,
            Change::Pull { .. } => "Reschedule?"@,
            Change::Remove => "Remove?"@,
        }
    }

    /// What is said when the change goes ahead.
    pub open spec fn yes_words(self) -> Seq<char> {
        match self {
            Change::Done { .. } => "Marking finished"@,
            Change::Pull { .. } => "Rescheduling"@,
            Change::Remove => "Removing"@,
        }
    }

    /// What is said when the change is left.
    pub open spec fn no_words(self) -> Seq<char> {
        match self {
            Change::Done { .. } => "Skipping"@,
            Change::Pull { .. } => "Skipping"@,
            Change::Remove => "Keeping"@,
        }
    }

    /// Whether the change is offered for the line `l`: it holds a task that
    /// fits the search terms, and, for all but removing, is not complete.
    pub open spec fn is_offered(self, terms: &SearchTerms, l: LineView) -> bool {
        l.kind == LineKind::Item && match l.item {
            Some(v) => terms.matches(v) && (self == Change::Remove || !v.completion),
            None => false,
        }
    }

    /// The line that holds the task `v`, once changed on the day `today`.
    pub open spec fn changed(self, v: ItemView, today: Date) -> LineView {
        match self {
            Change::Done { include_date } => LineView::of_item(done(v, include_date, today)),
            Change::Pull { urgency } => LineView::of_item(pulled(v, urgency, today)),
            Change::Remove => LineView::blank(),
        }
    }

    /// Whether the change can be made to the task `v` on the day `today`:
    /// pulling forward needs a due date that `YYYY-MM-DD` can write.
    pub open spec fn is_possible(self, v: ItemView, today: Date) -> bool {
        self matches Change::Pull { urgency } ==> FIRST_DAY <= due_day(v, urgency, today)
            <= LAST_DAY
    }

    /// Whether the change can be made to every task of `lines`.
    pub open spec fn is_possible_for_all(self, lines: Seq<LineView>, today: Date) -> bool {
        forall|k: int|
            0 <= k < lines.len() ==> ((#[trigger] lines[k]).item matches Some(v)
                ==> self.is_possible(v, today))
    }

    /// What the user is asked before the change is made.
    pub fn prompt_phrase(&self) -> (r: &'static str)
        ensures
            r@ == self.question(),
    {
        match self {
            Change::Done { .. } => "Mark finished?",
            Change::Pull { .. } => "Reschedule?",
            Change::Remove => "Remove?",
        }
    }

    /// What is said when the change goes ahead.
    pub fn yes_phrase(&self) -> (r: &'static str)
        ensures
            r@ == self.yes_words(),
    {
        match self {
            Change::Done { .. } => "Marking finished",
            Change::Pull { .. } => "Rescheduling",
            Change::Remove => "Removing",
        }
    }

    /// What is said when the change is left.
    pub fn no_phrase(&self) -> (r: &'static str)
        ensures
            r@ == self.no_words(),
    {
        match self {
            Change::Done { .. } => "Skipping",
            Change::Pull { .. } => "Skipping",
            Change::Remove => "Keeping",
        }
    }

    /// Whether the change is offered for `line`.
    pub fn applies_to(&self, terms: &SearchTerms, line: &Line) -> (r: bool)
        requires
            terms.is_readable(),
        ensures
            r == self.is_offered(terms, line@),
    {
        if line.kind == LineKind::Item {
            match &line.item {
                Some(item) => terms.item_matches(item) && (match self {
                    Change::Remove => true,
                    _ => !item.completion(),
                }),
                None => false,
            }
        } else {
            false
        }
    }

    /// The line `line` once changed on the day `today`; `line` itself where
    /// it holds no task.
    pub fn apply(&self, line: &Line, today: Date) -> (r: Line)
        requires
            today.is_valid(),
            line.is_well_formed(),
            line@.item matches Some(v) ==> self.is_possible(v, today),
        ensures
            r@ == match line@.item {
                Some(v) => self.changed(v, today),
                None => line@,
            },
            r.is_well_formed(),
    {
        match self {
            Change::Done { include_date } => line.but_done(*include_date, today),
            Change::Pull { urgency } => line.but_pull(*urgency, today),
            Change::Remove => match &line.item {
                Some(_) => Line::new_blank(),
                None => line.clone(),
            },
        }
    }
}

/// What comes of one line: the line as it now is, whether it was changed,
/// whether the user was to be asked, and what was written.
pub struct Step {
    pub line: LineView,
    pub changed: bool,
    pub asked: bool,
    pub written: Seq<char>,
}

/// What comes of the line `l` under the change `change`, where `answer` is
/// what the user says if asked.
///
/// A line for which the change is offered is shown, and a notice says
/// whether the change goes ahead; where it does, the changed line takes the
/// place of the line. Any other line stays, and nothing is written for it.
pub open spec fn step_of(
    change: Change,
    l: LineView,
    terms: &SearchTerms,
    status: ConfirmationStatus,
    answer: bool,
    outputter: &Outputter,
    today: Date,
) -> Step {
    match l.item {
        Some(v) if change.is_offered(terms, l) => {
            let yes = status.decision(answer);
            Step {
                line: if yes {
                    change.changed(v, today)
                } else {
                    l
                },
                changed: yes,
                asked: true,
                written: outputter.item_text(v, today) + outputter.line_of(
                    (if yes {
                        change.yes_words()
                    } else {
                        change.no_words()
                    }).push('\n'),
                    "magenta"@,
                ),
            }
        },
        _ => Step { line: l, changed: false, asked: false, written: seq![] },
    }
}

/// What has come of going through some lines: the lines as they now are,
/// how many were changed, how many times the user was to be asked, and what
/// was written.
pub struct Outcome {
    pub lines: Seq<LineView>,
    pub count: nat,
    pub asked: nat,
    pub written: Seq<char>,
}

/// The answer to the question numbered `k`, from 0: the one given, or yes
/// where the answers given do not reach that far.
pub open spec fn answer_at(answers: Seq<bool>, k: nat) -> bool {
    if k < answers.len() {
        answers[k as int]
    } else {
        true
    }
}

/// What comes of going through `lines` with the change `change`, line by
/// line, each question answered by the next of `answers`.
pub open spec fn outcome(
    change: Change,
    lines: Seq<LineView>,
    terms: &SearchTerms,
    status: ConfirmationStatus,
    answers: Seq<bool>,
    outputter: &Outputter,
    today: Date,
) -> Outcome
    decreases lines.len(),
{
    if lines.len() == 0 {
        Outcome { lines: seq![], count: 0, asked: 0, written: seq![] }
    } else {
        let before = outcome(change, lines.drop_last(), terms, status, answers, outputter, today);
        let step = step_of(
            change,
            lines.last(),
            terms,
            status,
            answer_at(answers, before.asked),
            outputter,
            today,
        );
        Outcome {
            lines: before.lines.push(step.line),
            count: before.count + if step.changed {
                1nat
            } else {
                0nat
            },
            asked: before.asked + if step.asked {
                1nat
            } else {
                0nat
            },
            written: before.written + step.written,
        }
    }
}

/// Takes the line `line` through the change `change`, on the day `today`.
/// Returns the line as it now is, whether it was changed, and whether the
/// user was to be asked; `answer` is what the user says if asked.
pub fn take_step(
    change: Change,
    line: &Line,
    search_terms: &SearchTerms,
    status: ConfirmationStatus,
    answer: bool,
    outputter: &mut Outputter,
    today: Date,
) -> (r: (Line, bool, bool))
    requires
        today.is_valid(),
        line.is_well_formed(),
        search_terms.is_readable(),
        line@.item matches Some(v) ==> change.is_possible(v, today),
    ensures
        ({
            let s = step_of(change, line@, search_terms, status, answer, old(outputter), today);
            &&& r.0@ == s.line
            &&& r.1 == s.changed
            &&& r.2 == s.asked
            &&& final(outputter).io@ == old(outputter).io@ + s.written
        }),
        r.0.is_well_formed(),
        final(outputter).same_settings(old(outputter)),
{
    if change.applies_to(search_terms, line) {
        match &line.item {
            Some(item) => {
                outputter.write_item(item, today);
                let yes = status.check(outputter, answer, change.yes_phrase(), change.no_phrase());
                assert(outputter.io@ =~= old(outputter).io@ + (old(outputter).item_text(
                    item@,
                    today,
                ) + old(outputter).line_of(
                    (if yes {
                        change.yes_words()
                    } else {
                        change.no_words()
                    }).push('\n'),
                    "magenta"@,
                )));
                if yes {
                    (change.apply(line, today), true, true)
                } else {
                    (line.clone(), false, true)
                }
            },
            None => {
                assert(outputter.io@ =~= old(outputter).io@ + Seq::<char>::empty());
                (line.clone(), false, false)
            },
        }
    } else {
        assert(outputter.io@ =~= old(outputter).io@ + Seq::<char>::empty());
        (line.clone(), false, false)
    }
}

/// Goes through the lines of `list` with the change `change`, on the day
/// `today`. Returns the list as it now is and the number of lines changed.
///
/// `answers` holds what the user said to each question in turn; it counts
/// only where the status is to ask, and an answer that is missing is a yes.
pub fn apply_change(
    change: Change,
    list: List,
    search_terms: &SearchTerms,
    status: ConfirmationStatus,
    answers: &Vec<bool>,
    outputter: &mut Outputter,
    today: Date,
) -> (r: (List, usize))
    requires
        today.is_valid(),
        list.is_well_formed(),
        search_terms.is_readable(),
        change.is_possible_for_all(list.line_views(), today),
    ensures
        ({
            let o = outcome(
                change,
                list.line_views(),
                search_terms,
                status,
                answers@,
                old(outputter),
                today,
            );
            &&& r.0.line_views() == o.lines
            &&& r.1 == o.count
            &&& final(outputter).io@ == old(outputter).io@ + o.written
        }),
        r.0.is_well_formed(),
        r.0.path is None,
        final(outputter).same_settings(old(outputter)),
{
    let mut new_list = List::new();
    let mut count: usize = 0;
    let mut asked: usize = 0;
    let mut k: usize = 0;
    let ghost views = list.line_views();
    assert(views.take(0) =~= Seq::<LineView>::empty());
    assert(new_list.line_views() =~= Seq::<LineView>::empty());
    assert(outputter.io@ =~= old(outputter).io@ + Seq::<char>::empty());
    while k < list.lines.len()
        invariant
            k <= list.lines.len(),
            today.is_valid(),
            list.is_well_formed(),
            search_terms.is_readable(),
            views == list.line_views(),
            change.is_possible_for_all(views, today),
            new_list.is_well_formed(),
            new_list.path is None,
            outputter.same_settings(old(outputter)),
            count <= k,
            asked <= k,
            new_list.lines.len() == k,
            ({
                let o = outcome(
                    change,
                    views.take(k as int),
                    search_terms,
                    status,
                    answers@,
                    old(outputter),
                    today,
                );
                &&& new_list.line_views() == o.lines
                &&& count == o.count
                &&& asked == o.asked
                &&& outputter.io@ == old(outputter).io@ + o.written
            }),
        decreases list.lines.len() - k,
    {
        let line = &list.lines[k];
        let ghost before = outcome(
            change,
            views.take(k as int),
            search_terms,
            status,
            answers@,
            old(outputter),
            today,
        );
        let ghost lines_before = new_list.line_views();
        let ghost settings = *outputter;
        proof {
            assert(views.take(k + 1).drop_last() =~= views.take(k as int));
            assert(views.take(k + 1).last() == line@);
            assert(views[k as int] == line@);
        }
        let answer = if asked < answers.len() {
            answers[asked]
        } else {
            true
        };
        let (new_line, changed, was_asked) = take_step(
            change,
            line,
            search_terms,
            status,
            answer,
            outputter,
            today,
        );
        proof {
            let s = step_of(change, line@, search_terms, status, answer, &settings, today);
            lemma_step_goes_by_settings(
                change,
                line@,
                search_terms,
                status,
                answer,
                &settings,
                old(outputter),
                today,
            );
            assert(outputter.io@ =~= old(outputter).io@ + (before.written + s.written));
        }
        if changed {
            count += 1;
        }
        if was_asked {
            asked += 1;
        }
        new_list.lines.push(new_line);
        assert(new_list.line_views() =~= lines_before.push(new_line@));
        k += 1;
    }
    assert(views.take(list.lines.len() as int) =~= views);
    (new_list, count)
}

/// What is written for a line goes by how the outputter is set up, not by
/// what it has written before.
pub proof fn lemma_step_goes_by_settings(
    change: Change,
    l: LineView,
    terms: &SearchTerms,
    status: ConfirmationStatus,
    answer: bool,
    a: &Outputter,
    b: &Outputter,
    today: Date,
)
    requires
        a.same_settings(b),
    ensures
        step_of(change, l, terms, status, answer, a, today) == step_of(
            change,
            l,
            terms,
            status,
            answer,
            b,
            today,
        ),
{
    match l.item {
        Some(v) => {
            assert(a.lead_of(v) =~= b.lead_of(v));
            assert(a.row_of(v) =~= b.row_of(v));
            assert(a.item_text(v, today) =~= b.item_text(v, today));
        },
        None => {},
    }
}

} // verus!
