//! Automatically reschedule overdue tasks

use rand::seq::SliceRandom;
use vstd::prelude::*;
use crate::date::Date;
use crate::item::schedule::can_calm;
use crate::item::schedule::calmed;
use crate::list::Line;
use crate::list::LineKind;
use crate::list::LineView;
use crate::list::List;

verus! {

/// The line `l` with its task calmed; `l` itself where it holds no task.
pub open spec fn calmed_line(l: LineView, today: Date) -> LineView {
    match l.item {
        Some(v) if l.kind == LineKind::Item => LineView::of_item(calmed(v, today)),
        _ => l,
    }
}

/// The list with every overdue task rescheduled, on the day `today`. Every
/// task line is written afresh from its task, overdue or not.
pub fn calm_list(list: List, today: Date) -> (r: List)
    requires
        today.is_valid(),
        list.is_well_formed(),
        forall|k: int|
            0 <= k < list.lines.len() ==> ((#[trigger] list.lines[k])@.item matches Some(v)
                ==> can_calm(v, today)),
    ensures
        r.is_well_formed(),
        r.path is None,
        r.line_views() == list.line_views().map_values(|l: LineView| calmed_line(l, today)),
{
    let mut new_list = List::new();
    let mut k: usize = 0;
    let ghost views = list.line_views();
    while k < list.lines.len()
        invariant
            k <= list.lines.len(),
            today.is_valid(),
            list.is_well_formed(),
            views == list.line_views(),
            forall|j: int|
                0 <= j < list.lines.len() ==> ((#[trigger] list.lines[j])@.item matches Some(v)
                    ==> can_calm(v, today)),
            new_list.is_well_formed(),
            new_list.path is None,
            new_list.line_views() == views.take(k as int).map_values(
                |l: LineView| calmed_line(l, today),
            ),
        decreases list.lines.len() - k,
    {
        let line = &list.lines[k];
        let ghost before = new_list.line_views();
        assert(views[k as int] == line@);
        let new_line = if line.kind == LineKind::Item {
            match &line.item {
                Some(item) => Line::from_item(item.zen(today)),
                None => line.clone(),
            }
        } else {
            line.clone()
        };
        new_list.lines.push(new_line);
        assert(new_list.line_views() =~= before.push(calmed_line(line@, today)));
        assert(views.take(k + 1).map_values(|l: LineView| calmed_line(l, today)) =~= before.push(
            calmed_line(line@, today),
        ));
        k += 1;
    }
    assert(views.take(list.lines.len() as int) =~= views);
    new_list
}

/// The sayings on calm, in the order in which they are kept.
pub open spec fn sayings() -> Seq<&'static str> {
    seq![
        // Marcus Aurelius
        "The nearer a man comes to a calm mind, the closer he is to strength.",
        "It is in your power to withdraw yourself whenever you desire. Perfect tranquility\nwithin consists in the good ordering of the mind, the realm of your own.",
        // Bhagavad Gita
        "All sorrows are destroyed upon attainment of tranquility. The intellect of such\na tranquil person soon becomes completely steady.",
        // Chris Bradford
        "A samurai must remain calm at all times even in the face of danger.",
        // Buddhism
        "Those who are free of resentful thoughts surely find peace.",
        "Passaddhi, calm or tranquillity, is the fifth factor of enlightenment.",
        // Pema Chodron
        "You are the sky. Everything else... it's just the weather.",
        // Cicero
        "The pursuit, even of the best things, ought to be calm and tranquil.",
        "We think a happy life consists in tranquility of mind.",
        // Khaled Hosseini
        "Quiet is peace. Tranquility. Quiet is turning down the volume knob on life. Silence\nis pushing the off button. Shutting it down. All of it.",
        // Mehmet Murat ildan
        "Tranquillity is a fertile soil where you can plant and reap the solutions!",
        // Nelson Mandela
        "I never lose; either win or learn.",
        // Alfred Tennyson
        "The noonday quiet holds the hill.",
        // Zen
        "No snowflake ever falls in the wrong place.",
        "When you reach the top of the mountain, keep climbing.",
    ]
}

/// One of `quotes`, picked at random by rand's `SliceRandom::choose` with
/// the generator of the thread. Which one comes is open; that it is one of
/// them is all that is claimed.
#[verifier::external_body]
fn pick(quotes: &Vec<&'static str>) -> (r: &'static str)
    requires
        quotes.len() > 0,
    ensures
        quotes@.contains(r),
{
    quotes.choose(&mut rand::thread_rng()).unwrap()
}

/// The sayings to pick from.
pub fn quotes() -> (all: Vec<&'static str>)
    ensures
        all@ == sayings(),
{
    let mut all: Vec<&'static str> = Vec::new();
    // Marcus Aurelius
    all.push("The nearer a man comes to a calm mind, the closer he is to strength.");
    all.push("It is in your power to withdraw yourself whenever you desire. Perfect tranquility\nwithin consists in the good ordering of the mind, the realm of your own.");
    // Bhagavad Gita
    all.push("All sorrows are destroyed upon attainment of tranquility. The intellect of such\na tranquil person soon becomes completely steady.");
    // Chris Bradford
    all.push("A samurai must remain calm at all times even in the face of danger.");
    // Buddhism
    all.push("Those who are free of resentful thoughts surely find peace.");
    all.push("Passaddhi, calm or tranquillity, is the fifth factor of enlightenment.");
    // Pema Chodron
    all.push("You are the sky. Everything else... it's just the weather.");
    // Cicero
    all.push("The pursuit, even of the best things, ought to be calm and tranquil.");
    all.push("We think a happy life consists in tranquility of mind.");
    // Khaled Hosseini
    all.push("Quiet is peace. Tranquility. Quiet is turning down the volume knob on life. Silence\nis pushing the off button. Shutting it down. All of it.");
    // Mehmet Murat ildan
    all.push("Tranquillity is a fertile soil where you can plant and reap the solutions!");
    // Nelson Mandela
    all.push("I never lose; either win or learn.");
    // Alfred Tennyson
    all.push("The noonday quiet holds the hill.");
    // Zen
    all.push("No snowflake ever falls in the wrong place.");
    all.push("When you reach the top of the mountain, keep climbing.");
    assert(all@ =~= sayings());
    all
}

/// A saying on calm, picked at random.
pub fn zen_quote() -> (r: &'static str)
    ensures
        sayings().contains(r),
{
    let all = quotes();
    pick(&all)
}

} // verus!
