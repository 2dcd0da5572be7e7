//! Show the full todo list

use vstd::prelude::*;
use crate::action::rows;
use crate::action::write_items;
use crate::action::Outputter;
use crate::action::SortOrder;
use crate::date::Date;
use crate::item::Importance;
use crate::item::Item;
use crate::item::TshirtSize;
use crate::item::Urgency;
use crate::list::item_refs;
use crate::list::List;
use crate::util::group_items_by_importance;
use crate::util::group_items_by_size;
use crate::util::group_items_by_urgency;
use crate::util::group_views;
use crate::util::grouped_by_importance;
use crate::util::grouped_by_size;
use crate::util::grouped_by_urgency;

verus! {

/// The default sort order for output.
pub fn default_sort_order() -> (r: SortOrder)
    ensures
        r == SortOrder::Smart,
{
    SortOrder::Smart
}

/// How the tasks of a list are grouped when the list is shown.
#[derive(Clone, Copy, Debug, PartialEq, Eq, Structural)]
pub enum Grouping {
    Urgency,
    Importance,
    TshirtSize,
    Ungrouped,
}

/// A group of tasks under a heading, as it is shown: the heading, the tasks
/// in the order `order`, and an empty line.
pub open spec fn section(
    o: &Outputter,
    heading: Seq<char>,
    items: Seq<&Item>,
    order: SortOrder,
    today: Date,
) -> Seq<char> {
    o.line_of("# "@ + heading, "white.bright.bold"@) + rows(o, order.sorted(items, today), today)
        + seq!['\n']
}

/// The groups `groups`, each under its heading, one after the other.
pub open spec fn sections(
    o: &Outputter,
    groups: Seq<(Seq<char>, Seq<&Item>)>,
    order: SortOrder,
    today: Date,
) -> Seq<char>
    decreases groups.len(),
{
    if groups.len() == 0 {
        seq![]
    } else {
        sections(o, groups.drop_last(), order, today) + section(
            o,
            groups.last().0,
            groups.last().1,
            order,
            today,
        )
    }
}

/// The groups that the grouping `grouping` makes of the tasks `items`, each
/// with its heading. No grouping makes no groups.
pub open spec fn headed_groups<'a>(items: Seq<&'a Item>, grouping: Grouping, today: Date) -> Seq<
    (Seq<char>, Seq<&'a Item>),
> {
    match grouping {
        Grouping::Urgency => grouped_by_urgency(items, today).map_values(
            |g: (Urgency, Seq<&'a Item>)| (g.0.heading(), g.1),
        ),
        Grouping::Importance => grouped_by_importance(items).map_values(
            |g: (Importance, Seq<&'a Item>)| (g.0.heading(), g.1),
        ),
        Grouping::TshirtSize => grouped_by_size(items).map_values(
            |g: (TshirtSize, Seq<&'a Item>)| (g.0.heading(), g.1),
        ),
        Grouping::Ungrouped => seq![],
    }
}

/// The tasks `items` as they are shown: in groups, each under its heading,
/// or, with no grouping, one after the other. In either case the order
/// `order` says which task comes first.
pub open spec fn shown(
    o: &Outputter,
    items: Seq<&Item>,
    grouping: Grouping,
    order: SortOrder,
    today: Date,
) -> Seq<char> {
    if grouping == Grouping::Ungrouped {
        rows(o, order.sorted(items, today), today)
    } else {
        sections(o, headed_groups(items, grouping, today), order, today)
    }
}

/// The views of the groups `groups`.
pub open spec fn headed_views<'a>(groups: Seq<(&'static str, Vec<&'a Item>)>) -> Seq<
    (Seq<char>, Seq<&'a Item>),
> {
    groups.map_values(|g: (&'static str, Vec<&'a Item>)| (g.0@, g.1@))
}

fn write_sections(
    outputter: &mut Outputter,
    groups: &Vec<(&'static str, Vec<&Item>)>,
    sort_order: &SortOrder,
    today: Date,
)
    requires
        today.is_valid(),
    ensures
        final(outputter).io@ == old(outputter).io@ + sections(
            old(outputter),
            headed_views(groups@),
            *sort_order,
            today,
        ),
        final(outputter).same_settings(old(outputter)),
{
    let ghost views = headed_views(groups@);
    let mut k: usize = 0;
    assert(outputter.io@ =~= old(outputter).io@ + sections(
        old(outputter),
        views.take(0),
        *sort_order,
        today,
    ));
    while k < groups.len()
        invariant
            k <= groups.len(),
            today.is_valid(),
            views == headed_views(groups@),
            outputter.same_settings(old(outputter)),
            outputter.io@ == old(outputter).io@ + sections(
                old(outputter),
                views.take(k as int),
                *sort_order,
                today,
            ),
        decreases groups.len() - k,
    {
        let ghost before = sections(old(outputter), views.take(k as int), *sort_order, today);
        let ghost settings = *outputter;
        proof {
            assert(views.take(k + 1).drop_last() =~= views.take(k as int));
            assert(views.take(k + 1).last() == views[k as int]);
        }
        outputter.write_heading(std::string::String::from_str(groups[k].0));
        let sorted = sort_order.sort_items(copy_of(&groups[k].1), today);
        let ghost middle = *outputter;
        write_items(outputter, &sorted, today);
        outputter.write_separator();
        proof {
            lemma_rows_go_by_settings(&middle, old(outputter), sorted@, today);
            assert(settings.line_of("# "@ + groups[k as int].0@, "white.bright.bold"@) == old(
                outputter,
            ).line_of("# "@ + groups[k as int].0@, "white.bright.bold"@));
            assert(outputter.io@ =~= old(outputter).io@ + (before + section(
                old(outputter),
                views[k as int].0,
                views[k as int].1,
                *sort_order,
                today,
            )));
        }
        k += 1;
    }
    assert(views.take(groups.len() as int) =~= views);
}

fn copy_of<'a>(items: &Vec<&'a Item>) -> (r: Vec<&'a Item>)
    ensures
        r@ == items@,
{
    let mut r: Vec<&'a Item> = Vec::new();
    let mut k: usize = 0;
    while k < items.len()
        invariant
            k <= items.len(),
            r@ == items@.take(k as int),
        decreases items.len() - k,
    {
        r.push(items[k]);
        k += 1;
    }
    assert(items@.take(items.len() as int) =~= items@);
    r
}

/// How tasks are shown goes by how the outputter is set up, not by what it
/// has written before.
pub proof fn lemma_rows_go_by_settings(a: &Outputter, b: &Outputter, items: Seq<&Item>, today: Date)
    requires
        a.same_settings(b),
    ensures
        rows(a, items, today) == rows(b, items, today),
    decreases items.len(),
{
    if items.len() > 0 {
        lemma_rows_go_by_settings(a, b, items.drop_last(), today);
        crate::action::lemma_item_text_goes_by_settings(a, b, items.last()@, today);
    }
}

fn urgency_groups<'a>(items: Vec<&'a Item>, today: Date) -> (r: Vec<(&'static str, Vec<&'a Item>)>)
    requires
        today.is_valid(),
    ensures
        headed_views(r@) == headed_groups(items@, Grouping::Urgency, today),
{
    let groups = group_items_by_urgency(items, today);
    let mut r: Vec<(&'static str, Vec<&'a Item>)> = Vec::new();
    let mut k: usize = 0;
    while k < groups.len()
        invariant
            k <= groups.len(),
            headed_views(r@) == group_views(groups@).take(k as int).map_values(
                |g: (Urgency, Seq<&'a Item>)| (g.0.heading(), g.1),
            ),
        decreases groups.len() - k,
    {
        let ghost before = headed_views(r@);
        r.push((groups[k].0.to_string(), copy_of(&groups[k].1)));
        assert(headed_views(r@) =~= before.push((groups[k as int].0.heading(), groups[k as int].1@)));
        assert(group_views(groups@).take(k + 1).map_values(
            |g: (Urgency, Seq<&'a Item>)| (g.0.heading(), g.1),
        ) =~= before.push((groups[k as int].0.heading(), groups[k as int].1@)));
        k += 1;
    }
    assert(group_views(groups@).take(groups.len() as int) =~= group_views(groups@));
    r
}

fn importance_groups<'a>(items: Vec<&'a Item>, Ghost(today): Ghost<Date>) -> (r: Vec<
    (&'static str, Vec<&'a Item>),
>)
    ensures
        headed_views(r@) == headed_groups(items@, Grouping::Importance, today),
{
    let groups = group_items_by_importance(items);
    let mut r: Vec<(&'static str, Vec<&'a Item>)> = Vec::new();
    let mut k: usize = 0;
    while k < groups.len()
        invariant
            k <= groups.len(),
            headed_views(r@) == group_views(groups@).take(k as int).map_values(
                |g: (Importance, Seq<&'a Item>)| (g.0.heading(), g.1),
            ),
        decreases groups.len() - k,
    {
        let ghost before = headed_views(r@);
        r.push((groups[k].0.to_string(), copy_of(&groups[k].1)));
        assert(headed_views(r@) =~= before.push((groups[k as int].0.heading(), groups[k as int].1@)));
        assert(group_views(groups@).take(k + 1).map_values(
            |g: (Importance, Seq<&'a Item>)| (g.0.heading(), g.1),
        ) =~= before.push((groups[k as int].0.heading(), groups[k as int].1@)));
        k += 1;
    }
    assert(group_views(groups@).take(groups.len() as int) =~= group_views(groups@));
    r
}

fn size_groups<'a>(items: Vec<&'a Item>, Ghost(today): Ghost<Date>) -> (r: Vec<
    (&'static str, Vec<&'a Item>),
>)
    ensures
        headed_views(r@) == headed_groups(items@, Grouping::TshirtSize, today),
{
    let groups = group_items_by_size(items);
    let mut r: Vec<(&'static str, Vec<&'a Item>)> = Vec::new();
    let mut k: usize = 0;
    while k < groups.len()
        invariant
            k <= groups.len(),
            headed_views(r@) == group_views(groups@).take(k as int).map_values(
                |g: (TshirtSize, Seq<&'a Item>)| (g.0.heading(), g.1),
            ),
        decreases groups.len() - k,
    {
        let ghost before = headed_views(r@);
        r.push((groups[k].0.to_string(), copy_of(&groups[k].1)));
        assert(headed_views(r@) =~= before.push((groups[k as int].0.heading(), groups[k as int].1@)));
        assert(group_views(groups@).take(k + 1).map_values(
            |g: (TshirtSize, Seq<&'a Item>)| (g.0.heading(), g.1),
        ) =~= before.push((groups[k as int].0.heading(), groups[k as int].1@)));
        k += 1;
    }
    assert(group_views(groups@).take(groups.len() as int) =~= group_views(groups@));
    r
}

/// Guts for the show command.
///
/// Outputs an entire todo list with a given grouping and sort order.
pub fn show_list(
    list: &List,
    grouping: &Grouping,
    sort_order: &SortOrder,
    outputter: &mut Outputter,
    today: Date,
)
    requires
        today.is_valid(),
    ensures
        final(outputter).io@ == old(outputter).io@ + shown(
            old(outputter),
            item_refs(list.lines@),
            *grouping,
            *sort_order,
            today,
        ),
        final(outputter).same_settings(old(outputter)),
{
    match grouping {
        Grouping::Urgency => {
            let groups = urgency_groups(list.items(), today);
            write_sections(outputter, &groups, sort_order, today);
        },
        Grouping::Importance => {
            let groups = importance_groups(list.items(), Ghost(today));
            write_sections(outputter, &groups, sort_order, today);
        },
        Grouping::TshirtSize => {
            let groups = size_groups(list.items(), Ghost(today));
            write_sections(outputter, &groups, sort_order, today);
        },
        Grouping::Ungrouped => {
            let sorted = sort_order.sort_items(list.items(), today);
            write_items(outputter, &sorted, today);
        },
    }
}

} // verus!
