//! What holds of every task: statements that tie the parts of this module together.

use vstd::prelude::*;
use crate::action::SortOrder;
use crate::date::next_month_end;
use crate::date::week_end;
use crate::date::Date;
use crate::item::fields::is_size_word;
use crate::item::fields::names_size;
use crate::item::urgency_on;
use crate::item::Importance;
use crate::item::ItemView;
use crate::item::TshirtSize;
use crate::item::Urgency;
use crate::sorting::KeyView;

verus! {

/// Everything that is read off a task goes by its description and its
/// priority as they are now. Two tasks that agree in these agree in their
/// tags, contexts, key-value pairs, due and start dates, urgency, size and
/// importance, whatever else they hold and whatever they held before: a
/// change of the description leaves nothing of the old one behind.
pub proof fn lemma_reading_follows_description(a: ItemView, b: ItemView, today: Date)
    requires
        a.description == b.description,
        a.priority == b.priority,
    ensures
        a.importance() == b.importance(),
        a.tags() == b.tags(),
        a.contexts() == b.contexts(),
        a.kv_pairs() == b.kv_pairs(),
        a.due_date() == b.due_date(),
        a.start_date() == b.start_date(),
        a.urgency(today) == b.urgency(today),
        a.tshirt_size() == b.tshirt_size(),
        a.is_startable(today) == b.is_startable(today),
        a.smart_key(today) == b.smart_key(today),
        forall|t: Seq<char>| a.has_tag(t) == b.has_tag(t),
        forall|t: Seq<char>| a.has_context(t) == b.has_context(t),
{
}

/// A task with a context that names small is small, whatever other sizes
/// its contexts name: small is looked for first.
pub proof fn lemma_small_wins(v: ItemView)
    requires
        names_size(v.contexts(), TshirtSize::Small),
    ensures
        v.tshirt_size() == Some(TshirtSize::Small),
{
}

/// The context `S` names small, and `L` names large and not small.
pub proof fn lemma_size_letters()
    ensures
        is_size_word(seq!['S'], TshirtSize::Small),
        is_size_word(seq!['L'], TshirtSize::Large),
        !is_size_word(seq!['L'], TshirtSize::Small),
        !is_size_word(seq!['S'], TshirtSize::Large),
{
}

/// A task whose contexts hold `S` is small, also where they hold `L` too.
pub proof fn lemma_small_beats_large(v: ItemView)
    requires
        v.contexts().contains(seq!['S']),
    ensures
        v.tshirt_size() == Some(TshirtSize::Small),
{
    lemma_size_letters();
    let i = choose|i: int| 0 <= i < v.contexts().len() && v.contexts()[i] == seq!['S'];
    assert(is_size_word(v.contexts()[i], TshirtSize::Small));
}

/// Where the urgencies meet, with `t` for the day number of today: a due
/// date before today is overdue; today is today; one and two days on are
/// soon; from the third day up to the Sunday of this week is this week; up
/// to the Sunday after is next week; up to the last day of next month is
/// next month; and what lies beyond is later.
pub proof fn lemma_urgency_bounds(due: Date, today: Date)
    ensures
        ({
            let d = due.days();
            let t = today.days();
            let sunday = week_end(t);
            let month_end = next_month_end(today.year as int, today.month as int);
            let u = urgency_on(due, today);
            &&& d == t - 1 ==> u == Urgency::Overdue
            &&& d < t <==> u == Urgency::Overdue
            &&& d == t <==> u == Urgency::Today
            &&& (d == t + 1 || d == t + 2) <==> u == Urgency::Soon
            &&& t + 3 <= d <= sunday <==> u == Urgency::ThisWeek
            &&& (t + 3 <= d && sunday < d <= sunday + 7) <==> u == Urgency::NextWeek
            &&& (t + 3 <= d && sunday + 7 < d <= month_end) <==> u == Urgency::NextMonth
            &&& (t + 3 <= d && sunday + 7 < d && month_end < d) <==> u == Urgency::Later
            &&& t <= sunday <= t + 6
        }),
{
}

/// A task that names no due date, no priority and no size has the smart
/// key soon, normal, medium, whatever its description says: all such tasks
/// sort alike under the smart order, in the middle of those that do name them.
pub proof fn lemma_plain_task_sorts_in_the_middle(v: ItemView, today: Date)
    requires
        v.due_date() is None,
        v.importance() is None,
        v.tshirt_size() is None,
    ensures
        v.smart_key(today) == (Urgency::Soon, Importance::D, TshirtSize::Medium),
        SortOrder::Smart.key_of(v, today) == KeyView::Number(40),
{
}

/// Two tasks that name no due date, no priority and no size have the same
/// key under the smart order.
pub proof fn lemma_plain_tasks_sort_alike(a: ItemView, b: ItemView, today: Date)
    requires
        a.due_date() is None && a.importance() is None && a.tshirt_size() is None,
        b.due_date() is None && b.importance() is None && b.tshirt_size() is None,
    ensures
        SortOrder::Smart.key_of(a, today) == SortOrder::Smart.key_of(b, today),
{
}

/// Under the smart order the key of a task is smaller than that of another
/// exactly where its smart key comes first: by urgency, then importance,
/// then size.
pub proof fn lemma_smart_order_goes_by_smart_key(a: ItemView, b: ItemView, today: Date)
    ensures
        ({
            let x = a.smart_key(today);
            let y = b.smart_key(today);
            crate::sorting::key_before(
                SortOrder::Smart.key_of(a, today),
                SortOrder::Smart.key_of(b, today),
            ) <==> (x.0.rank() < y.0.rank() || (x.0 == y.0 && (x.1.rank() < y.1.rank() || (x.1
                == y.1 && x.2.rank() < y.2.rank()))))
        }),
{
}

} // verus!
