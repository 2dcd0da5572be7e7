//! Useful functions for manipulating todo lists.
//!
//! These mostly operate on `Vec<&Item>`.

use vstd::prelude::*;
use crate::action::sort_order_named;
use crate::action::term_matches;
use crate::action::SortOrder;
use crate::date::Date;
use crate::item::Importance;
use crate::item::Item;
use crate::item::ItemView;
use crate::item::TshirtSize;
use crate::item::Urgency;
use crate::text::chars_of;
use crate::text::contains_chars;
use crate::text::contains_text;
use crate::text::lowercase;
use crate::text::parse_count;
use crate::text::parse_count_from;
use crate::text::to_lowercase;

verus! {

/// A question that is asked of a task.
pub enum Test {
    /// Whether the task has the context.
    Context(Seq<char>),
    /// Whether the task has the tag.
    Tag(Seq<char>),
    /// Whether the task stands on the line of that number.
    LineNumber(nat),
    /// Whether the description holds the text, case left out of account.
    Text(Seq<char>),
    /// Whether the search term fits the task.
    Term(Seq<char>),
    /// Whether the task is open on that day: not complete, and free to start.
    Open(Date),
    /// Whether the task has that urgency on that day, soon standing in for none.
    UrgencyIs(Urgency, Date),
    /// Whether the task has that importance, normal standing in for none.
    ImportanceIs(Importance),
    /// Whether the task has that size, medium standing in for none.
    SizeIs(TshirtSize),
}

/// Whether the task `v` passes the test `t`.
pub open spec fn passes(t: Test, v: ItemView) -> bool {
    match t {
        Test::Context(c) => v.has_context(c),
        Test::Tag(c) => v.has_tag(c),
        Test::LineNumber(n) => v.line_number == n,
        Test::Text(s) => contains_text(lowercase(v.description), lowercase(s)),
        Test::Term(s) => term_matches(s, v),
        Test::Open(today) => v.is_startable(today) && !v.completion,
        Test::UrgencyIs(u, today) => v.smart_key(today).0 == u,
        Test::ImportanceIs(i) => i == match v.importance() {
            Some(x) => x,
            None => Importance::D,
        },
        Test::SizeIs(s) => s == match v.tshirt_size() {
            Some(x) => x,
            None => TshirtSize::Medium,
        },
    }
}

/// The tasks of `items` that pass the test `t`, in the order in which they stand.
pub open spec fn kept<'a>(items: Seq<&'a Item>, t: Test) -> Seq<&'a Item>
    decreases items.len(),
{
    if items.len() == 0 {
        seq![]
    } else if passes(t, items.last()@) {
        kept(items.drop_last(), t).push(items.last())
    } else {
        kept(items.drop_last(), t)
    }
}

/// One step of keeping: what `kept` makes of the first `k + 1` tasks, from
/// what it makes of the first `k`.
pub proof fn lemma_kept_step(items: Seq<&Item>, t: Test, k: int)
    requires
        0 <= k < items.len(),
    ensures
        kept(items.take(k + 1), t) == if passes(t, items[k]@) {
            kept(items.take(k), t).push(items[k])
        } else {
            kept(items.take(k), t)
        },
{
    assert(items.take(k + 1).drop_last() =~= items.take(k));
    assert(items.take(k + 1).last() == items[k]);
}

/// The groups of `groups` that hold at least one task.
pub open spec fn only_filled<'a, K>(groups: Seq<(K, Seq<&'a Item>)>) -> Seq<(K, Seq<&'a Item>)>
    decreases groups.len(),
{
    if groups.len() == 0 {
        seq![]
    } else if groups.last().1.len() > 0 {
        only_filled(groups.drop_last()).push(groups.last())
    } else {
        only_filled(groups.drop_last())
    }
}

/// The groups `groups`, as mathematical values.
pub open spec fn group_views<'a, K>(groups: Seq<(K, Vec<&'a Item>)>) -> Seq<(K, Seq<&'a Item>)> {
    groups.map_values(|g: (K, Vec<&'a Item>)| (g.0, g.1@))
}

/// The tasks `items`, one group for each urgency that any of them has on
/// the day `today`, from the most urgent on.
pub open spec fn grouped_by_urgency<'a>(items: Seq<&'a Item>, today: Date) -> Seq<
    (Urgency, Seq<&'a Item>),
> {
    only_filled(
        seq![
            (Urgency::Overdue, kept(items, Test::UrgencyIs(Urgency::Overdue, today))),
            (Urgency::Today, kept(items, Test::UrgencyIs(Urgency::Today, today))),
            (Urgency::Soon, kept(items, Test::UrgencyIs(Urgency::Soon, today))),
            (Urgency::ThisWeek, kept(items, Test::UrgencyIs(Urgency::ThisWeek, today))),
            (Urgency::NextWeek, kept(items, Test::UrgencyIs(Urgency::NextWeek, today))),
            (Urgency::NextMonth, kept(items, Test::UrgencyIs(Urgency::NextMonth, today))),
            (Urgency::Later, kept(items, Test::UrgencyIs(Urgency::Later, today))),
        ],
    )
}

/// The tasks `items`, one group for each size that any of them has, from
/// the smallest on.
pub open spec fn grouped_by_size<'a>(items: Seq<&'a Item>) -> Seq<(TshirtSize, Seq<&'a Item>)> {
    only_filled(
        seq![
            (TshirtSize::Small, kept(items, Test::SizeIs(TshirtSize::Small))),
            (TshirtSize::Medium, kept(items, Test::SizeIs(TshirtSize::Medium))),
            (TshirtSize::Large, kept(items, Test::SizeIs(TshirtSize::Large))),
        ],
    )
}

/// The tasks `items`, one group for each importance that any of them has,
/// from the most important on.
pub open spec fn grouped_by_importance<'a>(items: Seq<&'a Item>) -> Seq<
    (Importance, Seq<&'a Item>),
> {
    only_filled(
        seq![
            (Importance::A, kept(items, Test::ImportanceIs(Importance::A))),
            (Importance::B, kept(items, Test::ImportanceIs(Importance::B))),
            (Importance::C, kept(items, Test::ImportanceIs(Importance::C))),
            (Importance::D, kept(items, Test::ImportanceIs(Importance::D))),
            (Importance::E, kept(items, Test::ImportanceIs(Importance::E))),
        ],
    )
}

/// What is said of a name that names no sort order.
pub open spec fn invalid_sort_order_text() -> Seq<char> {
    "Invalid sort order"@
}

/// Sort Vec<&Item> in a variety of ways. A name that names no sort order
/// leaves the tasks as they stand, and a message for the user comes with them.
pub fn sort_items_by<'a>(sortby: &'a str, items: Vec<&'a Item>, today: Date) -> (r: (
    Vec<&'a Item>,
    Option<&'static str>,
))
    requires
        today.is_valid(),
    ensures
        r.0@ == match sort_order_named(lowercase(sortby@)) {
            Some(o) => o.sorted(items@, today),
            None => items@,
        },
        r.1 is None <==> sort_order_named(lowercase(sortby@)) is Some,
        r.1 matches Some(message) ==> message@ == invalid_sort_order_text(),
{
    match SortOrder::from_string(sortby) {
        Ok(o) => (o.sort_items(items, today), None),
        Err(_) => (items, Some("Invalid sort order")),
    }
}

/// Filter Vec<&Item> by an @context.
pub fn find_items_by_context<'a>(term: &'a str, items: Vec<&'a Item>) -> (r: Vec<&'a Item>)
    ensures
        r@ == kept(items@, Test::Context(term@)),
{
    let ghost t = Test::Context(term@);
    let mut r: Vec<&'a Item> = Vec::new();
    let mut k: usize = 0;
    while k < items.len()
        invariant
            k <= items.len(),
            t == Test::Context(term@),
            r@ == kept(items@.take(k as int), t),
        decreases items.len() - k,
    {
        proof {
            lemma_kept_step(items@, t, k as int);
        }
        if items[k].has_context(term) {
            r.push(items[k]);
        }
        k += 1;
    }
    assert(items@.take(items.len() as int) =~= items@);
    r
}

/// Filter Vec<&Item> by a +tag.
pub fn find_items_by_tag<'a>(term: &'a str, items: Vec<&'a Item>) -> (r: Vec<&'a Item>)
    ensures
        r@ == kept(items@, Test::Tag(term@)),
{
    let ghost t = Test::Tag(term@);
    let mut r: Vec<&'a Item> = Vec::new();
    let mut k: usize = 0;
    while k < items.len()
        invariant
            k <= items.len(),
            t == Test::Tag(term@),
            r@ == kept(items@.take(k as int), t),
        decreases items.len() - k,
    {
        proof {
            lemma_kept_step(items@, t, k as int);
        }
        if items[k].has_tag(term) {
            r.push(items[k]);
        }
        k += 1;
    }
    assert(items@.take(items.len() as int) =~= items@);
    r
}

/// Filter Vec<&Item> by a #linenumber.
///
/// The term is one character that a single byte writes, as `#` is, and
/// the number of the line behind it.
pub fn find_items_by_line_number<'a>(term: &'a str, items: Vec<&'a Item>) -> (r: Vec<&'a Item>)
    requires
        term@.len() > 0,
        (term@[0] as int) < 128,
        parse_count(term@.skip(1)) is Some,
    ensures
        r@ == kept(items@, Test::LineNumber(parse_count(term@.skip(1))->0)),
{
    let n = parse_count_from(&chars_of(term), 1).unwrap();
    let ghost t = Test::LineNumber(n as nat);
    let mut r: Vec<&'a Item> = Vec::new();
    let mut k: usize = 0;
    while k < items.len()
        invariant
            k <= items.len(),
            t == Test::LineNumber(n as nat),
            r@ == kept(items@.take(k as int), t),
        decreases items.len() - k,
    {
        proof {
            lemma_kept_step(items@, t, k as int);
        }
        if items[k].line_number() == n {
            r.push(items[k]);
        }
        k += 1;
    }
    assert(items@.take(items.len() as int) =~= items@);
    r
}

/// Filter Vec<&Item> by a string match.
pub fn find_items_by_string<'a>(term: &'a str, items: Vec<&'a Item>) -> (r: Vec<&'a Item>)
    ensures
        r@ == kept(items@, Test::Text(term@)),
{
    let lc_term = chars_of(to_lowercase(term).as_str());
    let ghost t = Test::Text(term@);
    let mut r: Vec<&'a Item> = Vec::new();
    let mut k: usize = 0;
    while k < items.len()
        invariant
            k <= items.len(),
            lc_term@ == lowercase(term@),
            t == Test::Text(term@),
            r@ == kept(items@.take(k as int), t),
        decreases items.len() - k,
    {
        proof {
            lemma_kept_step(items@, t, k as int);
        }
        let lc_desc = chars_of(to_lowercase(items[k].description().as_str()).as_str());
        if contains_chars(&lc_desc, &lc_term) {
            r.push(items[k]);
        }
        k += 1;
    }
    assert(items@.take(items.len() as int) =~= items@);
    r
}

/// The tasks of `items` that are open on the day `today`: not complete, and
/// free to start.
pub fn find_open_items<'a>(items: Vec<&'a Item>, today: Date) -> (r: Vec<&'a Item>)
    requires
        today.is_valid(),
    ensures
        r@ == kept(items@, Test::Open(today)),
{
    let ghost t = Test::Open(today);
    let mut r: Vec<&'a Item> = Vec::new();
    let mut k: usize = 0;
    while k < items.len()
        invariant
            k <= items.len(),
            t == Test::Open(today),
            today.is_valid(),
            r@ == kept(items@.take(k as int), t),
        decreases items.len() - k,
    {
        proof {
            lemma_kept_step(items@, t, k as int);
        }
        if items[k].is_startable(today) && !items[k].completion() {
            r.push(items[k]);
        }
        k += 1;
    }
    assert(items@.take(items.len() as int) =~= items@);
    r
}

fn with_urgency<'a>(items: &Vec<&'a Item>, u: Urgency, today: Date) -> (r: Vec<&'a Item>)
    requires
        today.is_valid(),
    ensures
        r@ == kept(items@, Test::UrgencyIs(u, today)),
{
    let ghost t = Test::UrgencyIs(u, today);
    let mut r: Vec<&'a Item> = Vec::new();
    let mut k: usize = 0;
    while k < items.len()
        invariant
            k <= items.len(),
            t == Test::UrgencyIs(u, today),
            today.is_valid(),
            r@ == kept(items@.take(k as int), t),
        decreases items.len() - k,
    {
        proof {
            lemma_kept_step(items@, t, k as int);
        }
        if items[k].smart_key(today).0 == u {
            r.push(items[k]);
        }
        k += 1;
    }
    assert(items@.take(items.len() as int) =~= items@);
    r
}

fn with_size<'a>(items: &Vec<&'a Item>, s: TshirtSize) -> (r: Vec<&'a Item>)
    ensures
        r@ == kept(items@, Test::SizeIs(s)),
{
    let ghost t = Test::SizeIs(s);
    let mut r: Vec<&'a Item> = Vec::new();
    let mut k: usize = 0;
    while k < items.len()
        invariant
            k <= items.len(),
            t == Test::SizeIs(s),
            r@ == kept(items@.take(k as int), t),
        decreases items.len() - k,
    {
        proof {
            lemma_kept_step(items@, t, k as int);
        }
        let size = match items[k].tshirt_size() {
            Some(x) => x,
            None => TshirtSize::Medium,
        };
        if size == s {
            r.push(items[k]);
        }
        k += 1;
    }
    assert(items@.take(items.len() as int) =~= items@);
    r
}

fn with_importance<'a>(items: &Vec<&'a Item>, i: Importance) -> (r: Vec<&'a Item>)
    ensures
        r@ == kept(items@, Test::ImportanceIs(i)),
{
    let ghost t = Test::ImportanceIs(i);
    let mut r: Vec<&'a Item> = Vec::new();
    let mut k: usize = 0;
    while k < items.len()
        invariant
            k <= items.len(),
            t == Test::ImportanceIs(i),
            r@ == kept(items@.take(k as int), t),
        decreases items.len() - k,
    {
        proof {
            lemma_kept_step(items@, t, k as int);
        }
        let importance = match items[k].importance() {
            Some(x) => x,
            None => Importance::D,
        };
        if importance == i {
            r.push(items[k]);
        }
        k += 1;
    }
    assert(items@.take(items.len() as int) =~= items@);
    r
}

/// Group a Vec<&Item> into categories based on task urgency.
pub fn group_items_by_urgency<'a>(items: Vec<&'a Item>, today: Date) -> (out: Vec<
    (Urgency, Vec<&'a Item>),
>)
    requires
        today.is_valid(),
    ensures
        group_views(out@) == grouped_by_urgency(items@, today),
{
    let all = Urgency::all();
    let ghost full = seq![
        (Urgency::Overdue, kept(items@, Test::UrgencyIs(Urgency::Overdue, today))),
        (Urgency::Today, kept(items@, Test::UrgencyIs(Urgency::Today, today))),
        (Urgency::Soon, kept(items@, Test::UrgencyIs(Urgency::Soon, today))),
        (Urgency::ThisWeek, kept(items@, Test::UrgencyIs(Urgency::ThisWeek, today))),
        (Urgency::NextWeek, kept(items@, Test::UrgencyIs(Urgency::NextWeek, today))),
        (Urgency::NextMonth, kept(items@, Test::UrgencyIs(Urgency::NextMonth, today))),
        (Urgency::Later, kept(items@, Test::UrgencyIs(Urgency::Later, today))),
    ];
    let mut out: Vec<(Urgency, Vec<&'a Item>)> = Vec::new();
    let mut k: usize = 0;
    while k < all.len()
        invariant
            k <= all.len(),
            all.len() == 7,
            full.len() == 7,
            today.is_valid(),
            forall|j: int|
                0 <= j < 7 ==> #[trigger] full[j] == (
                    all[j],
                    kept(items@, Test::UrgencyIs(all[j], today)),
                ),
            group_views(out@) == only_filled(full.take(k as int)),
        decreases all.len() - k,
    {
        let list = with_urgency(&items, all[k], today);
        proof {
            assert(full.take(k + 1).drop_last() =~= full.take(k as int));
            assert(full.take(k + 1).last() == full[k as int]);
        }
        if list.len() > 0 {
            let ghost before = group_views(out@);
            out.push((all[k], list));
            assert(group_views(out@) =~= before.push(full[k as int]));
        }
        k += 1;
    }
    assert(full.take(7) =~= full);
    out
}

/// Group a Vec<&Item> into categories based on task size.
pub fn group_items_by_size<'a>(items: Vec<&'a Item>) -> (out: Vec<(TshirtSize, Vec<&'a Item>)>)
    ensures
        group_views(out@) == grouped_by_size(items@),
{
    let all = TshirtSize::all();
    let ghost full = seq![
        (TshirtSize::Small, kept(items@, Test::SizeIs(TshirtSize::Small))),
        (TshirtSize::Medium, kept(items@, Test::SizeIs(TshirtSize::Medium))),
        (TshirtSize::Large, kept(items@, Test::SizeIs(TshirtSize::Large))),
    ];
    let mut out: Vec<(TshirtSize, Vec<&'a Item>)> = Vec::new();
    let mut k: usize = 0;
    while k < all.len()
        invariant
            k <= all.len(),
            all.len() == 3,
            full.len() == 3,
            forall|j: int|
                0 <= j < 3 ==> #[trigger] full[j] == (all[j], kept(items@, Test::SizeIs(all[j]))),
            group_views(out@) == only_filled(full.take(k as int)),
        decreases all.len() - k,
    {
        let list = with_size(&items, all[k]);
        proof {
            assert(full.take(k + 1).drop_last() =~= full.take(k as int));
            assert(full.take(k + 1).last() == full[k as int]);
        }
        if list.len() > 0 {
            let ghost before = group_views(out@);
            out.push((all[k], list));
            assert(group_views(out@) =~= before.push(full[k as int]));
        }
        k += 1;
    }
    assert(full.take(3) =~= full);
    out
}

/// Group a Vec<&Item> into categories based on task importance.
pub fn group_items_by_importance<'a>(items: Vec<&'a Item>) -> (out: Vec<
    (Importance, Vec<&'a Item>),
>)
    ensures
        group_views(out@) == grouped_by_importance(items@),
{
    let all = Importance::all();
    let ghost full = seq![
        (Importance::A, kept(items@, Test::ImportanceIs(Importance::A))),
        (Importance::B, kept(items@, Test::ImportanceIs(Importance::B))),
        (Importance::C, kept(items@, Test::ImportanceIs(Importance::C))),
        (Importance::D, kept(items@, Test::ImportanceIs(Importance::D))),
        (Importance::E, kept(items@, Test::ImportanceIs(Importance::E))),
    ];
    let mut out: Vec<(Importance, Vec<&'a Item>)> = Vec::new();
    let mut k: usize = 0;
    while k < all.len()
        invariant
            k <= all.len(),
            all.len() == 5,
            full.len() == 5,
            forall|j: int|
                0 <= j < 5 ==> #[trigger] full[j] == (
                    all[j],
                    kept(items@, Test::ImportanceIs(all[j])),
                ),
            group_views(out@) == only_filled(full.take(k as int)),
        decreases all.len() - k,
    {
        let list = with_importance(&items, all[k]);
        proof {
            assert(full.take(k + 1).drop_last() =~= full.take(k as int));
            assert(full.take(k + 1).last() == full[k as int]);
        }
        if list.len() > 0 {
            let ghost before = group_views(out@);
            out.push((all[k], list));
            assert(group_views(out@) =~= before.push(full[k as int]));
        }
        k += 1;
    }
    assert(full.take(5) =~= full);
    out
}

} // verus!
