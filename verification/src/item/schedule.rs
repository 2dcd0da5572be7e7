//! Changes of state: marking a task done, and setting its due date from an urgency.

use vstd::prelude::*;
use crate::date::date_on;
use crate::date::day_number_from_ymd;
use crate::date::format_date;
use crate::date::lemma_years_ascend;
use crate::date::next_month_end;
use crate::date::week_end;
use crate::date::weekday_index;
use crate::date::Date;
use crate::date::FIRST_DAY;
use crate::date::LAST_DAY;
use crate::item::fields::due_key;
use crate::item::fields::kv_pairs;
use crate::item::fields::lookup;
use crate::item::fields::start_key;
use crate::date::lemma_date_on;
use crate::date::lemma_parse_of_format;
use crate::item::tokens::is_atom_text;
use crate::item::tokens::lemma_appended_value;
use crate::item::tokens::lemma_date_is_atom_text;
use crate::item::tokens::lemma_pair_bounds;
use crate::item::tokens::lemma_with_value;
use crate::item::tokens::pair_bounds;
use crate::item::tokens::pair_bounds_of;
use crate::item::tokens::token;
use crate::item::tokens::with_value;
use crate::item::Importance;
use crate::item::Item;
use crate::item::ItemView;
use crate::item::TshirtSize;
use crate::item::Urgency;
use crate::text::append_chars;
use crate::text::chars_of;
use crate::text::slice_of;
use crate::text::string_of;

verus! {

/// The day number of the date that stands for `urg` when the day is `today`:
/// yesterday for overdue, today, two days on for soon, the Sunday of this
/// week, the Sunday of next week, the last day of next month, and 183 days
/// on, about half a year, for later.
pub open spec fn target_day(urg: Urgency, today: Date) -> int {
    let t = today.days();
    match urg {
        Urgency::Overdue => t - 1,
        Urgency::Today => t,
        Urgency::Soon => t + 2,
        Urgency::ThisWeek => week_end(t),
        Urgency::NextWeek => week_end(t) + 7,
        Urgency::NextMonth => next_month_end(today.year as int, today.month as int),
        Urgency::Later => t + 183,
    }
}

/// The Friday before, for a Saturday or a Sunday; any other day as it is.
pub open spec fn off_weekend(n: int) -> int {
    if weekday_index(n) == 5 {
        n - 1
    } else if weekday_index(n) == 6 {
        n - 2
    } else {
        n
    }
}

/// The context of tasks of work.
pub open spec fn work_word() -> Seq<char> {
    seq!['w', 'o', 'r', 'k']
}

/// The context of tasks of school.
pub open spec fn school_word() -> Seq<char> {
    seq!['s', 'c', 'h', 'o', 'o', 'l']
}

/// Whether the task belongs to work or school, and so is kept off weekends.
pub open spec fn keeps_weekends_free(v: ItemView) -> bool {
    v.has_context(work_word()) || v.has_context(school_word())
}

/// The day number of the due date that `urg` gives the task `v` when the day
/// is `today`: the target day of `urg`, moved off the weekend for a task of
/// work or school where `urg` lies beyond today.
pub open spec fn due_day(v: ItemView, urg: Urgency, today: Date) -> int {
    let n = target_day(urg, today);
    if urg.rank() > Urgency::Today.rank() && keeps_weekends_free(v) {
        off_weekend(n)
    } else {
        n
    }
}

/// The description `desc` with the due date `d`: where a pair names a due
/// date, the token for `d` stands in the place of the last such pair, the one
/// whose date is read, from where its key starts to where its value ends;
/// where none does, the token for `d` is added behind a space. Every other
/// character stays.
pub open spec fn with_due(desc: Seq<char>, d: Date) -> Seq<char> {
    match pair_bounds(desc, due_key(), 0) {
        Some((a, e)) => desc.take(a) + token(due_key(), format_date(d)) + desc.skip(e),
        None => desc.push(' ') + token(due_key(), format_date(d)),
    }
}

/// The task `v` with the due date that `urg` gives it when the day is `today`.
pub open spec fn rescheduled(v: ItemView, urg: Urgency, today: Date) -> ItemView {
    ItemView { description: with_due(v.description, date_on(due_day(v, urg, today))), ..v }
}

/// The description `desc` with `d` as its start date: the token for `d`
/// stands in the place of the last pair that names a start date, the one
/// whose date is read; `desc` itself where no pair names a start date.
pub open spec fn with_start(desc: Seq<char>, d: Date) -> Seq<char> {
    with_value(desc, start_key(), format_date(d))
}

/// The task `v` marked done; with `include_date` the completion date is
/// `today`, and so is the creation date where the task had none.
pub open spec fn done(v: ItemView, include_date: bool, today: Date) -> ItemView {
    ItemView {
        completion: true,
        completion_date: if include_date {
            Some(today)
        } else {
            v.completion_date
        },
        creation_date: if include_date && v.creation_date is None {
            Some(today)
        } else {
            v.creation_date
        },
        ..v
    }
}

/// The task `v` pulled forward: due as `urg` says, and free to start today.
pub open spec fn pulled(v: ItemView, urg: Urgency, today: Date) -> ItemView {
    let w = rescheduled(v, urg, today);
    ItemView { description: with_start(w.description, today), ..w }
}

/// The urgency that calms an overdue task: soon for one that is important
/// and small, next week for one that is either, next month for the rest.
/// Important means critical or important; small means of small size.
pub open spec fn calm_urgency(v: ItemView) -> Urgency {
    let important = v.importance() == Some(Importance::A) || v.importance() == Some(Importance::B);
    let small = v.tshirt_size() == Some(TshirtSize::Small);
    if important && small {
        Urgency::Soon
    } else if important || small {
        Urgency::NextWeek
    } else {
        Urgency::NextMonth
    }
}

/// The task `v` calmed: an overdue task is due again as `calm_urgency` says;
/// any other task is as it was.
pub open spec fn calmed(v: ItemView, today: Date) -> ItemView {
    if v.urgency(today) == Some(Urgency::Overdue) {
        rescheduled(v, calm_urgency(v), today)
    } else {
        v
    }
}

/// A task that is not overdue comes out of calming as it went in.
pub proof fn lemma_calm_leaves_what_is_not_overdue(v: ItemView, today: Date)
    requires
        v.urgency(today) != Some(Urgency::Overdue),
    ensures
        calmed(v, today) == v,
{
}

/// Moving off the weekend ends on a weekday: a Saturday gives way to the
/// Friday before it, a Sunday to the same Friday, and any other day stays.
pub proof fn lemma_off_weekend(n: int)
    ensures
        weekday_index(off_weekend(n)) <= 4,
        0 <= weekday_index(n) <= 6,
        weekday_index(n) == 5 ==> off_weekend(n) == n - 1 && weekday_index(n - 1) == 4,
        weekday_index(n) == 6 ==> off_weekend(n) == n - 2 && weekday_index(n - 2) == 4,
        weekday_index(n) <= 4 ==> off_weekend(n) == n,
{
}

/// A task of work or school is never due on a weekend when it is set to an
/// urgency beyond today: a target day on a Saturday gives way to the Friday
/// before it, one day earlier, and one on a Sunday to the same Friday, two
/// days earlier.
pub proof fn lemma_weekend_gives_way(v: ItemView, urg: Urgency, today: Date)
    requires
        keeps_weekends_free(v),
        urg.rank() > Urgency::Today.rank(),
    ensures
        weekday_index(due_day(v, urg, today)) <= 4,
        weekday_index(target_day(urg, today)) == 5 ==> due_day(v, urg, today) == target_day(
            urg,
            today,
        ) - 1 && weekday_index(due_day(v, urg, today)) == 4,
        weekday_index(target_day(urg, today)) == 6 ==> due_day(v, urg, today) == target_day(
            urg,
            today,
        ) - 2 && weekday_index(due_day(v, urg, today)) == 4,
        weekday_index(target_day(urg, today)) <= 4 ==> due_day(v, urg, today) == target_day(
            urg,
            today,
        ),
{
    lemma_off_weekend(target_day(urg, today));
}

/// The end of next week always falls on a Sunday.
pub proof fn lemma_next_week_ends_on_sunday(today: Date)
    ensures
        weekday_index(target_day(Urgency::NextWeek, today)) == 6,
        weekday_index(target_day(Urgency::ThisWeek, today)) == 6,
{
}

/// The keys `due` and `start` can be keys, and are two keys.
pub proof fn lemma_date_keys()
    ensures
        is_atom_text(due_key()),
        is_atom_text(start_key()),
        due_key() != start_key(),
{
    assert(due_key().len() != start_key().len());
}

/// The due date that is written is the due date that is read: whatever
/// the description was, `with_due` gives one whose due date is `d`, and
/// whose start date is as it was.
pub proof fn lemma_with_due_is_read(v: ItemView, d: Date)
    requires
        d.is_valid(),
    ensures
        (ItemView { description: with_due(v.description, d), ..v }).due_date() == Some(d),
        (ItemView { description: with_due(v.description, d), ..v }).start_date()
            == v.start_date(),
{
    lemma_date_keys();
    lemma_date_is_atom_text(d);
    lemma_parse_of_format(d);
    let value = format_date(d);
    lemma_pair_bounds(v.description, due_key(), 0);
    lemma_with_value(v.description, due_key(), value);
    lemma_appended_value(v.description, due_key(), value);
    if pair_bounds(v.description, due_key(), 0) is None {
        let pairs = kv_pairs(v.description, 0).push((due_key(), value));
        assert(pairs.drop_last() =~= kv_pairs(v.description, 0));
        assert(pairs.last().0 != start_key());
    }
}

/// The start date that is written is the start date that is read, where
/// the description named a start date at all; the due date is as it was.
pub proof fn lemma_with_start_is_read(v: ItemView, d: Date)
    requires
        d.is_valid(),
    ensures
        (ItemView { description: with_start(v.description, d), ..v }).start_date() == if lookup(
            v.kv_pairs(),
            start_key(),
        ) is Some {
            Some(d)
        } else {
            None
        },
        (ItemView { description: with_start(v.description, d), ..v }).due_date() == v.due_date(),
{
    lemma_date_keys();
    lemma_date_is_atom_text(d);
    lemma_parse_of_format(d);
    lemma_with_value(v.description, start_key(), format_date(d));
}

/// A task that is set to an urgency is due on the day of that urgency: its
/// due date is the date `d` whose day number is the due day. Its urgency is
/// then the one it was set to, for overdue, today, next week, next month and
/// later; soon and this week can come out nearer, where the week ends within
/// two days or the weekend gives way.
pub proof fn lemma_rescheduled_is_due(v: ItemView, urg: Urgency, today: Date, d: Date)
    requires
        today.is_valid(),
        d.is_valid(),
        d.days() == due_day(v, urg, today),
    ensures
        rescheduled(v, urg, today).due_date() == Some(d),
        rescheduled(v, urg, today).start_date() == v.start_date(),
        urg != Urgency::Soon && urg != Urgency::ThisWeek ==> rescheduled(v, urg, today).urgency(
            today,
        ) == Some(urg),
{
    lemma_date_on(d);
    lemma_with_due_is_read(v, d);
    lemma_month_after_next(today);
    let t = today.days();
    let n = target_day(urg, today);
    assert(t <= week_end(t) <= t + 6);
    assert(n - 2 <= off_weekend(n) <= n);
    assert(weekday_index(week_end(t) + 7) == 6);
}

/// A task that is pulled forward is due on the day of its new urgency and,
/// where it named a start date, free to start today.
pub proof fn lemma_pulled_is_due(v: ItemView, urg: Urgency, today: Date, d: Date)
    requires
        today.is_valid(),
        d.is_valid(),
        d.days() == due_day(v, urg, today),
    ensures
        pulled(v, urg, today).due_date() == Some(d),
        pulled(v, urg, today).start_date() == if lookup(v.kv_pairs(), start_key()) is Some {
            Some(today)
        } else {
            None
        },
        pulled(v, urg, today).is_startable(today),
{
    lemma_rescheduled_is_due(v, urg, today, d);
    let w = rescheduled(v, urg, today);
    lemma_with_start_is_read(w, today);
    lemma_date_keys();
    lemma_date_is_atom_text(d);
    lemma_pair_bounds(v.description, due_key(), 0);
    lemma_with_value(v.description, due_key(), format_date(d));
    lemma_appended_value(v.description, due_key(), format_date(d));
    lemma_date_on(d);
    if pair_bounds(v.description, due_key(), 0) is None {
        let pairs = kv_pairs(v.description, 0).push((due_key(), format_date(d)));
        assert(pairs.drop_last() =~= kv_pairs(v.description, 0));
        assert(pairs.last().0 != start_key());
    }
}

/// Whether the task `v` can be calmed on the day `today`: where it is
/// overdue, its new due date is one that `YYYY-MM-DD` can write.
pub open spec fn can_calm(v: ItemView, today: Date) -> bool {
    v.urgency(today) == Some(Urgency::Overdue) ==> FIRST_DAY <= due_day(
        v,
        calm_urgency(v),
        today,
    ) <= LAST_DAY
}

fn token_chars(key: &str, value: &Vec<char>) -> (r: Vec<char>)
    ensures
        r@ == token(key@, value@),
{
    let mut r = chars_of(key);
    r.push(':');
    append_chars(&mut r, value);
    r
}

/// The day number of the date that stands for `urg` when the day is `today`.
pub fn target_day_number(urg: Urgency, today: Date) -> (n: i32)
    requires
        today.is_valid(),
    ensures
        n == target_day(urg, today),
        FIRST_DAY - 1 <= n <= LAST_DAY + 183,
{
    let t = today.day_number();
    let sunday: i32 = t + 6 - today.weekday() as i32;
    match urg {
        Urgency::Overdue => t - 1,
        Urgency::Today => t,
        Urgency::Soon => t + 2,
        Urgency::ThisWeek => sunday,
        Urgency::NextWeek => sunday + 7,
        Urgency::NextMonth => {
            let first: i32 = if today.month() >= 11 {
                day_number_from_ymd(today.year() + 1, today.month() - 10, 1)
            } else {
                day_number_from_ymd(today.year(), today.month() + 2, 1)
            };
            proof {
                lemma_month_after_next(today);
            }
            first - 1
        },
        Urgency::Later => t + 183,
    }
}

/// The month after next starts within 62 days.
proof fn lemma_month_after_next(today: Date)
    requires
        today.is_valid(),
    ensures
        today.days() + 28 <= next_month_end(today.year as int, today.month as int)
            <= today.days() + 62,
{
    if today.month >= 11 {
        lemma_years_ascend(today.year as int, today.year + 1);
    }
}

/// Whether every urgency gives, on the day `today`, a due date that
/// `YYYY-MM-DD` can write: the day before yesterday and the day 183 days on
/// are dates of the calendar.
pub open spec fn every_target_in_reach(today: Date) -> bool {
    FIRST_DAY + 2 <= today.days() <= LAST_DAY - 183
}

/// Where every target is in reach, the due date of every task for every
/// urgency is a date of the calendar.
pub proof fn lemma_targets_in_reach(v: ItemView, urg: Urgency, today: Date)
    requires
        today.is_valid(),
        every_target_in_reach(today),
    ensures
        FIRST_DAY <= due_day(v, urg, today) <= LAST_DAY,
{
    lemma_month_after_next(today);
    let t = today.days();
    let n = target_day(urg, today);
    assert(t <= week_end(t) <= t + 6);
    assert(t - 1 <= n <= t + 183);
    assert(n - 2 <= off_weekend(n) <= n);
    if urg.rank() > Urgency::Today.rank() {
        assert(t <= n);
    }
}

/// Whether every urgency gives, on the day `today`, a due date that
/// `YYYY-MM-DD` can write.
pub fn all_targets_in_reach(today: Date) -> (r: bool)
    requires
        today.is_valid(),
    ensures
        r == every_target_in_reach(today),
{
    let t = today.day_number();
    FIRST_DAY + 2 <= t && t <= LAST_DAY - 183
}

/// The Friday before, for the day number of a Saturday or a Sunday; any other
/// day number as it is.
pub fn off_weekend_number(n: i32) -> (m: i32)
    requires
        FIRST_DAY - 1 <= n <= LAST_DAY + 183,
    ensures
        m == off_weekend(n as int),
{
    let w = (n + 370) % 7;
    if w == 5 {
        n - 1
    } else if w == 6 {
        n - 2
    } else {
        n
    }
}

impl Item {
    /// The day number of the due date that `set_urgency` would write for
    /// `urg` on the day `today`.
    pub fn due_day_number(&self, urg: Urgency, today: Date) -> (n: i32)
        requires
            today.is_valid(),
        ensures
            n == due_day(self@, urg, today),
    {
        let n = target_day_number(urg, today);
        proof {
            reveal_strlit("work");
            reveal_strlit("school");
            assert("work"@ =~= work_word());
            assert("school"@ =~= school_word());
        }
        // Work and school tasks should be rescheduled from Saturday/Sunday.
        if urg.position() > 1 && (self.has_context("work") || self.has_context("school")) {
            off_weekend_number(n)
        } else {
            n
        }
    }

    /// Set task urgency: the due date becomes the one that stands for `urg`
    /// on the day `today`.
    ///
    /// The date must be one that `YYYY-MM-DD` can write; `due_day_number`
    /// tells which day it will be, and `try_set_urgency` tests it first.
    pub fn set_urgency(&mut self, urg: Urgency, today: Date)
        requires
            today.is_valid(),
            FIRST_DAY <= due_day(old(self)@, urg, today) <= LAST_DAY,
        ensures
            final(self)@ == rescheduled(old(self)@, urg, today),
            final(self)@.due_date() == Some(date_on(due_day(old(self)@, urg, today))),
            date_on(due_day(old(self)@, urg, today)).is_valid(),
            date_on(due_day(old(self)@, urg, today)).days() == due_day(old(self)@, urg, today),
            final(self)@.start_date() == old(self)@.start_date(),
            urg != Urgency::Soon && urg != Urgency::ThisWeek ==> final(self)@.urgency(today)
                == Some(urg),
    {
        proof {
            use_type_invariant(&*self);
        }
        let n = self.due_day_number(urg, today);
        let d = Date::from_day_number(n).unwrap();
        let formatted = d.to_chars();
        let desc = self.description_chars();
        proof {
            reveal_strlit("due");
            assert("due"@ =~= due_key());
            lemma_rescheduled_is_due(self@, urg, today, d);
        }
        let key = chars_of("due");
        let fresh = token_chars("due", &formatted);
        let text = match pair_bounds_of(&desc, &key) {
            Some((a, e)) => {
                let mut t = slice_of(&desc, 0, a);
                append_chars(&mut t, &fresh);
                append_chars(&mut t, &slice_of(&desc, e, desc.len()));
                assert(t@ =~= desc@.take(a as int) + fresh@ + desc@.skip(e as int));
                t
            },
            None => {
                let mut t = desc;
                t.push(' ');
                append_chars(&mut t, &fresh);
                t
            },
        };
        self.description = string_of(&text);
    }

    /// Set task urgency where that can be done: where the due date that
    /// stands for `urg` is one that `YYYY-MM-DD` can write. Says whether it
    /// was done; where it was not, the task is as it was.
    pub fn try_set_urgency(&mut self, urg: Urgency, today: Date) -> (ok: bool)
        requires
            today.is_valid(),
        ensures
            ok <==> FIRST_DAY <= due_day(old(self)@, urg, today) <= LAST_DAY,
            ok ==> final(self)@ == rescheduled(old(self)@, urg, today),
            ok ==> final(self)@.due_date() == Some(date_on(due_day(old(self)@, urg, today))),
            !ok ==> final(self)@ == old(self)@,
    {
        let n = self.due_day_number(urg, today);
        if FIRST_DAY <= n && n <= LAST_DAY {
            self.set_urgency(urg, today);
            true
        } else {
            false
        }
    }

    /// Create a version of this item but representing a completed task.
    pub fn but_done(&self, include_date: bool, today: Date) -> (r: Item)
        requires
            today.is_valid(),
        ensures
            r@ == done(self@, include_date, today),
    {
        let mut i = self.clone();
        i.set_completion(true);
        if include_date {
            i.set_completion_date(today);
            if i.creation_date().is_none() {
                i.set_creation_date(today);
            }
        }
        i
    }

    /// The urgency that calms the task, were it overdue.
    fn calm_urgency_of(&self) -> (r: Urgency)
        ensures
            r == calm_urgency(self@),
    {
        let important = match self.importance() {
            Some(Importance::A) => true,
            Some(Importance::B) => true,
            _ => false,
        };
        let small = match self.tshirt_size() {
            Some(TshirtSize::Small) => true,
            _ => false,
        };
        if important && small {
            Urgency::Soon
        } else if important || small {
            Urgency::NextWeek
        } else {
            Urgency::NextMonth
        }
    }

    /// Provide zen-like calm by rescheduling an overdue task.
    pub fn zen(&self, today: Date) -> (r: Item)
        requires
            today.is_valid(),
            can_calm(self@, today),
        ensures
            r@ == calmed(self@, today),
            self@.urgency(today) == Some(Urgency::Overdue) ==> r@.due_date() == Some(
                date_on(due_day(self@, calm_urgency(self@), today)),
            ),
    {
        match self.urgency(today) {
            Some(Urgency::Overdue) => {
                let mut new = self.clone();
                let new_urgency = new.calm_urgency_of();
                new.set_urgency(new_urgency, today);
                new
            },
            _ => self.clone(),
        }
    }

    /// Provide zen-like calm where that can be done: where the new due date
    /// of an overdue task is one that `YYYY-MM-DD` can write. None where
    /// it is not.
    pub fn try_zen(&self, today: Date) -> (r: Option<Item>)
        requires
            today.is_valid(),
        ensures
            r is Some <==> can_calm(self@, today),
            r matches Some(i) ==> i@ == calmed(self@, today),
    {
        match self.urgency(today) {
            Some(Urgency::Overdue) => {
                let mut new = self.clone();
                let new_urgency = new.calm_urgency_of();
                if new.try_set_urgency(new_urgency, today) {
                    Some(new)
                } else {
                    None
                }
            },
            _ => Some(self.clone()),
        }
    }

    /// Pull a task forward to being done with a new urgency, also moving its
    /// start date, where it names one, to today.
    pub fn but_pull(&self, new_urgency: Urgency, today: Date) -> (r: Item)
        requires
            today.is_valid(),
            FIRST_DAY <= due_day(self@, new_urgency, today) <= LAST_DAY,
        ensures
            r@ == pulled(self@, new_urgency, today),
            r@.due_date() == Some(date_on(due_day(self@, new_urgency, today))),
            r@.is_startable(today),
    {
        let mut new = self.clone();
        new.set_urgency(new_urgency, today);
        let desc = new.description_chars();
        proof {
            reveal_strlit("start");
            assert("start"@ =~= start_key());
            let d = date_on(due_day(self@, new_urgency, today));
            lemma_pulled_is_due(self@, new_urgency, today, d);
        }
        let key = chars_of("start");
        match pair_bounds_of(&desc, &key) {
            Some((a, e)) => {
                let mut text = slice_of(&desc, 0, a);
                let fresh = token_chars("start", &today.to_chars());
                append_chars(&mut text, &fresh);
                append_chars(&mut text, &slice_of(&desc, e, desc.len()));
                assert(text@ =~= with_start(desc@, today));
                new.set_description(string_of(&text));
            },
            None => {},
        }
        new
    }

    /// Pull a task forward where that can be done: where the due date that
    /// stands for the urgency is one that `YYYY-MM-DD` can write. None where
    /// it is not.
    pub fn try_but_pull(&self, new_urgency: Urgency, today: Date) -> (r: Option<Item>)
        requires
            today.is_valid(),
        ensures
            r is Some <==> FIRST_DAY <= due_day(self@, new_urgency, today) <= LAST_DAY,
            r matches Some(i) ==> i@ == pulled(self@, new_urgency, today),
    {
        let n = self.due_day_number(new_urgency, today);
        if FIRST_DAY <= n && n <= LAST_DAY {
            Some(self.but_pull(new_urgency, today))
        } else {
            None
        }
    }
}

} // verus!
