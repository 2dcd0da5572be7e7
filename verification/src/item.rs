//! Tasks: one line of a todo list each, with what can be read off its text.

use vstd::prelude::*;
use crate::date::day_number_from_ymd;
use crate::date::next_month_end;
use crate::date::week_end;
use crate::date::Date;

pub mod fields;
pub mod fixup;
pub mod grammar;
pub mod laws;
pub mod schedule;
pub mod tokens;

verus! {

/// Five levels of importance are defined.
#[derive(Clone, Copy, Debug, PartialEq, Eq, Structural, PartialOrd, Ord, Hash)]
pub enum Importance {
    /// Critical
    A,
    /// Important
    B,
    /// Semi-important
    C,
    /// Normal
    D,
    /// Unimportant
    E,
}

/// The importance that the priority letter `c` stands for: `A` to `D` each
/// for its own level, every later capital for `E`, anything else for none.
pub open spec fn importance_of(c: char) -> Option<Importance> {
    if c == 'A' {
        Some(Importance::A)
    } else if c == 'B' {
        Some(Importance::B)
    } else if c == 'C' {
        Some(Importance::C)
    } else if c == 'D' {
        Some(Importance::D)
    } else if 'E' <= c <= 'Z' {
        Some(Importance::E)
    } else {
        None
    }
}

impl Importance {
    /// The place of this level among the five, from 0 for the most important.
    pub open spec fn rank(self) -> int {
        match self {
            Importance::A => 0,
            Importance::B => 1,
            Importance::C => 2,
            Importance::D => 3,
            Importance::E => 4,
        }
    }

    /// The letter that stands for the level.
    pub open spec fn letter(self) -> char {
        match self {
            Importance::A => 'A',
            Importance::B => 'B',
            Importance::C => 'C',
            Importance::D => 'D',
            Importance::E => 'E',
        }
    }

    /// The heading for tasks of the level.
    pub open spec fn heading(self) -> Seq<char> {
        match self {
            Importance::A => "Critical"@,
            Importance::B => "Important"@,
            Importance::C => "Semi-important"@,
            Importance::D => "Normal"@,
            Importance::E => "Unimportant"@,
        }
    }

    /// Get an importance from a letter.
    pub fn from_char(c: char) -> (r: Option<Self>)
        ensures
            r == importance_of(c),
    {
        if c == 'A' {
            Some(Self::A)
        } else if c == 'B' {
            Some(Self::B)
        } else if c == 'C' {
            Some(Self::C)
        } else if c == 'D' {
            Some(Self::D)
        } else if c >= 'E' && c <= 'Z' {
            Some(Self::E)
        } else {
            None
        }
    }

    /// Returns a letter representing this importance.
    pub fn to_char(&self) -> (c: char)
        ensures
            c == self.letter(),
            importance_of(c) == Some(*self),
    {
        match self {
            Self::A => 'A',
            Self::B => 'B',
            Self::C => 'C',
            Self::D => 'D',
            Self::E => 'E',
        }
    }

    /// Returns a heading suitable for items of this importance.
    pub fn to_string(&self) -> (s: &'static str)
        ensures
            s@ == self.heading(),
    {
        match self {
            Self::A => "Critical",
            Self::B => "Important",
            Self::C => "Semi-important",
            Self::D => "Normal",
            Self::E => "Unimportant",
        }
    }

    /// Returns a list of known importances, in a sane order.
    pub fn all() -> (v: Vec<Self>)
        ensures
            v@ == seq![Importance::A, Importance::B, Importance::C, Importance::D, Importance::E],
    {
        let mut v: Vec<Self> = Vec::new();
        v.push(Self::A);
        v.push(Self::B);
        v.push(Self::C);
        v.push(Self::D);
        v.push(Self::E);
        assert(v@ =~= seq![
            Importance::A,
            Importance::B,
            Importance::C,
            Importance::D,
            Importance::E,
        ]);
        v
    }

    /// The place of this level among the five, from 0 for the most important.
    pub fn position(&self) -> (n: u8)
        ensures
            n == self.rank(),
    {
        match self {
            Self::A => 0,
            Self::B => 1,
            Self::C => 2,
            Self::D => 3,
            Self::E => 4,
        }
    }
}

impl Default for Importance {
    /// Default is D.
    fn default() -> (r: Self)
        ensures
            r == Importance::D,
    {
        Self::D
    }
}

/// Seven levels of urgency are defined.
#[derive(Clone, Copy, Debug, PartialEq, Eq, Structural, PartialOrd, Ord, Hash)]
pub enum Urgency {
    /// A due date earlier than today.
    Overdue,
    /// A due date today.
    Today,
    /// A due date tomorrow or overmorrow.
    Soon,
    /// A due date by the end of this week. Note that if it is Friday or later, any
    /// tasks due this week will fall into the `Today` or `Soon` urgencies instead.
    ThisWeek,
    /// A due date by the end of next week.
    NextWeek,
    /// A due date by the end of next month.
    ///
    /// There is no `ThisMonth` urgency because for almost half the month any tasks
    /// would fall into the `ThisWeek` or `NextWeek` urgencies instead, making
    /// `ThisMonth` fairly useless.
    NextMonth,
    /// Any due date after the end of next month.
    Later,
}

/// How urgent a task due on `due` is when the day is `today`.
///
/// Weeks run from Monday to Sunday. Every bound is met by the day that sets
/// it: due on the Sunday of this week is still `ThisWeek`.
pub open spec fn urgency_on(due: Date, today: Date) -> Urgency {
    let d = due.days();
    let t = today.days();
    if d < t {
        Urgency::Overdue
    } else if d == t {
        Urgency::Today
    } else if d <= t + 2 {
        Urgency::Soon
    } else if d <= week_end(t) {
        Urgency::ThisWeek
    } else if d <= week_end(t) + 7 {
        Urgency::NextWeek
    } else if d <= next_month_end(today.year as int, today.month as int) {
        Urgency::NextMonth
    } else {
        Urgency::Later
    }
}

impl Urgency {
    /// The place of this level among the seven, from 0 for the most urgent.
    pub open spec fn rank(self) -> int {
        match self {
            Urgency::Overdue => 0,
            Urgency::Today => 1,
            Urgency::Soon => 2,
            Urgency::ThisWeek => 3,
            Urgency::NextWeek => 4,
            Urgency::NextMonth => 5,
            Urgency::Later => 6,
        }
    }

    /// The heading for tasks of the level.
    pub open spec fn heading(self) -> Seq<char> {
        match self {
            Urgency::Overdue => "Overdue"@,
            Urgency::Today => "Today"@,
            Urgency::Soon => "Soon"@,
            Urgency::ThisWeek => "This week"@,
            Urgency::NextWeek => "Next week"@,
            Urgency::NextMonth => "Next month"@,
            Urgency::Later => "Later"@,
        }
    }

    /// Calculate urgency from a due date, as seen on the day `today`.
    pub fn from_due_date(due: Date, today: Date) -> (r: Self)
        requires
            due.is_valid(),
            today.is_valid(),
        ensures
            r == urgency_on(due, today),
    {
        let d = due.day_number();
        let t = today.day_number();
        let week_end: i32 = t + 6 - today.weekday() as i32;
        let month_end: i32 = if today.month() >= 11 {
            day_number_from_ymd(today.year() + 1, today.month() - 10, 1) - 1
        } else {
            day_number_from_ymd(today.year(), today.month() + 2, 1) - 1
        };
        if d < t {
            Self::Overdue
        } else if d == t {
            Self::Today
        } else if d <= t + 2 {
            Self::Soon
        } else if d <= week_end {
            Self::ThisWeek
        } else if d <= week_end + 7 {
            Self::NextWeek
        } else if d <= month_end {
            Self::NextMonth
        } else {
            Self::Later
        }
    }

    /// Returns a heading suitable for items of this urgency.
    pub fn to_string(&self) -> (s: &'static str)
        ensures
            s@ == self.heading(),
    {
        match self {
            Self::Overdue => "Overdue",
            Self::Today => "Today",
            Self::Soon => "Soon",
            Self::ThisWeek => "This week",
            Self::NextWeek => "Next week",
            Self::NextMonth => "Next month",
            Self::Later => "Later",
        }
    }

    /// Returns a list of known urgencies, in a sane order.
    pub fn all() -> (v: Vec<Self>)
        ensures
            v@ == seq![
                Urgency::Overdue,
                Urgency::Today,
                Urgency::Soon,
                Urgency::ThisWeek,
                Urgency::NextWeek,
                Urgency::NextMonth,
                Urgency::Later,
            ],
    {
        let mut v: Vec<Self> = Vec::new();
        v.push(Self::Overdue);
        v.push(Self::Today);
        v.push(Self::Soon);
        v.push(Self::ThisWeek);
        v.push(Self::NextWeek);
        v.push(Self::NextMonth);
        v.push(Self::Later);
        assert(v@ =~= seq![
            Urgency::Overdue,
            Urgency::Today,
            Urgency::Soon,
            Urgency::ThisWeek,
            Urgency::NextWeek,
            Urgency::NextMonth,
            Urgency::Later,
        ]);
        v
    }

    /// The place of this level among the seven, from 0 for the most urgent.
    pub fn position(&self) -> (n: u8)
        ensures
            n == self.rank(),
    {
        match self {
            Self::Overdue => 0,
            Self::Today => 1,
            Self::Soon => 2,
            Self::ThisWeek => 3,
            Self::NextWeek => 4,
            Self::NextMonth => 5,
            Self::Later => 6,
        }
    }
}

impl Default for Urgency {
    /// Default is soon, but you should rely on the default as little as possible.
    /// It is useful when sorting tasks by urgency.
    fn default() -> (r: Self)
        ensures
            r == Urgency::Soon,
    {
        Self::Soon
    }
}

/// Three sizes are defined.
#[derive(Clone, Copy, Debug, PartialEq, Eq, Structural, PartialOrd, Ord, Hash)]
pub enum TshirtSize {
    Small,
    Medium,
    Large,
}

impl TshirtSize {
    /// The place of this size among the three, from 0 for the smallest.
    pub open spec fn rank(self) -> int {
        match self {
            TshirtSize::Small => 0,
            TshirtSize::Medium => 1,
            TshirtSize::Large => 2,
        }
    }

    /// The heading for tasks of the level.
    pub open spec fn heading(self) -> Seq<char> {
        match self {
            TshirtSize::Small => "Small"@,
            TshirtSize::Medium => "Medium"@,
            TshirtSize::Large => "Large"@,
        }
    }

    /// Returns a heading suitable for items of this size.
    pub fn to_string(&self) -> (s: &'static str)
        ensures
            s@ == self.heading(),
    {
        match self {
            Self::Small => "Small",
            Self::Medium => "Medium",
            Self::Large => "Large",
        }
    }

    /// Returns a list of known sizes, in a sane order.
    pub fn all() -> (v: Vec<Self>)
        ensures
            v@ == seq![TshirtSize::Small, TshirtSize::Medium, TshirtSize::Large],
    {
        let mut v: Vec<Self> = Vec::new();
        v.push(Self::Small);
        v.push(Self::Medium);
        v.push(Self::Large);
        assert(v@ =~= seq![TshirtSize::Small, TshirtSize::Medium, TshirtSize::Large]);
        v
    }

    /// The place of this size among the three, from 0 for the smallest.
    pub fn position(&self) -> (n: u8)
        ensures
            n == self.rank(),
    {
        match self {
            Self::Small => 0,
            Self::Medium => 1,
            Self::Large => 2,
        }
    }
}

impl Default for TshirtSize {
    /// Default is medium.
    fn default() -> (r: Self)
        ensures
            r == TshirtSize::Medium,
    {
        Self::Medium
    }
}

/// What a task holds, as mathematical values: the model that the contracts
/// of `Item` speak of.
pub struct ItemView {
    pub line_number: nat,
    pub completion: bool,
    pub priority: char,
    pub completion_date: Option<Date>,
    pub creation_date: Option<Date>,
    pub description: Seq<char>,
}

impl ItemView {
    /// Whether the dates held are dates of the calendar.
    pub open spec fn dates_valid(self) -> bool {
        &&& self.completion_date matches Some(d) ==> d.is_valid()
        &&& self.creation_date matches Some(d) ==> d.is_valid()
    }

    /// The task with nothing set.
    pub open spec fn blank() -> ItemView {
        ItemView {
            line_number: 0,
            completion: false,
            priority: '\0',
            completion_date: None,
            creation_date: None,
            description: Seq::empty(),
        }
    }
}

/// An item in a todo list.
///
/// The description is the single source of what can be read off a task: its
/// tags, contexts, key-value pairs, due and start dates, urgency and size are
/// worked out from the description at each request, and its importance from
/// the priority, so none of them can lag behind a change.
#[derive(Debug)]
pub struct Item {
    line_number: usize,
    completion: bool,
    priority: char,
    completion_date: Option<Date>,
    creation_date: Option<Date>,
    description: String,
}

impl View for Item {
    type V = ItemView;

    closed spec fn view(&self) -> ItemView {
        ItemView {
            line_number: self.line_number as nat,
            completion: self.completion,
            priority: self.priority,
            completion_date: self.completion_date,
            creation_date: self.creation_date,
            description: self.description@,
        }
    }
}

impl Item {
    #[verifier::type_invariant]
    spec fn dates_are_valid(self) -> bool {
        self@.dates_valid()
    }

    /// The task with nothing set.
    pub fn new() -> (r: Item)
        ensures
            r@ == ItemView::blank(),
    {
        Item {
            line_number: 0,
            completion: false,
            priority: '\0',
            completion_date: None,
            creation_date: None,
            description: String::new(),
        }
    }

    /// Whether the task is complete.
    pub fn completion(&self) -> (r: bool)
        ensures
            r == self@.completion,
    {
        self.completion
    }

    /// Set indicator of whether the task is complete.
    pub fn set_completion(&mut self, x: bool)
        ensures
            final(self)@ == (ItemView { completion: x, ..old(self)@ }),
    {
        proof {
            use_type_invariant(&*self);
        }
        self.completion = x;
    }

    /// Line number indicator (sometimes zero).
    pub fn line_number(&self) -> (r: usize)
        ensures
            r == self@.line_number,
    {
        self.line_number
    }

    /// Set line number indicator for the task.
    pub fn set_line_number(&mut self, x: usize)
        ensures
            final(self)@ == (ItemView { line_number: x as nat, ..old(self)@ }),
    {
        proof {
            use_type_invariant(&*self);
        }
        self.line_number = x;
    }

    /// Task priority/importance as given in a todo.txt file.
    ///
    /// A is highest, then B and C. D should be considered normal. E is low priority.
    /// Any uppercase letter is valid, but letters after E are not especially meaningful.
    ///
    /// The importance() method is better.
    pub fn priority(&self) -> (r: char)
        ensures
            r == self@.priority,
    {
        self.priority
    }

    /// Set task priority.
    pub fn set_priority(&mut self, x: char)
        ensures
            final(self)@ == (ItemView { priority: x, ..old(self)@ }),
    {
        proof {
            use_type_invariant(&*self);
        }
        self.priority = x;
    }

    /// Completion date.
    ///
    /// Often none.
    pub fn completion_date(&self) -> (r: Option<Date>)
        ensures
            r == self@.completion_date,
            r matches Some(d) ==> d.is_valid(),
    {
        proof {
            use_type_invariant(self);
        }
        self.completion_date
    }

    /// Set the completion date to a given date.
    pub fn set_completion_date(&mut self, x: Date)
        requires
            x.is_valid(),
        ensures
            final(self)@ == (ItemView { completion_date: Some(x), ..old(self)@ }),
    {
        proof {
            use_type_invariant(&*self);
        }
        self.completion_date = Some(x);
    }

    /// Set the completion date to None.
    pub fn clear_completion_date(&mut self)
        ensures
            final(self)@ == (ItemView { completion_date: None, ..old(self)@ }),
    {
        proof {
            use_type_invariant(&*self);
        }
        self.completion_date = None;
    }

    /// Task creation date.
    ///
    /// Often none.
    pub fn creation_date(&self) -> (r: Option<Date>)
        ensures
            r == self@.creation_date,
            r matches Some(d) ==> d.is_valid(),
    {
        proof {
            use_type_invariant(self);
        }
        self.creation_date
    }

    /// Set the task creation date to a given date.
    pub fn set_creation_date(&mut self, x: Date)
        requires
            x.is_valid(),
        ensures
            final(self)@ == (ItemView { creation_date: Some(x), ..old(self)@ }),
    {
        proof {
            use_type_invariant(&*self);
        }
        self.creation_date = Some(x);
    }

    /// Set the task creation date to None.
    pub fn clear_creation_date(&mut self)
        ensures
            final(self)@ == (ItemView { creation_date: None, ..old(self)@ }),
    {
        proof {
            use_type_invariant(&*self);
        }
        self.creation_date = None;
    }

    /// Task description.
    pub fn description(&self) -> (r: String)
        ensures
            r@ == self@.description,
    {
        self.description.clone()
    }

    /// Set the task description.
    ///
    /// Whatever is read off the description afterwards is read off the new one.
    pub fn set_description(&mut self, x: String)
        ensures
            final(self)@ == (ItemView { description: x@, ..old(self)@ }),
    {
        proof {
            use_type_invariant(&*self);
        }
        self.description = x;
    }

    /// Return the importance of the task.
    ///
    /// Basically the same as priority, except it's an enum and all letters after E
    /// are treated as being the same as E.
    pub fn importance(&self) -> (r: Option<Importance>)
        ensures
            r == importance_of(self@.priority),
    {
        Importance::from_char(self.priority)
    }

    /// Set the item's importance.
    pub fn set_importance(&mut self, i: Importance)
        ensures
            final(self)@ == (ItemView { priority: i.letter(), ..old(self)@ }),
            importance_of(final(self)@.priority) == Some(i),
    {
        proof {
            use_type_invariant(&*self);
        }
        self.priority = i.to_char();
    }

    /// Set the item's importance to none.
    pub fn clear_importance(&mut self)
        ensures
            final(self)@ == (ItemView { priority: '\0', ..old(self)@ }),
            importance_of(final(self)@.priority) is None,
    {
        proof {
            use_type_invariant(&*self);
        }
        self.priority = '\0';
    }
}

impl Default for Item {
    fn default() -> (r: Self)
        ensures
            r@ == ItemView::blank(),
    {
        Self::new()
    }
}

impl Clone for Item {
    /// A copy that owns its own description.
    fn clone(&self) -> (r: Self)
        ensures
            r@ == self@,
    {
        proof {
            use_type_invariant(self);
        }
        Item {
            line_number: self.line_number,
            completion: self.completion,
            priority: self.priority,
            completion_date: self.completion_date,
            creation_date: self.creation_date,
            description: self.description.clone(),
        }
    }
}

} // verus!
