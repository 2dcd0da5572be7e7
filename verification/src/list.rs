//! Types related to todo list files.
//!
//! A list is a sequence of lines. A line that holds something other than
//! white space is a comment if that starts with `#`, and a task otherwise.

use vstd::prelude::*;
use crate::action::SortOrder;
use crate::date::Date;
use crate::date::FIRST_DAY;
use crate::date::LAST_DAY;
use crate::item::grammar::parse_line;
use crate::item::grammar::render_line;
use crate::item::schedule::done;
use crate::item::schedule::due_day;
use crate::item::schedule::pulled;
use crate::item::Item;
use crate::item::ItemView;
use crate::item::Urgency;
use crate::text::append_chars;
use crate::text::chars_of;
use crate::text::skip_spaces;
use crate::text::skip_spaces_from;
use crate::text::slice_of;
use crate::text::string_of;

verus! {

/// The error type of std's input and output, which reading a list from a
/// string can name but never returns.
#[verifier::external_type_specification]
#[verifier::external_body]
pub struct ExIoError(std::io::Error);

/// A line type.
#[derive(Debug, Eq, PartialEq, Clone, Copy, Structural)]
pub enum LineKind {
    /// A line representing a task.
    Item,
    /// A line which starts with a `#`.
    Comment,
    /// An empty line.
    Blank,
}

/// Whether the line `s` holds nothing but white space.
pub open spec fn is_blank_line(s: Seq<char>) -> bool {
    skip_spaces(s, 0) == s.len()
}

/// Whether the first thing on the line `s`, white space apart, is a `#`.
pub open spec fn is_comment_line(s: Seq<char>) -> bool {
    skip_spaces(s, 0) < s.len() && s[skip_spaces(s, 0)] == '#'
}

/// The kind of the line `s`.
pub open spec fn kind_of_line(s: Seq<char>) -> LineKind {
    if is_blank_line(s) {
        LineKind::Blank
    } else if is_comment_line(s) {
        LineKind::Comment
    } else {
        LineKind::Item
    }
}

/// A line, as mathematical values.
pub struct LineView {
    pub kind: LineKind,
    pub text: Seq<char>,
    pub item: Option<ItemView>,
    pub num: nat,
}

impl LineView {
    /// The blank line.
    pub open spec fn blank() -> LineView {
        LineView { kind: LineKind::Blank, text: seq![], item: None, num: 0 }
    }

    /// The line with the text `s` and the number `num`. A task line holds the
    /// task that its text writes, under the same number.
    pub open spec fn of_text(s: Seq<char>, num: nat) -> LineView {
        LineView {
            kind: kind_of_line(s),
            text: s,
            item: if kind_of_line(s) == LineKind::Item {
                Some(ItemView { line_number: num, ..parse_line(s) })
            } else {
                None
            },
            num,
        }
    }

    /// The line that holds the task `v`. Its text writes the task; its number is 0.
    pub open spec fn of_item(v: ItemView) -> LineView {
        LineView { kind: LineKind::Item, text: render_line(v), item: Some(v), num: 0 }
    }

    /// Whether the task of the line is complete; false for a line without a task.
    pub open spec fn is_completed(self) -> bool {
        self.kind == LineKind::Item && match self.item {
            Some(v) => v.completion,
            None => false,
        }
    }
}

/// An line in a todo list.
#[derive(Debug)]
pub struct Line {
    pub kind: LineKind,
    pub text: String,
    pub item: Option<Item>,
    pub num: usize,
}

impl View for Line {
    type V = LineView;

    open spec fn view(&self) -> LineView {
        LineView {
            kind: self.kind,
            text: self.text@,
            item: match self.item {
                Some(i) => Some(i@),
                None => None,
            },
            num: self.num as nat,
        }
    }
}

impl DeepView for Line {
    type V = LineView;

    open spec fn deep_view(&self) -> LineView {
        self@
    }
}

impl Line {
    /// Whether the line holds a task exactly when it is a task line.
    pub open spec fn is_well_formed(&self) -> bool {
        self.kind == LineKind::Item <==> self.item is Some
    }

    /// The blank line.
    pub fn new_blank() -> (r: Line)
        ensures
            r@ == LineView::blank(),
            r.is_well_formed(),
    {
        Line { kind: LineKind::Blank, text: String::new(), item: None, num: 0 }
    }

    /// Create a Line struct by parsing a string.
    pub fn from_string(text: String, num: usize) -> (r: Line)
        ensures
            r@ == LineView::of_text(text@, num as nat),
            r.is_well_formed(),
    {
        let s = chars_of(text.as_str());
        let i = skip_spaces_from(&s, 0);
        if i == s.len() {
            Line { text, kind: LineKind::Blank, item: None, num }
        } else if s[i] == '#' {
            Line { text, kind: LineKind::Comment, item: None, num }
        } else {
            let mut item = Item::parse(text.as_str());
            item.set_line_number(num);
            Line { text, kind: LineKind::Item, item: Some(item), num }
        }
    }

    /// Wrap an Item struct to be a Line.
    pub fn from_item(item: Item) -> (r: Line)
        ensures
            r@ == LineView::of_item(item@),
            r.is_well_formed(),
    {
        Line { kind: LineKind::Item, text: item.to_string(), item: Some(item), num: 0 }
    }

    /// Create a version of the line but representing a completed task.
    pub fn but_done(&self, include_date: bool, today: Date) -> (r: Line)
        requires
            self.is_well_formed(),
            today.is_valid(),
        ensures
            r@ == match self@.item {
                Some(v) => LineView::of_item(done(v, include_date, today)),
                None => self@,
            },
            r.is_well_formed(),
    {
        match &self.item {
            Some(item) => Line::from_item(item.but_done(include_date, today)),
            None => self.clone(),
        }
    }

    /// Create a version of the line but representing a pulled task.
    pub fn but_pull(&self, new_urgency: Urgency, today: Date) -> (r: Line)
        requires
            self.is_well_formed(),
            today.is_valid(),
            self@.item matches Some(v) ==> FIRST_DAY <= due_day(v, new_urgency, today) <= LAST_DAY,
        ensures
            r@ == match self@.item {
                Some(v) => LineView::of_item(pulled(v, new_urgency, today)),
                None => self@,
            },
            r.is_well_formed(),
    {
        match &self.item {
            Some(item) => Line::from_item(item.but_pull(new_urgency, today)),
            None => self.clone(),
        }
    }
}

impl Default for Line {
    fn default() -> (r: Self)
        ensures
            r@ == LineView::blank(),
            r.is_well_formed(),
    {
        Self::new_blank()
    }
}

impl Clone for Line {
    fn clone(&self) -> (r: Self)
        ensures
            r@ == self@,
            r.is_well_formed() == self.is_well_formed(),
    {
        Line {
            kind: self.kind,
            text: self.text.clone(),
            item: match &self.item {
                Some(i) => Some(i.clone()),
                None => None,
            },
            num: self.num,
        }
    }
}

/// Where the line that starts at `i` ends: at the first line feed at or
/// after `i`, or at the end of `s`.
pub open spec fn line_end(s: Seq<char>, i: int) -> int
    decreases s.len() - i,
{
    if 0 <= i < s.len() && s[i] != '\n' {
        line_end(s, i + 1)
    } else {
        i
    }
}

/// `s` without the carriage return at its end, if it ends with one.
pub open spec fn without_return(s: Seq<char>) -> Seq<char> {
    if s.len() > 0 && s.last() == '\r' {
        s.drop_last()
    } else {
        s
    }
}

/// The lines of `s` from position `i` on. Each line feed ends a line, and
/// the line loses a carriage return that stands before the line feed. What
/// follows the last line feed is a line too, unless nothing follows.
pub open spec fn lines_from(s: Seq<char>, i: int) -> Seq<Seq<char>>
    decreases s.len() - i,
    via lines_from_ends
{
    if i < 0 || i >= s.len() {
        seq![]
    } else if line_end(s, i) < s.len() {
        seq![without_return(s.subrange(i, line_end(s, i)))] + lines_from(s, line_end(s, i) + 1)
    } else {
        seq![s.subrange(i, s.len() as int)]
    }
}

#[via_fn]
proof fn lines_from_ends(s: Seq<char>, i: int) {
    if 0 <= i < s.len() {
        lemma_line_end_bounds(s, i);
    }
}

/// A line ends within the text.
pub proof fn lemma_line_end_bounds(s: Seq<char>, i: int)
    requires
        0 <= i <= s.len(),
    ensures
        i <= line_end(s, i) <= s.len(),
    decreases s.len() - i,
{
    if i < s.len() && s[i] != '\n' {
        lemma_line_end_bounds(s, i + 1);
    }
}

/// The lines of a list with the texts `texts`, numbered from `first` on.
pub open spec fn numbered_lines(texts: Seq<Seq<char>>, first: nat) -> Seq<LineView> {
    Seq::new(texts.len(), |k: int| LineView::of_text(texts[k], (first + k) as nat))
}

/// The text that writes lines with the texts `texts`: each text and a line feed.
pub open spec fn joined_lines(texts: Seq<Seq<char>>) -> Seq<char>
    decreases texts.len(),
{
    if texts.len() == 0 {
        seq![]
    } else {
        joined_lines(texts.drop_last()) + texts.last().push('\n')
    }
}

/// The lines that hold the tasks `items`, one for each.
pub open spec fn lines_of_items(items: Seq<&Item>) -> Seq<LineView> {
    items.map_values(|i: &Item| LineView::of_item(i@))
}

/// The views of the lines `lines`.
pub open spec fn line_views(lines: Seq<Line>) -> Seq<LineView> {
    lines.map_values(|l: Line| l@)
}

/// The texts of the lines `lines`.
pub open spec fn line_texts(lines: Seq<LineView>) -> Seq<Seq<char>> {
    lines.map_values(|l: LineView| l.text)
}

/// The tasks that the lines `lines` hold, in order.
pub open spec fn item_refs<'a>(lines: Seq<Line>) -> Seq<&'a Item>
    decreases lines.len(),
{
    if lines.len() == 0 {
        seq![]
    } else {
        let rest = item_refs(lines.drop_last());
        match lines.last().item {
            Some(i) if lines.last().kind == LineKind::Item => rest.push(&i),
            _ => rest,
        }
    }
}

/// The number of task lines among `lines`.
pub open spec fn count_of_items(lines: Seq<LineView>) -> nat
    decreases lines.len(),
{
    if lines.len() == 0 {
        0
    } else {
        count_of_items(lines.drop_last()) + if lines.last().kind == LineKind::Item {
            1nat
        } else {
            0nat
        }
    }
}

/// The number of lines among `lines` whose task is complete.
pub open spec fn count_of_completed(lines: Seq<LineView>) -> nat
    decreases lines.len(),
{
    if lines.len() == 0 {
        0
    } else {
        count_of_completed(lines.drop_last()) + if lines.last().is_completed() {
            1nat
        } else {
            0nat
        }
    }
}

/// No more lines are counted than there are.
pub proof fn lemma_counts_bounded(lines: Seq<LineView>)
    ensures
        count_of_items(lines) <= lines.len(),
        count_of_completed(lines) <= lines.len(),
    decreases lines.len(),
{
    if lines.len() > 0 {
        lemma_counts_bounded(lines.drop_last());
    }
}

/// A todo list.
#[derive(Debug)]
pub struct List {
    pub path: Option<String>,
    pub lines: Vec<Line>,
}

impl List {
    /// The lines, as mathematical values.
    pub open spec fn line_views(&self) -> Seq<LineView> {
        line_views(self.lines@)
    }

    /// Whether every line is well formed.
    pub open spec fn is_well_formed(&self) -> bool {
        forall|k: int| 0 <= k < self.lines.len() ==> (#[trigger] self.lines[k]).is_well_formed()
    }

    /// The list without lines.
    pub fn new() -> (r: Self)
        ensures
            r.path is None,
            r.lines@ == Seq::<Line>::empty(),
            r.is_well_formed(),
    {
        Self { path: None, lines: Vec::new() }
    }

    /// The list that holds the tasks `lines`, one line for each.
    pub fn from_items(lines: Vec<&Item>) -> (r: Self)
        ensures
            r.path is None,
            r.is_well_formed(),
            r.line_views() == lines_of_items(lines@),
    {
        let mut list = List::new();
        let mut k: usize = 0;
        while k < lines.len()
            invariant
                k <= lines.len(),
                list.path is None,
                list.is_well_formed(),
                list.line_views() == lines_of_items(lines@.take(k as int)),
            decreases lines.len() - k,
        {
            let ghost before = list.line_views();
            list.lines.push(Line::from_item(lines[k].clone()));
            assert(list.line_views() =~= before.push(LineView::of_item(lines[k as int]@)));
            assert(lines_of_items(lines@.take(k + 1)) =~= lines_of_items(
                lines@.take(k as int),
            ).push(LineView::of_item(lines[k as int]@)));
            k += 1;
        }
        assert(lines@.take(lines.len() as int) =~= lines@);
        list
    }

    /// Parse a todo list from a string. The lines are numbered from 1.
    pub fn from_string(s: String) -> (r: Result<Self, std::io::Error>)
        ensures
            r matches Ok(list) && list.path is None && list.is_well_formed() && list.line_views()
                == numbered_lines(lines_from(s@, 0), 1),
    {
        let text = chars_of(s.as_str());
        let mut lines: Vec<Line> = Vec::new();
        let mut i: usize = 0;
        let ghost mut done_texts: Seq<Seq<char>> = seq![];
        while i < text.len()
            invariant
                i <= text.len(),
                lines.len() == done_texts.len(),
                lines.len() <= i,
                done_texts + lines_from(text@, i as int) == lines_from(text@, 0),
                line_views(lines@) == numbered_lines(done_texts, 1),
                forall|k: int| 0 <= k < lines.len() ==> (#[trigger] lines[k]).is_well_formed(),
            decreases text.len() - i,
        {
            let mut e: usize = i;
            while e < text.len() && text[e] != '\n'
                invariant
                    i <= e <= text.len(),
                    line_end(text@, e as int) == line_end(text@, i as int),
                decreases text.len() - e,
            {
                e += 1;
            }
            let ended = e < text.len();
            let stop: usize = if ended && e > i && text[e - 1] == '\r' {
                (e - 1) as usize
            } else {
                e
            };
            let line_text = slice_of(&text, i, stop);
            let ghost views_before = line_views(lines@);
            let ghost texts_before = done_texts;
            proof {
                if ended {
                    assert(line_text@ =~= without_return(text@.subrange(i as int, e as int)));
                }
                done_texts = done_texts.push(line_text@);
                assert(done_texts + lines_from(text@, if ended {
                    e + 1
                } else {
                    e as int
                }) =~= texts_before + lines_from(text@, i as int));
            }
            let num: usize = lines.len() + 1;
            lines.push(Line::from_string(string_of(&line_text), num));
            assert(line_views(lines@) =~= views_before.push(
                LineView::of_text(line_text@, num as nat),
            ));
            assert(numbered_lines(done_texts, 1) =~= numbered_lines(texts_before, 1).push(
                LineView::of_text(line_text@, num as nat),
            ));
            i = if ended {
                e + 1
            } else {
                e
            };
        }
        assert(done_texts + lines_from(text@, i as int) =~= done_texts);
        Ok(List { path: None, lines })
    }

    /// Serialize a todo list as a string.
    pub fn serialize(&self) -> (r: String)
        ensures
            r@ == joined_lines(line_texts(self.line_views())),
    {
        let mut out: Vec<char> = Vec::new();
        let mut k: usize = 0;
        while k < self.lines.len()
            invariant
                k <= self.lines.len(),
                out@ == joined_lines(line_texts(self.line_views()).take(k as int)),
            decreases self.lines.len() - k,
        {
            let ghost texts = line_texts(self.line_views());
            assert(texts.take(k + 1).drop_last() =~= texts.take(k as int));
            assert(texts.take(k + 1).last() == self.lines[k as int].text@);
            append_chars(&mut out, &chars_of(self.lines[k].text.as_str()));
            out.push('\n');
            assert(out@ =~= joined_lines(texts.take(k as int)) + self.lines[k as int].text@.push(
                '\n',
            ));
            k += 1;
        }
        assert(line_texts(self.line_views()).take(self.lines.len() as int) =~= line_texts(
            self.line_views(),
        ));
        string_of(&out)
    }

    /// Get a Vec<&Item> from an already-parsed file.
    pub fn items(&self) -> (r: Vec<&Item>)
        ensures
            r@ == item_refs(self.lines@),
    {
        let mut r: Vec<&Item> = Vec::new();
        let mut k: usize = 0;
        while k < self.lines.len()
            invariant
                k <= self.lines.len(),
                r@ == item_refs(self.lines@.take(k as int)),
            decreases self.lines.len() - k,
        {
            assert(self.lines@.take(k + 1).drop_last() =~= self.lines@.take(k as int));
            assert(self.lines@.take(k + 1).last() == self.lines[k as int]);
            let line = &self.lines[k];
            if line.kind == LineKind::Item {
                match &line.item {
                    Some(item) => {
                        r.push(item);
                    },
                    None => {},
                }
            }
            k += 1;
        }
        assert(self.lines@.take(self.lines.len() as int) =~= self.lines@);
        r
    }

    /// Clone the list, but removing blank lines and comments, and optionally sort it.
    pub fn but_tidy(&self, sort_order: &SortOrder, today: Date) -> (r: Self)
        requires
            today.is_valid(),
        ensures
            r.path is None,
            r.is_well_formed(),
            r.line_views() == lines_of_items(sort_order.sorted(item_refs(self.lines@), today)),
    {
        List::from_items(sort_order.sort_items(self.items(), today))
    }

    /// Count the items in the list.
    pub fn count_items(&self) -> (n: usize)
        ensures
            n == count_of_items(self.line_views()),
    {
        let mut n: usize = 0;
        let mut k: usize = 0;
        while k < self.lines.len()
            invariant
                k <= self.lines.len(),
                n == count_of_items(self.line_views().take(k as int)),
                n <= k,
            decreases self.lines.len() - k,
        {
            let ghost views = self.line_views();
            assert(views.take(k + 1).drop_last() =~= views.take(k as int));
            assert(views.take(k + 1).last() == self.lines[k as int]@);
            if self.lines[k].kind == LineKind::Item {
                n += 1;
            }
            k += 1;
        }
        assert(self.line_views().take(self.lines.len() as int) =~= self.line_views());
        n
    }

    /// Count the blank/comment lines in the list.
    pub fn count_blank(&self) -> (n: usize)
        ensures
            n == self.lines.len() - count_of_items(self.line_views()),
    {
        proof {
            lemma_counts_bounded(self.line_views());
        }
        self.lines.len() - self.count_items()
    }

    /// Count the completed items in the list.
    pub fn count_completed(&self) -> (n: usize)
        ensures
            n == count_of_completed(self.line_views()),
    {
        let mut n: usize = 0;
        let mut k: usize = 0;
        while k < self.lines.len()
            invariant
                k <= self.lines.len(),
                n == count_of_completed(self.line_views().take(k as int)),
                n <= k,
            decreases self.lines.len() - k,
        {
            let ghost views = self.line_views();
            assert(views.take(k + 1).drop_last() =~= views.take(k as int));
            assert(views.take(k + 1).last() == self.lines[k as int]@);
            let line = &self.lines[k];
            let completed = line.kind == LineKind::Item && match &line.item {
                Some(item) => item.completion(),
                None => false,
            };
            if completed {
                n += 1;
            }
            k += 1;
        }
        assert(self.line_views().take(self.lines.len() as int) =~= self.line_views());
        n
    }
}

impl Default for List {
    fn default() -> (r: Self)
        ensures
            r.path is None,
            r.lines@ == Seq::<Line>::empty(),
            r.is_well_formed(),
    {
        Self::new()
    }
}

} // verus!
