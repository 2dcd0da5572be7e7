//! What the commands of the todo list manager work with: search terms, sort
//! orders, and the layout of what is shown.

use console::Style;
use console::Term;
use vstd::prelude::*;
use vstd::string::*;
use crate::date::Date;
use crate::item::Importance;
use crate::item::Item;
use crate::item::ItemView;
use crate::item::TshirtSize;
use crate::item::Urgency;
use crate::sorting::is_stable_sort;
use crate::sorting::key_views;
use crate::sorting::places;
use crate::sorting::stable_order;
use crate::sorting::stable_sorted;
use crate::sorting::KeyView;
use crate::sorting::SortKey;
use crate::text::append_chars;
use crate::text::chars_of;
use crate::text::contains_chars;
use crate::text::contains_text;
use crate::text::decimal_digits;
use crate::text::digits_of;
use crate::text::lowercase;
use crate::text::pad_with_zeros;
use crate::text::parse_count;
use crate::text::parse_count_from;
use crate::text::same_chars;
use crate::text::slice_of;
use crate::text::string_of;
use crate::text::to_lowercase;
use crate::text::zero_padded;

pub mod add;
pub mod archive;
pub mod change;
pub mod done;
pub mod find;
pub mod pull;
pub mod quick;
pub mod remove;
pub mod show;
pub mod tidy;
pub mod urgent;
pub mod zen;

verus! {

/// A type of file that tada can operate on.
#[derive(Clone, Copy, Debug, Eq, PartialEq, Structural, PartialOrd, Ord)]
pub enum FileType {
    TodoTxt,
    DoneTxt,
}

impl FileType {
    /// Human-readable label for the file type.
    pub open spec fn label_text(self) -> Seq<char> {
        match self {
            FileType::TodoTxt => "todo list"@,
            FileType::DoneTxt => "done list"@,
        }
    }

    /// Human-readable label for the file type.
    pub fn label(&self) -> (r: String)
        ensures
            r@ == self.label_text(),
    {
        match self {
            Self::TodoTxt => String::from_str("todo list"),
            Self::DoneTxt => String::from_str("done list"),
        }
    }
}

/// `text` as the terminal shows it in the style `style`: what console's
/// `Style::from_dotted_str(style)`, with styling forced on, makes of it.
pub uninterp spec fn painted(text: Seq<char>, style: Seq<char>) -> Seq<char>;

/// `text` without the control sequences that style it: what console's
/// `strip_ansi_codes` leaves of it.
pub uninterp spec fn unpainted(text: Seq<char>) -> Seq<char>;

/// `text` in the style that the dotted string `style` names, such as
/// `red.bold`.
///
/// Calls console's `Style::from_dotted_str`, forces styling on, applies the
/// style and writes the result out. With styling forced on, what comes out
/// depends on the two arguments alone; it is named `painted`.
#[verifier::external_body]
fn paint(text: &str, style: &str) -> (r: String)
    ensures
        r@ == painted(text@, style@),
{
    Style::from_dotted_str(style).force_styling(true).apply_to(text).to_string()
}

/// `text` without its styling, by console's `strip_ansi_codes`. The result
/// depends on the text alone; it is named `unpainted`.
#[verifier::external_body]
fn strip_paint(text: &str) -> (r: String)
    ensures
        r@ == unpainted(text@),
{
    console::strip_ansi_codes(text).to_string()
}

/// The number of columns of the terminal at standard output, by console's
/// `Term::size`. It depends on the terminal, so nothing is claimed of it.
#[verifier::external_body]
fn terminal_columns() -> (r: u16) {
    Term::stdout().size().1
}

/// The mark for a task with no priority, as it is shown.
pub open spec fn no_priority_part() -> Seq<char> {
    seq!['(', '?', ')', ' ']
}

/// The style in which the priority letter of a task of importance `i` is shown.
pub open spec fn importance_style(i: Importance) -> Seq<char> {
    match i {
        Importance::A => "red.bold"@,
        Importance::B => "yellow.bold"@,
        Importance::C => "green.bold"@,
        _ => "bold"@,
    }
}

/// The priority of the task `v`, as it is shown: the letter in brackets, in
/// the style of its importance; `(?)` for a task without priority.
pub open spec fn priority_part(v: ItemView) -> Seq<char> {
    if v.priority == '\0' {
        no_priority_part()
    } else {
        seq!['('] + (match v.importance() {
            Some(i) => painted(seq![v.priority], importance_style(i)),
            None => seq![v.priority],
        }) + seq![')', ' ']
    }
}

/// A date column for a date that is not known.
pub open spec fn unknown_date_part() -> Seq<char> {
    "????-??-?? "@
}

/// A date column left empty.
pub open spec fn empty_date_part() -> Seq<char> {
    "           "@
}

/// Provides pretty output for Item objects.
///
/// What is written is collected in `io`, for the caller to hand on to the
/// terminal or a file.
#[derive(Debug)]
pub struct Outputter {
    pub width: usize,
    pub colour: bool,
    pub with_creation_date: bool,
    pub with_completion_date: bool,
    pub with_line_numbers: bool,
    pub with_newline: bool,
    pub line_number_digits: usize,
    pub io: String,
}

impl Outputter {
    /// Whether `self` and `other` are set up alike, whatever they have written.
    pub open spec fn same_settings(&self, other: &Outputter) -> bool {
        &&& self.width == other.width
        &&& self.colour == other.colour
        &&& self.with_creation_date == other.with_creation_date
        &&& self.with_completion_date == other.with_completion_date
        &&& self.with_line_numbers == other.with_line_numbers
        &&& self.with_newline == other.with_newline
        &&& self.line_number_digits == other.line_number_digits
    }

    /// `text` as a line of output: in the style `style` where colour is on,
    /// and closed by a line feed where lines are.
    pub open spec fn line_of(&self, text: Seq<char>, style: Seq<char>) -> Seq<char> {
        let shown = if self.colour {
            painted(text, style)
        } else {
            text
        };
        if self.with_newline {
            shown.push('\n')
        } else {
            shown
        }
    }

    /// The column that shows when the task `v` was completed.
    pub open spec fn completion_part(&self, v: ItemView) -> Seq<char> {
        if !self.with_completion_date {
            seq![]
        } else if v.completion {
            match v.completion_date {
                Some(d) => crate::date::format_date(d).push(' '),
                None => unknown_date_part(),
            }
        } else {
            empty_date_part()
        }
    }

    /// The column that shows when the task `v` was created.
    pub open spec fn creation_part(&self, v: ItemView) -> Seq<char> {
        if !self.with_creation_date {
            seq![]
        } else {
            match v.creation_date {
                Some(d) => crate::date::format_date(d).push(' '),
                None => unknown_date_part(),
            }
        }
    }

    /// The column that shows the line number of the task `v`.
    pub open spec fn number_part(&self, v: ItemView) -> Seq<char> {
        if self.with_line_numbers {
            seq!['#'] + zero_padded(decimal_digits(v.line_number), self.line_number_digits as nat)
                + seq![' ']
        } else {
            seq![]
        }
    }

    /// What stands before the description in the row of the task `v`.
    pub open spec fn lead_of(&self, v: ItemView) -> Seq<char> {
        (if v.completion {
            seq!['x', ' ']
        } else {
            seq![' ', ' ']
        }) + priority_part(v) + self.completion_part(v) + self.creation_part(v)
            + self.number_part(v)
    }

    /// The row of the task `v` before it is styled as a whole: the lead and as
    /// much of the description as the width leaves room for, counted in
    /// characters; none of it where the lead alone fills the width.
    pub open spec fn row_of(&self, v: ItemView) -> Seq<char> {
        let lead = self.lead_of(v);
        let used = unpainted(lead).len();
        let room = if used <= self.width {
            self.width - used
        } else {
            0
        };
        lead + if room < v.description.len() {
            v.description.take(room)
        } else {
            v.description
        }
    }

    /// The row of the task `v` as it is written on the day `today`: dimmed
    /// for a task that is complete or may not start yet, and without
    /// any styling where colour is off.
    pub open spec fn item_text(&self, v: ItemView, today: Date) -> Seq<char> {
        let row = self.row_of(v);
        let shown = if v.completion || !v.is_startable(today) {
            if self.colour {
                painted(unpainted(row), "dim"@)
            } else {
                unpainted(row)
            }
        } else if !self.colour {
            unpainted(row)
        } else {
            row
        };
        if self.with_newline {
            shown.push('\n')
        } else {
            shown
        }
    }

    /// Constructor for item format config, given an output width
    pub fn new(width: usize) -> (r: Self)
        ensures
            r.width == width,
            !r.colour,
            !r.with_creation_date,
            !r.with_completion_date,
            !r.with_line_numbers,
            r.with_newline,
            r.line_number_digits == 2,
            r.io@ == Seq::<char>::empty(),
    {
        Self {
            width,
            colour: false,
            with_creation_date: false,
            with_completion_date: false,
            with_line_numbers: false,
            with_newline: true,
            line_number_digits: 2,
            io: String::new(),
        }
    }

    /// Alternative constructor, which detects width from the terminal
    pub fn new_based_on_terminal() -> (r: Self)
        ensures
            !r.colour,
            !r.with_creation_date,
            !r.with_completion_date,
            !r.with_line_numbers,
            r.with_newline,
            r.line_number_digits == 2,
            r.io@ == Seq::<char>::empty(),
    {
        let width = terminal_columns();
        Self::new(width as usize)
    }

    /// Hands out what was written so far, and starts afresh.
    pub fn take_output(&mut self) -> (r: String)
        ensures
            r@ == old(self).io@,
            final(self).io@ == Seq::<char>::empty(),
            final(self).same_settings(old(self)),
    {
        let mut out = String::new();
        std::mem::swap(&mut out, &mut self.io);
        out
    }

    fn write_line(&mut self, text: String, style: &str)
        ensures
            final(self).io@ == old(self).io@ + old(self).line_of(text@, style@),
            final(self).same_settings(old(self)),
    {
        let mut hh = text;
        if self.colour {
            hh = paint(hh.as_str(), style);
        }
        self.io.append(hh.as_str());
        if self.with_newline {
            self.io.append("\n");
            proof {
                reveal_strlit("\n");
                assert("\n"@ =~= seq!['\n']);
            }
        }
        assert(self.io@ =~= old(self).io@ + old(self).line_of(text@, style@));
    }

    /// Write a heading row.
    pub fn write_heading(&mut self, heading: String)
        ensures
            final(self).io@ == old(self).io@ + old(self).line_of(
                "# "@ + heading@,
                "white.bright.bold"@,
            ),
            final(self).same_settings(old(self)),
    {
        let mut hh = String::from_str("# ");
        hh.append(heading.as_str());
        self.write_line(hh, "white.bright.bold");
    }

    /// Write a separator row.
    pub fn write_separator(&mut self)
        ensures
            final(self).io@ == old(self).io@.push('\n'),
            final(self).same_settings(old(self)),
    {
        proof {
            reveal_strlit("\n");
            assert("\n"@ =~= seq!['\n']);
        }
        self.io.append("\n");
        assert(self.io@ =~= old(self).io@.push('\n'));
    }

    /// Write a status line.
    pub fn write_status(&mut self, status: String)
        ensures
            final(self).io@ == old(self).io@ + old(self).line_of(status@, "white.bright"@),
            final(self).same_settings(old(self)),
    {
        self.write_line(status, "white.bright");
    }

    /// Write a hint line.
    pub fn write_notice(&mut self, hint: String)
        ensures
            final(self).io@ == old(self).io@ + old(self).line_of(hint@, "magenta"@),
            final(self).same_settings(old(self)),
    {
        self.write_line(hint, "magenta");
    }

    /// Write a error line.
    pub fn write_error(&mut self, errstr: String)
        ensures
            final(self).io@ == old(self).io@ + old(self).line_of(errstr@, "red"@),
            final(self).same_settings(old(self)),
    {
        self.write_line(errstr, "red");
    }

    fn priority_chars(i: &Item) -> (r: Vec<char>)
        ensures
            r@ == priority_part(i@),
    {
        let mut r: Vec<char> = Vec::new();
        if i.priority() == '\0' {
            r.push('(');
            r.push('?');
            r.push(')');
            r.push(' ');
            assert(r@ =~= no_priority_part());
        } else {
            r.push('(');
            let mut letter: Vec<char> = Vec::new();
            letter.push(i.priority());
            assert(letter@ =~= seq![i@.priority]);
            match i.importance() {
                Some(importance) => {
                    let style = match importance {
                        Importance::A => "red.bold",
                        Importance::B => "yellow.bold",
                        Importance::C => "green.bold",
                        _ => "bold",
                    };
                    let shown = paint(string_of(&letter).as_str(), style);
                    append_chars(&mut r, &chars_of(shown.as_str()));
                },
                None => {
                    append_chars(&mut r, &letter);
                },
            }
            r.push(')');
            r.push(' ');
            assert(r@ =~= priority_part(i@));
        }
        r
    }

    fn date_chars(date: Option<Date>) -> (r: Vec<char>)
        requires
            date matches Some(d) ==> d.is_valid(),
        ensures
            r@ == match date {
                Some(d) => crate::date::format_date(d).push(' '),
                None => unknown_date_part(),
            },
    {
        match date {
            Some(d) => {
                let mut r = d.to_chars();
                r.push(' ');
                r
            },
            None => chars_of("????-??-?? "),
        }
    }

    fn completion_chars(&self, i: &Item) -> (r: Vec<char>)
        ensures
            r@ == self.completion_part(i@),
    {
        if !self.with_completion_date {
            Vec::new()
        } else if i.completion() {
            Self::date_chars(i.completion_date())
        } else {
            chars_of("           ")
        }
    }

    fn creation_chars(&self, i: &Item) -> (r: Vec<char>)
        ensures
            r@ == self.creation_part(i@),
    {
        if !self.with_creation_date {
            Vec::new()
        } else {
            Self::date_chars(i.creation_date())
        }
    }

    fn number_chars(&self, i: &Item) -> (r: Vec<char>)
        ensures
            r@ == self.number_part(i@),
    {
        let mut r: Vec<char> = Vec::new();
        if self.with_line_numbers {
            r.push('#');
            let digits = digits_of(i.line_number());
            append_chars(&mut r, &pad_with_zeros(&digits, self.line_number_digits));
            r.push(' ');
            assert(r@ =~= self.number_part(i@));
        }
        r
    }

    /// What stands before the description in the row of the task `i`.
    fn lead(&self, i: &Item) -> (r: Vec<char>)
        ensures
            r@ == self.lead_of(i@),
    {
        let mut r: Vec<char> = Vec::new();
        if i.completion() {
            r.push('x');
        } else {
            r.push(' ');
        }
        r.push(' ');
        assert(r@ =~= if i@.completion {
            seq!['x', ' ']
        } else {
            seq![' ', ' ']
        });
        append_chars(&mut r, &Self::priority_chars(i));
        append_chars(&mut r, &self.completion_chars(i));
        append_chars(&mut r, &self.creation_chars(i));
        append_chars(&mut r, &self.number_chars(i));
        r
    }

    /// Write an item. (Not in todo.txt format!)
    ///
    /// Allows for pretty formatting, etc.
    pub fn write_item(&mut self, i: &Item, today: Date)
        requires
            today.is_valid(),
        ensures
            final(self).io@ == old(self).io@ + old(self).item_text(i@, today),
            final(self).same_settings(old(self)),
    {
        let mut r = self.lead(i);
        let used = strip_paint(string_of(&r).as_str()).as_str().unicode_len();
        let room: usize = if used <= self.width {
            self.width - used
        } else {
            0
        };
        let desc = i.description_chars();
        if room < desc.len() {
            append_chars(&mut r, &slice_of(&desc, 0, room));
            assert(desc@.subrange(0, room as int) =~= desc@.take(room as int));
        } else {
            append_chars(&mut r, &desc);
        }
        let row = string_of(&r);
        let shown = if i.completion() || !i.is_startable(today) {
            if self.colour {
                paint(strip_paint(row.as_str()).as_str(), "dim")
            } else {
                strip_paint(row.as_str())
            }
        } else if !self.colour {
            strip_paint(row.as_str())
        } else {
            row
        };
        self.io.append(shown.as_str());
        if self.with_newline {
            self.io.append("\n");
            proof {
                reveal_strlit("\n");
                assert("\n"@ =~= seq!['\n']);
            }
        }
        assert(self.io@ =~= old(self).io@ + old(self).item_text(i@, today));
    }
}

impl Default for Outputter {
    /// An outputter as wide as the terminal.
    fn default() -> (r: Self)
        ensures
            !r.colour,
            !r.with_creation_date,
            !r.with_completion_date,
            !r.with_line_numbers,
            r.with_newline,
            r.line_number_digits == 2,
            r.io@ == Seq::<char>::empty(),
    {
        Self::new_based_on_terminal()
    }
}

/// Whether the user has confirmed an action on an item.
#[derive(Clone, Copy, Debug, Eq, PartialEq, Structural, PartialOrd, Ord)]
pub enum ConfirmationStatus {
    Yes,
    No,
    Ask,
}

impl ConfirmationStatus {
    /// Whether the action goes ahead, where `answer` is what the user said
    /// when asked: the answer counts only where the status is to ask.
    pub open spec fn decision(self, answer: bool) -> bool {
        match self {
            ConfirmationStatus::Yes => true,
            ConfirmationStatus::No => false,
            ConfirmationStatus::Ask => answer,
        }
    }

    /// Whether the user has to be asked.
    pub fn needs_answer(&self) -> (r: bool)
        ensures
            r == (*self == ConfirmationStatus::Ask),
    {
        match self {
            ConfirmationStatus::Ask => true,
            _ => false,
        }
    }

    /// Settles whether an action goes ahead, and writes a notice that says
    /// so: `yes_phrase` or `no_phrase`, and a line feed.
    ///
    /// `answer` is what the user said when asked; it counts only where the
    /// status is to ask.
    pub fn check(
        &self,
        outputter: &mut Outputter,
        answer: bool,
        yes_phrase: &str,
        no_phrase: &str,
    ) -> (r: bool)
        ensures
            r == self.decision(answer),
            final(outputter).io@ == old(outputter).io@ + old(outputter).line_of(
                (if r {
                    yes_phrase@
                } else {
                    no_phrase@
                }).push('\n'),
                "magenta"@,
            ),
            final(outputter).same_settings(old(outputter)),
    {
        let r = match self {
            ConfirmationStatus::Yes => true,
            ConfirmationStatus::No => false,
            ConfirmationStatus::Ask => answer,
        };
        let mut phrase = String::from_str(
            if r {
                yes_phrase
            } else {
                no_phrase
            },
        );
        phrase.push('\n');
        outputter.write_notice(phrase);
        r
    }
}

/// Whether the search term `term` fits the task `v`: a term that starts with
/// `@` names a context of the task, one that starts with `+` a tag, one that
/// starts with `#` its line number, and any other term stands somewhere in
/// the description. Case counts nowhere.
pub open spec fn term_matches(term: Seq<char>, v: ItemView) -> bool {
    if term.len() > 0 && term[0] == '@' {
        v.has_context(term)
    } else if term.len() > 0 && term[0] == '+' {
        v.has_tag(term)
    } else if term.len() > 0 && term[0] == '#' {
        parse_count(term.skip(1)) == Some(v.line_number)
    } else {
        contains_text(lowercase(v.description), lowercase(term))
    }
}

/// Whether the search term `term` can be read: behind a `#` stands a number.
pub open spec fn term_is_readable(term: Seq<char>) -> bool {
    term.len() > 0 && term[0] == '#' ==> parse_count(term.skip(1)) is Some
}

/// Structure for holding command-line search terms.
#[derive(Debug)]
pub struct SearchTerms {
    pub terms: Vec<String>,
}

impl SearchTerms {
    /// Whether every term can be read.
    pub open spec fn is_readable(&self) -> bool {
        forall|k: int| 0 <= k < self.terms.len() ==> term_is_readable(#[trigger] self.terms[k]@)
    }

    /// Whether at least one term fits the task `v`.
    pub open spec fn matches(&self, v: ItemView) -> bool {
        exists|k: int| 0 <= k < self.terms.len() && term_matches(#[trigger] self.terms[k]@, v)
    }

    /// Create a new empty set of search terms.
    pub fn new() -> (r: Self)
        ensures
            r.terms@ == Seq::<String>::empty(),
            r.is_readable(),
    {
        Self { terms: Vec::new() }
    }

    /// Create a new set of search terms from a Vec of Strings.
    pub fn from_vec(terms: Vec<String>) -> (r: Self)
        ensures
            r.terms == terms,
    {
        Self { terms }
    }

    /// Create a new set of search terms from a single String.
    pub fn from_string(term: &str) -> (r: Self)
        ensures
            r.terms.deep_view() == seq![term@],
    {
        let mut terms: Vec<String> = Vec::new();
        terms.push(String::from_str(term));
        assert(terms.deep_view() =~= seq![term@]);
        Self { terms }
    }

    /// Whether every term can be read: behind each `#` stands a number.
    pub fn check_readable(&self) -> (r: bool)
        ensures
            r == self.is_readable(),
    {
        let mut k: usize = 0;
        while k < self.terms.len()
            invariant
                k <= self.terms.len(),
                forall|j: int| 0 <= j < k ==> term_is_readable(#[trigger] self.terms[j]@),
            decreases self.terms.len() - k,
        {
            let t = chars_of(self.terms[k].as_str());
            if t.len() > 0 && t[0] == '#' && parse_count_from(&t, 1).is_none() {
                return false;
            }
            k += 1;
        }
        true
    }

    /// Given an item, checks whether the item matches at least one term.
    pub fn item_matches(&self, item: &Item) -> (r: bool)
        requires
            self.is_readable(),
        ensures
            r == self.matches(item@),
    {
        let mut k: usize = 0;
        while k < self.terms.len()
            invariant
                k <= self.terms.len(),
                self.is_readable(),
                forall|j: int| 0 <= j < k ==> !term_matches(#[trigger] self.terms[j]@, item@),
            decreases self.terms.len() - k,
        {
            if term_fits(self.terms[k].as_str(), item) {
                return true;
            }
            k += 1;
        }
        false
    }
}

/// Whether the search term `term` fits the task `item`.
pub fn term_fits(term: &str, item: &Item) -> (r: bool)
    requires
        term_is_readable(term@),
    ensures
        r == term_matches(term@, item@),
{
    let t = chars_of(term);
    if t.len() > 0 && t[0] == '@' {
        item.has_context(term)
    } else if t.len() > 0 && t[0] == '+' {
        item.has_tag(term)
    } else if t.len() > 0 && t[0] == '#' {
        match parse_count_from(&t, 1) {
            Some(n) => item.line_number() == n,
            None => false,
        }
    } else {
        let lc_term = to_lowercase(term);
        let lc_desc = to_lowercase(item.description().as_str());
        contains_chars(&chars_of(lc_desc.as_str()), &chars_of(lc_term.as_str()))
    }
}

impl Default for SearchTerms {
    fn default() -> (r: Self)
        ensures
            r.terms@ == Seq::<String>::empty(),
    {
        Self::new()
    }
}

impl Clone for SearchTerms {
    fn clone(&self) -> (r: Self)
        ensures
            r.terms.deep_view() == self.terms.deep_view(),
    {
        let mut terms: Vec<String> = Vec::new();
        let mut k: usize = 0;
        while k < self.terms.len()
            invariant
                k <= self.terms.len(),
                terms.deep_view() == self.terms.deep_view().take(k as int),
            decreases self.terms.len() - k,
        {
            let ghost before = terms.deep_view();
            terms.push(self.terms[k].clone());
            assert(terms.deep_view() =~= before.push(self.terms[k as int]@));
            assert(self.terms.deep_view().take(k + 1) =~= self.terms.deep_view().take(
                k as int,
            ).push(self.terms[k as int]@));
            k += 1;
        }
        assert(self.terms.deep_view().take(self.terms.len() as int) =~= self.terms.deep_view());
        Self { terms }
    }
}

/// An order for sorting items into.
#[derive(Clone, Copy, Debug, PartialEq, Eq, Structural)]
pub enum SortOrder {
    Urgency,
    Importance,
    TshirtSize,
    Alphabetical,
    DueDate,
    Original,
    Smart,
}

/// An error raised when given an unknown sort order.
#[derive(Debug, Clone, Copy, PartialEq, Eq, Structural)]
pub struct InvalidSortOrder;

/// The sort order that goes by the name `name`, written in lower case.
pub open spec fn sort_order_named(name: Seq<char>) -> Option<SortOrder> {
    if name == "urgency"@ || name == "urgent"@ || name == "urg"@ {
        Some(SortOrder::Urgency)
    } else if name == "importance"@ || name == "import"@ || name == "imp"@ || name
        == "important"@ {
        Some(SortOrder::Importance)
    } else if name == "tshirtsize"@ || name == "size"@ || name == "tshirt"@ || name == "quick"@ {
        Some(SortOrder::TshirtSize)
    } else if name == "alphabetical"@ || name == "alphabet"@ || name == "alpha"@ {
        Some(SortOrder::Alphabetical)
    } else if name == "due-date"@ || name == "duedate"@ || name == "due"@ {
        Some(SortOrder::DueDate)
    } else if name == "original"@ || name == "orig"@ {
        Some(SortOrder::Original)
    } else if name == "smart"@ {
        Some(SortOrder::Smart)
    } else {
        None
    }
}

fn is_name(name: &Vec<char>, word: &str) -> (r: bool)
    ensures
        r == (name@ == word@),
{
    same_chars(name, &chars_of(word))
}

impl SortOrder {
    /// The name under which the order goes.
    pub open spec fn name(self) -> Seq<char> {
        match self {
            SortOrder::Urgency => "urgency"@,
            SortOrder::Importance => "importance"@,
            SortOrder::TshirtSize => "size"@,
            SortOrder::Alphabetical => "alpha"@,
            SortOrder::DueDate => "due"@,
            SortOrder::Original => "original"@,
            SortOrder::Smart => "smart"@,
        }
    }

    /// The key by which the order sorts the task `v` on the day `today`.
    ///
    /// Urgency, importance and size go by their rank, with soon, normal and
    /// medium for a task that names none; the smart order goes by all three,
    /// in that order. The due date goes by its day, a task without one
    /// first. The alphabet goes by the description in lower case.
    pub open spec fn key_of(self, v: ItemView, today: Date) -> KeyView {
        let k = v.smart_key(today);
        match self {
            SortOrder::Urgency => KeyView::Number(k.0.rank()),
            SortOrder::Importance => KeyView::Number(k.1.rank()),
            SortOrder::TshirtSize => KeyView::Number(k.2.rank()),
            SortOrder::Alphabetical => KeyView::Text(lowercase(v.description)),
            SortOrder::DueDate => KeyView::Number(
                match v.due_date() {
                    Some(d) => d.days() + 366,
                    None => 0,
                },
            ),
            SortOrder::Original => KeyView::Number(v.line_number as int),
            SortOrder::Smart => KeyView::Number(k.0.rank() * 15 + k.1.rank() * 3 + k.2.rank()),
        }
    }

    /// The keys of the tasks `items`.
    pub open spec fn keys_of(self, items: Seq<&Item>, today: Date) -> Seq<KeyView> {
        items.map_values(|i: &Item| self.key_of(i@, today))
    }

    /// The tasks `items` in the order of their keys on the day `today`:
    /// smaller keys first, and of two tasks with the same key the one that
    /// stood first.
    pub open spec fn sorted<'a>(self, items: Seq<&'a Item>, today: Date) -> Seq<&'a Item> {
        stable_sorted(self.keys_of(items, today)).map_values(|k: int| items[k])
    }

    /// The name under which the order goes.
    pub fn to_string(&self) -> (s: &'static str)
        ensures
            s@ == self.name(),
    {
        match self {
            SortOrder::Urgency => "urgency",
            SortOrder::Importance => "importance",
            SortOrder::TshirtSize => "size",
            SortOrder::Alphabetical => "alpha",
            SortOrder::DueDate => "due",
            SortOrder::Original => "original",
            SortOrder::Smart => "smart",
        }
    }

    /// Accept sort orders written in lower case, like "urgency", and return a SortOrder.
    pub fn from_lowercase(name: &str) -> (r: Result<Self, InvalidSortOrder>)
        ensures
            r == match sort_order_named(name@) {
                Some(o) => Ok::<SortOrder, InvalidSortOrder>(o),
                None => Err::<SortOrder, InvalidSortOrder>(InvalidSortOrder),
            },
    {
        let n = chars_of(name);
        if is_name(&n, "urgency") || is_name(&n, "urgent") || is_name(&n, "urg") {
            Ok(SortOrder::Urgency)
        } else if is_name(&n, "importance") || is_name(&n, "import") || is_name(&n, "imp")
            || is_name(&n, "important") {
            Ok(SortOrder::Importance)
        } else if is_name(&n, "tshirtsize") || is_name(&n, "size") || is_name(&n, "tshirt")
            || is_name(&n, "quick") {
            Ok(SortOrder::TshirtSize)
        } else if is_name(&n, "alphabetical") || is_name(&n, "alphabet") || is_name(&n, "alpha") {
            Ok(SortOrder::Alphabetical)
        } else if is_name(&n, "due-date") || is_name(&n, "duedate") || is_name(&n, "due") {
            Ok(SortOrder::DueDate)
        } else if is_name(&n, "original") || is_name(&n, "orig") {
            Ok(SortOrder::Original)
        } else if is_name(&n, "smart") {
            Ok(SortOrder::Smart)
        } else {
            Err(InvalidSortOrder)
        }
    }

    /// Accept string sort orders like "urgency" and return a SortOrder.
    /// Case does not count.
    pub fn from_string(sortby: &str) -> (r: Result<Self, InvalidSortOrder>)
        ensures
            r == match sort_order_named(lowercase(sortby@)) {
                Some(o) => Ok::<SortOrder, InvalidSortOrder>(o),
                None => Err::<SortOrder, InvalidSortOrder>(InvalidSortOrder),
            },
    {
        Self::from_lowercase(to_lowercase(sortby).as_str())
    }

    /// The key by which the order sorts the task `item` on the day `today`.
    pub fn sort_key(&self, item: &Item, today: Date) -> (r: SortKey)
        requires
            today.is_valid(),
        ensures
            r@ == self.key_of(item@, today),
    {
        match self {
            SortOrder::Urgency => {
                let k = item.smart_key(today);
                SortKey::Number(k.0.position() as u64)
            },
            SortOrder::Importance => {
                let k = item.smart_key(today);
                SortKey::Number(k.1.position() as u64)
            },
            SortOrder::TshirtSize => {
                let k = item.smart_key(today);
                SortKey::Number(k.2.position() as u64)
            },
            SortOrder::Alphabetical => {
                let lower = to_lowercase(item.description().as_str());
                SortKey::Text(chars_of(lower.as_str()))
            },
            SortOrder::DueDate => match item.due_date() {
                Some(d) => SortKey::Number((d.day_number() + 366) as u64),
                None => SortKey::Number(0),
            },
            SortOrder::Original => SortKey::Number(item.line_number() as u64),
            SortOrder::Smart => {
                let k = item.smart_key(today);
                SortKey::Number(
                    k.0.position() as u64 * 15 + k.1.position() as u64 * 3
                        + k.2.position() as u64,
                )
            },
        }
    }

    /// Sort items by the sort order, as seen on the day `today`.
    ///
    /// The sort is stable: of two tasks with the same key, the one that
    /// stood first stays first.
    pub fn sort_items<'a>(&self, items: Vec<&'a Item>, today: Date) -> (out: Vec<&'a Item>)
        requires
            today.is_valid(),
        ensures
            out@ == self.sorted(items@, today),
    {
        let mut keys: Vec<SortKey> = Vec::new();
        let mut k: usize = 0;
        while k < items.len()
            invariant
                k <= items.len(),
                today.is_valid(),
                key_views(keys@) == self.keys_of(items@.take(k as int), today),
            decreases items.len() - k,
        {
            let ghost before = key_views(keys@);
            keys.push(self.sort_key(items[k], today));
            assert(key_views(keys@) =~= before.push(self.key_of(items@[k as int]@, today)));
            assert(self.keys_of(items@.take(k + 1), today) =~= self.keys_of(
                items@.take(k as int),
                today,
            ).push(self.key_of(items@[k as int]@, today)));
            k += 1;
        }
        assert(items@.take(items.len() as int) =~= items@);
        let order = stable_order(&keys);
        let mut out: Vec<&'a Item> = Vec::new();
        let mut j: usize = 0;
        while j < order.len()
            invariant
                j <= order.len(),
                order.len() == items.len(),
                is_stable_sort(self.keys_of(items@, today), places(order@)),
                places(order@) == stable_sorted(self.keys_of(items@, today)),
                out@ == places(order@).take(j as int).map_values(|k: int| items@[k]),
            decreases order.len() - j,
        {
            let at = order[j];
            assert(places(order@)[j as int] == at);
            let ghost before = out@;
            out.push(items[at]);
            assert(out@ =~= places(order@).take(j + 1).map_values(|k: int| items@[k]));
            j += 1;
        }
        assert(places(order@).take(order.len() as int) =~= places(order@));
        out
    }
}

/// Represents a user-expressed number of items to be output.
#[derive(Debug)]
pub struct OutputCount {
    pub count: usize,
}

impl OutputCount {
    /// Instantiate from a number.
    pub fn new(count: usize) -> (r: Self)
        ensures
            r.count == count,
    {
        Self { count }
    }
}

/// How a task is shown goes by how the outputter is set up, not by what it
/// has written before.
pub proof fn lemma_item_text_goes_by_settings(a: &Outputter, b: &Outputter, v: ItemView, today: Date)
    requires
        a.same_settings(b),
    ensures
        a.item_text(v, today) == b.item_text(v, today),
{
    assert(a.lead_of(v) =~= b.lead_of(v));
    assert(a.row_of(v) =~= b.row_of(v));
}

/// The rows of the tasks `items`, one after the other.
pub open spec fn rows(o: &Outputter, items: Seq<&Item>, today: Date) -> Seq<char>
    decreases items.len(),
{
    if items.len() == 0 {
        seq![]
    } else {
        rows(o, items.drop_last(), today) + o.item_text(items.last()@, today)
    }
}

/// Writes the tasks `items`, one row each.
pub fn write_items(outputter: &mut Outputter, items: &Vec<&Item>, today: Date)
    requires
        today.is_valid(),
    ensures
        final(outputter).io@ == old(outputter).io@ + rows(old(outputter), items@, today),
        final(outputter).same_settings(old(outputter)),
{
    let mut k: usize = 0;
    assert(outputter.io@ =~= old(outputter).io@ + rows(old(outputter), items@.take(0), today));
    while k < items.len()
        invariant
            k <= items.len(),
            today.is_valid(),
            outputter.same_settings(old(outputter)),
            outputter.io@ == old(outputter).io@ + rows(
                old(outputter),
                items@.take(k as int),
                today,
            ),
        decreases items.len() - k,
    {
        let ghost settings = *outputter;
        let ghost before = rows(old(outputter), items@.take(k as int), today);
        proof {
            assert(items@.take(k + 1).drop_last() =~= items@.take(k as int));
            assert(items@.take(k + 1).last() == items@[k as int]);
            lemma_item_text_goes_by_settings(&settings, old(outputter), items@[k as int]@, today);
        }
        outputter.write_item(items[k], today);
        assert(outputter.io@ =~= old(outputter).io@ + (before + old(outputter).item_text(
            items@[k as int]@,
            today,
        )));
        k += 1;
    }
    assert(items@.take(items.len() as int) =~= items@);
}

/// The tasks to show for a command that shows the first few of a list: the
/// tasks `items` sorted by `selection_order`, of these the open ones, of
/// these the first `count`, and these sorted by `output_order`.
pub open spec fn simple_selection<'a>(
    items: Seq<&'a Item>,
    selection_order: SortOrder,
    output_order: SortOrder,
    count: nat,
    today: Date,
) -> Seq<&'a Item> {
    let open = crate::util::kept(
        selection_order.sorted(items, today),
        crate::util::Test::Open(today),
    );
    output_order.sorted(
        if count < open.len() {
            open.take(count as int)
        } else {
            open
        },
        today,
    )
}

/// Helper for subcommands like `important`, `urgent`, etc.: picks the tasks
/// to show and writes them.
pub fn execute_simple_list_action(
    list: &crate::list::List,
    selection_order: SortOrder,
    output_order: SortOrder,
    output_count: &OutputCount,
    outputter: &mut Outputter,
    today: Date,
)
    requires
        today.is_valid(),
    ensures
        final(outputter).io@ == old(outputter).io@ + rows(
            old(outputter),
            simple_selection(
                crate::list::item_refs(list.lines@),
                selection_order,
                output_order,
                output_count.count as nat,
                today,
            ),
            today,
        ),
        final(outputter).same_settings(old(outputter)),
{
    let sorted = selection_order.sort_items(list.items(), today);
    let mut open = crate::util::find_open_items(sorted, today);
    if output_count.count < open.len() {
        open.truncate(output_count.count);
        assert(open@ =~= crate::util::kept(
            selection_order.sorted(crate::list::item_refs(list.lines@), today),
            crate::util::Test::Open(today),
        ).take(output_count.count as int));
    }
    let selected = output_order.sort_items(open, today);
    write_items(outputter, &selected, today);
}

/// The hint that a list with `count` finished tasks gets.
pub open spec fn finished_hint(count: nat) -> Seq<char> {
    "There are "@ + decimal_digits(count)
        + " finished tasks. Consider running `tada archive`."@
}

/// The hint that a list with `count` blank and comment lines gets.
pub open spec fn blank_hint(count: nat) -> Seq<char> {
    "There are "@ + decimal_digits(count)
        + " blank/comment lines. Consider running `tada tidy`."@
}

/// What is written on the upkeep of a list with `finished` finished tasks
/// and `blank` lines without a task: a hint for each of the two that is
/// above nine, and an empty line before the first.
pub open spec fn housekeeping_text(o: &Outputter, finished: nat, blank: nat) -> Seq<char> {
    (if finished > 9 {
        seq!['\n'] + o.line_of(finished_hint(finished), "magenta"@)
    } else {
        seq![]
    }) + (if blank > 9 {
        (if finished > 9 {
            seq![]
        } else {
            seq!['\n']
        }) + o.line_of(blank_hint(blank), "magenta"@)
    } else {
        seq![]
    })
}

fn hint_text(start: &str, count: usize, end: &str) -> (r: String)
    ensures
        r@ == start@ + decimal_digits(count as nat) + end@,
{
    let mut r = String::from_str(start);
    r.append(string_of(&digits_of(count)).as_str());
    r.append(end);
    r
}

/// Show warnings if the todo list contains a large number of blank lines,
/// completed items, etc.
pub fn maybe_housekeeping_warnings(outputter: &mut Outputter, list: &crate::list::List)
    ensures
        final(outputter).io@ == old(outputter).io@ + housekeeping_text(
            old(outputter),
            crate::list::count_of_completed(list.line_views()),
            (list.lines.len() - crate::list::count_of_items(list.line_views())) as nat,
        ),
        final(outputter).same_settings(old(outputter)),
{
    let mut done_blank = false;
    let count_finished = list.count_completed();
    let ghost first: Seq<char> = seq![];
    if count_finished > 9 {
        outputter.write_separator();
        done_blank = true;
        outputter.write_notice(
            hint_text(
                "There are ",
                count_finished,
                " finished tasks. Consider running `tada archive`.",
            ),
        );
    }
    let ghost middle = outputter.io@;
    let count_blank = list.count_blank();
    if count_blank > 9 {
        if !done_blank {
            outputter.write_separator();
        }
        outputter.write_notice(
            hint_text(
                "There are ",
                count_blank,
                " blank/comment lines. Consider running `tada tidy`.",
            ),
        );
    }
    assert(outputter.io@ =~= old(outputter).io@ + housekeeping_text(
        old(outputter),
        count_finished as nat,
        count_blank as nat,
    ));
}

} // verus!
