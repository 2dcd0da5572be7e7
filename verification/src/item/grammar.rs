//! The line grammar: how a line of text is read as a task, and how a task is
//! written as a line.
//!
//! A line is read from left to right, each part optional and each closed by
//! white space: the completion mark `x`, a priority `(A)` to `(Z)`, a date,
//! and, only behind a first date, a second one. What is left, without the
//! white space around it, is the description. Two dates are the completion
//! date and then the creation date; a single date is the creation date.

use vstd::prelude::*;
use crate::date::Date;
use crate::date::format_date;
use crate::date::lemma_parse_of_format;
use crate::date::parse_date;
use crate::item::Item;
use crate::item::ItemView;
use crate::text::append_chars;
use crate::text::chars_of;
use crate::text::is_capital;
use crate::text::is_capital_char;
use crate::text::is_digit;
use crate::text::is_space;
use crate::text::is_space_char;
use crate::text::is_trimmed;
use crate::text::lemma_skip_shift;
use crate::text::lemma_skip_spaces_bounds;
use crate::text::lemma_trim_is_trimmed;
use crate::text::lemma_trim_of_trimmed;
use crate::text::skip_spaces;
use crate::text::skip_spaces_from;
use crate::text::string_of;
use crate::text::trim;
use crate::text::trimmed_tail;

verus! {

/// Where the text goes on behind the completion mark with which `s` starts,
/// if it starts with one: an `x` and white space.
pub open spec fn done_marker(s: Seq<char>) -> Option<int> {
    if s.len() >= 2 && s[0] == 'x' && is_space(s[1]) {
        Some(skip_spaces(s, 1))
    } else {
        None
    }
}

/// The priority letter that stands at `i`, and where the text goes on behind
/// it, if one stands there: a capital letter in round brackets and white space.
pub open spec fn priority_marker(s: Seq<char>, i: int) -> Option<(char, int)> {
    if 0 <= i && i + 4 <= s.len() && s[i] == '(' && is_capital(s[i + 1]) && s[i + 2] == ')'
        && is_space(s[i + 3]) {
        Some((s[i + 1], skip_spaces(s, i + 3)))
    } else {
        None
    }
}

/// The date that stands at `i`, and where the text goes on behind it, if one
/// stands there: a date of the calendar as `YYYY-MM-DD` and white space.
pub open spec fn date_marker(s: Seq<char>, i: int) -> Option<(Date, int)> {
    if 0 <= i && i + 11 <= s.len() && is_space(s[i + 10]) {
        match parse_date(s.subrange(i, i + 10)) {
            Some(d) => Some((d, skip_spaces(s, i + 10))),
            None => None,
        }
    } else {
        None
    }
}

/// The task that the line `s` writes. Its line number is 0.
pub open spec fn parse_line(s: Seq<char>) -> ItemView {
    let (completion, at_priority) = match done_marker(s) {
        Some(e) => (true, e),
        None => (false, 0int),
    };
    let (priority, at_date) = match priority_marker(s, at_priority) {
        Some((c, e)) => (c, e),
        None => ('\0', at_priority),
    };
    match date_marker(s, at_date) {
        None => ItemView {
            line_number: 0,
            completion,
            priority,
            completion_date: None,
            creation_date: None,
            description: trim(s.skip(at_date)),
        },
        Some((first, at_second)) => match date_marker(s, at_second) {
            None => ItemView {
                line_number: 0,
                completion,
                priority,
                completion_date: None,
                creation_date: Some(first),
                description: trim(s.skip(at_second)),
            },
            Some((second, at_text)) => ItemView {
                line_number: 0,
                completion,
                priority,
                completion_date: Some(first),
                creation_date: Some(second),
                description: trim(s.skip(at_text)),
            },
        },
    }
}

/// `d` as it is written in a line: the date and one space.
pub open spec fn date_part(d: Date) -> Seq<char> {
    format_date(d).push(' ')
}

/// The end of a written line: the creation date, if there is one, and the description.
pub open spec fn render_from_creation(v: ItemView) -> Seq<char> {
    match v.creation_date {
        Some(d) => date_part(d) + v.description,
        None => v.description,
    }
}

/// The written line from the completion date on; that date is written only
/// for a task that is complete.
pub open spec fn render_from_completion_date(v: ItemView) -> Seq<char> {
    match v.completion_date {
        Some(d) if v.completion => date_part(d) + render_from_creation(v),
        _ => render_from_creation(v),
    }
}

/// The written line from the priority on.
pub open spec fn render_from_priority(v: ItemView) -> Seq<char> {
    if v.priority != '\0' {
        seq!['(', v.priority, ')', ' '] + render_from_completion_date(v)
    } else {
        render_from_completion_date(v)
    }
}

/// The line that writes the task `v`: the completion mark, the priority, the
/// completion date, the creation date and the description, each of the first
/// four only where it is set, and one space behind each.
pub open spec fn render_line(v: ItemView) -> Seq<char> {
    if v.completion {
        seq!['x', ' '] + render_from_priority(v)
    } else {
        render_from_priority(v)
    }
}

/// The tasks that a line can carry without loss: reading the written line
/// gives back the completion mark, priority, dates and description.
///
/// The priority is a capital letter or none; the description has no white
/// space around it; a completion date comes with the completion mark and a
/// creation date; and the description does not start with what would be read
/// as a part that the task leaves out.
pub open spec fn renders_faithfully(v: ItemView) -> bool {
    &&& v.priority == '\0' || is_capital(v.priority)
    &&& is_trimmed(v.description)
    &&& v.completion_date is Some ==> v.completion && v.creation_date is Some
    &&& !v.completion && v.priority == '\0' && v.creation_date is None ==> done_marker(
        v.description,
    ) is None
    &&& v.priority == '\0' && v.creation_date is None ==> priority_marker(v.description, 0) is None
    &&& v.completion_date is None ==> date_marker(v.description, 0) is None
}

/// Whether `s` is empty or starts with something other than white space.
spec fn starts_solid(s: Seq<char>) -> bool {
    s.len() > 0 ==> !is_space(s[0])
}

proof fn lemma_priority_shift(s: Seq<char>, k: int)
    requires
        0 <= k <= s.len(),
    ensures
        priority_marker(s, k) == match priority_marker(s.skip(k), 0) {
            Some((c, e)) => Some((c, e + k)),
            None => None,
        },
{
    let t = s.skip(k);
    if k + 4 <= s.len() {
        assert(t[0] == s[k] && t[1] == s[k + 1] && t[2] == s[k + 2] && t[3] == s[k + 3]);
        lemma_skip_shift(s, k, 3);
    }
}

proof fn lemma_date_shift(s: Seq<char>, k: int)
    requires
        0 <= k <= s.len(),
    ensures
        date_marker(s, k) == match date_marker(s.skip(k), 0) {
            Some((d, e)) => Some((d, e + k)),
            None => None,
        },
{
    let t = s.skip(k);
    if k + 11 <= s.len() {
        assert(t[10] == s[k + 10]);
        assert(t.subrange(0, 10) =~= s.subrange(k, k + 10));
        lemma_skip_shift(s, k, 10);
    }
}

/// A single space before solid text is skipped, and nothing more.
proof fn lemma_skip_one_space(s: Seq<char>, i: int)
    requires
        0 <= i < s.len(),
        is_space(s[i]),
        starts_solid(s.skip(i + 1)),
    ensures
        skip_spaces(s, i) == i + 1,
{
    if i + 1 < s.len() {
        assert(s.skip(i + 1)[0] == s[i + 1]);
    }
    reveal_with_fuel(skip_spaces, 3);
}

proof fn lemma_date_part_read(d: Date, rest: Seq<char>)
    requires
        d.is_valid(),
        starts_solid(rest),
    ensures
        date_marker(date_part(d) + rest, 0) == Some((d, 11int)),
        (date_part(d) + rest).skip(11) == rest,
        is_digit((date_part(d) + rest)[0]),
        (date_part(d) + rest).len() >= 11,
{
    lemma_parse_of_format(d);
    let s = date_part(d) + rest;
    assert(s.subrange(0, 10) =~= format_date(d));
    assert(s[10] == ' ');
    assert(s.skip(11) =~= rest);
    lemma_skip_one_space(s, 10);
    assert(s[0] == format_date(d)[0]);
}

proof fn lemma_creation_read(v: ItemView)
    requires
        v.dates_valid(),
        renders_faithfully(v),
        v.completion_date is None,
    ensures
        ({
            let s = render_from_creation(v);
            match date_marker(s, 0) {
                None => v.creation_date is None && trim(s) == v.description,
                Some((first, p)) => date_marker(s, p) is None && v.creation_date == Some(first)
                    && 0 <= p <= s.len() && trim(s.skip(p)) == v.description,
            }
        }),
{
    let s = render_from_creation(v);
    lemma_trim_of_trimmed(v.description);
    match v.creation_date {
        Some(d) => {
            lemma_date_part_read(d, v.description);
            lemma_date_shift(s, 11);
        },
        None => {},
    }
}

proof fn lemma_dates_read(v: ItemView)
    requires
        v.dates_valid(),
        renders_faithfully(v),
    ensures
        ({
            let s = render_from_completion_date(v);
            match date_marker(s, 0) {
                None => v.creation_date is None && v.completion_date is None && trim(s)
                    == v.description,
                Some((first, p)) => 0 <= p <= s.len() && match date_marker(s, p) {
                    None => v.completion_date is None && v.creation_date == Some(first) && trim(
                        s.skip(p),
                    ) == v.description,
                    Some((second, q)) => v.completion_date == Some(first) && v.creation_date
                        == Some(second) && 0 <= q <= s.len() && trim(s.skip(q))
                        == v.description,
                },
            }
        }),
        v.creation_date is Some ==> render_from_completion_date(v).len() > 0 && is_digit(
            render_from_completion_date(v)[0],
        ),
        v.creation_date is None ==> render_from_completion_date(v) == v.description,
{
    let s = render_from_completion_date(v);
    lemma_trim_of_trimmed(v.description);
    match v.completion_date {
        Some(d) => {
            let e = v.creation_date->0;
            let r = render_from_creation(v);
            lemma_date_part_read(e, v.description);
            lemma_date_part_read(d, r);
            lemma_date_shift(s, 11);
            assert(s.skip(11).skip(11) =~= s.skip(22));
        },
        None => {
            lemma_creation_read(v);
            match v.creation_date {
                Some(e) => {
                    lemma_date_part_read(e, v.description);
                },
                None => {},
            }
        },
    }
}

/// What reading finds from the priority on, in a line written from the priority on.
spec fn parse_from_priority(s: Seq<char>, completion: bool) -> ItemView {
    let (priority, at_date) = match priority_marker(s, 0) {
        Some((c, e)) => (c, e),
        None => ('\0', 0int),
    };
    match date_marker(s, at_date) {
        None => ItemView {
            line_number: 0,
            completion,
            priority,
            completion_date: None,
            creation_date: None,
            description: trim(s.skip(at_date)),
        },
        Some((first, at_second)) => match date_marker(s, at_second) {
            None => ItemView {
                line_number: 0,
                completion,
                priority,
                completion_date: None,
                creation_date: Some(first),
                description: trim(s.skip(at_second)),
            },
            Some((second, at_text)) => ItemView {
                line_number: 0,
                completion,
                priority,
                completion_date: Some(first),
                creation_date: Some(second),
                description: trim(s.skip(at_text)),
            },
        },
    }
}

proof fn lemma_dates_shift(s: Seq<char>, k: int)
    requires
        0 <= k <= s.len(),
    ensures
        ({
            let t = s.skip(k);
            match date_marker(t, 0) {
                None => date_marker(s, k) is None,
                Some((first, p)) => date_marker(s, k) == Some((first, p + k)) && k <= p + k
                    <= s.len() && match date_marker(t, p) {
                    None => date_marker(s, p + k) is None && s.skip(p + k) == t.skip(p),
                    Some((second, q)) => date_marker(s, p + k) == Some((second, q + k)) && 0 <= q
                        <= t.len() && s.skip(q + k) == t.skip(q),
                },
            }
        }),
{
    let t = s.skip(k);
    lemma_date_shift(s, k);
    match date_marker(t, 0) {
        None => {},
        Some((first, p)) => {
            lemma_skip_spaces_bounds(t, 10);
            lemma_date_shift(s, p + k);
            assert(s.skip(p + k) =~= t.skip(p));
            lemma_date_shift(t, p);
            match date_marker(t, p) {
                None => {},
                Some((second, q)) => {
                    lemma_skip_spaces_bounds(t, p + 10);
                    assert(s.skip(q + k) =~= t.skip(q));
                },
            }
        },
    }
}

proof fn lemma_priority_read(v: ItemView)
    requires
        v.dates_valid(),
        renders_faithfully(v),
    ensures
        parse_from_priority(render_from_priority(v), v.completion) == (ItemView {
            line_number: 0,
            ..v
        }),
        starts_solid(render_from_priority(v)),
        v.priority != '\0' || v.creation_date is Some ==> render_from_priority(v).len() > 0
            && render_from_priority(v)[0] != 'x',
        v.priority == '\0' && v.creation_date is None ==> render_from_priority(v)
            == v.description,
{
    let s = render_from_priority(v);
    let r = render_from_completion_date(v);
    lemma_dates_read(v);
    if v.priority != '\0' {
        assert(s.skip(4) =~= r);
        assert(s[0] == '(' && s[1] == v.priority && s[2] == ')' && s[3] == ' ');
        lemma_skip_one_space(s, 3);
        lemma_dates_shift(s, 4);
        match date_marker(r, 0) {
            None => {},
            Some((first, p)) => {
                match date_marker(r, p) {
                    None => {},
                    Some((second, q)) => {},
                }
            },
        }
    } else {
        assert(s == r);
        if v.creation_date is Some {
            assert(priority_marker(s, 0) is None);
        }
    }
}

proof fn lemma_whole_shift(s: Seq<char>, completion: bool)
    requires
        s.len() >= 2,
    ensures
        ({
            let t = s.skip(2);
            let a = parse_from_priority(t, completion);
            let (priority, at_date) = match priority_marker(s, 2) {
                Some((c, e)) => (c, e),
                None => ('\0', 2int),
            };
            let b = match date_marker(s, at_date) {
                None => ItemView {
                    line_number: 0,
                    completion,
                    priority,
                    completion_date: None,
                    creation_date: None,
                    description: trim(s.skip(at_date)),
                },
                Some((first, at_second)) => match date_marker(s, at_second) {
                    None => ItemView {
                        line_number: 0,
                        completion,
                        priority,
                        completion_date: None,
                        creation_date: Some(first),
                        description: trim(s.skip(at_second)),
                    },
                    Some((second, at_text)) => ItemView {
                        line_number: 0,
                        completion,
                        priority,
                        completion_date: Some(first),
                        creation_date: Some(second),
                        description: trim(s.skip(at_text)),
                    },
                },
            };
            a == b
        }),
{
    let t = s.skip(2);
    lemma_priority_shift(s, 2);
    let tail_at_date = match priority_marker(t, 0) {
        Some((c, e)) => e,
        None => 0int,
    };
    if priority_marker(t, 0) is Some {
        lemma_skip_spaces_bounds(t, 3);
    }
    let at_date = tail_at_date + 2;
    assert(s.skip(at_date) =~= t.skip(tail_at_date));
    lemma_dates_shift(s, at_date);
    lemma_dates_shift(t, tail_at_date);
    match date_marker(t.skip(tail_at_date), 0) {
        None => {},
        Some((first, p)) => {
            lemma_skip_spaces_bounds(t.skip(tail_at_date), 10);
            match date_marker(t.skip(tail_at_date), p) {
                None => {},
                Some((second, q)) => {
                    lemma_skip_spaces_bounds(t.skip(tail_at_date), p + 10);
                },
            }
        },
    }
}

/// Writing a task as a line and reading the line gives the task again: the
/// same completion mark, priority, completion date, creation date and
/// description, for every task that a line can carry without loss.
pub proof fn lemma_round_trip(v: ItemView)
    requires
        v.dates_valid(),
        renders_faithfully(v),
    ensures
        parse_line(render_line(v)) == (ItemView { line_number: 0, ..v }),
{
    let s = render_line(v);
    let r = render_from_priority(v);
    lemma_priority_read(v);
    if v.completion {
        assert(s.skip(2) =~= r);
        assert(s[0] == 'x' && s[1] == ' ');
        lemma_skip_one_space(s, 1);
        lemma_whole_shift(s, true);
    } else {
        assert(s == r);
        assert(done_marker(s) is None);
    }
}

/// What is read off a line is fit to be written again in one respect: its
/// description has no white space around it. Its dates are dates of the calendar.
pub proof fn lemma_parse_gives_trimmed_description(s: Seq<char>)
    ensures
        is_trimmed(parse_line(s).description),
        parse_line(s).dates_valid(),
{
    let at_priority = match done_marker(s) {
        Some(e) => e,
        None => 0int,
    };
    let at_date = match priority_marker(s, at_priority) {
        Some((c, e)) => e,
        None => at_priority,
    };
    lemma_trim_is_trimmed(s.skip(at_date));
    match date_marker(s, at_date) {
        None => {},
        Some((first, at_second)) => {
            lemma_trim_is_trimmed(s.skip(at_second));
            match date_marker(s, at_second) {
                None => {},
                Some((second, at_text)) => {
                    lemma_trim_is_trimmed(s.skip(at_text));
                },
            }
        },
    }
}

fn date_marker_at(s: &Vec<char>, i: usize) -> (r: Option<(Date, usize)>)
    requires
        i <= s.len(),
    ensures
        match r {
            Some((d, e)) => date_marker(s@, i as int) == Some((d, e as int)) && d.is_valid() && i
                <= e <= s.len(),
            None => date_marker(s@, i as int) is None,
        },
{
    if s.len() - i >= 11 && is_space_char(s[i + 10]) {
        match Date::parse_at(s, i) {
            Some(d) => {
                let e = skip_spaces_from(s, i + 10);
                Some((d, e))
            },
            None => None,
        }
    } else {
        None
    }
}

impl Item {
    /// Parse an item from a line of text.
    ///
    /// Assumes the [todo.txt](https://github.com/todotxt/todo.txt) format.
    /// Every text is read as some task: what does not fit a part of the
    /// format is left in the description.
    pub fn parse(text: &str) -> (r: Item)
        ensures
            r@ == parse_line(text@),
    {
        let s = chars_of(text);
        let n = s.len();
        let mut p: usize = 0;
        let mut completion = false;
        if n >= 2 && s[0] == 'x' && is_space_char(s[1]) {
            completion = true;
            p = skip_spaces_from(&s, 1);
        }
        let mut priority = '\0';
        if n - p >= 4 && s[p] == '(' && is_capital_char(s[p + 1]) && s[p + 2] == ')'
            && is_space_char(s[p + 3]) {
            priority = s[p + 1];
            p = skip_spaces_from(&s, p + 3);
        }
        let mut completion_date: Option<Date> = None;
        let mut creation_date: Option<Date> = None;
        match date_marker_at(&s, p) {
            Some((first, at_second)) => {
                match date_marker_at(&s, at_second) {
                    Some((second, at_text)) => {
                        completion_date = Some(first);
                        creation_date = Some(second);
                        p = at_text;
                    },
                    None => {
                        creation_date = Some(first);
                        p = at_second;
                    },
                }
            },
            None => {},
        }
        let description = string_of(&trimmed_tail(&s, p));
        Item { line_number: 0, completion, priority, completion_date, creation_date, description }
    }

    /// The line that writes the task, ready for a todo list file.
    pub fn to_string(&self) -> (r: String)
        ensures
            r@ == render_line(self@),
    {
        proof {
            use_type_invariant(self);
        }
        let mut v: Vec<char> = Vec::new();
        if self.completion {
            v.push('x');
            v.push(' ');
        }
        if self.priority != '\0' {
            v.push('(');
            v.push(self.priority);
            v.push(')');
            v.push(' ');
        }
        if self.completion {
            if let Some(d) = self.completion_date {
                let w = d.to_chars();
                append_chars(&mut v, &w);
                v.push(' ');
            }
        }
        if let Some(d) = self.creation_date {
            let w = d.to_chars();
            append_chars(&mut v, &w);
            v.push(' ');
        }
        let w = chars_of(self.description.as_str());
        append_chars(&mut v, &w);
        assert(v@ =~= render_line(self@));
        string_of(&v)
    }
}

} // verus!
