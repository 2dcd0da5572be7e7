use std::collections::HashMap;
use tada::date::Date;
use tada::item::fixup::{Advisory, DateSlot};
use tada::item::{Importance, Item, TshirtSize, Urgency};

fn date(y: i32, m: u32, d: u32) -> Date {
	Date::from_ymd_opt(y, m, d).unwrap()
}

fn fields(line: &str) -> (bool, char, Option<Date>, Option<Date>, String) {
	let i = Item::parse(line);
	(i.completion(), i.priority(), i.completion_date(), i.creation_date(), i.description())
}

fn s(text: &str) -> String {
	String::from(text)
}

#[test]
fn parse_reads_each_part_in_its_place() {
	let a = Some(date(2010, 1, 1));
	let b = Some(date(2000, 12, 31));
	assert_eq!((true, 'B', a, b, s("foo bar baz")), fields("x (B) 2010-01-01 2000-12-31 foo bar baz"));
	assert_eq!((false, '\0', None, a, s("(A) foo bar baz")), fields("2010-01-01 (A) foo bar baz"));
	assert_eq!((false, 'A', None, None, s("foo bar abc:xyz def:123")), fields("(A) foo bar abc:xyz def:123"));
	assert_eq!((true, '\0', None, None, s("foo")), fields("x foo"));
	assert_eq!((true, '\0', None, a, s("foo")), fields("x 2010-01-01 foo"));
	assert_eq!((false, 'Z', a, b, s("foo")), fields("(Z) 2010-01-01 2000-12-31 foo"));
	assert_eq!((false, '\0', a, b, s("1999-01-01 foo")), fields("2010-01-01 2000-12-31 1999-01-01 foo"));
	assert_eq!((false, '\0', None, None, s("foo")), fields("foo"));
}

#[test]
fn parse_takes_any_white_space_between_parts() {
	let a = Some(date(2010, 1, 1));
	let b = Some(date(2000, 12, 31));
	assert_eq!((true, 'B', a, b, s("foo")), fields("x  (B)\t2010-01-01   2000-12-31 \u{a0} foo  "));
	assert_eq!((true, '\0', None, None, s("foo")), fields("x\tfoo"));
	assert_eq!((false, '\0', None, None, s("foo   bar")), fields("   foo   bar \t"));
}

#[test]
fn parse_leaves_what_does_not_fit_in_the_description() {
	let a = Some(date(2010, 1, 1));
	assert_eq!((false, '\0', None, None, s("")), fields(""));
	assert_eq!((false, '\0', None, None, s("")), fields("   "));
	assert_eq!((false, '\0', None, None, s("x")), fields("x"));
	assert_eq!((true, '\0', None, None, s("")), fields("x "));
	assert_eq!((false, '\0', None, None, s("X foo")), fields("X foo"));
	assert_eq!((false, '\0', None, None, s("xfoo")), fields("xfoo"));
	assert_eq!((false, '\0', None, None, s("x foo")), fields(" x foo"));
	assert_eq!((false, '\0', None, None, s("(A)")), fields("(A)"));
	assert_eq!((false, 'A', None, None, s("")), fields("(A) "));
	assert_eq!((false, '\0', None, None, s("(a) foo")), fields("(a) foo"));
	assert_eq!((false, '\0', None, None, s("(AB) foo")), fields("(AB) foo"));
	assert_eq!((false, '\0', None, None, s("(A)foo")), fields("(A)foo"));
	assert_eq!((false, '\0', None, None, s("(\u{c4}) foo")), fields("(\u{c4}) foo"));
	assert_eq!((false, 'A', None, None, s("x foo")), fields("(A) x foo"));
	assert_eq!((false, 'A', None, None, s("(B) foo")), fields("(A) (B) foo"));
	assert_eq!((false, '\0', None, None, s("2010-01-01")), fields("2010-01-01"));
	assert_eq!((false, '\0', None, a, s("")), fields("2010-01-01 "));
	assert_eq!((false, '\0', None, None, s("2010-01-01foo")), fields("2010-01-01foo"));
	assert_eq!((false, '\0', None, None, s("2010-1-1 foo")), fields("2010-1-1 foo"));
}

#[test]
fn parse_takes_a_date_that_is_none_for_text() {
	let a = Some(date(2010, 1, 1));
	assert_eq!((false, '\0', None, None, s("2010-13-45 foo")), fields("2010-13-45 foo"));
	assert_eq!((false, '\0', None, None, s("2010-02-30 foo")), fields("2010-02-30 foo"));
	assert_eq!((false, '\0', None, a, s("2010-13-45 foo")), fields("2010-01-01 2010-13-45 foo"));
	assert_eq!(
		(false, '\0', None, None, s("2010-13-45 2010-01-01 foo")),
		fields("2010-13-45 2010-01-01 foo")
	);
	assert_eq!((true, 'C', None, None, s("1900-02-29 foo")), fields("x (C) 1900-02-29 foo"));
}

#[test]
fn parse_sets_the_line_number_to_zero() {
	assert_eq!(0, Item::parse("(A) foo").line_number());
	assert_eq!(0, Item::new().line_number());
	let mut i = Item::parse("foo");
	i.set_line_number(12);
	assert_eq!(12, i.line_number());
	assert_eq!(12, i.clone().line_number());
}

#[test]
fn new_and_default_are_blank() {
	for i in [Item::new(), Item::default()] {
		assert_eq!(false, i.completion());
		assert_eq!('\0', i.priority());
		assert_eq!(None, i.completion_date());
		assert_eq!(None, i.creation_date());
		assert_eq!("", i.description());
		assert_eq!("", i.to_string());
	}
}

#[test]
fn setters_change_one_field() {
	let mut i = Item::parse("x (B) 2010-01-01 2000-12-31 foo");
	i.clear_completion_date();
	assert_eq!("x (B) 2000-12-31 foo", i.to_string());
	i.clear_creation_date();
	assert_eq!("x (B) foo", i.to_string());
	i.set_completion(false);
	assert_eq!("(B) foo", i.to_string());
	i.set_priority('\0');
	assert_eq!("foo", i.to_string());
	i.set_creation_date(date(2024, 2, 29));
	assert_eq!("2024-02-29 foo", i.to_string());
	i.set_description(s("bar"));
	assert_eq!("2024-02-29 bar", i.to_string());
}

#[test]
fn tags_and_contexts_are_marked_words() {
	let i = Item::parse("+a b+c +d+e ++ + @ @@ @f +g@h +i");
	assert_eq!(vec![s("a"), s("d+e"), s("+"), s("g@h"), s("i")], i.tags());
	assert_eq!(vec![s("@"), s("f")], i.contexts());
	let i = Item::parse("tabs\t+a\u{a0}+b\n+c");
	assert_eq!(vec![s("a"), s("b"), s("c")], i.tags());
	let i = Item::parse("+dup +dup");
	assert_eq!(vec![s("dup"), s("dup")], i.tags());
	assert!(Item::parse("no marks here").tags().is_empty());
	// The description, and not the priority, is looked through.
	assert!(Item::parse("(A) +").tags().is_empty());
}

#[test]
fn has_tag_and_has_context_leave_case_and_mark_aside() {
	let i = Item::parse("+Garden @Home +\u{c9}t\u{e9}");
	assert!(i.has_tag("garden"));
	assert!(i.has_tag("+GARDEN"));
	assert!(i.has_tag("\u{e9}T\u{c9}"));
	assert!(!i.has_tag("@garden"));
	assert!(!i.has_tag("gard"));
	assert!(!i.has_tag(""));
	assert!(!i.has_tag("home"));
	assert!(i.has_context("home"));
	assert!(i.has_context("@hOME"));
	assert!(!i.has_context("+home"));
	assert!(!i.has_context("garden"));
}

#[test]
fn key_value_pairs_in_order() {
	let i = Item::parse("a:b c:d:e :f g: h:i j::k l:m:n:o p:q");
	assert_eq!(
		vec![
			(s("a"), s("b")),
			(s("c"), s("d")),
			(s("h"), s("i")),
			(s("l"), s("m")),
			(s("n"), s("o")),
			(s("p"), s("q")),
		],
		i.kv().entries()
	);
	assert_eq!(Some(s("b")), i.kv().get("a"));
	assert_eq!(None, i.kv().get("e"));
	assert_eq!(None, i.kv().get("f"));
	assert_eq!(None, i.kv().get("g"));
	assert!(i.kv().contains_key("n"));
	assert!(!i.kv().contains_key("m"));
	assert!(!i.kv().contains_key(""));
}

#[test]
fn the_last_pair_of_a_key_wins() {
	let i = Item::parse("due:2024-01-01 k:1 k:2 due:2024-02-02 k:3");
	assert_eq!(Some(s("3")), i.kv().get("k"));
	assert_eq!(Some(date(2024, 2, 2)), i.due_date());
	let mut m = HashMap::new();
	for (k, v) in i.kv().entries() {
		m.insert(k, v);
	}
	assert_eq!(2, m.len());
	assert_eq!("3", m["k"]);
	assert_eq!("2024-02-02", m["due"]);
}

#[test]
fn due_and_start_dates_are_strict() {
	assert_eq!(Some(date(2024, 2, 29)), Item::parse("due:2024-02-29").due_date());
	assert_eq!(None, Item::parse("due:2023-02-29").due_date());
	assert_eq!(None, Item::parse("due:2024-2-29").due_date());
	assert_eq!(None, Item::parse("due:tomorrow").due_date());
	assert_eq!(None, Item::parse("Due:2024-02-29").due_date());
	assert_eq!(None, Item::parse("overdue:2024-02-29").due_date());
	assert_eq!(None, Item::parse("start:2024-02-29").due_date());
	assert_eq!(Some(date(2024, 2, 29)), Item::parse("start:2024-02-29").start_date());
	assert_eq!(None, Item::parse("start:2024-02-29x").start_date());
	assert_eq!(None, Item::parse("no dates").start_date());
}

#[test]
fn startable_unless_the_start_lies_ahead() {
	let today = date(2024, 1, 10);
	assert!(Item::parse("no start").is_startable(today));
	assert!(Item::parse("start:2024-01-09").is_startable(today));
	assert!(Item::parse("start:2024-01-10").is_startable(today));
	assert!(!Item::parse("start:2024-01-11").is_startable(today));
	assert!(Item::parse("start:whenever").is_startable(today));
}

#[test]
fn importance_from_letters() {
	assert_eq!(Some(Importance::A), Importance::from_char('A'));
	assert_eq!(Some(Importance::B), Importance::from_char('B'));
	assert_eq!(Some(Importance::C), Importance::from_char('C'));
	assert_eq!(Some(Importance::D), Importance::from_char('D'));
	assert_eq!(Some(Importance::E), Importance::from_char('E'));
	assert_eq!(Some(Importance::E), Importance::from_char('F'));
	assert_eq!(Some(Importance::E), Importance::from_char('Z'));
	assert_eq!(None, Importance::from_char('\0'));
	assert_eq!(None, Importance::from_char('a'));
	assert_eq!(None, Importance::from_char('['));
	assert_eq!(None, Importance::from_char('@'));
	for i in Importance::all() {
		assert_eq!(Some(i), Importance::from_char(i.to_char()));
	}
	assert_eq!(
		vec![Importance::A, Importance::B, Importance::C, Importance::D, Importance::E],
		Importance::all()
	);
	assert_eq!(vec![0, 1, 2, 3, 4], Importance::all().iter().map(|i| i.position()).collect::<Vec<u8>>());
	assert_eq!(Importance::D, Importance::default());
}

#[test]
fn headings_of_the_levels() {
	let got: Vec<&str> = Importance::all().iter().map(|i| i.to_string()).collect();
	assert_eq!(vec!["Critical", "Important", "Semi-important", "Normal", "Unimportant"], got);
	let got: Vec<&str> = Urgency::all().iter().map(|i| i.to_string()).collect();
	assert_eq!(
		vec!["Overdue", "Today", "Soon", "This week", "Next week", "Next month", "Later"],
		got
	);
	let got: Vec<&str> = TshirtSize::all().iter().map(|i| i.to_string()).collect();
	assert_eq!(vec!["Small", "Medium", "Large"], got);
	assert_eq!(vec![0, 1, 2, 3, 4, 5, 6], Urgency::all().iter().map(|i| i.position()).collect::<Vec<u8>>());
	assert_eq!(vec![0, 1, 2], TshirtSize::all().iter().map(|i| i.position()).collect::<Vec<u8>>());
	assert_eq!(Urgency::Soon, Urgency::default());
	assert_eq!(TshirtSize::Medium, TshirtSize::default());
}

#[test]
fn set_urgency_writes_the_target_day() {
	// 10 January 2024 is a Wednesday.
	let today = date(2024, 1, 10);
	let due = |u| {
		let mut i = Item::parse("task");
		i.set_urgency(u, today);
		i.description()
	};
	assert_eq!("task due:2024-01-09", due(Urgency::Overdue));
	assert_eq!("task due:2024-01-10", due(Urgency::Today));
	assert_eq!("task due:2024-01-12", due(Urgency::Soon));
	assert_eq!("task due:2024-01-14", due(Urgency::ThisWeek));
	assert_eq!("task due:2024-01-21", due(Urgency::NextWeek));
	assert_eq!("task due:2024-02-29", due(Urgency::NextMonth));
	assert_eq!("task due:2024-07-11", due(Urgency::Later));
	for u in Urgency::all() {
		let mut i = Item::parse("task");
		let n = i.due_day_number(u, today);
		i.set_urgency(u, today);
		assert_eq!(Date::from_day_number(n), i.due_date());
		if u != Urgency::Later {
			assert_eq!(Some(u), i.urgency(today));
		}
	}
}

#[test]
fn set_urgency_at_the_turn_of_the_year() {
	let mut i = Item::parse("task");
	i.set_urgency(Urgency::NextMonth, date(2023, 11, 30));
	assert_eq!("task due:2023-12-31", i.description());
	let mut i = Item::parse("task");
	i.set_urgency(Urgency::NextMonth, date(2023, 12, 1));
	assert_eq!("task due:2024-01-31", i.description());
	let mut i = Item::parse("task");
	i.set_urgency(Urgency::NextMonth, date(2023, 1, 31));
	assert_eq!("task due:2023-02-28", i.description());
	let mut i = Item::parse("task");
	i.set_urgency(Urgency::Overdue, date(2024, 1, 1));
	assert_eq!("task due:2023-12-31", i.description());
}

#[test]
fn set_urgency_puts_the_new_date_for_the_old() {
	let today = date(2024, 1, 10);
	let mut i = Item::parse("(A) 2024-01-01 task due:2023-05-05 +tag");
	i.set_urgency(Urgency::Today, today);
	assert_eq!("task due:2024-01-10 +tag", i.description());
	assert_eq!("(A) 2024-01-01 task due:2024-01-10 +tag", i.to_string());

	let mut i = Item::parse("due:someday task");
	i.set_urgency(Urgency::Today, today);
	assert_eq!("due:2024-01-10 task", i.description());

	// The last pair with the key is the one that is read, and the one that is put anew.
	let mut i = Item::parse("due:a overdue:b due:b xdue:b");
	i.set_urgency(Urgency::Today, today);
	assert_eq!("due:a overdue:b due:2024-01-10 xdue:b", i.description());
	assert_eq!(Some(today), i.due_date());

	// The text of the token may stand elsewhere; only the pair is touched.
	let mut i = Item::parse("a:due:due:d");
	i.set_urgency(Urgency::Today, date(2024, 1, 1));
	assert_eq!("a:due:due:2024-01-01", i.description());
	assert_eq!(Some(date(2024, 1, 1)), i.due_date());
	assert_eq!(Some(Urgency::Today), i.urgency(date(2024, 1, 1)));

	let mut i = Item::parse("x:due:due:d due:d:due");
	i.set_urgency(Urgency::Today, today);
	assert_eq!("x:due:due:d due:2024-01-10:due", i.description());
	assert_eq!(Some(today), i.due_date());

	let mut i = Item::parse("");
	i.set_urgency(Urgency::Today, today);
	assert_eq!(" due:2024-01-10", i.description());
}

#[test]
fn but_done_marks_and_dates() {
	let today = date(2024, 1, 10);
	let i = Item::parse("(A) 2020-02-02 foo");
	let d = i.but_done(false, today);
	assert_eq!("x (A) 2020-02-02 foo", d.to_string());
	let d = i.but_done(true, today);
	assert_eq!("x (A) 2024-01-10 2020-02-02 foo", d.to_string());
	assert_eq!("(A) 2020-02-02 foo", i.to_string());

	let i = Item::parse("foo");
	let d = i.but_done(true, today);
	assert_eq!("x 2024-01-10 2024-01-10 foo", d.to_string());
	assert_eq!(Some(today), d.creation_date());
	let d = i.but_done(false, today);
	assert_eq!("x foo", d.to_string());
	assert_eq!(None, d.completion_date());

	let i = Item::parse("x 2021-01-01 2020-02-02 foo");
	let d = i.but_done(false, today);
	assert_eq!("x 2021-01-01 2020-02-02 foo", d.to_string());
	let d = i.but_done(true, today);
	assert_eq!("x 2024-01-10 2020-02-02 foo", d.to_string());
}

#[test]
fn but_pull_moves_due_and_start() {
	let today = date(2024, 1, 10);
	let i = Item::parse("(B) foo start:2024-03-03 due:2024-04-04");
	let p = i.but_pull(Urgency::Today, today);
	assert_eq!("(B) foo start:2024-01-10 due:2024-01-10", p.to_string());
	assert_eq!("(B) foo start:2024-03-03 due:2024-04-04", i.to_string());

	let p = Item::parse("foo").but_pull(Urgency::Soon, today);
	assert_eq!("foo due:2024-01-12", p.to_string());

	// The start date that is read is the one that is moved: the last pair
	// with the key `start`, and no other pair.
	let p = Item::parse("restart:soon start:later start: x").but_pull(Urgency::Today, today);
	assert_eq!("restart:soon start:2024-01-10 start: x due:2024-01-10", p.description());
	assert_eq!(Some(today), p.start_date());
	let p = Item::parse("restart:x start:2020-01-01").but_pull(Urgency::Today, today);
	assert_eq!("restart:x start:2024-01-10 due:2024-01-10", p.description());
	let p = Item::parse("start:2030-01-01 start:2031-01-01").but_pull(Urgency::Today, today);
	assert_eq!("start:2030-01-01 start:2024-01-10 due:2024-01-10", p.description());
	assert!(p.is_startable(today));

	let p = Item::parse("start: start:: start").but_pull(Urgency::Today, today);
	assert_eq!("start: start:: start due:2024-01-10", p.description());
}

#[test]
fn natural_date_text_asks_for_what_is_not_strict() {
	let i = Item::parse("foo due:next_friday start:2024-01-01");
	assert_eq!(Some(s("next friday")), i.natural_date_text(DateSlot::Due));
	assert_eq!(None, i.natural_date_text(DateSlot::Start));
	let i = Item::parse("foo");
	assert_eq!(None, i.natural_date_text(DateSlot::Due));
	assert_eq!(None, i.natural_date_text(DateSlot::Start));
	let i = Item::parse("start:to_mor_row");
	assert_eq!(Some(s("to mor row")), i.natural_date_text(DateSlot::Start));
	assert_eq!("due", DateSlot::Due.name());
	assert_eq!("start", DateSlot::Start.name());
}

fn messages(notes: &Vec<Advisory>) -> Vec<String> {
	notes.iter().map(|n| n.message()).collect()
}

const NO_PRIORITY: &str = "Hint: a task can be given an importance be prefixing it with a parenthesized capital letter, like `(A)`.";
const NO_DUE: &str = "Hint: a task can be given a due date by including `due:YYYY-MM-DD`.";
const NO_SIZE: &str = "Hint: a task can be given a size by including `@S`, `@M`, or `@L`.";
const LONG: &str = "Hint: long descriptions can make a task list slower to skim read.";
const SHORT: &str = "Hint: short descriptions can make it hard to remember what a task means!";

#[test]
fn fixup_remarks_on_what_is_missing() {
	let (new, notes) = Item::parse("foo").fixup(true, None, None);
	assert_eq!("foo", new.to_string());
	assert_eq!(vec![NO_PRIORITY, NO_DUE, NO_SIZE, SHORT], messages(&notes));

	let line = "(A) write the report for the committee @M due:2024-01-01";
	let (new, notes) = Item::parse(line).fixup(true, None, None);
	assert_eq!(line, new.to_string());
	assert!(notes.is_empty());

	let (_, notes) = Item::parse(line).fixup(true, Some(date(2030, 1, 1)), Some(date(2030, 1, 1)));
	assert!(notes.is_empty());

	let (_, notes) = Item::parse("foo").fixup(false, None, None);
	assert!(notes.is_empty());
}

#[test]
fn fixup_counts_the_characters_of_the_description() {
	let at = |n: usize| {
		let line = format!("(A) @S due:2024-01-01 {}", "a".repeat(n - 18));
		let (_, notes) = Item::parse(&line).fixup(true, None, None);
		messages(&notes)
	};
	assert_eq!(vec![SHORT], at(29));
	assert!(at(30).is_empty());
	assert!(at(120).is_empty());
	assert_eq!(vec![LONG], at(121));

	// Characters are counted, not bytes.
	let line = format!("(A) @S due:2024-01-01 {}", "\u{e9}".repeat(102));
	let (_, notes) = Item::parse(&line).fixup(true, None, None);
	assert!(notes.is_empty());
}

#[test]
fn fixup_writes_the_dates_that_were_read() {
	let i = Item::parse("(A) foo due:next_week start:tomorrow @S pad pad pad pad");
	let (new, notes) = i.fixup(true, Some(date(2024, 1, 17)), Some(date(2024, 1, 11)));
	assert_eq!("foo due:2024-01-17 start:2024-01-11 @S pad pad pad pad", new.description());
	assert_eq!(
		vec![
			"Notice: due date `next_week` changed to `2024-01-17`.",
			"Notice: start date `tomorrow` changed to `2024-01-11`.",
		],
		messages(&notes)
	);
	assert_eq!("foo due:next_week start:tomorrow @S pad pad pad pad", i.description());

	let (new, notes) = i.fixup(true, None, Some(date(2024, 1, 11)));
	assert_eq!("foo due:next_week start:2024-01-11 @S pad pad pad pad", new.description());
	assert_eq!(
		vec![
			"Notice: due date `next_week` should be in YYYY-MM-DD format.",
			"Notice: start date `tomorrow` changed to `2024-01-11`.",
		],
		messages(&notes)
	);

	let (new, notes) = i.fixup(false, Some(date(2024, 1, 17)), None);
	assert_eq!("foo due:2024-01-17 start:tomorrow @S pad pad pad pad", new.description());
	assert!(notes.is_empty());
}

#[test]
fn fixup_date_repairs_one_date() {
	let i = Item::parse("foo due:xy overdue:x due:x start:2024-01-01");
	let (new, notes) = i.fixup_date(DateSlot::Due, Some(date(2024, 1, 17)));
	assert_eq!("foo due:xy overdue:x due:2024-01-17 start:2024-01-01", new.description());
	assert_eq!(Some(date(2024, 1, 17)), new.due_date());
	assert_eq!(vec!["Notice: due date `x` changed to `2024-01-17`."], messages(&notes));
	let (new, _) = Item::parse("a:due:due:d").fixup_date(DateSlot::Due, Some(date(2024, 1, 1)));
	assert_eq!("a:due:due:2024-01-01", new.description());
	assert_eq!(Some(date(2024, 1, 1)), new.due_date());
	let (new, notes) = i.fixup_date(DateSlot::Start, Some(date(2024, 1, 17)));
	assert_eq!(i.description(), new.description());
	assert!(notes.is_empty());
	let (_, notes) = Item::parse("foo").fixup_date(DateSlot::Start, None);
	assert!(notes.is_empty());
	let (_, notes) = Item::parse("foo").fixup_date(DateSlot::Due, None);
	assert_eq!(vec![NO_DUE], messages(&notes));
	let (_, notes) = Item::parse("foo @S").fixup(true, None, None);
	assert_eq!(vec![NO_PRIORITY, NO_DUE, SHORT], messages(&notes));
	let (_, notes) = Item::parse("(A) foo").fixup(true, None, None);
	assert_eq!(vec![NO_DUE, NO_SIZE, SHORT], messages(&notes));
}

#[test]
fn try_set_urgency_tests_the_reach_of_the_calendar() {
	let mut i = Item::parse("report @work");
	assert!(i.try_set_urgency(Urgency::Later, date(2024, 1, 10)));
	assert_eq!("report @work due:2024-07-11", i.description());
	assert!(!i.try_set_urgency(Urgency::Later, date(9999, 12, 31)));
	assert_eq!("report @work due:2024-07-11", i.description());
	assert!(i.try_set_urgency(Urgency::Today, date(9999, 12, 31)));
	assert_eq!("report @work due:9999-12-31", i.description());
	let mut i = Item::parse("first of all");
	assert!(!i.try_set_urgency(Urgency::Overdue, date(0, 1, 1)));
	assert_eq!("first of all", i.description());
	assert!(i.try_set_urgency(Urgency::Soon, date(0, 1, 1)));
	assert_eq!("first of all due:0000-01-03", i.description());
}

#[test]
fn try_zen_and_try_but_pull_test_the_reach_of_the_calendar() {
	let late = Item::parse("late due:9999-12-01");
	assert!(late.try_zen(date(9999, 12, 31)).is_none());
	let calm = late.try_zen(date(9999, 12, 20));
	assert!(calm.is_none());
	let calm = late.try_zen(date(9999, 10, 20)).unwrap();
	assert_eq!("late due:9999-12-01", calm.description());
	let calm = Item::parse("late due:2024-01-01").try_zen(date(2024, 1, 10)).unwrap();
	assert_eq!("late due:2024-02-29", calm.description());
	let fine = Item::parse("fine due:9999-12-31");
	assert_eq!("fine due:9999-12-31", fine.try_zen(date(9999, 12, 31)).unwrap().description());

	let i = Item::parse("foo start:2030-01-01");
	assert!(i.try_but_pull(Urgency::Later, date(9999, 12, 31)).is_none());
	let p = i.try_but_pull(Urgency::Today, date(9999, 12, 31)).unwrap();
	assert_eq!("foo start:9999-12-31 due:9999-12-31", p.description());
}
