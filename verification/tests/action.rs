use chrono::{Datelike, Duration, NaiveDate, Utc};
use date_time_parser::DateParser;
use tada::action::add::{draft_item, process_line, process_line_read, AddActionConfig};
use tada::action::archive::run_archive_vec;
use tada::action::done::{check_if_complete, mark_items_done_in_list};
use tada::action::find::find_results;
use tada::action::pull::{check_if_pull, pull_items_forward_in_list};
use tada::action::remove::{check_if_delete, remove_items_from_list};
use tada::action::show::{show_list, Grouping};
use tada::action::{find, quick, show, tidy, urgent};
use tada::action::{ConfirmationStatus, Outputter, SearchTerms, SortOrder};
use tada::date::Date;
use tada::item::fixup::DateSlot;
use tada::item::{Item, Urgency};
use tada::list::{Line, LineKind, List};

fn from_chrono(d: NaiveDate) -> Date {
	Date::from_ymd_opt(d.year(), d.month(), d.day()).unwrap()
}

fn today() -> Date {
	from_chrono(Utc::now().date_naive())
}

fn read_date(text: Option<String>) -> Option<Date> {
	text.and_then(|t| DateParser::parse(&t)).map(from_chrono)
}

#[test]
fn find_test_default_sort_order() {
	assert_eq!("smart", find::default_sort_order());
}

#[test]
fn quick_test_default_sort_order() {
	assert_eq!(SortOrder::TshirtSize, quick::default_sort_order());
}

#[test]
fn show_test_default_sort_order() {
	assert_eq!(SortOrder::Smart, show::default_sort_order());
}

#[test]
fn tidy_test_default_sort_order() {
	assert_eq!(SortOrder::Original, tidy::default_sort_order());
}

#[test]
fn urgent_test_default_sort_order() {
	assert_eq!(SortOrder::Urgency, urgent::default_sort_order());
}

#[test]
fn test_add_action_config() {
	let cfg = AddActionConfig::new();
	assert_eq!(false, cfg.no_date);
	assert_eq!(false, cfg.no_fixup);
	assert_eq!(None, cfg.urgency);
	assert_eq!(false, cfg.quiet);

	let cfg = AddActionConfig::default();
	assert_eq!(false, cfg.no_date);
	assert_eq!(false, cfg.no_fixup);
	assert_eq!(None, cfg.urgency);
	assert_eq!(false, cfg.quiet);
}

#[test]
pub fn test_process_line() {
	let cfg = AddActionConfig {
		no_date: true,
		no_fixup: true,
		urgency: None,
		quiet: true,
		outputter: Outputter::default(),
	};
	let (line, _) =
		process_line(&String::from("ABC start:today"), &cfg, today(), None, None);
	assert_eq!(LineKind::Item, line.kind);
	let item = line.item.unwrap();
	assert_eq!("ABC start:today", item.description());
	assert_eq!(None, item.creation_date());
	assert_eq!("today", item.kv().get("start").unwrap());

	let cfg = AddActionConfig {
		no_date: false,
		no_fixup: false,
		urgency: Some(Urgency::Today),
		quiet: true,
		outputter: Outputter::default(),
	};
	let input = String::from("ABC start:today");
	let (line, _) = process_line_read(&input, &cfg, today(), |text| read_date(Some(text)));
	assert_eq!(LineKind::Item, line.kind);
	let item = line.item.unwrap();
	assert!(item.creation_date().is_some());
	assert_eq!(item.creation_date(), item.start_date());
	assert_eq!(item.creation_date(), item.due_date());
	assert_ne!("today", item.kv().get("start").unwrap());

	// The same, one step at a time.
	let draft = draft_item(&input, &cfg, today());
	let due_reading = read_date(draft.natural_date_text(DateSlot::Due));
	let after_due = draft.fixup_date(DateSlot::Due, due_reading).0;
	let start_reading = read_date(after_due.natural_date_text(DateSlot::Start));
	let (again, _) = process_line(&input, &cfg, today(), due_reading, start_reading);
	assert_eq!(line.text, again.text);
}

#[test]
fn fixup_read_asks_the_reader_in_turn() {
	let asked = std::cell::RefCell::new(Vec::new());
	let read = |text: String| {
		asked.borrow_mut().push(text.clone());
		if text == "next week" {
			Date::from_ymd_opt(2024, 1, 17)
		} else {
			None
		}
	};
	let i = Item::parse("(A) foo start:some_day due:next_week @S and a few words more");
	let (new, notes) = i.fixup_read(true, read);
	assert_eq!(vec!["next week", "some day"], *asked.borrow());
	assert_eq!("foo start:some_day due:2024-01-17 @S and a few words more", new.description());
	let said: Vec<String> = notes.iter().map(|n| n.message()).collect();
	assert_eq!(
		vec![
			"Notice: due date `next_week` changed to `2024-01-17`.",
			"Notice: start date `some_day` should be in YYYY-MM-DD format.",
		],
		said
	);
	let (same, notes) = Item::parse("(A) foo due:2024-01-01 @S and a few words more to say")
		.fixup_read(true, |_| Date::from_ymd_opt(1999, 1, 1));
	assert_eq!("foo due:2024-01-01 @S and a few words more to say", same.description());
	assert!(notes.is_empty());
}

fn _eq_vecline(vl1: Vec<Line>, vl2: Vec<Line>) -> bool {
	let mut l1 = List::new();
	l1.lines = vl1;
	let mut l2 = List::new();
	l2.lines = vl2;
	l1.serialize() == l2.serialize()
}

#[test]
pub fn test_run_archive_vec() {
	let source: Vec<Line> = Vec::from([
		Line::from_string(String::from("x Foo1"), 0),
		Line::from_string(String::from("x Foo2"), 0),
		Line::from_string(String::from(""), 0),
		Line::from_string(String::from("# Bar"), 0),
		Line::from_string(String::from(""), 0),
		Line::from_string(String::from("Z Baz"), 0),
	]);

	let expected_moved = 2;
	let expected_keep = Vec::from([
		Line::from_string(String::from(""), 0),
		Line::from_string(String::from(""), 0),
		Line::from_string(String::from(""), 0),
		Line::from_string(String::from("# Bar"), 0),
		Line::from_string(String::from(""), 0),
		Line::from_string(String::from("Z Baz"), 0),
	]);
	let expected_archive: Vec<Line> = Vec::from([
		Line::from_string(String::from("x Foo1"), 0),
		Line::from_string(String::from("x Foo2"), 0),
	]);

	let mut keep: Vec<Line> = Vec::new();
	let mut archive: Vec<Line> = Vec::new();
	let moved = run_archive_vec(&source, &mut keep, &mut archive);
	assert_eq!(expected_moved, moved);
	assert!(_eq_vecline(expected_keep, keep));
	assert!(_eq_vecline(expected_archive, archive));
}

#[test]
fn test_check_if_complete() {
	let mut i = Item::new();
	i.set_description(String::from("XYZ"));

	let mut o = Outputter::new(9999);
	o.colour = false;
	let r = check_if_complete(&i, &mut o, ConfirmationStatus::Yes, true, today());
	assert_eq!(true, r);
	let got_output = o.take_output();
	assert_eq!(String::from("  (?) XYZ\nMarking finished\n\n"), got_output);

	let mut o = Outputter::new(9999);
	o.colour = false;
	let r = check_if_complete(&i, &mut o, ConfirmationStatus::No, true, today());
	assert_eq!(false, r);
	let got_output = o.take_output();
	assert_eq!(String::from("  (?) XYZ\nSkipping\n\n"), got_output);
}

#[test]
fn test_mark_items_done_in_list() {
	let lines: Vec<Line> = Vec::from([
		Line::from_string(String::from("x 2000-01-01 Foo"), 0),
		Line::from_string(String::from("2000-01-02 Foo"), 0),
		Line::from_string(String::from("# Foo"), 0),
		Line::from_string(String::from("Bar"), 0),
	]);
	let mut o = Outputter::new(9999);
	o.colour = false;

	let mut initial_list = List::new();
	initial_list.lines = lines.clone();
	let (count, got) = mark_items_done_in_list(
		initial_list,
		SearchTerms {
			terms: vec![String::from("foo")],
		},
		&mut o,
		ConfirmationStatus::Yes,
		false,
		today(),
		&Vec::new(),
	);

	assert_eq!(1, count);
	assert_eq!(
		"x 2000-01-01 Foo\n\
		x 2000-01-02 Foo\n\
		# Foo\n\
		Bar\n",
		got.serialize()
	);

	let mut initial_list = List::new();
	initial_list.lines = lines.clone();
	let (count, got) = mark_items_done_in_list(
		initial_list,
		SearchTerms {
			terms: vec![String::from("foo")],
		},
		&mut o,
		ConfirmationStatus::Yes,
		true,
		today(),
		&Vec::new(),
	);

	assert_eq!(1, count);
	assert_eq!(
		format!(
			"x 2000-01-01 Foo\n\
			x {} 2000-01-02 Foo\n\
			# Foo\n\
			Bar\n",
			Utc::now().date_naive().format("%Y-%m-%d")
		),
		got.serialize()
	);
}

#[test]
fn test_find_results() {
	let list = List::from_string(
		"Foo\n\
		Foo bar\n\
		Bar\n\
		#Foo\n\
		+foo\n\
		(A) @foo\n\
		"
		.to_string(),
	)
	.unwrap();

	let t = SearchTerms::from_string("Foo");
	assert_eq!(
		"Foo\n\
		Foo bar\n\
		+foo\n\
		(A) @foo\n\
		",
		List::from_items(find_results(&t, &list)).serialize(),
	);

	let t = SearchTerms::from_string("@Foo");
	assert_eq!(
		"(A) @foo\n\
		",
		List::from_items(find_results(&t, &list)).serialize(),
	);

	let t = SearchTerms::from_string("+Foo");
	assert_eq!(
		"+foo\n\
		",
		List::from_items(find_results(&t, &list)).serialize(),
	);

	let t = SearchTerms::from_string("BAR");
	assert_eq!(
		"Foo bar\n\
		Bar\n\
		",
		List::from_items(find_results(&t, &list)).serialize(),
	);

	let t = SearchTerms::from_vec(Vec::from([
		String::from("BAR"),
		String::from("fOO"),
	]));
	assert_eq!(
		"Foo bar\n\
		",
		List::from_items(find_results(&t, &list)).serialize(),
	);

	let t = SearchTerms::from_string("baz");
	assert_eq!("", List::from_items(find_results(&t, &list)).serialize());
}

#[test]
fn test_check_if_pull() {
	let mut i = Item::new();
	i.set_description(String::from("XYZ"));

	let mut o = Outputter::new(9999);
	o.colour = false;
	let r = check_if_pull(&i, &mut o, ConfirmationStatus::Yes, true, today());
	assert_eq!(true, r);
	let got_output = o.take_output();
	assert_eq!(String::from("  (?) XYZ\nRescheduling\n\n"), got_output);

	let mut o = Outputter::new(9999);
	o.colour = false;
	let r = check_if_pull(&i, &mut o, ConfirmationStatus::No, true, today());
	assert_eq!(false, r);
	let got_output = o.take_output();
	assert_eq!(String::from("  (?) XYZ\nSkipping\n\n"), got_output);
}

#[test]
fn test_pull_items_forward_in_list() {
	let source_list = List {
		lines: Vec::from([
			Line::from_string(String::from("Foo1 start:3999-01-01"), 0),
			Line::from_string(String::from("Foo2 due:3999-01-01"), 0),
			Line::from_string(String::from(""), 0),
			Line::from_string(String::from("Bar"), 0),
		]),
		path: None,
	};

	let (got, count) = pull_items_forward_in_list(
		source_list,
		SearchTerms {
			terms: Vec::from([String::from("foo")]),
		},
		Urgency::Soon,
		ConfirmationStatus::Yes,
		&mut Outputter::new(1000),
		today(),
		&Vec::new(),
	);
	assert_eq!(2, count);

	let got_items = got.items();

	let item = got_items.get(0).unwrap();
	assert_eq!(Some(today()), item.start_date());
	assert_eq!(
		Some(from_chrono(Utc::now().date_naive() + Duration::days(2))),
		item.due_date()
	);

	let item = got_items.get(1).unwrap();
	assert_eq!(None, item.start_date());
	assert_eq!(
		Some(from_chrono(Utc::now().date_naive() + Duration::days(2))),
		item.due_date()
	);

	let item = got_items.get(2).unwrap();
	assert_eq!(None, item.start_date());
	assert_eq!(None, item.due_date());
}

#[test]
fn test_check_if_delete() {
	let mut i = Item::new();
	i.set_description(String::from("XYZ"));

	let mut o = Outputter::new(9999);
	o.colour = false;
	let r = check_if_delete(&i, &mut o, ConfirmationStatus::Yes, true, today());
	assert_eq!(true, r);
	let got_output = o.take_output();
	assert_eq!(String::from("  (?) XYZ\nRemoving\n\n"), got_output);

	let mut o = Outputter::new(9999);
	o.colour = false;
	let r = check_if_delete(&i, &mut o, ConfirmationStatus::No, true, today());
	assert_eq!(false, r);
	let got_output = o.take_output();
	assert_eq!(String::from("  (?) XYZ\nKeeping\n\n"), got_output);
}

#[test]
fn test_remove_items_from_list() {
	let source_list = List {
		lines: Vec::from([
			Line::from_string(String::from("Foo1"), 0),
			Line::from_string(String::from("x Foo2"), 0),
			Line::from_string(String::from(""), 0),
			Line::from_string(String::from("Bar"), 0),
		]),
		path: None,
	};

	let (got, count) = remove_items_from_list(
		source_list,
		SearchTerms {
			terms: Vec::from([String::from("foo")]),
		},
		ConfirmationStatus::Yes,
		&mut Outputter::new(1000),
		today(),
		&Vec::new(),
	);
	assert_eq!(2, count);

	assert_eq!(LineKind::Blank, got.lines[0].kind);
	assert_eq!(LineKind::Blank, got.lines[1].kind);
	assert_eq!(LineKind::Blank, got.lines[2].kind);
	assert_eq!(LineKind::Item, got.lines[3].kind);
}

#[test]
fn test_show_list() {
	let source_list = List {
		lines: Vec::from([
			Line::from_string(String::from("(A) 2000-01-01 Foo"), 1),
			Line::from_string(String::from("(B) Bar"), 2),
			Line::from_string(String::from("(D) Baz"), 3),
			Line::from_string(String::from("Bat"), 4),
		]),
		path: None,
	};

	let mut o = Outputter::new(9999);
	o.colour = false;
	show_list(
		&source_list,
		&Grouping::Ungrouped,
		&SortOrder::Original,
		&mut o,
		today(),
	);
	let got_output = o.take_output();
	assert_eq!(
		String::from(
			"  \
		(A) Foo\n  \
		(B) Bar\n  \
		(D) Baz\n  \
		(?) Bat\n"
		),
		got_output
	);

	let mut o = Outputter::new(9999);
	o.colour = false;
	show_list(
		&source_list,
		&Grouping::Ungrouped,
		&SortOrder::Alphabetical,
		&mut o,
		today(),
	);
	let got_output = o.take_output();
	assert_eq!(
		String::from(
			"  \
		(B) Bar\n  \
		(?) Bat\n  \
		(D) Baz\n  \
		(A) Foo\n"
		),
		got_output
	);

	let mut o = Outputter::new(9999);
	o.colour = false;
	show_list(
		&source_list,
		&Grouping::Importance,
		&SortOrder::Alphabetical,
		&mut o,
		today(),
	);
	let got_output = o.take_output();
	assert_eq!(
		String::from(
			"\
		# Critical\n  \
		(A) Foo\n\n\
		# Important\n  \
		(B) Bar\n\n\
		# Normal\n  \
		(?) Bat\n  \
		(D) Baz\n\n"
		),
		got_output
	);

	let mut o = Outputter::new(9999);
	o.colour = false;
	o.with_creation_date = true;
	o.with_completion_date = true;
	o.with_line_numbers = true;
	show_list(
		&source_list,
		&Grouping::Importance,
		&SortOrder::Original,
		&mut o,
		today(),
	);
	let got_output = o.take_output();
	assert_eq!(
		String::from(
			"\
		# Critical\n  \
		(A)            2000-01-01 #01 Foo\n\n\
		# Important\n  \
		(B)            ????-??-?? #02 Bar\n\n\
		# Normal\n  \
		(D)            ????-??-?? #03 Baz\n  \
		(?)            ????-??-?? #04 Bat\n\n"
		),
		got_output
	);

	let mut o = Outputter::new(9999);
	o.colour = false;
	o.with_creation_date = true;
	o.with_completion_date = true;
	o.with_line_numbers = true;
	o.line_number_digits = 4;
	show_list(
		&source_list,
		&Grouping::Importance,
		&SortOrder::Original,
		&mut o,
		today(),
	);
	let got_output = o.take_output();
	assert_eq!(
		String::from(
			"\
		# Critical\n  \
		(A)            2000-01-01 #0001 Foo\n\n\
		# Important\n  \
		(B)            ????-??-?? #0002 Bar\n\n\
		# Normal\n  \
		(D)            ????-??-?? #0003 Baz\n  \
		(?)            ????-??-?? #0004 Bat\n\n"
		),
		got_output
	);
}
