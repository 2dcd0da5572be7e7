use tada::action::{
	execute_simple_list_action, maybe_housekeeping_warnings, term_fits, ConfirmationStatus,
	FileType, OutputCount, Outputter, SearchTerms, SortOrder,
};
use tada::action::change::{apply_change, take_step, Change};
use tada::action::find::find_items_by_term;
use tada::action::zen::{calm_list, quotes, zen_quote};
use tada::date::Date;
use tada::item::{Importance, Item, TshirtSize, Urgency};
use tada::list::{Line, LineKind, List};
use tada::sorting::{key_is_before, stable_order, text_is_before, SortKey};
use tada::util::{
	find_items_by_context, find_items_by_line_number, find_items_by_string, find_items_by_tag,
	find_open_items, group_items_by_importance, group_items_by_size, group_items_by_urgency,
	sort_items_by,
};

fn date(y: i32, m: u32, d: u32) -> Date {
	Date::from_ymd_opt(y, m, d).unwrap()
}

fn s(text: &str) -> String {
	String::from(text)
}

fn descriptions(items: &Vec<&Item>) -> Vec<String> {
	items.iter().map(|i| i.description()).collect()
}

fn texts(list: &List) -> Vec<String> {
	list.lines.iter().map(|l| l.text.clone()).collect()
}

#[test]
fn lines_are_blank_comment_or_task() {
	assert_eq!(LineKind::Blank, Line::from_string(s(""), 1).kind);
	assert_eq!(LineKind::Blank, Line::from_string(s("  \t\u{a0} "), 1).kind);
	assert_eq!(LineKind::Comment, Line::from_string(s("# Comment"), 1).kind);
	assert_eq!(LineKind::Comment, Line::from_string(s("   #"), 1).kind);
	assert_eq!(LineKind::Item, Line::from_string(s("x (A) 2000-01-01 Foo bar @baz"), 1).kind);
	assert_eq!(LineKind::Item, Line::from_string(s("a # b"), 1).kind);
	assert_eq!(LineKind::Blank, Line::new_blank().kind);
	assert_eq!(LineKind::Blank, Line::default().kind);
	assert_eq!("", Line::new_blank().text);
	assert!(Line::new_blank().item.is_none());
	assert_eq!(0, Line::new_blank().num);
}

#[test]
fn a_task_line_holds_its_task() {
	let line = Line::from_string(s("x (A) 2000-01-01 Foo bar @baz"), 5);
	assert_eq!("x (A) 2000-01-01 Foo bar @baz", line.text);
	assert_eq!(5, line.num);
	let item = line.item.as_ref().unwrap();
	assert_eq!('A', item.priority());
	assert_eq!(5, item.line_number());
	assert!(item.creation_date().is_some());
	assert!(Line::from_string(s("# x"), 5).item.is_none());
	assert!(Line::from_string(s(" "), 5).item.is_none());
	assert_eq!(" ", Line::from_string(s(" "), 5).text);

	let line = Line::from_item(Item::parse("(B)   foo  "));
	assert_eq!(LineKind::Item, line.kind);
	assert_eq!("(B) foo", line.text);
	assert_eq!(0, line.num);
	assert_eq!("foo", line.clone().item.unwrap().description());
}

#[test]
fn lines_but_done_and_but_pull() {
	let today = date(2024, 1, 10);
	let line = Line::from_string(s("(A) foo start:2025-01-01"), 3);
	let done = line.but_done(true, today);
	assert_eq!("x (A) 2024-01-10 2024-01-10 foo start:2025-01-01", done.text);
	assert_eq!(0, done.num);
	assert_eq!(3, done.item.unwrap().line_number());
	let pulled = line.but_pull(Urgency::Today, today);
	assert_eq!("(A) foo start:2024-01-10 due:2024-01-10", pulled.text);
	let comment = Line::from_string(s("# foo"), 3);
	assert_eq!("# foo", comment.but_done(true, today).text);
	assert_eq!(3, comment.but_done(true, today).num);
	assert_eq!("# foo", comment.but_pull(Urgency::Today, today).text);
}

#[test]
fn from_string_splits_at_line_feeds() {
	let list = List::from_string(s("# Comment\nx (A) 2000-01-01 Foo bar @baz\n  \n")).unwrap();
	assert_eq!(3, list.lines.len());
	assert!(list.path.is_none());
	assert_eq!(LineKind::Comment, list.lines[0].kind);
	assert_eq!("# Comment", list.lines[0].text);
	assert_eq!(LineKind::Item, list.lines[1].kind);
	assert_eq!('A', list.lines[1].item.as_ref().unwrap().priority());
	assert_eq!(LineKind::Blank, list.lines[2].kind);
	assert_eq!(vec![1, 2, 3], list.lines.iter().map(|l| l.num).collect::<Vec<usize>>());
	let items = list.items();
	assert_eq!(1, items.len());
	assert_eq!('A', items[0].priority());
	assert_eq!(2, items[0].line_number());
	assert!(items[0].creation_date().is_some());
}

#[test]
fn from_string_is_what_lines_gives() {
	for text in [
		"",
		"\n",
		"\n\n",
		"a",
		"a\n",
		"a\nb",
		"a\r\nb\r\n",
		"a\rb\n",
		"a\r",
		"a\r\n\r\n",
		"\r\n",
		"\r",
		"a\n\nb\n\n",
		"a\r\r\nb",
	] {
		let list = List::from_string(s(text)).unwrap();
		let want: Vec<String> = text.lines().map(String::from).collect();
		assert_eq!(want, texts(&list), "{:?}", text);
	}
}

#[test]
fn serialize_ends_each_line() {
	assert_eq!("", List::new().serialize());
	assert_eq!("", List::default().serialize());
	let list = List::from_string(s("a\n\n# c\r\nx d")).unwrap();
	assert_eq!("a\n\n# c\nx d\n", list.serialize());
	let again = List::from_string(list.serialize()).unwrap();
	assert_eq!(texts(&list), texts(&again));
}

#[test]
fn counts_of_lines() {
	let list = List::from_string(s("a\n\n# c\nx d\nx e\n  \nf +g")).unwrap();
	assert_eq!(4, list.count_items());
	assert_eq!(3, list.count_blank());
	assert_eq!(2, list.count_completed());
	assert_eq!(0, List::new().count_items());
	assert_eq!(0, List::new().count_blank());
	assert_eq!(0, List::new().count_completed());
	assert_eq!(vec!["a", "d", "e", "f +g"], descriptions(&list.items()));
}

#[test]
fn from_items_writes_each_task() {
	let a = Item::parse("x  (A)  foo");
	let b = Item::parse("bar");
	let list = List::from_items(vec![&a, &b, &a]);
	assert_eq!("x (A) foo\nbar\nx (A) foo\n", list.serialize());
	assert_eq!(3, list.count_items());
	assert_eq!(0, list.lines[1].num);
	assert!(list.path.is_none());
}

#[test]
fn but_tidy_keeps_the_tasks_alone() {
	let today = date(2024, 1, 10);
	let list = List::from_string(s("(B) b\n\n# c\n(A) a\n(B) c\n  \nd")).unwrap();
	assert_eq!("(B) b\n(A) a\n(B) c\nd\n", list.but_tidy(&SortOrder::Original, today).serialize());
	assert_eq!("(A) a\n(B) b\n(B) c\nd\n", list.but_tidy(&SortOrder::Importance, today).serialize());
	assert_eq!(7, list.lines.len());
}

#[test]
fn sort_orders_by_name() {
	for (names, want) in [
		(vec!["urgency", "urgent", "urg", "URG", "Urgency"], SortOrder::Urgency),
		(vec!["importance", "import", "imp", "important", "IMPORTANT"], SortOrder::Importance),
		(vec!["tshirtsize", "size", "tshirt", "quick", "TshirtSize"], SortOrder::TshirtSize),
		(vec!["alphabetical", "alphabet", "alpha", "Alpha"], SortOrder::Alphabetical),
		(vec!["due-date", "duedate", "due", "DueDate"], SortOrder::DueDate),
		(vec!["original", "orig", "ORIG"], SortOrder::Original),
		(vec!["smart", "Smart", "SMART"], SortOrder::Smart),
	] {
		for name in names {
			assert_eq!(Ok(want), SortOrder::from_string(name), "{}", name);
		}
	}
	for name in ["", "smar", "smartx", " smart", "due_date", "t-shirt", "u", "\u{17f}mart"] {
		assert!(SortOrder::from_string(name).is_err(), "{}", name);
	}
	assert!(SortOrder::from_lowercase("Smart").is_err());
	assert_eq!(Ok(SortOrder::Smart), SortOrder::from_lowercase("smart"));
	for (order, name) in [
		(SortOrder::Urgency, "urgency"),
		(SortOrder::Importance, "importance"),
		(SortOrder::TshirtSize, "size"),
		(SortOrder::Alphabetical, "alpha"),
		(SortOrder::DueDate, "due"),
		(SortOrder::Original, "original"),
		(SortOrder::Smart, "smart"),
	] {
		assert_eq!(name, order.to_string());
		assert_eq!(Ok(order), SortOrder::from_string(order.to_string()));
	}
}

#[test]
fn sorting_is_stable() {
	let today = date(2024, 1, 10);
	let list = List::from_string(s(
		"(B) b1 due:2024-01-12 @L\n(A) a1 @S\nplain1\n(B) b2 due:2024-01-09\n(A) a2 due:2024-01-12\nPlain2 @s\n(E) e @M\n(B) B3",
	))
	.unwrap();
	let sorted = |order: SortOrder| descriptions(&order.sort_items(list.items(), today))
		.iter()
		.map(|d| d.split(' ').next().unwrap().to_string())
		.collect::<Vec<String>>();
	assert_eq!(vec!["b1", "a1", "plain1", "b2", "a2", "Plain2", "e", "B3"], sorted(SortOrder::Original));
	assert_eq!(vec!["a1", "a2", "b1", "b2", "B3", "plain1", "Plain2", "e"], sorted(SortOrder::Importance));
	assert_eq!(vec!["b2", "b1", "a1", "plain1", "a2", "Plain2", "e", "B3"], sorted(SortOrder::Urgency));
	assert_eq!(vec!["a1", "Plain2", "plain1", "b2", "a2", "e", "B3", "b1"], sorted(SortOrder::TshirtSize));
	assert_eq!(vec!["a1", "plain1", "Plain2", "e", "B3", "b2", "b1", "a2"], sorted(SortOrder::DueDate));
	assert_eq!(vec!["a1", "a2", "b1", "b2", "B3", "e", "plain1", "Plain2"], sorted(SortOrder::Alphabetical));
	assert_eq!(vec!["b2", "a1", "a2", "B3", "b1", "Plain2", "plain1", "e"], sorted(SortOrder::Smart));

	// Sorting what is sorted changes nothing.
	for order in [
		SortOrder::Urgency,
		SortOrder::Importance,
		SortOrder::TshirtSize,
		SortOrder::Alphabetical,
		SortOrder::DueDate,
		SortOrder::Original,
		SortOrder::Smart,
	] {
		let once = order.sort_items(list.items(), today);
		let twice = order.sort_items(order.sort_items(list.items(), today), today);
		assert_eq!(descriptions(&once), descriptions(&twice));
	}
	assert!(SortOrder::Smart.sort_items(Vec::new(), today).is_empty());
}

#[test]
fn stable_order_of_keys() {
	let keys: Vec<SortKey> = [3u64, 1, 2, 1, 3, 0].iter().map(|n| SortKey::Number(*n)).collect();
	assert_eq!(vec![5, 1, 3, 2, 0, 4], stable_order(&keys));
	let keys: Vec<SortKey> = ["b", "", "ab", "a", "b", "B", "\u{e9}", "abc"]
		.iter()
		.map(|t| SortKey::Text(t.chars().collect()))
		.collect();
	assert_eq!(vec![1, 5, 3, 2, 7, 0, 4, 6], stable_order(&keys));
	assert!(stable_order(&Vec::new()).is_empty());
	let keys = vec![SortKey::Text(vec!['a']), SortKey::Number(9), SortKey::Text(Vec::new())];
	assert_eq!(vec![1, 2, 0], stable_order(&keys));
	assert!(key_is_before(&SortKey::Number(1), &SortKey::Number(2)));
	assert!(!key_is_before(&SortKey::Number(2), &SortKey::Number(2)));
	assert!(!key_is_before(&SortKey::Text(Vec::new()), &SortKey::Number(2)));
}

#[test]
fn texts_in_the_order_of_the_dictionary() {
	let before = |a: &str, b: &str| text_is_before(&a.chars().collect(), &b.chars().collect());
	let mut words = vec!["", "a", "ab", "abc", "abd", "b", "B", "\u{e9}", "\u{10000}", "z", "A"];
	for a in words.iter() {
		for b in words.iter() {
			assert_eq!(a < b, before(a, b), "{:?} {:?}", a, b);
		}
	}
	words.sort();
	assert_eq!("", words[0]);
}

#[test]
fn sort_items_by_name() {
	let today = date(2024, 1, 10);
	let list = List::from_string(s("(B) b\n(A) a\nc")).unwrap();
	let (sorted, message) = sort_items_by("imp", list.items(), today);
	assert_eq!(vec!["a", "b", "c"], descriptions(&sorted));
	assert_eq!(None, message);
	let (sorted, message) = sort_items_by("no such order", list.items(), today);
	assert_eq!(vec!["b", "a", "c"], descriptions(&sorted));
	assert_eq!(Some("Invalid sort order"), message);
	let (sorted, message) = sort_items_by("ALPHA", list.items(), today);
	assert_eq!(vec!["a", "b", "c"], descriptions(&sorted));
	assert_eq!(None, message);
}

#[test]
fn finding_tasks() {
	let list = List::from_string(s("Foo @Home\nfoo bar +Garden\n\nBar @home +garden\n# @home\nx baz")).unwrap();
	assert_eq!(vec!["Foo @Home", "Bar @home +garden"], descriptions(&find_items_by_context("@home", list.items())));
	assert_eq!(vec!["Foo @Home", "Bar @home +garden"], descriptions(&find_items_by_context("HOME", list.items())));
	assert_eq!(
		vec!["foo bar +Garden", "Bar @home +garden"],
		descriptions(&find_items_by_tag("+garden", list.items()))
	);
	assert_eq!(vec!["Bar @home +garden"], descriptions(&find_items_by_line_number("#4", list.items())));
	assert_eq!(vec!["baz"], descriptions(&find_items_by_line_number("#+6", list.items())));
	assert_eq!(vec!["baz"], descriptions(&find_items_by_line_number("n6", list.items())));
	assert!(find_items_by_line_number("#5", list.items()).is_empty());
	assert!(find_items_by_line_number("#0", list.items()).is_empty());
	assert_eq!(
		vec!["foo bar +Garden", "Bar @home +garden"],
		descriptions(&find_items_by_string("BAR", list.items()))
	);
	assert_eq!(4, find_items_by_string("", list.items()).len());
	assert_eq!(vec!["Foo @Home"], descriptions(&find_items_by_term("Foo @", list.items())));
	assert_eq!(vec!["baz"], descriptions(&find_items_by_term("#6", list.items())));
	assert_eq!(vec!["Foo @Home", "Bar @home +garden"], descriptions(&find_items_by_term("@home", list.items())));
	assert!(find_items_by_term("@", list.items()).is_empty());
}

#[test]
fn open_tasks_are_not_done_and_may_start() {
	let today = date(2024, 1, 10);
	let list = List::from_string(s("a\nx b\nc start:2024-01-11\nd start:2024-01-10\nx e start:2030-01-01")).unwrap();
	assert_eq!(vec!["a", "d start:2024-01-10"], descriptions(&find_open_items(list.items(), today)));
}

#[test]
fn search_terms() {
	assert!(SearchTerms::new().terms.is_empty());
	assert!(SearchTerms::default().terms.is_empty());
	assert_eq!(vec![s("a"), s("b")], SearchTerms::from_vec(vec![s("a"), s("b")]).terms);
	assert_eq!(vec![s("a b")], SearchTerms::from_string("a b").terms);
	assert_eq!(vec![s("a b")], SearchTerms::from_string("a b").clone().terms);

	let mut item = Item::parse("(A) Call Mum +Family @Phone");
	item.set_line_number(12);
	let fits = |terms: &[&str]| {
		SearchTerms::from_vec(terms.iter().map(|t| s(t)).collect()).item_matches(&item)
	};
	assert!(!fits(&[]));
	assert!(fits(&["mum"]));
	assert!(fits(&["CALL M"]));
	assert!(fits(&[""]));
	assert!(!fits(&["dad"]));
	assert!(!fits(&["(A)"]));
	assert!(fits(&["dad", "mum"]));
	assert!(fits(&["@phone"]));
	assert!(!fits(&["@family"]));
	assert!(fits(&["+family"]));
	assert!(!fits(&["+phone"]));
	assert!(fits(&["#12"]));
	assert!(fits(&["#012"]));
	assert!(!fits(&["#1"]));
	assert!(!fits(&["#13", "+x", "@y", "z"]));
	assert!(term_fits("mum", &item));
	assert!(!term_fits("#2", &item));
}

#[test]
fn search_terms_that_cannot_be_read() {
	let readable = |terms: &[&str]| {
		SearchTerms::from_vec(terms.iter().map(|t| s(t)).collect()).check_readable()
	};
	assert!(readable(&[]));
	assert!(readable(&["#1", "#+2", "#00", "a#b", "@#", "+#", "", "#18446744073709551615"]));
	assert!(!readable(&["#"]));
	assert!(!readable(&["#a"]));
	assert!(!readable(&["#1a"]));
	assert!(!readable(&["#-1"]));
	assert!(!readable(&["# 1"]));
	assert!(!readable(&["#1 "]));
	assert!(!readable(&["#++1"]));
	assert!(!readable(&["ok", "#18446744073709551616"]));
	assert!(!readable(&["#99999999999999999999999999"]));
}

#[test]
fn groups_hold_what_belongs_together() {
	let today = date(2024, 1, 10);
	let list = List::from_string(s("(B) b @L\n(A) a due:2024-01-10\nc @S\n(B) d due:2030-01-01\n(Q) e")).unwrap();
	let groups = group_items_by_importance(list.items());
	let got: Vec<(Importance, Vec<String>)> = groups.iter().map(|g| (g.0, descriptions(&g.1))).collect();
	assert_eq!(
		vec![
			(Importance::A, vec![s("a due:2024-01-10")]),
			(Importance::B, vec![s("b @L"), s("d due:2030-01-01")]),
			(Importance::D, vec![s("c @S")]),
			(Importance::E, vec![s("e")]),
		],
		got
	);
	let groups = group_items_by_size(list.items());
	let got: Vec<(TshirtSize, usize)> = groups.iter().map(|g| (g.0, g.1.len())).collect();
	assert_eq!(vec![(TshirtSize::Small, 1), (TshirtSize::Medium, 3), (TshirtSize::Large, 1)], got);
	let groups = group_items_by_urgency(list.items(), today);
	let got: Vec<(Urgency, usize)> = groups.iter().map(|g| (g.0, g.1.len())).collect();
	assert_eq!(vec![(Urgency::Today, 1), (Urgency::Soon, 3), (Urgency::Later, 1)], got);
	assert!(group_items_by_urgency(Vec::new(), today).is_empty());
	assert!(group_items_by_size(Vec::new()).is_empty());
	assert!(group_items_by_importance(Vec::new()).is_empty());
}

#[test]
fn changes_go_by_the_answers() {
	let today = date(2024, 1, 10);
	let list = || List::from_string(s("foo 1\nx foo 2\n# foo\nbar\nfoo 3\nfoo 4")).unwrap();
	let terms = SearchTerms::from_string("foo");
	let mut o = Outputter::new(80);

	let (got, count) = apply_change(
		Change::Done { include_date: false },
		list(),
		&terms,
		ConfirmationStatus::Ask,
		&vec![false, true],
		&mut o,
		today,
	);
	assert_eq!(2, count);
	assert_eq!(vec!["foo 1", "x foo 2", "# foo", "bar", "x foo 3", "x foo 4"], texts(&got));
	assert_eq!(
		"  (?) foo 1\nSkipping\n\n  (?) foo 3\nMarking finished\n\n  (?) foo 4\nMarking finished\n\n",
		o.take_output()
	);

	let (got, count) = apply_change(
		Change::Remove,
		list(),
		&terms,
		ConfirmationStatus::Ask,
		&vec![true, false, false, true, true],
		&mut o,
		today,
	);
	assert_eq!(2, count);
	assert_eq!(vec!["", "x foo 2", "# foo", "bar", "foo 3", ""], texts(&got));
	assert_eq!(
		"  (?) foo 1\nRemoving\n\nx (?) foo 2\nKeeping\n\n  (?) foo 3\nKeeping\n\n  (?) foo 4\nRemoving\n\n",
		o.take_output()
	);

	let (got, count) = apply_change(
		Change::Pull { urgency: Urgency::Today },
		list(),
		&terms,
		ConfirmationStatus::No,
		&vec![true, true],
		&mut o,
		today,
	);
	assert_eq!(0, count);
	assert_eq!(texts(&list()), texts(&got));
	assert_eq!(
		"  (?) foo 1\nSkipping\n\n  (?) foo 3\nSkipping\n\n  (?) foo 4\nSkipping\n\n",
		o.take_output()
	);
	assert_eq!("", o.take_output());

	let (got, count) = apply_change(
		Change::Pull { urgency: Urgency::Today },
		list(),
		&SearchTerms::from_string("#5"),
		ConfirmationStatus::Yes,
		&Vec::new(),
		&mut o,
		today,
	);
	assert_eq!(1, count);
	assert_eq!("foo 3 due:2024-01-10", got.lines[4].text);
}

#[test]
fn one_step_of_a_change() {
	let today = date(2024, 1, 10);
	let terms = SearchTerms::from_string("foo");
	let mut o = Outputter::new(80);
	let change = Change::Done { include_date: true };
	let line = Line::from_string(s("(A) foo"), 1);
	assert!(change.applies_to(&terms, &line));
	assert!(Change::Remove.applies_to(&terms, &line));
	assert!(!change.applies_to(&terms, &Line::from_string(s("x foo"), 1)));
	assert!(Change::Remove.applies_to(&terms, &Line::from_string(s("x foo"), 1)));
	assert!(!change.applies_to(&terms, &Line::from_string(s("# foo"), 1)));
	assert!(!change.applies_to(&terms, &Line::from_string(s("bar"), 1)));
	assert_eq!("x (A) 2024-01-10 2024-01-10 foo", change.apply(&line, today).text);
	assert_eq!(LineKind::Blank, Change::Remove.apply(&line, today).kind);
	assert_eq!("# foo", Change::Remove.apply(&Line::from_string(s("# foo"), 1), today).text);
	assert_eq!("Mark finished?", change.prompt_phrase());
	assert_eq!("Reschedule?", (Change::Pull { urgency: Urgency::Soon }).prompt_phrase());
	assert_eq!("Remove?", Change::Remove.prompt_phrase());
	assert_eq!("Marking finished", change.yes_phrase());
	assert_eq!("Keeping", Change::Remove.no_phrase());

	let (new, changed, asked) = take_step(change, &line, &terms, ConfirmationStatus::Ask, false, &mut o, today);
	assert_eq!(("(A) foo", false, true), (new.text.as_str(), changed, asked));
	let (new, changed, asked) = take_step(change, &line, &terms, ConfirmationStatus::Ask, true, &mut o, today);
	assert_eq!(("x (A) 2024-01-10 2024-01-10 foo", true, true), (new.text.as_str(), changed, asked));
	let other = Line::from_string(s("bar"), 1);
	let (new, changed, asked) = take_step(change, &other, &terms, ConfirmationStatus::Yes, true, &mut o, today);
	assert_eq!(("bar", false, false), (new.text.as_str(), changed, asked));
	assert!(ConfirmationStatus::Ask.needs_answer());
	assert!(!ConfirmationStatus::Yes.needs_answer());
	assert!(!ConfirmationStatus::No.needs_answer());
}

#[test]
fn calm_list_reschedules_what_is_overdue() {
	let today = date(2024, 1, 10);
	let list = List::from_string(s("(A)  late @S due:2024-01-01\n# due:2024-01-01\n\nx  fine due:2024-01-10\nlate due:2023-01-01")).unwrap();
	let calm = calm_list(list, today);
	assert_eq!(
		vec![
			"(A) late @S due:2024-01-12",
			"# due:2024-01-01",
			"",
			"x fine due:2024-01-10",
			"late due:2024-02-29",
		],
		texts(&calm)
	);
}

#[test]
fn zen_quote_is_one_of_the_quotes() {
	let all = quotes();
	assert_eq!(15, all.len());
	assert_eq!("The nearer a man comes to a calm mind, the closer he is to strength.", all[0]);
	assert_eq!("When you reach the top of the mountain, keep climbing.", all[14]);
	assert!(all[1].contains("tranquility\nwithin"));
	let mut seen = std::collections::HashSet::new();
	for _ in 0..400 {
		let q = zen_quote();
		assert!(all.contains(&q));
		seen.insert(q);
	}
	assert!(seen.len() > 1);
}

#[test]
fn the_first_few_of_a_list() {
	let today = date(2024, 1, 10);
	let list = List::from_string(s("(C) c\nx (A) done\n(A) a2 start:2030-01-01\n(B) b\n(A) a\n(D) d")).unwrap();
	let mut o = Outputter::new(80);
	execute_simple_list_action(
		&list,
		SortOrder::Importance,
		SortOrder::Alphabetical,
		&OutputCount::new(3),
		&mut o,
		today,
	);
	assert_eq!("  (A) a\n  (B) b\n  (C) c\n", o.take_output());
	execute_simple_list_action(
		&list,
		SortOrder::Importance,
		SortOrder::Original,
		&OutputCount::new(2),
		&mut o,
		today,
	);
	assert_eq!("  (B) b\n  (A) a\n", o.take_output());
	execute_simple_list_action(
		&list,
		SortOrder::Importance,
		SortOrder::Importance,
		&OutputCount::new(99),
		&mut o,
		today,
	);
	assert_eq!("  (A) a\n  (B) b\n  (C) c\n  (D) d\n", o.take_output());
	execute_simple_list_action(&list, SortOrder::Smart, SortOrder::Smart, &OutputCount::new(0), &mut o, today);
	assert_eq!("", o.take_output());
	assert_eq!(3, OutputCount::new(3).count);
}

#[test]
fn housekeeping_hints() {
	let mut o = Outputter::new(80);
	maybe_housekeeping_warnings(&mut o, &List::from_string(s("a\nx b\n\n# c")).unwrap());
	assert_eq!("", o.take_output());

	let finished = "x a\n".repeat(10);
	maybe_housekeeping_warnings(&mut o, &List::from_string(finished.clone()).unwrap());
	assert_eq!("\nThere are 10 finished tasks. Consider running `tada archive`.\n", o.take_output());

	let blank = "\n# c\n".repeat(6);
	maybe_housekeeping_warnings(&mut o, &List::from_string(blank.clone()).unwrap());
	assert_eq!("\nThere are 12 blank/comment lines. Consider running `tada tidy`.\n", o.take_output());

	maybe_housekeeping_warnings(&mut o, &List::from_string(finished + &blank).unwrap());
	assert_eq!(
		"\nThere are 10 finished tasks. Consider running `tada archive`.\nThere are 12 blank/comment lines. Consider running `tada tidy`.\n",
		o.take_output()
	);

	maybe_housekeeping_warnings(&mut o, &List::from_string("x a\n".repeat(9) + &"\n".repeat(9)).unwrap());
	assert_eq!("", o.take_output());
}

#[test]
fn labels_of_file_types() {
	assert_eq!("todo list", FileType::TodoTxt.label());
	assert_eq!("done list", FileType::DoneTxt.label());
}
