use chrono::{Datelike, Duration, NaiveDate, Utc};
use std::collections::HashMap;
use tada::date::Date;
use tada::item::{Importance, Item, TshirtSize, Urgency};

fn date(y: i32, m: u32, d: u32) -> Date {
	Date::from_ymd_opt(y, m, d).unwrap()
}

fn from_chrono(d: NaiveDate) -> Date {
	date(d.year(), d.month(), d.day())
}

fn today() -> Date {
	from_chrono(Utc::now().date_naive())
}

fn kv_map(i: &Item) -> HashMap<String, String> {
	let mut m = HashMap::new();
	for (k, v) in i.kv().entries() {
		m.insert(k, v);
	}
	m
}

#[test]
fn item_test_debug() {
	let mut i = Item::new();
	i.set_completion(false);
	i.set_priority('\0');
	i.clear_completion_date();
	i.clear_creation_date();
	i.set_description("foo bar baz".to_string());
	let dbug = format!("{:?}", i);
	assert!(dbug.len() > 1);
}

#[test]
fn item_test_display() {
	let mut i = Item::new();
	i.set_description("foo bar baz".to_string());

	assert_eq!("foo bar baz", i.to_string());

	let mut i = Item::new();
	i.set_completion(true);
	i.set_priority('B');
	i.set_completion_date(date(2010, 1, 1));
	i.set_creation_date(date(2000, 12, 31));
	i.set_description("foo bar baz".to_string());

	assert_eq!("x (B) 2010-01-01 2000-12-31 foo bar baz", i.to_string());
}

#[test]
fn item_test_parse() {
	// Parse a complex line
	let i = Item::parse("x (B) 2010-01-01 2000-12-31 foo bar baz");

	assert_eq!(true, i.completion());
	assert_eq!('B', i.priority());
	assert_eq!(date(2010, 1, 1), i.completion_date().unwrap());
	assert_eq!(date(2000, 12, 31), i.creation_date().unwrap());
	assert_eq!("foo bar baz".to_string(), i.description());
	assert!(i.urgency(today()).is_none());
	assert_eq!(Some(Importance::B), i.importance());
	assert_eq!(None, i.tshirt_size());
	assert_eq!(Vec::<String>::new(), i.tags());
	assert_eq!(Vec::<String>::new(), i.contexts());
	assert_eq!(HashMap::<String, String>::new(), kv_map(&i));

	// Parse a misleading line
	let i = Item::parse("2010-01-01 (A) foo bar baz");

	assert!(!i.completion());
	assert_eq!('\0', i.priority());
	assert!(i.completion_date().is_none());
	assert_eq!(date(2010, 1, 1), i.creation_date().unwrap());
	assert_eq!("(A) foo bar baz".to_string(), i.description());
}

#[test]
fn test_kv() {
	let i = Item::parse("(A) foo bar abc:xyz def:123");
	let expected_kv = HashMap::from([
		("abc".to_string(), "xyz".to_string()),
		("def".to_string(), "123".to_string()),
	]);

	assert_eq!('A', i.priority());
	assert_eq!("foo bar abc:xyz def:123".to_string(), i.description());
	assert_eq!(expected_kv, kv_map(&i));
	assert_eq!(expected_kv, kv_map(&i));
}

#[test]
fn test_due_date() {
	let i = Item::parse("(A) foo bar due:1980-06-01");

	assert_eq!(date(1980, 6, 1), i.due_date().unwrap());
}

#[test]
fn test_urgency() {
	let i = Item::parse("(A) foo bar due:1970-06-01");
	assert_eq!(Urgency::Overdue, i.urgency(today()).unwrap());

	let i = Item::parse(&format!(
		"(A) foo bar due:{}",
		Utc::now().date_naive().format("%Y-%m-%d")
	));
	assert_eq!(Urgency::Today, i.urgency(today()).unwrap());

	let i = Item::parse(&format!(
		"(A) foo bar due:{}",
		(Utc::now().date_naive() + Duration::days(1)).format("%Y-%m-%d")
	));
	assert_eq!(Urgency::Soon, i.urgency(today()).unwrap());

	let i = Item::parse(&format!(
		"(A) foo bar due:{}",
		(Utc::now().date_naive() + Duration::days(18)).format("%Y-%m-%d")
	));
	assert_eq!(Urgency::NextMonth, i.urgency(today()).unwrap());

	let i = Item::parse("(A) foo bar due:3970-06-01");
	assert_eq!(Urgency::Later, i.urgency(today()).unwrap());
}

#[test]
fn test_tags() {
	let i = Item::parse("(A) +Foo +foo bar+baz +bam");
	let expected_tags = Vec::from([
		"Foo".to_string(),
		"foo".to_string(),
		"bam".to_string(),
	]);
	assert_eq!(expected_tags, i.tags());
	assert!(i.has_tag("Foo"));
	assert!(i.has_tag("fOO"));
	assert!(!i.has_tag("Fool"));
}

#[test]
fn test_contexts() {
	let i = Item::parse("(A) @Foo @foo bar@baz @bam");
	let expected_ctx = Vec::from([
		"Foo".to_string(),
		"foo".to_string(),
		"bam".to_string(),
	]);
	assert_eq!(expected_ctx, i.contexts());
	assert!(i.has_context("Foo"));
	assert!(i.has_context("fOO"));
	assert!(!i.has_context("Fool"));
}

#[test]
fn test_tshirt_size() {
	let i = Item::parse("@M Barble");
	assert_eq!(TshirtSize::Medium, i.tshirt_size().unwrap());

	let i = Item::parse("(A) Fooble @XxL Barble");
	assert_eq!(TshirtSize::Large, i.tshirt_size().unwrap());

	let i = Item::parse("Barble");
	assert!(i.tshirt_size().is_none());
}
