//! What is read off a task's description: tags, contexts, key-value pairs,
//! the due and start dates, urgency and size.

use vstd::prelude::*;
use crate::date::Date;
use crate::date::parse_date;
use crate::item::importance_of;
use crate::item::urgency_on;
use crate::item::Importance;
use crate::item::Item;
use crate::item::ItemView;
use crate::item::TshirtSize;
use crate::item::Urgency;
use crate::text::chars_of;
use crate::text::is_space;
use crate::text::is_space_char;
use crate::text::lowercase;
use crate::text::slice_of;
use crate::text::string_of;
use crate::text::strings_of;
use crate::text::to_lowercase;
use crate::text::views_of;
use crate::text::word_end;
use crate::text::word_end_from;

verus! {

/// The words of `s` from position `i` on that carry the mark `mark`, each
/// without the mark: a word so marked starts with the mark, at the start of
/// `s` or behind white space, and goes on for at least one more character, up
/// to the next white space. Every such word counts, also one that repeats an
/// earlier one.
pub open spec fn marked_words(s: Seq<char>, mark: char, i: int) -> Seq<Seq<char>>
    decreases s.len() - i,
{
    if i < 0 || i >= s.len() {
        seq![]
    } else if s[i] == mark && (i == 0 || is_space(s[i - 1])) && i + 1 < s.len() && !is_space(
        s[i + 1],
    ) {
        seq![s.subrange(i + 1, word_end(s, i + 1))] + marked_words(s, mark, i + 1)
    } else {
        marked_words(s, mark, i + 1)
    }
}

/// Whether `c` can stand in a key or a value: it is neither white space nor a colon.
pub open spec fn is_atom_char(c: char) -> bool {
    !is_space(c) && c != ':'
}

/// The first position at or after `i` that holds white space or a colon, or
/// the length of `s` when neither follows.
pub open spec fn atom_end(s: Seq<char>, i: int) -> int
    decreases s.len() - i,
{
    if 0 <= i < s.len() && is_atom_char(s[i]) {
        atom_end(s, i + 1)
    } else {
        i
    }
}

/// The key-value pairs of `s` from position `i` on, in the order in which
/// they stand: a key, a colon and a value, where key and value are as long
/// as they can be without white space or a colon. Reading goes on behind the
/// value, so in `a:b:c` the only pair is `a:b`.
pub open spec fn kv_pairs(s: Seq<char>, i: int) -> Seq<(Seq<char>, Seq<char>)>
    decreases s.len() - i,
    via kv_pairs_ends
{
    if i < 0 || i >= s.len() {
        seq![]
    } else {
        let k = atom_end(s, i);
        if k <= i {
            kv_pairs(s, i + 1)
        } else if k + 1 < s.len() && s[k] == ':' && is_atom_char(s[k + 1]) {
            seq![(s.subrange(i, k), s.subrange(k + 1, atom_end(s, k + 1)))] + kv_pairs(
                s,
                atom_end(s, k + 1),
            )
        } else {
            kv_pairs(s, k)
        }
    }
}

#[via_fn]
proof fn kv_pairs_ends(s: Seq<char>, i: int) {
    if 0 <= i < s.len() {
        lemma_atom_end_bounds(s, i);
        let k = atom_end(s, i);
        if k + 1 < s.len() {
            lemma_atom_end_bounds(s, k + 1);
        }
    }
}

/// Where a key or a value ends: within `s`, at a character that cannot go
/// on with it, and behind nothing but characters that can.
pub proof fn lemma_atom_end_bounds(s: Seq<char>, i: int)
    requires
        0 <= i <= s.len(),
    ensures
        i <= atom_end(s, i) <= s.len(),
        atom_end(s, i) < s.len() ==> !is_atom_char(s[atom_end(s, i)]),
        forall|j: int| i <= j < atom_end(s, i) ==> is_atom_char(#[trigger] s[j]),
    decreases s.len() - i,
{
    if i < s.len() && is_atom_char(s[i]) {
        lemma_atom_end_bounds(s, i + 1);
    }
}

/// The value that `pairs` gives for `key`: that of the last pair with that key.
pub open spec fn lookup(pairs: Seq<(Seq<char>, Seq<char>)>, key: Seq<char>) -> Option<Seq<char>>
    decreases pairs.len(),
{
    if pairs.len() == 0 {
        None
    } else if pairs.last().0 == key {
        Some(pairs.last().1)
    } else {
        lookup(pairs.drop_last(), key)
    }
}

/// The key under which the due date stands.
pub open spec fn due_key() -> Seq<char> {
    seq!['d', 'u', 'e']
}

/// The key under which the start date stands.
pub open spec fn start_key() -> Seq<char> {
    seq!['s', 't', 'a', 'r', 't']
}

/// Whether `c` is the letter that names `size`, in either case. The long s
/// counts as an `s`.
pub open spec fn is_size_letter(c: char, size: TshirtSize) -> bool {
    match size {
        TshirtSize::Small => c == 's' || c == 'S' || c == '\u{17f}',
        TshirtSize::Medium => c == 'm' || c == 'M',
        TshirtSize::Large => c == 'l' || c == 'L',
    }
}

/// Whether `w` names `size`: any number of `x`, in either case, and then the
/// letter of the size.
pub open spec fn is_size_word(w: Seq<char>, size: TshirtSize) -> bool {
    &&& w.len() >= 1
    &&& forall|i: int| 0 <= i < w.len() - 1 ==> #[trigger] w[i] == 'x' || w[i] == 'X'
    &&& is_size_letter(w.last(), size)
}

/// Whether one of `words` names `size`.
pub open spec fn names_size(words: Seq<Seq<char>>, size: TshirtSize) -> bool {
    exists|i: int| 0 <= i < words.len() && is_size_word(#[trigger] words[i], size)
}

/// The size that `words` name: small if any of them names small, else medium
/// if any names medium, else large if any names large.
pub open spec fn size_named(words: Seq<Seq<char>>) -> Option<TshirtSize> {
    if names_size(words, TshirtSize::Small) {
        Some(TshirtSize::Small)
    } else if names_size(words, TshirtSize::Medium) {
        Some(TshirtSize::Medium)
    } else if names_size(words, TshirtSize::Large) {
        Some(TshirtSize::Large)
    } else {
        None
    }
}

/// `t` without the mark `mark` in front, if it has one.
pub open spec fn without_mark(t: Seq<char>, mark: char) -> Seq<char> {
    if t.len() > 0 && t[0] == mark {
        t.skip(1)
    } else {
        t
    }
}

/// Whether one of `words` is `t` when case is left out of account.
pub open spec fn has_word(words: Seq<Seq<char>>, t: Seq<char>) -> bool {
    exists|i: int| 0 <= i < words.len() && lowercase(#[trigger] words[i]) == lowercase(t)
}

impl ItemView {
    /// The tags: the words marked `+`.
    pub open spec fn tags(self) -> Seq<Seq<char>> {
        marked_words(self.description, '+', 0)
    }

    /// The contexts: the words marked `@`.
    pub open spec fn contexts(self) -> Seq<Seq<char>> {
        marked_words(self.description, '@', 0)
    }

    /// The key-value pairs, in the order in which they stand.
    pub open spec fn kv_pairs(self) -> Seq<(Seq<char>, Seq<char>)> {
        kv_pairs(self.description, 0)
    }

    /// The date under the key `due`, if there is one and it is written as `YYYY-MM-DD`.
    pub open spec fn due_date(self) -> Option<Date> {
        match lookup(self.kv_pairs(), due_key()) {
            Some(v) => parse_date(v),
            None => None,
        }
    }

    /// The date under the key `start`, if there is one and it is written as `YYYY-MM-DD`.
    pub open spec fn start_date(self) -> Option<Date> {
        match lookup(self.kv_pairs(), start_key()) {
            Some(v) => parse_date(v),
            None => None,
        }
    }

    /// The importance that the priority stands for.
    pub open spec fn importance(self) -> Option<Importance> {
        importance_of(self.priority)
    }

    /// The urgency on the day `today`: that of the due date, none without one.
    pub open spec fn urgency(self, today: Date) -> Option<Urgency> {
        match self.due_date() {
            Some(d) => Some(urgency_on(d, today)),
            None => None,
        }
    }

    /// The size that the contexts name.
    pub open spec fn tshirt_size(self) -> Option<TshirtSize> {
        size_named(self.contexts())
    }

    /// Whether work on the task may start on the day `today`: it has no start
    /// date, or one that is not later than `today`.
    pub open spec fn is_startable(self, today: Date) -> bool {
        match self.start_date() {
            Some(d) => d.days() <= today.days(),
            None => true,
        }
    }

    /// Whether one of the tags is `tag`, given with or without its `+`, case
    /// left out of account.
    pub open spec fn has_tag(self, tag: Seq<char>) -> bool {
        has_word(self.tags(), without_mark(tag, '+'))
    }

    /// Whether one of the contexts is `ctx`, given with or without its `@`,
    /// case left out of account.
    pub open spec fn has_context(self, ctx: Seq<char>) -> bool {
        has_word(self.contexts(), without_mark(ctx, '@'))
    }

    /// The key of the smart order: urgency, importance and size, with soon,
    /// normal and medium where the task names none.
    pub open spec fn smart_key(self, today: Date) -> (Urgency, Importance, TshirtSize) {
        (
            match self.urgency(today) {
                Some(u) => u,
                None => Urgency::Soon,
            },
            match self.importance() {
                Some(i) => i,
                None => Importance::D,
            },
            match self.tshirt_size() {
                Some(s) => s,
                None => TshirtSize::Medium,
            },
        )
    }
}

/// The key-value pairs of a description.
///
/// A key has the value of the last pair that names it.
#[derive(Debug)]
pub struct KeyValues {
    pairs: Vec<(Vec<char>, Vec<char>)>,
}

/// The keys and values of `v`, as character sequences.
pub open spec fn pairs_view(v: Seq<(Vec<char>, Vec<char>)>) -> Seq<(Seq<char>, Seq<char>)> {
    v.map_values(|p: (Vec<char>, Vec<char>)| (p.0@, p.1@))
}

impl KeyValues {
    /// The pairs, in the order in which they stand in the description.
    pub closed spec fn pairs(&self) -> Seq<(Seq<char>, Seq<char>)> {
        pairs_view(self.pairs@)
    }

    /// The value under `key`, if the key is there.
    pub fn get(&self, key: &str) -> (r: Option<String>)
        ensures
            r.deep_view() == lookup(self.pairs(), key@),
    {
        let k = chars_of(key);
        match find(&self.pairs, &k) {
            Some(v) => Some(string_of(&v)),
            None => None,
        }
    }

    /// Whether `key` is there.
    pub fn contains_key(&self, key: &str) -> (r: bool)
        ensures
            r == lookup(self.pairs(), key@) is Some,
    {
        let k = chars_of(key);
        find(&self.pairs, &k).is_some()
    }

    /// Every pair, in the order in which they stand in the description. A key
    /// that stands twice is listed twice.
    pub fn entries(&self) -> (r: Vec<(String, String)>)
        ensures
            r.deep_view() == self.pairs(),
    {
        let mut r: Vec<(String, String)> = Vec::new();
        let mut i: usize = 0;
        while i < self.pairs.len()
            invariant
                i <= self.pairs.len(),
                r.deep_view() == pairs_view(self.pairs@.take(i as int)),
            decreases self.pairs.len() - i,
        {
            let ghost before = r.deep_view();
            r.push((string_of(&self.pairs[i].0), string_of(&self.pairs[i].1)));
            assert(r.deep_view() =~= before.push(
                (self.pairs@[i as int].0@, self.pairs@[i as int].1@),
            ));
            assert(pairs_view(self.pairs@.take(i + 1)) =~= pairs_view(
                self.pairs@.take(i as int),
            ).push((self.pairs@[i as int].0@, self.pairs@[i as int].1@)));
            i += 1;
        }
        assert(self.pairs@.take(self.pairs.len() as int) =~= self.pairs@);
        r
    }
}

/// The value of the last pair of `pairs` whose key is `key`.
pub(crate) fn find(pairs: &Vec<(Vec<char>, Vec<char>)>, key: &Vec<char>) -> (r: Option<Vec<char>>)
    ensures
        match r {
            Some(v) => lookup(pairs_view(pairs@), key@) == Some(v@),
            None => lookup(pairs_view(pairs@), key@) is None,
        },
{
    let mut j: usize = pairs.len();
    assert(pairs_view(pairs@).take(j as int) =~= pairs_view(pairs@));
    while j > 0
        invariant
            j <= pairs.len(),
            lookup(pairs_view(pairs@), key@) == lookup(pairs_view(pairs@).take(j as int), key@),
        decreases j,
    {
        let ghost cur = pairs_view(pairs@).take(j as int);
        assert(cur.last() == (pairs@[j - 1].0@, pairs@[j - 1].1@));
        assert(cur.drop_last() =~= pairs_view(pairs@).take(j - 1));
        if crate::text::same_chars(&pairs[j - 1].0, key) {
            return Some(slice_of(&pairs[j - 1].1, 0, pairs[j - 1].1.len()));
        }
        j -= 1;
    }
    None
}

pub(crate) fn is_atom(c: char) -> (b: bool)
    ensures
        b == is_atom_char(c),
{
    !is_space_char(c) && c != ':'
}

pub(crate) fn atom_end_from(s: &Vec<char>, i: usize) -> (j: usize)
    requires
        i <= s.len(),
    ensures
        j == atom_end(s@, i as int),
        i <= j <= s.len(),
{
    let mut j = i;
    while j < s.len() && is_atom(s[j])
        invariant
            i <= j <= s.len(),
            atom_end(s@, j as int) == atom_end(s@, i as int),
        decreases s.len() - j,
    {
        j += 1;
    }
    j
}

/// The key-value pairs of `s`.
pub(crate) fn kv_pairs_of(s: &Vec<char>) -> (r: Vec<(Vec<char>, Vec<char>)>)
    ensures
        pairs_view(r@) == kv_pairs(s@, 0),
{
    let mut r: Vec<(Vec<char>, Vec<char>)> = Vec::new();
    let mut i: usize = 0;
    while i < s.len()
        invariant
            i <= s.len(),
            pairs_view(r@) + kv_pairs(s@, i as int) == kv_pairs(s@, 0),
        decreases s.len() - i,
    {
        let k = atom_end_from(s, i);
        if k <= i {
            i += 1;
        } else if s.len() - k >= 2 && s[k] == ':' && is_atom(s[k + 1]) {
            let e = atom_end_from(s, k + 1);
            let ghost before = pairs_view(r@);
            let ghost pair = (s@.subrange(i as int, k as int), s@.subrange(k + 1, e as int));
            r.push((slice_of(s, i, k), slice_of(s, k + 1, e)));
            assert(pairs_view(r@) =~= before.push(pair));
            assert(before.push(pair) + kv_pairs(s@, e as int) =~= before + kv_pairs(s@, i as int));
            i = e;
        } else {
            i = k;
        }
    }
    assert(pairs_view(r@) + kv_pairs(s@, i as int) =~= pairs_view(r@));
    r
}

/// The words of `s` that carry the mark `mark`, each without the mark.
pub(crate) fn marked_words_of(s: &Vec<char>, mark: char) -> (r: Vec<Vec<char>>)
    ensures
        views_of(r@) == marked_words(s@, mark, 0),
{
    let mut r: Vec<Vec<char>> = Vec::new();
    let mut i: usize = 0;
    while i < s.len()
        invariant
            i <= s.len(),
            views_of(r@) + marked_words(s@, mark, i as int) == marked_words(s@, mark, 0),
        decreases s.len() - i,
    {
        if s[i] == mark && (i == 0 || is_space_char(s[i - 1])) && s.len() - i >= 2
            && !is_space_char(s[i + 1]) {
            let e = word_end_from(s, i + 1);
            let ghost before = views_of(r@);
            let ghost word = s@.subrange(i + 1, e as int);
            r.push(slice_of(s, i + 1, e));
            assert(views_of(r@) =~= before.push(word));
            assert(before.push(word) + marked_words(s@, mark, i + 1) =~= before + marked_words(
                s@,
                mark,
                i as int,
            ));
        }
        i += 1;
    }
    assert(views_of(r@) + marked_words(s@, mark, i as int) =~= views_of(r@));
    r
}

fn is_size_letter_char(c: char, size: TshirtSize) -> (b: bool)
    ensures
        b == is_size_letter(c, size),
{
    match size {
        TshirtSize::Small => c == 's' || c == 'S' || c == '\u{17f}',
        TshirtSize::Medium => c == 'm' || c == 'M',
        TshirtSize::Large => c == 'l' || c == 'L',
    }
}

fn is_size_word_of(w: &Vec<char>, size: TshirtSize) -> (b: bool)
    ensures
        b == is_size_word(w@, size),
{
    if w.len() == 0 {
        return false;
    }
    let mut i: usize = 0;
    while i < w.len() - 1
        invariant
            i <= w.len() - 1,
            forall|j: int| 0 <= j < i ==> #[trigger] w@[j] == 'x' || w@[j] == 'X',
        decreases w.len() - i,
    {
        if w[i] != 'x' && w[i] != 'X' {
            return false;
        }
        i += 1;
    }
    is_size_letter_char(w[w.len() - 1], size)
}

fn names_size_of(words: &Vec<Vec<char>>, size: TshirtSize) -> (b: bool)
    ensures
        b == names_size(views_of(words@), size),
{
    let mut i: usize = 0;
    while i < words.len()
        invariant
            i <= words.len(),
            forall|j: int| 0 <= j < i ==> !is_size_word(#[trigger] views_of(words@)[j], size),
        decreases words.len() - i,
    {
        if is_size_word_of(&words[i], size) {
            assert(is_size_word(views_of(words@)[i as int], size));
            return true;
        }
        i += 1;
    }
    false
}

/// Whether one of `words` is `word` when case is left out of account.
pub(crate) fn has_word_of(words: &Vec<Vec<char>>, word: &Vec<char>) -> (b: bool)
    ensures
        b == has_word(views_of(words@), word@),
{
    let want = to_lowercase(string_of(word).as_str());
    let mut i: usize = 0;
    while i < words.len()
        invariant
            i <= words.len(),
            want@ == lowercase(word@),
            forall|j: int|
                0 <= j < i ==> lowercase(#[trigger] views_of(words@)[j]) != lowercase(word@),
        decreases words.len() - i,
    {
        let have = to_lowercase(string_of(&words[i]).as_str());
        if have == want {
            assert(lowercase(views_of(words@)[i as int]) == lowercase(word@));
            return true;
        }
        i += 1;
    }
    false
}

/// `t` without the mark `mark` in front, if it has one.
pub(crate) fn strip_mark(t: &str, mark: char) -> (r: Vec<char>)
    ensures
        r@ == without_mark(t@, mark),
{
    let v = chars_of(t);
    if v.len() > 0 && v[0] == mark {
        let r = slice_of(&v, 1, v.len());
        assert(v@.subrange(1, v.len() as int) =~= v@.skip(1));
        r
    } else {
        v
    }
}

impl Item {
    /// The characters of the description.
    pub(crate) fn description_chars(&self) -> (r: Vec<char>)
        ensures
            r@ == self@.description,
    {
        chars_of(self.description.as_str())
    }

    /// Tags.
    pub fn tags(&self) -> (r: Vec<String>)
        ensures
            r.deep_view() == self@.tags(),
    {
        let s = self.description_chars();
        strings_of(&marked_words_of(&s, '+'))
    }

    /// Boolean indicating whether a task has a particular tag.
    ///
    /// The tag may be given with or without its `+`; case does not count.
    pub fn has_tag(&self, tag: &str) -> (r: bool)
        ensures
            r == self@.has_tag(tag@),
    {
        let s = self.description_chars();
        has_word_of(&marked_words_of(&s, '+'), &strip_mark(tag, '+'))
    }

    /// Contexts.
    pub fn contexts(&self) -> (r: Vec<String>)
        ensures
            r.deep_view() == self@.contexts(),
    {
        let s = self.description_chars();
        strings_of(&marked_words_of(&s, '@'))
    }

    /// Boolean indicating whether a task has a particular context.
    ///
    /// The context may be given with or without its `@`; case does not count.
    pub fn has_context(&self, ctx: &str) -> (r: bool)
        ensures
            r == self@.has_context(ctx@),
    {
        let s = self.description_chars();
        has_word_of(&marked_words_of(&s, '@'), &strip_mark(ctx, '@'))
    }

    /// Key-Value Tags.
    pub fn kv(&self) -> (r: KeyValues)
        ensures
            r.pairs() == self@.kv_pairs(),
    {
        let s = self.description_chars();
        KeyValues { pairs: kv_pairs_of(&s) }
    }

    /// The date under the key `key` of the description.
    fn date_under(&self, key: &str) -> (r: Option<Date>)
        ensures
            r == match lookup(self@.kv_pairs(), key@) {
                Some(v) => parse_date(v),
                None => None,
            },
            r matches Some(d) ==> d.is_valid(),
    {
        let s = self.description_chars();
        let pairs = kv_pairs_of(&s);
        let k = chars_of(key);
        match find(&pairs, &k) {
            Some(v) => {
                if v.len() == 10 {
                    assert(v@.subrange(0, 10) =~= v@);
                    Date::parse_at(&v, 0)
                } else {
                    None
                }
            },
            None => None,
        }
    }

    /// Return the date when the task is due by.
    pub fn due_date(&self) -> (r: Option<Date>)
        ensures
            r == self@.due_date(),
            r matches Some(d) ==> d.is_valid(),
    {
        proof {
            reveal_strlit("due");
            assert("due"@ =~= due_key());
        }
        self.date_under("due")
    }

    /// Return the date when the task may be started.
    pub fn start_date(&self) -> (r: Option<Date>)
        ensures
            r == self@.start_date(),
            r matches Some(d) ==> d.is_valid(),
    {
        proof {
            reveal_strlit("start");
            assert("start"@ =~= start_key());
        }
        self.date_under("start")
    }

    /// A task is startable if it doesn't have a start date which is in the future.
    pub fn is_startable(&self, today: Date) -> (r: bool)
        requires
            today.is_valid(),
        ensures
            r == self@.is_startable(today),
    {
        match self.start_date() {
            Some(day) => day.day_number() <= today.day_number(),
            None => true,
        }
    }

    /// Classify how urgent the task is on the day `today`.
    pub fn urgency(&self, today: Date) -> (r: Option<Urgency>)
        requires
            today.is_valid(),
        ensures
            r == self@.urgency(today),
    {
        match self.due_date() {
            Some(d) => Some(Urgency::from_due_date(d, today)),
            None => None,
        }
    }

    /// Return the size of the task.
    pub fn tshirt_size(&self) -> (r: Option<TshirtSize>)
        ensures
            r == self@.tshirt_size(),
    {
        let s = self.description_chars();
        let ctx = marked_words_of(&s, '@');
        if names_size_of(&ctx, TshirtSize::Small) {
            Some(TshirtSize::Small)
        } else if names_size_of(&ctx, TshirtSize::Medium) {
            Some(TshirtSize::Medium)
        } else if names_size_of(&ctx, TshirtSize::Large) {
            Some(TshirtSize::Large)
        } else {
            None
        }
    }

    /// Key used for smart sorting
    pub fn smart_key(&self, today: Date) -> (r: (Urgency, Importance, TshirtSize))
        requires
            today.is_valid(),
        ensures
            r == self@.smart_key(today),
    {
        (
            match self.urgency(today) {
                Some(u) => u,
                None => Urgency::Soon,
            },
            match self.importance() {
                Some(i) => i,
                None => Importance::D,
            },
            match self.tshirt_size() {
                Some(s) => s,
                None => TshirtSize::Medium,
            },
        )
    }
}

} // verus!
