//! Where a key-value pair stands in a description, and what becomes of the
//! pairs when the value of one is put anew.
//!
//! The pair that counts for a key is the last one with that key: it is the
//! one whose value is read. To give a key a new value is to put the new
//! token in the place of that pair, from where its key starts to where its
//! value ends; every other character of the description stays.

use vstd::prelude::*;
use crate::date::format_date;
use crate::date::lemma_parse_of_format;
use crate::date::Date;
use crate::item::fields::atom_end;
use crate::item::fields::atom_end_from;
use crate::item::fields::is_atom;
use crate::item::fields::is_atom_char;
use crate::item::fields::kv_pairs;
use crate::item::fields::lemma_atom_end_bounds;
use crate::item::fields::lookup;
use crate::text::same_chars;
use crate::text::slice_of;

verus! {

/// The key-value token that gives `key` the value `value`.
pub open spec fn token(key: Seq<char>, value: Seq<char>) -> Seq<char> {
    key.push(':') + value
}

/// Whether `w` can be a key or a value: it is not empty and holds neither
/// white space nor a colon.
pub open spec fn is_atom_text(w: Seq<char>) -> bool {
    w.len() > 0 && forall|j: int| 0 <= j < w.len() ==> is_atom_char(#[trigger] w[j])
}

/// Where the last pair of `s` with the key `key` stands, of the pairs from
/// position `i` on: where its key starts and where its value ends. None
/// where no pair has that key.
pub open spec fn pair_bounds(s: Seq<char>, key: Seq<char>, i: int) -> Option<(int, int)>
    decreases s.len() - i,
    via pair_bounds_ends
{
    if i < 0 || i >= s.len() {
        None
    } else {
        let k = atom_end(s, i);
        if k <= i {
            pair_bounds(s, key, i + 1)
        } else if k + 1 < s.len() && s[k] == ':' && is_atom_char(s[k + 1]) {
            match pair_bounds(s, key, atom_end(s, k + 1)) {
                Some(later) => Some(later),
                None => if s.subrange(i, k) == key {
                    Some((i, atom_end(s, k + 1)))
                } else {
                    None
                },
            }
        } else {
            pair_bounds(s, key, k)
        }
    }
}

#[via_fn]
proof fn pair_bounds_ends(s: Seq<char>, key: Seq<char>, i: int) {
    if 0 <= i < s.len() {
        lemma_atom_end_bounds(s, i);
        let k = atom_end(s, i);
        if k + 1 < s.len() {
            lemma_atom_end_bounds(s, k + 1);
        }
    }
}

/// `s` with the token that gives `key` the value `value` in the place of
/// the last pair with that key; `s` itself where no pair has the key.
pub open spec fn with_value(s: Seq<char>, key: Seq<char>, value: Seq<char>) -> Seq<char> {
    match pair_bounds(s, key, 0) {
        Some((a, e)) => s.take(a) + token(key, value) + s.skip(e),
        None => s,
    }
}

/// The pairs `pairs` with the value `value` for the last pair with the key
/// `key`; `pairs` itself where no pair has the key.
pub open spec fn replace_last(
    pairs: Seq<(Seq<char>, Seq<char>)>,
    key: Seq<char>,
    value: Seq<char>,
) -> Seq<(Seq<char>, Seq<char>)>
    decreases pairs.len(),
{
    if pairs.len() == 0 {
        pairs
    } else if pairs.last().0 == key {
        pairs.drop_last().push((key, value))
    } else {
        replace_last(pairs.drop_last(), key, value).push(pairs.last())
    }
}

/// A run of characters that can stand in a key or a value ends where the
/// run ends.
proof fn lemma_atom_run(t: Seq<char>, i: int, n: int)
    requires
        0 <= i,
        0 <= n,
        i + n <= t.len(),
        forall|j: int| i <= j < i + n ==> is_atom_char(#[trigger] t[j]),
        i + n == t.len() || !is_atom_char(t[i + n]),
    ensures
        atom_end(t, i) == i + n,
    decreases n,
{
    if n > 0 {
        lemma_atom_run(t, i + 1, n - 1);
    }
}

/// Two texts with the same rest have the same rest further on.
proof fn lemma_rest_goes_on(s: Seq<char>, t: Seq<char>, i: int, j: int, m: int)
    requires
        0 <= i <= s.len(),
        0 <= j <= t.len(),
        s.skip(i) == t.skip(j),
        0 <= m <= s.len() - i,
    ensures
        s.len() - i == t.len() - j,
        s.skip(i + m) == t.skip(j + m),
        m < s.len() - i ==> s[i + m] == t[j + m],
{
    assert(s.skip(i).len() == t.skip(j).len());
    assert(s.skip(i + m) =~= s.skip(i).skip(m));
    assert(t.skip(j + m) =~= t.skip(j).skip(m));
    if m < s.len() - i {
        assert(s.skip(i)[m] == s[i + m]);
        assert(t.skip(j)[m] == t[j + m]);
    }
}

/// In two texts with the same rest, a key or a value ends at the same place
/// of the rest.
proof fn lemma_atom_end_of_rest(s: Seq<char>, t: Seq<char>, i: int, j: int)
    requires
        0 <= i <= s.len(),
        0 <= j <= t.len(),
        s.skip(i) == t.skip(j),
    ensures
        atom_end(s, i) - i == atom_end(t, j) - j,
{
    lemma_atom_end_bounds(s, i);
    let k = atom_end(s, i);
    lemma_rest_goes_on(s, t, i, j, k - i);
    assert forall|x: int| j <= x < j + (k - i) implies is_atom_char(#[trigger] t[x]) by {
        lemma_rest_goes_on(s, t, i, j, x - j);
        assert(is_atom_char(s[i + (x - j)]));
    }
    lemma_atom_run(t, j, k - i);
}

/// Two texts with the same rest have the same pairs in it.
pub proof fn lemma_pairs_of_rest(s: Seq<char>, t: Seq<char>, i: int, j: int)
    requires
        0 <= i <= s.len(),
        0 <= j <= t.len(),
        s.skip(i) == t.skip(j),
    ensures
        kv_pairs(s, i) == kv_pairs(t, j),
    decreases s.len() - i,
{
    lemma_rest_goes_on(s, t, i, j, 0);
    if i < s.len() {
        lemma_atom_end_bounds(s, i);
        lemma_atom_end_of_rest(s, t, i, j);
        let k = atom_end(s, i);
        let k2 = atom_end(t, j);
        if k <= i {
            lemma_rest_goes_on(s, t, i, j, 1);
            lemma_pairs_of_rest(s, t, i + 1, j + 1);
        } else {
            lemma_rest_goes_on(s, t, i, j, k - i);
            if k + 1 < s.len() {
                lemma_rest_goes_on(s, t, i, j, k + 1 - i);
            }
            if k + 1 < s.len() && s[k] == ':' && is_atom_char(s[k + 1]) {
                lemma_atom_end_bounds(s, k + 1);
                lemma_atom_end_of_rest(s, t, k + 1, k2 + 1);
                let e = atom_end(s, k + 1);
                let e2 = atom_end(t, k2 + 1);
                lemma_rest_goes_on(s, t, i, j, e - i);
                assert(s.subrange(i, k) =~= s.skip(i).subrange(0, k - i));
                assert(t.subrange(j, k2) =~= t.skip(j).subrange(0, k - i));
                assert(s.subrange(k + 1, e) =~= s.skip(i).subrange(k + 1 - i, e - i));
                assert(t.subrange(k2 + 1, e2) =~= t.skip(j).subrange(k + 1 - i, e - i));
                lemma_pairs_of_rest(s, t, e, e2);
            } else {
                lemma_pairs_of_rest(s, t, k, k2);
            }
        }
    }
}

/// What is looked up in pairs with one more in front: the value found in
/// the others, or else that of the one in front.
pub proof fn lemma_lookup_front(
    p: (Seq<char>, Seq<char>),
    y: Seq<(Seq<char>, Seq<char>)>,
    key: Seq<char>,
)
    ensures
        lookup(seq![p] + y, key) == match lookup(y, key) {
            Some(v) => Some(v),
            None => if p.0 == key {
                Some(p.1)
            } else {
                None
            },
        },
    decreases y.len(),
{
    let all = seq![p] + y;
    if y.len() == 0 {
        assert(all =~= seq![p]);
        assert(all.last() == p);
        assert(all.drop_last() =~= Seq::<(Seq<char>, Seq<char>)>::empty());
        assert(lookup(all.drop_last(), key) is None);
        assert(lookup(all, key) == if p.0 == key {
            Some(p.1)
        } else {
            None
        });
    } else {
        assert(all.last() == y.last());
        assert(all.drop_last() =~= seq![p] + y.drop_last());
        lemma_lookup_front(p, y.drop_last(), key);
        assert(lookup(all, key) == if y.last().0 == key {
            Some(y.last().1)
        } else {
            lookup(all.drop_last(), key)
        });
    }
}

/// The last pair with a key among pairs with one more in front: it is among
/// the others where they have the key, and else it is the one in front.
proof fn lemma_replace_last_front(
    p: (Seq<char>, Seq<char>),
    y: Seq<(Seq<char>, Seq<char>)>,
    key: Seq<char>,
    value: Seq<char>,
)
    ensures
        replace_last(seq![p] + y, key, value) == if lookup(y, key) is Some {
            seq![p] + replace_last(y, key, value)
        } else if p.0 == key {
            seq![(key, value)] + y
        } else {
            seq![p] + y
        },
    decreases y.len(),
{
    let all = seq![p] + y;
    if y.len() == 0 {
        assert(all =~= seq![p]);
        assert(all.last() == p);
        assert(all.drop_last() =~= Seq::<(Seq<char>, Seq<char>)>::empty());
        assert(all.drop_last().push((key, value)) =~= seq![(key, value)] + y);
        assert(replace_last(all.drop_last(), key, value).push(p) =~= seq![p] + y);
    } else {
        assert(all.last() == y.last());
        assert(all.drop_last() =~= seq![p] + y.drop_last());
        lemma_replace_last_front(p, y.drop_last(), key, value);
        if y.last().0 == key {
            assert(all.drop_last().push((key, value)) =~= seq![p] + y.drop_last().push(
                (key, value),
            ));
        } else {
            let rest = y.drop_last();
            if lookup(rest, key) is Some {
                assert((seq![p] + replace_last(rest, key, value)).push(y.last()) =~= seq![p]
                    + replace_last(rest, key, value).push(y.last()));
            } else if p.0 == key {
                assert((seq![(key, value)] + rest).push(y.last()) =~= seq![(key, value)] + y);
            } else {
                assert((seq![p] + rest).push(y.last()) =~= seq![p] + y);
            }
        }
    }
}

/// Putting a value anew changes what is looked up under that key, where the
/// key is there, and under no other key.
pub proof fn lemma_lookup_of_replaced(
    pairs: Seq<(Seq<char>, Seq<char>)>,
    key: Seq<char>,
    value: Seq<char>,
    other: Seq<char>,
)
    ensures
        lookup(replace_last(pairs, key, value), key) == if lookup(pairs, key) is Some {
            Some(value)
        } else {
            None
        },
        other != key ==> lookup(replace_last(pairs, key, value), other) == lookup(pairs, other),
        replace_last(pairs, key, value).len() == pairs.len(),
    decreases pairs.len(),
{
    if pairs.len() > 0 {
        let rest = pairs.drop_last();
        lemma_lookup_of_replaced(rest, key, value, other);
        if pairs.last().0 == key {
            let new = rest.push((key, value));
            assert(new.last() == (key, value));
            assert(new.drop_last() =~= rest);
        } else {
            let new = replace_last(rest, key, value).push(pairs.last());
            assert(new.last() == pairs.last());
            assert(new.drop_last() =~= replace_last(rest, key, value));
        }
    }
}

/// What the bounds of a pair say: the pair starts with its key, a colon and
/// the start of its value follow, the bounds end where the value ends, no
/// later pair has the key, and the value between the bounds is the one that
/// is looked up. Where there are no bounds, nothing is looked up.
pub proof fn lemma_pair_bounds(s: Seq<char>, key: Seq<char>, i: int)
    requires
        0 <= i <= s.len(),
    ensures
        match pair_bounds(s, key, i) {
            Some((a, e)) => {
                let k = atom_end(s, a);
                &&& i <= a < k
                &&& k + 1 < e <= s.len()
                &&& s.subrange(a, k) == key
                &&& s[k] == ':'
                &&& is_atom_char(s[k + 1])
                &&& e == atom_end(s, k + 1)
                &&& pair_bounds(s, key, e) is None
                &&& lookup(kv_pairs(s, i), key) == Some(s.subrange(k + 1, e))
            },
            None => lookup(kv_pairs(s, i), key) is None,
        },
    decreases s.len() - i,
{
    if i < s.len() {
        lemma_atom_end_bounds(s, i);
        let k = atom_end(s, i);
        if k <= i {
            lemma_pair_bounds(s, key, i + 1);
        } else if k + 1 < s.len() && s[k] == ':' && is_atom_char(s[k + 1]) {
            lemma_atom_end_bounds(s, k + 1);
            let e = atom_end(s, k + 1);
            lemma_pair_bounds(s, key, e);
            lemma_lookup_front((s.subrange(i, k), s.subrange(k + 1, e)), kv_pairs(s, e), key);
        } else {
            lemma_pair_bounds(s, key, k);
        }
    }
}

/// Putting a value anew in the text does to the pairs what `replace_last`
/// says: the last pair with the key has the new value, and every other pair
/// is as it was.
proof fn lemma_put_value_from(s: Seq<char>, key: Seq<char>, value: Seq<char>, i: int)
    requires
        0 <= i <= s.len(),
        is_atom_text(key),
        is_atom_text(value),
        pair_bounds(s, key, i) is Some,
    ensures
        ({
            let (a, e) = pair_bounds(s, key, i)->0;
            kv_pairs(s.take(a) + token(key, value) + s.skip(e), i) == replace_last(
                kv_pairs(s, i),
                key,
                value,
            )
        }),
    decreases s.len() - i,
{
    let (a, e) = pair_bounds(s, key, i)->0;
    let new = s.take(a) + token(key, value) + s.skip(e);
    lemma_pair_bounds(s, key, i);
    lemma_atom_end_bounds(s, a);
    lemma_atom_end_bounds(s, i);
    let k = atom_end(s, i);
    assert(is_atom_char(s[a]));
    assert(forall|x: int| 0 <= x < a ==> new[x] == s[x]);
    if k <= i {
        assert(i < a);
        lemma_pair_bounds(s, key, i + 1);
        lemma_put_value_from(s, key, value, i + 1);
    } else if k + 1 < s.len() && s[k] == ':' && is_atom_char(s[k + 1]) {
        lemma_atom_end_bounds(s, k + 1);
        let end = atom_end(s, k + 1);
        let p = (s.subrange(i, k), s.subrange(k + 1, end));
        lemma_pair_bounds(s, key, end);
        lemma_replace_last_front(p, kv_pairs(s, end), key, value);
        if pair_bounds(s, key, end) is Some {
            assert(end <= a);
            assert(end < a);
            lemma_atom_run(new, i, k - i);
            lemma_atom_run(new, k + 1, end - (k + 1));
            assert(new.subrange(i, k) =~= s.subrange(i, k));
            assert(new.subrange(k + 1, end) =~= s.subrange(k + 1, end));
            lemma_put_value_from(s, key, value, end);
        } else {
            assert(a == i && e == end);
            let n = key.len() as int;
            let m = value.len() as int;
            assert(k == a + n);
            assert(forall|x: int| a <= x < a + n ==> new[x] == key[x - a]);
            assert(new[a + n] == ':');
            assert(forall|x: int| a + n + 1 <= x < a + n + 1 + m ==> new[x] == value[x - (a + n
                + 1)]);
            assert(new.len() == a + n + 1 + m + (s.len() - e));
            if e < s.len() {
                assert(new[a + n + 1 + m] == s[e]);
            }
            assert forall|x: int| a <= x < a + n implies is_atom_char(#[trigger] new[x]) by {
                assert(is_atom_char(key[x - a]));
            }
            lemma_atom_run(new, a, n);
            assert forall|x: int| a + n + 1 <= x < a + n + 1 + m implies is_atom_char(
                #[trigger] new[x],
            ) by {
                assert(is_atom_char(value[x - (a + n + 1)]));
            }
            lemma_atom_run(new, a + n + 1, m);
            assert(is_atom_char(new[a + n + 1])) by {
                assert(is_atom_char(value[0]));
            }
            assert(new.subrange(a, a + n) =~= key);
            assert(new.subrange(a + n + 1, a + n + 1 + m) =~= value);
            assert(new.skip(a + n + 1 + m) =~= s.skip(e));
            lemma_pairs_of_rest(new, s, a + n + 1 + m, e);
        }
    } else {
        lemma_pair_bounds(s, key, k);
        assert(k <= a);
        assert(k < a);
        lemma_atom_run(new, i, k - i);
        lemma_put_value_from(s, key, value, k);
    }
}

/// A token added behind a space adds one pair behind the others.
proof fn lemma_append_value_from(s: Seq<char>, key: Seq<char>, value: Seq<char>, i: int)
    requires
        0 <= i <= s.len(),
        is_atom_text(key),
        is_atom_text(value),
    ensures
        kv_pairs(s.push(' ') + token(key, value), i) == kv_pairs(s, i).push((key, value)),
    decreases s.len() - i,
{
    let new = s.push(' ') + token(key, value);
    let n = key.len() as int;
    let m = value.len() as int;
    let len = s.len() as int;
    assert(forall|x: int| 0 <= x < len ==> new[x] == s[x]);
    assert(new[len] == ' ');
    assert(new.len() == len + 1 + n + 1 + m);
    if i == len {
        assert(forall|x: int| len + 1 <= x < len + 1 + n ==> new[x] == key[x - (len + 1)]);
        assert(new[len + 1 + n] == ':');
        assert(forall|x: int|
            len + n + 2 <= x < len + n + 2 + m ==> new[x] == value[x - (len + n + 2)]);
        assert forall|x: int| len + 1 <= x < len + 1 + n implies is_atom_char(
            #[trigger] new[x],
        ) by {
            assert(is_atom_char(key[x - (len + 1)]));
        }
        lemma_atom_run(new, len + 1, n);
        assert forall|x: int| len + n + 2 <= x < len + n + 2 + m implies is_atom_char(
            #[trigger] new[x],
        ) by {
            assert(is_atom_char(value[x - (len + n + 2)]));
        }
        lemma_atom_run(new, len + n + 2, m);
        assert(is_atom_char(new[len + n + 2])) by {
            assert(is_atom_char(value[0]));
        }
        assert(new.subrange(len + 1, len + 1 + n) =~= key);
        assert(new.subrange(len + n + 2, len + n + 2 + m) =~= value);
        reveal_with_fuel(kv_pairs, 3);
        assert(atom_end(new, len) == len);
        assert(kv_pairs(new, len + n + 2 + m) =~= Seq::<(Seq<char>, Seq<char>)>::empty());
        assert(kv_pairs(new, len) =~= seq![(key, value)]);
        assert(kv_pairs(s, len).push((key, value)) =~= seq![(key, value)]);
    } else {
        lemma_atom_end_bounds(s, i);
        let k = atom_end(s, i);
        lemma_atom_run(new, i, k - i);
        if k <= i {
            lemma_append_value_from(s, key, value, i + 1);
        } else if k + 1 < s.len() && s[k] == ':' && is_atom_char(s[k + 1]) {
            lemma_atom_end_bounds(s, k + 1);
            let end = atom_end(s, k + 1);
            lemma_atom_run(new, k + 1, end - (k + 1));
            assert(new.subrange(i, k) =~= s.subrange(i, k));
            assert(new.subrange(k + 1, end) =~= s.subrange(k + 1, end));
            lemma_append_value_from(s, key, value, end);
            let p = (s.subrange(i, k), s.subrange(k + 1, end));
            assert(seq![p] + kv_pairs(s, end).push((key, value)) =~= (seq![p] + kv_pairs(
                s,
                end,
            )).push((key, value)));
        } else {
            lemma_append_value_from(s, key, value, k);
        }
    }
}

/// Putting a value anew gives the last pair with the key the new value and
/// leaves every other pair as it was.
pub proof fn lemma_with_value(s: Seq<char>, key: Seq<char>, value: Seq<char>)
    requires
        is_atom_text(key),
        is_atom_text(value),
    ensures
        kv_pairs(with_value(s, key, value), 0) == replace_last(kv_pairs(s, 0), key, value),
        pair_bounds(s, key, 0) is Some <==> lookup(kv_pairs(s, 0), key) is Some,
        lookup(kv_pairs(with_value(s, key, value), 0), key) == if lookup(kv_pairs(s, 0), key)
            is Some {
            Some(value)
        } else {
            None
        },
        forall|other: Seq<char>|
            other != key ==> lookup(kv_pairs(with_value(s, key, value), 0), other) == lookup(
                kv_pairs(s, 0),
                other,
            ),
{
    lemma_pair_bounds(s, key, 0);
    if pair_bounds(s, key, 0) is Some {
        lemma_put_value_from(s, key, value, 0);
    } else {
        lemma_replace_last_none(kv_pairs(s, 0), key, value);
    }
    lemma_lookup_of_replaced(kv_pairs(s, 0), key, value, key);
    assert forall|other: Seq<char>| other != key implies lookup(
        kv_pairs(with_value(s, key, value), 0),
        other,
    ) == lookup(kv_pairs(s, 0), other) by {
        lemma_lookup_of_replaced(kv_pairs(s, 0), key, value, other);
    }
}

/// Where no pair has the key, putting a value anew changes nothing.
proof fn lemma_replace_last_none(
    pairs: Seq<(Seq<char>, Seq<char>)>,
    key: Seq<char>,
    value: Seq<char>,
)
    requires
        lookup(pairs, key) is None,
    ensures
        replace_last(pairs, key, value) == pairs,
    decreases pairs.len(),
{
    if pairs.len() > 0 {
        lemma_replace_last_none(pairs.drop_last(), key, value);
        assert(pairs.drop_last().push(pairs.last()) =~= pairs);
    }
}

/// A token added behind a space is the last pair, behind all that were there.
pub proof fn lemma_appended_value(s: Seq<char>, key: Seq<char>, value: Seq<char>)
    requires
        is_atom_text(key),
        is_atom_text(value),
    ensures
        kv_pairs(s.push(' ') + token(key, value), 0) == kv_pairs(s, 0).push((key, value)),
        lookup(kv_pairs(s.push(' ') + token(key, value), 0), key) == Some(value),
{
    lemma_append_value_from(s, key, value, 0);
    let pairs = kv_pairs(s, 0).push((key, value));
    assert(pairs.last() == (key, value));
}

/// A date written as `YYYY-MM-DD` can be a value.
pub proof fn lemma_date_is_atom_text(d: Date)
    requires
        d.is_valid(),
    ensures
        is_atom_text(format_date(d)),
{
    lemma_parse_of_format(d);
    let s = format_date(d);
    assert forall|j: int| 0 <= j < s.len() implies is_atom_char(#[trigger] s[j]) by {
        if j == 0 || j == 1 || j == 2 || j == 3 || j == 5 || j == 6 || j == 8 || j == 9 {
        } else {
            assert(j == 4 || j == 7);
        }
    }
}

/// Where the last pair of `s` with the key `key` stands.
pub(crate) fn pair_bounds_of(s: &Vec<char>, key: &Vec<char>) -> (r: Option<(usize, usize)>)
    ensures
        match r {
            Some((a, e)) => pair_bounds(s@, key@, 0) == Some((a as int, e as int)) && a <= e
                <= s.len(),
            None => pair_bounds(s@, key@, 0) is None,
        },
{
    let mut found: Option<(usize, usize)> = None;
    let mut i: usize = 0;
    while i < s.len()
        invariant
            i <= s.len(),
            found matches Some((a, e)) ==> a <= e <= s.len(),
            pair_bounds(s@, key@, 0) == match pair_bounds(s@, key@, i as int) {
                Some(later) => Some(later),
                None => match found {
                    Some((a, e)) => Some((a as int, e as int)),
                    None => None,
                },
            },
        decreases s.len() - i,
    {
        let k = atom_end_from(s, i);
        if k <= i {
            i += 1;
        } else if s.len() - k >= 2 && s[k] == ':' && is_atom(s[k + 1]) {
            let e = atom_end_from(s, k + 1);
            if same_chars(&slice_of(s, i, k), key) {
                found = Some((i, e));
            }
            i = e;
        } else {
            i = k;
        }
    }
    found
}

} // verus!
