//! Stable sorting by a key: the order in which tasks are shown.
//!
//! A key is a number or a text. The sorted order is fixed by the keys alone:
//! smaller keys come first, and where neither of two keys is smaller, what
//! stood first stays first.

use vstd::prelude::*;

verus! {

/// The key by which one thing is sorted.
#[derive(Debug)]
pub enum SortKey {
    Number(u64),
    Text(Vec<char>),
}

/// A key, as a mathematical value.
pub enum KeyView {
    Number(int),
    Text(Seq<char>),
}

impl View for SortKey {
    type V = KeyView;

    open spec fn view(&self) -> KeyView {
        match self {
            SortKey::Number(n) => KeyView::Number(*n as int),
            SortKey::Text(t) => KeyView::Text(t@),
        }
    }
}

/// The keys `keys`, as mathematical values.
pub open spec fn key_views(keys: Seq<SortKey>) -> Seq<KeyView> {
    keys.map_values(|k: SortKey| k@)
}

/// Whether the text `a` comes before the text `b` in the dictionary, letters
/// taken in the order of their code points: at the first place where the two
/// differ `a` has the smaller character, or `a` ends there and `b` goes on.
pub open spec fn text_before(a: Seq<char>, b: Seq<char>) -> bool
    decreases a.len(),
{
    if b.len() == 0 {
        false
    } else if a.len() == 0 {
        true
    } else if a[0] != b[0] {
        a[0] < b[0]
    } else {
        text_before(a.drop_first(), b.drop_first())
    }
}

/// Whether the key `a` is smaller than the key `b`. Numbers go by size and
/// texts by the dictionary; a number is smaller than any text.
pub open spec fn key_before(a: KeyView, b: KeyView) -> bool {
    match (a, b) {
        (KeyView::Number(x), KeyView::Number(y)) => x < y,
        (KeyView::Text(x), KeyView::Text(y)) => text_before(x, y),
        (KeyView::Number(_), KeyView::Text(_)) => true,
        (KeyView::Text(_), KeyView::Number(_)) => false,
    }
}

/// No text comes before itself, and of two texts at most one comes before the other.
pub proof fn lemma_text_before_one_way(a: Seq<char>, b: Seq<char>)
    ensures
        !(text_before(a, b) && text_before(b, a)),
    decreases a.len(),
{
    if a.len() > 0 && b.len() > 0 && a[0] == b[0] {
        lemma_text_before_one_way(a.drop_first(), b.drop_first());
    }
}

/// What comes before `b` comes before everything that `b` does not follow.
pub proof fn lemma_text_before_carries(a: Seq<char>, b: Seq<char>, c: Seq<char>)
    requires
        text_before(a, b),
        !text_before(c, b),
    ensures
        text_before(a, c),
    decreases a.len(),
{
    if a.len() > 0 && b.len() > 0 && c.len() > 0 && a[0] == b[0] && b[0] == c[0] {
        lemma_text_before_carries(a.drop_first(), b.drop_first(), c.drop_first());
    }
}

/// Of two keys at most one is smaller than the other.
pub proof fn lemma_key_before_one_way(a: KeyView, b: KeyView)
    ensures
        !(key_before(a, b) && key_before(b, a)),
{
    match (a, b) {
        (KeyView::Text(x), KeyView::Text(y)) => {
            lemma_text_before_one_way(x, y);
        },
        _ => {},
    }
}

/// What is smaller than `b` is smaller than everything that is not smaller than `b`.
pub proof fn lemma_key_before_carries(a: KeyView, b: KeyView, c: KeyView)
    requires
        key_before(a, b),
        !key_before(c, b),
    ensures
        key_before(a, c),
{
    match (a, b, c) {
        (KeyView::Text(x), KeyView::Text(y), KeyView::Text(z)) => {
            lemma_text_before_carries(x, y, z);
        },
        _ => {},
    }
}

/// Whether, of the things with the keys `keys`, the one at `i` stands before
/// the one at `j` once they are sorted: its key is smaller, or neither key is
/// smaller and it stood first.
pub open spec fn comes_before(keys: Seq<KeyView>, i: int, j: int) -> bool {
    key_before(keys[i], keys[j]) || (!key_before(keys[j], keys[i]) && i < j)
}

/// Whether `order` lists the first `n` places of `keys` in sorted order:
/// `order[k]` is the place in `keys` of what stands at place `k` when sorted.
/// No place is listed twice, since nothing comes before itself.
pub open spec fn is_sorted_order(keys: Seq<KeyView>, order: Seq<int>, n: int) -> bool {
    &&& order.len() == n
    &&& forall|k: int| 0 <= k < order.len() ==> 0 <= #[trigger] order[k] < n
    &&& forall|a: int, b: int|
        0 <= a < b < order.len() ==> comes_before(keys, #[trigger] order[a], #[trigger] order[b])
}

/// Whether `order` lists the places of `keys` in sorted order.
pub open spec fn is_stable_sort(keys: Seq<KeyView>, order: Seq<int>) -> bool {
    is_sorted_order(keys, order, keys.len() as int)
}

/// Where, in the sorted order `order`, something with the key `k` goes that
/// stood behind all that `order` lists: before the first place at or after
/// `from` whose key `k` is smaller than, or at the end.
pub open spec fn place_for(keys: Seq<KeyView>, order: Seq<int>, k: KeyView, from: int) -> int
    decreases order.len() - from,
{
    if from < 0 || from >= order.len() {
        order.len() as int
    } else if key_before(k, keys[order[from]]) {
        from
    } else {
        place_for(keys, order, k, from + 1)
    }
}

/// The first `n` places of `keys` in sorted order: each place in turn goes
/// into the order of those before it, behind every key that is not larger
/// than its own.
pub open spec fn sorted_places(keys: Seq<KeyView>, n: int) -> Seq<int>
    decreases n,
{
    if n <= 0 {
        seq![]
    } else {
        let before = sorted_places(keys, n - 1);
        before.insert(place_for(keys, before, keys[n - 1], 0), n - 1)
    }
}

/// The places of `keys` in sorted order.
pub open spec fn stable_sorted(keys: Seq<KeyView>) -> Seq<int> {
    sorted_places(keys, keys.len() as int)
}

proof fn lemma_place_for(keys: Seq<KeyView>, order: Seq<int>, k: KeyView, from: int)
    requires
        0 <= from <= order.len(),
    ensures
        from <= place_for(keys, order, k, from) <= order.len(),
        forall|a: int|
            from <= a < place_for(keys, order, k, from) ==> !key_before(k, keys[#[trigger] order[a]]),
        place_for(keys, order, k, from) < order.len() ==> key_before(
            k,
            keys[order[place_for(keys, order, k, from)]],
        ),
    decreases order.len() - from,
{
    if from < order.len() && !key_before(k, keys[order[from]]) {
        lemma_place_for(keys, order, k, from + 1);
    }
}

/// Putting the place `n` into the sorted order of the places before it
/// gives the sorted order of the places up to `n`.
proof fn lemma_insert_keeps_sorted(keys: Seq<KeyView>, before: Seq<int>, n: int)
    requires
        0 <= n < keys.len(),
        is_sorted_order(keys, before, n),
    ensures
        is_sorted_order(keys, before.insert(place_for(keys, before, keys[n], 0), n), n + 1),
{
    let pos = place_for(keys, before, keys[n], 0);
    lemma_place_for(keys, before, keys[n], 0);
    let after = before.insert(pos, n);
    assert forall|a: int, b: int| 0 <= a < b < after.len() implies comes_before(
        keys,
        #[trigger] after[a],
        #[trigger] after[b],
    ) by {
        if b < pos {
            assert(after[a] == before[a] && after[b] == before[b]);
        } else if b == pos {
            assert(after[a] == before[a]);
        } else if a > pos {
            assert(after[a] == before[a - 1] && after[b] == before[b - 1]);
        } else if a == pos {
            assert(after[b] == before[b - 1]);
            assert(key_before(keys[n], keys[before[pos]]));
            if b - 1 > pos {
                assert(comes_before(keys, before[pos], before[b - 1]));
                lemma_key_before_one_way(keys[before[pos]], keys[before[b - 1]]);
                lemma_key_before_carries(keys[n], keys[before[pos]], keys[before[b - 1]]);
            }
        } else {
            assert(after[a] == before[a] && after[b] == before[b - 1]);
        }
    }
    assert forall|k: int| 0 <= k < after.len() implies 0 <= #[trigger] after[k] < n + 1 by {
        if k < pos {
            assert(after[k] == before[k]);
        } else if k > pos {
            assert(after[k] == before[k - 1]);
        }
    }
}

/// The sorted order is sorted, and stable: smaller keys come first, and of
/// two things of which neither has the smaller key, the one that stood
/// first stays first.
pub proof fn lemma_sorted_places_in_order(keys: Seq<KeyView>, n: int)
    requires
        0 <= n <= keys.len(),
    ensures
        is_sorted_order(keys, sorted_places(keys, n), n),
    decreases n,
{
    if n > 0 {
        lemma_sorted_places_in_order(keys, n - 1);
        lemma_insert_keeps_sorted(keys, sorted_places(keys, n - 1), n - 1);
    }
}

/// `stable_sorted` is a stable sort.
pub proof fn lemma_stable_sorted(keys: Seq<KeyView>)
    ensures
        is_stable_sort(keys, stable_sorted(keys)),
{
    lemma_sorted_places_in_order(keys, keys.len() as int);
}

/// The places `order`, as integers.
pub open spec fn places(order: Seq<usize>) -> Seq<int> {
    order.map_values(|i: usize| i as int)
}

/// Whether the text `a` comes before the text `b` in the dictionary.
pub fn text_is_before(a: &Vec<char>, b: &Vec<char>) -> (r: bool)
    ensures
        r == text_before(a@, b@),
{
    let mut i: usize = 0;
    assert(a@.skip(0) =~= a@);
    assert(b@.skip(0) =~= b@);
    loop
        invariant
            i <= a.len(),
            i <= b.len(),
            text_before(a@, b@) == text_before(a@.skip(i as int), b@.skip(i as int)),
        decreases a.len() - i,
    {
        if i >= b.len() {
            return false;
        }
        if i >= a.len() {
            return true;
        }
        if a[i] != b[i] {
            return a[i] < b[i];
        }
        assert(a@.skip(i as int).drop_first() =~= a@.skip(i + 1));
        assert(b@.skip(i as int).drop_first() =~= b@.skip(i + 1));
        i += 1;
    }
}

/// Whether the key `a` is smaller than the key `b`.
pub fn key_is_before(a: &SortKey, b: &SortKey) -> (r: bool)
    ensures
        r == key_before(a@, b@),
{
    match a {
        SortKey::Number(x) => match b {
            SortKey::Number(y) => *x < *y,
            SortKey::Text(_) => true,
        },
        SortKey::Text(x) => match b {
            SortKey::Number(_) => false,
            SortKey::Text(y) => text_is_before(x, y),
        },
    }
}

/// The sorted order of the places of `keys`.
pub fn stable_order(keys: &Vec<SortKey>) -> (order: Vec<usize>)
    ensures
        places(order@) == stable_sorted(key_views(keys@)),
        is_stable_sort(key_views(keys@), places(order@)),
        order.len() == keys.len(),
{
    let ghost kv = key_views(keys@);
    let mut order: Vec<usize> = Vec::new();
    let mut n: usize = 0;
    assert(places(order@) =~= sorted_places(kv, 0));
    while n < keys.len()
        invariant
            n <= keys.len(),
            kv == key_views(keys@),
            places(order@) == sorted_places(kv, n as int),
            is_sorted_order(kv, places(order@), n as int),
        decreases keys.len() - n,
    {
        let mut pos: usize = 0;
        loop
            invariant
                n < keys.len(),
                pos <= order.len(),
                kv == key_views(keys@),
                is_sorted_order(kv, places(order@), n as int),
                place_for(kv, places(order@), kv[n as int], 0) == place_for(
                    kv,
                    places(order@),
                    kv[n as int],
                    pos as int,
                ),
            ensures
                pos == place_for(kv, places(order@), kv[n as int], 0),
                pos <= order.len(),
            decreases order.len() - pos,
        {
            if pos >= order.len() {
                break ;
            }
            let at = order[pos];
            assert(places(order@)[pos as int] == at);
            if key_is_before(&keys[n], &keys[at]) {
                break ;
            }
            pos += 1;
        }
        let ghost before = places(order@);
        order.insert(pos, n);
        proof {
            assert(places(order@) =~= before.insert(pos as int, n as int));
            lemma_insert_keeps_sorted(kv, before, n as int);
        }
        n += 1;
    }
    order
}

} // verus!
