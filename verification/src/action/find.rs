//! Search for a task

use vstd::prelude::*;
use crate::action::term_fits;
use crate::action::SearchTerms;
use crate::item::Item;
use crate::list::item_refs;
use crate::list::List;
use crate::util::kept;
use crate::util::lemma_kept_step;
use crate::util::Test;

verus! {

/// The name of the default sort order for output.
pub fn default_sort_order() -> (r: &'static str)
    ensures
        r@ == "smart"@,
{
    "smart"
}

/// The tasks of `items` that fit every one of the search terms `terms`.
pub open spec fn narrowed<'a>(items: Seq<&'a Item>, terms: Seq<Seq<char>>) -> Seq<&'a Item>
    decreases terms.len(),
{
    if terms.len() == 0 {
        items
    } else {
        kept(narrowed(items, terms.drop_last()), Test::Term(terms.last()))
    }
}

/// The tasks of `items` that fit the search term `term`.
pub fn find_items_by_term<'a>(term: &str, items: Vec<&'a Item>) -> (r: Vec<&'a Item>)
    requires
        crate::action::term_is_readable(term@),
    ensures
        r@ == kept(items@, Test::Term(term@)),
{
    let ghost t = Test::Term(term@);
    let mut r: Vec<&'a Item> = Vec::new();
    let mut k: usize = 0;
    while k < items.len()
        invariant
            k <= items.len(),
            crate::action::term_is_readable(term@),
            t == Test::Term(term@),
            r@ == kept(items@.take(k as int), t),
        decreases items.len() - k,
    {
        proof {
            lemma_kept_step(items@, t, k as int);
        }
        if term_fits(term, items[k]) {
            r.push(items[k]);
        }
        k += 1;
    }
    assert(items@.take(items.len() as int) =~= items@);
    r
}

/// Given search terms and a list, returns items from the list matching the search terms.
///
/// If there is more than one search term, then each item returned will match all terms.
/// That is, the search terms are combined with an AND operator, not an OR operator.
pub fn find_results<'a, 'b: 'a>(search_terms: &'a SearchTerms, list: &'b List) -> (r: Vec<
    &'a Item,
>)
    requires
        search_terms.is_readable(),
    ensures
        r@ == narrowed(item_refs(list.lines@), search_terms.terms.deep_view()),
{
    let mut results: Vec<&'a Item> = list.items();
    let ghost terms = search_terms.terms.deep_view();
    let mut k: usize = 0;
    assert(terms.take(0) =~= Seq::<Seq<char>>::empty());
    while k < search_terms.terms.len()
        invariant
            k <= search_terms.terms.len(),
            search_terms.is_readable(),
            terms == search_terms.terms.deep_view(),
            results@ == narrowed(item_refs(list.lines@), terms.take(k as int)),
        decreases search_terms.terms.len() - k,
    {
        proof {
            assert(terms.take(k + 1).drop_last() =~= terms.take(k as int));
            assert(terms.take(k + 1).last() == search_terms.terms[k as int]@);
        }
        results = find_items_by_term(search_terms.terms[k].as_str(), results);
        k += 1;
    }
    assert(terms.take(search_terms.terms.len() as int) =~= terms);
    results
}

} // verus!
