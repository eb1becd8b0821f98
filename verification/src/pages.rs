//! Pagination planning for a size-capped results API.

use vstd::prelude::*;
use vstd::arithmetic::div_mod::lemma_fundamental_div_mod;
use vstd::arithmetic::mul::lemma_mul_inequality;
use vstd::arithmetic::mul::lemma_mul_is_distributive_add_other_way;
use vstd::arithmetic::mul::lemma_mul_nonnegative;
use vstd::arithmetic::mul::lemma_mul_strict_inequality;

verus! {

/// Maximum number of results returned by BitMEX APIs per page.
pub const BITMEX_MAX_RESULT_COUNT: u32 = 500;

/// Structure of a page of results for a BitMEX API request.
///
/// BitMEX API requests can only return 500 elements at a time. In
/// order to access the entire result space we have to use the `count`
/// and `start` parameters to paginate.
#[derive(Clone, Copy, Debug, PartialEq, Eq, Structural)]
pub struct ResultsPage {
    /// Number of results in the page.
    ///
    /// Maximum value of 500.
    pub count: u32,
    /// Index used as a starting point for the page.
    pub start: u32,
}

/// Configuration of paginated results for a BitMEX API.
pub struct ResultsPages(pub Vec<ResultsPage>);

/// Sum of the `count` fields over a sequence of pages.
pub open spec fn sum_counts(pages: Seq<ResultsPage>) -> int
    decreases pages.len(),
{
    if pages.len() == 0 {
        0
    } else {
        sum_counts(pages.drop_last()) + pages.last().count
    }
}

/// The plan that covers exactly `total` results with pages of at most
/// `max` results each: `total / max` full pages in ascending offset
/// order, then one page holding the remainder if there is one.
///
/// The closing clauses state the guarantees the plan gives its
/// consumer: counts sum to `total`, no page is empty, offsets start at
/// zero, are contiguous and strictly increase.
pub open spec fn is_page_plan(pages: Seq<ResultsPage>, total: int, max: int) -> bool {
    &&& pages.len() == total / max + if total % max != 0 {
        1int
    } else {
        0int
    }
    &&& forall|i: int| 0 <= i < total / max ==> (#[trigger] pages[i]).count == max
    &&& total % max != 0 ==> pages.last().count == total % max
    &&& forall|i: int| 0 <= i < pages.len() ==> (#[trigger] pages[i]).start == i * max
    &&& sum_counts(pages) == total
    &&& forall|i: int| 0 <= i < pages.len() ==> 1 <= (#[trigger] pages[i]).count <= max
    &&& forall|i: int|
        0 <= i < pages.len() - 1 ==> (#[trigger] pages[i + 1]).start == pages[i].start
            + pages[i].count
    &&& forall|i: int, j: int|
        0 <= i < j < pages.len() ==> (#[trigger] pages[i]).start < (#[trigger] pages[j]).start
    &&& pages.len() > 0 ==> pages[0].start == 0
}

proof fn lemma_sum_counts_push(pages: Seq<ResultsPage>, page: ResultsPage)
    ensures
        sum_counts(pages.push(page)) == sum_counts(pages) + page.count,
{
    assert(pages.push(page).drop_last() =~= pages);
}

/// Partition `total` requested results into pages of at most `max`
/// results each, in ascending offset order.
pub fn paginate(total: u32, max: u32) -> (r: Vec<ResultsPage>)
    requires
        max >= 1,
    ensures
        is_page_plan(r@, total as int, max as int),
{
    let full_pages: u32 = total / max;
    let partial_page: u32 = total % max;
    proof {
        lemma_fundamental_div_mod(total as int, max as int);
    }
    let mut pages: Vec<ResultsPage> = Vec::new();
    let mut i: u32 = 0;
    while i < full_pages
        invariant
            max >= 1,
            full_pages == total as int / max as int,
            partial_page == total as int % max as int,
            total == full_pages * max + partial_page,
            i <= full_pages,
            pages@.len() == i as int,
            forall|j: int|
                0 <= j < i ==> (#[trigger] pages@[j]).count == max && pages@[j].start == j * max,
            sum_counts(pages@) == i as int * max as int,
        decreases full_pages - i,
    {
        proof {
            lemma_mul_nonnegative(i as int, max as int);
            lemma_mul_inequality(i as int + 1, full_pages as int, max as int);
            lemma_mul_is_distributive_add_other_way(max as int, i as int, 1);
        }
        let start: u32 = i * max;
        proof {
            lemma_sum_counts_push(pages@, ResultsPage { count: max, start });
        }
        pages.push(ResultsPage { count: max, start });
        i += 1;
    }
    if partial_page != 0 {
        let start: u32 = full_pages * max;
        proof {
            lemma_sum_counts_push(pages@, ResultsPage { count: partial_page, start });
        }
        pages.push(ResultsPage { count: partial_page, start });
    }
    proof {
        assert forall|a: int, b: int| 0 <= a < b < pages@.len() implies (#[trigger] pages@[a]).start
            < (#[trigger] pages@[b]).start by {
            lemma_mul_strict_inequality(a, b, max as int);
        }
        assert forall|k: int| 0 <= k < pages@.len() - 1 implies (#[trigger] pages@[k + 1]).start
            == pages@[k].start + pages@[k].count by {
            lemma_mul_is_distributive_add_other_way(max as int, k, 1);
        }
    }
    pages
}

impl ResultsPages {
    /// Build a configuration of paginated results based on the total
    /// number of results wanted in the request.
    pub fn new(n_results: u32) -> (r: Self)
        ensures
            is_page_plan(r.0@, n_results as int, BITMEX_MAX_RESULT_COUNT as int),
    {
        ResultsPages(paginate(n_results, BITMEX_MAX_RESULT_COUNT))
    }
}

} // verus!
