//! Mapping raw quotes to published outcome records.

use vstd::prelude::*;
use vstd::string::StringExecFns;

use crate::digits::dec_str;
use crate::digits::u64_to_string;
use crate::index::Index;
use crate::timestamp::FormatError;
use crate::timestamp::Timestamp;

verus! {

/// One element of the quote API's response, reduced to the fields the
/// mapping reads. The price arrives already truncated toward zero to
/// a whole unit by the caller that owns the floating-point wire value.
#[derive(Clone, Copy, Debug, PartialEq, Eq, Structural)]
pub struct Quote {
    pub timestamp: Timestamp,
    pub last_price: u64,
}

/// A published outcome record: a globally stable identifier and the
/// observed value rendered as a decimal string.
#[derive(Debug, Clone, PartialEq)]
pub struct BitmexOutcome {
    pub id: String,
    pub outcome: String,
}

/// The canonical record identifier:
/// `/<SYMBOL>/<YYYY-MM-DDTHH:MM:SS>.price`.
pub open spec fn spec_outcome_id(index: Index, timestamp: Timestamp) -> Seq<char> {
    "/"@ + index.spec_symbol() + "/"@ + timestamp.spec_render() + ".price"@
}

/// `outcome` is the record that mapping `quote` under `index` must
/// produce: the canonical identifier and the decimal price.
pub open spec fn is_outcome_for(outcome: BitmexOutcome, quote: Quote, index: Index) -> bool {
    &&& quote.timestamp.wf()
    &&& outcome.id@ == spec_outcome_id(index, quote.timestamp)
    &&& outcome.outcome@ == dec_str(quote.last_price as nat)
}

impl BitmexOutcome {
    /// Map one quote to its outcome record. Fails only when the
    /// timestamp cannot be rendered in the canonical pattern.
    pub fn new(quote: Quote, index: Index) -> (r: Result<Self, FormatError>)
        ensures
            match r {
                Ok(outcome) => is_outcome_for(outcome, quote, index),
                Err(_) => !quote.timestamp.wf(),
            },
    {
        if !quote.timestamp.is_wf() {
            return Err(FormatError);
        }
        let rendered = quote.timestamp.render();
        let id = "/".to_owned().concat(index.as_bitmex_symbol()).concat("/").concat(
            rendered.as_str(),
        ).concat(".price");
        let outcome = u64_to_string(quote.last_price);
        proof {
            assert(id@ =~= spec_outcome_id(index, quote.timestamp));
        }
        Ok(BitmexOutcome { id, outcome })
    }
}

/// Mapping a quote is deterministic: any two records that satisfy the
/// mapping contract for the same quote and index agree byte for byte,
/// in the identifier and in the outcome value.
pub proof fn lemma_map_quote_deterministic(
    a: BitmexOutcome,
    b: BitmexOutcome,
    quote: Quote,
    index: Index,
)
    requires
        is_outcome_for(a, quote, index),
        is_outcome_for(b, quote, index),
    ensures
        a.id@ == b.id@,
        a.outcome@ == b.outcome@,
{
}

/// Map every quote of one response page, preserving order. Fails as a
/// whole as soon as one quote cannot be mapped.
pub fn map_quotes(quotes: &Vec<Quote>, index: Index) -> (r: Result<
    Vec<BitmexOutcome>,
    FormatError,
>)
    ensures
        match r {
            Ok(outcomes) => {
                &&& outcomes@.len() == quotes@.len()
                &&& forall|i: int|
                    0 <= i < quotes@.len() ==> is_outcome_for(
                        #[trigger] outcomes@[i],
                        quotes@[i],
                        index,
                    )
            },
            Err(_) => exists|i: int|
                0 <= i < quotes@.len() && !(#[trigger] quotes@[i]).timestamp.wf(),
        },
{
    let mut outcomes: Vec<BitmexOutcome> = Vec::new();
    let mut i: usize = 0;
    while i < quotes.len()
        invariant
            i <= quotes@.len(),
            outcomes@.len() == i as int,
            forall|j: int|
                0 <= j < i ==> is_outcome_for(#[trigger] outcomes@[j], quotes@[j], index),
        decreases quotes@.len() - i,
    {
        match BitmexOutcome::new(quotes[i], index) {
            Ok(outcome) => outcomes.push(outcome),
            Err(e) => {
                return Err(e);
            },
        }
        i += 1;
    }
    Ok(outcomes)
}

/// The views of a sequence of outcome pages.
pub open spec fn views_of(pages: Seq<Vec<BitmexOutcome>>) -> Seq<Seq<BitmexOutcome>> {
    pages.map_values(|p: Vec<BitmexOutcome>| p@)
}

/// Concatenate the mapped pages in page order, without re-sorting.
pub fn concat_outcomes(pages: Vec<Vec<BitmexOutcome>>) -> (r: Vec<BitmexOutcome>)
    ensures
        r@ == views_of(pages@).flatten(),
{
    let ghost all = views_of(pages@);
    let mut rest = pages;
    let mut r: Vec<BitmexOutcome> = Vec::new();
    while rest.len() != 0
        invariant
            r@ + views_of(rest@).flatten() == all.flatten(),
        decreases rest@.len(),
    {
        let ghost prev = rest@;
        let mut first = rest.remove(0);
        proof {
            assert(views_of(prev).flatten() == views_of(prev).first() + views_of(
                prev,
            ).drop_first().flatten());
            assert(views_of(rest@) =~= views_of(prev).drop_first());
        }
        r.append(&mut first);
        proof {
            assert(r@ + views_of(rest@).flatten() =~= all.flatten());
        }
    }
    proof {
        assert(views_of(rest@).flatten() =~= Seq::<BitmexOutcome>::empty());
        assert(r@ =~= all.flatten());
    }
    r
}

} // verus!
