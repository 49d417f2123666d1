//! The batch-cycle decisions.
//!
//! For every offer in a monitoring cycle the orchestrator runs
//! acquisition, turns the outcome into a price row (or skips the
//! offer), folds the outcome category into the cycle counters, and
//! asks the notification trigger whether subscribers should hear of a
//! price drop.  Everything here is a pure decision; the reads, writes
//! and emails around it stay with the caller.

use vstd::prelude::*;

use crate::models::Availability;
use crate::models::CreatePriceInput;
use crate::models::Price;
use crate::numeric::Decimal;
use crate::numeric::dec_lt;
use crate::price_scraper::GetPriceError;

verus! {

/// How one acquisition outcome is persisted: the availability
/// classification and row value, or no row at all for an unsupported
/// page.
pub open spec fn spec_classify(offer_id: i32, result: Result<Decimal, GetPriceError>) -> Option<
    CreatePriceInput,
> {
    match result {
        Ok(v) => Some(
            CreatePriceInput { offer_id, value: Some(v), availability: Availability::Available },
        ),
        Err(GetPriceError::PriceNotFound) => Some(
            CreatePriceInput { offer_id, value: None, availability: Availability::PriceNotFound },
        ),
        Err(GetPriceError::Redirected) => Some(
            CreatePriceInput { offer_id, value: None, availability: Availability::SiteNotFound },
        ),
        Err(GetPriceError::ErrorDownloadingPage) => Some(
            CreatePriceInput { offer_id, value: None, availability: Availability::Unavailable },
        ),
        Err(GetPriceError::PageDownloadTimeout) => Some(
            CreatePriceInput { offer_id, value: None, availability: Availability::Unavailable },
        ),
        Err(GetPriceError::PageNotSupported) => None,
    }
}

/// Turn one acquisition outcome into the row to append for `offer_id`:
/// a price on success, a value-less row naming the failure class, and
/// no row (the offer is skipped) when the page is not supported.
pub fn classify_price_result(offer_id: i32, result: &Result<Decimal, GetPriceError>) -> (r: Option<
    CreatePriceInput,
>)
    requires
        result matches Ok(d) ==> d.wf(),
    ensures
        r == spec_classify(offer_id, *result),
        r matches Some(c) ==> c.wf(),
{
    match result {
        Ok(v) => Some(
            CreatePriceInput { offer_id, value: Some(*v), availability: Availability::Available },
        ),
        Err(GetPriceError::PriceNotFound) => Some(
            CreatePriceInput { offer_id, value: None, availability: Availability::PriceNotFound },
        ),
        Err(GetPriceError::Redirected) => Some(
            CreatePriceInput { offer_id, value: None, availability: Availability::SiteNotFound },
        ),
        Err(GetPriceError::ErrorDownloadingPage) => Some(
            CreatePriceInput { offer_id, value: None, availability: Availability::Unavailable },
        ),
        Err(GetPriceError::PageDownloadTimeout) => Some(
            CreatePriceInput { offer_id, value: None, availability: Availability::Unavailable },
        ),
        Err(GetPriceError::PageNotSupported) => None,
    }
}

/// Per-cycle counters, one per outcome category.
#[derive(Clone, Copy, Debug, PartialEq, Eq, Structural)]
pub struct Stats {
    pub all: u64,
    pub success: u64,
    pub price_not_found: u64,
    pub redirected: u64,
    pub other_error: u64,
    pub page_not_supported: u64,
}

impl Default for Stats {
    fn default() -> (r: Stats)
        ensures
            r == (Stats {
                all: 0u64,
                success: 0u64,
                price_not_found: 0u64,
                redirected: 0u64,
                other_error: 0u64,
                page_not_supported: 0u64,
            }),
    {
        Stats {
            all: 0,
            success: 0,
            price_not_found: 0,
            redirected: 0,
            other_error: 0,
            page_not_supported: 0,
        }
    }
}

impl Stats {
    /// The offers handled so far: every category but the total.
    pub open spec fn spec_done(self) -> int {
        self.success + self.price_not_found + self.redirected + self.other_error
            + self.page_not_supported
    }

    /// The counters after folding in one more outcome.
    pub open spec fn spec_record(self, result: Result<Decimal, GetPriceError>) -> Stats {
        match result {
            Ok(_) => (Stats { success: (self.success + 1) as u64, ..self }),
            Err(GetPriceError::PriceNotFound) => (Stats {
                price_not_found: (self.price_not_found + 1) as u64,
                ..self
            }),
            Err(GetPriceError::Redirected) => (Stats {
                redirected: (self.redirected + 1) as u64,
                ..self
            }),
            Err(GetPriceError::ErrorDownloadingPage) => (Stats {
                other_error: (self.other_error + 1) as u64,
                ..self
            }),
            Err(GetPriceError::PageDownloadTimeout) => (Stats {
                other_error: (self.other_error + 1) as u64,
                ..self
            }),
            Err(GetPriceError::PageNotSupported) => (Stats {
                page_not_supported: (self.page_not_supported + 1) as u64,
                ..self
            }),
        }
    }

    /// How many offers have been fully handled.
    pub fn done(&self) -> (r: u64)
        requires
            self.spec_done() <= u64::MAX,
        ensures
            r == self.spec_done(),
    {
        self.success + self.price_not_found + self.redirected + self.other_error
            + self.page_not_supported
    }

    /// Fold one outcome category into the counters.
    pub fn record(&mut self, result: &Result<Decimal, GetPriceError>)
        requires
            old(self).spec_done() < u64::MAX,
        ensures
            *final(self) == old(self).spec_record(*result),
    {
        match result {
            Ok(_) => {
                self.success = self.success + 1;
            },
            Err(GetPriceError::PriceNotFound) => {
                self.price_not_found = self.price_not_found + 1;
            },
            Err(GetPriceError::Redirected) => {
                self.redirected = self.redirected + 1;
            },
            Err(GetPriceError::ErrorDownloadingPage) => {
                self.other_error = self.other_error + 1;
            },
            Err(GetPriceError::PageDownloadTimeout) => {
                self.other_error = self.other_error + 1;
            },
            Err(GetPriceError::PageNotSupported) => {
                self.page_not_supported = self.page_not_supported + 1;
            },
        }
    }
}

/// The available rows of a history, newest first as the history is.
pub open spec fn available_prices(ps: Seq<Price>) -> Seq<Price> {
    ps.filter(|p: Price| p.availability == Availability::Available)
}

/// The notification rule: of the available rows of the history
/// (newest first), the newest must be strictly cheaper than the one
/// before it; with fewer than two available rows nobody is notified.
pub open spec fn spec_should_notify(ps: Seq<Price>) -> bool {
    let av = available_prices(ps);
    av.len() >= 2 && av[0].value.unwrap().spec_lt(av[1].value.unwrap())
}

/// Decide from a price history (newest first) whether to notify, and
/// of which price drop: the new row and the previous available one.
pub fn notification_decision(prices: &Vec<Price>) -> (r: Option<(Price, Price)>)
    requires
        forall|i: int| 0 <= i < prices@.len() ==> (#[trigger] prices@[i]).wf(),
    ensures
        r is Some <==> spec_should_notify(prices@),
        r matches Some(p) ==> ({
            let av = available_prices(prices@);
            p.0 == av[0] && p.1 == av[1]
        }),
{
    let ghost pred = |p: Price| p.availability == Availability::Available;
    let mut newest: Option<Price> = None;
    let mut previous: Option<Price> = None;
    let mut i: usize = 0;
    proof {
        assert(prices@.take(0) =~= Seq::<Price>::empty());
        assert(Seq::<Price>::empty().filter(pred) =~= Seq::<Price>::empty()) by {
            reveal_with_fuel(Seq::filter, 1);
        }
    }
    while i < prices.len() && previous.is_none()
        invariant
            i <= prices@.len(),
            forall|k: int| 0 <= k < prices@.len() ==> (#[trigger] prices@[k]).wf(),
            pred == (|p: Price| p.availability == Availability::Available),
            newest matches Some(n) ==> n.wf() && n.availability == Availability::Available,
            previous matches Some(pv) ==> pv.wf() && pv.availability == Availability::Available,
            ({
                let av = prices@.take(i as int).filter(pred);
                &&& av.len() <= 1 ==> previous is None
                &&& av.len() == 0 <==> newest is None
                &&& av.len() >= 1 ==> newest == Some(av[0])
                &&& av.len() >= 2 ==> previous == Some(av[1]) && av.len() == 2
            }),
        decreases prices@.len() - i,
    {
        let ghost av_before = prices@.take(i as int).filter(pred);
        proof {
            assert(prices@.take(i as int + 1).drop_last() =~= prices@.take(i as int));
            assert(prices@.take(i as int + 1).last() == prices@[i as int]);
            reveal_with_fuel(Seq::filter, 1);
        }
        let p = &prices[i];
        if matches!(p.availability, Availability::Available) {
            if newest.is_none() {
                newest = Some(*p);
            } else {
                previous = Some(*p);
            }
            proof {
                assert(prices@.take(i as int + 1).filter(pred) =~= av_before.push(
                    prices@[i as int],
                ));
            }
        }
        i = i + 1;
    }
    proof {
        let av_full = available_prices(prices@);
        let av_seen = prices@.take(i as int).filter(pred);
        assert(prices@ =~= prices@.take(i as int) + prices@.skip(i as int));
        Seq::filter_distributes_over_add(prices@.take(i as int), prices@.skip(i as int), pred);
        if previous is Some {
            // stopped early: two available rows already in hand
            assert(av_seen.len() == 2);
            assert(av_full[0] == av_seen[0]);
            assert(av_full[1] == av_seen[1]);
            assert(av_full.len() >= 2);
        } else {
            assert(i == prices@.len());
            assert(prices@.skip(i as int) =~= Seq::<Price>::empty());
            assert(Seq::<Price>::empty().filter(pred) =~= Seq::<Price>::empty()) by {
                reveal_with_fuel(Seq::filter, 1);
            }
            assert(av_full =~= av_seen);
        }
    }
    match (newest, previous) {
        (Some(n), Some(p)) => {
            if dec_lt(&n.value.unwrap(), &p.value.unwrap()) {
                Some((n, p))
            } else {
                None
            }
        },
        _ => None,
    }
}

} // verus!
