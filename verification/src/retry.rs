//! Acquisition with retry.
//!
//! A single attempt may fail transiently (timeout, session setup,
//! source extraction); the policy sleeps and retries such failures up
//! to a bounded number of extra attempts, doubling the backoff delay
//! after every failed attempt.  A permanent failure, or a page with no
//! readable price, ends the run at once.
//!
//! The engine is pure: the driver below consumes recorded download
//! outcomes, one per attempt, and reports the backoff delays the
//! caller is to sleep.  The step functions at the end serve a live
//! loop that downloads, consults the policy, sleeps and repeats.

use vstd::prelude::*;

use crate::download::DownloadOutcome;
use crate::numeric::Decimal;
use crate::price_scraper::AttemptError;
use crate::price_scraper::GetPriceError;
use crate::price_scraper::PriceScraper;
use crate::price_scraper::spec_to_get_price_error;
use crate::price_scraper::to_get_price_error;

verus! {

/// Whether an attempt outcome is worth retrying.
pub open spec fn is_transient_result(r: Result<Decimal, AttemptError>) -> bool {
    r matches Err(AttemptError::Transient(_))
}

/// An attempt outcome in surface terms.
pub open spec fn to_price_result(r: Result<Decimal, AttemptError>) -> Result<
    Decimal,
    GetPriceError,
> {
    match r {
        Ok(d) => Ok(d),
        Err(e) => Err(spec_to_get_price_error(e)),
    }
}

/// `2^e`.
pub open spec fn spec_pow2(e: nat) -> nat
    decreases e,
{
    if e == 0 {
        1
    } else {
        2 * spec_pow2((e - 1) as nat)
    }
}

proof fn lemma_pow2_monotone(a: nat, b: nat)
    requires
        a <= b,
    ensures
        spec_pow2(a) <= spec_pow2(b),
    decreases b,
{
    if a < b {
        lemma_pow2_monotone(a, (b - 1) as nat);
    }
}

proof fn lemma_pow2_59_fits()
    ensures
        10 * spec_pow2(59) < u64::MAX,
{
    reveal_with_fuel(spec_pow2, 60);
}

/// How many attempts a retry run makes on these outcomes: one more
/// than the leading transient failures, capped by the budget.
pub open spec fn retry_attempts(rs: Seq<Result<Decimal, AttemptError>>, tries: nat) -> nat
    decreases tries,
{
    if rs.len() == 0 {
        0
    } else if !is_transient_result(rs[0]) || tries == 0 {
        1
    } else {
        1 + retry_attempts(rs.drop_first(), (tries - 1) as nat)
    }
}

/// The outcome a retry run ends with: the first decisive outcome, or
/// the last transient failure once the budget is spent.
pub open spec fn retry_result(rs: Seq<Result<Decimal, AttemptError>>, tries: nat) -> Result<
    Decimal,
    AttemptError,
>
    decreases tries,
{
    if rs.len() == 0 {
        Err(AttemptError::PriceNotFound)
    } else if !is_transient_result(rs[0]) || tries == 0 {
        rs[0]
    } else {
        retry_result(rs.drop_first(), (tries - 1) as nat)
    }
}

/// One retry run: its outcome, how many attempts it made, and the
/// backoff delays (in seconds) slept between attempts.
pub struct RetryRun {
    pub result: Result<Decimal, GetPriceError>,
    pub attempts: u64,
    pub delays: Vec<u64>,
}

impl PriceScraper {
    /// The attempt outcomes that these download outcomes amount to.
    pub open spec fn attempt_seq(self, url: Seq<char>, downloads: Seq<DownloadOutcome>) -> Seq<
        Result<Decimal, AttemptError>,
    > {
        Seq::new(downloads.len(), |i: int| self.spec_attempt(url, downloads[i]))
    }

    /// Acquisition with retry, driven from recorded download outcomes:
    /// `downloads[start + i]` is what the downloader returned for
    /// attempt `i`.  The run stops at the first decisive attempt; a
    /// transient failure is retried up to `number_of_tries` extra
    /// attempts, with the backoff delays reported in order.
    pub(crate) fn retry_from(
        &self,
        url: &str,
        number_of_tries: u64,
        downloads: &Vec<DownloadOutcome>,
        start: usize,
    ) -> (r: RetryRun)
        requires
            number_of_tries < 60,
            start <= downloads@.len(),
            downloads@.len() - start > number_of_tries,
        ensures
            ({
                let rs = self.attempt_seq(url@, downloads@.skip(start as int));
                &&& 1 <= r.attempts <= number_of_tries + 1
                &&& r.attempts == retry_attempts(rs, number_of_tries as nat)
                &&& r.result == to_price_result(retry_result(rs, number_of_tries as nat))
                &&& r.result == to_price_result(rs[r.attempts - 1])
                &&& (forall|j: int| 0 <= j < r.attempts - 1 ==> is_transient_result(rs[j]))
                &&& (is_transient_result(rs[r.attempts - 1]) ==> r.attempts == number_of_tries
                    + 1)
                &&& (r.result matches Ok(d) ==> d.wf())
                &&& r.delays@.len() == r.attempts - 1
                &&& (forall|j: int|
                    0 <= j < r.delays@.len() ==> r.delays@[j] == 10 * spec_pow2(j as nat))
            }),
    {
        let ghost rs = self.attempt_seq(url@, downloads@.skip(start as int));
        let n = downloads.len();
        let mut made: u64 = 0;
        let mut delay: u64 = 10;
        let mut delays: Vec<u64> = Vec::new();
        proof {
            assert(rs.skip(0) =~= rs);
        }
        loop
            invariant
                number_of_tries < 60,
                n == downloads@.len(),
                start <= downloads@.len(),
                downloads@.len() - start > number_of_tries,
                made <= number_of_tries,
                rs == self.attempt_seq(url@, downloads@.skip(start as int)),
                rs.len() == downloads@.len() - start,
                forall|j: int| 0 <= j < made ==> is_transient_result(rs[j]),
                retry_attempts(rs, number_of_tries as nat) == made + retry_attempts(
                    rs.skip(made as int),
                    (number_of_tries - made) as nat,
                ),
                retry_result(rs, number_of_tries as nat) == retry_result(
                    rs.skip(made as int),
                    (number_of_tries - made) as nat,
                ),
                delay == 10 * spec_pow2(made as nat),
                delays@.len() == made,
                forall|j: int| 0 <= j < made ==> delays@[j] == 10 * spec_pow2(j as nat),
            decreases number_of_tries - made,
        {
            let idx = start + made as usize;
            let res = self.attempt_price(url, &downloads[idx]);
            proof {
                assert(rs.skip(made as int)[0] == rs[made as int]);
                assert(downloads@.skip(start as int)[made as int] == downloads@[start + made as int]);
            }
            let transient = match &res {
                Err(AttemptError::Transient(_)) => true,
                _ => false,
            };
            if !transient || made == number_of_tries {
                proof {
                    assert(retry_attempts(
                        rs.skip(made as int),
                        (number_of_tries - made) as nat,
                    ) == 1);
                    assert(retry_result(rs.skip(made as int), (number_of_tries - made) as nat)
                        == rs[made as int]);
                }
                let result = match res {
                    Ok(d) => Ok(d),
                    Err(e) => Err(to_get_price_error(&e)),
                };
                return RetryRun { result, attempts: made + 1, delays };
            }
            delays.push(delay);
            proof {
                assert(rs.skip(made as int).drop_first() =~= rs.skip(made as int + 1));
                lemma_pow2_monotone((made + 1) as nat, 59);
                lemma_pow2_59_fits();
                assert(spec_pow2((made + 1) as nat) == 2 * spec_pow2(made as nat));
            }
            delay = delay * 2;
            made = made + 1;
        }
    }

    /// Acquisition with retry from the start of the recorded outcomes.
    pub fn get_price_multiple_tries(
        &self,
        url: &str,
        number_of_tries: u64,
        downloads: &Vec<DownloadOutcome>,
    ) -> (r: RetryRun)
        requires
            number_of_tries < 60,
            downloads@.len() > number_of_tries,
        ensures
            ({
                let rs = self.attempt_seq(url@, downloads@);
                &&& 1 <= r.attempts <= number_of_tries + 1
                &&& r.attempts == retry_attempts(rs, number_of_tries as nat)
                &&& r.result == to_price_result(retry_result(rs, number_of_tries as nat))
                &&& r.result == to_price_result(rs[r.attempts - 1])
                &&& (forall|j: int| 0 <= j < r.attempts - 1 ==> is_transient_result(rs[j]))
                &&& (is_transient_result(rs[r.attempts - 1]) ==> r.attempts == number_of_tries
                    + 1)
                &&& (r.result matches Ok(d) ==> d.wf())
                &&& r.delays@.len() == r.attempts - 1
                &&& (forall|j: int|
                    0 <= j < r.delays@.len() ==> r.delays@[j] == 10 * spec_pow2(j as nat))
            }),
    {
        proof {
            assert(downloads@.skip(0) =~= downloads@);
        }
        self.retry_from(url, number_of_tries, downloads, 0)
    }
}

/// One fairness run: its outcome in surface terms, how many download
/// outcomes it consumed over all its retry runs, how many fairness
/// re-checks it spent, and the fairness-level backoff delays.
pub struct FairnessRun {
    pub result: Result<Decimal, GetPriceError>,
    pub consumed: u64,
    pub rechecks: u64,
    pub delays: Vec<u64>,
}

impl PriceScraper {
    /// The whole fairness policy over recorded download outcomes: run
    /// acquisition-with-retry; while the price deviates from the last
    /// known one by more than the 10% threshold and re-check budget
    /// remains, run it again on the remaining outcomes, replacing the
    /// candidate.  The triple is (outcome, downloads consumed,
    /// re-checks spent).
    pub open spec fn spec_fairness(
        self,
        url: Seq<char>,
        downloads: Seq<DownloadOutcome>,
        download_tries: nat,
        budget: nat,
        last: Option<Decimal>,
    ) -> (Result<Decimal, AttemptError>, nat, nat)
        decreases budget,
    {
        let rs = self.attempt_seq(url, downloads);
        let a = retry_attempts(rs, download_tries);
        let res = retry_result(rs, download_tries);
        match res {
            Err(e) => (Err(e), a, 0),
            Ok(p) => match last {
                None => (Ok(p), a, 0),
                Some(lp) => if !crate::numeric::spec_deviates(p, lp) || budget == 0 {
                    (Ok(p), a, 0)
                } else {
                    let next = self.spec_fairness(
                        url,
                        downloads.skip(a as int),
                        download_tries,
                        (budget - 1) as nat,
                        last,
                    );
                    (next.0, a + next.1, 1 + next.2)
                },
            },
        }
    }

    /// Acquisition with retry and the fairness re-check, driven from
    /// recorded download outcomes.  A price deviating from
    /// `last_available_price` by more than 10% is re-acquired up to
    /// `fairness_tries` times, with exponential backoff between
    /// re-checks; the budget spent, the last candidate is returned
    /// even if still suspicious, and a failing re-check propagates its
    /// failure.
    pub fn get_price_multiple_tries_and_fairness(
        &self,
        url: &str,
        download_tries: u64,
        fairness_tries: u64,
        last_available_price: Option<Decimal>,
        downloads: &Vec<DownloadOutcome>,
    ) -> (r: FairnessRun)
        requires
            download_tries < 60,
            fairness_tries < 60,
            last_available_price matches Some(d) ==> d.wf(),
            downloads@.len() >= (download_tries + 1) * (fairness_tries + 1),
        ensures
            ({
                let t = self.spec_fairness(
                    url@,
                    downloads@,
                    download_tries as nat,
                    fairness_tries as nat,
                    last_available_price,
                );
                &&& r.result == to_price_result(t.0)
                &&& r.consumed == t.1
                &&& r.rechecks == t.2
            }),
            r.rechecks <= fairness_tries,
            r.result matches Ok(d) ==> d.wf(),
            r.delays@.len() == r.rechecks,
            forall|j: int| 0 <= j < r.delays@.len() ==> r.delays@[j] == 10 * spec_pow2(j as nat),
    {
        let ghost dtn = download_tries as nat;
        let ghost ftn = fairness_tries as nat;
        let ghost total = self.spec_fairness(
            url@,
            downloads@,
            dtn,
            ftn,
            last_available_price,
        );
        let n = downloads.len();
        let mut pos: usize = 0;
        let mut rechecks: u64 = 0;
        let mut delay: u64 = 10;
        let mut delays: Vec<u64> = Vec::new();
        proof {
            assert(downloads@.skip(0) =~= downloads@);
        }
        loop
            invariant
                download_tries < 60,
                fairness_tries < 60,
                n == downloads@.len(),
                n >= (download_tries + 1) * (fairness_tries + 1),
                dtn == download_tries as nat,
                ftn == fairness_tries as nat,
                last_available_price matches Some(d) ==> d.wf(),
                rechecks <= fairness_tries,
                pos <= rechecks * (download_tries + 1),
                total == self.spec_fairness(url@, downloads@, dtn, ftn, last_available_price),
                ({
                    let sub = self.spec_fairness(
                        url@,
                        downloads@.skip(pos as int),
                        dtn,
                        (ftn - rechecks) as nat,
                        last_available_price,
                    );
                    &&& total.0 == sub.0
                    &&& total.1 == pos + sub.1
                    &&& total.2 == rechecks + sub.2
                }),
                delay == 10 * spec_pow2(rechecks as nat),
                delays@.len() == rechecks,
                forall|j: int| 0 <= j < rechecks ==> delays@[j] == 10 * spec_pow2(j as nat),
            decreases fairness_tries - rechecks,
        {
            proof {
                assert(pos + download_tries < n) by (nonlinear_arith)
                    requires
                        pos <= rechecks * (download_tries + 1),
                        rechecks <= fairness_tries,
                        n >= (download_tries + 1) * (fairness_tries + 1),
                        0 <= download_tries,
                        0 <= rechecks,
                ;
                assert(pos <= 60 * 60) by (nonlinear_arith)
                    requires
                        pos <= rechecks * (download_tries + 1),
                        rechecks < 60,
                        download_tries < 60,
                        0 <= rechecks,
                        0 <= download_tries,
                ;
            }
            let run = self.retry_from(url, download_tries, downloads, pos);
            let ghost rs = self.attempt_seq(url@, downloads@.skip(pos as int));
            let ghost sub = self.spec_fairness(
                url@,
                downloads@.skip(pos as int),
                dtn,
                (ftn - rechecks) as nat,
                last_available_price,
            );
            match run.result {
                Err(e) => {
                    proof {
                        assert(retry_result(rs, dtn) is Err);
                        assert(sub.0 == retry_result(rs, dtn));
                        assert(sub.1 == retry_attempts(rs, dtn));
                        assert(sub.2 == 0);
                    }
                    return FairnessRun {
                        result: Err(e),
                        consumed: pos as u64 + run.attempts,
                        rechecks,
                        delays,
                    };
                },
                Ok(p) => {
                    proof {
                        assert(retry_result(rs, dtn) == Ok::<Decimal, AttemptError>(p));
                    }
                    let give_back = match &last_available_price {
                        None => true,
                        Some(lp) => !crate::numeric::deviates(&p, lp) || rechecks
                            == fairness_tries,
                    };
                    if give_back {
                        proof {
                            assert(sub.0 == Ok::<Decimal, AttemptError>(p));
                            assert(sub.1 == retry_attempts(rs, dtn));
                            assert(sub.2 == 0);
                        }
                        return FairnessRun {
                            result: Ok(p),
                            consumed: pos as u64 + run.attempts,
                            rechecks,
                            delays,
                        };
                    }
                    delays.push(delay);
                    proof {
                        let a = retry_attempts(rs, dtn);
                        assert(downloads@.skip(pos as int).skip(a as int) =~= downloads@.skip(
                            pos + a,
                        ));
                        assert(pos + run.attempts <= (rechecks + 1) * (download_tries + 1))
                            by (nonlinear_arith)
                            requires
                                pos <= rechecks * (download_tries + 1),
                                run.attempts <= download_tries + 1,
                                0 <= rechecks,
                                0 <= download_tries,
                        ;
                        lemma_pow2_monotone((rechecks + 1) as nat, 59);
                        lemma_pow2_59_fits();
                        assert(spec_pow2((rechecks + 1) as nat) == 2 * spec_pow2(
                            rechecks as nat,
                        ));
                    }
                    delay = delay * 2;
                    rechecks = rechecks + 1;
                    pos = pos + run.attempts as usize;
                },
            }
        }
    }
}

/// Where a retry loop stands between attempts.
#[derive(Clone, Copy, Debug, PartialEq, Eq, Structural)]
pub struct RetryState {
    pub tries_left: u64,
    pub next_delay: u64,
}

/// What a live retry loop is to do after one attempt.
#[derive(Clone, Copy, Debug)]
pub enum RetryDecision {
    /// The run is over, with this outcome.
    Finish(Result<Decimal, GetPriceError>),
    /// Sleep this many seconds, then attempt again from this state.
    RetryAfter(u64, RetryState),
}

pub fn retry_start(number_of_tries: u64) -> (r: RetryState)
    ensures
        r.tries_left == number_of_tries,
        r.next_delay == 10,
{
    RetryState { tries_left: number_of_tries, next_delay: 10 }
}

/// One decision of the retry policy, for a live loop that performs
/// the downloads itself: retry a transient failure while budget
/// remains, doubling the delay; finish on anything else.
pub fn retry_step(st: RetryState, attempt: Result<Decimal, AttemptError>) -> (r: RetryDecision)
    requires
        st.next_delay <= u64::MAX / 2,
    ensures
        is_transient_result(attempt) && st.tries_left > 0 ==> r == RetryDecision::RetryAfter(
            st.next_delay,
            RetryState {
                tries_left: (st.tries_left - 1) as u64,
                next_delay: (st.next_delay * 2) as u64,
            },
        ),
        !(is_transient_result(attempt) && st.tries_left > 0) ==> r == RetryDecision::Finish(
            to_price_result(attempt),
        ),
{
    let transient = match &attempt {
        Err(AttemptError::Transient(_)) => true,
        _ => false,
    };
    if transient && st.tries_left > 0 {
        RetryDecision::RetryAfter(
            st.next_delay,
            RetryState { tries_left: st.tries_left - 1, next_delay: st.next_delay * 2 },
        )
    } else {
        match attempt {
            Ok(d) => RetryDecision::Finish(Ok(d)),
            Err(e) => RetryDecision::Finish(Err(to_get_price_error(&e))),
        }
    }
}

/// Where a fairness loop stands between retry runs.
#[derive(Clone, Copy, Debug, PartialEq, Eq, Structural)]
pub struct FairnessState {
    pub rechecks_left: u64,
    pub next_delay: u64,
    pub last_available_price: Option<Decimal>,
}

/// What a live fairness loop is to do after one retry run.
#[derive(Clone, Copy, Debug)]
pub enum FairnessDecision {
    /// The run is over, with this outcome.
    Finish(Result<Decimal, GetPriceError>),
    /// Sleep this many seconds, then run acquisition again from this
    /// state.
    RecheckAfter(u64, FairnessState),
}

pub fn fairness_start(fairness_tries: u64, last_available_price: Option<Decimal>) -> (r:
    FairnessState)
    ensures
        r.rechecks_left == fairness_tries,
        r.next_delay == 10,
        r.last_available_price == last_available_price,
{
    FairnessState { rechecks_left: fairness_tries, next_delay: 10, last_available_price }
}

/// One decision of the fairness policy: re-acquire while the candidate
/// deviates from the last known price by more than 10% and budget
/// remains; otherwise give the candidate (or the failure) back.
pub fn fairness_step(st: FairnessState, acquired: Result<Decimal, GetPriceError>) -> (r:
    FairnessDecision)
    requires
        st.next_delay <= u64::MAX / 2,
        acquired matches Ok(d) ==> d.wf(),
        st.last_available_price matches Some(d) ==> d.wf(),
    ensures
        ({
            let suspicious = acquired matches Ok(p) && st.last_available_price matches Some(lp)
                && crate::numeric::spec_deviates(acquired.unwrap(), lp);
            &&& suspicious && st.rechecks_left > 0 ==> r == FairnessDecision::RecheckAfter(
                st.next_delay,
                FairnessState {
                    rechecks_left: (st.rechecks_left - 1) as u64,
                    next_delay: (st.next_delay * 2) as u64,
                    last_available_price: st.last_available_price,
                },
            )
            &&& !(suspicious && st.rechecks_left > 0) ==> r == FairnessDecision::Finish(acquired)
        }),
{
    match (&acquired, &st.last_available_price) {
        (Ok(p), Some(lp)) => {
            if crate::numeric::deviates(p, lp) && st.rechecks_left > 0 {
                FairnessDecision::RecheckAfter(
                    st.next_delay,
                    FairnessState {
                        rechecks_left: st.rechecks_left - 1,
                        next_delay: st.next_delay * 2,
                        last_available_price: st.last_available_price,
                    },
                )
            } else {
                FairnessDecision::Finish(acquired)
            }
        },
        _ => FairnessDecision::Finish(acquired),
    }
}

/// Retry policy law: when the first `k` outcomes are transient and
/// outcome `k` is decisive, a run with budget `tries >= k` makes
/// exactly `k + 1` attempts and ends with that decisive outcome.
/// `get_price_multiple_tries` ensures its attempts and result equal
/// these two spec values.
pub proof fn lemma_retry_stops_at_first_decisive(
    rs: Seq<Result<Decimal, AttemptError>>,
    tries: nat,
    k: nat,
)
    requires
        k <= tries,
        k < rs.len(),
        forall|j: int| 0 <= j < k ==> is_transient_result(rs[j]),
        !is_transient_result(rs[k as int]),
    ensures
        retry_attempts(rs, tries) == k + 1,
        retry_result(rs, tries) == rs[k as int],
    decreases k,
{
    if k == 0 {
    } else {
        assert(is_transient_result(rs[0]));
        assert(forall|j: int|
            0 <= j < k - 1 ==> is_transient_result(#[trigger] rs.drop_first()[j]));
        assert(rs.drop_first()[k - 1] == rs[k as int]);
        lemma_retry_stops_at_first_decisive(rs.drop_first(), (tries - 1) as nat, (k - 1) as nat);
    }
}

/// Retry policy law: when every outcome within the budget is
/// transient, the run spends the whole budget: `tries + 1` attempts,
/// ending with the last transient failure.
pub proof fn lemma_retry_exhausts_budget(rs: Seq<Result<Decimal, AttemptError>>, tries: nat)
    requires
        tries < rs.len(),
        forall|j: int| 0 <= j <= tries ==> is_transient_result(rs[j]),
    ensures
        retry_attempts(rs, tries) == tries + 1,
        retry_result(rs, tries) == rs[tries as int],
    decreases tries,
{
    if tries == 0 {
    } else {
        assert(is_transient_result(rs[0]));
        assert(forall|j: int|
            0 <= j <= tries - 1 ==> is_transient_result(#[trigger] rs.drop_first()[j]));
        assert(rs.drop_first()[tries - 1] == rs[tries as int]);
        lemma_retry_exhausts_budget(rs.drop_first(), (tries - 1) as nat);
    }
}

} // verus!
