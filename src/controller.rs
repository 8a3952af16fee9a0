//! The decisions of the monitoring loop. The loop itself (waiting for the next
//! pending transaction, fetching it, signing, sending and awaiting receipts)
//! belongs to the caller, which reports each outcome here and does what the
//! answer says.
use vstd::prelude::*;
use crate::address::Address;
use crate::config::TradeConfig;
use crate::decoder::{classify, classify_spec, CandidateTransaction};
use crate::trade::{build_sell, sell_amount_spec, sell_calldata, SellOrder};
use crate::volume::{VolumeError, VolumeTracker};
use crate::word::{at_least, word_bound, U256};

verus! {

#[derive(Clone, Copy, Debug, PartialEq, Eq, Structural)]
pub enum Phase {
    /// Watching the pending transactions.
    Monitoring,
    /// The deadline has passed or the stream has ended; nothing more is done.
    Expired,
}

/// One run: its settings, the account that sells, and the total sold.
pub struct Controller {
    pub config: TradeConfig,
    pub account: Address,
    pub tracker: VolumeTracker,
    pub phase: Phase,
}

impl Controller {
    pub open spec fn wf(&self) -> bool {
        self.config.wf() && self.tracker.wf() && self.tracker.target@ == self.config.target@
    }

    /// A run that has sold nothing yet.
    pub fn new(config: TradeConfig, account: Address) -> (r: Controller)
        requires
            config.wf(),
        ensures
            r.wf(),
            r.config == config,
            r.account == account,
            r.phase == Phase::Monitoring,
            r.tracker.total@ == 0,
            r.tracker.sold@ == Seq::<nat>::empty(),
    {
        Controller { config, account, tracker: VolumeTracker::new(config.target), phase: Phase::Monitoring }
    }

    /// A pending transaction has been announced at instant `now` (milliseconds
    /// on the run's monotonic clock, as `config.deadline`): whether to
    /// fetch and classify it. At or past the deadline the run expires and
    /// this, and every later call, says no.
    pub fn on_arrival(&mut self, now: u64) -> (r: bool)
        ensures
            r == (old(self).phase == Phase::Monitoring && now < old(self).config.deadline),
            final(self).phase == (if r { Phase::Monitoring } else { Phase::Expired }),
            final(self).config == old(self).config,
            final(self).account == old(self).account,
            final(self).tracker == old(self).tracker,
    {
        if self.phase == Phase::Expired || now >= self.config.deadline {
            self.phase = Phase::Expired;
            false
        } else {
            true
        }
    }

    /// The stream of pending transactions has ended: the run expires.
    pub fn on_stream_end(&mut self)
        ensures
            final(self).phase == Phase::Expired,
            final(self).config == old(self).config,
            final(self).account == old(self).account,
            final(self).tracker == old(self).tracker,
    {
        self.phase = Phase::Expired;
    }

    /// A fetched transaction, or `None` where it had left the pool: the sell
    /// to submit at chain time `chain_time` (seconds since the Unix epoch, as
    /// block timestamps count), if it is a purchase of the
    /// tracked token through the router.
    pub fn on_transaction(&self, tx: Option<&CandidateTransaction>, chain_time: u64) -> (r: Option<
        SellOrder,
    >)
        requires
            self.wf(),
        ensures
            match tx {
                None => r is None,
                Some(t) => match classify_spec(*t, self.config) {
                    None => r is None,
                    Some((_, buy)) => r matches Some(o) && o.amount@ == sell_amount_spec(
                        buy,
                        self.config.sell_percent as nat,
                    ) && o.calldata@ == sell_calldata(
                        self.config,
                        o.amount@,
                        self.account@,
                        chain_time as nat,
                    ),
                },
            },
    {
        match tx {
            None => None,
            Some(t) => match classify(t, &self.config) {
                None => None,
                Some((_, buy)) => Some(build_sell(buy, &self.config, self.account, chain_time)),
            },
        }
    }

    /// A submitted sell of `amount` has been confirmed: adds it to the total,
    /// returning the new total and whether the target has been reached.
    /// Reaching the target is reported only; the run goes on until its
    /// deadline.
    pub fn on_sell_confirmed(&mut self, amount: U256) -> (r: Result<(U256, bool), VolumeError>)
        requires
            old(self).wf(),
        ensures
            final(self).wf(),
            final(self).config == old(self).config,
            final(self).account == old(self).account,
            final(self).phase == old(self).phase,
            match r {
                Ok((t, reached)) => {
                    &&& final(self).tracker.total@ == old(self).tracker.total@ + amount@
                    &&& final(self).tracker.sold@ == old(self).tracker.sold@.push(amount@)
                    &&& t@ == final(self).tracker.total@
                    &&& reached == (t@ >= old(self).config.target@)
                },
                Err(_) => {
                    &&& old(self).tracker.total@ + amount@ >= word_bound()
                    &&& final(self).tracker.total@ == old(self).tracker.total@
                    &&& final(self).tracker.sold@ == old(self).tracker.sold@
                },
            },
    {
        self.tracker.add_and_check(amount)
    }

    /// Whether the total sold has reached the target.
    pub fn target_reached(&self) -> (r: bool)
        ensures
            r == (self.tracker.total@ >= self.config.target@),
    {
        at_least(self.tracker.total, self.config.target)
    }

    /// The total sold so far, reportable however the run ends.
    pub fn total_sold(&self) -> (r: U256)
        ensures
            r@ == self.tracker.total@,
    {
        self.tracker.total()
    }
}

} // verus!
