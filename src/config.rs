//! The settings of one run, fixed when it starts.
use vstd::prelude::*;
use crate::address::{address_from_text, is_address_text, parse_address, Address};
use crate::word::U256;

verus! {

/// Why a configuration was refused.
#[derive(Clone, Copy, Debug, PartialEq, Eq, Structural)]
pub enum ConfigError {
    /// The sell percentage is 0 or above 100.
    InvalidSellFraction,
    InvalidTokenAddress,
    InvalidRouterAddress,
    InvalidSettlementAddress,
}

/// What a run trades and for how long.
#[derive(Clone, Copy, Debug)]
pub struct TradeConfig {
    /// The token whose purchases are answered.
    pub token: Address,
    /// The exchange router that purchases go through and sells are sent to.
    pub router: Address,
    /// The wrapped native currency, the far end of each sell's path.
    pub settlement: Address,
    /// The share of each purchase to sell, in percent.
    pub sell_percent: u64,
    /// The cumulative amount sold at which the target counts as reached.
    pub target: U256,
    /// The instant from which no candidate is handled, in milliseconds on the
    /// run's monotonic clock (counted from the start of the run).
    pub deadline: u64,
}

impl TradeConfig {
    pub open spec fn wf(&self) -> bool {
        1 <= self.sell_percent <= 100
    }

    /// A configuration from address texts; the percentage is checked first,
    /// then the token, router and settlement addresses in turn.
    pub fn new(
        token: &str,
        router: &str,
        settlement: &str,
        sell_percent: u64,
        target: U256,
        deadline: u64,
    ) -> (r: Result<TradeConfig, ConfigError>)
        ensures
            r == Err::<TradeConfig, ConfigError>(ConfigError::InvalidSellFraction) <==> !(1
                <= sell_percent <= 100),
            r == Err::<TradeConfig, ConfigError>(ConfigError::InvalidTokenAddress) <==> 1
                <= sell_percent <= 100 && !is_address_text(token@),
            r == Err::<TradeConfig, ConfigError>(ConfigError::InvalidRouterAddress) <==> 1
                <= sell_percent <= 100 && is_address_text(token@) && !is_address_text(router@),
            r == Err::<TradeConfig, ConfigError>(ConfigError::InvalidSettlementAddress) <==> 1
                <= sell_percent <= 100 && is_address_text(token@) && is_address_text(router@)
                && !is_address_text(settlement@),
            r matches Ok(c) ==> {
                &&& c.wf()
                &&& c.token@ == address_from_text(token@)
                &&& c.router@ == address_from_text(router@)
                &&& c.settlement@ == address_from_text(settlement@)
                &&& c.sell_percent == sell_percent
                &&& c.target@ == target@
                &&& c.deadline == deadline
            },
    {
        if sell_percent == 0 || sell_percent > 100 {
            return Err(ConfigError::InvalidSellFraction);
        }
        let token = match parse_address(token) {
            Some(a) => a,
            None => return Err(ConfigError::InvalidTokenAddress),
        };
        let router = match parse_address(router) {
            Some(a) => a,
            None => return Err(ConfigError::InvalidRouterAddress),
        };
        let settlement = match parse_address(settlement) {
            Some(a) => a,
            None => return Err(ConfigError::InvalidSettlementAddress),
        };
        Ok(TradeConfig { token, router, settlement, sell_percent, target, deadline })
    }
}

} // verus!
