//! A rate limit as the exchange reports it.
use crate::rate_limit_interval::RateLimitInterval;
use crate::rate_limit_type::RateLimitType;
use vstd::prelude::*;

verus! {

#[derive(Clone, Copy, Debug, PartialEq, Eq, Structural)]
pub struct RateLimit {
    pub rate_limit_type: RateLimitType,
    pub interval: RateLimitInterval,
    pub interval_num: u8,
    pub limit: i64,
    pub count: Option<i64>,
}

/// The name of a kind of rate limit; the null value has none.
pub open spec fn rate_limit_type_name(val: RateLimitType) -> Option<&'static str> {
    match val {
        RateLimitType::RawRequests => Some("RAW_REQUESTS"),
        RateLimitType::RequestWeight => Some("REQUEST_WEIGHT"),
        RateLimitType::Orders => Some("ORDERS"),
        RateLimitType::NullVal => None,
    }
}

/// The name of an interval; the null value has none.
pub open spec fn rate_limit_interval_name(val: RateLimitInterval) -> Option<&'static str> {
    match val {
        RateLimitInterval::Second => Some("SECOND"),
        RateLimitInterval::Minute => Some("MINUTE"),
        RateLimitInterval::Hour => Some("HOUR"),
        RateLimitInterval::Day => Some("DAY"),
        RateLimitInterval::NullVal => None,
    }
}

/// The text that stands for a kind of rate limit, if it has one.
pub fn rate_limit_type_text(val: &RateLimitType) -> (r: Option<&'static str>)
    ensures
        r == rate_limit_type_name(*val),
{
    let str_val = match val {
        RateLimitType::Orders => "ORDERS",
        RateLimitType::RawRequests => "RAW_REQUESTS",
        RateLimitType::RequestWeight => "REQUEST_WEIGHT",
        RateLimitType::NullVal => {
            return None;
        },
    };
    Some(str_val)
}

/// The text that stands for an interval, if it has one.
pub fn rate_limit_interval_text(val: &RateLimitInterval) -> (r: Option<&'static str>)
    ensures
        r == rate_limit_interval_name(*val),
{
    let str_val = match val {
        RateLimitInterval::Second => "SECOND",
        RateLimitInterval::Minute => "MINUTE",
        RateLimitInterval::Hour => "HOUR",
        RateLimitInterval::Day => "DAY",
        RateLimitInterval::NullVal => {
            return None;
        },
    };
    Some(str_val)
}

} // verus!
