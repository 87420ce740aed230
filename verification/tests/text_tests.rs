use spot_sbe::exchange_info::{
    allowed_self_trade_prevention_mode_texts, order_type_texts, self_trade_prevention_mode_text,
    symbol_status_text,
};
use spot_sbe::rate_limit::{rate_limit_interval_text, rate_limit_type_text};
use spot_sbe::{
    AllowedSelfTradePreventionModes, OrderTypes, RateLimitInterval, RateLimitType,
    SelfTradePreventionMode, SymbolStatus,
};

#[test]
fn symbol_status_texts() {
    assert_eq!(symbol_status_text(&SymbolStatus::PreTrading), Some("PRE_TRADING"));
    assert_eq!(symbol_status_text(&SymbolStatus::Trading), Some("TRADING"));
    assert_eq!(symbol_status_text(&SymbolStatus::PostTrading), Some("POST_TRADING"));
    assert_eq!(symbol_status_text(&SymbolStatus::EndOfDay), Some("END_OF_DAY"));
    assert_eq!(symbol_status_text(&SymbolStatus::Halt), Some("HALT"));
    assert_eq!(symbol_status_text(&SymbolStatus::AuctionMatch), Some("AUCTION_MATCH"));
    assert_eq!(symbol_status_text(&SymbolStatus::Break), Some("BREAK"));
    assert_eq!(symbol_status_text(&SymbolStatus::NullVal), None);
}

#[test]
fn order_type_texts_follow_the_bits() {
    assert_eq!(order_type_texts(&OrderTypes::new(0)), Vec::<&str>::new());
    assert_eq!(order_type_texts(&OrderTypes::new(0b101)), vec!["MARKET", "STOP_LOSS"]);
    assert_eq!(
        order_type_texts(&OrderTypes::new(0xffff)),
        vec![
            "MARKET",
            "LIMIT",
            "STOP_LOSS",
            "STOP_LOSS_LIMIT",
            "TAKE_PROFIT",
            "TAKE_PROFIT_LIMIT",
            "LIMIT_MAKER"
        ]
    );
    assert_eq!(order_type_texts(&OrderTypes::new(0x40)), vec!["LIMIT_MAKER"]);
    assert_eq!(order_type_texts(&OrderTypes::new(0x80)), Vec::<&str>::new());
}

#[test]
fn self_trade_prevention_mode_texts() {
    assert_eq!(self_trade_prevention_mode_text(&SelfTradePreventionMode::NoneVal), Some("NONE"));
    assert_eq!(
        self_trade_prevention_mode_text(&SelfTradePreventionMode::ExpireTaker),
        Some("EXPIRE_TAKER")
    );
    assert_eq!(
        self_trade_prevention_mode_text(&SelfTradePreventionMode::ExpireMaker),
        Some("EXPIRE_MAKER")
    );
    assert_eq!(
        self_trade_prevention_mode_text(&SelfTradePreventionMode::ExpireBoth),
        Some("EXPIRE_BOTH")
    );
    assert_eq!(self_trade_prevention_mode_text(&SelfTradePreventionMode::NullVal), None);
}

#[test]
fn allowed_mode_texts_follow_the_bits() {
    assert_eq!(
        allowed_self_trade_prevention_mode_texts(&AllowedSelfTradePreventionModes::new(0b1111)),
        vec!["NONE", "EXPIRE_TAKER", "EXPIRE_MAKER", "EXPIRE_BOTH"]
    );
    assert_eq!(
        allowed_self_trade_prevention_mode_texts(&AllowedSelfTradePreventionModes::new(0b1010)),
        vec!["EXPIRE_TAKER", "EXPIRE_BOTH"]
    );
    assert_eq!(
        allowed_self_trade_prevention_mode_texts(&AllowedSelfTradePreventionModes::new(0xf0)),
        Vec::<&str>::new()
    );
}

#[test]
fn rate_limit_texts() {
    assert_eq!(rate_limit_type_text(&RateLimitType::Orders), Some("ORDERS"));
    assert_eq!(rate_limit_type_text(&RateLimitType::RawRequests), Some("RAW_REQUESTS"));
    assert_eq!(rate_limit_type_text(&RateLimitType::RequestWeight), Some("REQUEST_WEIGHT"));
    assert_eq!(rate_limit_type_text(&RateLimitType::NullVal), None);
    assert_eq!(rate_limit_interval_text(&RateLimitInterval::Second), Some("SECOND"));
    assert_eq!(rate_limit_interval_text(&RateLimitInterval::Minute), Some("MINUTE"));
    assert_eq!(rate_limit_interval_text(&RateLimitInterval::Hour), Some("HOUR"));
    assert_eq!(rate_limit_interval_text(&RateLimitInterval::Day), Some("DAY"));
    assert_eq!(rate_limit_interval_text(&RateLimitInterval::NullVal), None);
}
