use spot_sbe::{
    AccountType, AllocationType, BoolEnum, CancelReplaceStatus, ContingencyType, FilterType, Floor,
    ListOrderStatus, ListStatusType, MatchType, OrderCapacity, OrderSide, OrderStatus, OrderType,
    RateLimitInterval, RateLimitType, SelfTradePreventionMode, SymbolStatus, TimeInForce,
};

#[test]
fn bool_enum_reads_every_byte() {
    for v in 0..=255u8 {
        let e = BoolEnum::from(v);
        match v {
            0 => assert_eq!(e, BoolEnum::False),
            1 => assert_eq!(e, BoolEnum::True),
            _ => assert_eq!(e, BoolEnum::NullVal),
        }
    }
    assert_eq!(BoolEnum::False.code(), 0);
    assert_eq!(BoolEnum::True.code(), 1);
    assert_eq!(BoolEnum::NullVal.code(), 0xff);
    assert_eq!(BoolEnum::default(), BoolEnum::NullVal);
}

#[test]
fn order_status_reads_every_byte() {
    for v in 0..=255u8 {
        let e = OrderStatus::from(v);
        let expected = match v {
            0 => OrderStatus::New,
            1 => OrderStatus::PartiallyFilled,
            2 => OrderStatus::Filled,
            3 => OrderStatus::Canceled,
            4 => OrderStatus::PendingCancel,
            5 => OrderStatus::Rejected,
            6 => OrderStatus::Expired,
            9 => OrderStatus::ExpiredInMatch,
            0xfe => OrderStatus::Unknown,
            _ => OrderStatus::NullVal,
        };
        assert_eq!(e, expected);
    }
    assert_eq!(OrderStatus::ExpiredInMatch.code(), 9);
    assert_eq!(OrderStatus::Unknown.code(), 0xfe);
}

#[test]
fn rate_limit_type_has_no_code_one() {
    assert_eq!(RateLimitType::from(0), RateLimitType::RawRequests);
    assert_eq!(RateLimitType::from(1), RateLimitType::NullVal);
    assert_eq!(RateLimitType::from(2), RateLimitType::RequestWeight);
    assert_eq!(RateLimitType::from(3), RateLimitType::Orders);
    assert_eq!(RateLimitType::from(4), RateLimitType::NullVal);
}

#[test]
fn self_trade_prevention_mode_begins_at_one() {
    assert_eq!(SelfTradePreventionMode::from(0), SelfTradePreventionMode::NullVal);
    assert_eq!(SelfTradePreventionMode::from(1), SelfTradePreventionMode::NoneVal);
    assert_eq!(SelfTradePreventionMode::from(2), SelfTradePreventionMode::ExpireTaker);
    assert_eq!(SelfTradePreventionMode::from(3), SelfTradePreventionMode::ExpireMaker);
    assert_eq!(SelfTradePreventionMode::from(4), SelfTradePreventionMode::ExpireBoth);
    assert_eq!(SelfTradePreventionMode::from(5), SelfTradePreventionMode::NullVal);
}

#[test]
fn symbol_status_skips_code_six() {
    assert_eq!(SymbolStatus::from(5), SymbolStatus::AuctionMatch);
    assert_eq!(SymbolStatus::from(6), SymbolStatus::NullVal);
    assert_eq!(SymbolStatus::from(7), SymbolStatus::Break);
    assert_eq!(SymbolStatus::Break.code(), 7);
}

#[test]
fn filter_type_codes() {
    assert_eq!(FilterType::from(0), FilterType::MaxPosition);
    assert_eq!(FilterType::from(1), FilterType::PriceFilter);
    assert_eq!(FilterType::from(0x0a), FilterType::MarketLotSize);
    assert_eq!(FilterType::from(0x10), FilterType::Notional);
    assert_eq!(FilterType::from(0x11), FilterType::NullVal);
    assert_eq!(FilterType::Notional.code(), 0x10);
}

fn total(from: &dyn Fn(u8) -> (u8, bool)) -> usize {
    let mut declared = 0;
    for v in 0..=255u8 {
        let (code, null) = from(v);
        if null {
            assert_eq!(code, 0xff, "a byte without a meaning is read as the null value");
        } else {
            assert_eq!(code, v, "a declared code is written as it was read");
            declared += 1;
        }
    }
    declared
}

#[test]
fn every_enum_reads_every_byte_and_writes_declared_codes_back() {
    assert_eq!(
        total(&|v| (AccountType::from(v).code(), AccountType::from(v) == AccountType::NullVal)),
        2
    );
    assert_eq!(
        total(&|v| (AllocationType::from(v).code(), AllocationType::from(v) == AllocationType::NullVal)),
        2
    );
    assert_eq!(
        total(&|v| (BoolEnum::from(v).code(), BoolEnum::from(v) == BoolEnum::NullVal)),
        2
    );
    assert_eq!(
        total(&|v| (CancelReplaceStatus::from(v).code(), CancelReplaceStatus::from(v) == CancelReplaceStatus::NullVal)),
        3
    );
    assert_eq!(
        total(&|v| (ContingencyType::from(v).code(), ContingencyType::from(v) == ContingencyType::NullVal)),
        1
    );
    assert_eq!(
        total(&|v| (FilterType::from(v).code(), FilterType::from(v) == FilterType::NullVal)),
        17
    );
    assert_eq!(
        total(&|v| (Floor::from(v).code(), Floor::from(v) == Floor::NullVal)),
        3
    );
    assert_eq!(
        total(&|v| (ListOrderStatus::from(v).code(), ListOrderStatus::from(v) == ListOrderStatus::NullVal)),
        4
    );
    assert_eq!(
        total(&|v| (ListStatusType::from(v).code(), ListStatusType::from(v) == ListStatusType::NullVal)),
        3
    );
    assert_eq!(
        total(&|v| (MatchType::from(v).code(), MatchType::from(v) == MatchType::NullVal)),
        2
    );
    assert_eq!(
        total(&|v| (OrderCapacity::from(v).code(), OrderCapacity::from(v) == OrderCapacity::NullVal)),
        2
    );
    assert_eq!(
        total(&|v| (OrderSide::from(v).code(), OrderSide::from(v) == OrderSide::NullVal)),
        2
    );
    assert_eq!(
        total(&|v| (OrderStatus::from(v).code(), OrderStatus::from(v) == OrderStatus::NullVal)),
        9
    );
    assert_eq!(
        total(&|v| (OrderType::from(v).code(), OrderType::from(v) == OrderType::NullVal)),
        7
    );
    assert_eq!(
        total(&|v| (RateLimitInterval::from(v).code(), RateLimitInterval::from(v) == RateLimitInterval::NullVal)),
        4
    );
    assert_eq!(
        total(&|v| (RateLimitType::from(v).code(), RateLimitType::from(v) == RateLimitType::NullVal)),
        3
    );
    assert_eq!(
        total(&|v| (SelfTradePreventionMode::from(v).code(), SelfTradePreventionMode::from(v) == SelfTradePreventionMode::NullVal)),
        4
    );
    assert_eq!(
        total(&|v| (SymbolStatus::from(v).code(), SymbolStatus::from(v) == SymbolStatus::NullVal)),
        7
    );
    assert_eq!(
        total(&|v| (TimeInForce::from(v).code(), TimeInForce::from(v) == TimeInForce::NullVal)),
        3
    );
}

#[test]
fn into_reads_as_from_does() {
    let e: OrderSide = 1u8.into();
    assert_eq!(e, OrderSide::from(1));
    let e: TimeInForce = 200u8.into();
    assert_eq!(e, TimeInForce::NullVal);
}

#[test]
fn the_default_of_every_enum_is_the_null_value() {
    assert_eq!(AccountType::default(), AccountType::NullVal);
    assert_eq!(FilterType::default(), FilterType::NullVal);
    assert_eq!(OrderType::default(), OrderType::NullVal);
    assert_eq!(SymbolStatus::default(), SymbolStatus::NullVal);
    assert_eq!(SymbolStatus::default().code(), 0xff);
}
