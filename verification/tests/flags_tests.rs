use spot_sbe::{AllowedSelfTradePreventionModes, OrderTypes};

#[test]
fn order_types_flags_are_the_low_seven_bits() {
    assert!(OrderTypes::new(1 << 0).get_market());
    assert!(OrderTypes::new(1 << 1).get_limit());
    assert!(OrderTypes::new(1 << 2).get_stop_loss());
    assert!(OrderTypes::new(1 << 3).get_stop_loss_limit());
    assert!(OrderTypes::new(1 << 4).get_take_profit());
    assert!(OrderTypes::new(1 << 5).get_take_profit_limit());
    assert!(OrderTypes::new(1 << 6).get_limit_maker());
    let none = OrderTypes::new(0xff80);
    assert!(!none.get_market());
    assert!(!none.get_limit());
    assert!(!none.get_stop_loss());
    assert!(!none.get_stop_loss_limit());
    assert!(!none.get_take_profit());
    assert!(!none.get_take_profit_limit());
    assert!(!none.get_limit_maker());
}

#[test]
fn setting_a_flag_keeps_the_others() {
    let mut t = OrderTypes::new(0x8000);
    t.set_limit(true).set_limit_maker(true);
    assert_eq!(t.0, 0x8000 | 2 | 64);
    t.set_limit(false);
    assert_eq!(t.0, 0x8000 | 64);
    t.set_limit(false);
    assert_eq!(t.0, 0x8000 | 64);
    t.set_market(true).set_stop_loss(true).set_stop_loss_limit(true);
    t.set_take_profit(true).set_take_profit_limit(true);
    assert_eq!(t.0, 0x8000 | 0x7d);
    assert!(t.get_market() && !t.get_limit());
}

#[test]
fn clear_takes_every_flag_away() {
    let mut t = OrderTypes::new(0xffff);
    assert_eq!(t.clear().0, 0);
    assert_eq!(t, OrderTypes::default());
    let mut m = AllowedSelfTradePreventionModes::new(0xff);
    m.clear();
    assert_eq!(m.0, 0);
    assert_eq!(m, AllowedSelfTradePreventionModes::default());
}

#[test]
fn allowed_modes_flags_are_the_low_four_bits() {
    let mut m = AllowedSelfTradePreventionModes::new(0);
    m.set_none(true);
    assert_eq!(m.0, 1);
    m.set_expire_taker(true);
    assert_eq!(m.0, 3);
    m.set_expire_maker(true);
    assert_eq!(m.0, 7);
    m.set_expire_both(true);
    assert_eq!(m.0, 15);
    assert!(m.get_none() && m.get_expire_taker() && m.get_expire_maker() && m.get_expire_both());
    m.set_expire_taker(false);
    assert_eq!(m.0, 13);
    assert!(!m.get_expire_taker());
    let reserved = AllowedSelfTradePreventionModes::new(0xf0);
    assert!(!reserved.get_none() && !reserved.get_expire_both());
}

#[test]
fn reserved_bits_survive_a_round_of_sets() {
    let mut m = AllowedSelfTradePreventionModes::new(0xa0);
    m.set_none(true).set_none(false).set_expire_both(true).set_expire_both(false);
    assert_eq!(m.0, 0xa0);
}
