use drift_sdk::types::{
    MarketId, MarketType, NewOrder, OrderType, PositionDirection, PostOnlyParam,
};

#[test]
fn negative_amount_builds_a_short() {
    let market = MarketId::perp(0);
    let order = NewOrder::limit(market).amount(-5).build();
    assert_eq!(order.direction, PositionDirection::Short);
    assert_eq!(order.base_asset_amount, 5);
    assert_eq!(order.order_type, OrderType::Limit);
}

#[test]
fn positive_amount_builds_a_long() {
    let market = MarketId::perp(0);
    let order = NewOrder::limit(market).amount(5).build();
    assert_eq!(order.direction, PositionDirection::Long);
    assert_eq!(order.base_asset_amount, 5);
}

#[test]
fn zero_amount_is_long_by_convention() {
    let order = NewOrder::market(MarketId::spot(1)).amount(0).build();
    assert_eq!(order.direction, PositionDirection::Long);
    assert_eq!(order.base_asset_amount, 0);
}

#[test]
fn build_finalizes_every_field() {
    let market = MarketId::perp(2);
    let order = NewOrder::limit(market)
        .amount(-40)
        .price(400)
        .reduce_only(true)
        .ioc(true)
        .post_only(true)
        .build();
    assert_eq!(order.order_type, OrderType::Limit);
    assert_eq!(order.market_index, 2);
    assert_eq!(order.market_type, MarketType::Perp);
    assert_eq!(order.direction, PositionDirection::Short);
    assert_eq!(order.base_asset_amount, 40);
    assert_eq!(order.price, 400);
    assert!(order.reduce_only);
    assert!(order.immediate_or_cancel);
    assert_eq!(order.post_only, PostOnlyParam::TryPostOnly);
}

#[test]
fn market_order_defaults_are_zeroed() {
    let order = NewOrder::market(MarketId::spot(1)).build();
    assert_eq!(order.order_type, OrderType::Market);
    assert_eq!(order.market_index, 1);
    assert_eq!(order.market_type, MarketType::Spot);
    assert_eq!(order.direction, PositionDirection::Long);
    assert_eq!(order.base_asset_amount, 0);
    assert_eq!(order.price, 0);
    assert!(!order.reduce_only);
    assert!(!order.immediate_or_cancel);
    assert_eq!(order.post_only, PostOnlyParam::NoPostOnly);
}

#[test]
fn extreme_amount_magnitude_is_exact() {
    let order = NewOrder::market(MarketId::perp(1)).amount(i64::MIN).build();
    assert_eq!(order.direction, PositionDirection::Short);
    assert_eq!(order.base_asset_amount, 9_223_372_036_854_775_808_u64);
}
