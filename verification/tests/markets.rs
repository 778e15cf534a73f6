use drift_sdk::types::{Context, MarketId, MarketType, SdkError};

#[test]
fn market_id_lookups() {
    for (context, symbol, expected) in &[
        (Context::Dev, "wBTC", MarketId::spot(2)),
        (Context::Dev, "SOL", MarketId::spot(1)),
        (Context::Dev, "sol-perp", MarketId::perp(0)),
        (Context::Mainnet, "wbtc", MarketId::spot(3)),
        (Context::Mainnet, "SOL", MarketId::spot(1)),
        (Context::Mainnet, "sol-perp", MarketId::perp(0)),
        (Context::Mainnet, "eth-perp", MarketId::perp(2)),
    ] {
        assert_eq!(MarketId::lookup(*context, symbol).unwrap(), *expected);
    }

    for (context, symbol) in &[
        (Context::Mainnet, "market404"),
        (Context::Mainnet, "market404-perp"),
        (Context::Mainnet, "market404-something"),
    ] {
        assert!(MarketId::lookup(*context, symbol).is_err())
    }
}

#[test]
fn lookup_is_case_insensitive_both_ways() {
    assert_eq!(
        MarketId::lookup(Context::Dev, "sol").unwrap(),
        MarketId::spot(1)
    );
    assert_eq!(
        MarketId::lookup(Context::Dev, "SOL-PERP").unwrap(),
        MarketId::perp(0)
    );
    assert_eq!(
        MarketId::lookup(Context::Mainnet, "WBTC").unwrap(),
        MarketId::spot(3)
    );
}

#[test]
fn lookup_unknown_symbol_is_not_found() {
    assert_eq!(
        MarketId::lookup(Context::Mainnet, "market404"),
        Err(SdkError::MarketLookupNotFound)
    );
    assert_eq!(
        MarketId::lookup(Context::Dev, ""),
        Err(SdkError::MarketLookupNotFound)
    );
    // a second dash makes the suffix "perp-something", which is not "perp"
    assert_eq!(
        MarketId::lookup(Context::Dev, "sol-perp-something"),
        Err(SdkError::MarketLookupNotFound)
    );
}

#[test]
fn market_id_from_pair() {
    assert_eq!(MarketId::from((7, MarketType::Perp)), MarketId::perp(7));
    assert_eq!(MarketId::from((3, MarketType::Spot)), MarketId::spot(3));
}
