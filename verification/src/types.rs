//! Core client types: program context, market identifiers, the order
//! builder, and the error taxonomy.
//!
//! The order builder accumulates a trading intent and finalizes it into a
//! fixed-layout order-parameter record; the field order and values of that
//! record are a hard external contract with the remote program.

use vstd::prelude::*;

use crate::constants::{perp_markets, spec_perp_markets, spec_spot_markets, spot_markets};
use crate::text::{eq_ignore_ascii_case, first_index_of, spec_eq_ignore_ascii_case, spec_first_index};

verus! {

/// Error taxonomy of the client core.
///
/// Nothing here is fatal to the process: every failure is scoped to one
/// account, subscription or request.
#[derive(Clone, Copy, Debug, PartialEq, Eq, Structural)]
pub enum SdkError {
    /// Subscription establishment or transport-level failure; recoverable.
    ConnectionError,
    /// Malformed or unexpected-length account bytes; isolated per update.
    DecodeError,
    /// Name longer than the fixed wire slot; rejected before any write.
    NameTooLong,
    /// A market symbol that does not resolve; no fallback guess is made.
    MarketLookupNotFound,
    /// Remote state absent where state was expected to exist; distinct from
    /// a decode failure so callers can choose create-versus-retry flows.
    AccountNotFound,
}

/// Result alias used throughout the client.
pub type SdkResult<T> = Result<T, SdkError>;

/// Program context: which deployment the client targets.
#[derive(Debug, Copy, Clone, PartialEq, Eq, Structural)]
pub enum Context {
    /// Target devnet
    Dev,
    /// Target mainnet
    Mainnet,
}

/// Kind of market a `MarketId` refers to.
#[derive(Copy, Clone, Debug, Default, PartialEq, Eq, Structural)]
pub enum MarketType {
    #[default]
    Spot,
    Perp,
}

/// Id of a market: its index within its kind's registry.
#[derive(Copy, Clone, Debug, Default, PartialEq, Eq, Structural)]
pub struct MarketId {
    pub index: u16,
    pub kind: MarketType,
}

/// The index of the first registry entry whose symbol equals `sym` up to
/// ASCII case, if any entry does.
pub open spec fn spec_find_market(entries: Seq<(Seq<char>, u16)>, sym: Seq<char>) -> Option<u16>
    decreases entries.len(),
{
    if entries.len() == 0 {
        None
    } else if spec_eq_ignore_ascii_case(entries[0].0, sym) {
        Some(entries[0].1)
    } else {
        spec_find_market(entries.drop_first(), sym)
    }
}

proof fn lemma_find_market_hit(entries: Seq<(Seq<char>, u16)>, sym: Seq<char>, j: int)
    requires
        0 <= j < entries.len(),
        spec_eq_ignore_ascii_case(entries[j].0, sym),
        forall|k: int| 0 <= k < j ==> !spec_eq_ignore_ascii_case(entries[k].0, sym),
    ensures
        spec_find_market(entries, sym) == Some(entries[j].1),
    decreases j,
{
    if j > 0 {
        lemma_find_market_hit(entries.drop_first(), sym, j - 1);
    }
}

proof fn lemma_find_market_miss(entries: Seq<(Seq<char>, u16)>, sym: Seq<char>)
    requires
        forall|k: int| 0 <= k < entries.len() ==> !spec_eq_ignore_ascii_case(entries[k].0, sym),
    ensures
        spec_find_market(entries, sym) is None,
    decreases entries.len(),
{
    if entries.len() > 0 {
        lemma_find_market_miss(entries.drop_first(), sym);
    }
}

/// What `MarketId::lookup` resolves `symbol` to under `context`: a bare
/// symbol is matched against the spot registry, a symbol with a `-perp`
/// suffix against the perp registry, both ignoring ASCII case; anything
/// else resolves to nothing.
pub open spec fn spec_lookup(context: Context, symbol: Seq<char>) -> Option<MarketId> {
    let d = spec_first_index(symbol, '-');
    if d == symbol.len() {
        match spec_find_market(spec_spot_markets(context), symbol) {
            Some(index) => Some(MarketId { index, kind: MarketType::Spot }),
            None => None,
        }
    } else if spec_eq_ignore_ascii_case(symbol.skip(d + 1), "perp"@) {
        match spec_find_market(spec_perp_markets(context), symbol.take(d)) {
            Some(index) => Some(MarketId { index, kind: MarketType::Perp }),
            None => None,
        }
    } else {
        None
    }
}

impl MarketId {
    /// Lookup a market id by context and symbol
    ///
    /// This operation is not free so lookups should be reused/cached by the
    /// caller.
    ///
    /// Returns an error if symbol and context do not map to a known market.
    pub fn lookup(context: Context, symbol: &str) -> (r: SdkResult<MarketId>)
        ensures
            (match spec_lookup(context, symbol@) {
                Some(m) => r == Ok::<MarketId, SdkError>(m),
                None => r == Err::<MarketId, SdkError>(SdkError::MarketLookupNotFound),
            }),
    {
        let n = symbol.unicode_len();
        let d = first_index_of(symbol, '-');
        if d == n {
            let markets = spot_markets(context);
            let mut j: usize = 0;
            while j < markets.len()
                invariant
                    spec_first_index(symbol@, '-') == symbol@.len(),
                    markets@.len() == spec_spot_markets(context).len(),
                    forall|i: int|
                        0 <= i < markets@.len() ==> markets@[i].symbol@ == spec_spot_markets(
                            context,
                        )[i].0 && markets@[i].market_index == spec_spot_markets(context)[i].1,
                    forall|k: int|
                        0 <= k < j ==> !spec_eq_ignore_ascii_case(
                            spec_spot_markets(context)[k].0,
                            symbol@,
                        ),
                decreases markets@.len() - j,
            {
                if eq_ignore_ascii_case(markets[j].symbol, symbol) {
                    proof {
                        lemma_find_market_hit(spec_spot_markets(context), symbol@, j as int);
                    }
                    return Ok(MarketId::spot(markets[j].market_index));
                }
                j += 1;
            }
            proof {
                lemma_find_market_miss(spec_spot_markets(context), symbol@);
            }
            Err(SdkError::MarketLookupNotFound)
        } else {
            let rest = symbol.substring_char(d + 1, n);
            proof {
                assert(rest@ =~= symbol@.skip(d + 1));
            }
            if eq_ignore_ascii_case(rest, "perp") {
                let base = symbol.substring_char(0, d);
                proof {
                    assert(base@ =~= symbol@.take(d as int));
                }
                let markets = perp_markets(context);
                let mut j: usize = 0;
                while j < markets.len()
                    invariant
                        d == spec_first_index(symbol@, '-'),
                        d < symbol@.len(),
                        spec_eq_ignore_ascii_case(symbol@.skip(d + 1), "perp"@),
                        base@ == symbol@.take(d as int),
                        markets@.len() == spec_perp_markets(context).len(),
                        forall|i: int|
                            0 <= i < markets@.len() ==> markets@[i].base_asset_symbol@
                                == spec_perp_markets(context)[i].0 && markets@[i].market_index
                                == spec_perp_markets(context)[i].1,
                        forall|k: int|
                            0 <= k < j ==> !spec_eq_ignore_ascii_case(
                                spec_perp_markets(context)[k].0,
                                base@,
                            ),
                    decreases markets@.len() - j,
                {
                    if eq_ignore_ascii_case(markets[j].base_asset_symbol, base) {
                        proof {
                            lemma_find_market_hit(spec_perp_markets(context), base@, j as int);
                        }
                        return Ok(MarketId::perp(markets[j].market_index));
                    }
                    j += 1;
                }
                proof {
                    lemma_find_market_miss(spec_perp_markets(context), base@);
                }
                Err(SdkError::MarketLookupNotFound)
            } else {
                Err(SdkError::MarketLookupNotFound)
            }
        }
    }

    /// Id of a perp market
    pub fn perp(index: u16) -> (r: Self)
        ensures
            r == (MarketId { index, kind: MarketType::Perp }),
    {
        Self { index, kind: MarketType::Perp }
    }

    /// Id of a spot market
    pub fn spot(index: u16) -> (r: Self)
        ensures
            r == (MarketId { index, kind: MarketType::Spot }),
    {
        Self { index, kind: MarketType::Spot }
    }
}

impl From<(u16, MarketType)> for MarketId {
    fn from(value: (u16, MarketType)) -> (r: Self) {
        Self { index: value.0, kind: value.1 }
    }
}

impl vstd::std_specs::convert::FromSpecImpl<(u16, MarketType)> for MarketId {
    open spec fn obeys_from_spec() -> bool {
        true
    }

    open spec fn from_spec(value: (u16, MarketType)) -> Self {
        MarketId { index: value.0, kind: value.1 }
    }
}

/// Execution style of an order.
#[derive(Copy, Clone, Debug, Default, PartialEq, Eq, Structural)]
pub enum OrderType {
    #[default]
    Market,
    Limit,
}

/// Side of an order.
#[derive(Copy, Clone, Debug, Default, PartialEq, Eq, Structural)]
pub enum PositionDirection {
    #[default]
    Long,
    Short,
}

/// Post-only treatment requested of the remote program.
#[derive(Copy, Clone, Debug, Default, PartialEq, Eq, Structural)]
pub enum PostOnlyParam {
    #[default]
    NoPostOnly,
    TryPostOnly,
}

/// Finalized, immutable order-parameter record in the layout the remote
/// program expects.
#[derive(Copy, Clone, Debug, PartialEq, Eq, Structural)]
pub struct OrderParams {
    pub order_type: OrderType,
    pub market_index: u16,
    pub market_type: MarketType,
    pub direction: PositionDirection,
    pub base_asset_amount: u64,
    pub price: u64,
    pub reduce_only: bool,
    pub post_only: PostOnlyParam,
    pub immediate_or_cancel: bool,
}

/// The unsigned magnitude of a signed amount.
pub open spec fn spec_magnitude(amount: i64) -> u64 {
    (if amount >= 0 {
        amount as int
    } else {
        -(amount as int)
    }) as u64
}

/// The direction a signed amount selects: negative means short, zero is
/// treated as long by convention.
pub open spec fn spec_direction_of(amount: i64) -> PositionDirection {
    if amount >= 0 {
        PositionDirection::Long
    } else {
        PositionDirection::Short
    }
}

/// Builder API for orders.
///
/// Setters return the builder for chaining and validate nothing beyond type
/// constraints; cross-field combinations are left to the remote program to
/// accept or reject. `build` is one-shot and consumes the builder.
pub struct NewOrder {
    pub order_type: OrderType,
    pub direction: PositionDirection,
    pub reduce_only: bool,
    pub market_id: MarketId,
    pub post_only: bool,
    pub ioc: bool,
    pub amount: u64,
    pub price: u64,
}

impl NewOrder {
    /// Create a market order, zero-initializing everything but the market.
    pub fn market(market_id: MarketId) -> (r: Self)
        ensures
            r == (NewOrder {
                order_type: OrderType::Market,
                direction: PositionDirection::Long,
                reduce_only: false,
                market_id,
                post_only: false,
                ioc: false,
                amount: 0u64,
                price: 0u64,
            }),
    {
        Self {
            order_type: OrderType::Market,
            direction: PositionDirection::Long,
            reduce_only: false,
            market_id,
            post_only: false,
            ioc: false,
            amount: 0,
            price: 0,
        }
    }

    /// Create a limit order, zero-initializing everything but the market.
    pub fn limit(market_id: MarketId) -> (r: Self)
        ensures
            r == (NewOrder { order_type: OrderType::Limit, ..Self::spec_market(market_id) }),
    {
        Self { order_type: OrderType::Limit, ..Self::market(market_id) }
    }

    /// What `market(market_id)` returns; the zero-initialized builder.
    pub open spec fn spec_market(market_id: MarketId) -> Self {
        NewOrder {
            order_type: OrderType::Market,
            direction: PositionDirection::Long,
            reduce_only: false,
            market_id,
            post_only: false,
            ioc: false,
            amount: 0u64,
            price: 0u64,
        }
    }

    /// Set order amount.
    ///
    /// A sub-zero amount indicates a short; the sign selects the direction
    /// and the magnitude is stored unsigned.
    pub fn amount(self, amount: i64) -> (r: Self)
        ensures
            r == (NewOrder {
                direction: spec_direction_of(amount),
                amount: spec_magnitude(amount),
                ..self
            }),
    {
        let direction = if amount >= 0 {
            PositionDirection::Long
        } else {
            PositionDirection::Short
        };
        let magnitude: u64 = if amount >= 0 {
            amount as u64
        } else if amount == i64::MIN {
            9223372036854775808u64
        } else {
            (-amount) as u64
        };
        Self { direction, amount: magnitude, ..self }
    }

    /// Set order price
    pub fn price(self, price: u64) -> (r: Self)
        ensures
            r == (NewOrder { price, ..self }),
    {
        Self { price, ..self }
    }

    /// Set reduce only (default: false)
    pub fn reduce_only(self, flag: bool) -> (r: Self)
        ensures
            r == (NewOrder { reduce_only: flag, ..self }),
    {
        Self { reduce_only: flag, ..self }
    }

    /// Set immediate or cancel (default: false)
    pub fn ioc(self, flag: bool) -> (r: Self)
        ensures
            r == (NewOrder { ioc: flag, ..self }),
    {
        Self { ioc: flag, ..self }
    }

    /// Set post-only (default: false)
    pub fn post_only(self, flag: bool) -> (r: Self)
        ensures
            r == (NewOrder { post_only: flag, ..self }),
    {
        Self { post_only: flag, ..self }
    }

    /// Call to complete building the order; consumes the builder.
    pub fn build(self) -> (r: OrderParams)
        ensures
            r == (OrderParams {
                order_type: self.order_type,
                market_index: self.market_id.index,
                market_type: self.market_id.kind,
                direction: self.direction,
                base_asset_amount: self.amount,
                price: self.price,
                reduce_only: self.reduce_only,
                post_only: if self.post_only {
                    PostOnlyParam::TryPostOnly
                } else {
                    PostOnlyParam::NoPostOnly
                },
                immediate_or_cancel: self.ioc,
            }),
    {
        OrderParams {
            order_type: self.order_type,
            market_index: self.market_id.index,
            market_type: self.market_id.kind,
            direction: self.direction,
            base_asset_amount: self.amount,
            price: self.price,
            reduce_only: self.reduce_only,
            post_only: if self.post_only {
                PostOnlyParam::TryPostOnly
            } else {
                PostOnlyParam::NoPostOnly
            },
            immediate_or_cancel: self.ioc,
        }
    }
}

} // verus!
