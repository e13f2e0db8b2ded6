use vstd::prelude::*;
use crate::{BookPrice, BookQuantity, OrderId};

verus! {

#[derive(Debug, Clone, Copy, PartialEq, Eq, Structural, Default, Hash, PartialOrd, Ord)]
pub enum OrderSide {
    #[default]
    Bid,
    Ask,
}

#[derive(Debug, Clone, Copy, PartialEq, Eq, Structural)]
pub enum OrderStatus {
    PendingNew,
    Accepted,
    PartiallyFilled,
    FullyFilled,
    Canceled,
    Rejected,
}

#[derive(Debug, Clone, PartialEq, Eq, Structural)]
pub enum OrderType {
    Limit,
    Market,
    Cancel,
    Modify,
    RemoveOther,
    Null,
}

#[derive(Debug, Clone, Copy, PartialEq, Eq, Structural, PartialOrd, Ord, Hash)]
pub enum CoreType {
    LimitOrder,
    MarketOrder,
    CancelOrder,
    ModifyOrder,
    RemoveOtherOrder,
    NullOrder,
}

impl CoreType {
    /// The name of the kind, as shown.
    pub open spec fn name(self) -> Seq<char> {
        match self {
            CoreType::LimitOrder => "LimitOrder"@,
            CoreType::MarketOrder => "MarketOrder"@,
            CoreType::CancelOrder => "CancelOrder"@,
            CoreType::ModifyOrder => "ModifyOrder"@,
            CoreType::RemoveOtherOrder => "RemoveOtherOrder"@,
            CoreType::NullOrder => "NullOrder"@,
        }
    }

    /// The name of the kind.
    pub fn to_string(&self) -> (r: String)
        ensures
            r@ == self.name(),
    {
        match self {
            CoreType::LimitOrder => String::from_str("LimitOrder"),
            CoreType::MarketOrder => String::from_str("MarketOrder"),
            CoreType::CancelOrder => String::from_str("CancelOrder"),
            CoreType::ModifyOrder => String::from_str("ModifyOrder"),
            CoreType::RemoveOtherOrder => String::from_str("RemoveOtherOrder"),
            CoreType::NullOrder => String::from_str("NullOrder"),
        }
    }
}

#[derive(Debug, Clone, Copy, PartialEq, Eq, Structural, Default, Hash, PartialOrd, Ord)]
pub struct LimitOrder {
    pub price: BookPrice,
    pub quantity: BookQuantity,
    pub order_side: OrderSide,
    pub order_id: OrderId,
}

impl LimitOrder {
    pub fn new(price: BookPrice, quantity: BookQuantity, order_side: OrderSide, order_id: OrderId) -> (r: Self)
        ensures
            r == (LimitOrder { price, quantity, order_side, order_id }),
    {
        Self { price, quantity, order_side, order_id }
    }
}

#[derive(Debug, Clone, Copy, PartialEq, Eq, Structural, Default, Hash, PartialOrd, Ord)]
pub struct MarketOrder {
    pub quantity: BookQuantity,
    pub order_side: OrderSide,
    pub order_id: OrderId,
}

impl MarketOrder {
    pub fn new(quantity: BookQuantity, order_side: OrderSide, order_id: OrderId) -> (r: Self)
        ensures
            r == (MarketOrder { quantity, order_side, order_id }),
    {
        Self { quantity, order_side, order_id }
    }
}

/// Cancels one of one's own orders.
#[derive(Debug, Clone, Copy, PartialEq, Eq, Structural, Default, Hash, PartialOrd, Ord)]
pub struct CancelOrder {
    pub order_id: OrderId,
}

impl CancelOrder {
    pub fn new(order_id: OrderId) -> (r: Self)
        ensures
            r == (CancelOrder { order_id }),
    {
        Self { order_id }
    }
}

#[derive(Debug, Clone, Copy, PartialEq, Eq, Structural, Default, Hash, PartialOrd, Ord)]
pub struct ModifyOrder {
    pub order_id: OrderId,
    pub price: BookPrice,
    pub quantity: BookQuantity,
}

impl ModifyOrder {
    pub fn new(order_id: OrderId, price: BookPrice, quantity: BookQuantity) -> (r: Self)
        ensures
            r == (ModifyOrder { order_id, price, quantity }),
    {
        Self { order_id, price, quantity }
    }
}

/// Removes quantity resting at a price on one side; to remove in another ratio, use
/// `ModifyOrder`.
#[derive(Debug, Clone, Copy, PartialEq, Eq, Structural, Default, Hash, PartialOrd, Ord)]
pub struct RemoveOtherOrder {
    pub price: BookPrice,
    pub quantity: BookQuantity,
    pub order_side: OrderSide,
}

impl RemoveOtherOrder {
    pub fn new(price: BookPrice, quantity: BookQuantity, order_side: OrderSide) -> (r: Self)
        ensures
            r == (RemoveOtherOrder { price, quantity, order_side }),
    {
        Self { price, quantity, order_side }
    }
}

#[derive(Debug, Clone, Copy, PartialEq, Eq, Structural, Default, Hash, PartialOrd, Ord)]
pub struct NullOrder {}

#[derive(Debug, Clone, Copy, PartialEq, Eq, Structural)]
pub enum OrderCore {
    NullOrder(NullOrder),
    LimitOrder(LimitOrder),
    RemoveOtherOrder(RemoveOtherOrder),
    MarketOrder(MarketOrder),
    CancelOrder(CancelOrder),
    ModifyOrder(ModifyOrder),
}

impl Default for OrderCore {
    fn default() -> (r: Self)
        ensures
            r == OrderCore::NullOrder(NullOrder {}),
    {
        OrderCore::NullOrder(NullOrder {})
    }
}

impl OrderCore {
    /// The quantity of the orders that carry one.
    pub open spec fn quantity_spec(self) -> Option<BookQuantity> {
        match self {
            OrderCore::LimitOrder(o) => Some(o.quantity),
            OrderCore::MarketOrder(o) => Some(o.quantity),
            OrderCore::ModifyOrder(o) => Some(o.quantity),
            _ => None,
        }
    }

    /// The id of the orders that carry one.
    pub open spec fn order_id_spec(self) -> Option<OrderId> {
        match self {
            OrderCore::LimitOrder(o) => Some(o.order_id),
            OrderCore::MarketOrder(o) => Some(o.order_id),
            OrderCore::CancelOrder(o) => Some(o.order_id),
            OrderCore::ModifyOrder(o) => Some(o.order_id),
            _ => None,
        }
    }

    pub fn core_type(&self) -> (r: CoreType)
        ensures
            r == (match *self {
                OrderCore::LimitOrder(_) => CoreType::LimitOrder,
                OrderCore::MarketOrder(_) => CoreType::MarketOrder,
                OrderCore::CancelOrder(_) => CoreType::CancelOrder,
                OrderCore::ModifyOrder(_) => CoreType::ModifyOrder,
                OrderCore::RemoveOtherOrder(_) => CoreType::RemoveOtherOrder,
                OrderCore::NullOrder(_) => CoreType::NullOrder,
            }),
    {
        match self {
            OrderCore::LimitOrder(_) => CoreType::LimitOrder,
            OrderCore::MarketOrder(_) => CoreType::MarketOrder,
            OrderCore::CancelOrder(_) => CoreType::CancelOrder,
            OrderCore::ModifyOrder(_) => CoreType::ModifyOrder,
            OrderCore::RemoveOtherOrder(_) => CoreType::RemoveOtherOrder,
            OrderCore::NullOrder(_) => CoreType::NullOrder,
        }
    }

    /// Sets the quantity of a limit, market or modify order; leaves any other order as
    /// it is.
    pub fn set_quantity(&mut self, quantity: BookQuantity)
        ensures
            *final(self) == (match *old(self) {
                OrderCore::LimitOrder(o) => OrderCore::LimitOrder(LimitOrder { quantity, ..o }),
                OrderCore::MarketOrder(o) => OrderCore::MarketOrder(MarketOrder { quantity, ..o }),
                OrderCore::ModifyOrder(o) => OrderCore::ModifyOrder(ModifyOrder { quantity, ..o }),
                other => other,
            }),
    {
        match self {
            OrderCore::LimitOrder(order) => order.quantity = quantity,
            OrderCore::MarketOrder(order) => order.quantity = quantity,
            OrderCore::ModifyOrder(order) => order.quantity = quantity,
            _ => {},
        }
    }

    /// Sets the price of a limit or modify order; leaves any other order as it is.
    pub fn set_price(&mut self, price: BookPrice)
        ensures
            *final(self) == (match *old(self) {
                OrderCore::LimitOrder(o) => OrderCore::LimitOrder(LimitOrder { price, ..o }),
                OrderCore::ModifyOrder(o) => OrderCore::ModifyOrder(ModifyOrder { price, ..o }),
                other => other,
            }),
    {
        match self {
            OrderCore::LimitOrder(order) => order.price = price,
            OrderCore::ModifyOrder(order) => order.price = price,
            _ => {},
        }
    }

    pub fn quantity(&self) -> (r: Option<BookQuantity>)
        ensures
            r == self.quantity_spec(),
    {
        match self {
            OrderCore::LimitOrder(order) => Some(order.quantity),
            OrderCore::MarketOrder(order) => Some(order.quantity),
            OrderCore::ModifyOrder(order) => Some(order.quantity),
            _ => None,
        }
    }

    pub fn order_side(&self) -> (r: Option<OrderSide>)
        ensures
            r == (match *self {
                OrderCore::LimitOrder(o) => Some(o.order_side),
                OrderCore::MarketOrder(o) => Some(o.order_side),
                _ => None,
            }),
    {
        match self {
            OrderCore::LimitOrder(order) => Some(order.order_side),
            OrderCore::MarketOrder(order) => Some(order.order_side),
            _ => None,
        }
    }

    pub fn order_id(&self) -> (r: Option<OrderId>)
        ensures
            r == self.order_id_spec(),
    {
        match self {
            OrderCore::LimitOrder(order) => Some(order.order_id),
            OrderCore::MarketOrder(order) => Some(order.order_id),
            OrderCore::CancelOrder(order) => Some(order.order_id),
            OrderCore::ModifyOrder(order) => Some(order.order_id),
            _ => None,
        }
    }
}

} // verus!
