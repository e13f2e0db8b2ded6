use vstd::prelude::*;
use crate::order::{OrderCore, OrderStatus};
use crate::{BookQuantity, InstId, OrderId, TimeStamp};

verus! {

/// One of one's own orders, as sent and as it fills.
#[derive(Debug, Clone, PartialEq)]
pub struct OrderRequest {
    pub order_core: OrderCore,
    pub instid: InstId,
    pub systemtime: TimeStamp,
    pub status: OrderStatus,
    pub filled: Option<BookQuantity>,
}

/// The quantity filled so far: none counts as zero.
pub open spec fn filled_so_far(filled: Option<BookQuantity>) -> int {
    match filled {
        Some(q) => q as int,
        None => 0,
    }
}

impl OrderRequest {
    pub fn get_id(&self) -> (r: Option<OrderId>)
        ensures
            r == self.order_core.order_id_spec(),
    {
        self.order_core.order_id()
    }

    /// A request pending acceptance, with nothing filled.
    pub fn new(instid: InstId, order_core: OrderCore, systemtime: TimeStamp) -> (r: Self)
        ensures
            r.order_core == order_core,
            r.instid == instid,
            r.systemtime == systemtime,
            r.status == OrderStatus::PendingNew,
            r.filled == None::<BookQuantity>,
    {
        Self { order_core, status: OrderStatus::PendingNew, systemtime, filled: None, instid }
    }

    pub fn accepted(&mut self)
        ensures
            final(self).status == OrderStatus::Accepted,
            final(self).order_core == old(self).order_core,
            final(self).instid == old(self).instid,
            final(self).systemtime == old(self).systemtime,
            final(self).filled == old(self).filled,
    {
        self.status = OrderStatus::Accepted;
    }

    /// Records a fill of `amount`: the order is fully filled once the total filled
    /// reaches its quantity, and partially filled before that.
    pub fn trade(&mut self, amount: BookQuantity) -> (r: OrderStatus)
        requires
            old(self).order_core.quantity_spec() is Some,
            filled_so_far(old(self).filled) + amount <= u64::MAX,
        ensures
            final(self).filled == Some((filled_so_far(old(self).filled) + amount) as BookQuantity),
            final(self).status == (if filled_so_far(old(self).filled) + amount >= old(
                self,
            ).order_core.quantity_spec()->Some_0 {
                OrderStatus::FullyFilled
            } else {
                OrderStatus::PartiallyFilled
            }),
            r == final(self).status,
            final(self).order_core == old(self).order_core,
            final(self).instid == old(self).instid,
            final(self).systemtime == old(self).systemtime,
    {
        let quantity = self.order_core.quantity().unwrap();
        let so_far = match self.filled {
            Some(q) => q,
            None => 0,
        };
        let fill_amount = so_far + amount;
        if fill_amount >= quantity {
            self.status = OrderStatus::FullyFilled;
        } else {
            self.status = OrderStatus::PartiallyFilled;
        }
        self.filled = Some(fill_amount);
        self.status
    }
}

} // verus!
