use vstd::prelude::*;
use crate::{BookPrice, BookQuantity, BookYield, InstId, OrderCount, TimeStamp};

verus! {

/// One price level of a book.
#[derive(Debug, Clone, Copy, PartialEq, Eq, Structural)]
pub struct LevelSnapshot {
    pub order_count: Option<OrderCount>,
    pub book_price: BookPrice,
    pub book_quantity: BookQuantity,
    pub book_yield: Option<BookYield>,
    pub lp_quantity: Option<BookQuantity>,
}

impl LevelSnapshot {
    /// An empty level: no orders, zero price and quantity.
    pub open spec fn empty_level() -> LevelSnapshot {
        LevelSnapshot {
            order_count: None,
            book_price: 0,
            book_quantity: 0,
            book_yield: None,
            lp_quantity: None,
        }
    }
}

impl Default for LevelSnapshot {
    fn default() -> (r: Self)
        ensures
            r == LevelSnapshot::empty_level(),
    {
        LevelSnapshot {
            order_count: None,
            book_price: 0,
            book_quantity: 0,
            book_yield: None,
            lp_quantity: None,
        }
    }
}

/// Both sides of an instrument's book at one moment.
#[derive(Debug, Clone, PartialEq)]
pub struct QuoteSnapshot {
    pub id: InstId,
    pub datatime: TimeStamp,
    pub systemtime: TimeStamp,
    pub ask_quote_data: Vec<LevelSnapshot>,
    pub bid_quote_data: Vec<LevelSnapshot>,
    /// How many of the levels are in use; may be fewer than the levels held.
    pub quote_level_cut: usize,
    pub all_lp_holdings: Option<BookQuantity>,
}

/// Relies on `StaticId::default`: the id that a snapshot carries before it names an
/// instrument.
#[verifier::external_body]
fn default_inst_id() -> (r: InstId) {
    InstId::default()
}

impl QuoteSnapshot {
    /// A snapshot with `level` empty levels on each side, all in use.
    pub fn sample(level: usize) -> (r: Self)
        ensures
            r.ask_quote_data@ == Seq::new(level as nat, |i: int| LevelSnapshot::empty_level()),
            r.bid_quote_data@ == Seq::new(level as nat, |i: int| LevelSnapshot::empty_level()),
            r.quote_level_cut == level,
            r.datatime == 0,
            r.systemtime == 0,
            r.all_lp_holdings == None::<BookQuantity>,
    {
        let mut ask_quote_data: Vec<LevelSnapshot> = Vec::with_capacity(level);
        let mut bid_quote_data: Vec<LevelSnapshot> = Vec::with_capacity(level);
        let mut i: usize = 0;
        while i < level
            invariant
                i <= level,
                ask_quote_data@ == Seq::new(i as nat, |j: int| LevelSnapshot::empty_level()),
                bid_quote_data@ == Seq::new(i as nat, |j: int| LevelSnapshot::empty_level()),
            decreases level - i,
        {
            ask_quote_data.push(LevelSnapshot::default());
            bid_quote_data.push(LevelSnapshot::default());
            i = i + 1;
            assert(ask_quote_data@ =~= Seq::new(i as nat, |j: int| LevelSnapshot::empty_level()));
            assert(bid_quote_data@ =~= Seq::new(i as nat, |j: int| LevelSnapshot::empty_level()));
        }
        Self {
            id: default_inst_id(),
            datatime: 0,
            systemtime: 0,
            ask_quote_data,
            bid_quote_data,
            quote_level_cut: level,
            all_lp_holdings: None,
        }
    }
}

} // verus!
