use crate::codec::{Commodity, Message, Operation};
use vstd::prelude::*;

verus! {

/// How one operation moves a commodity's counter: a buy raises it by one,
/// a sell lowers it by one.
pub open spec fn delta(op: Operation) -> int {
    match op {
        Operation::Buy => 1,
        Operation::Sell => -1,
    }
}

/// The crossing rule, over the counter before the intent: a buy fires a
/// trade iff the counter after the increment is at most zero (the buy meets
/// net-sell backlog); a sell fires a trade iff the counter after the
/// decrement is at least zero (the sell meets net-buy backlog). For every
/// integer counter this decides trade-or-not deterministically.
pub open spec fn trade_fires(counter_before: int, op: Operation) -> bool {
    match op {
        Operation::Buy => counter_before + 1 <= 0,
        Operation::Sell => counter_before - 1 >= 0,
    }
}

/// The matching engine's state: one signed net-interest counter per
/// commodity, meant to equal the cumulative buys minus the cumulative
/// sells submitted so far for that commodity.
pub struct OrderBook {
    apple: i32,
    pear: i32,
    tomato: i32,
    potato: i32,
    onion: i32,
}

impl OrderBook {
    /// The net-interest counter of one commodity.
    pub closed spec fn counter(self, c: Commodity) -> int {
        match c {
            Commodity::Apple => self.apple as int,
            Commodity::Pear => self.pear as int,
            Commodity::Tomato => self.tomato as int,
            Commodity::Potato => self.potato as int,
            Commodity::Onion => self.onion as int,
        }
    }

    /// Whether the book can absorb an intent without its counter leaving
    /// the machine range.
    pub open spec fn can_apply(self, msg: Message) -> bool {
        match msg.operation {
            Operation::Buy => self.counter(msg.commodity) < i32::MAX,
            Operation::Sell => self.counter(msg.commodity) > i32::MIN,
        }
    }

    /// A fresh book: every counter at zero.
    pub fn new() -> (r: Self)
        ensures
            forall|c: Commodity| r.counter(c) == 0,
    {
        OrderBook { apple: 0, pear: 0, tomato: 0, potato: 0, onion: 0 }
    }

    /// Read one commodity's counter.
    pub fn get_counter(&self, c: Commodity) -> (r: i32)
        ensures
            r as int == self.counter(c),
    {
        match c {
            Commodity::Apple => self.apple,
            Commodity::Pear => self.pear,
            Commodity::Tomato => self.tomato,
            Commodity::Potato => self.potato,
            Commodity::Onion => self.onion,
        }
    }

    /// Register a buy: raise the commodity's counter by one and report
    /// whether the crossing rule fires a trade.
    pub fn add_buy_order(&mut self, commodity: Commodity) -> (trade: bool)
        requires
            old(self).counter(commodity) < i32::MAX,
        ensures
            final(self).counter(commodity) == old(self).counter(commodity) + 1,
            forall|d: Commodity| d != commodity ==> final(self).counter(d) == old(self).counter(
                d,
            ),
            trade == trade_fires(old(self).counter(commodity), Operation::Buy),
    {
        let after: i32 = match commodity {
            Commodity::Apple => {
                self.apple = self.apple + 1;
                self.apple
            },
            Commodity::Pear => {
                self.pear = self.pear + 1;
                self.pear
            },
            Commodity::Tomato => {
                self.tomato = self.tomato + 1;
                self.tomato
            },
            Commodity::Potato => {
                self.potato = self.potato + 1;
                self.potato
            },
            Commodity::Onion => {
                self.onion = self.onion + 1;
                self.onion
            },
        };
        after <= 0
    }

    /// Register a sell: lower the commodity's counter by one and report
    /// whether the crossing rule fires a trade.
    pub fn add_sell_order(&mut self, commodity: Commodity) -> (trade: bool)
        requires
            old(self).counter(commodity) > i32::MIN,
        ensures
            final(self).counter(commodity) == old(self).counter(commodity) - 1,
            forall|d: Commodity| d != commodity ==> final(self).counter(d) == old(self).counter(
                d,
            ),
            trade == trade_fires(old(self).counter(commodity), Operation::Sell),
    {
        let after: i32 = match commodity {
            Commodity::Apple => {
                self.apple = self.apple - 1;
                self.apple
            },
            Commodity::Pear => {
                self.pear = self.pear - 1;
                self.pear
            },
            Commodity::Tomato => {
                self.tomato = self.tomato - 1;
                self.tomato
            },
            Commodity::Potato => {
                self.potato = self.potato - 1;
                self.potato
            },
            Commodity::Onion => {
                self.onion = self.onion - 1;
                self.onion
            },
        };
        after >= 0
    }

    /// Whether `process_intent` may be called with this intent. The driver
    /// around the engine tests this before every call.
    pub fn check_capacity(&self, msg: &Message) -> (r: bool)
        ensures
            r == self.can_apply(*msg),
    {
        match msg.operation {
            Operation::Buy => self.get_counter(msg.commodity) < i32::MAX,
            Operation::Sell => self.get_counter(msg.commodity) > i32::MIN,
        }
    }

    /// Apply one intent: move its commodity's counter one step, leave every
    /// other counter alone, and hand back the trade event to broadcast if
    /// the crossing rule fires one.
    pub fn process_intent(&mut self, msg: Message) -> (r: Option<Commodity>)
        requires
            old(self).can_apply(msg),
        ensures
            final(self).counter(msg.commodity) == old(self).counter(msg.commodity) + delta(
                msg.operation,
            ),
            forall|d: Commodity| d != msg.commodity ==> final(self).counter(d) == old(
                self,
            ).counter(d),
            r == if trade_fires(old(self).counter(msg.commodity), msg.operation) {
                Some(msg.commodity)
            } else {
                None::<Commodity>
            },
    {
        let trade = match msg.operation {
            Operation::Buy => self.add_buy_order(msg.commodity),
            Operation::Sell => self.add_sell_order(msg.commodity),
        };
        if trade {
            Some(msg.commodity)
        } else {
            None
        }
    }
}

/// The net interest a batch of intents implies for one commodity: its
/// buys count one each, its sells one less each, intents for other
/// commodities nothing.
pub open spec fn net_interest(msgs: Seq<Message>, c: Commodity) -> int
    decreases msgs.len(),
{
    if msgs.len() == 0 {
        0
    } else {
        net_interest(msgs.drop_last(), c) + if msgs.last().commodity == c {
            delta(msgs.last().operation)
        } else {
            0
        }
    }
}

/// The trades a batch of intents fires when processed in order from a
/// fresh book, each decided by the crossing rule over the net interest
/// accumulated so far for its commodity.
pub open spec fn trades_of(msgs: Seq<Message>) -> Seq<Commodity>
    decreases msgs.len(),
{
    if msgs.len() == 0 {
        Seq::empty()
    } else {
        let before = msgs.drop_last();
        let m = msgs.last();
        trades_of(before) + if trade_fires(net_interest(before, m.commodity), m.operation) {
            seq![m.commodity]
        } else {
            Seq::empty()
        }
    }
}

/// Net interest never outgrows the number of intents that produced it.
pub proof fn lemma_net_interest_bounds(msgs: Seq<Message>, c: Commodity)
    ensures
        -(msgs.len() as int) <= net_interest(msgs, c) <= msgs.len() as int,
    decreases msgs.len(),
{
    if msgs.len() > 0 {
        lemma_net_interest_bounds(msgs.drop_last(), c);
    }
}

impl OrderBook {
    /// Run a whole batch of intents, in order, against a fresh book: the
    /// engine's sequential loop with its mailbox drained ahead of time.
    /// Afterwards every counter holds the net interest of the batch — the
    /// cumulative buys minus the cumulative sells for that commodity — and
    /// the trades fired are exactly those the crossing rule picks on the
    /// way.
    pub fn replay(msgs: &Vec<Message>) -> (r: (OrderBook, Vec<Commodity>))
        requires
            msgs@.len() <= i32::MAX,
        ensures
            forall|c: Commodity| r.0.counter(c) == net_interest(msgs@, c),
            r.1@ == trades_of(msgs@),
    {
        let mut book = OrderBook::new();
        let mut trades: Vec<Commodity> = Vec::new();
        let n = msgs.len();
        let mut i: usize = 0;
        while i < n
            invariant
                n == msgs@.len() <= i32::MAX,
                0 <= i <= n,
                forall|c: Commodity| book.counter(c) == net_interest(msgs@.subrange(0, i as int), c),
                trades@ == trades_of(msgs@.subrange(0, i as int)),
            decreases n - i,
        {
            let msg = msgs[i];
            proof {
                lemma_net_interest_bounds(msgs@.subrange(0, i as int), msg.commodity);
            }
            let fired = book.process_intent(msg);
            match fired {
                Some(c) => trades.push(c),
                None => (),
            }
            proof {
                assert(msgs@.subrange(0, i + 1).drop_last() =~= msgs@.subrange(0, i as int));
                assert(msgs@.subrange(0, i + 1).last() == msgs@[i as int]);
                assert(trades@ =~= trades_of(msgs@.subrange(0, i + 1)));
            }
            i += 1;
        }
        proof {
            assert(msgs@.subrange(0, n as int) =~= msgs@);
        }
        (book, trades)
    }
}

} // verus!
