//! Pure portfolio calculations for one account and one security.
//!
//! Confirmed transactions are replayed in trade-date/id order: buys raise the moving average cost,
//! sells realise profit against it, and under T+1 a buy only becomes sellable on a later date.
use vstd::prelude::*;

use crate::decimal::{
    checked_add, checked_div, checked_mul, checked_sub, decimal_checked_add, decimal_checked_div,
    decimal_checked_mul, decimal_checked_sub, max, value_order, Dec,
};
use crate::text::{
    all_digits, chars_of, concat2, concat3, i64_text, int_text, is_ascii_digit, is_digit,
    lemma_lex_asymmetric, lemma_lex_total, lemma_lex_transitive, lex_less, lex_lt, vec_eq,
};

verus! {

#[derive(Debug, Clone, Copy, PartialEq, Eq, Structural)]
pub enum SecurityType {
    Stock,
    Etf,
}

#[derive(Debug, Clone, Copy, PartialEq, Eq, Structural)]
pub enum TradeRule {
    TPlus1,
    TPlus0,
    Unknown,
}

#[derive(Debug, Clone, Copy, PartialEq, Eq, Structural)]
pub enum TransactionSide {
    Buy,
    Sell,
}

#[derive(Debug, Clone, Copy, PartialEq, Eq, Structural)]
pub enum TransactionStatus {
    Confirmed,
    Cancelled,
}

#[derive(Debug)]
pub struct PortfolioTransaction {
    pub id: i64,
    /// ISO 8601 trading date (`YYYY-MM-DD`) in the Shanghai market calendar.
    pub trade_date: String,
    pub side: TransactionSide,
    pub status: TransactionStatus,
    pub quantity: i64,
    pub price: Dec,
    /// The actual charged commission, which may have been determined by a minimum commission rule.
    pub commission: Dec,
    pub stamp_tax: Dec,
    pub transfer_fee: Dec,
    pub other_fee: Dec,
    /// The minimum-commission setting recorded with the transaction; metadata, not a second fee.
    pub minimum_commission: Dec,
}

impl Clone for PortfolioTransaction {
    fn clone(&self) -> (r: Self)
        ensures
            r == *self,
    {
        PortfolioTransaction {
            id: self.id,
            trade_date: self.trade_date.clone(),
            side: self.side,
            status: self.status,
            quantity: self.quantity,
            price: self.price,
            commission: self.commission,
            stamp_tax: self.stamp_tax,
            transfer_fee: self.transfer_fee,
            other_fee: self.other_fee,
            minimum_commission: self.minimum_commission,
        }
    }
}

impl PortfolioTransaction {
    pub open spec fn wf(self) -> bool {
        &&& self.price.wf()
        &&& self.commission.wf()
        &&& self.stamp_tax.wf()
        &&& self.transfer_fee.wf()
        &&& self.other_fee.wf()
        &&& self.minimum_commission.wf()
    }
}

pub open spec fn all_wf(txs: Seq<PortfolioTransaction>) -> bool {
    forall|i: int| 0 <= i < txs.len() ==> #[trigger] txs[i].wf()
}

#[derive(Debug)]
pub struct Position {
    pub quantity: i64,
    /// `None` means the instrument's trade rule is unknown, so sellability cannot be calculated.
    pub available_quantity: Option<i64>,
    pub average_cost: Dec,
    pub cost_amount: Dec,
    pub realized_pnl: Dec,
}

impl Position {
    pub open spec fn wf(self) -> bool {
        &&& self.average_cost.wf()
        &&& self.cost_amount.wf()
        &&& self.realized_pnl.wf()
    }
}

#[derive(Debug)]
pub struct PositionValuation {
    pub market_value: Dec,
    pub unrealized_pnl: Dec,
}

#[derive(Debug, Clone, PartialEq, Eq)]
pub enum PortfolioError {
    InvalidQuantity { transaction_id: i64 },
    InvalidPrice { transaction_id: i64 },
    InvalidFee { transaction_id: i64 },
    InvalidTradeDate { transaction_id: i64, trade_date: String },
    InsufficientPosition { transaction_id: i64, requested: i64, held: i64 },
    InsufficientAvailableQuantity { transaction_id: i64, requested: i64, available: i64 },
    TradeRuleUnknown,
    InvalidAvailableQuantity,
}

pub open spec fn portfolio_error_text(e: PortfolioError) -> Seq<char> {
    match e {
        PortfolioError::InvalidQuantity { transaction_id } => "transaction "@ + int_text(
            transaction_id as int,
        ) + " has an invalid quantity"@,
        PortfolioError::InvalidPrice { transaction_id } => "transaction "@ + int_text(transaction_id as int)
            + " has an invalid price"@,
        PortfolioError::InvalidFee { transaction_id } => "transaction "@ + int_text(transaction_id as int)
            + " has an invalid fee"@,
        PortfolioError::InvalidTradeDate { transaction_id, trade_date } => "transaction "@ + int_text(
            transaction_id as int,
        ) + " has an invalid trading date: "@ + trade_date@,
        PortfolioError::InsufficientPosition { transaction_id, requested, held } => "transaction "@
            + int_text(transaction_id as int) + " sells "@ + int_text(requested as int)
            + " shares but only "@ + int_text(held as int) + " are held"@,
        PortfolioError::InsufficientAvailableQuantity { transaction_id, requested, available } =>
            "transaction "@ + int_text(transaction_id as int) + " sells "@ + int_text(requested as int)
            + " shares but only "@ + int_text(available as int) + " are available"@,
        PortfolioError::TradeRuleUnknown => "sellable quantity is unavailable for UNKNOWN trade rule"@,
        PortfolioError::InvalidAvailableQuantity => "available quantity is invalid"@,
    }
}

impl PortfolioError {
    /// The message the error displays.
    pub fn message(&self) -> (r: String)
        ensures
            r@ == portfolio_error_text(*self),
    {
        match self {
            PortfolioError::InvalidQuantity { transaction_id } => {
                let id = i64_text(*transaction_id);
                concat3("transaction ", id.as_str(), " has an invalid quantity")
            },
            PortfolioError::InvalidPrice { transaction_id } => {
                let id = i64_text(*transaction_id);
                concat3("transaction ", id.as_str(), " has an invalid price")
            },
            PortfolioError::InvalidFee { transaction_id } => {
                let id = i64_text(*transaction_id);
                concat3("transaction ", id.as_str(), " has an invalid fee")
            },
            PortfolioError::InvalidTradeDate { transaction_id, trade_date } => {
                let id = i64_text(*transaction_id);
                let head = concat3("transaction ", id.as_str(), " has an invalid trading date: ");
                concat2(head.as_str(), trade_date.as_str())
            },
            PortfolioError::InsufficientPosition { transaction_id, requested, held } => {
                let id = i64_text(*transaction_id);
                let q = i64_text(*requested);
                let h = i64_text(*held);
                let a = concat3("transaction ", id.as_str(), " sells ");
                let b = concat3(a.as_str(), q.as_str(), " shares but only ");
                concat3(b.as_str(), h.as_str(), " are held")
            },
            PortfolioError::InsufficientAvailableQuantity { transaction_id, requested, available } => {
                let id = i64_text(*transaction_id);
                let q = i64_text(*requested);
                let h = i64_text(*available);
                let a = concat3("transaction ", id.as_str(), " sells ");
                let b = concat3(a.as_str(), q.as_str(), " shares but only ");
                concat3(b.as_str(), h.as_str(), " are available")
            },
            PortfolioError::TradeRuleUnknown => String::from_str(
                "sellable quantity is unavailable for UNKNOWN trade rule",
            ),
            PortfolioError::InvalidAvailableQuantity => String::from_str("available quantity is invalid"),
        }
    }
}

/// A `YYYY-MM-DD` shape: ten characters, dashes at 4 and 7, ASCII digits elsewhere.
pub open spec fn is_iso_date(s: Seq<char>) -> bool {
    &&& s.len() == 10
    &&& forall|i: int|
        0 <= i < 10 ==> (if i == 4 || i == 7 {
            #[trigger] s[i] == '-'
        } else {
            is_digit(s[i])
        })
}

pub fn is_iso_trade_date(date: &str) -> (r: bool)
    ensures
        r == is_iso_date(date@),
{
    let v = chars_of(date);
    if v.len() != 10 {
        return false;
    }
    let mut i: usize = 0;
    while i < 10
        invariant
            v@ == date@,
            v.len() == 10,
            i <= 10,
            forall|k: int|
                0 <= k < i ==> (if k == 4 || k == 7 {
                    #[trigger] v@[k] == '-'
                } else {
                    is_digit(v@[k])
                }),
        decreases 10 - i,
    {
        if i == 4 || i == 7 {
            if v[i] != '-' {
                return false;
            }
        } else if !is_ascii_digit(v[i]) {
            return false;
        }
        i = i + 1;
    }
    true
}

/// The first reason a transaction is rejected, if any.
pub open spec fn validation_error(t: PortfolioTransaction) -> Option<PortfolioError> {
    if t.quantity <= 0 {
        Some(PortfolioError::InvalidQuantity { transaction_id: t.id })
    } else if t.price.negative {
        Some(PortfolioError::InvalidPrice { transaction_id: t.id })
    } else if t.commission.negative || t.stamp_tax.negative || t.transfer_fee.negative
        || t.other_fee.negative || t.minimum_commission.negative {
        Some(PortfolioError::InvalidFee { transaction_id: t.id })
    } else if !is_iso_date(t.trade_date@) {
        Some(PortfolioError::InvalidTradeDate { transaction_id: t.id, trade_date: t.trade_date })
    } else {
        None
    }
}

pub fn validate(t: &PortfolioTransaction) -> (r: Result<(), PortfolioError>)
    ensures
        r matches Err(e) ==> validation_error(*t) == Some(e),
        r is Ok ==> validation_error(*t) is None,
{
    if t.quantity <= 0 {
        return Err(PortfolioError::InvalidQuantity { transaction_id: t.id });
    }
    if t.price.is_sign_negative() {
        return Err(PortfolioError::InvalidPrice { transaction_id: t.id });
    }
    if t.commission.is_sign_negative() || t.stamp_tax.is_sign_negative()
        || t.transfer_fee.is_sign_negative() || t.other_fee.is_sign_negative()
        || t.minimum_commission.is_sign_negative() {
        return Err(PortfolioError::InvalidFee { transaction_id: t.id });
    }
    if !is_iso_trade_date(t.trade_date.as_str()) {
        return Err(
            PortfolioError::InvalidTradeDate {
                transaction_id: t.id,
                trade_date: t.trade_date.clone(),
            },
        );
    }
    Ok(())
}

// ---------------------------------------------------------------------------------------------
// Ordering of the ledger
// ---------------------------------------------------------------------------------------------
/// `a` comes strictly before `b` by trade date, then by id.
pub open spec fn tx_before(a: PortfolioTransaction, b: PortfolioTransaction) -> bool {
    lex_lt(a.trade_date@, b.trade_date@) || (a.trade_date@ == b.trade_date@ && a.id < b.id)
}

/// Inserts `x` after every element that does not come after it (a stable insertion).
pub open spec fn insert_by_date(x: PortfolioTransaction, s: Seq<PortfolioTransaction>) -> Seq<
    PortfolioTransaction,
>
    decreases s.len(),
{
    if s.len() == 0 {
        seq![x]
    } else if tx_before(x, s.last()) {
        insert_by_date(x, s.drop_last()).push(s.last())
    } else {
        s.push(x)
    }
}

/// The stable sort of the ledger by trade date, then id (the order of `sort_by` with that key).
pub open spec fn sort_by_date(s: Seq<PortfolioTransaction>) -> Seq<PortfolioTransaction>
    decreases s.len(),
{
    if s.len() == 0 {
        s
    } else {
        insert_by_date(s.last(), sort_by_date(s.drop_last()))
    }
}

pub open spec fn is_confirmed(t: PortfolioTransaction) -> bool {
    t.status == TransactionStatus::Confirmed
}

/// The confirmed transactions, in their original order.
pub open spec fn confirmed(s: Seq<PortfolioTransaction>) -> Seq<PortfolioTransaction> {
    s.filter(confirmed_pred())
}

pub open spec fn confirmed_pred() -> spec_fn(PortfolioTransaction) -> bool {
    |t: PortfolioTransaction| is_confirmed(t)
}

fn before(a: &PortfolioTransaction, b: &PortfolioTransaction) -> (r: bool)
    ensures
        r == tx_before(*a, *b),
{
    let da = chars_of(a.trade_date.as_str());
    let db = chars_of(b.trade_date.as_str());
    if lex_less(&da, &db) {
        true
    } else if vec_eq(&da, &db) {
        a.id < b.id
    } else {
        false
    }
}

proof fn lemma_insert_at(x: PortfolioTransaction, s: Seq<PortfolioTransaction>, j: int)
    requires
        0 <= j <= s.len(),
        forall|k: int| j <= k < s.len() ==> tx_before(x, #[trigger] s[k]),
        j == 0 || !tx_before(x, s[j - 1]),
    ensures
        insert_by_date(x, s) == s.take(j).push(x) + s.skip(j),
    decreases s.len() - j,
{
    if s.len() == 0 {
        assert(s.take(j).push(x) + s.skip(j) == seq![x]);
    } else if j == s.len() {
        assert(!tx_before(x, s.last()));
        assert(s.take(j) == s);
        assert(s.skip(j).len() == 0);
        assert(s.take(j).push(x) + s.skip(j) == s.push(x));
    } else {
        assert(tx_before(x, s[s.len() - 1]));
        let t = s.drop_last();
        assert forall|k: int| j <= k < t.len() implies tx_before(x, #[trigger] t[k]) by {
            assert(t[k] == s[k]);
        }
        if j > 0 {
            assert(t[j - 1] == s[j - 1]);
        }
        lemma_insert_at(x, t, j);
        assert(t.take(j) == s.take(j));
        assert((t.take(j).push(x) + t.skip(j)).push(s.last()) == s.take(j).push(x) + s.skip(j));
    }
}

proof fn lemma_filter_push(s: Seq<PortfolioTransaction>, x: PortfolioTransaction)
    ensures
        confirmed(s.push(x)) == if is_confirmed(x) {
            confirmed(s).push(x)
        } else {
            confirmed(s)
        },
{
    reveal(Seq::filter);
    assert(s.push(x).drop_last() == s);
}

/// The confirmed transactions in trade-date/id order.
pub fn confirmed_in_date_order(transactions: &[PortfolioTransaction]) -> (r: Vec<
    PortfolioTransaction,
>)
    ensures
        r@ == sort_by_date(confirmed(transactions@)),
{
    let mut sorted: Vec<PortfolioTransaction> = Vec::new();
    let mut i: usize = 0;
    proof {
        assert(transactions@.take(0) == Seq::<PortfolioTransaction>::empty());
        reveal(Seq::filter);
        assert(confirmed(Seq::<PortfolioTransaction>::empty()) == Seq::<PortfolioTransaction>::empty());
    }
    while i < transactions.len()
        invariant
            i <= transactions.len(),
            sorted@ == sort_by_date(confirmed(transactions@.take(i as int))),
        decreases transactions.len() - i,
    {
        let t = &transactions[i];
        proof {
            assert(transactions@.take(i + 1) == transactions@.take(i as int).push(*t));
            lemma_filter_push(transactions@.take(i as int), *t);
        }
        if t.status == TransactionStatus::Confirmed {
            let ghost old_sorted = sorted@;
            let mut j = sorted.len();
            while j > 0 && before(t, &sorted[j - 1])
                invariant
                    j <= sorted.len(),
                    sorted@ == old_sorted,
                    forall|k: int| j <= k < sorted.len() ==> tx_before(*t, #[trigger] sorted@[k]),
                decreases j,
            {
                j = j - 1;
            }
            proof {
                lemma_insert_at(*t, old_sorted, j as int);
                let s2 = confirmed(transactions@.take(i as int)).push(*t);
                assert(s2.last() == *t);
                assert(s2.drop_last() == confirmed(transactions@.take(i as int)));
            }
            sorted.insert(j, t.clone());
            proof {
                assert(sorted@ == old_sorted.take(j as int).push(*t) + old_sorted.skip(j as int));
            }
        }
        i = i + 1;
    }
    proof {
        assert(transactions@.take(transactions.len() as int) == transactions@);
    }
    sorted
}


// ---------------------------------------------------------------------------------------------
// Replaying the ledger
// ---------------------------------------------------------------------------------------------
/// A T+1 buy that is not sellable yet.
#[derive(Debug)]
pub struct PendingBuy {
    pub trade_date: String,
    pub quantity: i64,
}

/// The state of a replay, as the contracts see it.
pub struct CalcModel {
    pub rule: TradeRule,
    pub quantity: i64,
    pub available: i64,
    pub average_cost: Dec,
    pub cost_amount: Dec,
    pub realized_pnl: Dec,
    pub pending: Seq<PendingBuy>,
}

/// The quantity held back by pending buys.
pub open spec fn pending_total(p: Seq<PendingBuy>) -> int
    decreases p.len(),
{
    if p.len() == 0 {
        0
    } else {
        p[0].quantity + pending_total(p.drop_first())
    }
}

/// What a replay keeps true: quantities are non-negative, and the sellable quantity plus the
/// pending T+1 buys make up the held quantity (all of it under T+0, none of it when unknown).
pub open spec fn state_inv(s: CalcModel) -> bool {
    &&& shape_inv(s)
    &&& s.average_cost.wf()
    &&& s.cost_amount.wf()
    &&& s.realized_pnl.wf()
}

/// The quantity part of `state_inv`.
pub open spec fn shape_inv(s: CalcModel) -> bool {
    &&& s.quantity >= 0
    &&& s.available >= 0
    &&& (s.quantity == 0 ==> s.average_cost == Dec::zero_spec() && s.cost_amount == Dec::zero_spec())
    &&& forall|i: int| 0 <= i < s.pending.len() ==> #[trigger] s.pending[i].quantity > 0
    &&& match s.rule {
        TradeRule::TPlus1 => s.available + pending_total(s.pending) == s.quantity,
        TradeRule::TPlus0 => s.available == s.quantity && s.pending.len() == 0,
        TradeRule::Unknown => s.available == 0 && s.pending.len() == 0,
    }
}

pub open spec fn initial_state(rule: TradeRule) -> CalcModel {
    CalcModel {
        rule,
        quantity: 0,
        available: 0,
        average_cost: Dec::zero_spec(),
        cost_amount: Dec::zero_spec(),
        realized_pnl: Dec::zero_spec(),
        pending: Seq::empty(),
    }
}

/// Releases, in order, every pending buy dated strictly before `date`.
pub open spec fn release_pending(available: i64, pending: Seq<PendingBuy>, date: Seq<char>) -> (
    i64,
    Seq<PendingBuy>,
)
    decreases pending.len(),
{
    if pending.len() == 0 {
        (available, pending)
    } else {
        let p = pending[0];
        if lex_lt(p.trade_date@, date) {
            release_pending((available + p.quantity) as i64, pending.drop_first(), date)
        } else {
            let rest = release_pending(available, pending.drop_first(), date);
            (rest.0, seq![p] + rest.1)
        }
    }
}

/// The state on a new trade date: under T+1, earlier buys become sellable.
pub open spec fn release_state(s: CalcModel, date: Seq<char>) -> CalcModel {
    if s.rule == TradeRule::TPlus1 {
        let r = release_pending(s.available, s.pending, date);
        CalcModel {
            rule: s.rule,
            quantity: s.quantity,
            available: r.0,
            average_cost: s.average_cost,
            cost_amount: s.cost_amount,
            realized_pnl: s.realized_pnl,
            pending: r.1,
        }
    } else {
        s
    }
}

/// Commission, transfer fee and other fee: the fees a buy adds to its cost.
pub open spec fn buy_fees_spec(t: PortfolioTransaction) -> Option<Dec> {
    match decimal_checked_add(t.commission, t.transfer_fee) {
        Some(a) => decimal_checked_add(a, t.other_fee),
        None => None,
    }
}

/// Commission, stamp tax, transfer fee and other fee: the fees a sell deducts.
pub open spec fn sell_fees_spec(t: PortfolioTransaction) -> Option<Dec> {
    match decimal_checked_add(t.commission, t.stamp_tax) {
        Some(a) => match decimal_checked_add(a, t.transfer_fee) {
            Some(b) => decimal_checked_add(b, t.other_fee),
            None => None,
        },
        None => None,
    }
}

/// A buy: cost grows by price × quantity plus the buy fees, the average cost is the new cost over
/// the new quantity, and the bought shares are sellable at once (T+0), on a later date (T+1) or
/// never counted (unknown rule). `None` where an amount overflows.
pub open spec fn apply_buy_spec(s: CalcModel, t: PortfolioTransaction) -> Option<CalcModel> {
    match decimal_checked_mul(t.price, Dec::from_i64_spec(t.quantity)) {
        None => None,
        Some(gross) => match buy_fees_spec(t) {
            None => None,
            Some(fees) => match decimal_checked_add(gross, fees) {
                None => None,
                Some(increase) => match decimal_checked_add(s.cost_amount, increase) {
                    None => None,
                    Some(cost) => if s.quantity + t.quantity > i64::MAX {
                        None
                    } else {
                        let quantity = (s.quantity + t.quantity) as i64;
                        match decimal_checked_div(cost, Dec::from_i64_spec(quantity)) {
                            None => None,
                            Some(average) => Some(
                                CalcModel {
                                    rule: s.rule,
                                    quantity,
                                    available: if s.rule == TradeRule::TPlus0 {
                                        (s.available + t.quantity) as i64
                                    } else {
                                        s.available
                                    },
                                    average_cost: average,
                                    cost_amount: cost,
                                    realized_pnl: s.realized_pnl,
                                    pending: if s.rule == TradeRule::TPlus1 {
                                        s.pending.push(
                                            PendingBuy {
                                                trade_date: t.trade_date,
                                                quantity: t.quantity,
                                            },
                                        )
                                    } else {
                                        s.pending
                                    },
                                },
                            ),
                        }
                    },
                },
            },
        },
    }
}

/// A sell: refused under an unknown rule or beyond the held or sellable quantity; otherwise the
/// realised P&L grows by proceeds minus matched average cost minus sell fees, and the cost drops
/// by the matched cost (an emptied position has zero cost). `None` where an amount overflows.
pub open spec fn apply_sell_spec(s: CalcModel, t: PortfolioTransaction) -> Option<
    Result<CalcModel, PortfolioError>,
> {
    if s.rule == TradeRule::Unknown {
        Some(Err(PortfolioError::TradeRuleUnknown))
    } else if t.quantity > s.quantity {
        Some(
            Err(
                PortfolioError::InsufficientPosition {
                    transaction_id: t.id,
                    requested: t.quantity,
                    held: s.quantity,
                },
            ),
        )
    } else if t.quantity > s.available {
        Some(
            Err(
                PortfolioError::InsufficientAvailableQuantity {
                    transaction_id: t.id,
                    requested: t.quantity,
                    available: s.available,
                },
            ),
        )
    } else {
        let q = Dec::from_i64_spec(t.quantity);
        match decimal_checked_mul(s.average_cost, q) {
            None => None,
            Some(matched) => match decimal_checked_mul(t.price, q) {
                None => None,
                Some(proceeds) => match decimal_checked_sub(proceeds, matched) {
                    None => None,
                    Some(gain) => match sell_fees_spec(t) {
                        None => None,
                        Some(fees) => match decimal_checked_sub(gain, fees) {
                            None => None,
                            Some(net) => match decimal_checked_add(s.realized_pnl, net) {
                                None => None,
                                Some(realized) => match decimal_checked_sub(
                                    s.cost_amount,
                                    matched,
                                ) {
                                    None => None,
                                    Some(cost) => {
                                        let quantity = (s.quantity - t.quantity) as i64;
                                        Some(
                                            Ok(
                                                CalcModel {
                                                    rule: s.rule,
                                                    quantity,
                                                    available: (s.available
                                                        - t.quantity) as i64,
                                                    average_cost: if quantity == 0 {
                                                        Dec::zero_spec()
                                                    } else {
                                                        s.average_cost
                                                    },
                                                    cost_amount: if quantity == 0 {
                                                        Dec::zero_spec()
                                                    } else {
                                                        cost
                                                    },
                                                    realized_pnl: realized,
                                                    pending: s.pending,
                                                },
                                            ),
                                        )
                                    },
                                },
                            },
                        },
                    },
                },
            },
        }
    }
}

/// One confirmed transaction: validated, then pending T+1 buys dated before it are released,
/// then the buy or sell is applied.
pub open spec fn step_spec(s: CalcModel, t: PortfolioTransaction) -> Option<
    Result<CalcModel, PortfolioError>,
> {
    match validation_error(t) {
        Some(e) => Some(Err(e)),
        None => {
            let released = release_state(s, t.trade_date@);
            match t.side {
                TransactionSide::Buy => match apply_buy_spec(released, t) {
                    Some(n) => Some(Ok(n)),
                    None => None,
                },
                TransactionSide::Sell => apply_sell_spec(released, t),
            }
        },
    }
}

/// Replays the transactions in the given order, stopping at the first error.
pub open spec fn replay(s: CalcModel, txs: Seq<PortfolioTransaction>) -> Option<
    Result<CalcModel, PortfolioError>,
>
    decreases txs.len(),
{
    if txs.len() == 0 {
        Some(Ok(s))
    } else {
        match step_spec(s, txs[0]) {
            Some(Ok(n)) => replay(n, txs.drop_first()),
            other => other,
        }
    }
}

pub open spec fn to_position(s: CalcModel) -> Position {
    Position {
        quantity: s.quantity,
        available_quantity: if s.rule != TradeRule::Unknown {
            Some(s.available)
        } else {
            None
        },
        average_cost: s.average_cost,
        cost_amount: s.cost_amount,
        realized_pnl: s.realized_pnl,
    }
}

/// The position after replaying the confirmed transactions in trade-date/id order, or the first
/// error; `None` where an amount would overflow.
pub open spec fn calculation_outcome(rule: TradeRule, txs: Seq<PortfolioTransaction>) -> Option<
    Result<Position, PortfolioError>,
> {
    match replay(initial_state(rule), sort_by_date(confirmed(txs))) {
        None => None,
        Some(Ok(s)) => Some(Ok(to_position(s))),
        Some(Err(e)) => Some(Err(e)),
    }
}

proof fn lemma_pending_total_push(p: Seq<PendingBuy>, x: PendingBuy)
    ensures
        pending_total(p.push(x)) == pending_total(p) + x.quantity,
    decreases p.len(),
{
    if p.len() == 0 {
        assert(p.push(x).drop_first() == p);
    } else {
        assert(p.push(x).drop_first() == p.drop_first().push(x));
        lemma_pending_total_push(p.drop_first(), x);
    }
}

proof fn lemma_pending_total_nonneg(p: Seq<PendingBuy>)
    requires
        forall|i: int| 0 <= i < p.len() ==> #[trigger] p[i].quantity > 0,
    ensures
        pending_total(p) >= 0,
    decreases p.len(),
{
    if p.len() > 0 {
        assert forall|i: int| 0 <= i < p.drop_first().len() implies #[trigger] p.drop_first()[i].quantity > 0 by {
            assert(p.drop_first()[i] == p[i + 1]);
        }
        lemma_pending_total_nonneg(p.drop_first());
    }
}

struct CalculationState {
    trade_rule: TradeRule,
    quantity: i64,
    available_quantity: i64,
    average_cost: Dec,
    cost_amount: Dec,
    realized_pnl: Dec,
    pending_buys: Vec<PendingBuy>,
}

impl CalculationState {
    spec fn model(&self) -> CalcModel {
        CalcModel {
            rule: self.trade_rule,
            quantity: self.quantity,
            available: self.available_quantity,
            average_cost: self.average_cost,
            cost_amount: self.cost_amount,
            realized_pnl: self.realized_pnl,
            pending: self.pending_buys@,
        }
    }

    fn new(trade_rule: TradeRule) -> (r: Self)
        ensures
            r.model() == initial_state(trade_rule),
            state_inv(r.model()),
    {
        let r = CalculationState {
            trade_rule,
            quantity: 0,
            available_quantity: 0,
            average_cost: Dec::zero(),
            cost_amount: Dec::zero(),
            realized_pnl: Dec::zero(),
            pending_buys: Vec::new(),
        };
        proof {
            assert(pending_total(Seq::<PendingBuy>::empty()) == 0);
            assert(r.model().pending == Seq::<PendingBuy>::empty());
        }
        r
    }

    fn release_t_plus_one_quantity(&mut self, current_date: &str)
        requires
            state_inv(old(self).model()),
        ensures
            final(self).model() == release_state(old(self).model(), current_date@),
            state_inv(final(self).model()),
    {
        if self.trade_rule != TradeRule::TPlus1 {
            return;
        }
        let date = chars_of(current_date);
        let ghost p0 = self.pending_buys@;
        let ghost a0 = self.available_quantity;
        let ghost q = self.quantity;
        let mut still: Vec<PendingBuy> = Vec::new();
        let mut available = self.available_quantity;
        let mut i: usize = 0;
        let n = self.pending_buys.len();
        proof {
            assert(p0.skip(0) == p0);
            assert(still@ + release_pending(a0, p0, date@).1 == release_pending(a0, p0, date@).1);
        }
        while i < n
            invariant
                n == self.pending_buys.len(),
                self.pending_buys@ == p0,
                self.trade_rule == TradeRule::TPlus1,
                self.quantity == q,
                date@ == current_date@,
                i <= n,
                available >= 0,
                forall|k: int| 0 <= k < p0.len() ==> #[trigger] p0[k].quantity > 0,
                forall|k: int| 0 <= k < still@.len() ==> #[trigger] still@[k].quantity > 0,
                available + pending_total(still@) + pending_total(p0.skip(i as int)) == q,
                q <= i64::MAX,
                release_pending(a0, p0, date@) == ({
                    let r = release_pending(available, p0.skip(i as int), date@);
                    (r.0, still@ + r.1)
                }),
            decreases n - i,
        {
            let ghost rest = p0.skip(i as int);
            proof {
                assert(rest[0] == p0[i as int]);
                assert(rest.drop_first() == p0.skip(i + 1));
                lemma_pending_total_nonneg(still@);
                assert forall|k: int| 0 <= k < rest.drop_first().len() implies #[trigger] rest.drop_first()[k].quantity > 0 by {
                    assert(rest.drop_first()[k] == p0[i + 1 + k]);
                }
                lemma_pending_total_nonneg(rest.drop_first());
            }
            let pending_date = chars_of(self.pending_buys[i].trade_date.as_str());
            if lex_less(&pending_date, &date) {
                available = available + self.pending_buys[i].quantity;
            } else {
                let entry = PendingBuy {
                    trade_date: self.pending_buys[i].trade_date.clone(),
                    quantity: self.pending_buys[i].quantity,
                };
                proof {
                    lemma_pending_total_push(still@, entry);
                    let r = release_pending(available, rest.drop_first(), date@);
                    assert(still@.push(entry) + r.1 == still@ + (seq![entry] + r.1));
                }
                still.push(entry);
            }
            i = i + 1;
        }
        proof {
            assert(p0.skip(n as int).len() == 0);
            assert(still@ + Seq::<PendingBuy>::empty() == still@);
        }
        self.available_quantity = available;
        self.pending_buys = still;
    }

    fn apply_buy(&mut self, t: &PortfolioTransaction) -> (ok: bool)
        requires
            state_inv(old(self).model()),
            t.wf(),
            t.quantity > 0,
        ensures
            ok == (apply_buy_spec(old(self).model(), *t) is Some),
            ok ==> final(self).model() == apply_buy_spec(old(self).model(), *t)->0,
            ok ==> state_inv(final(self).model()),
    {
        let q = Dec::from_i64(t.quantity);
        let gross = match checked_mul(t.price, q) {
            Some(x) => x,
            None => return false,
        };
        let f1 = match checked_add(t.commission, t.transfer_fee) {
            Some(x) => x,
            None => return false,
        };
        let fees = match checked_add(f1, t.other_fee) {
            Some(x) => x,
            None => return false,
        };
        let increase = match checked_add(gross, fees) {
            Some(x) => x,
            None => return false,
        };
        let cost = match checked_add(self.cost_amount, increase) {
            Some(x) => x,
            None => return false,
        };
        if self.quantity > i64::MAX - t.quantity {
            return false;
        }
        let quantity = self.quantity + t.quantity;
        let average = match checked_div(cost, Dec::from_i64(quantity)) {
            Some(x) => x,
            None => return false,
        };
        let ghost old_pending = self.pending_buys@;
        self.cost_amount = cost;
        self.quantity = quantity;
        self.average_cost = average;
        match self.trade_rule {
            TradeRule::TPlus1 => {
                let entry = PendingBuy { trade_date: t.trade_date.clone(), quantity: t.quantity };
                proof {
                    lemma_pending_total_push(old_pending, entry);
                }
                self.pending_buys.push(entry);
            },
            TradeRule::TPlus0 => {
                self.available_quantity = self.available_quantity + t.quantity;
            },
            TradeRule::Unknown => {},
        }
        true
    }

    fn apply_sell(&mut self, t: &PortfolioTransaction) -> (r: Option<Result<(), PortfolioError>>)
        requires
            state_inv(old(self).model()),
            t.wf(),
            t.quantity > 0,
        ensures
            apply_sell_spec(old(self).model(), *t) is None <==> r is None,
            r matches Some(Err(e)) ==> apply_sell_spec(old(self).model(), *t) == Some(
                Err::<CalcModel, PortfolioError>(e),
            ),
            r matches Some(Ok(_)) ==> apply_sell_spec(old(self).model(), *t) == Some(
                Ok::<CalcModel, PortfolioError>(final(self).model()),
            ) && state_inv(final(self).model()),
    {
        if self.trade_rule == TradeRule::Unknown {
            return Some(Err(PortfolioError::TradeRuleUnknown));
        }
        if t.quantity > self.quantity {
            return Some(
                Err(
                    PortfolioError::InsufficientPosition {
                        transaction_id: t.id,
                        requested: t.quantity,
                        held: self.quantity,
                    },
                ),
            );
        }
        if t.quantity > self.available_quantity {
            return Some(
                Err(
                    PortfolioError::InsufficientAvailableQuantity {
                        transaction_id: t.id,
                        requested: t.quantity,
                        available: self.available_quantity,
                    },
                ),
            );
        }
        let q = Dec::from_i64(t.quantity);
        let matched = match checked_mul(self.average_cost, q) {
            Some(x) => x,
            None => return None,
        };
        let proceeds = match checked_mul(t.price, q) {
            Some(x) => x,
            None => return None,
        };
        let gain = match checked_sub(proceeds, matched) {
            Some(x) => x,
            None => return None,
        };
        let f1 = match checked_add(t.commission, t.stamp_tax) {
            Some(x) => x,
            None => return None,
        };
        let f2 = match checked_add(f1, t.transfer_fee) {
            Some(x) => x,
            None => return None,
        };
        let fees = match checked_add(f2, t.other_fee) {
            Some(x) => x,
            None => return None,
        };
        let net = match checked_sub(gain, fees) {
            Some(x) => x,
            None => return None,
        };
        let realized = match checked_add(self.realized_pnl, net) {
            Some(x) => x,
            None => return None,
        };
        let cost = match checked_sub(self.cost_amount, matched) {
            Some(x) => x,
            None => return None,
        };
        self.realized_pnl = realized;
        self.quantity = self.quantity - t.quantity;
        self.available_quantity = self.available_quantity - t.quantity;
        self.cost_amount = cost;
        if self.quantity == 0 {
            self.average_cost = Dec::zero();
            self.cost_amount = Dec::zero();
        }
        Some(Ok(()))
    }

    fn into_position(self) -> (r: Position)
        ensures
            r == to_position(self.model()),
    {
        Position {
            quantity: self.quantity,
            available_quantity: if self.trade_rule != TradeRule::Unknown {
                Some(self.available_quantity)
            } else {
                None
            },
            average_cost: self.average_cost,
            cost_amount: self.cost_amount,
            realized_pnl: self.realized_pnl,
        }
    }
}


proof fn lemma_confirmed_wf(s: Seq<PortfolioTransaction>)
    requires
        all_wf(s),
    ensures
        all_wf(confirmed(s)),
    decreases s.len(),
{
    if s.len() == 0 {
        reveal(Seq::filter);
        assert(confirmed(s).len() == 0);
    } else {
        let t = s.drop_last();
        assert(s == t.push(s.last()));
        lemma_filter_push(t, s.last());
        assert(s.last() == s[s.len() - 1]);
        lemma_confirmed_wf(t);
    }
}

proof fn lemma_insert_wf(x: PortfolioTransaction, s: Seq<PortfolioTransaction>)
    requires
        x.wf(),
        all_wf(s),
    ensures
        all_wf(insert_by_date(x, s)),
    decreases s.len(),
{
    if s.len() > 0 {
        assert(s.last() == s[s.len() - 1]);
        lemma_insert_wf(x, s.drop_last());
    }
}

proof fn lemma_sort_wf(s: Seq<PortfolioTransaction>)
    requires
        all_wf(s),
    ensures
        all_wf(sort_by_date(s)),
    decreases s.len(),
{
    if s.len() > 0 {
        assert(s.last() == s[s.len() - 1]);
        lemma_sort_wf(s.drop_last());
        lemma_insert_wf(s.last(), sort_by_date(s.drop_last()));
    }
}

/// The valuation of a position at a price: market value is quantity × price and floating P&L is
/// market value minus cost; `None` where an amount overflows.
pub open spec fn valuation_outcome(position: Position, current_price: Dec) -> Option<
    PositionValuation,
> {
    match decimal_checked_mul(Dec::from_i64_spec(position.quantity), current_price) {
        None => None,
        Some(market_value) => match decimal_checked_sub(market_value, position.cost_amount) {
            None => None,
            Some(unrealized_pnl) => Some(PositionValuation { market_value, unrealized_pnl }),
        },
    }
}

/// Today's price-only P&L: quantity × (current price − previous close).
pub open spec fn daily_pnl_outcome(position: Position, current_price: Dec, previous_close: Dec) -> Option<
    Dec,
> {
    match decimal_checked_sub(current_price, previous_close) {
        None => None,
        Some(change) => decimal_checked_mul(Dec::from_i64_spec(position.quantity), change),
    }
}

/// A position entered as an opening balance, or why it is refused.
pub open spec fn opening_balance_outcome(
    rule: TradeRule,
    quantity: i64,
    available_quantity: i64,
    average_cost: Dec,
) -> Option<Result<Position, PortfolioError>> {
    if quantity <= 0 {
        Some(Err(PortfolioError::InvalidQuantity { transaction_id: 0 }))
    } else if average_cost.negative {
        Some(Err(PortfolioError::InvalidPrice { transaction_id: 0 }))
    } else if available_quantity < 0 || available_quantity > quantity {
        Some(Err(PortfolioError::InvalidAvailableQuantity))
    } else {
        match decimal_checked_mul(Dec::from_i64_spec(quantity), average_cost) {
            None => None,
            Some(cost_amount) => Some(
                Ok(
                    Position {
                        quantity,
                        available_quantity: if rule != TradeRule::Unknown {
                            Some(available_quantity)
                        } else {
                            None
                        },
                        average_cost,
                        cost_amount,
                        realized_pnl: Dec::zero_spec(),
                    },
                ),
            ),
        }
    }
}

/// Application service for one account + security position.
#[derive(Debug, Clone, Copy)]
pub struct PortfolioService {
    pub security_type: SecurityType,
    pub trade_rule: TradeRule,
}

impl PortfolioService {
    pub fn new(security_type: SecurityType, trade_rule: TradeRule) -> (r: Self)
        ensures
            r.security_type == security_type,
            r.trade_rule == trade_rule,
    {
        PortfolioService { security_type, trade_rule }
    }

    /// Replays the ledger like `calculate`, and gives `None` where an amount would overflow.
    pub fn try_calculate(&self, transactions: &[PortfolioTransaction]) -> (r: Option<
        Result<Position, PortfolioError>,
    >)
        requires
            all_wf(transactions@),
        ensures
            r == calculation_outcome(self.trade_rule, transactions@),
    {
        let sorted = confirmed_in_date_order(transactions);
        proof {
            lemma_confirmed_wf(transactions@);
            lemma_sort_wf(confirmed(transactions@));
            assert(sorted@.skip(0) == sorted@);
        }
        let mut state = CalculationState::new(self.trade_rule);
        let mut i: usize = 0;
        while i < sorted.len()
            invariant
                i <= sorted.len(),
                all_wf(sorted@),
                state_inv(state.model()),
                state.model().rule == self.trade_rule,
                sorted@ == sort_by_date(confirmed(transactions@)),
                replay(initial_state(self.trade_rule), sorted@) == replay(
                    state.model(),
                    sorted@.skip(i as int),
                ),
            decreases sorted.len() - i,
        {
            let t = &sorted[i];
            proof {
                assert(sorted@.skip(i as int)[0] == sorted@[i as int]);
                assert(sorted@.skip(i as int).drop_first() == sorted@.skip(i + 1));
                assert(t.wf());
            }
            match validate(t) {
                Err(e) => {
                    return Some(Err(e));
                },
                Ok(()) => {},
            }
            state.release_t_plus_one_quantity(t.trade_date.as_str());
            match t.side {
                TransactionSide::Buy => {
                    if !state.apply_buy(t) {
                        return None;
                    }
                },
                TransactionSide::Sell => {
                    match state.apply_sell(t) {
                        None => {
                            return None;
                        },
                        Some(Err(e)) => {
                            return Some(Err(e));
                        },
                        Some(Ok(())) => {},
                    }
                },
            }
            i = i + 1;
        }
        proof {
            assert(sorted@.skip(sorted.len() as int).len() == 0);
        }
        Some(Ok(state.into_position()))
    }

    /// Returns the portfolio state after applying all confirmed transactions in date/id order.
    ///
    /// This is a calculation-only service: it does not persist results or change ledger records.
    pub fn calculate(&self, transactions: &[PortfolioTransaction]) -> (r: Result<
        Position,
        PortfolioError,
    >)
        requires
            all_wf(transactions@),
            calculation_outcome(self.trade_rule, transactions@) is Some,
        ensures
            Some(r) == calculation_outcome(self.trade_rule, transactions@),
    {
        match self.try_calculate(transactions) {
            Some(r) => r,
            None => {
                proof {
                    assert(false);
                }
                Err(PortfolioError::TradeRuleUnknown)
            },
        }
    }

    /// Values a position like `value_position`, and gives `None` where an amount would overflow.
    pub fn try_value_position(&self, position: &Position, current_price: Dec) -> (r: Option<
        PositionValuation,
    >)
        requires
            position.wf(),
            current_price.wf(),
        ensures
            r == valuation_outcome(*position, current_price),
            r matches Some(v) ==> v.market_value.wf() && v.unrealized_pnl.wf(),
    {
        let market_value = match checked_mul(Dec::from_i64(position.quantity), current_price) {
            Some(x) => x,
            None => return None,
        };
        match checked_sub(market_value, position.cost_amount) {
            Some(unrealized_pnl) => Some(PositionValuation { market_value, unrealized_pnl }),
            None => None,
        }
    }

    /// Calculates market value and floating P&L using a caller-provided, already validated price.
    pub fn value_position(&self, position: &Position, current_price: Dec) -> (r: PositionValuation)
        requires
            position.wf(),
            current_price.wf(),
            valuation_outcome(*position, current_price) is Some,
        ensures
            Some(r) == valuation_outcome(*position, current_price),
    {
        match self.try_value_position(position, current_price) {
            Some(v) => v,
            None => {
                proof {
                    assert(false);
                }
                PositionValuation { market_value: Dec::zero(), unrealized_pnl: Dec::zero() }
            },
        }
    }

    /// Builds a position like `position_from_opening_balance`, and gives `None` where the cost
    /// amount would overflow.
    pub fn try_position_from_opening_balance(
        &self,
        quantity: i64,
        available_quantity: i64,
        average_cost: Dec,
    ) -> (r: Option<Result<Position, PortfolioError>>)
        requires
            average_cost.wf(),
        ensures
            r == opening_balance_outcome(self.trade_rule, quantity, available_quantity, average_cost),
            r matches Some(Ok(p)) ==> p.wf(),
    {
        if quantity <= 0 {
            return Some(Err(PortfolioError::InvalidQuantity { transaction_id: 0 }));
        }
        if average_cost.is_sign_negative() {
            return Some(Err(PortfolioError::InvalidPrice { transaction_id: 0 }));
        }
        if available_quantity < 0 || available_quantity > quantity {
            return Some(Err(PortfolioError::InvalidAvailableQuantity));
        }
        match checked_mul(Dec::from_i64(quantity), average_cost) {
            None => None,
            Some(cost_amount) => Some(
                Ok(
                    Position {
                        quantity,
                        available_quantity: if self.trade_rule != TradeRule::Unknown {
                            Some(available_quantity)
                        } else {
                            None
                        },
                        average_cost,
                        cost_amount,
                        realized_pnl: Dec::zero(),
                    },
                ),
            ),
        }
    }

    /// Builds a position from a user-entered opening balance. This is a local ledger position,
    /// not an order or a simulated market transaction.
    pub fn position_from_opening_balance(
        &self,
        quantity: i64,
        available_quantity: i64,
        average_cost: Dec,
    ) -> (r: Result<Position, PortfolioError>)
        requires
            average_cost.wf(),
            opening_balance_outcome(self.trade_rule, quantity, available_quantity, average_cost)
                is Some,
        ensures
            Some(r) == opening_balance_outcome(
                self.trade_rule,
                quantity,
                available_quantity,
                average_cost,
            ),
    {
        match self.try_position_from_opening_balance(quantity, available_quantity, average_cost) {
            Some(r) => r,
            None => {
                proof {
                    assert(false);
                }
                Err(PortfolioError::InvalidAvailableQuantity)
            },
        }
    }

    /// Today's P&L like `daily_pnl`, and `None` where an amount would overflow.
    pub fn try_daily_pnl(&self, position: &Position, current_price: Dec, previous_close: Dec) -> (r:
        Option<Dec>)
        requires
            current_price.wf(),
            previous_close.wf(),
        ensures
            r == daily_pnl_outcome(*position, current_price, previous_close),
            r matches Some(d) ==> d.wf(),
    {
        match checked_sub(current_price, previous_close) {
            None => None,
            Some(change) => checked_mul(Dec::from_i64(position.quantity), change),
        }
    }

    /// Today's price-only P&L uses the source-backed previous close. Fees and realized P&L are
    /// intentionally excluded.
    pub fn daily_pnl(&self, position: &Position, current_price: Dec, previous_close: Dec) -> (r:
        Dec)
        requires
            current_price.wf(),
            previous_close.wf(),
            daily_pnl_outcome(*position, current_price, previous_close) is Some,
        ensures
            Some(r) == daily_pnl_outcome(*position, current_price, previous_close),
    {
        match self.try_daily_pnl(position, current_price, previous_close) {
            Some(v) => v,
            None => {
                proof {
                    assert(false);
                }
                Dec::zero()
            },
        }
    }

    /// Applies the configured lower bound to a rate-calculated commission. The result is the
    /// charge to persist in `commission`; it is never added twice.
    pub fn commission_with_minimum(&self, rate_calculated_commission: Dec, minimum_commission: Dec) -> (r:
        Dec)
        requires
            rate_calculated_commission.wf(),
            minimum_commission.wf(),
        ensures
            r == (if value_order(rate_calculated_commission, minimum_commission) == -1 {
                minimum_commission
            } else {
                rate_calculated_commission
            }),
    {
        max(rate_calculated_commission, minimum_commission)
    }

    pub fn security_type(&self) -> (r: SecurityType)
        ensures
            r == self.security_type,
    {
        self.security_type
    }
}


// ---------------------------------------------------------------------------------------------
// Laws of the ledger
// ---------------------------------------------------------------------------------------------
/// Bought quantity counts up, sold quantity counts down.
pub open spec fn signed_quantity(t: PortfolioTransaction) -> int {
    match t.side {
        TransactionSide::Buy => t.quantity as int,
        TransactionSide::Sell => -(t.quantity as int),
    }
}

/// Net bought quantity of a sequence of transactions.
pub open spec fn net_quantity(s: Seq<PortfolioTransaction>) -> int
    decreases s.len(),
{
    if s.len() == 0 {
        0
    } else {
        signed_quantity(s[0]) + net_quantity(s.drop_first())
    }
}

proof fn lemma_net_push(s: Seq<PortfolioTransaction>, x: PortfolioTransaction)
    ensures
        net_quantity(s.push(x)) == net_quantity(s) + signed_quantity(x),
    decreases s.len(),
{
    if s.len() == 0 {
        assert(s.push(x).drop_first() == s);
    } else {
        assert(s.push(x).drop_first() == s.drop_first().push(x));
        lemma_net_push(s.drop_first(), x);
    }
}

proof fn lemma_net_insert(x: PortfolioTransaction, s: Seq<PortfolioTransaction>)
    ensures
        net_quantity(insert_by_date(x, s)) == net_quantity(s) + signed_quantity(x),
    decreases s.len(),
{
    if s.len() == 0 {
        lemma_net_push(s, x);
        assert(s.push(x) =~= seq![x]);
    } else if tx_before(x, s.last()) {
        let d = s.drop_last();
        lemma_net_insert(x, d);
        lemma_net_push(insert_by_date(x, d), s.last());
        lemma_net_push(d, s.last());
        assert(d.push(s.last()) == s);
    } else {
        lemma_net_push(s, x);
    }
}

proof fn lemma_net_sort(s: Seq<PortfolioTransaction>)
    ensures
        net_quantity(sort_by_date(s)) == net_quantity(s),
    decreases s.len(),
{
    if s.len() > 0 {
        let d = s.drop_last();
        lemma_net_sort(d);
        lemma_net_insert(s.last(), sort_by_date(d));
        lemma_net_push(d, s.last());
        assert(d.push(s.last()) == s);
    }
}

proof fn lemma_insert_contains(x: PortfolioTransaction, s: Seq<PortfolioTransaction>, y: PortfolioTransaction)
    ensures
        insert_by_date(x, s).contains(y) <==> (y == x || s.contains(y)),
    decreases s.len(),
{
    if s.len() == 0 {
        assert(seq![x][0] == x);
    } else if tx_before(x, s.last()) {
        let d = s.drop_last();
        lemma_insert_contains(x, d, y);
        let i = insert_by_date(x, d);
        assert(i.push(s.last())[i.len() as int] == s.last());
        assert(s[s.len() - 1] == s.last());
        if i.push(s.last()).contains(y) {
            let k = choose|k: int| 0 <= k < i.len() + 1 && i.push(s.last())[k] == y;
            if k < i.len() {
                assert(i[k] == y);
                if y != x {
                    let m = choose|m: int| 0 <= m < d.len() && d[m] == y;
                    assert(s[m] == y);
                }
            }
        }
        if y == x {
            let k = choose|k: int| 0 <= k < i.len() && i[k] == y;
            assert(i.push(s.last())[k] == y);
        } else if s.contains(y) {
            let m = choose|m: int| 0 <= m < s.len() && s[m] == y;
            if m < s.len() - 1 {
                assert(d[m] == y);
                let k = choose|k: int| 0 <= k < i.len() && i[k] == y;
                assert(i.push(s.last())[k] == y);
            }
        }
    } else {
        assert(s.push(x)[s.len() as int] == x);
        if s.push(x).contains(y) {
            let k = choose|k: int| 0 <= k < s.len() + 1 && s.push(x)[k] == y;
            if k < s.len() {
                assert(s[k] == y);
            }
        }
        if s.contains(y) {
            let m = choose|m: int| 0 <= m < s.len() && s[m] == y;
            assert(s.push(x)[m] == y);
        }
    }
}

proof fn lemma_sort_contains(s: Seq<PortfolioTransaction>, y: PortfolioTransaction)
    ensures
        sort_by_date(s).contains(y) <==> s.contains(y),
    decreases s.len(),
{
    if s.len() > 0 {
        let d = s.drop_last();
        lemma_sort_contains(d, y);
        lemma_insert_contains(s.last(), sort_by_date(d), y);
        assert(s[s.len() - 1] == s.last());
        if s.contains(y) && y != s.last() {
            let m = choose|m: int| 0 <= m < s.len() && s[m] == y;
            assert(d[m] == y);
        }
        if d.contains(y) {
            let m = choose|m: int| 0 <= m < d.len() && d[m] == y;
            assert(s[m] == y);
        }
    }
}

proof fn lemma_confirmed_idempotent(s: Seq<PortfolioTransaction>)
    ensures
        confirmed(confirmed(s)) == confirmed(s),
    decreases s.len(),
{
    if s.len() == 0 {
        reveal(Seq::filter);
        assert(confirmed(s).len() == 0);
        assert(confirmed(s) == s);
    } else {
        let d = s.drop_last();
        assert(d.push(s.last()) == s);
        lemma_filter_push(d, s.last());
        lemma_confirmed_idempotent(d);
        if is_confirmed(s.last()) {
            lemma_filter_push(confirmed(d), s.last());
        }
    }
}

proof fn lemma_release_pending(available: i64, p: Seq<PendingBuy>, d: Seq<char>)
    requires
        available >= 0,
        forall|i: int| 0 <= i < p.len() ==> #[trigger] p[i].quantity > 0,
        available + pending_total(p) <= i64::MAX,
    ensures
        ({
            let r = release_pending(available, p, d);
            &&& r.0 + pending_total(r.1) == available + pending_total(p)
            &&& r.0 >= available
            &&& forall|i: int| 0 <= i < r.1.len() ==> #[trigger] r.1[i].quantity > 0
        }),
    decreases p.len(),
{
    if p.len() > 0 {
        let rest = p.drop_first();
        assert forall|i: int| 0 <= i < rest.len() implies #[trigger] rest[i].quantity > 0 by {
            assert(rest[i] == p[i + 1]);
        }
        lemma_pending_total_nonneg(rest);
        assert(p[0].quantity > 0);
        if lex_lt(p[0].trade_date@, d) {
            lemma_release_pending((available + p[0].quantity) as i64, rest, d);
        } else {
            lemma_release_pending(available, rest, d);
            let r = release_pending(available, rest, d);
            let out = seq![p[0]] + r.1;
            assert(out.drop_first() == r.1);
            assert(out[0] == p[0]);
            assert forall|i: int| 0 <= i < out.len() implies #[trigger] out[i].quantity > 0 by {
                if i > 0 {
                    assert(out[i] == r.1[i - 1]);
                }
            }
        }
    }
}

proof fn lemma_release_state(s: CalcModel, d: Seq<char>)
    requires
        shape_inv(s),
    ensures
        shape_inv(release_state(s, d)),
        release_state(s, d).rule == s.rule,
        release_state(s, d).quantity == s.quantity,
        release_state(s, d).average_cost == s.average_cost,
        release_state(s, d).cost_amount == s.cost_amount,
{
    if s.rule == TradeRule::TPlus1 {
        lemma_pending_total_nonneg(s.pending);
        lemma_release_pending(s.available, s.pending, d);
    }
}

proof fn lemma_step_inv(s: CalcModel, t: PortfolioTransaction, n: CalcModel)
    requires
        shape_inv(s),
        t.wf(),
        step_spec(s, t) == Some(Ok::<CalcModel, PortfolioError>(n)),
    ensures
        shape_inv(n),
        n.rule == s.rule,
        n.quantity == s.quantity + signed_quantity(t),
{
    let r = release_state(s, t.trade_date@);
    lemma_release_state(s, t.trade_date@);
    lemma_pending_total_nonneg(r.pending);
    if t.side == TransactionSide::Buy {
        if r.rule == TradeRule::TPlus1 {
            lemma_pending_total_push(
                r.pending,
                PendingBuy { trade_date: t.trade_date, quantity: t.quantity },
            );
        }
    }
}

proof fn lemma_replay_inv(s: CalcModel, seq: Seq<PortfolioTransaction>, n: CalcModel)
    requires
        shape_inv(s),
        all_wf(seq),
        replay(s, seq) == Some(Ok::<CalcModel, PortfolioError>(n)),
    ensures
        shape_inv(n),
        n.rule == s.rule,
        n.quantity == s.quantity + net_quantity(seq),
    decreases seq.len(),
{
    if seq.len() > 0 {
        assert(seq[0].wf());
        let next = step_spec(s, seq[0])->0->Ok_0;
        lemma_step_inv(s, seq[0], next);
        assert(all_wf(seq.drop_first())) by {
            assert forall|i: int| 0 <= i < seq.drop_first().len() implies #[trigger] seq.drop_first()[i].wf() by {
                assert(seq.drop_first()[i] == seq[i + 1]);
            }
        }
        lemma_replay_inv(next, seq.drop_first(), n);
    }
}

/// Cancelled transactions never change the calculation: the result on a ledger is the result on
/// its confirmed transactions alone.
pub proof fn law_cancelled_transactions_are_ignored(rule: TradeRule, txs: Seq<PortfolioTransaction>)
    ensures
        calculation_outcome(rule, txs) == calculation_outcome(rule, confirmed(txs)),
{
    lemma_confirmed_idempotent(txs);
}

/// No transaction of the sequence comes before one that stands ahead of it.
pub open spec fn dated_in_order(s: Seq<PortfolioTransaction>) -> bool {
    forall|i: int, j: int| 0 <= i < j < s.len() ==> !tx_before(#[trigger] s[j], #[trigger] s[i])
}

/// No two different transactions of the sequence share a trade date and an id.
pub open spec fn trade_keys_unique(s: Seq<PortfolioTransaction>) -> bool {
    forall|x: PortfolioTransaction, y: PortfolioTransaction|
        #[trigger] s.contains(x) && #[trigger] s.contains(y) && x.trade_date@ == y.trade_date@ && x.id
            == y.id ==> x == y
}

proof fn lemma_tx_order(a: PortfolioTransaction, b: PortfolioTransaction, c: PortfolioTransaction)
    ensures
        tx_before(a, b) ==> !tx_before(b, a),
        !tx_before(a, b) && !tx_before(b, c) ==> !tx_before(a, c),
        !(a.trade_date@ == b.trade_date@ && a.id == b.id) ==> tx_before(a, b) || tx_before(b, a),
{
    lemma_lex_asymmetric(a.trade_date@, b.trade_date@);
    lemma_lex_total(a.trade_date@, b.trade_date@);
    lemma_lex_total(b.trade_date@, c.trade_date@);
    lemma_lex_total(a.trade_date@, c.trade_date@);
    lemma_lex_asymmetric(a.trade_date@, c.trade_date@);
    lemma_lex_asymmetric(b.trade_date@, c.trade_date@);
    if lex_lt(c.trade_date@, b.trade_date@) && lex_lt(b.trade_date@, a.trade_date@) {
        lemma_lex_transitive(c.trade_date@, b.trade_date@, a.trade_date@);
    }
}

proof fn lemma_insert_by_date(x: PortfolioTransaction, s: Seq<PortfolioTransaction>)
    requires
        dated_in_order(s),
    ensures
        insert_by_date(x, s).to_multiset() == s.push(x).to_multiset(),
        dated_in_order(insert_by_date(x, s)),
    decreases s.len(),
{
    broadcast use vstd::seq_lib::group_to_multiset_ensures;
    broadcast use vstd::multiset::group_multiset_axioms;

    if s.len() == 0 {
        assert(insert_by_date(x, s) =~= s.push(x));
    } else {
        let l = s.last();
        let d = s.drop_last();
        assert(s =~= d.push(l));
        if tx_before(x, l) {
            assert(dated_in_order(d));
            lemma_insert_by_date(x, d);
            let r = insert_by_date(x, d);
            assert(r.push(l).to_multiset() =~= s.push(x).to_multiset());
            assert forall|i: int, j: int| 0 <= i < j < r.push(l).len() implies !tx_before(
                #[trigger] r.push(l)[j],
                #[trigger] r.push(l)[i],
            ) by {
                if j == r.len() {
                    let e = r[i];
                    assert(r.contains(e));
                    assert(r.to_multiset().count(e) > 0);
                    if e == x {
                        lemma_tx_order(x, l, x);
                    } else {
                        assert(d.to_multiset().count(e) > 0);
                        assert(d.contains(e));
                        let k = choose|k: int| 0 <= k < d.len() && d[k] == e;
                        assert(s[k] == e && s[s.len() - 1] == l);
                    }
                } else {
                    assert(r.push(l)[j] == r[j] && r.push(l)[i] == r[i]);
                }
            }
        } else {
            assert(insert_by_date(x, s) == s.push(x));
            assert forall|i: int, j: int| 0 <= i < j < s.push(x).len() implies !tx_before(
                #[trigger] s.push(x)[j],
                #[trigger] s.push(x)[i],
            ) by {
                if j == s.len() {
                    if i < s.len() - 1 {
                        assert(s[s.len() - 1] == l);
                        lemma_tx_order(x, l, s[i]);
                    }
                } else {
                    assert(s.push(x)[j] == s[j] && s.push(x)[i] == s[i]);
                }
            }
        }
    }
}

proof fn lemma_sort_by_date(s: Seq<PortfolioTransaction>)
    ensures
        sort_by_date(s).to_multiset() == s.to_multiset(),
        dated_in_order(sort_by_date(s)),
    decreases s.len(),
{
    if s.len() > 0 {
        let d = s.drop_last();
        lemma_sort_by_date(d);
        lemma_insert_by_date(s.last(), sort_by_date(d));
        broadcast use vstd::seq_lib::group_to_multiset_ensures;

        assert(s =~= d.push(s.last()));
    }
}

proof fn lemma_confirmed_count(s: Seq<PortfolioTransaction>, x: PortfolioTransaction)
    ensures
        confirmed(s).to_multiset().count(x) == if is_confirmed(x) {
            s.to_multiset().count(x)
        } else {
            0
        },
    decreases s.len(),
{
    broadcast use vstd::seq_lib::group_to_multiset_ensures;
    broadcast use vstd::multiset::group_multiset_axioms;

    if s.len() == 0 {
        reveal(Seq::filter);
        assert(confirmed(s).len() == 0);
        assert(!confirmed(s).contains(x));
        assert(!s.contains(x));
    } else {
        let d = s.drop_last();
        assert(d.push(s.last()) == s);
        lemma_filter_push(d, s.last());
        lemma_confirmed_count(d, x);
    }
}

proof fn lemma_ordered_reorderings_agree(a: Seq<PortfolioTransaction>, b: Seq<PortfolioTransaction>)
    requires
        a.to_multiset() == b.to_multiset(),
        dated_in_order(a),
        dated_in_order(b),
        trade_keys_unique(a),
    ensures
        a == b,
    decreases a.len(),
{
    broadcast use vstd::seq_lib::group_to_multiset_ensures;
    broadcast use vstd::multiset::group_multiset_axioms;

    assert(a.len() == b.len()) by {
        assert(a.len() == a.to_multiset().len());
        assert(b.len() == b.to_multiset().len());
    }
    if a.len() == 0 {
        assert(a =~= b);
    } else {
        let n = a.len() - 1;
        let la = a[n];
        let lb = b[n];
        assert(a.contains(la));
        assert(b.to_multiset().count(la) > 0);
        assert(b.contains(lb));
        assert(a.to_multiset().count(lb) > 0);
        assert(a.contains(lb));
        if la != lb {
            let i = choose|i: int| 0 <= i < a.len() && a[i] == lb;
            let j = choose|j: int| 0 <= j < b.len() && b[j] == la;
            assert(i != n && j != n);
            lemma_tx_order(la, lb, la);
            assert(!tx_before(a[n], a[i]));
            assert(!tx_before(b[n], b[j]));
            assert(false);
        }
        assert(a.remove(n) =~= a.drop_last());
        assert(b.remove(n) =~= b.drop_last());
        assert(a.drop_last().to_multiset() == b.drop_last().to_multiset());
        assert forall|x: PortfolioTransaction| a.drop_last().contains(x) implies a.contains(x) by {
            let k = choose|k: int| 0 <= k < a.drop_last().len() && a.drop_last()[k] == x;
            assert(a[k] == x);
        }
        assert(trade_keys_unique(a.drop_last())) by {
            assert forall|x: PortfolioTransaction, y: PortfolioTransaction|
                #[trigger] a.drop_last().contains(x) && #[trigger] a.drop_last().contains(y)
                    && x.trade_date@ == y.trade_date@ && x.id == y.id implies x == y by {
                assert(a.contains(x));
                assert(a.contains(y));
            }
        }
        assert(dated_in_order(a.drop_last())) by {
            assert forall|i: int, j: int| 0 <= i < j < a.drop_last().len() implies !tx_before(
                #[trigger] a.drop_last()[j],
                #[trigger] a.drop_last()[i],
            ) by {
                assert(a.drop_last()[j] == a[j] && a.drop_last()[i] == a[i]);
            }
        }
        assert(dated_in_order(b.drop_last())) by {
            assert forall|i: int, j: int| 0 <= i < j < b.drop_last().len() implies !tx_before(
                #[trigger] b.drop_last()[j],
                #[trigger] b.drop_last()[i],
            ) by {
                assert(b.drop_last()[j] == b[j] && b.drop_last()[i] == b[i]);
            }
        }
        lemma_ordered_reorderings_agree(a.drop_last(), b.drop_last());
        assert(a =~= a.drop_last().push(la));
        assert(b =~= b.drop_last().push(lb));
    }
}

/// The order in which the ledger lists its transactions never changes the calculation, as long
/// as no two different confirmed transactions share a trade date and an id (the order the
/// calculation replays them in).
pub proof fn law_calculation_ignores_ledger_order(
    rule: TradeRule,
    txs: Seq<PortfolioTransaction>,
    reordered: Seq<PortfolioTransaction>,
)
    requires
        reordered.to_multiset() == txs.to_multiset(),
        trade_keys_unique(confirmed(txs)),
    ensures
        calculation_outcome(rule, reordered) == calculation_outcome(rule, txs),
{
    broadcast use vstd::seq_lib::group_to_multiset_ensures;
    broadcast use vstd::multiset::group_multiset_axioms;

    let c1 = confirmed(txs);
    let c2 = confirmed(reordered);
    assert(c1.to_multiset() =~= c2.to_multiset()) by {
        assert forall|x: PortfolioTransaction| c1.to_multiset().count(x) == c2.to_multiset().count(x) by {
            lemma_confirmed_count(txs, x);
            lemma_confirmed_count(reordered, x);
        }
    }
    lemma_sort_by_date(c1);
    lemma_sort_by_date(c2);
    let s1 = sort_by_date(c1);
    assert forall|x: PortfolioTransaction| s1.contains(x) implies c1.contains(x) by {
        assert(s1.to_multiset().count(x) > 0);
    }
    assert(trade_keys_unique(s1));
    lemma_ordered_reorderings_agree(s1, sort_by_date(c2));
}

/// Adding transactions that are not confirmed, anywhere in the ledger, never changes the
/// calculation.
pub proof fn law_unconfirmed_additions_change_nothing(
    rule: TradeRule,
    before: Seq<PortfolioTransaction>,
    added: Seq<PortfolioTransaction>,
    after: Seq<PortfolioTransaction>,
)
    requires
        forall|k: int| 0 <= k < added.len() ==> !is_confirmed(#[trigger] added[k]),
    ensures
        calculation_outcome(rule, before + added + after) == calculation_outcome(rule, before + after),
{
    reveal(Seq::filter);
    Seq::filter_distributes_over_add(before + added, after, confirmed_pred());
    Seq::filter_distributes_over_add(before, added, confirmed_pred());
    Seq::filter_distributes_over_add(before, after, confirmed_pred());
    assert(confirmed(added) =~= Seq::<PortfolioTransaction>::empty()) by {
        lemma_none_confirmed(added);
    }
    assert(confirmed(before) + confirmed(added) =~= confirmed(before));
}

proof fn lemma_none_confirmed(s: Seq<PortfolioTransaction>)
    requires
        forall|k: int| 0 <= k < s.len() ==> !is_confirmed(#[trigger] s[k]),
    ensures
        confirmed(s).len() == 0,
    decreases s.len(),
{
    if s.len() > 0 {
        let d = s.drop_last();
        assert(d.push(s.last()) == s);
        assert forall|k: int| 0 <= k < d.len() implies !is_confirmed(#[trigger] d[k]) by {
            assert(d[k] == s[k]);
        }
        lemma_filter_push(d, s.last());
        lemma_none_confirmed(d);
    } else {
        reveal(Seq::filter);
    }
}

/// A buy adds its quantity, adds price × quantity plus its buy fees to the cost, and sets the
/// average cost to the new cost divided by the new quantity.
pub proof fn law_buy_averages_cost_over_quantity(s: CalcModel, t: PortfolioTransaction)
    ensures
        apply_buy_spec(s, t) matches Some(n) ==> {
            &&& (s.quantity >= 0 && t.quantity > 0 ==> n.quantity == s.quantity + t.quantity)
            &&& ({
                let gross = decimal_checked_mul(t.price, Dec::from_i64_spec(t.quantity));
                let fee_part = decimal_checked_add(t.commission, t.transfer_fee);
                let fees = decimal_checked_add(fee_part->Some_0, t.other_fee);
                let increase = decimal_checked_add(gross->Some_0, fees->Some_0);
                &&& gross is Some && fee_part is Some && fees is Some && increase is Some
                &&& decimal_checked_add(s.cost_amount, increase->Some_0) == Some(n.cost_amount)
            })
            &&& decimal_checked_div(n.cost_amount, Dec::from_i64_spec(n.quantity)) == Some(n.average_cost)
            &&& n.realized_pnl == s.realized_pnl
        },
{

}

proof fn lemma_replay_push(s: CalcModel, xs: Seq<PortfolioTransaction>, t: PortfolioTransaction)
    ensures
        replay(s, xs.push(t)) == match replay(s, xs) {
            Some(Ok(n)) => step_spec(n, t),
            other => other,
        },
    decreases xs.len(),
{
    let ys = xs.push(t);
    if xs.len() == 0 {
        assert(ys.drop_first() =~= Seq::<PortfolioTransaction>::empty());
        assert(ys[0] == t);
        assert(replay(s, xs) == Some(Ok::<CalcModel, PortfolioError>(s)));
        match step_spec(s, t) {
            Some(Ok(n)) => {
                assert(replay(n, ys.drop_first()) == Some(Ok::<CalcModel, PortfolioError>(n)));
            },
            _ => {},
        }
    } else {
        assert(ys[0] == xs[0]);
        assert(ys.drop_first() =~= xs.drop_first().push(t));
        match step_spec(s, xs[0]) {
            Some(Ok(n)) => lemma_replay_push(n, xs.drop_first(), t),
            _ => {},
        }
    }
}

/// When the last transaction the calculation replays is a buy, the position's average cost is
/// its cost amount divided by its quantity.
pub proof fn law_average_cost_after_a_buy_is_cost_over_quantity(rule: TradeRule, txs: Seq<PortfolioTransaction>)
    requires
        sort_by_date(confirmed(txs)).len() > 0,
        sort_by_date(confirmed(txs)).last().side == TransactionSide::Buy,
    ensures
        calculation_outcome(rule, txs) matches Some(Ok(p)) ==> decimal_checked_div(
            p.cost_amount,
            Dec::from_i64_spec(p.quantity),
        ) == Some(p.average_cost),
{
    let o = sort_by_date(confirmed(txs));
    let t = o.last();
    assert(o =~= o.drop_last().push(t));
    lemma_replay_push(initial_state(rule), o.drop_last(), t);
    match replay(initial_state(rule), o.drop_last()) {
        Some(Ok(n)) => {
            let released = release_state(n, t.trade_date@);
            law_buy_averages_cost_over_quantity(released, t);
        },
        _ => {},
    }
}

/// A valuation prices the whole held quantity: the market value is quantity × price, and the
/// unrealized P&L is the market value minus the cost amount.
pub proof fn law_valuation_is_quantity_times_price_minus_cost(position: Position, price: Dec)
    ensures
        valuation_outcome(position, price) matches Some(v) ==> decimal_checked_mul(
            Dec::from_i64_spec(position.quantity),
            price,
        ) == Some(v.market_value) && decimal_checked_sub(v.market_value, position.cost_amount) == Some(
            v.unrealized_pnl,
        ),
        decimal_checked_mul(Dec::from_i64_spec(position.quantity), price) matches Some(m)
            && decimal_checked_sub(m, position.cost_amount) is Some ==> valuation_outcome(position, price)
            is Some,
{
}

/// The daily P&L is the held quantity times the price change since the previous close; the
/// cost never enters it.
pub proof fn law_daily_pnl_is_quantity_times_change(
    position: Position,
    other: Position,
    price: Dec,
    previous_close: Dec,
)
    requires
        other.quantity == position.quantity,
    ensures
        daily_pnl_outcome(position, price, previous_close) matches Some(d) ==> decimal_checked_sub(
            price,
            previous_close,
        ) matches Some(change) && decimal_checked_mul(Dec::from_i64_spec(position.quantity), change)
            == Some(d),
        daily_pnl_outcome(position, price, previous_close) == daily_pnl_outcome(other, price, previous_close),
{
}

/// An opening balance needs a positive quantity, a non-negative average cost and a sellable
/// quantity between zero and the quantity; its cost amount is quantity × average cost, and the
/// sellable quantity is unknown exactly under an unknown trade rule.
pub proof fn law_opening_balance_costs_quantity_times_average(
    rule: TradeRule,
    quantity: i64,
    available_quantity: i64,
    average_cost: Dec,
)
    ensures
        quantity <= 0 ==> opening_balance_outcome(rule, quantity, available_quantity, average_cost)
            matches Some(Err(PortfolioError::InvalidQuantity { .. })),
        opening_balance_outcome(rule, quantity, available_quantity, average_cost) matches Some(Ok(p)) ==> {
            &&& p.quantity == quantity && quantity > 0
            &&& !average_cost.negative && 0 <= available_quantity <= quantity
            &&& p.average_cost == average_cost
            &&& decimal_checked_mul(Dec::from_i64_spec(quantity), average_cost) == Some(p.cost_amount)
            &&& (p.available_quantity is None <==> rule == TradeRule::Unknown)
            &&& (rule != TradeRule::Unknown ==> p.available_quantity == Some(available_quantity))
        },
{
}

/// A calculated position is consistent with its ledger: the quantity is the confirmed bought
/// quantity minus the confirmed sold quantity; the sellable quantity lies between zero and the
/// held quantity, equals it under T+0 and is unknown exactly under an unknown trade rule; and a
/// position that has been sold out carries zero cost and zero average cost.
pub proof fn law_position_matches_ledger(rule: TradeRule, txs: Seq<PortfolioTransaction>)
    requires
        all_wf(txs),
    ensures
        calculation_outcome(rule, txs) matches Some(Ok(p)) ==> {
            &&& p.quantity == net_quantity(confirmed(txs))
            &&& p.quantity >= 0
            &&& (p.available_quantity is None <==> rule == TradeRule::Unknown)
            &&& (p.available_quantity matches Some(a) ==> 0 <= a <= p.quantity)
            &&& (rule == TradeRule::TPlus0 ==> p.available_quantity == Some(p.quantity))
            &&& (p.quantity == 0 ==> p.cost_amount == Dec::zero_spec() && p.average_cost
                == Dec::zero_spec())
        },
{
    let sorted = sort_by_date(confirmed(txs));
    if let Some(Ok(n)) = replay(initial_state(rule), sorted) {
        lemma_confirmed_wf(txs);
        lemma_sort_wf(confirmed(txs));
        assert(shape_inv(initial_state(rule))) by {
            assert(pending_total(Seq::<PendingBuy>::empty()) == 0);
        }
        lemma_replay_inv(initial_state(rule), sorted, n);
        lemma_net_sort(confirmed(txs));
        lemma_pending_total_nonneg(n.pending);
    }
}

/// A sell is refused under an unknown trade rule, beyond the held quantity, or beyond the
/// sellable quantity. Otherwise it removes its quantity; the realized P&L grows by the proceeds
/// (price × quantity) minus the matched cost (average cost × quantity) minus commission, stamp
/// tax, transfer fee and other fee; the cost amount drops by the matched cost, and an emptied
/// position carries zero cost and zero average cost.
pub proof fn law_sell_realizes_proceeds_minus_matched_cost(s: CalcModel, t: PortfolioTransaction)
    ensures
        s.rule == TradeRule::Unknown ==> apply_sell_spec(s, t) == Some(
            Err::<CalcModel, PortfolioError>(PortfolioError::TradeRuleUnknown),
        ),
        s.rule != TradeRule::Unknown && t.quantity > s.quantity ==> apply_sell_spec(s, t) matches Some(
            Err(PortfolioError::InsufficientPosition { .. }),
        ),
        s.rule != TradeRule::Unknown && t.quantity <= s.quantity && t.quantity > s.available
            ==> apply_sell_spec(s, t) matches Some(Err(PortfolioError::InsufficientAvailableQuantity { .. })),
        apply_sell_spec(s, t) matches Some(Ok(n)) ==> {
            let q = Dec::from_i64_spec(t.quantity);
            let matched = decimal_checked_mul(s.average_cost, q);
            let proceeds = decimal_checked_mul(t.price, q);
            let gain = decimal_checked_sub(proceeds->Some_0, matched->Some_0);
            let fees = decimal_checked_add(
                decimal_checked_add(
                    decimal_checked_add(t.commission, t.stamp_tax)->Some_0,
                    t.transfer_fee,
                )->Some_0,
                t.other_fee,
            );
            let net = decimal_checked_sub(gain->Some_0, fees->Some_0);
            &&& s.rule != TradeRule::Unknown
            &&& t.quantity <= s.quantity && t.quantity <= s.available
            &&& (t.quantity > 0 ==> n.quantity == s.quantity - t.quantity && n.available == s.available
                - t.quantity)
            &&& matched is Some && proceeds is Some && gain is Some && fees is Some && net is Some
            &&& decimal_checked_add(s.realized_pnl, net->Some_0) == Some(n.realized_pnl)
            &&& (n.quantity == 0 ==> n.cost_amount == Dec::zero_spec() && n.average_cost == Dec::zero_spec())
            &&& (n.quantity != 0 ==> decimal_checked_sub(s.cost_amount, matched->Some_0) == Some(
                n.cost_amount,
            ) && n.average_cost == s.average_cost)
        },
{
}

/// Selling part of a position leaves its average cost unchanged.
pub proof fn law_sell_keeps_average_cost(s: CalcModel, t: PortfolioTransaction)
    requires
        t.side == TransactionSide::Sell,
    ensures
        step_spec(s, t) matches Some(Ok(n)) ==> (n.quantity > 0 ==> n.average_cost
            == s.average_cost),
{
}

/// The state while replaying one trading day under T+1: nothing sellable yet, and every pending
/// buy dated that day.
spec fn same_day_state(s: CalcModel, d: Seq<char>) -> bool {
    &&& s.rule == TradeRule::TPlus1
    &&& s.available == 0
    &&& forall|i: int| 0 <= i < s.pending.len() ==> (#[trigger] s.pending[i]).trade_date@ == d
}

proof fn lemma_lex_irreflexive(a: Seq<char>)
    ensures
        !lex_lt(a, a),
    decreases a.len(),
{
    if a.len() > 0 {
        lemma_lex_irreflexive(a.drop_first());
    }
}

proof fn lemma_release_same_day(available: i64, p: Seq<PendingBuy>, d: Seq<char>)
    requires
        forall|i: int| 0 <= i < p.len() ==> (#[trigger] p[i]).trade_date@ == d,
    ensures
        release_pending(available, p, d) == (available, p),
    decreases p.len(),
{
    if p.len() > 0 {
        lemma_lex_irreflexive(d);
        let rest = p.drop_first();
        assert forall|i: int| 0 <= i < rest.len() implies (#[trigger] rest[i]).trade_date@ == d by {
            assert(rest[i] == p[i + 1]);
        }
        lemma_release_same_day(available, rest, d);
        assert(seq![p[0]] + rest == p);
    }
}

proof fn lemma_same_day_replay(s: CalcModel, seq: Seq<PortfolioTransaction>, d: Seq<char>)
    requires
        same_day_state(s, d),
        forall|i: int| 0 <= i < seq.len() ==> (#[trigger] seq[i]).trade_date@ == d,
        exists|i: int| 0 <= i < seq.len() && (#[trigger] seq[i]).side == TransactionSide::Sell,
    ensures
        !(replay(s, seq) matches Some(Ok(_))),
    decreases seq.len(),
{
    let t = seq[0];
    lemma_release_same_day(s.available, s.pending, d);
    let released = release_state(s, t.trade_date@);
    assert(released == s);
    if validation_error(t) is None && t.side == TransactionSide::Buy {
        if let Some(n) = apply_buy_spec(released, t) {
            let rest = seq.drop_first();
            assert forall|i: int| 0 <= i < rest.len() implies (#[trigger] rest[i]).trade_date@ == d by {
                assert(rest[i] == seq[i + 1]);
            }
            let k = choose|i: int| 0 <= i < seq.len() && (#[trigger] seq[i]).side == TransactionSide::Sell;
            assert(k > 0);
            assert(rest[k - 1] == seq[k]);
            assert forall|i: int| 0 <= i < n.pending.len() implies (#[trigger] n.pending[i]).trade_date@ == d by {
                if i < s.pending.len() {
                    assert(n.pending[i] == s.pending[i]);
                }
            }
            lemma_same_day_replay(n, rest, d);
        }
    }
}

/// T+1: shares bought on a trading day cannot be sold that day. A ledger whose confirmed
/// transactions all fall on one trading day never yields a position if it holds a confirmed sell.
pub proof fn law_t_plus_one_blocks_same_day_sale(txs: Seq<PortfolioTransaction>, day: Seq<char>)
    requires
        forall|i: int|
            0 <= i < txs.len() && is_confirmed(#[trigger] txs[i]) ==> txs[i].trade_date@ == day,
        exists|i: int|
            0 <= i < txs.len() && is_confirmed(#[trigger] txs[i]) && txs[i].side
                == TransactionSide::Sell,
    ensures
        !(calculation_outcome(TradeRule::TPlus1, txs) matches Some(Ok(_))),
{
    let c = confirmed(txs);
    let sorted = sort_by_date(c);
    assert forall|i: int| 0 <= i < sorted.len() implies (#[trigger] sorted[i]).trade_date@ == day by {
        let y = sorted[i];
        assert(sorted.contains(y));
        lemma_sort_contains(c, y);
        let m = choose|m: int| 0 <= m < c.len() && c[m] == y;
        txs.lemma_filter_pred(confirmed_pred(), m);
        assert(is_confirmed(y));
        txs.lemma_filter_contains_rev(confirmed_pred(), y);
        let k = choose|k: int| 0 <= k < txs.len() && txs[k] == y;
        assert(is_confirmed(txs[k]));
    }
    let k = choose|i: int|
        0 <= i < txs.len() && is_confirmed(#[trigger] txs[i]) && txs[i].side == TransactionSide::Sell;
    txs.lemma_filter_contains(confirmed_pred(), k);
    lemma_sort_contains(c, txs[k]);
    let j = choose|j: int| 0 <= j < sorted.len() && sorted[j] == txs[k];
    assert(sorted[j].side == TransactionSide::Sell);
    assert(same_day_state(initial_state(TradeRule::TPlus1), day));
    if sorted.len() > 0 {
        lemma_same_day_replay(initial_state(TradeRule::TPlus1), sorted, day);
    }
}

} // verus!
