use hero_call::decimal::Dec;
use hero_call::portfolio::{
    PortfolioError, PortfolioService, PortfolioTransaction, SecurityType, TradeRule,
    TransactionSide, TransactionStatus,
};

fn decimal(value: &str) -> Dec {
    Dec::parse(value).expect("valid decimal test value")
}

fn same(a: Dec, b: Dec) -> bool {
    a.same_value(&b)
}

fn transaction(
    id: i64,
    date: &str,
    side: TransactionSide,
    quantity: i64,
    price: &str,
) -> PortfolioTransaction {
    PortfolioTransaction {
        id,
        trade_date: date.into(),
        side,
        status: TransactionStatus::Confirmed,
        quantity,
        price: decimal(price),
        commission: Dec::zero(),
        stamp_tax: Dec::zero(),
        transfer_fee: Dec::zero(),
        other_fee: Dec::zero(),
        minimum_commission: Dec::zero(),
    }
}

fn stock_service() -> PortfolioService {
    PortfolioService::new(SecurityType::Stock, TradeRule::TPlus1)
}

#[test]
fn single_buy_calculates_quantity_cost_and_unrealized_pnl() {
    let engine = stock_service();
    let position = engine
        .calculate(&[transaction(1, "2026-08-03", TransactionSide::Buy, 100, "10")])
        .expect("calculate single buy");
    let valuation = engine.value_position(&position, decimal("12"));

    assert_eq!(position.quantity, 100);
    assert_eq!(position.available_quantity, Some(0));
    assert!(same(position.average_cost, decimal("10")));
    assert!(same(position.cost_amount, decimal("1000")));
    assert!(same(position.realized_pnl, Dec::zero()));
    assert!(same(valuation.market_value, decimal("1200")));
    assert!(same(valuation.unrealized_pnl, decimal("200")));
}

#[test]
fn multiple_buys_use_moving_average_cost() {
    let engine = stock_service();
    let position = engine
        .calculate(&[
            transaction(1, "2026-08-03", TransactionSide::Buy, 100, "10"),
            transaction(2, "2026-08-04", TransactionSide::Buy, 100, "14"),
        ])
        .expect("calculate average cost");
    let valuation = engine.value_position(&position, decimal("13"));

    assert_eq!(position.quantity, 200);
    assert_eq!(position.available_quantity, Some(100));
    assert!(same(position.average_cost, decimal("12")));
    assert!(same(position.cost_amount, decimal("2400")));
    assert!(same(position.realized_pnl, Dec::zero()));
    assert!(same(valuation.unrealized_pnl, decimal("200")));
}

#[test]
fn partial_sell_preserves_average_cost_and_calculates_realized_pnl() {
    let engine = stock_service();
    let position = engine
        .calculate(&[
            transaction(1, "2026-08-03", TransactionSide::Buy, 200, "10"),
            transaction(2, "2026-08-04", TransactionSide::Sell, 50, "12"),
        ])
        .expect("calculate partial sell");
    let valuation = engine.value_position(&position, decimal("11"));

    assert_eq!(position.quantity, 150);
    assert_eq!(position.available_quantity, Some(150));
    assert!(same(position.average_cost, decimal("10")));
    assert!(same(position.cost_amount, decimal("1500")));
    assert!(same(position.realized_pnl, decimal("100")));
    assert!(same(valuation.unrealized_pnl, decimal("150")));
}

#[test]
fn full_sell_resets_open_position_and_keeps_realized_pnl() {
    let engine = stock_service();
    let position = engine
        .calculate(&[
            transaction(1, "2026-08-03", TransactionSide::Buy, 100, "10"),
            transaction(2, "2026-08-04", TransactionSide::Sell, 100, "12"),
        ])
        .expect("calculate full sell");
    let valuation = engine.value_position(&position, decimal("12"));

    assert_eq!(position.quantity, 0);
    assert_eq!(position.available_quantity, Some(0));
    assert!(same(position.average_cost, Dec::zero()));
    assert!(same(position.cost_amount, Dec::zero()));
    assert!(same(position.realized_pnl, decimal("200")));
    assert!(same(valuation.market_value, Dec::zero()));
    assert!(same(valuation.unrealized_pnl, Dec::zero()));
}

#[test]
fn fees_are_included_once_in_cost_and_realized_pnl() {
    let engine = stock_service();
    let mut buy = transaction(1, "2026-08-03", TransactionSide::Buy, 100, "10");
    buy.commission = decimal("5");
    buy.transfer_fee = decimal("1");
    buy.other_fee = decimal("2");
    buy.minimum_commission = decimal("5");

    let mut sell = transaction(2, "2026-08-04", TransactionSide::Sell, 100, "11");
    sell.commission = decimal("5");
    sell.stamp_tax = decimal("1");
    sell.transfer_fee = decimal("1");
    sell.other_fee = decimal("1");
    sell.minimum_commission = decimal("5");

    let position = engine.calculate(&[buy, sell]).expect("calculate fees");
    let valuation = engine.value_position(&position, decimal("11"));

    assert!(same(
        engine.commission_with_minimum(decimal("3"), decimal("5")),
        decimal("5")
    ));
    assert_eq!(position.quantity, 0);
    assert!(same(position.cost_amount, Dec::zero()));
    assert!(same(position.realized_pnl, decimal("84")));
    assert!(same(valuation.unrealized_pnl, Dec::zero()));
}

#[test]
fn cancelled_transaction_is_ignored() {
    let engine = stock_service();
    let mut cancelled = transaction(2, "2026-08-04", TransactionSide::Sell, 100, "20");
    cancelled.status = TransactionStatus::Cancelled;

    let position = engine
        .calculate(&[
            transaction(1, "2026-08-03", TransactionSide::Buy, 100, "10"),
            cancelled,
        ])
        .expect("ignore cancelled transaction");
    let valuation = engine.value_position(&position, decimal("12"));

    assert_eq!(position.quantity, 100);
    assert!(same(position.cost_amount, decimal("1000")));
    assert!(same(position.realized_pnl, Dec::zero()));
    assert!(same(valuation.unrealized_pnl, decimal("200")));
}

#[test]
fn t_plus_one_blocks_same_day_sale_and_allows_later_trade_day() {
    let engine = stock_service();
    let same_day = [
        transaction(1, "2026-08-03", TransactionSide::Buy, 100, "10"),
        transaction(2, "2026-08-03", TransactionSide::Sell, 100, "11"),
    ];
    assert_eq!(
        engine.calculate(&same_day).err(),
        Some(PortfolioError::InsufficientAvailableQuantity {
            transaction_id: 2,
            requested: 100,
            available: 0,
        })
    );

    let later_day = [
        transaction(1, "2026-08-03", TransactionSide::Buy, 100, "10"),
        transaction(2, "2026-08-04", TransactionSide::Sell, 100, "11"),
    ];
    let position = engine.calculate(&later_day).expect("allow next trade day sale");
    let valuation = engine.value_position(&position, decimal("11"));
    assert_eq!(position.quantity, 0);
    assert!(same(position.cost_amount, Dec::zero()));
    assert!(same(position.realized_pnl, decimal("100")));
    assert!(same(valuation.unrealized_pnl, Dec::zero()));
}

#[test]
fn etf_unknown_rule_disables_available_quantity_and_sell_calculation() {
    let engine = PortfolioService::new(SecurityType::Etf, TradeRule::Unknown);
    let buy = transaction(1, "2026-08-03", TransactionSide::Buy, 100, "3.85");
    let position = engine.calculate(&[buy.clone()]).expect("calculate ETF holding");
    let valuation = engine.value_position(&position, decimal("4.00"));

    assert_eq!(position.quantity, 100);
    assert_eq!(position.available_quantity, None);
    assert!(same(position.cost_amount, decimal("385")));
    assert!(same(position.realized_pnl, Dec::zero()));
    assert!(same(valuation.unrealized_pnl, decimal("15")));

    let sell = transaction(2, "2026-08-04", TransactionSide::Sell, 100, "4.00");
    assert_eq!(
        engine.calculate(&[buy, sell]).err(),
        Some(PortfolioError::TradeRuleUnknown)
    );
}

#[test]
fn opening_balance_and_daily_pnl_are_calculated_in_rust() {
    let engine = stock_service();
    let position = engine
        .position_from_opening_balance(200, 200, decimal("10.50"))
        .expect("valid opening balance");
    let valuation = engine.value_position(&position, decimal("11.20"));

    assert!(same(position.cost_amount, decimal("2100")));
    assert_eq!(position.available_quantity, Some(200));
    assert!(same(valuation.market_value, decimal("2240")));
    assert!(same(valuation.unrealized_pnl, decimal("140")));
    assert!(same(
        engine.daily_pnl(&position, decimal("11.20"), decimal("11.00")),
        decimal("40")
    ));
}

#[test]
fn invalid_trade_date_is_reported_with_the_date() {
    let engine = stock_service();
    let result = engine.calculate(&[transaction(7, "2026/08/03", TransactionSide::Buy, 100, "10")]);
    assert_eq!(
        result.err(),
        Some(PortfolioError::InvalidTradeDate { transaction_id: 7, trade_date: "2026/08/03".into() })
    );
}

#[test]
fn selling_more_than_held_is_refused() {
    let engine = PortfolioService::new(SecurityType::Stock, TradeRule::TPlus0);
    let result = engine.calculate(&[
        transaction(1, "2026-08-03", TransactionSide::Buy, 100, "10"),
        transaction(2, "2026-08-03", TransactionSide::Sell, 150, "10"),
    ]);
    assert_eq!(
        result.err(),
        Some(PortfolioError::InsufficientPosition { transaction_id: 2, requested: 150, held: 100 })
    );
}

#[test]
fn commission_minimum_keeps_a_larger_rate_commission() {
    let engine = stock_service();
    assert!(same(engine.commission_with_minimum(decimal("7.5"), decimal("5")), decimal("7.5")));
}

#[test]
fn ledger_order_does_not_change_the_position() {
    let engine = stock_service();
    let ledger = vec![
        transaction(1, "2026-08-03", TransactionSide::Buy, 200, "10"),
        transaction(2, "2026-08-04", TransactionSide::Sell, 50, "12"),
        transaction(3, "2026-08-05", TransactionSide::Buy, 100, "13"),
    ];
    let mut reversed = ledger.clone();
    reversed.reverse();
    let in_order = engine.calculate(&ledger).expect("calculate ledger");
    let reordered = engine.calculate(&reversed).expect("calculate reversed ledger");
    assert_eq!(in_order.quantity, 250);
    assert_eq!(reordered.quantity, in_order.quantity);
    assert_eq!(reordered.available_quantity, in_order.available_quantity);
    assert!(same(reordered.average_cost, in_order.average_cost));
    assert!(same(reordered.cost_amount, in_order.cost_amount));
    assert!(same(reordered.realized_pnl, decimal("100")));
}
