use hero_call::dashboard::{DashboardService, ValuationSnapshot};
use hero_call::portfolio::{SecurityType, TradeRule};
use hero_call::portfolio_ui::{
    normalized_name, normalized_symbol, parse_positive_quantity, CreateHoldingInput,
    ParsedCreateInput, PortfolioHoldingView, PortfolioUiError, PortfolioUiService,
};
use hero_call::records::{
    CashAccount, MarketIndexQuoteRecord, MarketSnapshotReference, MarketSourceStatus, PortfolioHoldingData,
};
use hero_call::review::{factual_risks, sorted_contributions, validate_review_date, ReviewService};
use hero_call::settings::{CreateCashAccountInput, InitializationService, SettingsError, SettingsService};
use hero_call::time::UtcTime;

fn holding_data(quantity: i64, quote_status: Option<&str>) -> PortfolioHoldingData {
    PortfolioHoldingData {
        holding_id: 1,
        security_id: 2,
        name: "测试持仓证券".into(),
        symbol: "600519".into(),
        market: "SSE".into(),
        security_type: "STOCK".into(),
        trade_rule: "T_PLUS_1".into(),
        quantity,
        available_quantity: quantity,
        average_cost: "10.50".into(),
        cost_amount: "1050".into(),
        current_price: Some("12.00".into()),
        previous_close: Some("11.50".into()),
        change_percent: Some("4.35".into()),
        quote_status: quote_status.map(|s| s.to_string()),
        transaction_status: None,
    }
}

fn view(name: &str, market_value: Option<&str>, daily: Option<&str>, quantity: &str, cost: &str) -> PortfolioHoldingView {
    PortfolioHoldingView {
        holding_id: 1,
        security_id: 1,
        name: name.into(),
        symbol: "600519".into(),
        market: "SSE".into(),
        security_type: "STOCK".into(),
        quantity: quantity.into(),
        available_quantity: Some(quantity.into()),
        average_cost: cost.into(),
        current_price: market_value.map(|_| "12".to_string()),
        market_value: market_value.map(|s| s.to_string()),
        daily_pnl: daily.map(|s| s.to_string()),
        total_pnl: None,
        change_percent: None,
        transaction_status: "暂无交易记录".into(),
        is_watchlist: false,
        profile_status: None,
    }
}

#[test]
fn closed_quote_values_the_holding() {
    let v = PortfolioUiService::to_view(holding_data(100, Some("CLOSED"))).unwrap().unwrap();
    assert_eq!(v.quantity, "100");
    assert_eq!(v.available_quantity.as_deref(), Some("100"));
    assert_eq!(v.average_cost, "10.50");
    assert_eq!(v.current_price.as_deref(), Some("12.00"));
    assert_eq!(v.market_value.as_deref(), Some("1200.00"));
    assert_eq!(v.daily_pnl.as_deref(), Some("50.00"));
    assert_eq!(v.total_pnl, None);
    assert_eq!(v.transaction_status, "暂无交易记录");
}

#[test]
fn delayed_quote_is_shown_but_never_values_the_holding() {
    let v = PortfolioUiService::to_view(holding_data(100, Some("DELAYED"))).unwrap().unwrap();
    assert_eq!(v.current_price.as_deref(), Some("12.00"));
    assert_eq!(v.market_value, None);
    assert_eq!(v.daily_pnl, None);
}

#[test]
fn holding_without_shares_is_a_follow() {
    let v = PortfolioUiService::to_view(holding_data(0, Some("CLOSED"))).unwrap().unwrap();
    assert!(v.is_watchlist);
    assert_eq!(v.transaction_status, "关注标的");
    assert_eq!(v.market_value, None);
}

#[test]
fn unknown_trade_rule_is_refused() {
    let mut data = holding_data(100, None);
    data.trade_rule = "T_PLUS_5".into();
    assert_eq!(
        PortfolioUiService::to_view(data),
        Some(Err(PortfolioUiError::Validation("交易规则未确认")))
    );
}

#[test]
fn holding_input_is_validated_in_order() {
    let input = CreateHoldingInput {
        symbol: " 600519 ".into(),
        name: " 测试持仓证券 ".into(),
        market: "SSE".into(),
        security_type: "ETF".into(),
        quantity: "100".into(),
        average_cost: "10.50".into(),
    };
    let parsed = ParsedCreateInput::parse(input.clone()).unwrap();
    assert_eq!(parsed.symbol, "600519");
    assert_eq!(parsed.name, "测试持仓证券");
    assert_eq!(parsed.trade_rule, "UNKNOWN");
    assert_eq!(parsed.portfolio_security_type, SecurityType::Etf);
    assert_eq!(parsed.trade_rule_value, TradeRule::Unknown);

    let mut bad_market = input.clone();
    bad_market.market = "HKEX".into();
    bad_market.quantity = "x".into();
    assert_eq!(
        ParsedCreateInput::parse(bad_market).err(),
        Some(PortfolioUiError::Validation("市场必须是 SSE 或 SZSE"))
    );
    let mut zero_cost = input;
    zero_cost.average_cost = "0".into();
    assert_eq!(
        ParsedCreateInput::parse(zero_cost).err(),
        Some(PortfolioUiError::Validation("成本价必须大于 0"))
    );
}

#[test]
fn quantity_and_code_parsing_follow_the_rules() {
    assert_eq!(parse_positive_quantity(" +100 "), Ok(100));
    assert!(parse_positive_quantity("0").is_err());
    assert!(parse_positive_quantity("-5").is_err());
    assert!(parse_positive_quantity("99999999999999999999").is_err());
    assert_eq!(parse_positive_quantity("9223372036854775807"), Ok(i64::MAX));
    assert!(parse_positive_quantity("9223372036854775808").is_err());
    assert!(parse_positive_quantity("12a").is_err());
    assert!(parse_positive_quantity("+").is_err());
    assert!(normalized_symbol("60051").is_err());
    assert!(normalized_symbol("60051a").is_err());
    assert_eq!(normalized_symbol(" 300209 ").unwrap(), "300209");
    assert_eq!(normalized_name("   ").err(), Some(PortfolioUiError::Validation("证券名称不能为空")));
}

#[test]
fn opening_holding_of_unknown_rule_has_nothing_sellable() {
    let cost = hero_call::decimal::Dec::parse("3.85").unwrap();
    let h = PortfolioUiService::opening_holding(SecurityType::Etf, TradeRule::Unknown, 100, cost, "invalid")
        .unwrap()
        .unwrap();
    assert_eq!(h.available_quantity, 0);
    assert_eq!(h.cost_amount, "385.00");
}

#[test]
fn dashboard_never_substitutes_missing_financial_values_with_zero() {
    let summary = DashboardService::asset_summary(&Vec::new(), &Vec::new(), false, None).unwrap();
    assert_eq!(summary.total_assets, None);
    assert_eq!(summary.stock_market_value, None);
    assert_eq!(summary.cash, None);
    assert_eq!(summary.daily_pnl, None);
    assert_eq!(summary.total_pnl, None);
    assert_eq!(summary.return_rate, None);
}

#[test]
fn dashboard_aggregates_cash_and_complete_valuations() {
    let cash = vec!["500".to_string(), "0.50".to_string()];
    let holdings = vec![view("甲", Some("1200"), Some("20"), "100", "10")];
    let snapshot = ValuationSnapshot { source: "Recorded".into(), market_timestamp: "2026-08-07T07:00:00+00:00".into() };
    let summary = DashboardService::asset_summary(&cash, &holdings, false, Some(snapshot)).unwrap();
    assert_eq!(summary.cash.as_deref(), Some("500.5"));
    assert_eq!(summary.stock_market_value.as_deref(), Some("1200"));
    assert_eq!(summary.total_assets.as_deref(), Some("1700.5"));
    assert_eq!(summary.daily_pnl.as_deref(), Some("20"));
    assert_eq!(summary.total_pnl.as_deref(), Some("200"));
    assert_eq!(summary.return_rate.as_deref(), Some("20"));
    assert_eq!(summary.valuation_source.as_deref(), Some("Recorded"));

    let with_ledger = DashboardService::asset_summary(&cash, &holdings, true, None).unwrap();
    assert_eq!(with_ledger.total_pnl, None);
    assert_eq!(with_ledger.return_rate, None);
}

#[test]
fn partial_valuation_is_not_totalled() {
    let holdings = vec![
        view("甲", Some("1200"), Some("20"), "100", "10"),
        view("乙", None, None, "100", "10"),
    ];
    let summary = DashboardService::asset_summary(&vec!["100".to_string()], &holdings, false, None).unwrap();
    assert_eq!(summary.stock_market_value, None);
    assert_eq!(summary.total_assets, None);
    assert_eq!(summary.cash.as_deref(), Some("100"));
}

#[test]
fn index_board_falls_back_to_no_data() {
    let records = vec![MarketIndexQuoteRecord {
        name: "深证成指".into(),
        symbol: "399001.SZ".into(),
        current_price: "10000".into(),
        change_percent: Some("1.2".into()),
        source: "Recorded index source".into(),
        status: "DELAYED".into(),
        updated_at: "2026-08-07T07:00:00+00:00".into(),
    }];
    let board = DashboardService::index_board(&records);
    assert_eq!(board.len(), 4);
    assert_eq!(board[0].status, "NO_DATA");
    assert_eq!(board[0].name, "上证指数");
    assert_eq!(board[1].status, "DELAYED");
    assert_eq!(board[1].current_price.as_deref(), Some("10000"));
}

#[test]
fn contributions_sort_by_daily_pnl_then_name() {
    let holdings = vec![
        view("乙", None, None, "100", "10"),
        view("甲", Some("1200"), Some("5"), "100", "10"),
        view("丙", Some("1200"), Some("20.0"), "100", "10"),
        view("丁", None, Some("bad"), "100", "10"),
    ];
    let sorted = sorted_contributions(&holdings);
    let names: Vec<&str> = sorted.iter().map(|c| c.name.as_str()).collect();
    assert_eq!(names, vec!["丙", "甲", "丁", "乙"]);
}

#[test]
fn risk_facts_are_counted() {
    let holdings = vec![view("甲", None, None, "100", "10"), view("乙", Some("1"), Some("1"), "1", "1")];
    let risks = factual_risks(false, &holdings, 2);
    assert_eq!(
        risks.facts,
        vec![
            "未找到当日市场快照，市场表现未确认。".to_string(),
            "1 个持仓缺少可验证的当前价格或今日盈亏。".to_string(),
            "已保存与当前持仓关联的资讯：2 条。".to_string(),
        ]
    );
    assert!(validate_review_date("2026-08-08").is_ok());
    assert!(validate_review_date("2026/08/08").is_err());
}

#[test]
fn settings_report_only_safe_configuration_state() {
    let source = MarketSourceStatus {
        name: "Recorded".into(),
        status: "ACTIVE".into(),
        last_success_at: Some("2026-08-07T07:00:00+00:00".into()),
    };
    let status = SettingsService::status_view(Some(source), Some("secret-token"));
    assert_eq!(status.tushare_status, "已配置");
    assert_eq!(status.market_connection_status, "已连接");
    assert!(!format!("{status:?}").contains("secret-token"));
    let unknown = SettingsService::status_view(None, Some("  "));
    assert_eq!(unknown.tushare_status, "未配置");
    assert_eq!(unknown.market_connection_status, "未确认");
}

#[test]
fn cash_accounts_accept_only_non_negative_cny() {
    let ok = SettingsService::cash_amount(&CreateCashAccountInput { currency: "CNY".into(), amount: " 1200.50 ".into() });
    assert_eq!(ok, Ok("1200.50".to_string()));
    assert_eq!(
        SettingsService::cash_amount(&CreateCashAccountInput { currency: "USD".into(), amount: "1".into() }),
        Err(SettingsError::Validation("V1.0 仅支持人民币现金账户"))
    );
    assert_eq!(
        SettingsService::cash_amount(&CreateCashAccountInput { currency: "CNY".into(), amount: "-1".into() }),
        Err(SettingsError::Validation("现金金额不能小于 0"))
    );
    let view = SettingsService::cash_account_view(CashAccount {
        id: 3,
        name: "人民币现金账户-1".into(),
        currency: "CNY".into(),
        available_to_buy: "500".into(),
        withdrawable_cash: "500".into(),
        pending_settlement: "0".into(),
    });
    assert_eq!(view.amount, "500");
}

#[test]
fn first_run_completion_is_a_stored_flag() {
    assert!(!InitializationService::status_from(None).completed);
    assert!(!InitializationService::status_from(Some("yes".into())).completed);
    assert!(InitializationService::status_from(Some("true".into())).completed);
}

#[test]
fn backup_name_carries_the_time() {
    let name = SettingsService::backup_file_name(UtcTime { seconds: 1_786_000_000, nanos: 5_000_000 }).unwrap();
    assert!(name.starts_with("astock-ai-workbench-"));
    assert!(name.ends_with(".005Z.sqlite3"));
}

fn closed_position(symbol: &str, name: &str, quantity: i64, average_cost: &str, price: &str, previous: &str) -> PortfolioHoldingData {
    PortfolioHoldingData {
        holding_id: 1,
        security_id: 1,
        name: name.into(),
        symbol: symbol.into(),
        market: "SSE".into(),
        security_type: "STOCK".into(),
        trade_rule: "T_PLUS_1".into(),
        quantity,
        available_quantity: quantity,
        average_cost: average_cost.into(),
        cost_amount: "0".into(),
        current_price: Some(price.into()),
        previous_close: Some(previous.into()),
        change_percent: None,
        quote_status: Some("CLOSED".into()),
        transaction_status: None,
    }
}

#[test]
fn dashboard_aggregates_cash_and_closed_source_backed_positions_in_rust() {
    let mut data = closed_position("600519", "测试夹具证券", 10, "10", "12", "11");
    data.cost_amount = "100".into();
    data.change_percent = Some("9.0909".into());
    let holding = PortfolioUiService::to_view(data).unwrap().unwrap();
    let snapshot = ValuationSnapshot {
        source: "Recorded dashboard verification source".into(),
        market_timestamp: "2026-08-07T07:00:00+00:00".into(),
    };
    let summary = DashboardService::asset_summary(&vec!["500".to_string()], &vec![holding], false, Some(snapshot))
        .expect("aggregate dashboard");
    assert_eq!(summary.cash.as_deref(), Some("500"));
    assert_eq!(summary.stock_market_value.as_deref(), Some("120"));
    assert_eq!(summary.total_assets.as_deref(), Some("620"));
    assert_eq!(summary.daily_pnl.as_deref(), Some("10"));
    assert_eq!(summary.total_pnl.as_deref(), Some("20"));
    assert_eq!(summary.return_rate.as_deref(), Some("20"));
    assert_eq!(summary.valuation_source.as_deref(), Some("Recorded dashboard verification source"));
    assert_eq!(summary.valuation_timestamp.as_deref(), Some("2026-08-07T07:00:00+00:00"));
}

#[test]
fn review_generation_associates_snapshot_and_sorts_holding_contributions() {
    let first = PortfolioUiService::to_view(closed_position("600519", "测试证券甲", 100, "8", "11", "10"))
        .unwrap()
        .unwrap();
    let second = PortfolioUiService::to_view(closed_position("600000", "测试证券乙", 100, "8", "12", "10"))
        .unwrap()
        .unwrap();
    let holdings = vec![first, second];
    let snapshot = MarketSnapshotReference {
        id: 7,
        source: "Recorded review test source".into(),
        market_timestamp: "2026-08-08T07:00:00+00:00".into(),
        fetched_at: "2026-08-08T07:00:00+00:00".into(),
        delay_status: "CLOSED".into(),
    };
    let asset = DashboardService::asset_summary(&vec![], &holdings, false, None).expect("aggregate");
    let indices = DashboardService::index_board(&vec![]);
    let review = ReviewService::assemble(&holdings, 1, Some(snapshot), asset, indices);
    assert_eq!(review.snapshot_id, Some(7));
    assert_eq!(review.portfolio_summary.holding_count, 2);
    assert_eq!(review.holding_summary.contributions[0].symbol, "600000");
    assert_eq!(review.holding_summary.contributions[0].daily_pnl.as_deref(), Some("200"));
    assert_eq!(review.risk_summary.related_news_count, 1);
    assert!(review
        .risk_summary
        .facts
        .iter()
        .all(|fact| !fact.contains("买入") && !fact.contains("卖出") && !fact.contains("预测")));
    let snapshot_of_review = review.market_summary.snapshot.expect("snapshot kept");
    assert_eq!(snapshot_of_review.id, 7);
    assert_eq!(snapshot_of_review.source, "Recorded review test source");
}
