//! Records as the local database stores and returns them.
//!
//! Amounts are kept as the decimal text that was stored; the services parse them.
use vstd::prelude::*;

verus! {

#[derive(Debug, Clone, PartialEq, Eq)]
pub struct Security {
    pub id: i64,
    pub symbol: String,
    pub name: String,
    pub market: String,
    pub exchange: String,
    pub security_type: String,
    pub industry: Option<String>,
    pub concepts_json: String,
    pub trade_rule: String,
}

#[derive(Debug, Clone, PartialEq, Eq)]
pub struct NewSecurity {
    pub symbol: String,
    pub name: String,
    pub market: String,
    pub exchange: String,
    pub security_type: String,
    pub industry: Option<String>,
    pub concepts_json: String,
    pub trade_rule: String,
}

#[derive(Debug, Clone, PartialEq, Eq)]
pub struct CashAccount {
    pub id: i64,
    pub name: String,
    pub currency: String,
    pub available_to_buy: String,
    pub withdrawable_cash: String,
    pub pending_settlement: String,
}

#[derive(Debug, Clone, PartialEq, Eq)]
pub struct NewCashAccount {
    pub name: String,
    pub currency: String,
    pub available_to_buy: String,
    pub withdrawable_cash: String,
    pub pending_settlement: String,
}

#[derive(Debug, Clone, PartialEq, Eq)]
pub struct MarketSourceStatus {
    pub name: String,
    pub status: String,
    pub last_success_at: Option<String>,
}

#[derive(Debug, Clone, PartialEq, Eq)]
pub struct MarketIndexQuoteRecord {
    pub name: String,
    pub symbol: String,
    pub current_price: String,
    pub change_percent: Option<String>,
    pub source: String,
    pub status: String,
    pub updated_at: String,
}

/// One source-backed index close of a distinct persisted market date.
#[derive(Debug, Clone, PartialEq, Eq)]
pub struct HistoricalMarketIndexQuoteRecord {
    pub name: String,
    pub symbol: String,
    pub current_price: String,
    pub change_percent: Option<String>,
    pub source: String,
    pub status: String,
    pub market_timestamp: String,
    pub fetched_at: String,
}

#[derive(Debug, Clone, PartialEq, Eq)]
pub struct ManualRefreshRun {
    pub id: i64,
    pub holdings_snapshot_id: Option<i64>,
    pub indices_snapshot_id: Option<i64>,
    pub portfolio_json: String,
    pub completed_at: String,
}

#[derive(Debug, PartialEq, Eq)]
pub struct StoredMarketQuote {
    pub symbol: String,
    pub name: String,
    pub market: String,
    pub current_price: String,
    pub previous_close: String,
    pub price_change: String,
    pub change_percent: String,
    pub volume: String,
    pub turnover_amount: String,
    pub market_timestamp: String,
    pub fetched_at: String,
    pub source: String,
    pub delay_status: String,
}

impl Clone for StoredMarketQuote {
    fn clone(&self) -> (r: Self)
        ensures
            r == *self,
    {
        StoredMarketQuote {
            symbol: self.symbol.clone(),
            name: self.name.clone(),
            market: self.market.clone(),
            current_price: self.current_price.clone(),
            previous_close: self.previous_close.clone(),
            price_change: self.price_change.clone(),
            change_percent: self.change_percent.clone(),
            volume: self.volume.clone(),
            turnover_amount: self.turnover_amount.clone(),
            market_timestamp: self.market_timestamp.clone(),
            fetched_at: self.fetched_at.clone(),
            source: self.source.clone(),
            delay_status: self.delay_status.clone(),
        }
    }
}

#[derive(Debug, Clone, PartialEq, Eq)]
pub struct NewManualRefreshRun {
    pub started_at: String,
    pub completed_at: String,
    pub holdings_snapshot_id: Option<i64>,
    pub indices_snapshot_id: Option<i64>,
    pub portfolio_json: String,
    pub status: String,
}

#[derive(Debug, Clone, PartialEq, Eq)]
pub struct NewAiReviewContext {
    pub review_id: i64,
    pub manual_refresh_run_id: i64,
    pub research_run_id: Option<i64>,
    pub portfolio_json: String,
    pub market_json: String,
    pub news_json: String,
    pub events_json: String,
    pub intelligence_json: String,
    pub research_context_json: String,
}

#[derive(Debug, Clone, PartialEq, Eq)]
pub struct NewsArticle {
    pub id: i64,
    pub title: String,
    pub source: String,
    pub source_type: String,
    pub published_at: String,
    pub fetch_time: String,
    pub summary: String,
    pub url: String,
    pub related_security_id: Option<i64>,
    pub created_at: String,
}

#[derive(Debug, Clone, PartialEq, Eq)]
pub struct NewNewsArticle {
    pub title: String,
    pub source: String,
    pub source_type: String,
    pub published_at: String,
    pub fetch_time: String,
    pub summary: String,
    pub url: String,
    pub related_security_id: Option<i64>,
}

#[derive(Debug, Clone, PartialEq, Eq)]
pub struct NewsArticleUpdate {
    pub title: String,
    pub source: String,
    pub source_type: String,
    pub published_at: String,
    pub fetch_time: String,
    pub summary: String,
    pub url: String,
    pub related_security_id: Option<i64>,
}

#[derive(Debug, Clone, PartialEq, Eq)]
pub struct NewsArticleWithSecurity {
    pub article: NewsArticle,
    pub related_security_name: Option<String>,
    pub related_security_symbol: Option<String>,
}

#[derive(Debug, Clone, PartialEq, Eq)]
pub struct MarketSnapshotReference {
    pub id: i64,
    pub source: String,
    pub market_timestamp: String,
    pub fetched_at: String,
    pub delay_status: String,
}

#[derive(Debug, Clone, PartialEq, Eq)]
pub struct DailyReview {
    pub id: i64,
    pub review_date: String,
    pub snapshot_id: Option<i64>,
    pub portfolio_summary: String,
    pub market_summary: String,
    pub holding_summary: String,
    pub risk_summary: String,
    pub created_at: String,
}

#[derive(Debug, Clone, PartialEq, Eq)]
pub struct NewDailyReview {
    pub review_date: String,
    pub snapshot_id: Option<i64>,
    pub portfolio_summary: String,
    pub market_summary: String,
    pub holding_summary: String,
    pub risk_summary: String,
}

#[derive(Debug, Clone, PartialEq, Eq)]
pub struct AiReview {
    pub id: i64,
    pub review_id: i64,
    pub model: String,
    pub prompt_version: String,
    pub context_id: Option<i64>,
    pub provider: String,
    pub request_status: String,
    pub error_code: Option<String>,
    pub facts: String,
    pub inferences: String,
    pub risks: String,
    pub report_json: Option<String>,
    pub security_id: Option<i64>,
    pub security_name: Option<String>,
    pub security_symbol: Option<String>,
    pub research_run_id: Option<i64>,
    pub created_at: String,
}

#[derive(Debug, Clone, PartialEq, Eq)]
pub struct NewAiReview {
    pub review_id: i64,
    pub model: String,
    pub prompt_version: String,
    pub context_id: i64,
    pub provider: String,
    pub facts: String,
    pub inferences: String,
    pub risks: String,
    pub report_json: Option<String>,
    pub security_id: Option<i64>,
    pub research_run_id: Option<i64>,
}

#[derive(Debug, Clone, PartialEq, Eq)]
pub struct AiProviderSetting {
    pub provider: String,
    pub model_id: String,
    pub endpoint: String,
    pub enabled: bool,
    pub priority: i64,
}

#[derive(Debug, Clone, PartialEq, Eq)]
pub struct WatchlistItemData {
    pub watchlist_item_id: i64,
    pub security_id: i64,
    pub name: String,
    pub symbol: String,
    pub market: String,
    pub security_type: String,
    pub created_at: String,
    pub current_price: Option<String>,
    pub change_percent: Option<String>,
    pub quote_status: Option<String>,
    pub profile_status: Option<String>,
}

#[derive(Debug, Clone, PartialEq, Eq)]
pub struct EventRecord {
    pub id: i64,
    pub event_type: String,
    pub title: String,
    pub security_id: Option<i64>,
    pub event_time: String,
    pub timezone: String,
    pub source: String,
    pub source_url: Option<String>,
    pub status: String,
    pub created_at: String,
}

#[derive(Debug, Clone, PartialEq, Eq)]
pub struct NewEventRecord {
    pub event_type: String,
    pub title: String,
    pub security_id: Option<i64>,
    pub event_time: String,
    pub timezone: String,
    pub source: String,
    pub source_url: Option<String>,
    pub status: String,
}

#[derive(Debug, Clone, PartialEq, Eq)]
pub struct EventRecordUpdate {
    pub event_type: String,
    pub title: String,
    pub security_id: Option<i64>,
    pub event_time: String,
    pub timezone: String,
    pub source: String,
    pub source_url: Option<String>,
    pub status: String,
}

#[derive(Debug, Clone, PartialEq, Eq)]
pub struct EventWithSecurity {
    pub event: EventRecord,
    pub security_name: Option<String>,
    pub security_symbol: Option<String>,
    pub holding_related: bool,
}

#[derive(Debug, Clone, PartialEq, Eq)]
pub struct Holding {
    pub id: i64,
    pub cash_account_id: i64,
    pub security_id: i64,
    pub quantity: i64,
    pub available_quantity: i64,
    pub average_cost: String,
    pub cost_amount: String,
    pub position_source: String,
    pub as_of_date: Option<String>,
}

#[derive(Debug, Clone, PartialEq, Eq)]
pub struct NewHolding {
    pub cash_account_id: i64,
    pub security_id: i64,
    pub quantity: i64,
    pub available_quantity: i64,
    pub average_cost: String,
    pub cost_amount: String,
    pub position_source: String,
    pub as_of_date: Option<String>,
}

#[derive(Debug, Clone, PartialEq, Eq)]
pub struct HoldingUpdate {
    pub quantity: i64,
    pub available_quantity: i64,
    pub average_cost: String,
    pub cost_amount: String,
    pub as_of_date: Option<String>,
}

/// What the portfolio views read: raw persisted values; all parsing and calculation happen in
/// the portfolio and market services.
#[derive(Debug, Clone, PartialEq, Eq)]
pub struct PortfolioHoldingData {
    pub holding_id: i64,
    pub security_id: i64,
    pub name: String,
    pub symbol: String,
    pub market: String,
    pub security_type: String,
    pub trade_rule: String,
    pub quantity: i64,
    pub available_quantity: i64,
    pub average_cost: String,
    pub cost_amount: String,
    pub current_price: Option<String>,
    pub previous_close: Option<String>,
    pub change_percent: Option<String>,
    pub quote_status: Option<String>,
    pub transaction_status: Option<String>,
}

#[derive(Debug, Clone, PartialEq, Eq)]
pub struct Transaction {
    pub id: i64,
    pub cash_account_id: i64,
    pub security_id: i64,
    pub side: String,
    pub status: String,
    pub record_source: String,
    pub trade_date: String,
    pub quantity: i64,
    pub price: String,
    pub commission: String,
    pub stamp_tax: String,
    pub transfer_fee: String,
    pub other_fee: String,
    pub minimum_commission: String,
    pub external_reference: Option<String>,
    pub import_batch_id: Option<String>,
    pub note: Option<String>,
}

#[derive(Debug, Clone, PartialEq, Eq)]
pub struct NewTransaction {
    pub cash_account_id: i64,
    pub security_id: i64,
    pub side: String,
    pub status: String,
    pub record_source: String,
    pub trade_date: String,
    pub quantity: i64,
    pub price: String,
    pub commission: String,
    pub stamp_tax: String,
    pub transfer_fee: String,
    pub other_fee: String,
    pub minimum_commission: String,
    pub external_reference: Option<String>,
    pub import_batch_id: Option<String>,
    pub note: Option<String>,
}

/// An intelligence item to store. `dedup_key` identifies one item of one source, `topic_key`
/// groups items about the same matter.
#[derive(Debug, Clone, PartialEq, Eq)]
pub struct NewIntelligenceItem {
    pub title: String,
    pub summary: String,
    pub source: String,
    pub source_type: String,
    pub source_url: Option<String>,
    pub published_at: String,
    pub fetched_at: String,
    pub credibility_level: String,
    pub intelligence_type: String,
    pub dedup_key: String,
    pub topic_key: String,
    pub importance_score: i64,
    pub heat_score: i64,
    pub status: String,
}

#[derive(Debug, PartialEq, Eq)]
pub struct IntelligenceItem {
    pub id: i64,
    pub title: String,
    pub summary: String,
    pub source: String,
    pub source_type: String,
    pub source_url: Option<String>,
    pub published_at: String,
    pub fetched_at: String,
    pub credibility_level: String,
    pub intelligence_type: String,
    pub dedup_key: String,
    pub topic_key: String,
    pub importance_score: i64,
    pub heat_score: i64,
    pub status: String,
}

impl Clone for IntelligenceItem {
    fn clone(&self) -> (r: Self)
        ensures
            r == *self,
    {
        IntelligenceItem {
            id: self.id,
            title: self.title.clone(),
            summary: self.summary.clone(),
            source: self.source.clone(),
            source_type: self.source_type.clone(),
            source_url: self.source_url.clone(),
            published_at: self.published_at.clone(),
            fetched_at: self.fetched_at.clone(),
            credibility_level: self.credibility_level.clone(),
            intelligence_type: self.intelligence_type.clone(),
            dedup_key: self.dedup_key.clone(),
            topic_key: self.topic_key.clone(),
            importance_score: self.importance_score,
            heat_score: self.heat_score,
            status: self.status.clone(),
        }
    }
}

/// An intelligence item together with one security it is linked to.
#[derive(Debug, PartialEq, Eq)]
pub struct IntelligenceItemWithSecurity {
    pub security_id: i64,
    pub security_name: String,
    pub security_symbol: String,
    pub item: IntelligenceItem,
}

impl Clone for IntelligenceItemWithSecurity {
    fn clone(&self) -> (r: Self)
        ensures
            r == *self,
    {
        IntelligenceItemWithSecurity {
            security_id: self.security_id,
            security_name: self.security_name.clone(),
            security_symbol: self.security_symbol.clone(),
            item: self.item.clone(),
        }
    }
}

/// The stored company profile of a security.
#[derive(Debug, Clone, PartialEq, Eq)]
pub struct SecurityProfile {
    pub security_id: i64,
    pub profile_status: String,
    pub company_description: Option<String>,
    pub industry: Option<String>,
    pub sector: Option<String>,
    pub tags_json: String,
    pub business_model: Option<String>,
    pub historical_characteristics: Option<String>,
    pub source: Option<String>,
    pub source_url: Option<String>,
    pub fetched_at: Option<String>,
    pub updated_at: String,
}

} // verus!
