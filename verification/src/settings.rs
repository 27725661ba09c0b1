//! Local system configuration and the first-run state.
//!
//! Secrets stay outside the database: the Tushare token is only ever reported as configured or
//! not, never returned. The first-run state is a single completion flag.
use vstd::prelude::*;

use crate::decimal::{decimal_from_str, decimal_string, decimal_to_string, parse_decimal};
use crate::records::{CashAccount, MarketSourceStatus};
use crate::text::{concat2, concat3, is_blank, str_eq, trim, trim_str};
use crate::time::UtcTime;

verus! {

#[derive(Debug, Clone, PartialEq, Eq)]
pub struct SettingsStatusView {
    pub tushare_status: String,
    pub database_status: String,
    pub market_connection_status: String,
    pub last_sync_at: Option<String>,
}

#[derive(Debug, Clone, PartialEq, Eq)]
pub struct CashAccountView {
    pub id: i64,
    pub name: String,
    pub currency: String,
    pub amount: String,
}

#[derive(Debug, Clone)]
pub struct CreateCashAccountInput {
    pub currency: String,
    pub amount: String,
}

#[derive(Debug, Clone, PartialEq, Eq)]
pub struct BackupView {
    pub file_name: String,
}

#[derive(Debug, PartialEq, Eq)]
pub enum SettingsError {
    Database(String),
    Validation(&'static str),
    AppPath(String),
}

impl SettingsError {
    /// The text the error displays.
    pub fn message(&self) -> (r: String)
        ensures
            r@ == match *self {
                SettingsError::Database(m) => "database error: "@ + m@,
                SettingsError::Validation(m) => m@,
                SettingsError::AppPath(m) => "application path error: "@ + m@,
            },
    {
        match self {
            SettingsError::Database(m) => concat2("database error: ", m.as_str()),
            SettingsError::Validation(m) => String::from_str(m),
            SettingsError::AppPath(m) => concat2("application path error: ", m.as_str()),
        }
    }
}

/// The market connection as the latest source status shows it, and the last sync time only for
/// an active source.
pub open spec fn connection_of(latest: Option<MarketSourceStatus>) -> (Seq<char>, Option<String>) {
    match latest {
        Some(s) => if s.status@ == "ACTIVE"@ {
            ("已连接"@, s.last_success_at)
        } else if s.status@ == "NO_DATA"@ {
            ("暂无数据"@, None)
        } else {
            ("未确认"@, None)
        },
        None => ("未确认"@, None),
    }
}

/// A token counts as configured when it is present and not blank.
pub open spec fn token_configured(token: Option<Seq<char>>) -> bool {
    match token {
        Some(t) => trim(t).len() > 0,
        None => false,
    }
}

/// Why a cash account input is refused: only CNY accounts, with a non-negative decimal amount.
pub open spec fn cash_problem(input: CreateCashAccountInput) -> Option<SettingsError> {
    if input.currency@ != "CNY"@ {
        Some(SettingsError::Validation("V1.0 仅支持人民币现金账户"))
    } else {
        match decimal_from_str(trim(input.amount@)) {
            None => Some(SettingsError::Validation("现金金额格式无效")),
            Some(d) => if d.negative {
                Some(SettingsError::Validation("现金金额不能小于 0"))
            } else {
                None
            },
        }
    }
}

/// What `DateTime::<Utc>::format("%Y%m%dT%H%M%S%.3fZ")` writes for the instant.
pub uninterp spec fn compact_time_text(t: UtcTime) -> Seq<char>;

/// `DateTime::<Utc>::format("%Y%m%dT%H%M%S%.3fZ")` of the instant with these parts; `None` when
/// `chrono` holds no date-time with them.
#[verifier::external_body]
fn format_compact(t: UtcTime) -> (r: Option<String>)
    ensures
        r is Some <==> t.valid(),
        r matches Some(s) ==> s@ == compact_time_text(t),
{
    chrono::DateTime::<chrono::Utc>::from_timestamp(t.seconds, t.nanos).map(
        |d| d.format("%Y%m%dT%H%M%S%.3fZ").to_string(),
    )
}

/// The settings key of the first-run completion flag.
pub const INITIALIZATION_COMPLETED_KEY: &'static str = "initialization_completed";

#[derive(Debug, Clone, PartialEq, Eq)]
pub struct InitializationStatusView {
    pub completed: bool,
}

pub struct InitializationService;

impl InitializationService {
    /// Setup is complete exactly when the stored flag is `true`.
    pub fn status_from(stored: Option<String>) -> (r: InitializationStatusView)
        ensures
            r.completed == (stored is Some && stored->Some_0@ == "true"@),
    {
        InitializationStatusView {
            completed: match &stored {
                Some(v) => str_eq(v.as_str(), "true"),
                None => false,
            },
        }
    }
}

pub struct SettingsService;

impl SettingsService {
    /// The configuration status: the token only as configured or not, the database as normal,
    /// and the market connection from the latest source status.
    pub fn status_view(latest_source: Option<MarketSourceStatus>, token: Option<&str>) -> (r:
        SettingsStatusView)
        ensures
            r.tushare_status@ == (if token_configured(
                match token {
                    Some(t) => Some(t@),
                    None => None,
                },
            ) {
                "已配置"@
            } else {
                "未配置"@
            }),
            r.database_status@ == "正常"@,
            r.market_connection_status@ == connection_of(latest_source).0,
            r.last_sync_at == connection_of(latest_source).1,
    {
        let (market_connection_status, last_sync_at) = match latest_source {
            Some(s) => if str_eq(s.status.as_str(), "ACTIVE") {
                (String::from_str("已连接"), s.last_success_at)
            } else if str_eq(s.status.as_str(), "NO_DATA") {
                (String::from_str("暂无数据"), None)
            } else {
                (String::from_str("未确认"), None)
            },
            None => (String::from_str("未确认"), None),
        };
        let configured = match token {
            Some(t) => !is_blank(t),
            None => false,
        };
        SettingsStatusView {
            tushare_status: if configured {
                String::from_str("已配置")
            } else {
                String::from_str("未配置")
            },
            database_status: String::from_str("正常"),
            market_connection_status,
            last_sync_at,
        }
    }

    /// The view of a cash account: its available amount.
    pub fn cash_account_view(account: CashAccount) -> (r: CashAccountView)
        ensures
            r.id == account.id,
            r.name == account.name,
            r.currency == account.currency,
            r.amount == account.available_to_buy,
    {
        CashAccountView {
            id: account.id,
            name: account.name,
            currency: account.currency,
            amount: account.available_to_buy,
        }
    }

    /// The amount a new CNY cash account stores, as the decimal's text.
    pub fn cash_amount(input: &CreateCashAccountInput) -> (r: Result<String, SettingsError>)
        ensures
            match cash_problem(*input) {
                Some(e) => r == Err::<String, SettingsError>(e),
                None => r matches Ok(s) && s@ == decimal_to_string(
                    decimal_from_str(trim(input.amount@))->Some_0,
                ),
            },
    {
        if !str_eq(input.currency.as_str(), "CNY") {
            return Err(SettingsError::Validation("V1.0 仅支持人民币现金账户"));
        }
        let t = trim_str(input.amount.as_str());
        let amount = match parse_decimal(t.as_str()) {
            Some(d) => d,
            None => return Err(SettingsError::Validation("现金金额格式无效")),
        };
        if amount.is_sign_negative() {
            return Err(SettingsError::Validation("现金金额不能小于 0"));
        }
        Ok(decimal_string(amount))
    }

    /// The backup file name for the instant `now`.
    pub fn backup_file_name(now: UtcTime) -> (r: Option<String>)
        ensures
            r is Some <==> now.valid(),
            r matches Some(s) ==> s@ == "astock-ai-workbench-"@ + compact_time_text(now) + ".sqlite3"@,
    {
        match format_compact(now) {
            Some(t) => Some(concat3("astock-ai-workbench-", t.as_str(), ".sqlite3")),
            None => None,
        }
    }
}

} // verus!
