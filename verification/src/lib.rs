//! Verified domain logic of a local A-share research and daily-review workbench.
use vstd::prelude::*;

pub mod ai;
pub mod ai_report;
pub mod ai_response;
pub mod dashboard;
pub mod decimal;
pub mod disclosure;
pub mod events;
pub mod intelligence;
pub mod json;
pub mod market;
pub mod market_refresh;
pub mod news;
pub mod portfolio;
pub mod portfolio_ui;
pub mod providers;
pub mod records;
pub mod research;
pub mod research_context;
pub mod review;
pub mod secure_storage;
pub mod security_review;
pub mod settings;
pub mod text;
pub mod time;

verus! {
} // verus!
