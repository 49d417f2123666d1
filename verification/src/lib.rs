//! Price-tracking core: selector dispatch, download-outcome checking,
//! HTML-to-number extraction, retry/backoff and fairness policy, batch
//! classification and the notification trigger.

pub mod config;
pub mod download;
pub mod email;
pub mod extract;
pub mod models;
pub mod numeric;
pub mod pattern;
pub mod price_scraper;
pub mod retry;
pub mod tasks;
pub mod urls;
