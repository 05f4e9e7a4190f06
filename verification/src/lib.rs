//! Local-state core of a desktop trading companion: durable JSON-collection
//! stores for alerts, recurring-purchase schedules, exchange credentials and a
//! paper wallet; pure decision logic for a background price poller; and the
//! decision logic of a supervisor for one external daemon process.

pub mod alerts;
pub mod config;
pub mod daemon;
pub mod dca;
pub mod ext;
pub mod json;
pub mod poll;
pub mod portfolio;
pub mod prices;
pub mod store;
pub mod text;

pub use config::mask_key;
pub use store::StoreError;
