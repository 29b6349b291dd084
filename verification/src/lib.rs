//! Verified core of a foreground task cleaner: whitelist tiers, locale
//! handling, configuration editing and the tiered termination engine.

pub mod app;
pub mod cli;
pub mod i18n;
pub mod interactive;
pub mod preview;
pub mod signal;
pub mod text;
pub mod whitelist;
