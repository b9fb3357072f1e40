//! The rules of an opinion market, verified: prices, the ledger,
//! settlement, scoring, moderation, the run-time configuration catalog and the
//! decisions that every money-moving operation takes.

pub mod amm;
pub mod clock;
pub mod demo;
pub mod digest;
pub mod drafting;
pub mod error;
pub mod fee_policy;
pub mod identity;
pub mod integrity;
pub mod json;
pub mod ledger;
pub mod market;
pub mod mentions;
pub mod model;
pub mod moderation;
pub mod money;
pub mod ops;
pub mod place_trade;
pub mod preview_trade;
pub mod pricing;
pub mod ranking;
pub mod reputation;
pub mod resolution;
pub mod scoring;
pub mod seed_market;
pub mod text;
pub mod unicode;
pub mod video;
