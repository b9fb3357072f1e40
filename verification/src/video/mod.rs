//! Rendered artifacts: leased jobs, their names, and the share cards of
//! resolved markets.

pub mod artifacts;
pub mod attach_ready;
pub mod jobs;
pub mod share_card;
pub mod worker;
