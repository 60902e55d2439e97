//! Decisions and image transforms of the detection pipeline: alternative
//! grayscale views for decode retries, the routing and budgets of decode
//! attempts, the schedules of the detection passes, and decoding with quirc.

pub mod grayscale_views;
pub mod routing;
pub mod proposal_views;
pub mod hypothesis_search;
pub mod symbol_decode;
pub mod decode_budget;
pub mod exposure;
pub mod pass_schedule;
pub mod crop_decode;
pub mod pool_schedule;
pub mod strategy_schedule;
pub mod ranked_decode_plan;
