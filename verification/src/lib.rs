//! Core rules of an F1 fantasy league: scoring, pricing, team and contest
//! validation, session scheduling and the small text and time utilities
//! that the web service builds on.

pub mod auth;
pub mod clock;
pub mod fantasy;
pub mod pricing;
pub mod qualifying;
pub mod race_utils;
pub mod results;
pub mod ranking;
pub mod scoring;
pub mod sessions;
pub mod telemetry;
pub mod text;
pub mod worker;
