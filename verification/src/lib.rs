//! Decoding and reporting of the telemetry that macOS analyticsd records.
pub mod app_profile;
pub mod category;
pub mod category_laws;
pub mod decode;
pub mod extract;
pub mod fields;
pub mod filter;
pub mod json;
pub mod output;
pub mod output_detail;
pub mod output_summary;
pub mod profile_laws;
pub mod schema;
pub mod sort;
pub mod summary;
pub mod text;

pub use decode::list_events;
pub use summary::{app_profiles_for, summary};
