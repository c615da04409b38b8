//! Daily and weekly activity schedules: which table row is current at a given
//! instant, how a failed fetch is retried, how the row is found in a page and
//! how its cells become text.

pub mod calendar;
pub mod cell;
pub mod driver;
pub mod error;
pub mod fetch;
pub mod links;
pub mod markup;
pub mod render;
pub mod report;
pub mod schedule;
pub mod startup;
pub mod table;
pub mod text;

pub use crate::calendar::Instant;
pub use crate::cell::convert_link;
pub use crate::cell::strip_link;
pub use crate::error::ExtractError;
pub use crate::links::markdown_to_html_links;
pub use crate::links::strip_markdown_links;
pub use crate::render::format_output;
pub use crate::render::OutputFormat;
pub use crate::report::get_daily_data;
pub use crate::report::get_weekly_data;
pub use crate::report::DailyData;
pub use crate::report::WeeklyData;
