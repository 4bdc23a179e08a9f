//! Duration calculator: sums time-of-day ranges such as `08:25-14:50` and
//! additive short-form durations such as `3h14m+6h45m`.

pub mod additive;
pub mod clock;
pub mod dispatcher;
pub mod error;
pub mod model;
pub mod number;
pub mod point_parser;
pub mod range;
pub mod render;
pub mod text;
pub mod time_period;
pub mod time_point;

pub use additive::{calculate_time_period_additions, extract_time_period_from_string};
pub use clock::{current_time, reading_to_the_minute};
pub use dispatcher::{calculate_duration, calculate_duration_at, unexpected_units};
pub use error::RangeError;
pub use point_parser::{extract_tp_from_string, extract_tp_from_string_at};
pub use range::{calculate_time_period_from_tp_pair, calculate_time_period_from_tp_pair_at};
pub use render::total_line;
pub use time_period::TimePeriod;
pub use time_point::TimePoint;
