//! Ingestion and windowing core of a small local metrics collector.
//!
//! Producers stream line-protocol statements; each statement becomes an
//! owned record, and records are buffered in a time-windowed series that a
//! single consumer drains, trims and queries.
pub mod record;
pub mod series;
pub mod convert;
pub mod store;
pub mod card;

pub use record::{MeasurementValue, Numeric, OwnedParsedLine, RecordModel, ValueModel};
pub use series::{TimeSeries, TimeSeriesDatum};
pub use convert::{parse_records, records_from_statements, StatementModel, WireLine};
pub use store::{window_cutoff_nanos, MetricStore, WINDOW_LENGTH_NANOS};
pub use card::GraphCard;
