//! A typed client for an activity-tracking service, with filters over the
//! events it returns.

pub mod client;
pub mod filter;
pub mod json;
pub mod model;
pub mod pattern;

pub use client::{AwClient, ClientError, Method, Payload, Request, check_status, parse_integer, read_event_count};
pub use filter::{FilterError, MissingKey, filter_keyvals, filter_keyvals_regex, filter_keyvals_with};
pub use json::{JsonValue, json_equal};
pub use model::{Bucket, BucketMetadata, Event, Info};
pub use pattern::{PatternError, ValuePattern};
