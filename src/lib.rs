//! Firewall log shipping: the kernel log grammar, rule filtering, geolocation
//! merging, rendering, batching and the push wire format.

pub mod batch;
pub mod config;
pub mod entry;
pub mod fields;
pub mod geo;
pub mod parser;
pub mod pipeline;
pub mod tail;
pub mod time;
pub mod wire;

pub use batch::BatchAccumulator;
pub use config::{default_log_file, Args, Config, Firewall, GeoIp, Loki};
pub use entry::{decimal_string, parse_port, EntryError, FirewallEntry};
pub use fields::Fields;
pub use geo::{enrich, pick_name, AsnRecord, CityRecord, CountryRecord, GeoInfo};
pub use parser::{parse_date_time, parse_hostname, parse_log_line, Log};
pub use pipeline::{push_succeeded, Shipper, Submitted};
pub use tail::{after_notice, after_read, ModifyType, TailAction};
pub use time::LogTime;
pub use wire::{create_push_request, encode_push_request, PushError};
