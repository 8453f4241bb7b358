//! Decoding the tabular responses of a time-series store, and the model of a
//! scrolling chart that shows them.

pub mod config;
pub mod decode;
pub mod decode_laws;
pub mod error;
pub mod labels;
pub mod numeric;
pub mod record;
pub mod render_loop;
pub mod table;
pub mod window;
pub mod window_laws;

pub use config::Config;
pub use decode::{decode, decode_rows};
pub use error::{DecodeError, FaultKind, UpwardError};
pub use record::{LendableTable, ResponseTables};
pub use table::Row;
pub use window::{ChartModel, WindowError};
