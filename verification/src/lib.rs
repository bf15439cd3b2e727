//! Discovery of connected iOS devices through the `ios-deploy` utility.
//!
//! The library is the verified core of a small detection tool: it classifies
//! the outcome of one run of the external utility, decodes its captured
//! standard-out, and maps the device announcements found there to a
//! deduplicated, stably ordered collection of device records.  Running the
//! process and splitting its output into structured events are left to the
//! caller, which hands the results back as plain values.

pub mod collection;
pub mod device;
pub mod error;
pub mod laws;
pub mod list;
pub mod parse;

pub use collection::DeviceCollection;
pub use device::{Device, DeviceInfo, Event, Target};
pub use error::{DeviceListError, Report};
pub use list::{device_list, CapturedOutput, Detection, Invocation, Utf8Failure};
pub use parse::parse_device_list;
