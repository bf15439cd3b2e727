//! The closed set of failures a detection call can surface.

use vstd::prelude::*;
use vstd::string::StringExecFns;

use crate::list::{CapturedOutput, Utf8Failure};

verus! {

/// Why a detection call failed.  Every variant is terminal for the call:
/// no partial collection is ever returned beside one of these.
#[derive(Debug)]
pub enum DeviceListError {
    /// The utility exited non-zero with diagnostic output; carries the
    /// captured streams for display.
    DetectionFailed(CapturedOutput),
    /// Captured standard-out was not valid UTF-8; carries where decoding
    /// stopped.
    InvalidUtf8(Utf8Failure),
    /// An announcement named an architecture absent from the platform
    /// registry; carries the offending string.
    ArchInvalid(String),
}

/// A rendered error: a headline shared by every failure kind, and a
/// detail line specific to the kind.
pub struct Report {
    pub msg: String,
    pub details: String,
}

impl DeviceListError {
    /// The detail line that [`DeviceListError::report`] renders.
    pub open spec fn spec_details(&self) -> Seq<char> {
        match self {
            DeviceListError::DetectionFailed(_) => {
                "Failed to request device list from `ios-deploy`"@
            },
            DeviceListError::InvalidUtf8(_) => "Device info contained invalid UTF-8"@,
            DeviceListError::ArchInvalid(arch) => {
                "\""@ + arch@ + "\" isn't a valid target arch."@
            },
        }
    }

    /// Renders the error for the user: one fixed headline, one detail
    /// line per failure kind.
    pub fn report(&self) -> (r: Report)
        ensures
            r.msg@ == "Failed to detect connected iOS devices"@,
            r.details@ == self.spec_details(),
    {
        let msg = String::from_str("Failed to detect connected iOS devices");
        let details = match self {
            DeviceListError::DetectionFailed(_) => {
                String::from_str("Failed to request device list from `ios-deploy`")
            },
            DeviceListError::InvalidUtf8(_) => {
                String::from_str("Device info contained invalid UTF-8")
            },
            DeviceListError::ArchInvalid(arch) => {
                String::from_str("\"").concat(arch.as_str()).concat(
                    "\" isn't a valid target arch.",
                )
            },
        };
        Report { msg, details }
    }
}

} // verus!
