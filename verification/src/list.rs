//! Classifying one run of the detection utility.

use vstd::prelude::*;
use vstd::utf8::{decode_utf8, valid_utf8};

use crate::collection::DeviceCollection;
use crate::device::DeviceView;
use crate::error::DeviceListError;

verus! {

/// The two streams captured from one run of the utility.
#[derive(Debug)]
pub struct CapturedOutput {
    pub stdout: Vec<u8>,
    pub stderr: Vec<u8>,
}

/// How one run of the utility ended: an exit reporting success, or a
/// non-zero exit.  Output is captured either way.
pub enum Invocation {
    Completed(CapturedOutput),
    Failed(CapturedOutput),
}

/// Where a UTF-8 decode of captured output stopped: the length of the
/// longest prefix that decoded.
#[derive(Debug)]
pub struct Utf8Failure {
    pub valid_up_to: usize,
}

/// What the caller must do after a classified run.
pub enum Detection {
    /// The run produced text: split it into events and hand them to
    /// [`crate::parse::parse_device_list`].
    ParseEvents(String),
    /// The run reported no devices: this empty collection is the result.
    NoDevices(DeviceCollection),
}

/// Relies on `std::str::from_utf8`: it returns `Ok` exactly on valid
/// UTF-8 input, the decoded text reads the input bytes, and on failure
/// `Utf8Error::valid_up_to` bounds a prefix that was verified valid.
#[verifier::external_body]
fn decode_stdout(bytes: &Vec<u8>) -> (r: Result<String, Utf8Failure>)
    ensures
        match r {
            Ok(text) => valid_utf8(bytes@) && text@ == decode_utf8(bytes@),
            Err(failure) => !valid_utf8(bytes@) && failure.valid_up_to <= bytes@.len()
                && valid_utf8(bytes@.subrange(0, failure.valid_up_to as int)),
        },
{
    match std::str::from_utf8(bytes.as_slice()) {
        Ok(text) => Ok(text.to_owned()),
        Err(e) => Err(Utf8Failure { valid_up_to: e.valid_up_to() }),
    }
}

/// Classifies one run of the detection utility.
///
/// A completed run has its standard-out decoded: valid UTF-8 comes back as
/// text to split into events, anything else fails with `InvalidUtf8`.  A
/// non-zero exit that captured nothing on either stream is the utility's
/// documented shape for "no devices connected" and yields an empty
/// collection; a non-zero exit with any captured output fails with
/// `DetectionFailed` carrying both streams.
pub fn device_list(outcome: Invocation) -> (r: Result<Detection, DeviceListError>)
    ensures
        match outcome {
            Invocation::Completed(output) => {
                if valid_utf8(output.stdout@) {
                    r matches Ok(d) && (d matches Detection::ParseEvents(text) && text@
                        == decode_utf8(output.stdout@))
                } else {
                    r matches Err(e) && (e matches DeviceListError::InvalidUtf8(f)
                        && f.valid_up_to <= output.stdout@.len() && valid_utf8(
                        output.stdout@.subrange(0, f.valid_up_to as int),
                    ))
                }
            },
            Invocation::Failed(output) => {
                if output.stdout@.len() == 0 && output.stderr@.len() == 0 {
                    r matches Ok(d) && (d matches Detection::NoDevices(c) && c@ == Seq::<
                        DeviceView,
                    >::empty())
                } else {
                    r matches Err(e) && (e matches DeviceListError::DetectionFailed(diag)
                        && diag.stdout@ == output.stdout@ && diag.stderr@ == output.stderr@)
                }
            },
        },
{
    match outcome {
        Invocation::Completed(output) => {
            match decode_stdout(&output.stdout) {
                Ok(text) => Ok(Detection::ParseEvents(text)),
                Err(failure) => Err(DeviceListError::InvalidUtf8(failure)),
            }
        },
        Invocation::Failed(output) => {
            if output.stdout.len() == 0 && output.stderr.len() == 0 {
                Ok(Detection::NoDevices(DeviceCollection::new()))
            } else {
                Err(DeviceListError::DetectionFailed(output))
            }
        },
    }
}

} // verus!
