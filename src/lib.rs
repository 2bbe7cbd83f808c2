//! Control-plane core for GPU management: fan-curve control, clock tables
//! across vendors, and automatic profile switching.
use vstd::prelude::*;

pub mod fan;
pub mod profiles;
pub mod clocks;
pub mod schema;
pub mod cli;
pub mod info;

verus! {

/// Errors of the control core.
#[derive(Clone, Copy, Debug, PartialEq, Eq, Structural)]
pub enum ControlError {
    /// A table or edit of one vendor was used with a device of another.
    MismatchedVendor,
    /// A requested value lies outside the advertised bounds.
    OutOfRange,
    /// A fan curve with unsorted keys or a duty outside `[0, 1]`.
    InvalidCurve,
    /// The hardware port reported a failure.
    HardwareWriteFailed,
}

} // verus!
