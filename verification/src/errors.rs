//! The error kinds that a processing call can surface.

use vstd::prelude::*;

verus! {

/// Everything that can go wrong while processing one file.
///
/// A failed call writes no checkpoint, so a retry reprocesses the same span
/// of the source file rather than skipping data.
#[derive(Clone, Copy, Debug, PartialEq, Eq, Structural)]
pub enum ISUProcessorError {
    /// The path has no parent directory, or the parent has no name.
    BlankPath,
    /// A filesystem operation failed.
    IOError,
    /// The header preamble or an event line is malformed.
    FormatError,
    /// Delimited-record parsing or re-encoding failed.
    CSVError,
    /// The parent directory name does not match the run-time pattern.
    TimeParsingError,
    /// The checkpoint store could not be read or written.
    StoreError,
    /// No downstream channel was registered for the notification.
    NoChannelError,
    /// An offset or index exceeds its representable range.
    IntegerConversionError,
}

} // verus!
