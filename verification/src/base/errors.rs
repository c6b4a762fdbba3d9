//! Error categories and the library's error and result types.
use vstd::prelude::*;

verus! {

/// High-level category for a [`VastError`].
#[derive(Debug, Clone, Copy, PartialEq, Eq, Structural)]
pub enum VastErrorType {
    /// Error returned by a native camera SDK or driver implementation.
    CameraDriverError,
    /// Error caused by invalid camera state or camera-level operation failure.
    CameraError,
    /// Error while reading or writing files.
    FileError,
    /// Generic connection or worker-channel error.
    ConnectionError,
    /// Invalid input or configuration.
    InvalidInput,
    /// Connection was refused serial device.
    SerialConnectionRefused,
    /// Generic serial error.
    SerialGenericError,
    /// Serial write error.
    SerialWriteError,
    /// Serial read error.
    SerialReadError,
    /// Connection was refused by a TCP endpoint.
    TcpConnectionRefused,
    /// Generic TCP connection error.
    TcpGenericError,
    /// TCP write error.
    TcpWriteError,
    /// TCP read error.
    TcpReadError,
}

/// Library error containing a category and human-readable message.
#[derive(Debug, Clone, PartialEq)]
pub struct VastError {
    /// Broad error category.
    pub error_type: VastErrorType,
    /// Error details suitable for logging or display.
    pub message: String,
}

impl VastError {
    /// Builds an error of the given category carrying `message`.
    pub fn new(error_type: VastErrorType, message: String) -> (res: Self)
        ensures
            res.error_type == error_type,
            res.message@ == message@,
    {
        VastError { error_type, message }
    }
}

/// Result type used throughout the library.
pub type VastResult<T> = Result<T, VastError>;

} // verus!
