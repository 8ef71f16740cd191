//! The failures that callers of either backend see.

use vstd::prelude::*;
use vstd::std_specs::convert::FromSpecImpl;
use crate::sysfs::{IoFailure, SysfsError, SysfsErrorKind};

verus! {

/// Why a query failed.
#[derive(Debug, PartialEq, Eq)]
pub enum Error {
    /// The device tree could not be listed.
    Io(IoFailure),
    /// An attribute of a device could not be had.
    Attribute(SysfsError),
    /// More descriptor bytes were asked for than one request can carry.
    LengthTooLarge,
    /// The device has no parent hub.
    NoParentHub,
    /// The parent hub could not be opened.
    HubUnavailable,
    /// The device has no port number on its hub.
    NotConnected,
    /// The hub answered a descriptor request with a general failure, as it
    /// does where the device is suspended.
    DeviceSuspended,
    /// The system refused a request, with this status code.
    Os(u32),
}

/// The classes of failure.
#[derive(Clone, Copy, Debug, PartialEq, Eq, Structural)]
pub enum ErrorKind {
    /// Something could not be read or opened.
    Io,
    /// A text is not of the grammar that was asked for.
    Parse,
    /// A request was not made because its arguments do not allow it.
    InvalidInput,
    /// Something that a query relies on is not there.
    Structure,
    /// The system answered a request with a failure status.
    Status,
}

impl Error {
    /// The class of the failure.
    pub open spec fn kind_spec(self) -> ErrorKind {
        match self {
            Error::Io(_) => ErrorKind::Io,
            Error::Attribute(SysfsError(_, SysfsErrorKind::Io(_))) => ErrorKind::Io,
            Error::Attribute(SysfsError(_, SysfsErrorKind::Parse(_))) => ErrorKind::Parse,
            Error::LengthTooLarge => ErrorKind::InvalidInput,
            Error::NoParentHub => ErrorKind::Structure,
            Error::HubUnavailable => ErrorKind::Io,
            Error::NotConnected => ErrorKind::Structure,
            Error::DeviceSuspended => ErrorKind::Status,
            Error::Os(_) => ErrorKind::Status,
        }
    }

    /// The class of the failure.
    pub fn kind(&self) -> (r: ErrorKind)
        ensures
            r == self.kind_spec(),
    {
        match self {
            Error::Io(_) => ErrorKind::Io,
            Error::Attribute(SysfsError(_, SysfsErrorKind::Io(_))) => ErrorKind::Io,
            Error::Attribute(SysfsError(_, SysfsErrorKind::Parse(_))) => ErrorKind::Parse,
            Error::LengthTooLarge => ErrorKind::InvalidInput,
            Error::NoParentHub => ErrorKind::Structure,
            Error::HubUnavailable => ErrorKind::Io,
            Error::NotConnected => ErrorKind::Structure,
            Error::DeviceSuspended => ErrorKind::Status,
            Error::Os(_) => ErrorKind::Status,
        }
    }
}

impl From<SysfsError> for Error {
    fn from(value: SysfsError) -> (r: Error) {
        Error::Attribute(value)
    }
}

impl FromSpecImpl<SysfsError> for Error {
    open spec fn obeys_from_spec() -> bool {
        true
    }

    open spec fn from_spec(value: SysfsError) -> Error {
        Error::Attribute(value)
    }
}

} // verus!
