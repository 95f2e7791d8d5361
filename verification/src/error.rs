use vstd::prelude::*;

verus! {

/// A platform error code as carried by the OS layer (an HRESULT value).
#[derive(Clone, Copy, Debug, PartialEq, Eq, Structural)]
pub struct WinError {
    pub code: i32,
}

/// Internal errors, one per failing step of a snapshot.
#[derive(Clone, Debug)]
pub enum SysError {
    EnumDisplayMonitorsFailed(WinError),
    GetDisplayConfigBufferSizesFailed(WinError),
    QueryDisplayConfigFailed(WinError),
    DisplayConfigGetDeviceInfoFailed(WinError),
    GetMonitorInfoFailed(WinError),
    GetPhysicalMonitorsFailed(WinError),
    EnumerationMismatch,
    DeviceInfoMissing,
    OpeningMonitorDeviceInterfaceHandleFailed { device_name: String, source: WinError },
}

/// Mathematical model of `SysError`: the diagnostic name is a character sequence.
pub ghost enum SysErrorV {
    EnumDisplayMonitorsFailed(WinError),
    GetDisplayConfigBufferSizesFailed(WinError),
    QueryDisplayConfigFailed(WinError),
    DisplayConfigGetDeviceInfoFailed(WinError),
    GetMonitorInfoFailed(WinError),
    GetPhysicalMonitorsFailed(WinError),
    EnumerationMismatch,
    DeviceInfoMissing,
    OpeningMonitorDeviceInterfaceHandleFailed { device_name: Seq<char>, source: WinError },
}

impl View for SysError {
    type V = SysErrorV;

    open spec fn view(&self) -> SysErrorV {
        match self {
            SysError::EnumDisplayMonitorsFailed(e) => SysErrorV::EnumDisplayMonitorsFailed(*e),
            SysError::GetDisplayConfigBufferSizesFailed(e) => SysErrorV::GetDisplayConfigBufferSizesFailed(*e),
            SysError::QueryDisplayConfigFailed(e) => SysErrorV::QueryDisplayConfigFailed(*e),
            SysError::DisplayConfigGetDeviceInfoFailed(e) => SysErrorV::DisplayConfigGetDeviceInfoFailed(*e),
            SysError::GetMonitorInfoFailed(e) => SysErrorV::GetMonitorInfoFailed(*e),
            SysError::GetPhysicalMonitorsFailed(e) => SysErrorV::GetPhysicalMonitorsFailed(*e),
            SysError::EnumerationMismatch => SysErrorV::EnumerationMismatch,
            SysError::DeviceInfoMissing => SysErrorV::DeviceInfoMissing,
            SysError::OpeningMonitorDeviceInterfaceHandleFailed { device_name, source } => {
                SysErrorV::OpeningMonitorDeviceInterfaceHandleFailed {
                    device_name: device_name@,
                    source: *source,
                }
            },
        }
    }
}

/// The public error: a single umbrella kind wrapping the internal cause.
#[derive(Clone, Debug)]
#[non_exhaustive]
pub enum Error {
    ListingDevicesFailed(SysError),
}

/// Mathematical model of `Error`.
pub ghost enum ErrorV {
    ListingDevicesFailed(SysErrorV),
}

impl View for Error {
    type V = ErrorV;

    open spec fn view(&self) -> ErrorV {
        match self {
            Error::ListingDevicesFailed(e) => ErrorV::ListingDevicesFailed(e@),
        }
    }
}

impl From<SysError> for Error {
    fn from(e: SysError) -> (r: Self) {
        Error::ListingDevicesFailed(e)
    }
}

impl vstd::std_specs::convert::FromSpecImpl<SysError> for Error {
    open spec fn obeys_from_spec() -> bool {
        true
    }

    open spec fn from_spec(e: SysError) -> Self {
        Error::ListingDevicesFailed(e)
    }
}

} // verus!
