//! Which operating systems have native rounded window corners.
use vstd::prelude::*;
use crate::text::str_eq;

verus! {

/// The operating system the application was built for.
#[derive(Clone, Copy, Debug, PartialEq, Eq, Structural)]
pub enum TargetOs {
    Windows,
    MacOs,
    Linux,
    Other,
}

impl TargetOs {
    /// The operating system that `std::env::consts::OS` names.
    pub fn from_name(name: &str) -> (r: TargetOs)
        ensures
            r == if name@ == "windows"@ {
                TargetOs::Windows
            } else if name@ == "macos"@ {
                TargetOs::MacOs
            } else if name@ == "linux"@ {
                TargetOs::Linux
            } else {
                TargetOs::Other
            },
    {
        if str_eq(name, "windows") {
            TargetOs::Windows
        } else if str_eq(name, "macos") {
            TargetOs::MacOs
        } else if str_eq(name, "linux") {
            TargetOs::Linux
        } else {
            TargetOs::Other
        }
    }
}

/// There is a native way to round the window's corners on `os`: on Windows
/// (DWM corner preference) and on macOS (layer corner radius).
pub fn supports_native_rounded_corners(os: TargetOs) -> (r: bool)
    ensures
        r == (os == TargetOs::Windows || os == TargetOs::MacOs),
{
    match os {
        TargetOs::Windows => true,
        TargetOs::MacOs => true,
        TargetOs::Linux => false,
        TargetOs::Other => false,
    }
}

/// What applying native rounded corners does on an operating system, given
/// whether the window pointer is null.
#[derive(Clone, Copy, Debug, PartialEq, Eq, Structural)]
pub enum CornerStep {
    /// The pointer is null: an error, before any platform call.
    RejectNull,
    /// Call the platform's API on the window.
    CallNative,
    /// Nothing to do on this system: success.
    Skip,
    /// No native way on this system: an error.
    Unsupported,
}

/// The step for `os`: a null window pointer is refused on Windows, macOS and
/// Linux; otherwise Windows and macOS call their API, Linux does nothing,
/// and other systems are not supported.
pub fn corner_step(os: TargetOs, ptr_is_null: bool) -> (r: CornerStep)
    ensures
        r == match os {
            TargetOs::Other => CornerStep::Unsupported,
            _ => if ptr_is_null {
                CornerStep::RejectNull
            } else {
                match os {
                    TargetOs::Linux => CornerStep::Skip,
                    _ => CornerStep::CallNative,
                }
            },
        },
{
    match os {
        TargetOs::Other => CornerStep::Unsupported,
        _ => if ptr_is_null {
            CornerStep::RejectNull
        } else {
            match os {
                TargetOs::Linux => CornerStep::Skip,
                _ => CornerStep::CallNative,
            }
        },
    }
}

} // verus!
