//! Names of dynamic libraries per platform, and the errors of loading them.

use vstd::prelude::*;
use vstd::string::*;
use super::OsType;

verus! {

/// Errors of dynamic-library loading.
#[derive(Debug, Clone)]
pub enum DylibError {
    /// Opening the library failed.
    OpenError(String),
    /// Looking up a symbol failed.
    SymbolError(String),
    /// Closing the library failed.
    CloseError(String),
}

impl DylibError {
    /// The error's message: what failed, a colon, and the detail.
    pub fn message(&self) -> (m: String)
        ensures
            m@ == match self {
                DylibError::OpenError(d) => "Failed to open dynamic library: "@ + d@,
                DylibError::SymbolError(d) => "Failed to find symbol: "@ + d@,
                DylibError::CloseError(d) => "Failed to close dynamic library: "@ + d@,
            },
    {
        let (mut m, d) = match self {
            DylibError::OpenError(d) => (String::from_str("Failed to open dynamic library: "), d),
            DylibError::SymbolError(d) => (String::from_str("Failed to find symbol: "), d),
            DylibError::CloseError(d) => (String::from_str("Failed to close dynamic library: "), d),
        };
        m.append(d.as_str());
        m
    }
}

/// The file extension of dynamic libraries on a system.
pub open spec fn dylib_extension(os: OsType) -> Seq<char> {
    match os {
        OsType::Windows => "dll"@,
        OsType::Macos => "dylib"@,
        _ => "so"@,
    }
}

/// The file-name prefix of dynamic libraries on a system.
pub open spec fn dylib_prefix(os: OsType) -> Seq<char> {
    match os {
        OsType::Windows => ""@,
        _ => "lib"@,
    }
}

/// The file extension of dynamic libraries: `dll` on Windows, `dylib` on
/// macOS, `so` elsewhere.
pub fn get_dylib_extension(os: OsType) -> (ext: &'static str)
    ensures
        ext@ == dylib_extension(os),
{
    match os {
        OsType::Windows => "dll",
        OsType::Macos => "dylib",
        _ => "so",
    }
}

/// The file-name prefix of dynamic libraries: none on Windows, `lib`
/// elsewhere.
pub fn get_dylib_prefix(os: OsType) -> (prefix: &'static str)
    ensures
        prefix@ == dylib_prefix(os),
{
    match os {
        OsType::Windows => "",
        _ => "lib",
    }
}

/// The file name of the dynamic library `name`: prefix, name, a dot and
/// the extension.
pub fn build_dylib_name(name: &str, os: OsType) -> (file: String)
    ensures
        file@ == dylib_prefix(os) + name@ + "."@ + dylib_extension(os),
{
    let mut file = String::from_str(get_dylib_prefix(os));
    file.append(name);
    file.append(".");
    file.append(get_dylib_extension(os));
    file
}

} // verus!
