//! Plugin-related errors.

use vstd::prelude::*;

verus! {

#[verifier::external_type_specification]
#[verifier::external_body]
pub struct ExIoError(std::io::Error);

#[verifier::external_type_specification]
#[verifier::external_body]
pub struct ExLibloadingError(libloading::Error);

/// Plugin-related errors.
#[derive(Debug)]
pub enum PluginError {
    LoadFailed(String),
    InitializationFailed(String),
    ProcessingFailed(String),
    InvalidParameter(String),
    GuiFailed(String),
    Io(std::io::Error),
    LibraryError(libloading::Error),
}

/// The text that a plugin error's message starts with.
pub open spec fn spec_error_prefix(e: PluginError) -> Seq<char> {
    match e {
        PluginError::LoadFailed(_) => "Failed to load plugin: "@,
        PluginError::InitializationFailed(_) => "Plugin initialization failed: "@,
        PluginError::ProcessingFailed(_) => "Plugin processing failed: "@,
        PluginError::InvalidParameter(_) => "Invalid parameter: "@,
        PluginError::GuiFailed(_) => "GUI operation failed: "@,
        PluginError::Io(_) => "IO error: "@,
        PluginError::LibraryError(_) => "Library loading error: "@,
    }
}

/// The text of a library-loading error (`Display` of `libloading::Error`);
/// it carries the dynamic loader's own message, so nothing is stated of it.
#[verifier::external_body]
fn library_error_text(e: &libloading::Error) -> String {
    format!("{}", e)
}

/// The text of an I/O error (`Display` of `std::io::Error`); it comes
/// from the operating system, so nothing is stated of it.
#[verifier::external_body]
fn io_error_text(e: &std::io::Error) -> String {
    format!("{}", e)
}

impl PluginError {
    /// The human-readable message of the error: a prefix naming the kind
    /// of failure, followed by the detail.
    pub fn to_string(&self) -> (r: String)
        ensures
            r@.len() >= spec_error_prefix(*self).len(),
            r@.subrange(0, spec_error_prefix(*self).len() as int) == spec_error_prefix(*self),
            match *self {
                PluginError::LoadFailed(m) => r@ == spec_error_prefix(*self) + m@,
                PluginError::InitializationFailed(m) => r@ == spec_error_prefix(*self) + m@,
                PluginError::ProcessingFailed(m) => r@ == spec_error_prefix(*self) + m@,
                PluginError::InvalidParameter(m) => r@ == spec_error_prefix(*self) + m@,
                PluginError::GuiFailed(m) => r@ == spec_error_prefix(*self) + m@,
                PluginError::Io(_) => true,
                PluginError::LibraryError(_) => true,
            },
    {
        let r = match self {
            PluginError::LoadFailed(m) => String::from_str("Failed to load plugin: ").concat(
                m.as_str(),
            ),
            PluginError::InitializationFailed(m) => String::from_str(
                "Plugin initialization failed: ",
            ).concat(m.as_str()),
            PluginError::ProcessingFailed(m) => String::from_str(
                "Plugin processing failed: ",
            ).concat(m.as_str()),
            PluginError::InvalidParameter(m) => String::from_str("Invalid parameter: ").concat(
                m.as_str(),
            ),
            PluginError::GuiFailed(m) => String::from_str("GUI operation failed: ").concat(
                m.as_str(),
            ),
            PluginError::Io(e) => String::from_str("IO error: ").concat(io_error_text(e).as_str()),
            PluginError::LibraryError(e) => String::from_str("Library loading error: ").concat(
                library_error_text(e).as_str(),
            ),
        };
        proof {
            let p = spec_error_prefix(*self);
            assert(r@.subrange(0, p.len() as int) =~= p);
        }
        r
    }
}

} // verus!
