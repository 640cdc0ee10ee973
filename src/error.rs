use vstd::prelude::*;

verus! {

/// Everything that can go wrong while inspecting or integrating a bundle.
#[derive(Debug, Clone, PartialEq, Eq)]
pub enum AppimageError {
    /// A path holds a NUL byte and cannot be handed over as a C string.
    InvalidPath,
    /// An argument of a registration step holds a NUL byte.
    InvalidArgumentEncoding,
    /// The runtime classified the bundle with a code outside -1..=2.
    UnknownTypeCode { code: i32 },
    /// The runtime could not enumerate the files of the bundle.
    EnumerationFailed,
    /// The runtime could not extract the named entry.
    ExtractionFailed { entry: String },
    /// The bundle holds no `.desktop` entry.
    DescriptorNotFound,
    /// The extracted descriptor could not be read as text.
    IoError { message: String },
    /// Registering the desktop file in the system failed.
    RegistrationFailed,
    /// Unregistering the desktop file from the system failed.
    UnregistrationFailed,
    /// The runtime could not hash the bundle.
    HashUnavailable,
}

} // verus!
