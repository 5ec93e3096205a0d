use vstd::prelude::*;

verus! {

/// Failures of the library, each naming the stage that failed.
#[derive(Debug, Clone, PartialEq, Eq)]
pub enum AppError {
    /// The configuration could not be read or parsed.
    InvalidConfig { cause: String },
    /// An entry looked like audio but its tags could not be parsed.
    CannotReadAudioMetadata { cause: String },
    /// The uploaded payload is not a zip archive.
    InvalidContainer,
    /// The archive could not be opened, or an entry of it could not be read.
    UnreadableEntry { index: usize, cause: String },
    /// The entry at `index`, named `name`, looked like audio but its tags could not be parsed.
    MetadataExtractionFailed { index: usize, name: String, cause: String },
    /// A destination directory or file could not be written.
    DestinationUnwritable { path: String, cause: String },
}

} // verus!
