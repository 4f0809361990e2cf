use vstd::prelude::*;

verus! {

/// Why fetching or caching an asset failed.
#[derive(Clone, Copy, Debug, PartialEq, Eq, Structural)]
pub enum AssetError {
    /// The provider could not be reached or answered with an error.
    Network,
    /// The search page could not be read as a document.
    Parse,
    /// The search page held no usable image.
    NoResult,
    /// The cache directory or file could not be written.
    FileSystem,
}

/// Every way a mutation can fail. A failed mutation leaves the store as it
/// was.
#[derive(Clone, Copy, Debug, PartialEq, Eq, Structural)]
pub enum TRCError {
    /// No caller, or a caller that does not own the target.
    Unauthorized,
    /// A row that the request names does not exist.
    NotFound,
    /// The input is malformed or out of range, or the target is still
    /// referenced by rows that depend on it.
    Validation,
    /// The audio or image of a new card could not be resolved.
    AssetResolution(AssetError),
    /// An unexpected failure of a collaborator (clock, hashing, id space).
    Internal,
}

impl TRCError {
    /// The short tag under which the error is reported to clients.
    pub fn kind(&self) -> (r: &'static str)
        ensures
            *self == TRCError::Unauthorized ==> r@ == "UNAUTHORIZED"@,
            *self == TRCError::NotFound ==> r@ == "NOT_FOUND"@,
            *self == TRCError::Validation ==> r@ == "VALIDATION"@,
            self is AssetResolution ==> r@ == "ASSET_RESOLUTION"@,
            *self == TRCError::Internal ==> r@ == "INTERNAL"@,
    {
        match self {
            TRCError::Unauthorized => "UNAUTHORIZED",
            TRCError::NotFound => "NOT_FOUND",
            TRCError::Validation => "VALIDATION",
            TRCError::AssetResolution(_) => "ASSET_RESOLUTION",
            TRCError::Internal => "INTERNAL",
        }
    }
}

} // verus!
