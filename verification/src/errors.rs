use vstd::prelude::*;

verus! {

/// A user-correctable failure of the release workflow's own logic.
/// Failures of external commands carry their message as a `String` instead.
#[derive(Clone, Copy, Debug, PartialEq, Eq, Structural)]
pub enum ReleaseError {
    /// No heading with a recognized date suffix was found in the changelog.
    NoDateFormatFound,
    /// The changelog has no "Next release" / "Next version" heading.
    NextReleaseHeaderNotFound,
    /// The date format was never resolved to a concrete notation.
    UnsupportedDateFormat,
}

impl ReleaseError {
    /// The message that is shown for this error.
    pub fn message(&self) -> (r: &'static str)
        ensures
            *self == ReleaseError::NoDateFormatFound ==> r@ == "No valid date format found in the changelog file."@,
            *self == ReleaseError::NextReleaseHeaderNotFound ==> r@ == "Next release header not found in the changelog."@,
            *self == ReleaseError::UnsupportedDateFormat ==> r@ == "Unsupported date format for changelog."@,
    {
        match self {
            ReleaseError::NoDateFormatFound => "No valid date format found in the changelog file.",
            ReleaseError::NextReleaseHeaderNotFound => "Next release header not found in the changelog.",
            ReleaseError::UnsupportedDateFormat => "Unsupported date format for changelog.",
        }
    }
}

} // verus!
