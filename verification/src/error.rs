//! The ways an operation of this library can fail.

use vstd::prelude::*;

verus! {

/// Why an encryption, a decryption or a parse was refused.
///
/// No failure is recovered from inside the library: the first one found is
/// returned and nothing else is computed.
#[derive(Clone, Copy, Debug, PartialEq, Eq, Structural)]
pub enum EciesError {
    /// The coordinates supplied for a point do not satisfy the curve equation.
    PointNotOnCurve,
    /// A byte string does not fit the fixed-width field it was given for.
    MalformedInput,
    /// The operation has no defined behaviour: opening a masked bid.
    UnsupportedOperation,
}

impl EciesError {
    /// The tag under which this failure is reported.
    pub open spec fn kind_text(self) -> Seq<char> {
        match self {
            EciesError::PointNotOnCurve => "PointNotOnCurveError"@,
            EciesError::MalformedInput => "MalformedInputError"@,
            EciesError::UnsupportedOperation => "UnsupportedOperationError"@,
        }
    }

    /// The tag under which this failure is reported.
    pub fn kind(&self) -> (tag: &'static str)
        ensures
            tag@ == self.kind_text(),
    {
        match self {
            EciesError::PointNotOnCurve => "PointNotOnCurveError",
            EciesError::MalformedInput => "MalformedInputError",
            EciesError::UnsupportedOperation => "UnsupportedOperationError",
        }
    }

    /// What went wrong, in words, after the tag.
    pub open spec fn detail_text(self) -> Seq<char> {
        match self {
            EciesError::PointNotOnCurve => ": the coordinates do not satisfy y^2 = x^3 + 3"@,
            EciesError::MalformedInput => ": a byte string does not fit its fixed-width field"@,
            EciesError::UnsupportedOperation => ": opening a masked bid is not defined"@,
        }
    }

    /// The tag followed by a sentence that says what went wrong.
    pub fn message(&self) -> (text: String)
        ensures
            text@ == self.kind_text() + self.detail_text(),
    {
        let detail = match self {
            EciesError::PointNotOnCurve => ": the coordinates do not satisfy y^2 = x^3 + 3",
            EciesError::MalformedInput => ": a byte string does not fit its fixed-width field",
            EciesError::UnsupportedOperation => ": opening a masked bid is not defined",
        };
        String::from_str(self.kind()).concat(detail)
    }
}

} // verus!
