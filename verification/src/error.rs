use vstd::prelude::*;

verus! {

/// Why a request was refused. A refused request leaves the state it was made
/// against exactly as it was.
#[derive(Clone, Copy, Debug, PartialEq, Eq, Structural)]
pub enum PlaceError {
    /// The root state already exists and cannot be created a second time.
    AlreadyInitialized,
    /// The cost of the requested pixels is more than the account holds.
    InsufficientBalance,
    /// A request names a position outside the canvas.
    OutOfBounds,
    /// A cell names an owner that has no account record, or an account's
    /// pixel count disagrees with the canvas.
    InconsistentReference,
    /// A counter, an index or a total would leave the range of its machine type.
    CapacityExceeded,
}

impl PlaceError {
    /// The words that say why a request was refused.
    pub open spec fn text(self) -> Seq<char> {
        match self {
            PlaceError::AlreadyInitialized => "Already initialized"@,
            PlaceError::InsufficientBalance => "Not enough balance to draw pixels"@,
            PlaceError::OutOfBounds => "Pixel position is out of bounds"@,
            PlaceError::InconsistentReference => "Account records do not match the board"@,
            PlaceError::CapacityExceeded => "A counter has no room left"@,
        }
    }

    /// Why the request was refused, in words.
    pub fn message(&self) -> (words: String)
        ensures
            words@ == self.text(),
    {
        match self {
            PlaceError::AlreadyInitialized => "Already initialized".to_string(),
            PlaceError::InsufficientBalance => "Not enough balance to draw pixels".to_string(),
            PlaceError::OutOfBounds => "Pixel position is out of bounds".to_string(),
            PlaceError::InconsistentReference => "Account records do not match the board".to_string(),
            PlaceError::CapacityExceeded => "A counter has no room left".to_string(),
        }
    }
}

} // verus!
