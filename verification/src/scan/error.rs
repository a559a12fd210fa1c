//! What can go wrong while scanning and classifying.

use vstd::prelude::*;

verus! {

/// What can go wrong during a run of ingestion.
#[derive(Debug, Clone, Copy, PartialEq, Eq, Structural)]
pub enum ScannerError {
    /// The catalogue holds no category to file anything under.
    EmptyCategoryError,
    /// Categories exist, but none could be ranked.
    NoMatchCategory,
    /// The root of the scan cannot be read.
    RootInaccessible,
    /// The catalogue did not answer.
    CatalogueError,
    /// A run was told of something that it was not waiting for.
    OutOfTurn,
}

impl ScannerError {
    /// The name of the error, as shown to users.
    pub fn message(&self) -> (text: String)
        ensures
            text@ == (match *self {
                ScannerError::EmptyCategoryError => "EmptyCategoryError"@,
                ScannerError::NoMatchCategory => "NoMatchCategory"@,
                ScannerError::RootInaccessible => "RootInaccessible"@,
                ScannerError::CatalogueError => "CatalogueError"@,
                ScannerError::OutOfTurn => "OutOfTurn"@,
            }),
    {
        match self {
            ScannerError::EmptyCategoryError => "EmptyCategoryError".to_owned(),
            ScannerError::NoMatchCategory => "NoMatchCategory".to_owned(),
            ScannerError::RootInaccessible => "RootInaccessible".to_owned(),
            ScannerError::CatalogueError => "CatalogueError".to_owned(),
            ScannerError::OutOfTurn => "OutOfTurn".to_owned(),
        }
    }
}

} // verus!
