//! The one failure that the engine passes on: persistence did not work.

use vstd::prelude::*;

verus! {

/// Reading from or writing to the store of corrections failed.
#[derive(Clone, Debug)]
pub struct StorageError {
    /// What the store reported.
    pub message: String,
}

impl View for StorageError {
    type V = Seq<char>;

    open spec fn view(&self) -> Seq<char> {
        self.message@
    }
}

impl StorageError {
    /// A failure with the given report.
    pub fn new(message: String) -> (error: Self)
        ensures
            error@ == message@,
    {
        StorageError { message }
    }

    /// What the store reported.
    pub fn message(&self) -> (message: String)
        ensures
            message@ == self@,
    {
        self.message.clone()
    }
}

} // verus!
