use vstd::prelude::*;

verus! {

/// An error of the test-script layer, carrying a message for the user.
#[derive(Debug)]
pub struct AppError {
    pub message: String,
}

/// Result of the test-script layer.
pub type AppResult<T> = Result<T, AppError>;

impl AppError {
    /// An error with the given message.
    pub fn new(message: String) -> (e: AppError)
        ensures
            e.message@ == message@,
    {
        AppError { message }
    }

    /// The error message.
    pub fn to_string(&self) -> (s: String)
        ensures
            s@ == self.message@,
    {
        self.message.clone()
    }
}

} // verus!
