use vstd::prelude::*;

verus! {

/// Why a prompt ended without a value.
#[derive(Debug)]
pub enum InquireError {
    /// The user pressed the cancel key.
    OperationCanceled,
    /// The backend failed to draw or to read; the text describes the failure.
    IO(String),
}

pub type InquireResult<T> = Result<T, InquireError>;

} // verus!
