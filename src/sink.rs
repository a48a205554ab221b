//! The sink abstraction and the file sink's configuration.
use vstd::prelude::*;

verus! {

/// Why a sink could not take a payload.
pub struct LogError {
    pub message: String,
}

impl LogError {
    /// The error's description.
    pub fn to_string(&self) -> (r: String)
        ensures
            r@ == self.message@,
    {
        self.message.clone()
    }
}

/// A destination that persists or transmits a text payload.
pub trait Log: Send + Sync {
    /// Hands `data` to the destination as it is, in one attempt.
    fn log(&self, data: &str) -> Result<(), LogError>;
}

/// Relies on std's `PathBuf` as an opaque path value.
#[verifier::external_type_specification]
#[verifier::external_body]
pub struct ExPathBuf(std::path::PathBuf);

/// A sink that appends each payload to a file.
pub struct FileLogger {
    /// The path of the file that payloads are appended to.
    pub recorder_file: std::path::PathBuf,
}

impl FileLogger {
    pub fn new(recorder_file: std::path::PathBuf) -> (r: Self)
        ensures
            r.recorder_file == recorder_file,
    {
        Self { recorder_file }
    }
}

} // verus!
