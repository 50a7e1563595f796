//! What the command line asks for.
use vstd::prelude::*;

verus! {

/// The program's name, as the command line shows it.
pub const APP_NAME: &'static str = "audium";

/// The command line: an audio file to open at once, if any.
#[derive(Debug, Clone)]
pub struct Cli {
    /// Audio file to open immediately.
    pub file: Option<String>,
}

} // verus!
