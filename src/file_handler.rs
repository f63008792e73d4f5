use vstd::prelude::*;

verus! {

/// A file the user picked, to be read and recognised.
#[derive(Debug, Clone)]
pub struct FileHandler {
    pub file_path: String,
}

/// Why a picked file could not be read.
#[derive(Debug, Clone, PartialEq, Eq)]
pub enum FileHandlerError {
    FileNotFound,
    OpenFile(String),
    ReadFile(String),
}

impl FileHandler {
    pub fn new(file_path: String) -> (r: Self)
        ensures
            r.file_path@ == file_path@,
    {
        FileHandler { file_path }
    }
}

} // verus!
