//! Where images of traces are written.
use vstd::prelude::*;

verus! {

/// The destination of the images.
#[derive(Clone, Debug)]
pub struct OutputToFile {
    /// Path of the directory that takes the images.
    pub path: String,
}

impl OutputToFile {
    /// A destination at `path`.
    pub fn new(path: String) -> (output: OutputToFile)
        ensures
            output.path == path,
    {
        OutputToFile { path }
    }

    /// Writes nothing: images are drawn by the program around the library.
    pub fn write_image() {
    }
}

} // verus!
