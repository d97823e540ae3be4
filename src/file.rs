use vstd::prelude::*;
use std::path::Path;

verus! {

/// Describes files handed to the platform.
pub struct FileProcessor;

/// What `FileProcessor::extract_image_info` says of every image.
pub open spec fn image_description() -> Seq<char> {
    "Image description placeholder"@
}

impl FileProcessor {
    /// A description of the image at `_file_path`; no vision model is attached, so every
    /// image gets the same fixed description and the file is not read.
    pub fn extract_image_info<P: AsRef<Path>>(_file_path: P) -> (r: Result<String, ()>)
        ensures
            r matches Ok(s) && s@ == image_description(),
    {
        Ok("Image description placeholder".to_owned())
    }
}

} // verus!
