use vstd::prelude::*;

verus! {

/// The four operations of the command surface, each with the arguments it
/// needs. A `file_path` may be a local path or an http(s) URL; a
/// `chunk_type` is the user's 4-character type tag.
pub enum Command {
    /// Hide a message in a PNG file.
    Encode { file_path: String, chunk_type: String, message: String, output_path: Option<String> },
    /// Find a message in a PNG file.
    Decode { file_path: String, chunk_type: String },
    /// Remove a hidden message from a PNG file.
    Remove { file_path: String, chunk_type: String },
    /// Print the chunk structure of a PNG file.
    Print { file_path: String },
}

/// A parsed command line: the command to run. Argument parsing itself is
/// the surrounding application's concern; it hands the library this plain
/// value.
pub struct Cli {
    pub command: Command,
}

} // verus!
