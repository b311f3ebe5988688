//! The configuration that the server is started with.

use vstd::prelude::*;
use vstd::string::*;

verus! {

/// The number of bytes read from a connection, in one read, as the request.
pub const REQUEST_BUFFER_SIZE: usize = 150;

/// The number of connections handled at a time; further ones wait.
pub const WORKER_COUNT: usize = 10;

/// The TCP port, on the loopback address, that the server listens on.
pub const PORT: u16 = 4221;

/// The base directory of the files served, fixed when the server starts.
#[derive(Debug, Clone, PartialEq, Eq)]
pub struct Config {
    pub directory: String,
}

/// The directory served where none is named.
pub open spec fn default_directory() -> Seq<char> {
    "/tmp/"@
}

impl Config {
    /// The configuration for the directory named on the command line, or for
    /// the default directory where none was named.
    pub fn new(directory: Option<String>) -> (r: Config)
        ensures
            r.directory@ == match directory {
                Some(path) => path@,
                None => default_directory(),
            },
    {
        match directory {
            Some(path) => Config { directory: path },
            None => Config { directory: String::from_str("/tmp/") },
        }
    }

    /// The base directory, to which the name of a requested file is appended.
    pub fn directory(&self) -> (r: &str)
        ensures
            r@ == self.directory@,
    {
        self.directory.as_str()
    }
}

} // verus!
