//! Where the manager keeps its files, which depends on how it was built: a
//! development build works in the current directory, a release build in the
//! system's directories.

use vstd::prelude::*;

verus! {

/// The path at which an installed node binary is looked for.
pub const INSTALLED_BINARY: &'static str = "/usr/bin/selendra";

/// How the program was built.
#[derive(Clone, Copy, Debug, PartialEq, Eq, Structural)]
pub enum Profile {
    /// A development build: files stay in the working directory.
    Debug,
    /// A release build: files go to the system's directories.
    Release,
}

impl Profile {
    /// The file that holds the registry of nodes.
    pub fn registry_path(self) -> (p: &'static str)
        ensures
            p@ == (match self {
                Profile::Debug => "nodemgr.toml"@,
                Profile::Release => "/etc/nodemgr.toml"@,
            }),
    {
        match self {
            Profile::Debug => "nodemgr.toml",
            Profile::Release => "/etc/nodemgr.toml",
        }
    }

    /// The file to which the node binary is downloaded.
    pub fn binary_path(self) -> (p: &'static str)
        ensures
            p@ == (match self {
                Profile::Debug => "./selendra"@,
                Profile::Release => "/usr/bin/selendra"@,
            }),
    {
        match self {
            Profile::Debug => "./selendra",
            Profile::Release => "/usr/bin/selendra",
        }
    }
}

} // verus!
