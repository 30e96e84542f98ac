//! Where the tool looks for updates of itself.
use vstd::prelude::*;
use vstd::string::*;

verus! {

/// Configures how and where updates will be received.
#[derive(Clone, Debug, PartialEq, Eq)]
pub struct MoonConfig {
    /// A secure URL to lookup the latest version.
    pub manifest_url: String,
    /// A secure URL for downloading the binary.
    pub download_url: String,
}

impl Default for MoonConfig {
    fn default() -> (r: MoonConfig)
        ensures
            r.manifest_url@ == "https://launch.moonrepo.app/versions/cli/current"@,
            r.download_url@ == "https://github.com/moonrepo/moon/releases/latest/download"@,
    {
        MoonConfig {
            manifest_url: String::from_str("https://launch.moonrepo.app/versions/cli/current"),
            download_url: String::from_str(
                "https://github.com/moonrepo/moon/releases/latest/download",
            ),
        }
    }
}

} // verus!
