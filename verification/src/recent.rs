//! Recent directory paths remembered between sessions. The library holds the
//! values and knows where their file lives; reading and writing the file is
//! the caller's business.

use vstd::prelude::*;

verus! {

/// Persisted recent directory paths.
pub struct RecentPaths {
    pub last_pdf_dir: Option<String>,
    pub last_output_dir: Option<String>,
}

impl RecentPaths {
    /// No paths remembered yet.
    pub fn new() -> (r: RecentPaths)
        ensures
            r.last_pdf_dir is None,
            r.last_output_dir is None,
    {
        RecentPaths { last_pdf_dir: None, last_output_dir: None }
    }

    /// Location of the recent-paths file under the project root.
    pub fn config_path(project_root: &str) -> (r: String)
        ensures
            r@ == project_root@ + "/podcast-studio.json"@,
    {
        let mut s = String::from_str(project_root);
        s.append("/podcast-studio.json");
        s
    }
}

} // verus!
