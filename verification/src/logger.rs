//! Log-file placement: the one decision the logging setup makes that is
//! worth stating — where a named log file belongs. Creating the directory,
//! opening the file and installing the logging backend are the surrounding
//! runtime's concern.

use vstd::prelude::*;
use vstd::string::StringExecFns;

verus! {

/// Combines a directory and a file name into the path `dir/filename`.
pub fn build_log_path(dir: &str, filename: &str) -> (r: String)
    ensures
        r@ == dir@ + "/"@ + filename@,
{
    let mut r = dir.to_owned();
    r.append("/");
    r.append(filename);
    r
}

/// Where the log file with this name belongs: `logs/<filename>`.
pub fn init_log_handler(log_filename: &str) -> (r: String)
    ensures
        r@ == "logs"@ + "/"@ + log_filename@,
{
    build_log_path("logs", log_filename)
}

} // verus!
