//! Text of the broker's informational pages.
use vstd::prelude::*;
use vstd::string::*;

verus! {

/// The body of the version page, for program version `version` and, where
/// known, the git commit `sha` it was built from.
pub fn version_text(version: &str, sha: Option<String>) -> (r: String)
    ensures
        r@ == "Portier "@ + version@ + " (git commit "@ + match sha {
            Some(s) => s@,
            None => "unknown"@,
        } + ")"@,
{
    let sha = match sha {
        Some(s) => s,
        None => String::from_str("unknown"),
    };
    String::from_str("Portier ").concat(version).concat(" (git commit ").concat(sha.as_str()).concat(")")
}

} // verus!
