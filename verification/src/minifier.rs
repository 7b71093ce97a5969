//! What the minifier works on.
//!
//! The rewriting itself happens outside the library; this module computes
//! which kept files a minification pass touches.

use vstd::prelude::*;
use crate::configurations::Cli;
use crate::disk::retain_existing_files;
use crate::glob::{glob_pattern_ok, retrieve_glob_paths, GlobError};
use crate::paths::{join, join_spec, nodup_views};

verus! {

/// The glob a minification pass for `extension` expands: names with at
/// least one more dot before the extension, anywhere beneath the
/// dependency directory.
pub open spec fn extension_pattern(node_modules: Seq<char>, extension: Seq<char>) -> Seq<char> {
    join_spec(join_spec(node_modules, "**"@), "*.*"@ + extension)
}

/// The regular files under the dependency directory whose name ends in
/// `.<extension>` (with at least one more dot before it), each once. The
/// call fails exactly when the pattern does not compile against this
/// dependency path.
pub fn retrieve_files_by_extension(configurations: &Cli, extension: &str) -> (r: Result<
    Vec<String>,
    GlobError,
>)
    ensures
        r matches Ok(v) ==> nodup_views(v@),
        (r is Err) <==> !glob_pattern_ok(
            extension_pattern(configurations@.node_modules, extension@),
        ),
{
    let below = join(configurations.node_modules_location.as_str(), "**");
    let mut suffix = String::from_str("*.*");
    suffix.append(extension);
    let pattern = join(below.as_str(), suffix.as_str());
    proof {
        assert(pattern@ == extension_pattern(configurations@.node_modules, extension@));
    }
    let mut patterns: Vec<String> = Vec::new();
    patterns.push(pattern);
    match retrieve_glob_paths(&patterns) {
        Result::Ok(found) => {
            proof {
                assert(glob_pattern_ok(patterns@[0]@));
            }
            Result::Ok(retain_existing_files(found))
        },
        Result::Err(e) => {
            proof {
                assert(!(forall|k: int|
                    0 <= k < patterns@.len() ==> glob_pattern_ok(#[trigger] patterns@[k]@)));
                let k = choose|k: int|
                    0 <= k < patterns@.len() && !glob_pattern_ok(patterns@[k]@);
                assert(k == 0);
            }
            Result::Err(e)
        },
    }
}

} // verus!
