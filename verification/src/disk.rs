//! Trusted queries about the filesystem.
//!
//! Both answers depend on the state of the disk at call time, so their
//! contracts state only what holds of every outcome.

use vstd::prelude::*;
use crate::paths::{is_absolute, lemma_views_push, nodup_views, option_views, views_of};

verus! {

/// Relies on std's `Path::canonicalize`: on success the result is the
/// absolute form of the path with all symbolic links resolved. A failure,
/// or a result that is not valid UTF-8, is reported as `None`.
#[verifier::external_body]
pub fn canonicalize_path(p: &str) -> (r: Option<String>)
    ensures
        r matches Some(c) ==> is_absolute(c@),
{
    match std::path::Path::new(p).canonicalize() {
        Ok(c) => c.into_os_string().into_string().ok(),
        Err(_) => None,
    }
}

/// Relies on std's `Path::is_file`: whether the path names a regular file
/// on disk right now. Nothing is promised of the answer.
#[verifier::external_body]
pub fn path_is_file(p: &str) -> bool {
    std::path::Path::new(p).is_file()
}

/// Keeps the paths that name regular files on disk, in order, each once.
pub fn retain_existing_files(v: Vec<String>) -> (r: Vec<String>)
    requires
        nodup_views(v@),
    ensures
        nodup_views(r@),
        forall|k: int| 0 <= k < r@.len() ==> views_of(v@).contains(#[trigger] r@[k]@),
        v@.len() == 0 ==> r@.len() == 0,
{
    let mut out: Vec<String> = Vec::new();
    let m = v.len();
    let mut j: usize = 0;
    while j < m
        invariant
            m == v@.len(),
            0 <= j <= m,
            nodup_views(v@),
            nodup_views(out@),
            forall|l: int| j <= l < m ==> !views_of(out@).contains(#[trigger] v@[l]@),
            forall|k: int| 0 <= k < out@.len() ==> views_of(v@).contains(#[trigger] out@[k]@),
            v@.len() == 0 ==> out@.len() == 0,
        decreases m - j,
    {
        if path_is_file(v[j].as_str()) {
            let p = v[j].clone();
            proof {
                let ghost old_out = out@;
                assert(!views_of(old_out).contains(v@[j as int]@));
                assert forall|k: int| 0 <= k < old_out.len() implies old_out[k]@ != p@ by {
                    assert(views_of(old_out)[k] == old_out[k]@);
                }
                lemma_views_push(old_out, p);
            }
            out.push(p);
            proof {
                assert(views_of(v@)[j as int] == v@[j as int]@);
                assert forall|l: int| j + 1 <= l < m implies !views_of(out@).contains(
                    v@[l]@,
                ) by {
                    assert(v@[l]@ != v@[j as int]@);
                }
            }
        }
        j = j + 1;
    }
    out
}

/// The canonical form of each path, position by position; `None` where
/// the filesystem gives none.
pub fn canonicalize_entries(files: &Vec<String>) -> (r: Vec<Option<String>>)
    ensures
        r@.len() == files@.len(),
        forall|i: int|
            0 <= i < r@.len() ==> ((#[trigger] option_views(r@)[i]) matches Some(c)
                ==> is_absolute(c)),
{
    let mut r: Vec<Option<String>> = Vec::new();
    let n = files.len();
    let mut i: usize = 0;
    while i < n
        invariant
            n == files@.len(),
            0 <= i <= n,
            r@.len() == i,
            forall|k: int|
                0 <= k < r@.len() ==> ((#[trigger] option_views(r@)[k]) matches Some(c)
                    ==> is_absolute(c)),
        decreases n - i,
    {
        let ghost prev = r@;
        r.push(canonicalize_path(files[i].as_str()));
        proof {
            assert forall|k: int|
                0 <= k < r@.len() implies ((#[trigger] option_views(r@)[k]) matches Some(c)
                ==> is_absolute(c)) by {
                if k < prev.len() {
                    assert(option_views(r@)[k] == option_views(prev)[k]);
                }
            }
        }
        i = i + 1;
    }
    r
}

} // verus!
