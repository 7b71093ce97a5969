//! Expanding glob patterns against the filesystem.
//!
//! The expansion itself is the glob crate's work; this module merges the
//! matches of a list of patterns into one duplicate-free list.

use vstd::prelude::*;
use crate::paths::{contains_str, lemma_contains_push, lemma_views_push, nodup_views, views_of};

verus! {

/// Whether the glob engine accepts `pattern` as well-formed; compiling a
/// pattern depends on its text alone.
pub uninterp spec fn glob_pattern_ok(pattern: Seq<char>) -> bool;

/// A pattern that the glob engine could not compile.
#[derive(Debug, PartialEq, Eq, Structural, Clone, Copy)]
pub enum GlobError {
    InvalidPattern,
}

/// Relies on `glob::glob_with`: expands one pattern against the filesystem,
/// matching names case-insensitively, and yields the matched paths; entries
/// the walk could not read, and paths that are not valid UTF-8, are skipped.
/// `Err` means exactly that the pattern itself did not compile, which
/// depends on the pattern text alone.
#[verifier::external_body]
fn glob_matches(pattern: &str) -> (r: Result<Vec<String>, ()>)
    ensures
        (r is Err) <==> !glob_pattern_ok(pattern@),
{
    let options = glob::MatchOptions {
        case_sensitive: false,
        require_literal_separator: false,
        require_literal_leading_dot: false,
    };
    match glob::glob_with(pattern, options) {
        Err(_) => Err(()),
        Ok(entries) => Ok(
            entries
                .filter_map(Result::ok)
                .filter_map(|p| p.into_os_string().into_string().ok())
                .collect(),
        ),
    }
}

/// Merges one pattern's matches into the accumulated matches: a path is in
/// the result if and only if it was already accumulated or is among the
/// new matches, and no path is reported twice.
pub fn merge_matches(accumulated: Vec<String>, found: Vec<String>) -> (r: Vec<String>)
    requires
        nodup_views(accumulated@),
    ensures
        nodup_views(r@),
        forall|p: Seq<char>|
            views_of(r@).contains(p) <==> (views_of(accumulated@).contains(p) || views_of(
                found@,
            ).contains(p)),
{
    let mut out = accumulated;
    let ghost acc = out@;
    proof {
        assert forall|k: int|
            0 <= k < out@.len() implies views_of(acc).contains(#[trigger] out@[k]@) by {
            assert(views_of(acc)[k] == out@[k]@);
        }
    }
    let m = found.len();
    let mut j: usize = 0;
    while j < m
        invariant
            m == found@.len(),
            0 <= j <= m,
            nodup_views(out@),
            forall|p: Seq<char>| views_of(acc).contains(p) ==> views_of(out@).contains(p),
            forall|k: int|
                0 <= k < out@.len() ==> (views_of(acc).contains(#[trigger] out@[k]@) || views_of(
                    found@,
                ).contains(out@[k]@)),
            forall|l: int| 0 <= l < j ==> views_of(out@).contains(#[trigger] found@[l]@),
        decreases m - j,
    {
        proof {
            assert(views_of(found@)[j as int] == found@[j as int]@);
        }
        if !contains_str(&out, found[j].as_str()) {
            let ghost prev = out@;
            let p = found[j].clone();
            proof {
                assert forall|k: int| 0 <= k < out@.len() implies out@[k]@ != p@ by {
                    assert(views_of(out@)[k] == out@[k]@);
                }
                lemma_views_push(prev, p);
            }
            out.push(p);
            proof {
                assert forall|p2: Seq<char>|
                    views_of(acc).contains(p2) implies views_of(out@).contains(p2) by {
                    lemma_contains_push(views_of(prev), found@[j as int]@, p2);
                }
                assert forall|l: int|
                    0 <= l <= j implies views_of(out@).contains(#[trigger] found@[l]@) by {
                    lemma_contains_push(views_of(prev), found@[j as int]@, found@[l]@);
                }
            }
        }
        j = j + 1;
    }
    proof {
        assert forall|p: Seq<char>|
            views_of(out@).contains(p) implies (views_of(acc).contains(p) || views_of(
            found@,
        ).contains(p)) by {
            let k = choose|k: int| 0 <= k < views_of(out@).len() && views_of(out@)[k] == p;
            assert(views_of(out@)[k] == out@[k]@);
        }
        assert forall|p: Seq<char>|
            views_of(found@).contains(p) implies views_of(out@).contains(p) by {
            let l = choose|l: int| 0 <= l < views_of(found@).len() && views_of(found@)[l] == p;
            assert(views_of(found@)[l] == found@[l]@);
        }
    }
    out
}

/// Expands every pattern and returns the union of their matches, each path
/// reported once; the union is taken by `merge_matches`, one pattern at a
/// time. The call succeeds exactly when every pattern compiles; a pattern
/// that does not is a fatal configuration error.
pub fn retrieve_glob_paths(glob_paths: &Vec<String>) -> (r: Result<Vec<String>, GlobError>)
    ensures
        r matches Ok(v) ==> nodup_views(v@),
        glob_paths@.len() == 0 ==> (r matches Ok(v) && v@.len() == 0),
        (r is Ok) <==> (forall|i: int|
            0 <= i < glob_paths@.len() ==> glob_pattern_ok(#[trigger] glob_paths@[i]@)),
{
    let mut out: Vec<String> = Vec::new();
    let n = glob_paths.len();
    let mut i: usize = 0;
    while i < n
        invariant
            n == glob_paths@.len(),
            0 <= i <= n,
            nodup_views(out@),
            n == 0 ==> out@.len() == 0,
            forall|k: int| 0 <= k < i ==> glob_pattern_ok(#[trigger] glob_paths@[k]@),
        decreases n - i,
    {
        let found = match glob_matches(glob_paths[i].as_str()) {
            Ok(found) => found,
            Err(_) => {
                return Err(GlobError::InvalidPattern);
            },
        };
        out = merge_matches(out, found);
        i = i + 1;
    }
    Ok(out)
}

} // verus!
