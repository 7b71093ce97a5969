//! Path strings and the operations the trimmer needs on them.
//!
//! A path is an ordinary `String`; the separator is `/`. Canonical paths (as
//! produced by the filesystem) are absolute and are compared byte for byte.

use vstd::prelude::*;
use vstd::seq_lib::*;

verus! {

/// An absolute path begins with the root separator.
pub open spec fn is_absolute(p: Seq<char>) -> bool {
    p.len() > 0 && p[0] == '/'
}

/// The sequence a `join` of `base` and `name` yields: `name` alone when it is
/// absolute, otherwise `base` and `name` glued with exactly one separator.
pub open spec fn join_spec(base: Seq<char>, name: Seq<char>) -> Seq<char> {
    if is_absolute(name) {
        name
    } else if base.len() == 0 {
        name
    } else if base[base.len() - 1] == '/' {
        base + name
    } else {
        base + seq!['/'] + name
    }
}

/// The directory part of an absolute path: everything before the last
/// separator, or the root itself when the last separator is the first byte.
pub open spec fn dirname_spec(p: Seq<char>) -> Seq<char>
    recommends
        is_absolute(p),
{
    match p.index_of_last('/') {
        Some(i) => if i == 0 {
            seq!['/']
        } else {
            p.subrange(0, i)
        },
        None => p,
    }
}

/// The final component of a path: everything after the last separator, or the
/// whole path when it holds no separator.
pub open spec fn basename_spec(p: Seq<char>) -> Seq<char> {
    match p.index_of_last('/') {
        Some(i) => p.subrange(i + 1, p.len() as int),
        None => p,
    }
}

/// The prefix of `s` that precedes the first occurrence of `c`, or all of `s`
/// when `c` does not occur.
pub open spec fn prefix_before_spec(s: Seq<char>, c: char) -> Seq<char> {
    match s.index_of_first(c) {
        Some(i) => s.subrange(0, i),
        None => s,
    }
}

/// Joins `name` onto `base` with a single separator, as the platform's path
/// type would print the result.
pub fn join(base: &str, name: &str) -> (r: String)
    ensures
        r@ == join_spec(base@, name@),
{
    let name_len = name.unicode_len();
    if name_len > 0 && name.get_char(0) == '/' {
        return name.to_owned();
    }
    let base_len = base.unicode_len();
    if base_len == 0 {
        return name.to_owned();
    }
    let mut r = base.to_owned();
    if base.get_char(base_len - 1) != '/' {
        r.append("/");
        proof {
            reveal_strlit("/");
            assert(base@ + "/"@ =~= base@ + seq!['/']);
        }
    }
    r.append(name);
    proof {
        if base@[base@.len() - 1] != '/' {
            assert((base@ + seq!['/']) + name@ =~= join_spec(base@, name@));
        }
    }
    r
}

/// Returns the directory part of an absolute path.
pub fn dirname(p: &str) -> (r: String)
    requires
        is_absolute(p@),
    ensures
        r@ == dirname_spec(p@),
{
    let n = p.unicode_len();
    let mut i = n;
    while i > 1 && p.get_char(i - 1) != '/'
        invariant
            is_absolute(p@),
            n == p@.len(),
            1 <= i <= n,
            forall|j: int| i <= j < n ==> p@[j] != '/',
        decreases i,
    {
        i = i - 1;
    }
    // Either the scan stopped on a separator, or it ran down to the root one.
    let last: usize = if i > 1 { i - 1 } else { 0 };
    proof {
        if i > 1 {
            assert(p@[i - 1] == '/');
        }
        p@.index_of_last_ensures('/');
        assert(p@[last as int] == '/');
        assert(forall|j: int| last < j < n ==> p@[j] != '/');
        assert(p@.index_of_last('/') == Some(last as int));
    }
    if last == 0 {
        let r = String::from_str("/");
        proof {
            reveal_strlit("/");
            assert(r@ =~= seq!['/']);
        }
        r
    } else {
        let r = p.substring_char(0, last);
        r.to_owned()
    }
}

/// Returns the final component of a path.
pub fn basename(p: &str) -> (r: String)
    ensures
        r@ == basename_spec(p@),
{
    let n = p.unicode_len();
    let mut i = n;
    while i > 0 && p.get_char(i - 1) != '/'
        invariant
            n == p@.len(),
            0 <= i <= n,
            forall|j: int| i <= j < n ==> p@[j] != '/',
        decreases i,
    {
        i = i - 1;
    }
    proof {
        p@.index_of_last_ensures('/');
        if i > 0 {
            assert(p@[i - 1] == '/');
            assert(p@.index_of_last('/') == Some(i - 1));
        } else {
            assert(forall|j: int| 0 <= j < n ==> p@[j] != '/');
            assert(p@.index_of_last('/') is None) by {
                if p@.index_of_last('/') is Some {
                    assert(p@.contains('/'));
                }
            }
        }
    }
    let r = p.substring_char(i, n);
    r.to_owned()
}

/// Returns the prefix of `s` that precedes the first occurrence of `c`.
pub fn prefix_before(s: &str, c: char) -> (r: String)
    ensures
        r@ == prefix_before_spec(s@, c),
{
    let n = s.unicode_len();
    let mut i: usize = 0;
    while i < n && s.get_char(i) != c
        invariant
            n == s@.len(),
            0 <= i <= n,
            forall|j: int| 0 <= j < i ==> s@[j] != c,
        decreases n - i,
    {
        i = i + 1;
    }
    proof {
        s@.index_of_first_ensures(c);
        if i < n {
            assert(s@[i as int] == c);
            assert(s@.index_of_first(c) == Some(i as int));
        } else {
            assert(s@.index_of_first(c) is None) by {
                if s@.index_of_first(c) is Some {
                    assert(s@.contains(c));
                }
            }
            assert(s@.subrange(0, n as int) =~= s@);
        }
    }
    let r = s.substring_char(0, i);
    r.to_owned()
}

/// The views of a vector of strings, element by element.
pub open spec fn views_of(v: Seq<String>) -> Seq<Seq<char>> {
    v.map_values(|s: String| s@)
}

/// The views of a vector of string slices, element by element.
pub open spec fn str_views(v: Seq<&str>) -> Seq<Seq<char>> {
    v.map_values(|s: &str| s@)
}

/// The views of a vector of optional strings, element by element.
pub open spec fn option_views(v: Seq<Option<String>>) -> Seq<Option<Seq<char>>> {
    v.map_values(
        |o: Option<String>|
            match o {
                Option::Some(s) => Option::Some(s@),
                Option::None => Option::None,
            },
    )
}

/// No two elements of `v` read the same.
pub open spec fn nodup_views(v: Seq<String>) -> bool {
    forall|i: int, j: int| 0 <= i < j < v.len() ==> v[i]@ != v[j]@
}

/// No element occurs twice.
pub open spec fn nodup_seq<T>(v: Seq<T>) -> bool {
    forall|i: int, j: int| 0 <= i < j < v.len() ==> v[i] != v[j]
}

/// Distinct strings have distinct views and the other way around.
pub proof fn lemma_nodup_views(v: Seq<String>)
    requires
        nodup_views(v),
    ensures
        nodup_seq(views_of(v)),
{
    assert forall|i: int, j: int| 0 <= i < j < views_of(v).len() implies views_of(v)[i]
        != views_of(v)[j] by {
        assert(views_of(v)[i] == v[i]@);
        assert(views_of(v)[j] == v[j]@);
    }
}

/// Membership in a sequence extended by one element.
pub proof fn lemma_contains_push<T>(v: Seq<T>, x: T, y: T)
    ensures
        v.push(x).contains(y) <==> (v.contains(y) || y == x),
{
    if v.push(x).contains(y) {
        let l = choose|l: int| 0 <= l < v.push(x).len() && v.push(x)[l] == y;
        if l < v.len() {
            assert(v[l] == y);
        }
    }
    if v.contains(y) {
        let l = choose|l: int| 0 <= l < v.len() && v[l] == y;
        assert(v.push(x)[l] == y);
    }
    assert(v.push(x)[v.len() as int] == x);
}

/// Pushing onto a vector of strings pushes its view onto the views.
pub proof fn lemma_views_push(v: Seq<String>, x: String)
    ensures
        views_of(v.push(x)) =~= views_of(v).push(x@),
{
    assert forall|i: int| 0 <= i < v.len() + 1 implies views_of(v.push(x))[i] == views_of(v).push(
        x@,
    )[i] by {
        if i < v.len() {
            assert(views_of(v.push(x))[i] == v[i]@);
        }
    }
}

/// Lines joined by one separator between neighbours, nothing trailing.
pub open spec fn joined_with(lines: Seq<Seq<char>>, sep: Seq<char>) -> Seq<char>
    decreases lines.len(),
{
    if lines.len() == 0 {
        Seq::empty()
    } else if lines.len() == 1 {
        lines[0]
    } else {
        joined_with(lines.drop_last(), sep) + sep + lines.last()
    }
}

/// Appending a line to a join appends a separator and the line, except to
/// an empty join.
pub proof fn lemma_joined_with_push(lines: Seq<Seq<char>>, sep: Seq<char>, x: Seq<char>)
    ensures
        lines.len() == 0 ==> joined_with(lines.push(x), sep) == x,
        lines.len() > 0 ==> joined_with(lines.push(x), sep) == joined_with(lines, sep) + sep + x,
    decreases lines.len(),
{
    let pushed = lines.push(x);
    if lines.len() == 0 {
        assert(joined_with(pushed, sep) == pushed[0]);
    } else {
        assert(pushed.drop_last() =~= lines);
        assert(pushed.last() == x);
    }
}

/// Joins the lines with the separator between neighbours.
pub fn join_with(lines: &Vec<String>, sep: &str) -> (r: String)
    ensures
        r@ == joined_with(views_of(lines@), sep@),
{
    let mut r = String::new();
    let n = lines.len();
    let mut i: usize = 0;
    while i < n
        invariant
            n == lines@.len(),
            0 <= i <= n,
            r@ == joined_with(views_of(lines@).subrange(0, i as int), sep@),
        decreases n - i,
    {
        let ghost done = views_of(lines@).subrange(0, i as int);
        if i > 0 {
            r.append(sep);
        }
        r.append(lines[i].as_str());
        proof {
            lemma_joined_with_push(done, sep@, views_of(lines@)[i as int]);
            assert(done.push(views_of(lines@)[i as int]) =~= views_of(lines@).subrange(
                0,
                i + 1,
            ));
            assert(views_of(lines@)[i as int] == lines@[i as int]@);
        }
        i = i + 1;
    }
    proof {
        assert(views_of(lines@).subrange(0, n as int) =~= views_of(lines@));
    }
    r
}

/// Character-by-character string equality.
pub fn str_eq(a: &str, b: &str) -> (r: bool)
    ensures
        r == (a@ == b@),
{
    let n = a.unicode_len();
    if n != b.unicode_len() {
        return false;
    }
    let mut i: usize = 0;
    while i < n
        invariant
            n == a@.len(),
            n == b@.len(),
            0 <= i <= n,
            forall|j: int| 0 <= j < i ==> a@[j] == b@[j],
        decreases n - i,
    {
        if a.get_char(i) != b.get_char(i) {
            return false;
        }
        i = i + 1;
    }
    proof {
        assert(a@ =~= b@);
    }
    true
}

/// Whether some element of `v` reads as `s` does.
pub fn contains_str(v: &Vec<String>, s: &str) -> (r: bool)
    ensures
        r == views_of(v@).contains(s@),
{
    let n = v.len();
    let mut i: usize = 0;
    while i < n
        invariant
            n == v@.len(),
            0 <= i <= n,
            forall|j: int| 0 <= j < i ==> v@[j]@ != s@,
        decreases n - i,
    {
        if str_eq(v[i].as_str(), s) {
            proof {
                assert(views_of(v@)[i as int] == s@);
            }
            return true;
        }
        i = i + 1;
    }
    proof {
        assert(forall|j: int| 0 <= j < views_of(v@).len() ==> views_of(v@)[j] != s@);
    }
    false
}

} // verus!
