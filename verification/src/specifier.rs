//! Classification of import/require specifier strings.
//!
//! A specifier is routed by shape: asset suffixes (`.json`, `.node`,
//! case-insensitively) are kept without being parsed, `./`- and
//! `../`-relative names are resolved against the importing file, `node:`
//! builtins are dropped, and everything else is a bare specifier for the
//! package resolver.

use vstd::prelude::*;

verus! {

/// A specifier collected at an import/require site, tagged with whether the
/// CommonJS condition set applies to its resolution.
#[derive(Debug)]
pub struct ModuleSpecifier {
    pub name: String,
    pub is_cjs: bool,
}

/// The ASCII code of `c`'s lowercase form: letters `A`..`Z` move down into
/// `a`..`z`, every other character is left alone.
pub open spec fn lower_code(c: char) -> u32 {
    if 65 <= (c as u32) && (c as u32) <= 90 {
        ((c as u32) + 32) as u32
    } else {
        c as u32
    }
}

/// Case-insensitive (ASCII) equality of two characters.
pub open spec fn ci_eq(a: char, b: char) -> bool {
    lower_code(a) == lower_code(b)
}

/// `s` ends with `suffix`, compared case-insensitively per character.
pub open spec fn ends_with_ci(s: Seq<char>, suffix: Seq<char>) -> bool {
    s.len() >= suffix.len() && forall|i: int|
        0 <= i < suffix.len() ==> ci_eq(s[s.len() - suffix.len() + i], suffix[i])
}

pub open spec fn json_suffix() -> Seq<char> {
    seq!['.', 'j', 's', 'o', 'n']
}

pub open spec fn node_addon_suffix() -> Seq<char> {
    seq!['.', 'n', 'o', 'd', 'e']
}

/// An asset specifier names a file that is kept as data, never parsed.
pub open spec fn is_asset_spec(name: Seq<char>) -> bool {
    ends_with_ci(name, json_suffix()) || ends_with_ci(name, node_addon_suffix())
}

pub open spec fn starts_with(s: Seq<char>, prefix: Seq<char>) -> bool {
    s.len() >= prefix.len() && s.subrange(0, prefix.len() as int) == prefix
}

/// A local-relative specifier begins with `./` or `../`.
pub open spec fn is_local_spec(name: Seq<char>) -> bool {
    starts_with(name, seq!['.', '/']) || starts_with(name, seq!['.', '.', '/'])
}

/// A builtin specifier begins with the `node:` scheme.
pub open spec fn is_builtin_spec(name: Seq<char>) -> bool {
    starts_with(name, seq!['n', 'o', 'd', 'e', ':'])
}

/// How a specifier string is routed.
#[derive(Debug, PartialEq, Eq, Structural, Clone, Copy)]
pub enum SpecifierKind {
    /// `.json` or `.node` suffix: kept as data, not parsed.
    Asset,
    /// Begins with `./` or `../`: resolved against the importing file.
    Local,
    /// Begins with `node:`: provided by the runtime, dropped.
    Builtin,
    /// Anything else: handed to the package resolver.
    Bare,
}

/// The classification rules, evaluated in order: asset suffix first, then
/// local-relative shape, then the builtin scheme, else bare.
pub open spec fn classify_spec(name: Seq<char>) -> SpecifierKind {
    if is_asset_spec(name) {
        SpecifierKind::Asset
    } else if is_local_spec(name) {
        SpecifierKind::Local
    } else if is_builtin_spec(name) {
        SpecifierKind::Builtin
    } else {
        SpecifierKind::Bare
    }
}

/// Case-insensitive equality of two characters.
fn ci_eq_exec(a: char, b: char) -> (r: bool)
    ensures
        r == ci_eq(a, b),
{
    let ua = a as u32;
    let ub = b as u32;
    let la = if 65 <= ua && ua <= 90 { ua + 32 } else { ua };
    let lb = if 65 <= ub && ub <= 90 { ub + 32 } else { ub };
    la == lb
}

/// Whether the last five characters of `name` match `suffix` (itself five
/// characters long) ignoring ASCII case.
fn ends_with_ci_5(name: &str, s0: char, s1: char, s2: char, s3: char, s4: char) -> (r: bool)
    ensures
        r == ends_with_ci(name@, seq![s0, s1, s2, s3, s4]),
{
    let n = name.unicode_len();
    if n < 5 {
        return false;
    }
    let r = ci_eq_exec(name.get_char(n - 5), s0) && ci_eq_exec(name.get_char(n - 4), s1)
        && ci_eq_exec(name.get_char(n - 3), s2) && ci_eq_exec(name.get_char(n - 2), s3)
        && ci_eq_exec(name.get_char(n - 1), s4);
    proof {
        let suf = seq![s0, s1, s2, s3, s4];
        if r {
            assert forall|i: int| 0 <= i < 5 implies ci_eq(name@[name@.len() - 5 + i], suf[i]) by {
                assert(suf[0] == s0 && suf[1] == s1 && suf[2] == s2 && suf[3] == s3 && suf[4]
                    == s4);
            }
        }
    }
    r
}

/// Whether `name` is an asset specifier (`.json` or `.node` suffix,
/// case-insensitively).
pub fn is_asset_specifier(name: &str) -> (r: bool)
    ensures
        r == is_asset_spec(name@),
{
    ends_with_ci_5(name, '.', 'j', 's', 'o', 'n') || ends_with_ci_5(name, '.', 'n', 'o', 'd', 'e')
}

/// Whether `name` is a local-relative specifier.
pub fn is_local_module(name: &str) -> (r: bool)
    ensures
        r == is_local_spec(name@),
{
    let n = name.unicode_len();
    let r = n >= 2 && name.get_char(0) == '.' && (name.get_char(1) == '/' || (n >= 3
        && name.get_char(1) == '.' && name.get_char(2) == '/'));
    proof {
        if n >= 2 {
            assert(name@.subrange(0, 2) =~= seq![name@[0], name@[1]]);
            if n >= 3 {
                assert(name@.subrange(0, 3) =~= seq![name@[0], name@[1], name@[2]]);
            }
        }
    }
    r
}

/// Whether `name` uses the `node:` builtin scheme.
pub fn is_builtin_module(name: &str) -> (r: bool)
    ensures
        r == is_builtin_spec(name@),
{
    let n = name.unicode_len();
    let r = n >= 5 && name.get_char(0) == 'n' && name.get_char(1) == 'o' && name.get_char(2)
        == 'd' && name.get_char(3) == 'e' && name.get_char(4) == ':';
    proof {
        if n >= 5 {
            assert(name@.subrange(0, 5) =~= seq![name@[0], name@[1], name@[2], name@[3], name@[4]]);
        }
    }
    r
}

/// Routes a specifier string per the classification rules.
pub fn classify(name: &str) -> (k: SpecifierKind)
    ensures
        k == classify_spec(name@),
{
    if is_asset_specifier(name) {
        SpecifierKind::Asset
    } else if is_local_module(name) {
        SpecifierKind::Local
    } else if is_builtin_module(name) {
        SpecifierKind::Builtin
    } else {
        SpecifierKind::Bare
    }
}

} // verus!
