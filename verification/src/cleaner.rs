//! Computing what the pruner may delete.
//!
//! A `Cleaner` holds the garbage list of one run: every path that may be
//! deleted. The graph-driven constructor guarantees the two safety rules of
//! the pruner: a path in the keep-set is never garbage, and a `package.json`
//! is never garbage. Deleting is left to the caller; the ambient cache and
//! lockfile paths it should also remove are computed here.

use vstd::prelude::*;
use crate::configurations::{Cli, CliView};
use crate::disk::{canonicalize_entries, retain_existing_files};
use crate::glob::{glob_pattern_ok, retrieve_glob_paths, GlobError};
use crate::paths::{
    basename,
    basename_spec,
    contains_str,
    join,
    join_spec,
    lemma_contains_push,
    lemma_nodup_views,
    lemma_views_push,
    nodup_seq,
    nodup_views,
    option_views,
    str_eq,
    str_views,
    views_of,
};

verus! {

/// The garbage list of one run, with the configuration it was computed
/// under.
pub struct Cleaner {
    garbage: Vec<String>,
    configurations: Cli,
}

/// Whether the file at position `i` of the enumeration may be deleted
/// under keep-set `keep`: its canonical form is known and is not kept, and
/// its name is not `package.json`. A file whose canonical form the
/// filesystem would not give is preserved.
pub open spec fn deletable_at(
    files: Seq<Seq<char>>,
    canonicals: Seq<Option<Seq<char>>>,
    keep: Seq<Seq<char>>,
    i: int,
) -> bool {
    &&& canonicals[i] matches Some(c) && !keep.contains(c)
    &&& basename_spec(files[i]) != "package.json"@
}

/// The selection over the first `n` enumerated files, in order: the
/// deletable ones, by their enumerated spelling.
pub open spec fn selected_prefix(
    files: Seq<Seq<char>>,
    canonicals: Seq<Option<Seq<char>>>,
    keep: Seq<Seq<char>>,
    n: int,
) -> Seq<Seq<char>>
    decreases n,
{
    if n <= 0 {
        Seq::empty()
    } else if deletable_at(files, canonicals, keep, n - 1) {
        selected_prefix(files, canonicals, keep, n - 1).push(files[n - 1])
    } else {
        selected_prefix(files, canonicals, keep, n - 1)
    }
}

/// A path is in the selection over the first `n` files exactly when some
/// position below `n` holds it and is deletable.
pub proof fn lemma_selected_contains(
    files: Seq<Seq<char>>,
    canonicals: Seq<Option<Seq<char>>>,
    keep: Seq<Seq<char>>,
    n: int,
    p: Seq<char>,
)
    ensures
        selected_prefix(files, canonicals, keep, n).contains(p) <==> exists|i: int|
            0 <= i < n && files[i] == p && deletable_at(files, canonicals, keep, #[trigger] (i
                + 0)),
    decreases n,
{
    if n > 0 {
        lemma_selected_contains(files, canonicals, keep, n - 1, p);
        if deletable_at(files, canonicals, keep, n - 1) {
            lemma_contains_push(selected_prefix(files, canonicals, keep, n - 1), files[n - 1], p);
            if p == files[n - 1] {
                assert(deletable_at(files, canonicals, keep, (n - 1) + 0));
            }
        }
        if exists|i: int|
            0 <= i < n && files[i] == p && deletable_at(files, canonicals, keep, #[trigger] (i
                + 0)) {
            let i = choose|i: int|
                0 <= i < n && files[i] == p && deletable_at(files, canonicals, keep, #[trigger] (i
                    + 0));
            if i < n - 1 {
                assert(selected_prefix(files, canonicals, keep, n - 1).contains(p));
                if deletable_at(files, canonicals, keep, n - 1) {
                    lemma_contains_push(
                        selected_prefix(files, canonicals, keep, n - 1),
                        files[n - 1],
                        p,
                    );
                }
            }
        }
    }
}

/// Picks, from the regular files found under the dependency directories,
/// exactly those that may be deleted, in enumeration order: a path is
/// selected if and only if it was found with a known canonical form that
/// is not in the keep-set, and it is not named `package.json`. Membership
/// in the keep-set is decided on the canonical form; the selected spelling
/// is the enumerated one. When no position is deletable — as after a
/// prune that left only kept files and manifests — nothing is selected.
pub fn select_garbage(
    files: Vec<String>,
    canonicals: &Vec<Option<String>>,
    module_graph: &Vec<String>,
) -> (r: Vec<String>)
    requires
        nodup_views(files@),
        canonicals@.len() == files@.len(),
    ensures
        nodup_views(r@),
        views_of(r@) == selected_prefix(
            views_of(files@),
            option_views(canonicals@),
            views_of(module_graph@),
            files@.len() as int,
        ),
        forall|p: Seq<char>|
            views_of(r@).contains(p) <==> exists|i: int|
                0 <= i < files@.len() && views_of(files@)[i] == p && deletable_at(
                    views_of(files@),
                    option_views(canonicals@),
                    views_of(module_graph@),
                    #[trigger] (i + 0),
                ),
        (forall|i: int|
            0 <= i < files@.len() ==> !deletable_at(
                views_of(files@),
                option_views(canonicals@),
                views_of(module_graph@),
                #[trigger] (i + 0),
            )) ==> r@.len() == 0,
{
    let ghost fv = views_of(files@);
    let ghost cv = option_views(canonicals@);
    let ghost keep = views_of(module_graph@);
    let mut out: Vec<String> = Vec::new();
    let m = files.len();
    let mut j: usize = 0;
    while j < m
        invariant
            m == files@.len(),
            canonicals@.len() == files@.len(),
            0 <= j <= m,
            fv == views_of(files@),
            cv == option_views(canonicals@),
            keep == views_of(module_graph@),
            nodup_views(files@),
            nodup_views(out@),
            views_of(out@) == selected_prefix(fv, cv, keep, j as int),
        decreases m - j,
    {
        let wanted = match &canonicals[j] {
            Option::Some(c) => !contains_str(module_graph, c.as_str()),
            Option::None => false,
        } && !str_eq(basename(files[j].as_str()).as_str(), "package.json");
        proof {
            assert(cv[j as int] == match canonicals@[j as int] {
                Option::Some(s) => Option::Some(s@),
                Option::None => Option::<Seq<char>>::None,
            });
            assert(fv[j as int] == files@[j as int]@);
            assert(wanted == deletable_at(fv, cv, keep, j as int));
        }
        let ghost prev = out@;
        if wanted {
            let p = files[j].clone();
            proof {
                assert(!selected_prefix(fv, cv, keep, j as int).contains(fv[j as int])) by {
                    lemma_selected_contains(fv, cv, keep, j as int, fv[j as int]);
                    if exists|i: int|
                        0 <= i < j && fv[i] == fv[j as int] && deletable_at(
                            fv,
                            cv,
                            keep,
                            #[trigger] (i + 0),
                        ) {
                        let i = choose|i: int|
                            0 <= i < j && fv[i] == fv[j as int] && deletable_at(
                                fv,
                                cv,
                                keep,
                                #[trigger] (i + 0),
                            );
                        assert(files@[i]@ == files@[j as int]@);
                    }
                }
                assert forall|k: int| 0 <= k < prev.len() implies prev[k]@ != p@ by {
                    assert(views_of(prev)[k] == prev[k]@);
                    assert(views_of(prev).contains(views_of(prev)[k]));
                }
                lemma_views_push(prev, p);
            }
            out.push(p);
            proof {
                assert(views_of(out@) =~= selected_prefix(fv, cv, keep, j + 1));
            }
        } else {
            proof {
                assert(views_of(out@) == selected_prefix(fv, cv, keep, j + 1));
            }
        }
        j = j + 1;
    }
    proof {
        assert forall|p: Seq<char>|
            views_of(out@).contains(p) <==> exists|i: int|
                0 <= i < files@.len() && views_of(files@)[i] == p && deletable_at(
                    fv,
                    cv,
                    keep,
                    #[trigger] (i + 0),
                ) by {
            lemma_selected_contains(fv, cv, keep, m as int, p);
        }
        if (forall|i: int| 0 <= i < files@.len() ==> !deletable_at(fv, cv, keep, #[trigger] (i + 0)))
            && out@.len() > 0 {
            assert(views_of(out@).contains(out@[0]@)) by {
                assert(views_of(out@)[0] == out@[0]@);
            }
        }
    }
    out
}

impl Cleaner {
    /// The paths the pruner may delete.
    pub closed spec fn garbage_views(self) -> Seq<Seq<char>> {
        views_of(self.garbage@)
    }

    /// The configuration the garbage was computed under.
    pub closed spec fn config(self) -> CliView {
        self.configurations@
    }

    /// One of the two globs the graph-driven pruner enumerates with:
    /// everything beneath a `node_modules` directory beneath the project
    /// root, ending in `leaf` (`*` for plain entries, `.*` for dotfiles).
    pub open spec fn node_modules_pattern(root: Seq<char>, leaf: Seq<char>) -> Seq<char> {
        join_spec(join_spec(join_spec(join_spec(root, "**"@), "node_modules"@), "**"@), leaf)
    }

    /// Computes the garbage from a keep-set: the enumeration of the two
    /// `node_modules` globs is narrowed to regular files, each file is
    /// canonicalized, and `select_garbage` keeps exactly the files whose
    /// canonical form is not in the keep-set and whose name is not
    /// `package.json`. The call fails exactly when one of the two globs
    /// does not compile.
    pub fn from_module_graph(configurations: &Cli, module_graph: &Vec<String>) -> (r: Result<
        Cleaner,
        GlobError,
    >)
        ensures
            r matches Ok(c) ==> {
                &&& c.config() == configurations@
                &&& nodup_seq(c.garbage_views())
                &&& forall|k: int|
                    0 <= k < c.garbage_views().len() ==> basename_spec(
                        #[trigger] c.garbage_views()[k],
                    ) != "package.json"@
            },
            (r is Err) <==> (!glob_pattern_ok(
                Self::node_modules_pattern(configurations@.project_root, "*"@),
            ) || !glob_pattern_ok(
                Self::node_modules_pattern(configurations@.project_root, ".*"@),
            )),
    {
        let under_root = join(configurations.project_root_location.as_str(), "**");
        let node_modules = join(under_root.as_str(), "node_modules");
        let base = join(node_modules.as_str(), "**");
        let mut patterns: Vec<String> = Vec::new();
        patterns.push(join(base.as_str(), "*"));
        patterns.push(join(base.as_str(), ".*"));
        proof {
            assert(patterns@[0]@ == Self::node_modules_pattern(
                configurations@.project_root,
                "*"@,
            ));
            assert(patterns@[1]@ == Self::node_modules_pattern(
                configurations@.project_root,
                ".*"@,
            ));
        }
        let entries = match retrieve_glob_paths(&patterns) {
            Result::Ok(e) => e,
            Result::Err(e) => {
                proof {
                    assert(!(forall|i: int|
                        0 <= i < patterns@.len() ==> glob_pattern_ok(#[trigger] patterns@[i]@)));
                    let i = choose|i: int|
                        0 <= i < patterns@.len() && !glob_pattern_ok(patterns@[i]@);
                    assert(i == 0 || i == 1);
                }
                return Result::Err(e);
            },
        };
        proof {
            assert(glob_pattern_ok(patterns@[0]@));
            assert(glob_pattern_ok(patterns@[1]@));
        }
        let files = retain_existing_files(entries);
        let canonicals = canonicalize_entries(&files);
        let garbage = select_garbage(files, &canonicals, module_graph);
        proof {
            assert forall|k: int|
                0 <= k < garbage@.len() implies basename_spec(#[trigger] garbage@[k]@)
                != "package.json"@ by {
                assert(views_of(garbage@)[k] == garbage@[k]@);
                assert(views_of(garbage@).contains(garbage@[k]@));
            }
            lemma_nodup_views(garbage@);
        }
        Result::Ok(Cleaner { garbage, configurations: configurations.clone() })
    }

    /// One of the globs of the static strategy: the fixed garbage name at
    /// position `i`, rooted anywhere beneath the dependency directory.
    pub open spec fn static_pattern(node_modules: Seq<char>, i: int) -> Seq<char> {
        join_spec(join_spec(node_modules, "**"@), static_garbage_names()[i])
    }

    /// Computes the garbage of the static strategy: the union of the
    /// matches of the fixed garbage patterns, each rooted beneath the
    /// dependency directory. The call fails exactly when one of those
    /// patterns does not compile against this dependency path.
    pub fn from_static_garbage(configurations: &Cli) -> (r: Result<Cleaner, GlobError>)
        ensures
            r matches Ok(c) ==> c.config() == configurations@ && nodup_seq(c.garbage_views()),
            (r is Err) <==> exists|i: int|
                0 <= i < static_garbage_names().len() && !glob_pattern_ok(
                    #[trigger] Self::static_pattern(configurations@.node_modules, i),
                ),
    {
        let items = static_garbage_items();
        let below = join(configurations.node_modules_location.as_str(), "**");
        let mut patterns: Vec<String> = Vec::new();
        let n = items.len();
        let mut i: usize = 0;
        while i < n
            invariant
                n == items@.len(),
                str_views(items@) == static_garbage_names(),
                below@ == join_spec(configurations@.node_modules, "**"@),
                0 <= i <= n,
                patterns@.len() == i,
                forall|k: int|
                    0 <= k < i ==> (#[trigger] patterns@[k]@) == Self::static_pattern(
                        configurations@.node_modules,
                        k,
                    ),
            decreases n - i,
        {
            proof {
                assert(str_views(items@)[i as int] == items@[i as int]@);
            }
            patterns.push(join(below.as_str(), items[i]));
            i = i + 1;
        }
        match retrieve_glob_paths(&patterns) {
            Result::Ok(garbage) => {
                proof {
                    lemma_nodup_views(garbage@);
                    assert forall|k: int|
                        0 <= k < static_garbage_names().len() implies glob_pattern_ok(
                        #[trigger] Self::static_pattern(configurations@.node_modules, k),
                    ) by {
                        assert(patterns@[k]@ == Self::static_pattern(
                            configurations@.node_modules,
                            k,
                        ));
                    }
                }
                Result::Ok(Cleaner { garbage, configurations: configurations.clone() })
            },
            Result::Err(e) => {
                proof {
                    assert(!(forall|k: int|
                        0 <= k < patterns@.len() ==> glob_pattern_ok(#[trigger] patterns@[k]@)));
                    let k = choose|k: int|
                        0 <= k < patterns@.len() && !glob_pattern_ok(patterns@[k]@);
                    assert(!glob_pattern_ok(
                        Self::static_pattern(configurations@.node_modules, k),
                    ));
                }
                Result::Err(e)
            },
        }
    }

    /// The paths the pruner may delete.
    pub fn retrieve_garbage(&self) -> (r: &Vec<String>)
        ensures
            views_of(r@) == self.garbage_views(),
    {
        &self.garbage
    }

    /// The npm cache directory, deleted along with the garbage.
    pub fn npm_cache_path(&self) -> (r: String)
        ensures
            r@ == join_spec(self.config().home, ".npm"@),
    {
        join(self.configurations.home_location.as_str(), ".npm")
    }

    /// The pnpm state and store directories, deleted along with the garbage.
    pub fn pnpm_cache_paths(&self) -> (r: Vec<String>)
        ensures
            r@.len() == 2,
            r@[0]@ == join_spec(self.config().home, ".pnpm-state"@),
            r@[1]@ == join_spec(
                join_spec(join_spec(self.config().home, ".local"@), "share"@),
                "pnpm"@,
            ),
    {
        let home = self.configurations.home_location.as_str();
        let mut r: Vec<String> = Vec::new();
        r.push(join(home, ".pnpm-state"));
        let local = join(home, ".local");
        let share = join(local.as_str(), "share");
        r.push(join(share.as_str(), "pnpm"));
        r
    }

    /// The lockfiles at the project root, deleted along with the garbage:
    /// once dependencies are installed they are not needed at runtime.
    pub fn lock_file_paths(&self) -> (r: Vec<String>)
        ensures
            r@.len() == 3,
            r@[0]@ == join_spec(self.config().project_root, "package-lock.json"@),
            r@[1]@ == join_spec(self.config().project_root, "yarn.lock"@),
            r@[2]@ == join_spec(self.config().project_root, "pnpm-lock.yaml"@),
    {
        let root = self.configurations.project_root_location.as_str();
        let mut r: Vec<String> = Vec::new();
        r.push(join(root, "package-lock.json"));
        r.push(join(root, "yarn.lock"));
        r.push(join(root, "pnpm-lock.yaml"));
        r
    }
}

/// The fixed garbage names and patterns of the static strategy, as
/// written: documentation, tests, editor and CI configuration, type
/// declarations, and other files a production tree does not need.
pub open spec fn static_garbage_names() -> Seq<Seq<char>> {
    seq![
        "@types"@,
        "bench"@,
        "browser"@,
        "docs"@,
        "example"@,
        "examples"@,
        "test"@,
        "tests"@,
        "benchmark"@,
        "integration"@,
        ".bin"@,
        "*.md"@,
        "*.markdown"@,
        "*.map"@,
        "*.ts"@,
        "license"@,
        "contributing"@,
        ".nycrc"@,
        "makefile"@,
        ".DS_Store"@,
        ".markdownlint-cli2.yaml"@,
        ".editorconfig"@,
        ".nvmrc"@,
        "bower.json"@,
        ".airtap.yml"@,
        "jenkinsfile"@,
        ".snyk"@,
        ".*ignore"@,
        "*eslint*"@,
        "*stylelint*"@,
        "*.min.*"@,
        "browser.*js"@,
        ".travis.*"@,
        ".coveralls.*"@,
        "tsconfig.*"@,
        ".prettierrc*"@,
        "*.bak"@,
        "karma.conf.*"@,
        ".git*"@,
        ".tap*"@,
        ".c8*"@,
        "gulpfile.*"@,
        "gruntfile.*"@,
        ".npm*"@,
        "yarn*"@,
    ]
}

/// The fixed list of garbage names and patterns of the static strategy,
/// exactly the names `static_garbage_names` spells.
fn static_garbage_items() -> (r: Vec<&'static str>)
    ensures
        str_views(r@) == static_garbage_names(),
{
    let mut items: Vec<&'static str> = Vec::new();
    items.push("@types");
    items.push("bench");
    items.push("browser");
    items.push("docs");
    items.push("example");
    items.push("examples");
    items.push("test");
    items.push("tests");
    items.push("benchmark");
    items.push("integration");
    items.push(".bin");
    items.push("*.md");
    items.push("*.markdown");
    items.push("*.map");
    items.push("*.ts");
    items.push("license");
    items.push("contributing");
    items.push(".nycrc");
    items.push("makefile");
    items.push(".DS_Store");
    items.push(".markdownlint-cli2.yaml");
    items.push(".editorconfig");
    items.push(".nvmrc");
    items.push("bower.json");
    items.push(".airtap.yml");
    items.push("jenkinsfile");
    items.push(".snyk");
    items.push(".*ignore");
    items.push("*eslint*");
    items.push("*stylelint*");
    items.push("*.min.*");
    items.push("browser.*js");
    items.push(".travis.*");
    items.push(".coveralls.*");
    items.push("tsconfig.*");
    items.push(".prettierrc*");
    items.push("*.bak");
    items.push("karma.conf.*");
    items.push(".git*");
    items.push(".tap*");
    items.push(".c8*");
    items.push("gulpfile.*");
    items.push("gruntfile.*");
    items.push(".npm*");
    items.push("yarn*");
    proof {
        assert(str_views(items@) =~= static_garbage_names());
    }
    items
}

} // verus!
