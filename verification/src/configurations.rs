//! The configuration the trimmer runs under.
//!
//! `Cli` holds the paths and switches of one run; `Docker` wraps a `Cli`
//! together with the names of the source and destination images. All paths
//! are plain strings; the argument and environment surface that fills these
//! structs in a real run lives outside the library.

use vstd::prelude::*;
use crate::glob::{glob_pattern_ok, retrieve_glob_paths, GlobError};
use crate::paths::{
    join,
    join_spec,
    join_with,
    joined_with,
    nodup_views,
    prefix_before,
    prefix_before_spec,
    views_of,
};
use crate::disk::retain_existing_files;

verus! {

/// Which pruning strategy a run uses.
#[derive(Debug, PartialEq, Eq, Structural, Clone, Copy, Default)]
pub enum Strategy {
    /// Delete paths matching a fixed list of garbage patterns.
    #[default]
    Static,
    /// Delete everything the module graph does not reach.
    Ast,
}

/// Configuration of one trimmer run.
#[derive(Debug)]
pub struct Cli {
    /// Path to the project root.
    pub project_root_location: String,
    /// The application's entry points, each relative to the project root.
    pub entry_point_location: Vec<String>,
    /// Path to the installed dependency directory.
    pub node_modules_location: String,
    /// Path to the home directory.
    pub home_location: String,
    /// Whether to only report what would be removed.
    pub dry_run: bool,
    /// Whether the survivors are minified afterwards.
    pub minify: bool,
    /// Glob patterns of extra files to keep, relative to the project root.
    pub keep: Option<Vec<String>>,
    pub strategy: Strategy,
}

/// What a configuration says, with every path read as its character
/// sequence.
pub ghost struct CliView {
    pub project_root: Seq<char>,
    pub entry_points: Seq<Seq<char>>,
    pub node_modules: Seq<char>,
    pub home: Seq<char>,
    pub dry_run: bool,
    pub minify: bool,
    pub keep: Option<Seq<Seq<char>>>,
    pub strategy: Strategy,
}

impl View for Cli {
    type V = CliView;

    open spec fn view(&self) -> CliView {
        CliView {
            project_root: self.project_root_location@,
            entry_points: views_of(self.entry_point_location@),
            node_modules: self.node_modules_location@,
            home: self.home_location@,
            dry_run: self.dry_run,
            minify: self.minify,
            keep: match self.keep {
                Option::None => Option::None,
                Option::Some(v) => Option::Some(views_of(v@)),
            },
            strategy: self.strategy,
        }
    }
}

/// Copies a vector of strings element by element.
pub fn clone_string_vec(v: &Vec<String>) -> (r: Vec<String>)
    ensures
        r@ == v@,
{
    let mut r: Vec<String> = Vec::new();
    let n = v.len();
    let mut i: usize = 0;
    while i < n
        invariant
            n == v@.len(),
            0 <= i <= n,
            r@ =~= v@.subrange(0, i as int),
        decreases n - i,
    {
        r.push(v[i].clone());
        i = i + 1;
    }
    proof {
        assert(r@ =~= v@);
    }
    r
}

impl Clone for Cli {
    fn clone(&self) -> (r: Self)
        ensures
            r@ == self@,
    {
        Cli {
            project_root_location: self.project_root_location.clone(),
            entry_point_location: clone_string_vec(&self.entry_point_location),
            node_modules_location: self.node_modules_location.clone(),
            home_location: self.home_location.clone(),
            dry_run: self.dry_run,
            minify: self.minify,
            keep: match &self.keep {
                Option::None => Option::None,
                Option::Some(v) => Option::Some(clone_string_vec(v)),
            },
            strategy: self.strategy,
        }
    }
}

impl Default for Cli {
    /// The all-empty configuration; the argument surface of a real run fills
    /// in its own defaults before the library sees them.
    fn default() -> (r: Self)
        ensures
            r.project_root_location@.len() == 0,
            r.entry_point_location@.len() == 0,
            r.node_modules_location@.len() == 0,
            r.home_location@.len() == 0,
            !r.dry_run,
            !r.minify,
            r.keep is None,
            r.strategy == Strategy::Static,
    {
        Cli {
            project_root_location: String::new(),
            entry_point_location: Vec::new(),
            node_modules_location: String::new(),
            home_location: String::new(),
            dry_run: false,
            minify: false,
            keep: Option::None,
            strategy: Strategy::Static,
        }
    }
}

impl Cli {
    /// The globs the keep-file expansion runs: each keep pattern joined
    /// onto the project root, in order; none without keep patterns.
    pub fn keep_globs(&self) -> (r: Vec<String>)
        ensures
            match self@.keep {
                Option::Some(ks) => r@.len() == ks.len() && forall|i: int|
                    0 <= i < ks.len() ==> (#[trigger] r@[i]@) == join_spec(
                        self@.project_root,
                        ks[i],
                    ),
                Option::None => r@.len() == 0,
            },
    {
        let mut globs: Vec<String> = Vec::new();
        match &self.keep {
            Option::None => {},
            Option::Some(patterns) => {
                let n = patterns.len();
                let mut i: usize = 0;
                while i < n
                    invariant
                        n == patterns@.len(),
                        0 <= i <= n,
                        globs@.len() == i,
                        forall|k: int|
                            0 <= k < i ==> (#[trigger] globs@[k]@) == join_spec(
                                self.project_root_location@,
                                patterns@[k]@,
                            ),
                    decreases n - i,
                {
                    globs.push(join(self.project_root_location.as_str(), patterns[i].as_str()));
                    i = i + 1;
                }
                proof {
                    assert forall|k: int|
                        0 <= k < n implies views_of(patterns@)[k] == patterns@[k]@ by {}
                }
            },
        }
        globs
    }

    /// Expands the keep globs against the project root and returns the
    /// matches that are regular files, each once. With no keep patterns the
    /// answer is empty; the call fails exactly when some keep pattern,
    /// joined onto the project root, does not compile — a fatal
    /// configuration error.
    pub fn keep_files(&self) -> (r: Result<Vec<String>, GlobError>)
        ensures
            r matches Ok(v) ==> nodup_views(v@),
            self.keep is None ==> (r matches Ok(v) && v@.len() == 0),
            (r is Err) <==> (self@.keep matches Some(ks) && exists|i: int|
                0 <= i < ks.len() && !glob_pattern_ok(
                    #[trigger] join_spec(self@.project_root, ks[i]),
                )),
    {
        let globs = self.keep_globs();
        let found = match retrieve_glob_paths(&globs) {
            Ok(found) => found,
            Err(e) => {
                proof {
                    let ghost gvs = globs@;
                    assert(!(forall|i: int|
                        0 <= i < gvs.len() ==> glob_pattern_ok(#[trigger] gvs[i]@)));
                    let i = choose|i: int| 0 <= i < gvs.len() && !glob_pattern_ok(gvs[i]@);
                    assert(self@.keep is Some);
                    let ks = self@.keep->Some_0;
                    assert(gvs[i]@ == join_spec(self@.project_root, ks[i]));
                }
                return Err(e);
            },
        };
        proof {
            if self@.keep is Some {
                let ks = self@.keep->Some_0;
                assert forall|i: int|
                    0 <= i < ks.len() implies glob_pattern_ok(
                    #[trigger] join_spec(self@.project_root, ks[i]),
                ) by {
                    assert(globs@[i]@ == join_spec(self@.project_root, ks[i]));
                }
            }
        }
        let out = retain_existing_files(found);
        Ok(out)
    }
}

/// One rendered environment instruction.
pub open spec fn env_line_spec(name: Seq<char>, value: Seq<char>) -> Seq<char> {
    "ENV "@ + name + "="@ + value
}

/// What one character contributes to an escaped value: the usual
/// backslash escapes for quote, backslash, newline, carriage return and
/// tab; every other character stands for itself.
pub open spec fn escape_char(c: char) -> Seq<char> {
    if c == '"' {
        seq!['\\', '"']
    } else if c == '\\' {
        seq!['\\', '\\']
    } else if c == '\n' {
        seq!['\\', 'n']
    } else if c == '\r' {
        seq!['\\', 'r']
    } else if c == '\t' {
        seq!['\\', 't']
    } else {
        seq![c]
    }
}

/// The escaped form of a value, character by character.
pub open spec fn escape_spec(s: Seq<char>) -> Seq<char>
    decreases s.len(),
{
    if s.len() == 0 {
        Seq::empty()
    } else {
        escape_char(s[0]) + escape_spec(s.drop_first())
    }
}

/// Extending a value extends its escaped form at the end.
proof fn lemma_escape_push(s: Seq<char>, c: char)
    ensures
        escape_spec(s.push(c)) == escape_spec(s) + escape_char(c),
    decreases s.len(),
{
    if s.len() == 0 {
        assert(s.push(c)[0] == c);
        assert(s.push(c).drop_first() =~= Seq::<char>::empty());
        assert(escape_spec(s) == Seq::<char>::empty());
        assert(escape_spec(s.push(c)) == escape_char(c) + escape_spec(s.push(c).drop_first()));
        assert(escape_spec(s.push(c).drop_first()) == Seq::<char>::empty());
        assert(escape_spec(s.push(c)) =~= escape_spec(s) + escape_char(c));
    } else {
        assert(s.push(c)[0] == s[0]);
        assert(s.push(c).drop_first() =~= s.drop_first().push(c));
        lemma_escape_push(s.drop_first(), c);
        assert(escape_spec(s.push(c)) == escape_char(s[0]) + escape_spec(s.push(c).drop_first()));
        assert(escape_spec(s.push(c).drop_first()) == escape_spec(s.drop_first().push(c)));
        assert(escape_spec(s) == escape_char(s[0]) + escape_spec(s.drop_first()));
        assert(escape_spec(s.push(c)) =~= escape_spec(s) + escape_char(c));
    }
}

/// A value in quotes, its quotes and control characters escaped.
pub open spec fn quoted_spec(value: Seq<char>) -> Seq<char> {
    "\""@ + escape_spec(value) + "\""@
}

/// Escapes a value as `escape_spec` says.
fn escape_value(s: &str) -> (r: String)
    ensures
        r@ == escape_spec(s@),
{
    let mut r = String::new();
    let n = s.unicode_len();
    let mut i: usize = 0;
    while i < n
        invariant
            n == s@.len(),
            0 <= i <= n,
            r@ == escape_spec(s@.subrange(0, i as int)),
        decreases n - i,
    {
        let ghost done = s@.subrange(0, i as int);
        let c = s.get_char(i);
        if c == '"' {
            r.append("\\\"");
            proof {
                reveal_strlit("\\\"");
                assert("\\\""@ =~= escape_char(c));
            }
        } else if c == '\\' {
            r.append("\\\\");
            proof {
                reveal_strlit("\\\\");
                assert("\\\\"@ =~= escape_char(c));
            }
        } else if c == '\n' {
            r.append("\\n");
            proof {
                reveal_strlit("\\n");
                assert("\\n"@ =~= escape_char(c));
            }
        } else if c == '\r' {
            r.append("\\r");
            proof {
                reveal_strlit("\\r");
                assert("\\r"@ =~= escape_char(c));
            }
        } else if c == '\t' {
            r.append("\\t");
            proof {
                reveal_strlit("\\t");
                assert("\\t"@ =~= escape_char(c));
            }
        } else {
            let piece = s.substring_char(i, i + 1);
            r.append(piece);
            proof {
                assert(piece@ =~= seq![s@[i as int]]);
                assert(piece@ =~= escape_char(c));
            }
        }
        proof {
            lemma_escape_push(done, s@[i as int]);
            assert(done.push(s@[i as int]) =~= s@.subrange(0, i + 1));
        }
        i = i + 1;
    }
    proof {
        assert(s@.subrange(0, n as int) =~= s@);
    }
    r
}

/// Wraps a value in quotes, escaping as `quoted_spec` says.
fn quote_value(s: &str) -> (r: String)
    ensures
        r@ == quoted_spec(s@),
{
    let mut r = String::from_str("\"");
    let escaped = escape_value(s);
    r.append(escaped.as_str());
    r.append("\"");
    r
}

/// Renders one environment instruction.
fn make_env_line(name: &str, value: &str) -> (r: String)
    ensures
        r@ == env_line_spec(name@, value@),
{
    let mut r = String::from_str("ENV ");
    r.append(name);
    r.append("=");
    r.append(value);
    proof {
        assert(r@ =~= env_line_spec(name@, value@));
    }
    r
}

/// The name a strategy prints as.
pub open spec fn strategy_name_spec(s: Strategy) -> Seq<char> {
    match s {
        Strategy::Static => "Static"@,
        Strategy::Ast => "Ast"@,
    }
}

impl Strategy {
    /// The strategy's printed name.
    pub fn name(&self) -> (r: String)
        ensures
            r@ == strategy_name_spec(*self),
    {
        match self {
            Strategy::Static => String::from_str("Static"),
            Strategy::Ast => String::from_str("Ast"),
        }
    }
}

impl Cli {
    /// The ENV instruction lines a configuration renders to, in order: the
    /// four plain settings, the quoted comma-joined entry points, the
    /// switches that are on, and the quoted comma-joined keep patterns if
    /// any were given.
    pub open spec fn env_lines(self) -> Seq<Seq<char>> {
        seq![
            env_line_spec("PROJECT_ROOT_LOCATION"@, self@.project_root),
            env_line_spec("NODE_MODULES_LOCATION"@, self@.node_modules),
            env_line_spec("HOME_LOCATION"@, self@.home),
            env_line_spec("STRATEGY"@, strategy_name_spec(self@.strategy)),
            env_line_spec(
                "ENTRY_POINT_LOCATION"@,
                quoted_spec(joined_with(self@.entry_points, ","@)),
            ),
        ] + (if self@.dry_run {
            seq![env_line_spec("DRY_RUN"@, "true"@)]
        } else {
            Seq::empty()
        }) + (if self@.minify {
            seq![env_line_spec("MINIFY"@, "true"@)]
        } else {
            Seq::empty()
        }) + (match self@.keep {
            Option::Some(ks) => seq![env_line_spec("KEEP"@, quoted_spec(joined_with(ks, ","@)))],
            Option::None => Seq::empty(),
        })
    }

    /// Renders the configuration as ENV instructions, one per line, for a
    /// generated image description.
    pub fn to_dockerfile_env(&self) -> (r: String)
        ensures
            r@ == joined_with(self.env_lines(), "\n"@),
    {
        let mut lines: Vec<String> = Vec::new();
        lines.push(make_env_line("PROJECT_ROOT_LOCATION", self.project_root_location.as_str()));
        lines.push(make_env_line("NODE_MODULES_LOCATION", self.node_modules_location.as_str()));
        lines.push(make_env_line("HOME_LOCATION", self.home_location.as_str()));
        let strategy = self.strategy.name();
        lines.push(make_env_line("STRATEGY", strategy.as_str()));
        let entries = join_with(&self.entry_point_location, ",");
        let entries_quoted = quote_value(entries.as_str());
        lines.push(make_env_line("ENTRY_POINT_LOCATION", entries_quoted.as_str()));
        if self.dry_run {
            lines.push(make_env_line("DRY_RUN", "true"));
        }
        if self.minify {
            lines.push(make_env_line("MINIFY", "true"));
        }
        match &self.keep {
            Option::Some(ks) => {
                let joined = join_with(ks, ",");
                let keep_quoted = quote_value(joined.as_str());
                lines.push(make_env_line("KEEP", keep_quoted.as_str()));
            },
            Option::None => {},
        }
        proof {
            assert(views_of(lines@) =~= self.env_lines());
        }
        join_with(&lines, "\n")
    }
}

/// Configuration of a container-repackaging run.
#[derive(Debug)]
pub struct Docker {
    pub cli: Cli,
    /// The image the dependency tree is read from.
    pub source_image: String,
    /// The image the trimmed tree is written to.
    pub destination_image: String,
}

impl Default for Docker {
    fn default() -> (r: Self)
        ensures
            r.source_image@.len() == 0,
            r.destination_image@.len() == 0,
            r.cli.keep is None,
    {
        Docker { cli: Cli::default(), source_image: String::new(), destination_image: String::new() }
    }
}

impl Docker {
    /// When no destination image is named, derives one from the source image:
    /// its name up to the first tag or digest separator, tagged `:trimmed`.
    pub fn default_destination_image(&mut self)
        ensures
            old(self).destination_image@.len() == 0 ==> final(self).destination_image@
                == prefix_before_spec(prefix_before_spec(old(self).source_image@, ':'), '@')
                + ":trimmed"@,
            old(self).destination_image@.len() != 0 ==> final(self).destination_image
                == old(self).destination_image,
            final(self).cli == old(self).cli,
            final(self).source_image == old(self).source_image,
    {
        if self.destination_image.unicode_len() == 0 {
            let tagless = prefix_before(self.source_image.as_str(), ':');
            let mut named = prefix_before(tagless.as_str(), '@');
            named.append(":trimmed");
            self.destination_image = named;
        }
    }
}

} // verus!
