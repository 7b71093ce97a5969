//! The module-graph resolver.
//!
//! A `Visitor` carries the state of one run: a work queue of files still to
//! parse, the set of canonical paths known to be needed (the keep-set), and
//! the specifiers collected at the file currently being parsed. The caller
//! parses each file the queue hands out and reports the collected
//! specifiers back; everything else — classification, local resolution,
//! package resolution, deduplication — happens here.
//!
//! Invariants, stated in `wf` and preserved by every method: the keep-set
//! holds only absolute paths, each once; every queued file is in the
//! keep-set; the seed paths stay in the keep-set; and the keep-set only
//! ever grows.

use vstd::prelude::*;
use crate::configurations::Cli;
use crate::disk::{canonicalize_path, path_is_file};
use crate::paths::{
    contains_str,
    dirname,
    dirname_spec,
    is_absolute,
    join,
    join_spec,
    lemma_contains_push,
    lemma_views_push,
    nodup_views,
    views_of,
};
use crate::glob::glob_pattern_ok;
use crate::resolver::{build_resolver, resolve_specifier};
use crate::specifier::{
    classify_spec,
    is_asset_specifier,
    is_builtin_module,
    is_local_module,
    is_local_spec,
    ModuleSpecifier,
    SpecifierKind,
};

verus! {

/// A fatal configuration error while seeding a run.
#[derive(Debug, PartialEq, Eq, Structural, Clone, Copy)]
pub enum VisitorError {
    /// An entry point could not be canonicalized.
    EntryPointNotCanonical,
    /// A keep glob did not compile.
    InvalidKeepPattern,
}

/// The state of one module-graph run.
pub struct Visitor {
    modules_to_visit: Vec<ModuleSpecifier>,
    files_to_visit: Vec<String>,
    paths_found: Vec<String>,
    current_path: String,
    seeds: Ghost<Set<Seq<char>>>,
}

impl Visitor {
    /// The keep-set as an ordered sequence of path views.
    pub closed spec fn keep_views(self) -> Seq<Seq<char>> {
        views_of(self.paths_found@)
    }

    /// Whether `p` is in the keep-set.
    pub open spec fn keeps(self, p: Seq<char>) -> bool {
        self.keep_views().contains(p)
    }

    /// The keep-set.
    pub closed spec fn keep_set(self) -> Set<Seq<char>> {
        Set::new(|p: Seq<char>| self.keeps(p))
    }

    /// The queue of files still to parse, front first.
    pub closed spec fn queue(self) -> Seq<Seq<char>> {
        views_of(self.files_to_visit@)
    }

    /// The specifiers collected at the current file and not yet resolved.
    pub closed spec fn pending(self) -> Seq<(Seq<char>, bool)> {
        self.modules_to_visit@.map_values(|m: ModuleSpecifier| (m.name@, m.is_cjs))
    }

    /// The canonical paths the run was seeded with.
    pub closed spec fn seed_set(self) -> Set<Seq<char>> {
        self.seeds@
    }

    /// The file currently being parsed.
    pub closed spec fn current(self) -> Seq<char> {
        self.current_path@
    }

    /// Well-formedness: the keep-set holds absolute paths, each once; every
    /// queued file and every seed is kept; pending specifiers are distinct.
    pub closed spec fn wf(self) -> bool {
        &&& nodup_views(self.paths_found@)
        &&& forall|i: int|
            0 <= i < self.paths_found@.len() ==> is_absolute(#[trigger] self.paths_found@[i]@)
        &&& forall|i: int|
            0 <= i < self.files_to_visit@.len() ==> self.keeps(#[trigger] self.files_to_visit@[i]@)
        &&& self.seeds@.subset_of(self.keep_set())
        &&& forall|i: int, j: int|
            0 <= i < j < self.pending().len() ==> self.pending()[i] != self.pending()[j]
    }

    /// The keep-set after is the keep-set before, possibly extended.
    pub open spec fn keep_grew(pre: Visitor, post: Visitor) -> bool {
        forall|p: Seq<char>| pre.keeps(p) ==> post.keeps(p)
    }

    /// Fields a classification step never touches.
    pub open spec fn frame(pre: Visitor, post: Visitor) -> bool {
        &&& post.seed_set() == pre.seed_set()
        &&& post.current() == pre.current()
    }

    /// Starts a run whose queue and keep-set both hold exactly the given
    /// canonical files, first occurrences in order.
    pub fn from_seeds(seed_files: Vec<String>) -> (v: Visitor)
        requires
            forall|i: int| 0 <= i < seed_files@.len() ==> is_absolute(#[trigger] seed_files@[i]@),
        ensures
            v.wf(),
            v.pending().len() == 0,
            v.queue() == v.keep_views(),
            forall|i: int| 0 <= i < seed_files@.len() ==> v.keeps(#[trigger] seed_files@[i]@),
            forall|p: Seq<char>| v.keeps(p) ==> views_of(seed_files@).contains(p),
            v.seed_set() == v.keep_set(),
            v.current().len() == 0,
    {
        let mut v = Visitor {
            modules_to_visit: Vec::new(),
            files_to_visit: Vec::new(),
            paths_found: Vec::new(),
            current_path: String::new(),
            seeds: Ghost(Set::empty()),
        };
        let n = seed_files.len();
        let mut i: usize = 0;
        while i < n
            invariant
                n == seed_files@.len(),
                0 <= i <= n,
                forall|k: int|
                    0 <= k < seed_files@.len() ==> is_absolute(#[trigger] seed_files@[k]@),
                v.pending().len() == 0,
                v.queue() == v.keep_views(),
                nodup_views(v.paths_found@),
                forall|k: int|
                    0 <= k < v.paths_found@.len() ==> is_absolute(#[trigger] v.paths_found@[k]@),
                forall|k: int| 0 <= k < i ==> v.keeps(#[trigger] seed_files@[k]@),
                forall|p: Seq<char>|
                    v.keeps(p) ==> views_of(seed_files@).contains(p),
                v.current_path@.len() == 0,
            decreases n - i,
        {
            let ghost v0 = v;
            if !contains_str(&v.paths_found, seed_files[i].as_str()) {
                let p = seed_files[i].clone();
                let q = seed_files[i].clone();
                let ghost prev = v.paths_found@;
                proof {
                    assert forall|k: int| 0 <= k < prev.len() implies prev[k]@ != p@ by {
                        assert(views_of(prev)[k] == prev[k]@);
                    }
                    lemma_views_push(prev, p);
                    lemma_views_push(v.files_to_visit@, q);
                }
                v.paths_found.push(p);
                v.files_to_visit.push(q);
                proof {
                    assert(views_of(seed_files@)[i as int] == seed_files@[i as int]@);
                    assert(v.keep_views() == views_of(prev).push(p@));
                    assert forall|x: Seq<char>| v.keeps(x) implies views_of(seed_files@).contains(
                        x,
                    ) by {
                        lemma_contains_push(views_of(prev), p@, x);
                        if x != p@ {
                            assert(v0.keeps(x));
                        }
                    }
                    assert forall|k: int| 0 <= k <= i implies v.keeps(
                        #[trigger] seed_files@[k]@,
                    ) by {
                        lemma_contains_push(views_of(prev), p@, seed_files@[k]@);
                        if k < i {
                            assert(v0.keeps(seed_files@[k]@));
                        }
                    }
                }
            } else {
                proof {
                    assert(v.keeps(seed_files@[i as int]@));
                }
            }
            i = i + 1;
        }
        let ghost v_end = v;
        proof {
            v.seeds@ = v.keep_set();
        }
        proof {
            assert forall|p: Seq<char>| v.keeps(p) implies views_of(seed_files@).contains(p) by {
                assert(v_end.keeps(p));
            }
            assert forall|k: int| 0 <= k < seed_files@.len() implies v.keeps(
                #[trigger] seed_files@[k]@,
            ) by {
                assert(v_end.keeps(seed_files@[k]@));
            }
            assert forall|k: int|
                0 <= k < v.files_to_visit@.len() implies v.keeps(
                #[trigger] v.files_to_visit@[k]@,
            ) by {
                assert(v.queue()[k] == v.files_to_visit@[k]@);
                assert(v.keep_views()[k] == v.files_to_visit@[k]@);
            }
        }
        v
    }

    /// Adding one fresh absolute path to the found paths keeps the visitor
    /// well-formed and grows the keep-set by exactly that path.
    proof fn lemma_push_found(pre: Visitor, post: Visitor, x: String)
        requires
            pre.wf(),
            is_absolute(x@),
            !pre.keeps(x@),
            post.paths_found@ == pre.paths_found@.push(x),
            post.files_to_visit@ == pre.files_to_visit@,
            post.modules_to_visit@ == pre.modules_to_visit@,
            post.seeds@ == pre.seeds@,
        ensures
            post.wf(),
            Self::keep_grew(pre, post),
            post.keep_views() == pre.keep_views().push(x@),
            post.keeps(x@),
            post.queue() == pre.queue(),
            post.pending() == pre.pending(),
    {
        let pf = pre.paths_found@;
        lemma_views_push(pf, x);
        assert forall|p: Seq<char>| pre.keeps(p) implies post.keeps(p) by {
            lemma_contains_push(views_of(pf), x@, p);
        }
        assert(post.keeps(x@)) by {
            lemma_contains_push(views_of(pf), x@, x@);
        }
        assert forall|k: int| 0 <= k < pf.len() implies pf[k]@ != x@ by {
            assert(views_of(pf)[k] == pf[k]@);
        }
        assert forall|i: int|
            0 <= i < post.paths_found@.len() implies is_absolute(
            #[trigger] post.paths_found@[i]@,
        ) by {
            if i < pf.len() {
                assert(post.paths_found@[i] == pf[i]);
            }
        }
        assert forall|i: int, j: int| 0 <= i < j < post.paths_found@.len() implies post.paths_found@[i]@
            != post.paths_found@[j]@ by {
            if j < pf.len() {
                assert(pf[i]@ != pf[j]@);
            } else {
                assert(post.paths_found@[j] == x);
                assert(pf[i]@ != x@);
            }
        }
        assert forall|i: int|
            0 <= i < post.files_to_visit@.len() implies post.keeps(
            #[trigger] post.files_to_visit@[i]@,
        ) by {
            assert(pre.keeps(pre.files_to_visit@[i]@));
        }
        assert forall|p: Seq<char>| post.seeds@.contains(p) implies post.keep_set().contains(
            p,
        ) by {
            assert(pre.keep_set().contains(p));
            assert(pre.keeps(p));
        }
        assert(post.seeds@.subset_of(post.keep_set()));
        // Restating the remaining well-formedness conjuncts here gives the
        // prover the trigger terms it needs to discharge `post.wf()`.
        assert(nodup_views(post.paths_found@));
        assert(forall|i: int|
            0 <= i < post.paths_found@.len() ==> is_absolute(#[trigger] post.paths_found@[i]@));
        assert(forall|i: int|
            0 <= i < post.files_to_visit@.len() ==> post.keeps(
                #[trigger] post.files_to_visit@[i]@,
            ));
        assert(post.pending() == pre.pending());
        assert(forall|i: int, j: int|
            0 <= i < j < post.pending().len() ==> post.pending()[i] != post.pending()[j]);
    }

    /// Adding one fresh pending specifier keeps the visitor well-formed and
    /// extends the pending sequence by exactly that pair.
    proof fn lemma_push_pending(pre: Visitor, post: Visitor, m: ModuleSpecifier)
        requires
            pre.wf(),
            !pre.pending().contains((m.name@, m.is_cjs)),
            post.modules_to_visit@ == pre.modules_to_visit@.push(m),
            post.paths_found@ == pre.paths_found@,
            post.files_to_visit@ == pre.files_to_visit@,
            post.seeds@ == pre.seeds@,
        ensures
            post.wf(),
            post.pending() =~= pre.pending().push((m.name@, m.is_cjs)),
            post.keep_views() == pre.keep_views(),
            post.queue() == pre.queue(),
    {
        let f = |mm: ModuleSpecifier| (mm.name@, mm.is_cjs);
        assert(post.pending() =~= pre.pending().push((m.name@, m.is_cjs))) by {
            assert forall|i: int| 0 <= i < post.pending().len() implies post.pending()[i]
                == pre.pending().push((m.name@, m.is_cjs))[i] by {
                if i < pre.pending().len() {
                    assert(post.pending()[i] == f(pre.modules_to_visit@[i]));
                }
            }
        }
        assert forall|i: int, j: int| 0 <= i < j < post.pending().len() implies post.pending()[i]
            != post.pending()[j] by {
            if j < pre.pending().len() {
                assert(pre.pending()[i] != pre.pending()[j]);
            } else {
                assert(post.pending()[j] == (m.name@, m.is_cjs));
                assert(pre.pending().contains(pre.pending()[i]));
            }
        }
        assert forall|i: int|
            0 <= i < post.files_to_visit@.len() implies post.keeps(
            #[trigger] post.files_to_visit@[i]@,
        ) by {
            assert(pre.keeps(pre.files_to_visit@[i]@));
        }
        assert forall|p: Seq<char>| post.seeds@.contains(p) implies post.keep_set().contains(
            p,
        ) by {
            assert(pre.keep_set().contains(p));
            assert(pre.keeps(p));
        }
    }

    /// Whether the pair is already among the pending specifiers.
    fn contains_module(&self, name: &str, is_cjs: bool) -> (r: bool)
        ensures
            r == self.pending().contains((name@, is_cjs)),
    {
        let n = self.modules_to_visit.len();
        let mut i: usize = 0;
        while i < n
            invariant
                n == self.modules_to_visit@.len(),
                0 <= i <= n,
                forall|j: int| 0 <= j < i ==> #[trigger] self.pending()[j] != (name@, is_cjs),
            decreases n - i,
        {
            proof {
                assert(self.pending()[i as int] == (
                    self.modules_to_visit@[i as int].name@,
                    self.modules_to_visit@[i as int].is_cjs,
                ));
            }
            if self.modules_to_visit[i].is_cjs == is_cjs && crate::paths::str_eq(
                self.modules_to_visit[i].name.as_str(),
                name,
            ) {
                return true;
            }
            i = i + 1;
        }
        proof {
            assert(forall|j: int|
                0 <= j < self.pending().len() ==> #[trigger] self.pending()[j] != (name@, is_cjs));
        }
        false
    }

    /// Records `(name, is_cjs)` for resolution after the current file's walk,
    /// unless the same pair is already pending. Returns whether it was new.
    pub fn insert_module(&mut self, module: String, is_cjs: bool) -> (r: bool)
        requires
            old(self).wf(),
        ensures
            final(self).wf(),
            Self::frame(*old(self), *final(self)),
            r == !old(self).pending().contains((module@, is_cjs)),
            r ==> final(self).pending() == old(self).pending().push((module@, is_cjs)),
            !r ==> final(self).pending() == old(self).pending(),
            final(self).keep_views() == old(self).keep_views(),
            final(self).queue() == old(self).queue(),
    {
        if self.contains_module(module.as_str(), is_cjs) {
            false
        } else {
            let m = ModuleSpecifier { name: module, is_cjs };
            let ghost pre = *self;
            let ghost mg = m;
            self.modules_to_visit.push(m);
            proof {
                Self::lemma_push_pending(pre, *self, mg);
            }
            true
        }
    }

    /// Records one canonical path in the keep-set: a fresh path is
    /// appended, a path already kept leaves the state as it was; either
    /// way the path is kept afterwards.
    pub fn record_canonical(&mut self, c: String) -> (fresh: bool)
        requires
            old(self).wf(),
            is_absolute(c@),
        ensures
            final(self).wf(),
            Self::frame(*old(self), *final(self)),
            Self::keep_grew(*old(self), *final(self)),
            final(self).queue() == old(self).queue(),
            final(self).pending() == old(self).pending(),
            fresh == !old(self).keeps(c@),
            fresh ==> final(self).keep_views() == old(self).keep_views().push(c@),
            !fresh ==> final(self).keep_views() == old(self).keep_views(),
            final(self).keeps(c@),
    {
        if contains_str(&self.paths_found, c.as_str()) {
            false
        } else {
            let ghost pre = *self;
            let ghost cg = c;
            self.paths_found.push(c);
            proof {
                Self::lemma_push_found(pre, *self, cg);
            }
            true
        }
    }

    /// Records one canonical path and, exactly when it is fresh, also
    /// queues it for parsing.
    pub fn record_canonical_to_visit(&mut self, c: String) -> (fresh: bool)
        requires
            old(self).wf(),
            is_absolute(c@),
        ensures
            final(self).wf(),
            Self::frame(*old(self), *final(self)),
            Self::keep_grew(*old(self), *final(self)),
            final(self).pending() == old(self).pending(),
            fresh == !old(self).keeps(c@),
            fresh ==> {
                &&& final(self).keep_views() == old(self).keep_views().push(c@)
                &&& final(self).queue() == old(self).queue().push(c@)
            },
            !fresh ==> {
                &&& final(self).keep_views() == old(self).keep_views()
                &&& final(self).queue() == old(self).queue()
            },
            final(self).keeps(c@),
    {
        let queued = c.clone();
        let fresh = self.record_canonical(c);
        if fresh {
            let ghost pre = *self;
            let ghost qg = queued;
            proof {
                lemma_views_push(pre.files_to_visit@, qg);
            }
            self.files_to_visit.push(queued);
            proof {
                assert(self.queue() == pre.queue().push(qg@));
                assert forall|i: int|
                    0 <= i < self.files_to_visit@.len() implies self.keeps(
                    #[trigger] self.files_to_visit@[i]@,
                ) by {
                    if i < pre.files_to_visit@.len() {
                        assert(pre.keeps(pre.files_to_visit@[i]@));
                    } else {
                        assert(self.files_to_visit@[i] == qg);
                    }
                }
            }
        }
        fresh
    }

    /// Canonicalizes `path` and adds the canonical form to the keep-set.
    /// `Some` carries the canonical path when it is newly kept; `None` means
    /// the path was already kept or could not be canonicalized.
    pub fn add_path(&mut self, path: &String) -> (r: Option<String>)
        requires
            old(self).wf(),
        ensures
            final(self).wf(),
            Self::frame(*old(self), *final(self)),
            Self::keep_grew(*old(self), *final(self)),
            final(self).queue() == old(self).queue(),
            final(self).pending() == old(self).pending(),
            match r {
                Some(c) => {
                    &&& is_absolute(c@)
                    &&& !old(self).keeps(c@)
                    &&& final(self).keep_views() == old(self).keep_views().push(c@)
                    &&& final(self).keeps(c@)
                },
                None => final(self).keep_views() == old(self).keep_views(),
            },
    {
        match canonicalize_path(path.as_str()) {
            Option::None => Option::None,
            Option::Some(c) => {
                let out = c.clone();
                if self.record_canonical(c) {
                    Option::Some(out)
                } else {
                    Option::None
                }
            },
        }
    }

    /// Canonicalizes `path`; a newly kept path is also queued for parsing.
    /// `Some` carries the canonical path when it was fresh.
    pub fn add_path_to_visit(&mut self, path: &String) -> (r: Option<String>)
        requires
            old(self).wf(),
        ensures
            final(self).wf(),
            Self::frame(*old(self), *final(self)),
            Self::keep_grew(*old(self), *final(self)),
            final(self).pending() == old(self).pending(),
            match r {
                Some(c) => {
                    &&& is_absolute(c@)
                    &&& !old(self).keeps(c@)
                    &&& final(self).keep_views() == old(self).keep_views().push(c@)
                    &&& final(self).keeps(c@)
                    &&& final(self).queue() == old(self).queue().push(c@)
                },
                None => {
                    &&& final(self).keep_views() == old(self).keep_views()
                    &&& final(self).queue() == old(self).queue()
                },
            },
    {
        match canonicalize_path(path.as_str()) {
            Option::None => Option::None,
            Option::Some(c) => {
                let out = c.clone();
                if self.record_canonical_to_visit(c) {
                    Option::Some(out)
                } else {
                    Option::None
                }
            },
        }
    }

    /// One specifier was deferred for the package resolver: the pending
    /// specifiers gained the pair unless it was already there; keep-set and
    /// queue did not move.
    pub open spec fn deferred(pre: Visitor, post: Visitor, name: Seq<char>, is_cjs: bool) -> bool {
        &&& post.pending().contains((name, is_cjs))
        &&& (post.pending() == pre.pending() || post.pending() == pre.pending().push(
            (name, is_cjs),
        ))
        &&& post.keep_views() == pre.keep_views()
        &&& post.queue() == pre.queue()
    }

    /// At most one fresh absolute path entered the keep-set; queue and
    /// pending specifiers did not move.
    pub open spec fn kept_at_most_one(pre: Visitor, post: Visitor) -> bool {
        &&& post.pending() == pre.pending()
        &&& post.queue() == pre.queue()
        &&& (post.keep_views() == pre.keep_views() || exists|c: Seq<char>|
            is_absolute(c) && !pre.keeps(c) && post.keep_views() == #[trigger] pre.keep_views().push(c))
    }

    /// At most one fresh absolute path entered the keep-set and the queue
    /// together; pending specifiers did not move.
    pub open spec fn enqueued_at_most_one(pre: Visitor, post: Visitor) -> bool {
        &&& post.pending() == pre.pending()
        &&& ((post.keep_views() == pre.keep_views() && post.queue() == pre.queue()) || exists|
            c: Seq<char>,
        |
            is_absolute(c) && !pre.keeps(c) && post.keep_views() == #[trigger] pre.keep_views().push(
                c,
            ) && post.queue() == pre.queue().push(c))
    }

    /// Keep-set, queue and pending specifiers all unmoved.
    pub open spec fn untouched(pre: Visitor, post: Visitor) -> bool {
        &&& post.keep_views() == pre.keep_views()
        &&& post.queue() == pre.queue()
        &&& post.pending() == pre.pending()
    }

    /// Tries, in order, `dir/name`, `dir/name.js` and `dir/name/index.js`
    /// under the current file's directory, and returns the first that is a
    /// regular file on disk.
    pub fn retrieve_file_path(&self, module: &String) -> (r: Option<String>)
        requires
            is_absolute(self.current()),
        ensures
            r matches Some(p) ==> {
                let dir = dirname_spec(self.current());
                ||| p@ == join_spec(dir, module@)
                ||| p@ == join_spec(dir, module@ + ".js"@)
                ||| p@ == join_spec(join_spec(dir, module@), "index.js"@)
            },
    {
        let dir = dirname(self.current_path.as_str());
        let plain = join(dir.as_str(), module.as_str());
        if path_is_file(plain.as_str()) {
            return Option::Some(plain);
        }
        let mut with_js = module.clone();
        with_js.append(".js");
        let scripted = join(dir.as_str(), with_js.as_str());
        if path_is_file(scripted.as_str()) {
            return Option::Some(scripted);
        }
        let indexed = join(plain.as_str(), "index.js");
        if path_is_file(indexed.as_str()) {
            return Option::Some(indexed);
        }
        Option::None
    }

    /// Routes one collected specifier: a local asset is kept outright, a
    /// local script is queued (or deferred when none of its candidate files
    /// exists), a builtin is dropped, and everything else is deferred for
    /// the package resolver.
    pub fn insert_module_to_visit(&mut self, module: String, is_cjs: bool)
        requires
            old(self).wf(),
            is_absolute(old(self).current()),
        ensures
            final(self).wf(),
            Self::frame(*old(self), *final(self)),
            Self::keep_grew(*old(self), *final(self)),
            (classify_spec(module@) == SpecifierKind::Asset && is_local_spec(module@))
                ==> Self::kept_at_most_one(*old(self), *final(self)),
            (classify_spec(module@) == SpecifierKind::Asset && !is_local_spec(module@))
                ==> Self::deferred(*old(self), *final(self), module@, is_cjs),
            classify_spec(module@) == SpecifierKind::Local ==> (Self::enqueued_at_most_one(
                *old(self),
                *final(self),
            ) || Self::deferred(*old(self), *final(self), module@, is_cjs)),
            classify_spec(module@) == SpecifierKind::Builtin ==> Self::untouched(
                *old(self),
                *final(self),
            ),
            classify_spec(module@) == SpecifierKind::Bare ==> Self::deferred(
                *old(self),
                *final(self),
                module@,
                is_cjs,
            ),
    {
        let ghost name_view = module@;
        if is_asset_specifier(module.as_str()) {
            if is_local_module(module.as_str()) {
                let dir = dirname(self.current_path.as_str());
                let asset = join(dir.as_str(), module.as_str());
                let r = self.add_path(&asset);
                proof {
                    if r is Some {
                        let c = r->Some_0;
                        assert(is_absolute(c@) && !old(self).keeps(c@) && self.keep_views()
                            == old(self).keep_views().push(c@));
                    }
                }
            } else {
                let r = self.insert_module(module, is_cjs);
                proof {
                    if r {
                        lemma_contains_push(
                            old(self).pending(),
                            (name_view, is_cjs),
                            (name_view, is_cjs),
                        );
                    }
                }
            }
        } else if is_local_module(module.as_str()) {
            match self.retrieve_file_path(&module) {
                Option::Some(path) => {
                    let r = self.add_path_to_visit(&path);
                    proof {
                        if r is Some {
                            let c = r->Some_0;
                            assert(is_absolute(c@) && !old(self).keeps(c@));
                            assert(self.keep_views() == old(self).keep_views().push(c@));
                            assert(self.queue() == old(self).queue().push(c@));
                        }
                    }
                },
                Option::None => {
                    let r = self.insert_module(module, is_cjs);
                    proof {
                        if r {
                            lemma_contains_push(
                                old(self).pending(),
                                (name_view, is_cjs),
                                (name_view, is_cjs),
                            );
                        }
                    }
                },
            }
        } else if !is_builtin_module(module.as_str()) {
            let r = self.insert_module(module, is_cjs);
            proof {
                if r {
                    lemma_contains_push(
                        old(self).pending(),
                        (name_view, is_cjs),
                        (name_view, is_cjs),
                    );
                }
            }
        }
    }

    /// A specifier the classifier always defers to the package resolver,
    /// whatever the disk holds: a bare one, or an asset that is not
    /// local-relative.
    pub open spec fn always_deferred(name: Seq<char>) -> bool {
        ||| classify_spec(name) == SpecifierKind::Bare
        ||| (classify_spec(name) == SpecifierKind::Asset && !is_local_spec(name))
    }

    /// Routes every specifier collected while walking the current file, in
    /// order. Nothing pending is lost, every collected specifier that the
    /// classifier unconditionally defers is pending afterwards, and the
    /// queue only ever grows at its back, so files already queued keep
    /// their turn.
    pub fn visit_collected(&mut self, collected: Vec<ModuleSpecifier>)
        requires
            old(self).wf(),
            is_absolute(old(self).current()),
        ensures
            final(self).wf(),
            Self::frame(*old(self), *final(self)),
            Self::keep_grew(*old(self), *final(self)),
            old(self).queue().is_prefix_of(final(self).queue()),
            forall|pr: (Seq<char>, bool)|
                old(self).pending().contains(pr) ==> final(self).pending().contains(pr),
            forall|i: int|
                0 <= i < collected@.len() && Self::always_deferred(#[trigger] collected@[i].name@)
                    ==> final(self).pending().contains(
                    (collected@[i].name@, collected@[i].is_cjs),
                ),
    {
        let ghost all = collected@;
        let ghost mut done: int = 0;
        let mut collected = collected;
        while collected.len() > 0
            invariant
                self.wf(),
                is_absolute(self.current()),
                Self::frame(*old(self), *self),
                Self::keep_grew(*old(self), *self),
                old(self).queue().is_prefix_of(self.queue()),
                0 <= done <= all.len(),
                collected@ == all.subrange(done, all.len() as int),
                forall|pr: (Seq<char>, bool)|
                    old(self).pending().contains(pr) ==> self.pending().contains(pr),
                forall|i: int|
                    0 <= i < done && Self::always_deferred(#[trigger] all[i].name@)
                        ==> self.pending().contains((all[i].name@, all[i].is_cjs)),
            decreases collected@.len(),
        {
            let m = collected.remove(0);
            proof {
                assert(m == all[done]);
                assert(collected@ =~= all.subrange(done + 1, all.len() as int));
            }
            let ghost pre = *self;
            let ghost name = m.name@;
            let ghost cjs = m.is_cjs;
            self.insert_module_to_visit(m.name, m.is_cjs);
            proof {
                // Whatever the classification, the pending specifiers only
                // ever gain the routed pair.
                assert(self.pending() == pre.pending() || self.pending() == pre.pending().push(
                    (name, cjs),
                ));
                assert forall|pr: (Seq<char>, bool)|
                    pre.pending().contains(pr) implies self.pending().contains(pr) by {
                    lemma_contains_push(pre.pending(), (name, cjs), pr);
                }
                if Self::always_deferred(name) {
                    assert(self.pending().contains((name, cjs)));
                }
                assert(pre.queue().is_prefix_of(self.queue())) by {
                    if self.queue().len() > pre.queue().len() {
                        assert(pre.queue() =~= self.queue().subrange(0, pre.queue().len() as int));
                    }
                }
                assert(old(self).queue().is_prefix_of(self.queue())) by {
                    assert(old(self).queue() =~= self.queue().subrange(
                        0,
                        old(self).queue().len() as int,
                    ));
                }
                done = done + 1;
            }
        }
        proof {
            assert(done == all.len());
        }
    }

    /// The condition set a specifier resolves under: `node` and `require`
    /// at CommonJS sites, `node` and `import` at module sites.
    pub fn build_condition_names(is_cjs: bool) -> (r: Vec<String>)
        ensures
            r@.len() == 2,
            r@[0]@ == "node"@,
            is_cjs ==> r@[1]@ == "require"@,
            !is_cjs ==> r@[1]@ == "import"@,
    {
        let mut r: Vec<String> = Vec::new();
        r.push(String::from_str("node"));
        if is_cjs {
            r.push(String::from_str("require"));
        } else {
            r.push(String::from_str("import"));
        }
        r
    }

    /// Records what one successful resolution reported. The target file's
    /// canonical form enters the keep-set and, exactly when it was not kept
    /// before, the parse queue; the consulted manifest's canonical form
    /// enters the keep-set and is never queued. The result carries both
    /// canonical forms, where the filesystem gave one: the target first,
    /// the manifest second.
    pub fn absorb_resolution(&mut self, full_path: &String, package_json: Option<&String>) -> (r: (
        Option<String>,
        Option<String>,
    ))
        requires
            old(self).wf(),
        ensures
            final(self).wf(),
            Self::frame(*old(self), *final(self)),
            Self::keep_grew(*old(self), *final(self)),
            final(self).pending() == old(self).pending(),
            old(self).queue().is_prefix_of(final(self).queue()),
            r.0 matches Some(c) ==> {
                &&& is_absolute(c@)
                &&& final(self).keeps(c@)
                &&& !old(self).keeps(c@) ==> final(self).queue() == old(self).queue().push(c@)
                &&& old(self).keeps(c@) ==> final(self).queue() == old(self).queue()
            },
            r.0 is None ==> final(self).queue() == old(self).queue(),
            r.1 matches Some(m) ==> is_absolute(m@) && final(self).keeps(m@),
            package_json is None ==> r.1 is None,
    {
        let ghost pre = *self;
        let target = match canonicalize_path(full_path.as_str()) {
            Option::Some(c) => {
                let out = c.clone();
                self.record_canonical_to_visit(c);
                Option::Some(out)
            },
            Option::None => Option::None,
        };
        let ghost mid = *self;
        let manifest_kept = match package_json {
            Option::Some(manifest) => match canonicalize_path(manifest.as_str()) {
                Option::Some(m) => {
                    let out = m.clone();
                    self.record_canonical(m);
                    Option::Some(out)
                },
                Option::None => Option::None,
            },
            Option::None => Option::None,
        };
        proof {
            assert(self.queue() == mid.queue());
            assert(pre.queue().is_prefix_of(self.queue())) by {
                if self.queue().len() > pre.queue().len() {
                    assert(pre.queue() =~= self.queue().subrange(0, pre.queue().len() as int));
                }
            }
        }
        (target, manifest_kept)
    }

    /// Drains the pending specifiers through the package resolver, each
    /// under its own condition set. A resolution that succeeds adds the
    /// target to the keep-set and the queue, and the consulted manifest to
    /// the keep-set; a failed resolution drops its specifier.
    pub fn resolve_modules_to_visit(&mut self)
        requires
            old(self).wf(),
        ensures
            final(self).wf(),
            Self::frame(*old(self), *final(self)),
            Self::keep_grew(*old(self), *final(self)),
            final(self).pending().len() == 0,
            old(self).queue().is_prefix_of(final(self).queue()),
    {
        while self.modules_to_visit.len() > 0
            invariant
                self.wf(),
                Self::frame(*old(self), *self),
                Self::keep_grew(*old(self), *self),
                old(self).queue().is_prefix_of(self.queue()),
            decreases self.modules_to_visit@.len(),
        {
            let ghost pre = *self;
            let m = self.modules_to_visit.pop().unwrap();
            proof {
                assert forall|i: int, j: int|
                    0 <= i < j < self.pending().len() implies self.pending()[i]
                    != self.pending()[j] by {
                    assert(self.pending()[i] == pre.pending()[i]);
                    assert(self.pending()[j] == pre.pending()[j]);
                }
                assert(self.queue() == pre.queue());
                assert(self.keep_views() == pre.keep_views());
                assert forall|i: int|
                    0 <= i < self.files_to_visit@.len() implies self.keeps(
                    #[trigger] self.files_to_visit@[i]@,
                ) by {
                    assert(pre.keeps(pre.files_to_visit@[i]@));
                }
                assert forall|p: Seq<char>| self.seeds@.contains(p) implies self.keep_set()
                    .contains(p) by {
                    assert(pre.keep_set().contains(p));
                    assert(pre.keeps(p));
                }
            }
            let conditions = Self::build_condition_names(m.is_cjs);
            let resolver = build_resolver(conditions);
            let ghost mid = *self;
            match resolve_specifier(&resolver, self.current_path.as_str(), m.name.as_str()) {
                Result::Err(_) => {},
                Result::Ok((full, package_json)) => {
                    let _recorded = self.absorb_resolution(&full, package_json.as_ref());
                },
            }
            proof {
                assert(mid.queue().is_prefix_of(self.queue())) by {
                    if self.queue().len() > mid.queue().len() {
                        assert(self.queue() == mid.queue().push(
                            self.queue()[self.queue().len() - 1],
                        ));
                        assert(mid.queue() =~= self.queue().subrange(0, mid.queue().len() as int));
                    }
                }
                assert(old(self).queue().is_prefix_of(self.queue())) by {
                    assert(old(self).queue() =~= self.queue().subrange(
                        0,
                        old(self).queue().len() as int,
                    ));
                }
            }
        }
    }

    /// Hands out the next file to parse and makes it the current file. The
    /// queue is consumed front first; the previous file's specifiers must
    /// have been drained.
    pub fn next_file(&mut self) -> (r: Option<String>)
        requires
            old(self).wf(),
            old(self).pending().len() == 0,
        ensures
            final(self).wf(),
            final(self).seed_set() == old(self).seed_set(),
            final(self).keep_views() == old(self).keep_views(),
            final(self).pending().len() == 0,
            (r is None) <==> old(self).queue().len() == 0,
            r is None ==> Self::untouched(*old(self), *final(self)) && final(self).current()
                == old(self).current(),
            r matches Some(p) ==> {
                &&& p@ == old(self).queue()[0]
                &&& final(self).queue() == old(self).queue().drop_first()
                &&& final(self).current() == p@
                &&& is_absolute(p@)
                &&& final(self).keeps(p@)
            },
    {
        if self.files_to_visit.len() == 0 {
            return Option::None;
        }
        let ghost pre = *self;
        let p = self.files_to_visit.remove(0);
        self.current_path = p.clone();
        proof {
            assert(pre.keeps(pre.files_to_visit@[0]@));
            lemma_keep_absolute(pre, pre.files_to_visit@[0]@);
            assert(self.queue() =~= pre.queue().drop_first()) by {
                assert forall|i: int| 0 <= i < self.files_to_visit@.len() implies self.queue()[i]
                    == pre.queue().drop_first()[i] by {
                    assert(self.files_to_visit@[i] == pre.files_to_visit@[i + 1]);
                    assert(self.queue()[i] == self.files_to_visit@[i]@);
                }
            }
            assert forall|i: int|
                0 <= i < self.files_to_visit@.len() implies self.keeps(
                #[trigger] self.files_to_visit@[i]@,
            ) by {
                assert(pre.keeps(pre.files_to_visit@[i + 1]@));
            }
            assert forall|x: Seq<char>| self.seeds@.contains(x) implies self.keep_set().contains(
                x,
            ) by {
                assert(pre.keep_set().contains(x));
                assert(pre.keeps(x));
            }
            assert(self.keeps(pre.queue()[0]));
        }
        Option::Some(p)
    }

    /// Seeds a run from the configuration: the matches of the keep globs
    /// whose canonical form the filesystem gives, then every entry point,
    /// each joined to the project root and canonicalized. A keep glob that
    /// does not compile is fatal — that, and nothing else, is the
    /// `InvalidKeepPattern` answer — as is an entry point that cannot be
    /// canonicalized.
    pub fn new(configurations: &Cli) -> (r: Result<Visitor, VisitorError>)
        ensures
            r matches Ok(v) ==> {
                &&& v.wf()
                &&& v.pending().len() == 0
                &&& v.queue() == v.keep_views()
                &&& v.seed_set() == v.keep_set()
                &&& v.current().len() == 0
            },
            (configurations@.keep is None && configurations@.entry_points.len() == 0) ==> (
            r matches Ok(v) && v.keep_views().len() == 0),
            (r matches Err(e) && e == VisitorError::InvalidKeepPattern) <==> (
            configurations@.keep matches Some(ks) && exists|i: int|
                0 <= i < ks.len() && !glob_pattern_ok(
                    #[trigger] join_spec(configurations@.project_root, ks[i]),
                )),
            r matches Ok(v) ==> (configurations@.entry_points.len() > 0 ==> v.keep_views().len()
                > 0),
    {
        let keep_matches = match configurations.keep_files() {
            Result::Ok(k) => k,
            Result::Err(_) => {
                return Result::Err(VisitorError::InvalidKeepPattern);
            },
        };
        let mut seed_files: Vec<String> = Vec::new();
        let n = keep_matches.len();
        let mut i: usize = 0;
        while i < n
            invariant
                0 <= i <= n,
                n == keep_matches@.len(),
                forall|k: int| 0 <= k < seed_files@.len() ==> is_absolute(#[trigger] seed_files@[k]@),
                configurations@.keep is None ==> n == 0 && seed_files@.len() == 0,
            decreases n - i,
        {
            match canonicalize_path(keep_matches[i].as_str()) {
                Option::Some(c) => {
                    proof {
                        lemma_views_push(seed_files@, c);
                    }
                    seed_files.push(c);
                },
                Option::None => {},
            }
            i = i + 1;
        }
        let m = configurations.entry_point_location.len();
        let mut j: usize = 0;
        while j < m
            invariant
                0 <= j <= m,
                m == configurations.entry_point_location@.len(),
                forall|k: int| 0 <= k < seed_files@.len() ==> is_absolute(#[trigger] seed_files@[k]@),
                (configurations@.keep is None && m == 0) ==> seed_files@.len() == 0,
                seed_files@.len() >= j,
                !(configurations@.keep matches Some(ks) && exists|i: int|
                    0 <= i < ks.len() && !glob_pattern_ok(
                        #[trigger] join_spec(configurations@.project_root, ks[i]),
                    )),
            decreases m - j,
        {
            let joined = join(
                configurations.project_root_location.as_str(),
                configurations.entry_point_location[j].as_str(),
            );
            match canonicalize_path(joined.as_str()) {
                Option::Some(c) => {
                    proof {
                        lemma_views_push(seed_files@, c);
                    }
                    seed_files.push(c);
                },
                Option::None => {
                    return Result::Err(VisitorError::EntryPointNotCanonical);
                },
            }
            j = j + 1;
        }
        let v = Self::from_seeds(seed_files);
        proof {
            if seed_files@.len() == 0 && v.keep_views().len() > 0 {
                assert(v.keep_views().contains(v.keep_views()[0]));
                assert(v.keeps(v.keep_views()[0]));
            }
            if configurations@.entry_points.len() > 0 {
                assert(m == configurations@.entry_points.len());
                assert(seed_files@.len() > 0);
                assert(v.keeps(seed_files@[0]@));
            }
        }
        Result::Ok(v)
    }

    /// The keep-set, in discovery order.
    pub fn paths_found(&self) -> (r: &Vec<String>)
        ensures
            views_of(r@) == self.keep_views(),
    {
        &self.paths_found
    }

    /// The specifiers collected at the current file and not yet resolved.
    pub fn pending_modules(&self) -> (r: &Vec<ModuleSpecifier>)
        ensures
            r@.map_values(|m: ModuleSpecifier| (m.name@, m.is_cjs)) == self.pending(),
    {
        &self.modules_to_visit
    }
}

/// Every path in a well-formed visitor's keep-set is absolute.
pub proof fn lemma_keep_absolute(v: Visitor, p: Seq<char>)
    requires
        v.wf(),
        v.keeps(p),
    ensures
        is_absolute(p),
{
    let i = choose|i: int| 0 <= i < v.keep_views().len() && v.keep_views()[i] == p;
    assert(v.keep_views()[i] == v.paths_found@[i]@);
    assert(is_absolute(v.paths_found@[i]@));
}

/// The paths a run was seeded with stay in its keep-set.
pub proof fn lemma_seeds_kept(v: Visitor)
    requires
        v.wf(),
    ensures
        v.seed_set().subset_of(v.keep_set()),
{
}

/// Every file waiting in the parse queue is already in the keep-set:
/// queueing never outruns keeping.
pub proof fn lemma_queued_kept(v: Visitor, i: int)
    requires
        v.wf(),
        0 <= i < v.queue().len(),
    ensures
        v.keeps(v.queue()[i]),
{
    assert(v.queue()[i] == v.files_to_visit@[i]@);
}

} // verus!
