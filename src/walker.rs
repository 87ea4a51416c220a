//! The decisions of a directory walk: which directories to enter, which
//! files to keep, which errors end the walk. The walk itself, which reads the
//! file system, hands each entry to these decisions.

use std::sync::Arc;

use vstd::prelude::*;

use crate::config::string_views;
use crate::errors::DumpError;
use crate::filter::{opt_bytes, opt_chars, Filter};
use crate::order::{
    lemma_less_total, lemma_less_transitive, lemma_sorted_lists_with_same_members_are_equal,
    less_chars, path_less, sorted_paths,
};
use crate::path::{char_views, chars_of, sub_chars};

verus! {

/// `f[..i]` is a directory that holds `f` and lies strictly below `root`.
pub open spec fn inner_dir(root: Seq<char>, f: Seq<char>, i: int) -> bool {
    root.len() < i < f.len() && f[i] == '/'
}

/// Some directory strictly between `root` and the file `f` is pruned.
pub open spec fn pruned_above(filter: Filter, root: Seq<char>, f: Seq<char>, cwd: Option<Seq<char>>) -> bool {
    exists|i: int| inner_dir(root, f, i) && #[trigger] filter.skips_dir(f.take(i), cwd)
}

/// Whether the walk enters the directory at `path`, `depth` levels below
/// the root. The root itself is always entered.
pub fn descends_into(filter: &Filter, path: &str, depth: usize, cwd: Option<&str>) -> (r: bool)
    ensures
        r == (depth == 0 || !filter.skips_dir(path@, opt_chars(cwd))),
{
    depth == 0 || !filter.should_skip_dir(path, cwd)
}

/// What a failed entry does to the walk: a denied permission is handed back
/// as a warning and the walk goes on; anything else ends it.
pub fn walk_error(cause: ignore::Error, permission_denied: bool) -> (r: Result<ignore::Error, DumpError>)
    ensures
        permission_denied ==> r == Ok::<ignore::Error, DumpError>(cause),
        !permission_denied ==> (r matches Err(DumpError::Walk { source }) && source == cause),
{
    if permission_denied {
        Ok(cause)
    } else {
        Err(DumpError::Walk { source: cause })
    }
}

/// The files of one walk that survive the filter, kept in path order.
pub struct Collector {
    filter: Arc<Filter>,
    cwd: Option<String>,
    root: Vec<char>,
    files: Vec<String>,
    keys: Vec<Vec<char>>,
}

impl Collector {
    pub closed spec fn rules(&self) -> Filter {
        *self.filter
    }

    /// The working directory that relative glob matching uses.
    pub closed spec fn cwd_path(&self) -> Option<Seq<char>> {
        match self.cwd {
            Some(c) => Some(c@),
            None => None,
        }
    }

    /// The path the walk starts from.
    pub closed spec fn root_path(&self) -> Seq<char> {
        self.root@
    }

    /// The files kept so far.
    pub closed spec fn paths(&self) -> Seq<Seq<char>> {
        string_views(self.files@)
    }

    /// A file that no pruned directory holds and no path rule skips.
    pub open spec fn admits(&self, f: Seq<char>) -> bool {
        &&& !pruned_above(self.rules(), self.root_path(), f, self.cwd_path())
        &&& !self.rules().path_rules(f, self.cwd_path())
    }

    pub closed spec fn wf(&self) -> bool {
        &&& char_views(self.keys@) == string_views(self.files@)
        &&& sorted_paths(self.paths())
        &&& forall|i: int| 0 <= i < self.paths().len() ==> self.admits(#[trigger] self.paths()[i])
    }

    /// A collector for the walk from `root`, with no file yet.
    pub fn new(filter: Arc<Filter>, root: &str, cwd: Option<String>) -> (r: Collector)
        ensures
            r.wf(),
            r.rules() == *filter,
            r.root_path() == root@,
            r.cwd_path() == (match cwd {
                Some(c) => Some(c@),
                None => None::<Seq<char>>,
            }),
            r.paths() == Seq::<Seq<char>>::empty(),
    {
        let r = Collector { filter, cwd, root: chars_of(root), files: Vec::new(), keys: Vec::new() };
        assert(r.paths() == Seq::<Seq<char>>::empty());
        assert(char_views(r.keys@) == Seq::<Seq<char>>::empty());
        r
    }

    fn pruned(&self, p: &Vec<char>, base: Option<&Vec<char>>) -> (r: bool)
        requires
            (match base {
                Some(c) => Some(c@),
                None => None::<Seq<char>>,
            }) == self.cwd_path(),
        ensures
            r == pruned_above(self.rules(), self.root_path(), p@, self.cwd_path()),
    {
        let root_len = self.root.len();
        let mut i: usize = root_len;
        while i < p.len()
            invariant
                root_len == self.root@.len(),
                root_len <= i,
                (match base {
                    Some(c) => Some(c@),
                    None => None::<Seq<char>>,
                }) == self.cwd_path(),
                forall|j: int|
                    root_len < j < i && inner_dir(self.root_path(), p@, j) ==> !#[trigger] self.rules().skips_dir(
                        p@.take(j),
                        self.cwd_path(),
                    ),
            decreases p.len() - i,
        {
            if i > root_len && p[i] == '/' {
                let dir = sub_chars(p, 0, i);
                assert(dir@ == p@.take(i as int));
                if self.filter.dir_skipped(&dir, base) {
                    assert(inner_dir(self.root_path(), p@, i as int));
                    return true;
                }
            }
            i = i + 1;
        }
        false
    }

    /// Offers the file at `path`, with `content` as far as it could be read
    /// (`None` where it could not). The file is kept when no directory
    /// between the root and it is pruned and the filter does not skip it;
    /// the kept files stay in path order, each once.
    pub fn offer_file(&mut self, path: String, content: Option<&[u8]>) -> (kept: bool)
        requires
            old(self).wf(),
        ensures
            final(self).wf(),
            final(self).rules() == old(self).rules(),
            final(self).root_path() == old(self).root_path(),
            final(self).cwd_path() == old(self).cwd_path(),
            kept == (!pruned_above(old(self).rules(), old(self).root_path(), path@, old(self).cwd_path())
                && !old(self).rules().skips_file(path@, old(self).cwd_path(), opt_bytes(content))),
            kept ==> final(self).paths().to_set() == old(self).paths().to_set().insert(path@),
            !kept ==> final(self).paths() == old(self).paths(),
    {
        let p = chars_of(path.as_str());
        let base = match &self.cwd {
            Some(c) => Some(chars_of(c.as_str())),
            None => None,
        };
        let pruned = match &base {
            Some(b) => self.pruned(&p, Some(b)),
            None => self.pruned(&p, None),
        };
        if pruned {
            return false;
        }
        let cwd = match &self.cwd {
            Some(c) => Some(c.as_str()),
            None => None,
        };
        if self.filter.should_skip(path.as_str(), cwd, content) {
            return false;
        }
        assert(self.admits(path@));
        self.insert_sorted(path, p);
        true
    }

    fn insert_sorted(&mut self, path: String, key: Vec<char>)
        requires
            old(self).wf(),
            key@ == path@,
            old(self).admits(path@),
        ensures
            final(self).wf(),
            final(self).rules() == old(self).rules(),
            final(self).root_path() == old(self).root_path(),
            final(self).cwd_path() == old(self).cwd_path(),
            final(self).paths().to_set() == old(self).paths().to_set().insert(path@),
    {
        let ghost old_paths = self.paths();
        let mut k: usize = self.keys.len();
        while k > 0 && less_chars(&key, &self.keys[k - 1])
            invariant
                k <= self.keys.len(),
                self.wf(),
                self.paths() == old_paths,
                key@ == path@,
                forall|j: int| k <= j < old_paths.len() ==> path_less(path@, #[trigger] old_paths[j]),
            decreases k,
        {
            k = k - 1;
        }
        if k > 0 {
            proof {
                lemma_less_total(path@, old_paths[k - 1]);
            }
            if !less_chars(&self.keys[k - 1], &key) {
                assert(old_paths[k - 1] == path@);
                assert(old_paths.to_set().insert(path@) == old_paths.to_set()) by {
                    assert(old_paths.to_set().contains(path@));
                }
                return;
            }
            assert(path_less(old_paths[k - 1], path@));
        }
        let ghost new_paths = old_paths.insert(k as int, path@);
        proof {
            assert forall|i: int| 0 <= i < k implies #[trigger] path_less(old_paths[i], path@) by {
                if i < k - 1 {
                    assert(path_less(old_paths[i], old_paths[k - 1]));
                    lemma_less_transitive(old_paths[i], old_paths[k - 1], path@);
                }
            }
            assert forall|i: int, j: int| 0 <= i < j < new_paths.len() implies #[trigger] path_less(new_paths[i], new_paths[j]) by {
                if i < k && j > k {
                    assert(path_less(old_paths[i], path@));
                    assert(path_less(path@, old_paths[j - 1]));
                    lemma_less_transitive(old_paths[i], path@, old_paths[j - 1]);
                } else if i < k && j == k {
                    assert(path_less(old_paths[i], path@));
                } else if i < k {
                    assert(path_less(old_paths[i], old_paths[j]));
                } else if i == k {
                    assert(path_less(path@, old_paths[j - 1]));
                } else {
                    assert(path_less(old_paths[i - 1], old_paths[j - 1]));
                }
            }
        }
        self.keys.insert(k, key);
        self.files.insert(k, path);
        assert(self.paths() == new_paths);
        assert(char_views(self.keys@) == new_paths);
        assert(new_paths.to_set() == old_paths.to_set().insert(path@)) by {
            assert forall|x: Seq<char>| new_paths.to_set().contains(x) <==> old_paths.to_set().insert(path@).contains(x) by {
                if new_paths.to_set().contains(x) {
                    let i = choose|i: int| 0 <= i < new_paths.len() && new_paths[i] == x;
                    if i < k {
                        assert(old_paths[i] == x);
                    } else if i > k {
                        assert(old_paths[i - 1] == x);
                    }
                }
                if old_paths.to_set().contains(x) && x != path@ {
                    let i = choose|i: int| 0 <= i < old_paths.len() && old_paths[i] == x;
                    if i < k {
                        assert(new_paths[i] == x);
                    } else {
                        assert(new_paths[i + 1] == x);
                    }
                }
                if x == path@ {
                    assert(new_paths[k as int] == x);
                }
            }
        }
        assert forall|i: int| 0 <= i < self.paths().len() implies self.admits(#[trigger] self.paths()[i]) by {
            if i < k {
                assert(self.paths()[i] == old_paths[i]);
            } else if i > k {
                assert(self.paths()[i] == old_paths[i - 1]);
            }
        }
    }

    /// The files kept, in path order.
    pub fn files(&self) -> (r: &Vec<String>)
        requires
            self.wf(),
        ensures
            string_views(r@) == self.paths(),
            sorted_paths(string_views(r@)),
    {
        &self.files
    }

    /// The files kept, in path order.
    pub fn into_files(self) -> (r: Vec<String>)
        requires
            self.wf(),
        ensures
            string_views(r@) == self.paths(),
            sorted_paths(string_views(r@)),
    {
        self.files
    }
}

/// No kept file lies in a directory that the walk prunes: for each kept
/// file, no directory strictly between the root and it is one that
/// `should_skip_dir` rejects.
pub proof fn lemma_kept_files_lie_in_no_pruned_dir(c: Collector, k: int, i: int)
    requires
        c.wf(),
        0 <= k < c.paths().len(),
        inner_dir(c.root_path(), c.paths()[k], i),
    ensures
        !c.rules().skips_dir(c.paths()[k].take(i), c.cwd_path()),
{
    assert(c.admits(c.paths()[k]));
}

/// The root itself is never pruned: a file directly inside it, or the root
/// when it is a file, passes directory pruning whatever the root's name.
pub proof fn lemma_root_is_never_pruned(filter: Filter, root: Seq<char>, f: Seq<char>, cwd: Option<Seq<char>>)
    requires
        forall|i: int| root.len() < i < f.len() ==> f[i] != '/',
    ensures
        !pruned_above(filter, root, f, cwd),
{
}

/// Kept files are in path order, each once, however they were offered.
pub proof fn lemma_kept_files_sorted(c: Collector)
    requires
        c.wf(),
    ensures
        sorted_paths(c.paths()),
{
}

/// Two walks that keep the same files give the same list, in the same
/// order: the result does not depend on the order of enumeration, and a
/// walk repeated over an unchanged tree repeats its result.
pub proof fn lemma_same_files_same_list(a: Collector, b: Collector)
    requires
        a.wf(),
        b.wf(),
        a.paths().to_set() == b.paths().to_set(),
    ensures
        a.paths() == b.paths(),
{
    lemma_sorted_lists_with_same_members_are_equal(a.paths(), b.paths());
}

/// The paths to walk: those given, or the current directory when none is.
pub fn paths_to_walk(paths: Vec<String>) -> (r: Vec<String>)
    ensures
        paths@.len() > 0 ==> r@ == paths@,
        paths@.len() == 0 ==> string_views(r@) == seq!["."@],
{
    if paths.len() > 0 {
        paths
    } else {
        let r = vec![String::from_str(".")];
        assert(string_views(r@) == seq!["."@]);
        r
    }
}

/// Every path to walk must exist; `exists[i]` tells whether `paths[i]`
/// does. The first missing one is the error.
pub fn check_paths_exist(paths: &Vec<String>, exists: &Vec<bool>) -> (r: Result<(), DumpError>)
    requires
        exists.len() == paths.len(),
    ensures
        r is Ok <==> forall|i: int| 0 <= i < exists.len() ==> #[trigger] exists[i],
        r matches Err(e) ==> exists|i: int|
            {
                &&& 0 <= i < paths.len()
                &&& !exists[i]
                &&& forall|j: int| 0 <= j < i ==> #[trigger] exists[j]
                &&& (e matches DumpError::PathNotFound { path } && path@ == paths[i]@)
            },
{
    let mut i: usize = 0;
    while i < paths.len()
        invariant
            exists.len() == paths.len(),
            i <= paths.len(),
            forall|j: int| 0 <= j < i ==> #[trigger] exists[j],
        decreases paths.len() - i,
    {
        if !exists[i] {
            return Err(DumpError::PathNotFound { path: paths[i].clone() });
        }
        i = i + 1;
    }
    Ok(())
}

} // verus!
