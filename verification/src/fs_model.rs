//! An explicit model of the filesystem the store runs against: a map
//! from absolute paths to byte contents, and a set of directories.
//! The store's read, write, directory-creation and rename steps are
//! verified against this model.

use vstd::prelude::*;

use crate::paths::clone_components;

verus! {

/// The filesystem state: files with their contents, and the directories
/// that exist.  Paths are absolute, held as component lists.
pub struct FileSys {
    files: Vec<(Vec<String>, Vec<u8>)>,
    dirs: Vec<Vec<String>>,
}

/// The map a list of file entries denotes; a later entry for the same
/// path would win, but entries are kept distinct.
pub open spec fn files_map(s: Seq<(Vec<String>, Vec<u8>)>) -> Map<Seq<Seq<char>>, Seq<u8>>
    decreases s.len(),
{
    if s.len() == 0 {
        Map::empty()
    } else {
        files_map(s.drop_last()).insert(s.last().0.deep_view(), s.last().1@)
    }
}

/// The set of directories a list denotes.
pub open spec fn dirs_set(s: Seq<Vec<String>>) -> Set<Seq<Seq<char>>>
    decreases s.len(),
{
    if s.len() == 0 {
        Set::empty()
    } else {
        dirs_set(s.drop_last()).insert(s.last().deep_view())
    }
}

/// No two file entries name the same path.
pub open spec fn distinct_keys(s: Seq<(Vec<String>, Vec<u8>)>) -> bool {
    forall|i: int, j: int|
        0 <= i < j < s.len() ==> #[trigger] s[i].0.deep_view() != #[trigger] s[j].0.deep_view()
}

/// All non-empty proper-or-full prefixes of a path: the directories that
/// must exist for the path to exist.
pub open spec fn ancestors(p: Seq<Seq<char>>) -> Set<Seq<Seq<char>>> {
    Set::new(|q: Seq<Seq<char>>| exists|i: int| 1 <= i <= p.len() && q == p.subrange(0, i))
}

proof fn lemma_files_map_contains(s: Seq<(Vec<String>, Vec<u8>)>, k: Seq<Seq<char>>)
    ensures
        files_map(s).contains_key(k) <==> exists|i: int|
            0 <= i < s.len() && #[trigger] s[i].0.deep_view() == k,
    decreases s.len(),
{
    if s.len() == 0 {
    } else {
        lemma_files_map_contains(s.drop_last(), k);
        if s.last().0.deep_view() == k {
            assert(s[s.len() - 1].0.deep_view() == k);
        } else {
            if files_map(s).contains_key(k) {
                let i = choose|i: int|
                    0 <= i < s.drop_last().len() && #[trigger] s.drop_last()[i].0.deep_view() == k;
                assert(s[i].0.deep_view() == k);
            }
            if exists|i: int| 0 <= i < s.len() && #[trigger] s[i].0.deep_view() == k {
                let i = choose|i: int| 0 <= i < s.len() && #[trigger] s[i].0.deep_view() == k;
                assert(i < s.len() - 1);
                assert(s.drop_last()[i].0.deep_view() == k);
            }
        }
    }
}

proof fn lemma_files_map_value(s: Seq<(Vec<String>, Vec<u8>)>, i: int)
    requires
        distinct_keys(s),
        0 <= i < s.len(),
    ensures
        files_map(s).contains_key(s[i].0.deep_view()),
        files_map(s)[s[i].0.deep_view()] == s[i].1@,
    decreases s.len(),
{
    if i == s.len() - 1 {
    } else {
        assert(distinct_keys(s.drop_last())) by {
            assert(forall|x: int, y: int|
                0 <= x < y < s.len() - 1 ==> s.drop_last()[x] == s[x] && s.drop_last()[y] == s[y]);
        }
        lemma_files_map_value(s.drop_last(), i);
        assert(s.drop_last()[i] == s[i]);
        assert(s.last().0.deep_view() != s[i].0.deep_view());
    }
}

proof fn lemma_files_map_remove_at(s: Seq<(Vec<String>, Vec<u8>)>, i: int)
    requires
        distinct_keys(s),
        0 <= i < s.len(),
    ensures
        files_map(s.remove(i)) == files_map(s).remove(s[i].0.deep_view()),
    decreases s.len(),
{
    let k = s[i].0.deep_view();
    if i == s.len() - 1 {
        assert(s.remove(i) =~= s.drop_last());
        lemma_files_map_contains(s.drop_last(), k);
        assert(forall|j: int|
            0 <= j < s.len() - 1 ==> #[trigger] s.drop_last()[j].0.deep_view()
                == s[j].0.deep_view());
        assert(!files_map(s.drop_last()).contains_key(k));
        assert(files_map(s.drop_last()) =~= files_map(s).remove(k));
    } else {
        assert(distinct_keys(s.drop_last())) by {
            assert(forall|x: int, y: int|
                0 <= x < y < s.len() - 1 ==> s.drop_last()[x] == s[x] && s.drop_last()[y] == s[y]);
        }
        lemma_files_map_remove_at(s.drop_last(), i);
        assert(s.remove(i).drop_last() =~= s.drop_last().remove(i));
        assert(s.remove(i).last() == s.last());
        assert(files_map(s.remove(i)) == files_map(s.drop_last().remove(i)).insert(
            s.last().0.deep_view(),
            s.last().1@,
        ));
        assert(s.last().0.deep_view() != k);
        assert(files_map(s.drop_last()).remove(k).insert(s.last().0.deep_view(), s.last().1@)
            =~= files_map(s).remove(k));
    }
}

proof fn lemma_dirs_set_contains(s: Seq<Vec<String>>, k: Seq<Seq<char>>)
    ensures
        dirs_set(s).contains(k) <==> exists|i: int|
            0 <= i < s.len() && #[trigger] s[i].deep_view() == k,
    decreases s.len(),
{
    if s.len() == 0 {
    } else {
        lemma_dirs_set_contains(s.drop_last(), k);
        if s.last().deep_view() == k {
            assert(s[s.len() - 1].deep_view() == k);
        } else {
            if dirs_set(s).contains(k) {
                let i = choose|i: int|
                    0 <= i < s.drop_last().len() && #[trigger] s.drop_last()[i].deep_view() == k;
                assert(s[i].deep_view() == k);
            }
            if exists|i: int| 0 <= i < s.len() && #[trigger] s[i].deep_view() == k {
                let i = choose|i: int| 0 <= i < s.len() && #[trigger] s[i].deep_view() == k;
                assert(i < s.len() - 1);
                assert(s.drop_last()[i].deep_view() == k);
            }
        }
    }
}

/// Compares two paths componentwise.
pub fn path_eq(a: &Vec<String>, b: &Vec<String>) -> (r: bool)
    ensures
        r == (a.deep_view() == b.deep_view()),
{
    if a.len() != b.len() {
        assert(a.deep_view().len() != b.deep_view().len());
        return false;
    }
    let n = a.len();
    let mut i: usize = 0;
    while i < n
        invariant
            i <= n,
            n == a@.len() == b@.len(),
            forall|j: int| 0 <= j < i ==> a@[j]@ == b@[j]@,
        decreases n - i,
    {
        if !(a[i] == b[i]) {
            assert(a.deep_view()[i as int] != b.deep_view()[i as int]);
            return false;
        }
        i = i + 1;
    }
    assert(a.deep_view() =~= b.deep_view());
    true
}

/// Copies a byte buffer.
pub fn clone_bytes(v: &Vec<u8>) -> (r: Vec<u8>)
    ensures
        r@ == v@,
{
    let mut r: Vec<u8> = Vec::new();
    let mut i: usize = 0;
    while i < v.len()
        invariant
            i <= v@.len(),
            r@ =~= v@.subrange(0, i as int),
        decreases v@.len() - i,
    {
        r.push(v[i]);
        assert(r@ =~= v@.subrange(0, i + 1));
        i = i + 1;
    }
    assert(r@ =~= v@);
    r
}

impl FileSys {
    /// The files present: a map from absolute path to content.
    pub closed spec fn files_at(self) -> Map<Seq<Seq<char>>, Seq<u8>> {
        files_map(self.files@)
    }

    /// The directories present.
    pub closed spec fn dirs_at(self) -> Set<Seq<Seq<char>>> {
        dirs_set(self.dirs@)
    }

    /// The state keeps one entry per file path.
    pub closed spec fn wf(self) -> bool {
        distinct_keys(self.files@)
    }

    /// An empty filesystem: no files, no directories.
    pub fn empty() -> (r: FileSys)
        ensures
            r.wf(),
            r.files_at() =~= Map::<Seq<Seq<char>>, Seq<u8>>::empty(),
            r.dirs_at() =~= Set::<Seq<Seq<char>>>::empty(),
    {
        FileSys { files: Vec::new(), dirs: Vec::new() }
    }

    fn find_file(&self, path: &Vec<String>) -> (r: Option<usize>)
        ensures
            match r {
                Some(i) => i < self.files@.len() && self.files@[i as int].0.deep_view()
                    == path.deep_view(),
                None => forall|i: int|
                    0 <= i < self.files@.len() ==> #[trigger] self.files@[i].0.deep_view()
                        != path.deep_view(),
            },
    {
        let n = self.files.len();
        let mut i: usize = 0;
        while i < n
            invariant
                i <= n,
                n == self.files@.len(),
                forall|j: int|
                    0 <= j < i ==> #[trigger] self.files@[j].0.deep_view() != path.deep_view(),
            decreases n - i,
        {
            if path_eq(&self.files[i].0, path) {
                return Some(i);
            }
            i = i + 1;
        }
        None
    }

    /// Whether `path` is a file, and its content: `Some` exactly when
    /// the model holds a file at `path`.
    pub fn read(&self, path: &Vec<String>) -> (r: Option<Vec<u8>>)
        requires
            self.wf(),
        ensures
            self.files_at().contains_key(path.deep_view()) ==> (r matches Some(d) && d@
                == self.files_at()[path.deep_view()]),
            !self.files_at().contains_key(path.deep_view()) ==> r is None,
    {
        proof {
            lemma_files_map_contains(self.files@, path.deep_view());
        }
        match self.find_file(path) {
            None => None,
            Some(i) => {
                proof {
                    lemma_files_map_value(self.files@, i as int);
                }
                Some(clone_bytes(&self.files[i].1))
            },
        }
    }

    /// Writes `data` at `path`, replacing any file already there.
    pub fn write(&mut self, path: &Vec<String>, data: Vec<u8>)
        requires
            old(self).wf(),
        ensures
            final(self).wf(),
            final(self).files_at() == old(self).files_at().insert(path.deep_view(), data@),
            final(self).dirs_at() == old(self).dirs_at(),
    {
        let ghost pre = self.files@;
        match self.find_file(path) {
            Some(i) => {
                proof {
                    lemma_files_map_remove_at(self.files@, i as int);
                }
                self.files.remove(i);
                proof {
                    assert(distinct_keys(self.files@)) by {
                        assert(forall|x: int|
                            0 <= x < self.files@.len() ==> self.files@[x] == if x < i as int {
                                pre[x]
                            } else {
                                pre[x + 1]
                            });
                    }
                }
            },
            None => {},
        }
        proof {
            lemma_files_map_contains(self.files@, path.deep_view());
            assert(!files_map(self.files@).contains_key(path.deep_view()));
        }
        let ghost mid = self.files@;
        let entry = (clone_components(path), data);
        self.files.push(entry);
        proof {
            assert(self.files@.drop_last() =~= mid);
            assert(self.files@.last().0.deep_view() == path.deep_view());
            assert(files_map(self.files@) == files_map(mid).insert(path.deep_view(), data@));
            assert(files_map(mid).insert(path.deep_view(), data@) =~= files_map(pre).insert(
                path.deep_view(),
                data@,
            ));
            assert(distinct_keys(self.files@)) by {
                lemma_files_map_contains(mid, path.deep_view());
                assert(forall|x: int| 0 <= x < mid.len() ==> self.files@[x] == mid[x]);
            }
        }
    }

    /// Moves the file at `from` to `to`, replacing any file at `to`;
    /// fails, changing nothing, when there is no file at `from`.
    pub fn rename(&mut self, from: &Vec<String>, to: &Vec<String>) -> (r: bool)
        requires
            old(self).wf(),
        ensures
            final(self).wf(),
            final(self).dirs_at() == old(self).dirs_at(),
            old(self).files_at().contains_key(from.deep_view()) ==> r && final(self).files_at()
                == old(self).files_at().remove(from.deep_view()).insert(
                to.deep_view(),
                old(self).files_at()[from.deep_view()],
            ),
            !old(self).files_at().contains_key(from.deep_view()) ==> !r && final(self).files_at()
                == old(self).files_at(),
    {
        proof {
            lemma_files_map_contains(self.files@, from.deep_view());
        }
        match self.find_file(from) {
            None => false,
            Some(i) => {
                let ghost pre = self.files@;
                proof {
                    lemma_files_map_value(self.files@, i as int);
                    lemma_files_map_remove_at(self.files@, i as int);
                }
                let entry = self.files.remove(i);
                proof {
                    assert(distinct_keys(self.files@)) by {
                        assert(forall|x: int|
                            0 <= x < self.files@.len() ==> self.files@[x] == if x < i as int {
                                pre[x]
                            } else {
                                pre[x + 1]
                            });
                    }
                }
                self.write(to, entry.1);
                true
            },
        }
    }

    /// Whether `path` exists as a directory.
    pub fn is_dir(&self, path: &Vec<String>) -> (r: bool)
        ensures
            r == self.dirs_at().contains(path.deep_view()),
    {
        proof {
            lemma_dirs_set_contains(self.dirs@, path.deep_view());
        }
        let n = self.dirs.len();
        let mut i: usize = 0;
        while i < n
            invariant
                i <= n,
                n == self.dirs@.len(),
                forall|j: int| 0 <= j < i ==> #[trigger] self.dirs@[j].deep_view()
                    != path.deep_view(),
            decreases n - i,
        {
            if path_eq(&self.dirs[i], path) {
                proof {
                    lemma_dirs_set_contains(self.dirs@, path.deep_view());
                }
                return true;
            }
            i = i + 1;
        }
        proof {
            lemma_dirs_set_contains(self.dirs@, path.deep_view());
        }
        false
    }

    /// Creates the directory at `path` and every missing ancestor.
    pub fn create_dir_all(&mut self, path: &Vec<String>)
        requires
            old(self).wf(),
        ensures
            final(self).wf(),
            final(self).files_at() == old(self).files_at(),
            final(self).dirs_at() == old(self).dirs_at().union(ancestors(path.deep_view())),
    {
        let ghost pv = path.deep_view();
        let mut prefix: Vec<String> = Vec::new();
        let mut i: usize = 0;
        while i < path.len()
            invariant
                i <= path@.len(),
                pv == path.deep_view(),
                prefix@.len() == i,
                forall|j: int| 0 <= j < i ==> prefix.deep_view()[j] == pv[j],
                self.files@ == old(self).files@,
                distinct_keys(self.files@),
                dirs_set(self.dirs@) =~= old(self).dirs_at().union(ancestors_upto(pv, i as int)),
            decreases path@.len() - i,
        {
            prefix.push(path[i].clone());
            assert(prefix.deep_view()[i as int] == pv[i as int]);
            assert(prefix.deep_view() =~= pv.subrange(0, i + 1));
            let ghost pre_dirs = self.dirs@;
            self.dirs.push(clone_components(&prefix));
            proof {
                assert(self.dirs@.drop_last() =~= pre_dirs);
                assert(dirs_set(self.dirs@) == dirs_set(pre_dirs).insert(pv.subrange(0, i + 1)));
                assert(dirs_set(self.dirs@) =~= old(self).dirs_at().union(
                    ancestors_upto(pv, i + 1),
                )) by {
                    lemma_ancestors_upto_step(pv, i as int);
                }
            }
            i = i + 1;
        }
        proof {
            assert(ancestors_upto(pv, pv.len() as int) =~= ancestors(pv));
            assert(self.dirs_at() =~= old(self).dirs_at().union(ancestors(pv)));
        }
    }
}

/// The ancestors of `p` no longer than `n` components.
pub open spec fn ancestors_upto(p: Seq<Seq<char>>, n: int) -> Set<Seq<Seq<char>>> {
    Set::new(|q: Seq<Seq<char>>| exists|i: int| 1 <= i <= n && i <= p.len() && q == p.subrange(0, i))
}

proof fn lemma_ancestors_upto_step(p: Seq<Seq<char>>, i: int)
    requires
        0 <= i < p.len(),
    ensures
        ancestors_upto(p, i + 1) =~= ancestors_upto(p, i).insert(p.subrange(0, i + 1)),
{
    assert forall|q: Seq<Seq<char>>| #[trigger] ancestors_upto(p, i + 1).contains(q) implies ancestors_upto(
        p,
        i,
    ).insert(p.subrange(0, i + 1)).contains(q) by {
        let j = choose|j: int| 1 <= j <= i + 1 && j <= p.len() && q == p.subrange(0, j);
        if j <= i {
            assert(ancestors_upto(p, i).contains(q));
        } else {
            assert(q == p.subrange(0, i + 1));
        }
    }
    assert forall|q: Seq<Seq<char>>|
        #[trigger] ancestors_upto(p, i).insert(p.subrange(0, i + 1)).contains(q) implies ancestors_upto(
        p,
        i + 1,
    ).contains(q) by {
        if ancestors_upto(p, i).contains(q) {
            let j = choose|j: int| 1 <= j <= i && j <= p.len() && q == p.subrange(0, j);
            assert(1 <= j <= i + 1 && j <= p.len() && q == p.subrange(0, j));
        } else {
            assert(q == p.subrange(0, i + 1));
            assert(1 <= i + 1 <= i + 1 && i + 1 <= p.len() && q == p.subrange(0, i + 1));
        }
    }
}

} // verus!
