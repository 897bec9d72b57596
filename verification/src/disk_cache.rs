//! The cache store: resolves relative cache paths against an absolute
//! root directory and reads and writes byte entries there, creating
//! missing parent directories on demand and writing atomically — to a
//! temporary sibling first, renamed onto the target.

use vstd::prelude::*;

use crate::codec::{
    base_path, derive_base_path, derive_path_with_extension, opt_path_view, path_with_extension,
};
use crate::fs_model::{ancestors, clone_bytes, FileSys};
use crate::locator::Locator;
use crate::paths::{clone_components, AbsPath, RelPath};

verus! {

/// The kind of a store failure, kept when context is added so that a
/// caller can still tell absence from other faults.
#[derive(Clone, Copy, PartialEq, Eq, Structural, Debug)]
pub enum ErrorKind {
    /// The entry does not exist.
    NotFound,
    /// Any other filesystem fault.
    Other,
}

/// A store failure: its kind, and a human-readable detail naming the
/// path involved.
#[derive(Debug)]
pub struct FsError {
    pub kind: ErrorKind,
    pub detail: String,
}

/// Annotates a failure with the context it concerns, keeping the
/// original kind so that callers can still dispatch on it.
pub fn with_io_context(e: &FsError, context: &str) -> (r: FsError)
    ensures
        r.kind == e.kind,
        r.detail@ == e.detail@ + " (for '"@ + context@ + "')"@,
{
    let mut detail = e.detail.clone();
    detail.append(" (for '");
    detail.append(context);
    detail.append("')");
    assert(detail@ =~= e.detail@ + " (for '"@ + context@ + "')"@);
    FsError { kind: e.kind, detail }
}

/// The conventional text of a path: its components joined with `/`.
pub open spec fn joined(p: Seq<Seq<char>>) -> Seq<char>
    decreases p.len(),
{
    if p.len() == 0 {
        Seq::empty()
    } else if p.len() == 1 {
        p[0]
    } else {
        joined(p.drop_last()) + seq!['/'] + p.last()
    }
}

/// Renders a path as text, components joined with `/`.
pub fn path_display(p: &Vec<String>) -> (r: String)
    ensures
        r@ == joined(p.deep_view()),
{
    proof {
        reveal_strlit("/");
    }
    let slash: &str = "/";
    assert(slash@ =~= seq!['/']);
    let ghost pv = p.deep_view();
    let mut r = String::new();
    let mut i: usize = 0;
    while i < p.len()
        invariant
            i <= p@.len(),
            pv == p.deep_view(),
            slash@ =~= seq!['/'],
            r@ == joined(pv.subrange(0, i as int)),
        decreases p@.len() - i,
    {
        if i > 0 {
            r.append(slash);
        }
        r.append(p[i].as_str());
        proof {
            assert(pv.subrange(0, i + 1).drop_last() =~= pv.subrange(0, i as int));
            assert(pv.subrange(0, i + 1).last() == pv[i as int]);
            if i == 0 {
                assert(r@ =~= joined(pv.subrange(0, 1)));
            } else {
                assert(r@ =~= joined(pv.subrange(0, i + 1)));
            }
        }
        i = i + 1;
    }
    assert(pv.subrange(0, pv.len() as int) =~= pv);
    r
}

/// The suffix of the temporary sibling an atomic write uses.
pub open spec fn temp_suffix() -> Seq<char> {
    seq!['.', 't', 'm', 'p']
}

/// The temporary sibling of a target path: the same path with the
/// reserved suffix on its final component.
pub open spec fn temp_key(p: Seq<Seq<char>>) -> Seq<Seq<char>>
    recommends
        p.len() > 0,
{
    p.update(p.len() - 1, p.last() + temp_suffix())
}

/// The temporary sibling never names the target itself.
pub proof fn lemma_temp_key_distinct(p: Seq<Seq<char>>)
    requires
        p.len() > 0,
    ensures
        temp_key(p) != p,
{
    if temp_key(p) == p {
        assert(temp_key(p)[p.len() - 1] == p[p.len() - 1]);
        assert(false);
    }
}

/// The directories after ensuring `p` exists: unchanged when `p` is
/// already a directory, else `p` and its missing ancestors are added.
pub open spec fn ensure_dirs(dirs: Set<Seq<Seq<char>>>, p: Seq<Seq<char>>) -> Set<Seq<Seq<char>>> {
    if dirs.contains(p) {
        dirs
    } else {
        dirs.union(ancestors(p))
    }
}

/// The files after a completed atomic write at `full`: the temporary
/// sibling is gone and the target holds exactly `data`.
pub open spec fn set_files(
    files: Map<Seq<Seq<char>>, Seq<u8>>,
    full: Seq<Seq<char>>,
    data: Seq<u8>,
) -> Map<Seq<Seq<char>>, Seq<u8>> {
    files.remove(temp_key(full)).insert(full, data)
}

/// Builds the temporary sibling of `full`.
fn temp_target(full: &Vec<String>) -> (r: Vec<String>)
    requires
        full@.len() > 0,
    ensures
        r.deep_view() == temp_key(full.deep_view()),
{
    proof {
        reveal_strlit(".tmp");
    }
    let mut v = clone_components(full);
    let mut last = v.pop().unwrap();
    last.append(".tmp");
    assert(last@ =~= full.deep_view().last() + temp_suffix());
    v.push(last);
    assert(v.deep_view() =~= temp_key(full.deep_view()));
    v
}

/// The store: an absolute root directory — absolute by construction of
/// [`AbsPath`] — under which every cache entry lives.
pub struct DiskCache {
    pub location: AbsPath,
}

impl DiskCache {
    /// Where the entry for `rel` lives: the root with `rel` appended.
    pub open spec fn full_path(self, rel: Seq<Seq<char>>) -> Seq<Seq<char>> {
        self.location@ + rel
    }

    /// A store rooted at `location`.  The root is stored verbatim; no
    /// directory is created until first use.
    pub fn new(location: AbsPath) -> (r: DiskCache)
        ensures
            r.location@ == location@,
    {
        DiskCache { location }
    }

    /// The absolute path of the entry for `filename`.
    fn resolve(&self, filename: &RelPath) -> (r: Vec<String>)
        ensures
            r.deep_view() == self.full_path(filename@),
            r@.len() == self.location@.len() + filename@.len(),
    {
        let mut v = clone_components(&self.location.components);
        let mut i: usize = 0;
        while i < filename.components.len()
            invariant
                i <= filename.components@.len(),
                v@.len() == self.location@.len() + i,
                v.deep_view() =~= self.location@ + filename@.subrange(0, i as int),
            decreases filename.components@.len() - i,
        {
            let ghost prev = v.deep_view();
            let c = filename.components[i].clone();
            assert(c@ == filename@[i as int]);
            v.push(c);
            assert(v.deep_view() =~= prev.push(filename@[i as int]));
            assert(prev.push(filename@[i as int]) =~= self.location@ + filename@.subrange(
                0,
                i + 1,
            ));
            assert(v.deep_view() =~= self.location@ + filename@.subrange(0, i + 1));
            i = i + 1;
        }
        assert(v.deep_view() =~= self.full_path(filename@));
        v
    }

    /// Ensures `path` exists as a directory: succeeds with no side
    /// effect when it already does, else creates it and every missing
    /// ancestor.
    pub fn ensure_dir_exists(&self, fs: &mut FileSys, path: &AbsPath) -> (r: Result<(), FsError>)
        requires
            old(fs).wf(),
        ensures
            final(fs).wf(),
            r is Ok,
            final(fs).files_at() == old(fs).files_at(),
            final(fs).dirs_at() == ensure_dirs(old(fs).dirs_at(), path@),
            path@.len() > 0 ==> final(fs).dirs_at().contains(path@),
    {
        if fs.is_dir(&path.components) {
            return Ok(());
        }
        fs.create_dir_all(&path.components);
        proof {
            if path@.len() > 0 {
                assert(path@.subrange(0, path@.len() as int) =~= path@);
                assert(ancestors(path@).contains(path@));
            }
        }
        Ok(())
    }

    /// Reads the entry at `filename` under the root: its bytes, or a
    /// not-found failure naming the full path.  Absence is reported,
    /// never masked by a default.
    pub fn get(&self, fs: &FileSys, filename: &RelPath) -> (r: Result<Vec<u8>, FsError>)
        requires
            fs.wf(),
        ensures
            fs.files_at().contains_key(self.full_path(filename@)) ==> (r matches Ok(d) && d@
                == fs.files_at()[self.full_path(filename@)]),
            !fs.files_at().contains_key(self.full_path(filename@)) ==> (r matches Err(e) && e.kind
                == ErrorKind::NotFound && e.detail@ == joined(self.full_path(filename@))),
    {
        let full = self.resolve(filename);
        match fs.read(&full) {
            Some(d) => Ok(d),
            None => Err(FsError { kind: ErrorKind::NotFound, detail: path_display(&full) }),
        }
    }

    /// The first half of an atomic write: ensures the parent directory
    /// chain of the target exists, then writes `data` to the target's
    /// temporary sibling.  The entry at the target itself is untouched.
    pub fn set_prepare(&self, fs: &mut FileSys, filename: &RelPath, data: &Vec<u8>) -> (r: Result<
        (),
        FsError,
    >)
        requires
            old(fs).wf(),
            filename@.len() > 0,
        ensures
            final(fs).wf(),
            r is Ok,
            final(fs).files_at() == old(fs).files_at().insert(
                temp_key(self.full_path(filename@)),
                data@,
            ),
            final(fs).dirs_at() == ensure_dirs(
                old(fs).dirs_at(),
                self.full_path(filename@).drop_last(),
            ),
    {
        let full = self.resolve(filename);
        let mut parent = clone_components(&full);
        parent.pop().unwrap();
        assert(parent.deep_view() =~= self.full_path(filename@).drop_last());
        let parent_path = AbsPath { components: parent };
        let r1 = self.ensure_dir_exists(fs, &parent_path);
        match r1 {
            Err(e) => {
                return Err(e);
            },
            Ok(()) => {},
        }
        let temp = temp_target(&full);
        fs.write(&temp, clone_bytes(data));
        Ok(())
    }

    /// The second half of an atomic write: renames the temporary sibling
    /// onto the target.  When no temporary file is present the rename
    /// fails with not-found and nothing changes.
    pub fn set_commit(&self, fs: &mut FileSys, filename: &RelPath) -> (r: Result<(), FsError>)
        requires
            old(fs).wf(),
            filename@.len() > 0,
        ensures
            final(fs).wf(),
            final(fs).dirs_at() == old(fs).dirs_at(),
            old(fs).files_at().contains_key(temp_key(self.full_path(filename@))) ==> (r is Ok
                && final(fs).files_at() == old(fs).files_at().remove(
                temp_key(self.full_path(filename@)),
            ).insert(
                self.full_path(filename@),
                old(fs).files_at()[temp_key(self.full_path(filename@))],
            )),
            !old(fs).files_at().contains_key(temp_key(self.full_path(filename@))) ==> (r matches
                Err(e) && e.kind == ErrorKind::NotFound && final(fs).files_at() == old(
                fs,
            ).files_at()),
    {
        let full = self.resolve(filename);
        let temp = temp_target(&full);
        let moved = fs.rename(&temp, &full);
        if moved {
            Ok(())
        } else {
            let base = FsError { kind: ErrorKind::NotFound, detail: path_display(&temp) };
            let target_text = path_display(&full);
            Err(with_io_context(&base, target_text.as_str()))
        }
    }

    /// Stores `data` at `filename` under the root: creates missing
    /// parent directories, writes to a temporary sibling, renames it
    /// onto the target.  Afterwards the target holds exactly `data` and
    /// no temporary sibling remains.
    pub fn set(&self, fs: &mut FileSys, filename: &RelPath, data: &Vec<u8>) -> (r: Result<
        (),
        FsError,
    >)
        requires
            old(fs).wf(),
            filename@.len() > 0,
        ensures
            final(fs).wf(),
            r is Ok,
            final(fs).files_at() == set_files(
                old(fs).files_at(),
                self.full_path(filename@),
                data@,
            ),
            final(fs).dirs_at() == ensure_dirs(
                old(fs).dirs_at(),
                self.full_path(filename@).drop_last(),
            ),
    {
        let ghost full = self.full_path(filename@);
        let r1 = self.set_prepare(fs, filename, data);
        match r1 {
            Err(e) => {
                return Err(e);
            },
            Ok(()) => {},
        }
        match self.set_commit(fs, filename) {
            Ok(()) => {
                proof {
                    assert(final(fs).files_at() =~= set_files(
                        old(fs).files_at(),
                        full,
                        data@,
                    ));
                }
                Ok(())
            },
            Err(e) => {
                let full_v = self.resolve(filename);
                let target_text = path_display(&full_v);
                Err(with_io_context(&e, target_text.as_str()))
            },
        }
    }

    /// Derives the relative cache path for `url`: the codec's
    /// [`derive_base_path`], unchanged.
    pub fn get_cache_filename(
        &self,
        url: &Locator,
        windows_prefixes: bool,
        remote: Option<RelPath>,
    ) -> (r: Option<RelPath>)
        requires
            url.wf(),
        ensures
            opt_path_view(r) == base_path(*url, windows_prefixes, opt_path_view(remote)),
    {
        derive_base_path(url, windows_prefixes, remote)
    }

    /// Derives the relative cache path for `url` with `extension`
    /// appended under the extension-append policy: the codec's
    /// [`derive_path_with_extension`], unchanged.
    pub fn get_cache_filename_with_extension(
        &self,
        url: &Locator,
        windows_prefixes: bool,
        remote: Option<RelPath>,
        extension: &str,
    ) -> (r: Option<RelPath>)
        requires
            url.wf(),
            remote matches Some(p) ==> p@.len() > 0,
        ensures
            opt_path_view(r) == path_with_extension(
                *url,
                windows_prefixes,
                opt_path_view(remote),
                extension@,
            ),
    {
        derive_path_with_extension(url, windows_prefixes, remote, extension)
    }
}

/// Ensuring a directory chain indeed makes the directory exist, whether
/// or not it already did.
pub proof fn lemma_ensure_dirs_creates(dirs: Set<Seq<Seq<char>>>, p: Seq<Seq<char>>)
    requires
        p.len() > 0,
    ensures
        ensure_dirs(dirs, p).contains(p),
{
    if !dirs.contains(p) {
        assert(p.subrange(0, p.len() as int) =~= p);
        assert(ancestors(p).contains(p));
    }
}

/// A write then a read of the same path round-trips: after a completed
/// write of `data` at `full`, the entry at `full` holds exactly `data`,
/// so a read returns it.
pub proof fn lemma_set_then_get(
    files: Map<Seq<Seq<char>>, Seq<u8>>,
    full: Seq<Seq<char>>,
    data: Seq<u8>,
)
    requires
        full.len() > 0,
    ensures
        set_files(files, full, data).contains_key(full),
        set_files(files, full, data)[full] == data,
{
}

/// A second write to the same path overwrites the first, and no
/// temporary sibling survives a completed write.
pub proof fn lemma_set_overwrites_and_cleans_up(
    files: Map<Seq<Seq<char>>, Seq<u8>>,
    full: Seq<Seq<char>>,
    d1: Seq<u8>,
    d2: Seq<u8>,
)
    requires
        full.len() > 0,
    ensures
        set_files(set_files(files, full, d1), full, d2).contains_key(full),
        set_files(set_files(files, full, d1), full, d2)[full] == d2,
        !set_files(files, full, d1).contains_key(temp_key(full)),
{
    lemma_temp_key_distinct(full);
}

/// An interrupted write — the temporary sibling written, the rename
/// never performed — leaves the entry at the target path exactly as it
/// was: present only if it was present, with its old content.
pub proof fn lemma_interrupted_write_preserves_target(
    files: Map<Seq<Seq<char>>, Seq<u8>>,
    full: Seq<Seq<char>>,
    data: Seq<u8>,
)
    requires
        full.len() > 0,
    ensures
        files.insert(temp_key(full), data).contains_key(full) == files.contains_key(full),
        files.contains_key(full) ==> files.insert(temp_key(full), data)[full] == files[full],
{
    lemma_temp_key_distinct(full);
}

} // verus!
