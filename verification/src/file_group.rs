//! What a file group gives: its globs, its environment variables, the
//! declared paths that are directories or files, and its root.
use vstd::prelude::*;
use vstd::string::*;
use crate::errors::{FileGroupError, FileGroupErrorView};
use crate::model::{views, FileGroup, FileGroupView, HostSnapshot, HostSnapshotView, PathKind};
use crate::patterns::{run_end, scan_run, CharClass};
use crate::text::slice_of;

verus! {

/// The model of what a query on a file group returns.
pub open spec fn listed(r: Result<Vec<String>, FileGroupError>) -> Result<
    Seq<Seq<char>>,
    FileGroupErrorView,
> {
    match r {
        Ok(v) => Ok(views(v@)),
        Err(e) => Err(e@),
    }
}

/// The declared paths that are of kind `want`, in order. A path that is
/// neither a file nor a directory is passed over where `loose` is set; else
/// the first such path is the error.
pub open spec fn selected(
    group: Seq<char>,
    paths: Seq<Seq<char>>,
    host: HostSnapshotView,
    want: PathKind,
    loose: bool,
) -> Result<Seq<Seq<char>>, FileGroupErrorView>
    decreases paths.len(),
{
    if paths.len() == 0 {
        Ok(seq![])
    } else {
        match selected(group, paths.drop_last(), host, want, loose) {
            Err(e) => Err(e),
            Ok(found) => {
                let kind = host.kind_of(paths.last());
                if kind == PathKind::Missing && !loose {
                    Err(FileGroupErrorView::MissingPath { group, path: paths.last() })
                } else if kind == want {
                    Ok(found.push(paths.last()))
                } else {
                    Ok(found)
                }
            },
        }
    }
}

/// How many characters `a` and `b` have in common at their front.
pub open spec fn common_len(a: Seq<char>, b: Seq<char>) -> nat
    decreases a.len(),
{
    if a.len() > 0 && b.len() > 0 && a[0] == b[0] {
        1 + common_len(a.drop_first(), b.drop_first())
    } else {
        0
    }
}

/// The longest text that every one of `paths` starts with.
pub open spec fn common_start(paths: Seq<Seq<char>>) -> Seq<char>
    decreases paths.len(),
{
    if paths.len() == 0 {
        seq![]
    } else if paths.len() == 1 {
        paths[0]
    } else {
        let before = common_start(paths.drop_last());
        before.subrange(0, common_len(before, paths.last()) as int)
    }
}

/// The directory that `path` lies in: what stands before its last `/`, or
/// nothing where it has none.
pub open spec fn parent(path: Seq<char>) -> Seq<char>
    decreases path.len(),
{
    if path.len() == 0 {
        seq![]
    } else if path.last() == '/' {
        path.drop_last()
    } else {
        parent(path.drop_last())
    }
}

/// The part of a glob before its first wildcard.
pub open spec fn fixed_part(glob: Seq<char>) -> Seq<char> {
    glob.subrange(0, run_end(glob, 0, CharClass::Fixed))
}

/// The fixed parts of `globs`, in order.
pub open spec fn fixed_parts(globs: Seq<Seq<char>>) -> Seq<Seq<char>> {
    Seq::new(globs.len(), |i: int| fixed_part(globs[i]))
}

impl FileGroupView {
    /// The declared globs, which must not be empty.
    pub open spec fn globs_or_error(self) -> Result<Seq<Seq<char>>, FileGroupErrorView> {
        if self.globs.len() == 0 {
            Err(FileGroupErrorView::NoGlobs { group: self.id })
        } else {
            Ok(self.globs)
        }
    }

    /// The declared environment variables, which must not be empty.
    pub open spec fn env_or_error(self) -> Result<Seq<Seq<char>>, FileGroupErrorView> {
        if self.env.len() == 0 {
            Err(FileGroupErrorView::NoEnvVars { group: self.id })
        } else {
            Ok(self.env)
        }
    }

    /// The declared paths that are directories.
    pub open spec fn dirs(self, host: HostSnapshotView, loose: bool) -> Result<
        Seq<Seq<char>>,
        FileGroupErrorView,
    > {
        selected(self.id, self.files, host, PathKind::Directory, loose)
    }

    /// The declared paths that are regular files.
    pub open spec fn files(self, host: HostSnapshotView, loose: bool) -> Result<
        Seq<Seq<char>>,
        FileGroupErrorView,
    > {
        selected(self.id, self.files, host, PathKind::File, loose)
    }

    /// The nearest directory above all declared files and globs, a glob
    /// counting up to its first wildcard. Where they share no directory, the
    /// root is the project's own directory.
    pub open spec fn root(self, project_source: Seq<char>) -> Result<
        Seq<char>,
        FileGroupErrorView,
    > {
        let paths = self.files + fixed_parts(self.globs);
        if paths.len() == 0 {
            Err(FileGroupErrorView::NoFilesOrGlobs { group: self.id })
        } else {
            let dir = parent(common_start(paths));
            if dir.len() == 0 {
                Ok(project_source)
            } else {
                Ok(dir)
            }
        }
    }
}

/// Copies a list of texts.
pub fn copy_texts(list: &Vec<String>) -> (r: Vec<String>)
    ensures
        views(r@) == views(list@),
{
    let mut out: Vec<String> = Vec::new();
    let mut i: usize = 0;
    while i < list.len()
        invariant
            i <= list.len(),
            views(out@) == views(list@).take(i as int),
        decreases list.len() - i,
    {
        let ghost before = views(out@);
        out.push(list[i].clone());
        assert(views(out@) =~= before.push(list[i as int]@));
        assert(views(out@) =~= views(list@).take(i + 1));
        i += 1;
    }
    assert(views(list@).take(i as int) =~= views(list@));
    out
}

/// Counts the characters that `a` and `b` have in common at their front.
pub fn common_length(a: &str, b: &str) -> (r: usize)
    ensures
        r == common_len(a@, b@),
        r <= a@.len(),
        r <= b@.len(),
{
    let n = a.unicode_len();
    let m = b.unicode_len();
    let mut i: usize = 0;
    proof {
        assert(a@.subrange(0, n as int) =~= a@);
        assert(b@.subrange(0, m as int) =~= b@);
    }
    while i < n && i < m && a.get_char(i) == b.get_char(i)
        invariant
            n == a@.len(),
            m == b@.len(),
            i <= n,
            i <= m,
            common_len(a@, b@) == i + common_len(
                a@.subrange(i as int, n as int),
                b@.subrange(i as int, m as int),
            ),
        decreases n - i,
    {
        proof {
            let ra = a@.subrange(i as int, n as int);
            let rb = b@.subrange(i as int, m as int);
            assert(ra[0] == rb[0]);
            assert(ra.drop_first() =~= a@.subrange(i + 1, n as int));
            assert(rb.drop_first() =~= b@.subrange(i + 1, m as int));
        }
        i += 1;
    }
    proof {
        let ra = a@.subrange(i as int, n as int);
        let rb = b@.subrange(i as int, m as int);
        if i < n && i < m {
            assert(ra[0] != rb[0]);
        }
        assert(common_len(ra, rb) == 0);
    }
    i
}

/// The directory that `path` lies in.
pub fn parent_of(path: &str) -> (r: String)
    ensures
        r@ == parent(path@),
{
    let n = path.unicode_len();
    let mut i: usize = n;
    assert(path@.take(n as int) =~= path@);
    while i > 0
        invariant
            n == path@.len(),
            i <= n,
            parent(path@.take(i as int)) == parent(path@),
        decreases i,
    {
        let ghost upto = path@.take(i as int);
        proof {
            assert(upto.last() == path@[i - 1]);
            assert(upto.drop_last() =~= path@.take(i - 1));
        }
        if path.get_char(i - 1) == '/' {
            assert(path@.subrange(0, i - 1) =~= path@.take(i - 1));
            return slice_of(path, 0, i - 1);
        }
        i -= 1;
    }
    assert(path@.take(0).len() == 0);
    String::new()
}

impl FileGroup {
    /// The declared globs as they were written, or an error where the group
    /// declares none.
    pub fn globs(&self) -> (r: Result<Vec<String>, FileGroupError>)
        ensures
            listed(r) == self@.globs_or_error(),
    {
        if self.globs.len() == 0 {
            Err(FileGroupError::NoGlobs { group: self.id.clone() })
        } else {
            Ok(copy_texts(&self.globs))
        }
    }

    /// The declared environment variables, or an error where the group
    /// declares none.
    pub fn env(&self) -> (r: Result<Vec<String>, FileGroupError>)
        ensures
            listed(r) == self@.env_or_error(),
    {
        if self.env.len() == 0 {
            Err(FileGroupError::NoEnvVars { group: self.id.clone() })
        } else {
            Ok(copy_texts(&self.env))
        }
    }

    /// The declared paths that the snapshot knows as `want`.
    fn select(&self, host: &HostSnapshot, want: PathKind, loose: bool) -> (r: Result<
        Vec<String>,
        FileGroupError,
    >)
        ensures
            listed(r) == selected(self@.id, self@.files, host@, want, loose),
    {
        let mut out: Vec<String> = Vec::new();
        let mut i: usize = 0;
        assert(views(out@) =~= Seq::<Seq<char>>::empty());
        assert(self@.files.take(0) =~= Seq::<Seq<char>>::empty());
        while i < self.files.len()
            invariant
                i <= self.files.len(),
                self@.files == views(self.files@),
                selected(self@.id, self@.files.take(i as int), host@, want, loose) == Ok::<
                    Seq<Seq<char>>,
                    FileGroupErrorView,
                >(views(out@)),
            decreases self.files.len() - i,
        {
            let ghost upto = self@.files.take(i + 1);
            let ghost before = views(out@);
            proof {
                assert(upto.last() == self.files[i as int]@);
                assert(upto.drop_last() =~= self@.files.take(i as int));
            }
            let kind = host.kind_of(self.files[i].as_str());
            if kind == PathKind::Missing && !loose {
                proof {
                    lemma_selected_error_stays(
                        self@.id,
                        self@.files,
                        host@,
                        want,
                        loose,
                        i + 1,
                    );
                }
                return Err(
                    FileGroupError::MissingPath {
                        group: self.id.clone(),
                        path: self.files[i].clone(),
                    },
                );
            }
            if kind == want {
                out.push(self.files[i].clone());
                assert(views(out@) =~= before.push(self.files[i as int]@));
            }
            i += 1;
        }
        assert(self@.files.take(i as int) =~= self@.files);
        Ok(out)
    }

    /// The declared paths that are directories. A path that is neither a
    /// file nor a directory is an error, unless `loose` is set.
    pub fn dirs(&self, host: &HostSnapshot, loose: bool) -> (r: Result<
        Vec<String>,
        FileGroupError,
    >)
        ensures
            listed(r) == self@.dirs(host@, loose),
    {
        self.select(host, PathKind::Directory, loose)
    }

    /// The declared paths that are regular files. A path that is neither a
    /// file nor a directory is an error, unless `loose` is set.
    pub fn files(&self, host: &HostSnapshot, loose: bool) -> (r: Result<
        Vec<String>,
        FileGroupError,
    >)
        ensures
            listed(r) == self@.files(host@, loose),
    {
        self.select(host, PathKind::File, loose)
    }

    /// The nearest directory above all declared files and globs, or the
    /// project's directory where they share none. An error where the group
    /// declares neither a file nor a glob.
    pub fn root(&self, project_source: &str) -> (r: Result<String, FileGroupError>)
        ensures
            match r {
                Ok(dir) => self@.root(project_source@) == Ok::<Seq<char>, FileGroupErrorView>(
                    dir@,
                ),
                Err(e) => self@.root(project_source@) == Err::<Seq<char>, FileGroupErrorView>(
                    e@,
                ),
            },
    {
        let ghost paths = self@.files + fixed_parts(self@.globs);
        let files = self.files.len();
        let globs = self.globs.len();
        if files == 0 && globs == 0 {
            return Err(FileGroupError::NoFilesOrGlobs { group: self.id.clone() });
        }
        let mut common = String::new();
        let mut i: usize = 0;
        while i < files
            invariant
                files == self.files.len(),
                globs == self.globs.len(),
                i <= files,
                paths == self@.files + fixed_parts(self@.globs),
                common@ == common_start(paths.take(i as int)),
            decreases files - i,
        {
            proof {
                assert(paths.take(i + 1).drop_last() =~= paths.take(i as int));
                assert(paths.take(i + 1).last() == self.files[i as int]@);
            }
            if i == 0 {
                common = self.files[i].clone();
            } else {
                let keep = common_length(common.as_str(), self.files[i].as_str());
                common = slice_of(common.as_str(), 0, keep);
            }
            i += 1;
        }
        let mut j: usize = 0;
        while j < globs
            invariant
                files == self.files.len(),
                globs == self.globs.len(),
                j <= globs,
                paths == self@.files + fixed_parts(self@.globs),
                common@ == common_start(paths.take(files + j)),
            decreases globs - j,
        {
            let glob = self.globs[j].as_str();
            let end = scan_run(glob, 0, CharClass::Fixed);
            let fixed = slice_of(glob, 0, end);
            proof {
                assert(paths.take(files + j + 1).drop_last() =~= paths.take(files + j));
                assert(paths.take(files + j + 1).last() == fixed_part(self.globs[j as int]@));
            }
            if files == 0 && j == 0 {
                common = fixed;
            } else {
                let keep = common_length(common.as_str(), fixed.as_str());
                common = slice_of(common.as_str(), 0, keep);
            }
            j += 1;
        }
        assert(paths.take(files + globs) =~= paths);
        let dir = parent_of(common.as_str());
        if dir.as_str().unicode_len() == 0 {
            Ok(String::from_str(project_source))
        } else {
            Ok(dir)
        }
    }
}

/// Once a declared path is missing, the paths behind it do not change the
/// error.
pub proof fn lemma_selected_error_stays(
    group: Seq<char>,
    paths: Seq<Seq<char>>,
    host: HostSnapshotView,
    want: PathKind,
    loose: bool,
    n: int,
)
    requires
        0 <= n <= paths.len(),
        selected(group, paths.take(n), host, want, loose) is Err,
    ensures
        selected(group, paths, host, want, loose) == selected(
            group,
            paths.take(n),
            host,
            want,
            loose,
        ),
    decreases paths.len() - n,
{
    if n < paths.len() {
        assert(paths.take(n + 1).drop_last() =~= paths.take(n));
        lemma_selected_error_stays(group, paths, host, want, loose, n + 1);
    } else {
        assert(paths.take(n) =~= paths);
    }
}

} // verus!
