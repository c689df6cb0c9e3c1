//! The host's side of reconciliation: a snapshot of the files under the
//! reconciliation root, keyed by their root-relative paths.
use vstd::prelude::*;

verus! {

/// One file: a slash-separated path relative to the root, and its text.
pub struct ComposeFile {
    pub path: String,
    pub content: String,
}

impl View for ComposeFile {
    type V = (Seq<char>, Seq<char>);

    open spec fn view(&self) -> (Seq<char>, Seq<char>) {
        (self.path@, self.content@)
    }
}

impl ComposeFile {
    pub fn new(path: String, content: String) -> (r: ComposeFile)
        ensures
            r.path@ == path@,
            r.content@ == content@,
    {
        ComposeFile { path, content }
    }

    /// A copy of the file that holds the same path and text.
    pub fn duplicate(&self) -> (r: ComposeFile)
        ensures
            r@ == self@,
    {
        ComposeFile { path: self.path.clone(), content: self.content.clone() }
    }
}

/// The abstract contents of a sequence of files.
pub open spec fn files_view(files: Seq<ComposeFile>) -> Seq<(Seq<char>, Seq<char>)> {
    files.map_values(|f: ComposeFile| f@)
}

/// Some entry of `files` has path `p`.
pub open spec fn has_path<V>(files: Seq<(Seq<char>, V)>, p: Seq<char>) -> bool {
    exists|i: int| 0 <= i < files.len() && #[trigger] files[i].0 == p
}

/// No two entries of `files` share a path.
pub open spec fn unique_paths<V>(files: Seq<(Seq<char>, V)>) -> bool {
    forall|i: int, j: int|
        0 <= i < files.len() && 0 <= j < files.len() && #[trigger] files[i].0 == #[trigger] files[j].0
            ==> i == j
}

/// The position of the entry with path `p` (meaningful when it exists).
pub open spec fn position<V>(files: Seq<(Seq<char>, V)>, p: Seq<char>) -> int {
    choose|i: int| 0 <= i < files.len() && files[i].0 == p
}

/// The text stored under `p`, if any.
pub open spec fn content_at<V>(files: Seq<(Seq<char>, V)>, p: Seq<char>) -> Option<V> {
    if has_path(files, p) {
        Some(files[position(files, p)].1)
    } else {
        None
    }
}

/// The store after `file` is written: its entry is replaced in place, or a
/// new entry is appended when the path was absent.
pub open spec fn written<V>(files: Seq<(Seq<char>, V)>, file: (Seq<char>, V)) -> Seq<(Seq<char>, V)> {
    if has_path(files, file.0) {
        files.update(position(files, file.0), file)
    } else {
        files.push(file)
    }
}

/// The store after the file at `p` is deleted; deleting an absent path
/// leaves the store as it was.
pub open spec fn deleted<V>(files: Seq<(Seq<char>, V)>, p: Seq<char>) -> Seq<(Seq<char>, V)> {
    if has_path(files, p) {
        files.remove(position(files, p))
    } else {
        files
    }
}

/// Identifies `i` as the position of `p` in a store with unique paths.
pub proof fn lemma_position<V>(files: Seq<(Seq<char>, V)>, p: Seq<char>, i: int)
    requires
        unique_paths(files),
        0 <= i < files.len(),
        files[i].0 == p,
    ensures
        has_path(files, p),
        position(files, p) == i,
        content_at(files, p) == Some(files[i].1),
{
    assert(files[i].0 == p);
    let k = position(files, p);
    assert(files[k].0 == files[i].0);
}

/// Writing keeps paths unique, and afterwards the path holds the new text.
pub proof fn lemma_written<V>(files: Seq<(Seq<char>, V)>, file: (Seq<char>, V))
    requires
        unique_paths(files),
    ensures
        unique_paths(written(files, file)),
        content_at(written(files, file), file.0) == Some(file.1),
        forall|q: Seq<char>| q != file.0 ==> content_at(written(files, file), q) == content_at(files, q),
{
    let w = written(files, file);
    if has_path(files, file.0) {
        let k = position(files, file.0);
        assert(unique_paths(w)) by {
            assert forall|i: int, j: int|
                0 <= i < w.len() && 0 <= j < w.len() && #[trigger] w[i].0 == #[trigger] w[j].0 implies i == j by {
                assert(files[i].0 == w[i].0 || i == k);
                assert(files[j].0 == w[j].0 || j == k);
            }
        }
        lemma_position(w, file.0, k);
        assert forall|q: Seq<char>| q != file.0 implies content_at(w, q) == content_at(files, q) by {
            if has_path(files, q) {
                let j = position(files, q);
                assert(j != k);
                lemma_position(w, q, j);
            } else {
                if has_path(w, q) {
                    let j = position(w, q);
                    assert(files[j].0 == q);
                }
            }
        }
    } else {
        let n = files.len() as int;
        assert(unique_paths(w)) by {
            assert forall|i: int, j: int|
                0 <= i < w.len() && 0 <= j < w.len() && #[trigger] w[i].0 == #[trigger] w[j].0 implies i == j by {
                if i < n && j == n {
                    assert(files[i].0 == file.0);
                }
                if j < n && i == n {
                    assert(files[j].0 == file.0);
                }
            }
        }
        lemma_position(w, file.0, n);
        assert forall|q: Seq<char>| q != file.0 implies content_at(w, q) == content_at(files, q) by {
            if has_path(files, q) {
                let j = position(files, q);
                lemma_position(w, q, j);
            } else {
                if has_path(w, q) {
                    let j = position(w, q);
                    assert(files[j].0 == q);
                }
            }
        }
    }
}

/// Deleting keeps paths unique, and afterwards the path is absent.
pub proof fn lemma_deleted<V>(files: Seq<(Seq<char>, V)>, p: Seq<char>)
    requires
        unique_paths(files),
    ensures
        unique_paths(deleted(files, p)),
        !has_path(deleted(files, p), p),
        forall|q: Seq<char>| q != p ==> content_at(deleted(files, p), q) == content_at(files, q),
{
    let d = deleted(files, p);
    if has_path(files, p) {
        let k = position(files, p);
        assert forall|i: int| 0 <= i < d.len() implies #[trigger] d[i] == (if i < k {
            files[i]
        } else {
            files[i + 1]
        }) by {}
        assert(unique_paths(d)) by {
            assert forall|i: int, j: int|
                0 <= i < d.len() && 0 <= j < d.len() && #[trigger] d[i].0 == #[trigger] d[j].0 implies i == j by {
                let fi = if i < k { i } else { i + 1 };
                let fj = if j < k { j } else { j + 1 };
                assert(files[fi].0 == files[fj].0);
            }
        }
        if has_path(d, p) {
            let i = position(d, p);
            let fi = if i < k { i } else { i + 1 };
            assert(files[fi].0 == files[k].0);
        }
        assert forall|q: Seq<char>| q != p implies content_at(d, q) == content_at(files, q) by {
            if has_path(files, q) {
                let j = position(files, q);
                assert(j != k);
                let dj = if j < k { j } else { j - 1 };
                assert(d[dj] == files[j]);
                lemma_position(d, q, dj);
            } else {
                if has_path(d, q) {
                    let i = position(d, q);
                    let fi = if i < k { i } else { i + 1 };
                    assert(files[fi].0 == q);
                }
            }
        }
    }
}

/// The files under the reconciliation root, in the order in which the
/// directory walk found them; no two share a path.
pub struct FileStore {
    files: Vec<ComposeFile>,
}

impl View for FileStore {
    type V = Seq<(Seq<char>, Seq<char>)>;

    closed spec fn view(&self) -> Seq<(Seq<char>, Seq<char>)> {
        files_view(self.files@)
    }
}

impl FileStore {
    pub open spec fn wf(&self) -> bool {
        unique_paths(self@)
    }

    /// An empty store.
    pub fn new() -> (r: FileStore)
        ensures
            r.wf(),
            r@ == Seq::<(Seq<char>, Seq<char>)>::empty(),
    {
        let r = FileStore { files: Vec::new() };
        assert(r@ =~= Seq::<(Seq<char>, Seq<char>)>::empty());
        r
    }

    pub fn len(&self) -> (r: usize)
        ensures
            r == self@.len(),
    {
        self.files.len()
    }

    /// The file at position `i` of the walk order.
    pub fn get(&self, i: usize) -> (r: &ComposeFile)
        requires
            i < self@.len(),
        ensures
            r@ == self@[i as int],
    {
        &self.files[i]
    }

    /// The position of the file at `path`, if there is one.
    pub fn find(&self, path: &String) -> (r: Option<usize>)
        requires
            self.wf(),
        ensures
            r is None <==> !has_path(self@, path@),
            r matches Some(i) ==> i < self@.len() && self@[i as int].0 == path@ && position(self@, path@)
                == i,
    {
        let mut i: usize = 0;
        while i < self.files.len()
            invariant
                i <= self.files@.len(),
                self.wf(),
                self@ == files_view(self.files@),
                forall|j: int| 0 <= j < i ==> #[trigger] self@[j].0 != path@,
            decreases self.files@.len() - i,
        {
            if self.files[i].path == *path {
                proof {
                    lemma_position(self@, path@, i as int);
                }
                return Some(i);
            }
            i = i + 1;
        }
        None
    }

    /// Adds a file found by the directory walk. A path that is already
    /// present is refused and the store is left as it was.
    pub fn add(&mut self, file: ComposeFile) -> (r: bool)
        requires
            old(self).wf(),
        ensures
            final(self).wf(),
            r == !has_path(old(self)@, file.path@),
            r ==> final(self)@ == old(self)@.push(file@),
            !r ==> final(self)@ == old(self)@,
    {
        match self.find(&file.path) {
            Some(_) => false,
            None => {
                let ghost before = self@;
                self.files.push(file);
                proof {
                    assert(self@ =~= before.push(file@));
                    lemma_written(before, file@);
                }
                true
            },
        }
    }

    /// Writes `file`: the text of an existing path is replaced in place, a new
    /// path is appended.
    pub fn write(&mut self, file: ComposeFile)
        requires
            old(self).wf(),
        ensures
            final(self).wf(),
            final(self)@ == written(old(self)@, file@),
    {
        let ghost before = self@;
        proof {
            lemma_written(before, file@);
        }
        match self.find(&file.path) {
            Some(i) => {
                self.files.set(i, file);
                assert(self@ =~= written(before, file@));
            },
            None => {
                self.files.push(file);
                assert(self@ =~= written(before, file@));
            },
        }
    }

    /// Deletes the file at `path`; an absent path is no error.
    pub fn delete(&mut self, path: &String)
        requires
            old(self).wf(),
        ensures
            final(self).wf(),
            final(self)@ == deleted(old(self)@, path@),
    {
        let ghost before = self@;
        proof {
            lemma_deleted(before, path@);
        }
        match self.find(path) {
            Some(i) => {
                self.files.remove(i);
                assert(self@ =~= deleted(before, path@));
            },
            None => {},
        }
    }
}

} // verus!
