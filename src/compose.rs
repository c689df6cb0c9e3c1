//! Classifies a client's file set against the host's files, and turns an
//! accepted difference into the change to make on the host.
use vstd::prelude::*;
use vstd::string::*;

use crate::store::{
    content_at, deleted, files_view, has_path, lemma_deleted, lemma_position, lemma_written,
    position, unique_paths, written, ComposeFile, FileStore,
};

verus! {

/// How a client's file relates to the host's file at the same path.
#[derive(PartialEq, Eq, Structural, Clone, Copy, Debug)]
pub enum DiffResult {
    /// The host has no file at the path.
    New,
    /// The host's file holds the same text.
    Same,
    /// The host's file holds other text.
    Modified,
    /// The host has a file that the client did not submit.
    Removed,
}

/// The status carried by a wire code; unknown codes read as `Same`.
pub open spec fn result_of_code(code: i32) -> DiffResult {
    if code == 0 {
        DiffResult::New
    } else if code == 2 {
        DiffResult::Modified
    } else if code == 3 {
        DiffResult::Removed
    } else {
        DiffResult::Same
    }
}

/// The wire code of a status.
pub open spec fn code_of(r: DiffResult) -> i32 {
    match r {
        DiffResult::New => 0,
        DiffResult::Same => 1,
        DiffResult::Modified => 2,
        DiffResult::Removed => 3,
    }
}

impl From<i32> for DiffResult {
    fn from(code: i32) -> (r: DiffResult) {
        if code == 0 {
            DiffResult::New
        } else if code == 2 {
            DiffResult::Modified
        } else if code == 3 {
            DiffResult::Removed
        } else {
            DiffResult::Same
        }
    }
}

impl vstd::std_specs::convert::FromSpecImpl<i32> for DiffResult {
    open spec fn obeys_from_spec() -> bool {
        true
    }

    open spec fn from_spec(code: i32) -> DiffResult {
        result_of_code(code)
    }
}

impl DiffResult {
    /// The wire code of this status.
    pub fn code(&self) -> (r: i32)
        ensures
            r == code_of(*self),
            result_of_code(r) == *self,
    {
        match self {
            DiffResult::New => 0,
            DiffResult::Same => 1,
            DiffResult::Modified => 2,
            DiffResult::Removed => 3,
        }
    }
}

/// The status of one path, with the client's text (empty for `Removed`).
pub struct ComposeFileDiff {
    pub path: String,
    pub result: DiffResult,
    pub content: String,
}

impl View for ComposeFileDiff {
    type V = (Seq<char>, DiffResult, Seq<char>);

    open spec fn view(&self) -> (Seq<char>, DiffResult, Seq<char>) {
        (self.path@, self.result, self.content@)
    }
}

pub open spec fn diffs_view(diffs: Seq<ComposeFileDiff>) -> Seq<(Seq<char>, DiffResult, Seq<char>)> {
    diffs.map_values(|d: ComposeFileDiff| d@)
}

/// The status of a client's file against the host's files.
pub open spec fn status_of(host: Seq<(Seq<char>, Seq<char>)>, file: (Seq<char>, Seq<char>)) -> DiffResult {
    match content_at(host, file.0) {
        None => DiffResult::New,
        Some(c) => if c == file.1 {
            DiffResult::Same
        } else {
            DiffResult::Modified
        },
    }
}

/// The diffs of the client's files, in the order they were submitted.
pub open spec fn client_diffs(
    host: Seq<(Seq<char>, Seq<char>)>,
    client: Seq<(Seq<char>, Seq<char>)>,
) -> Seq<(Seq<char>, DiffResult, Seq<char>)> {
    client.map_values(|f: (Seq<char>, Seq<char>)| (f.0, status_of(host, f), f.1))
}

/// A `Removed` diff for each host file whose path the client did not
/// submit, in the host's walk order.
pub open spec fn removed_diffs(
    host: Seq<(Seq<char>, Seq<char>)>,
    client: Seq<(Seq<char>, Seq<char>)>,
) -> Seq<(Seq<char>, DiffResult, Seq<char>)>
    decreases host.len(),
{
    if host.len() == 0 {
        Seq::empty()
    } else {
        let rest = removed_diffs(host.drop_last(), client);
        let h = host.last();
        if has_path(client, h.0) {
            rest
        } else {
            rest.push((h.0, DiffResult::Removed, Seq::empty()))
        }
    }
}

/// The full answer to a diff request.
pub open spec fn diff_spec(
    host: Seq<(Seq<char>, Seq<char>)>,
    client: Seq<(Seq<char>, Seq<char>)>,
) -> Seq<(Seq<char>, DiffResult, Seq<char>)> {
    client_diffs(host, client) + removed_diffs(host, client)
}

/// What the host's files become when a file is pushed with a status.
pub open spec fn pushed(
    host: Seq<(Seq<char>, Seq<char>)>,
    file: (Seq<char>, Seq<char>),
    result: DiffResult,
) -> Seq<(Seq<char>, Seq<char>)> {
    performed(host, push_action_of(file, result))
}

/// The change that a push makes on the host.
pub enum PushAction {
    /// Leave the host as it is.
    Nothing,
    /// Create the parent directories of `path` and write `content` there.
    Write { path: String, content: String },
    /// Delete the file at `path`; a missing file is no error.
    Delete { path: String },
}

/// The abstract form of a push action.
pub enum PushStep {
    Nothing,
    Write((Seq<char>, Seq<char>)),
    Delete(Seq<char>),
}

impl View for PushAction {
    type V = PushStep;

    open spec fn view(&self) -> PushStep {
        match self {
            PushAction::Nothing => PushStep::Nothing,
            PushAction::Write { path, content } => PushStep::Write((path@, content@)),
            PushAction::Delete { path } => PushStep::Delete(path@),
        }
    }
}

/// The action for pushing `file` with `result`.
pub open spec fn push_action_of(file: (Seq<char>, Seq<char>), result: DiffResult) -> PushStep {
    match result {
        DiffResult::Same => PushStep::Nothing,
        DiffResult::New | DiffResult::Modified => PushStep::Write(file),
        DiffResult::Removed => PushStep::Delete(file.0),
    }
}

/// The host's files after an action is carried out.
pub open spec fn performed(host: Seq<(Seq<char>, Seq<char>)>, step: PushStep) -> Seq<
    (Seq<char>, Seq<char>),
> {
    match step {
        PushStep::Nothing => host,
        PushStep::Write(file) => written(host, file),
        PushStep::Delete(p) => deleted(host, p),
    }
}

impl FileStore {
    /// Carries out a push action on this snapshot of the host.
    pub fn perform(&mut self, action: &PushAction)
        requires
            old(self).wf(),
        ensures
            final(self).wf(),
            final(self)@ == performed(old(self)@, action@),
    {
        match action {
            PushAction::Nothing => {},
            PushAction::Write { path, content } => {
                self.write(ComposeFile::new(path.clone(), content.clone()));
            },
            PushAction::Delete { path } => {
                self.delete(path);
            },
        }
    }
}

/// The reconciliation service for one root directory.
pub struct ComposeService {
    root: String,
}

impl ComposeService {
    pub closed spec fn root_view(&self) -> Seq<char> {
        self.root@
    }

    pub fn new(root: String) -> (r: ComposeService)
        ensures
            r.root_view() == root@,
    {
        ComposeService { root }
    }

    /// Where a root-relative path lies on the host.
    pub fn host_path(&self, relative: &String) -> (r: String)
        ensures
            r@ == self.root_view() + "/"@ + relative@,
    {
        let joined = self.root.clone().concat("/");
        joined.concat(relative.as_str())
    }

    /// Classifies one client file against the host's files.
    pub fn diff(&self, host: &FileStore, file: ComposeFile) -> (r: ComposeFileDiff)
        requires
            host.wf(),
        ensures
            r@ == (file.path@, status_of(host@, file@), file.content@),
    {
        let result = match host.find(&file.path) {
            None => DiffResult::New,
            Some(i) => {
                proof {
                    lemma_position(host@, file.path@, i as int);
                }
                if host.get(i).content == file.content {
                    DiffResult::Same
                } else {
                    DiffResult::Modified
                }
            },
        };
        ComposeFileDiff { path: file.path, result, content: file.content }
    }

    /// True when no submitted file has `path`.
    pub fn got_removed(path: &String, files: &Vec<ComposeFile>) -> (r: bool)
        ensures
            r == !has_path(files_view(files@), path@),
    {
        let ghost client = files_view(files@);
        let mut i: usize = 0;
        while i < files.len()
            invariant
                i <= files@.len(),
                client == files_view(files@),
                forall|j: int| 0 <= j < i ==> #[trigger] client[j].0 != path@,
            decreases files@.len() - i,
        {
            if files[i].path == *path {
                assert(client[i as int].0 == path@);
                return false;
            }
            i = i + 1;
        }
        true
    }

    /// The diffs of the client's files against the host's files: one per
    /// submitted file in submission order, then one `Removed` diff per host
    /// file that was not submitted, in walk order.
    pub fn calculate_diffs(&self, host: &FileStore, files: &Vec<ComposeFile>) -> (r: Vec<
        ComposeFileDiff,
    >)
        requires
            host.wf(),
        ensures
            diffs_view(r@) == diff_spec(host@, files_view(files@)),
    {
        let ghost client = files_view(files@);
        let mut diffs: Vec<ComposeFileDiff> = Vec::new();
        let mut i: usize = 0;
        while i < files.len()
            invariant
                i <= files@.len(),
                host.wf(),
                client == files_view(files@),
                diffs_view(diffs@) == client_diffs(host@, client.subrange(0, i as int)),
            decreases files@.len() - i,
        {
            let d = self.diff(host, files[i].duplicate());
            let ghost before = diffs@;
            diffs.push(d);
            proof {
                assert(client.subrange(0, i + 1) == client.subrange(0, i as int).push(client[i as int]));
                assert(diffs_view(diffs@) =~= diffs_view(before).push(d@));
                assert(client_diffs(host@, client.subrange(0, i + 1)) =~= client_diffs(
                    host@,
                    client.subrange(0, i as int),
                ).push(d@));
            }
            i = i + 1;
        }
        assert(client.subrange(0, files@.len() as int) =~= client);
        let ghost prefix = diffs_view(diffs@);
        let mut j: usize = 0;
        while j < host.len()
            invariant
                j <= host@.len(),
                client == files_view(files@),
                diffs_view(diffs@) == prefix + removed_diffs(host@.subrange(0, j as int), client),
            decreases host@.len() - j,
        {
            let h = host.get(j);
            let ghost before = diffs@;
            proof {
                assert(host@.subrange(0, j + 1).drop_last() =~= host@.subrange(0, j as int));
                assert(host@.subrange(0, j + 1).last() == host@[j as int]);
            }
            if Self::got_removed(&h.path, files) {
                let d = ComposeFileDiff {
                    path: h.path.clone(),
                    result: DiffResult::Removed,
                    content: String::new(),
                };
                diffs.push(d);
                assert(diffs_view(diffs@) =~= diffs_view(before).push(d@));
            }
            j = j + 1;
        }
        assert(host@.subrange(0, host@.len() as int) =~= host@);
        diffs
    }

    /// The host change for pushing `file` with the status the client
    /// computed; the status is not checked against the host again.
    pub fn push_file(&self, file: &ComposeFile, result: DiffResult) -> (r: PushAction)
        ensures
            r@ == push_action_of(file@, result),
    {
        match result {
            DiffResult::Same => PushAction::Nothing,
            DiffResult::New | DiffResult::Modified => PushAction::Write {
                path: file.path.clone(),
                content: file.content.clone(),
            },
            DiffResult::Removed => PushAction::Delete { path: file.path.clone() },
        }
    }
}

/// The `Removed` part of a diff: each entry names a host path that the
/// client did not submit, each such host path is named, and none twice.
pub proof fn lemma_removed(host: Seq<(Seq<char>, Seq<char>)>, client: Seq<(Seq<char>, Seq<char>)>)
    requires
        unique_paths(host),
    ensures
        forall|j: int|
            0 <= j < removed_diffs(host, client).len() ==> {
                let d = #[trigger] removed_diffs(host, client)[j];
                &&& d.1 == DiffResult::Removed
                &&& d.2 == Seq::<char>::empty()
                &&& has_path(host, d.0)
                &&& !has_path(client, d.0)
            },
        forall|k: int|
            0 <= k < host.len() && !has_path(client, #[trigger] host[k].0) ==> exists|j: int|
                0 <= j < removed_diffs(host, client).len() && #[trigger] removed_diffs(host, client)[j].0
                    == host[k].0,
        forall|j1: int, j2: int|
            0 <= j1 < removed_diffs(host, client).len() && 0 <= j2 < removed_diffs(host, client).len()
                && #[trigger] removed_diffs(host, client)[j1].0 == #[trigger] removed_diffs(
                host,
                client,
            )[j2].0 ==> j1 == j2,
    decreases host.len(),
{
    if host.len() > 0 {
        let prefix = host.drop_last();
        let n = host.len() - 1;
        let h = host.last();
        assert(unique_paths(prefix)) by {
            assert forall|a: int, b: int|
                0 <= a < prefix.len() && 0 <= b < prefix.len() && #[trigger] prefix[a].0
                    == #[trigger] prefix[b].0 implies a == b by {
                assert(host[a].0 == host[b].0);
            }
        }
        lemma_removed(prefix, client);
        let rest = removed_diffs(prefix, client);
        let r = removed_diffs(host, client);
        assert forall|x: Seq<char>| has_path(prefix, x) implies has_path(host, x) && x != h.0 by {
            let a = choose|a: int| 0 <= a < prefix.len() && #[trigger] prefix[a].0 == x;
            assert(host[a].0 == x);
            if x == h.0 {
                assert(host[a].0 == host[n].0);
            }
        }
        assert(host[n].0 == h.0);
        assert forall|j: int| 0 <= j < r.len() implies {
            let d = #[trigger] r[j];
            &&& d.1 == DiffResult::Removed
            &&& d.2 == Seq::<char>::empty()
            &&& has_path(host, d.0)
            &&& !has_path(client, d.0)
        } by {
            if j < rest.len() {
                assert(r[j] == rest[j]);
            }
        }
        assert forall|k: int| 0 <= k < host.len() && !has_path(client, #[trigger] host[k].0) implies exists|j: int|
            0 <= j < r.len() && #[trigger] r[j].0 == host[k].0 by {
            if k < n {
                assert(prefix[k].0 == host[k].0);
                let j = choose|j: int| 0 <= j < rest.len() && #[trigger] rest[j].0 == prefix[k].0;
                assert(r[j] == rest[j]);
            } else {
                assert(r[rest.len() as int].0 == h.0);
            }
        }
        assert forall|j1: int, j2: int|
            0 <= j1 < r.len() && 0 <= j2 < r.len() && #[trigger] r[j1].0 == #[trigger] r[j2].0 implies j1
                == j2 by {
            if j1 < rest.len() && j2 < rest.len() {
                assert(rest[j1].0 == rest[j2].0);
            } else if j1 < rest.len() {
                assert(has_path(prefix, rest[j1].0));
            } else if j2 < rest.len() {
                assert(has_path(prefix, rest[j2].0));
            }
        }
    }
}

/// A diff splits the paths into classes that do not overlap and leave
/// nothing out: each submitted path is `New` when the host lacks it, `Same`
/// when the host holds the same text, `Modified` when it holds other text;
/// after those, each host path that was not submitted is `Removed` exactly
/// once, with empty text, and nothing else is.
pub proof fn lemma_diff_partition(host: Seq<(Seq<char>, Seq<char>)>, client: Seq<(Seq<char>, Seq<char>)>)
    requires
        unique_paths(host),
    ensures
        diff_spec(host, client).len() >= client.len(),
        forall|i: int|
            0 <= i < client.len() ==> {
                let d = #[trigger] diff_spec(host, client)[i];
                &&& d.0 == client[i].0
                &&& d.2 == client[i].1
                &&& d.1 != DiffResult::Removed
                &&& (d.1 == DiffResult::New <==> !has_path(host, client[i].0))
                &&& (d.1 == DiffResult::Same <==> content_at(host, client[i].0) == Some(client[i].1))
                &&& (d.1 == DiffResult::Modified <==> has_path(host, client[i].0) && content_at(
                    host,
                    client[i].0,
                ) != Some(client[i].1))
            },
        forall|j: int|
            client.len() <= j < diff_spec(host, client).len() ==> {
                let d = #[trigger] diff_spec(host, client)[j];
                &&& d.1 == DiffResult::Removed
                &&& d.2 == Seq::<char>::empty()
                &&& has_path(host, d.0)
                &&& !has_path(client, d.0)
            },
        forall|k: int|
            0 <= k < host.len() && !has_path(client, #[trigger] host[k].0) ==> exists|j: int|
                client.len() <= j < diff_spec(host, client).len() && #[trigger] diff_spec(
                    host,
                    client,
                )[j].0 == host[k].0,
        forall|j1: int, j2: int|
            client.len() <= j1 < diff_spec(host, client).len() && client.len() <= j2 < diff_spec(
                host,
                client,
            ).len() && #[trigger] diff_spec(host, client)[j1].0 == #[trigger] diff_spec(
                host,
                client,
            )[j2].0 ==> j1 == j2,
{
    lemma_removed(host, client);
    let c = client_diffs(host, client);
    let r = removed_diffs(host, client);
    let all = diff_spec(host, client);
    let n = client.len() as int;
    assert forall|i: int| 0 <= i < client.len() implies {
        let d = #[trigger] all[i];
        &&& d.0 == client[i].0
        &&& d.2 == client[i].1
        &&& d.1 != DiffResult::Removed
        &&& (d.1 == DiffResult::New <==> !has_path(host, client[i].0))
        &&& (d.1 == DiffResult::Same <==> content_at(host, client[i].0) == Some(client[i].1))
        &&& (d.1 == DiffResult::Modified <==> has_path(host, client[i].0) && content_at(
            host,
            client[i].0,
        ) != Some(client[i].1))
    } by {
        assert(all[i] == c[i]);
    }
    assert forall|j: int| n <= j < all.len() implies #[trigger] all[j] == r[j - n] by {}
    assert forall|k: int| 0 <= k < host.len() && !has_path(client, #[trigger] host[k].0) implies exists|j: int|
        n <= j < all.len() && #[trigger] all[j].0 == host[k].0 by {
        let j = choose|j: int| 0 <= j < r.len() && #[trigger] r[j].0 == host[k].0;
        assert(all[j + n] == r[j]);
    }
    assert forall|j1: int, j2: int|
        n <= j1 < all.len() && n <= j2 < all.len() && #[trigger] all[j1].0 == #[trigger] all[j2].0 implies j1
            == j2 by {
        assert(r[j1 - n].0 == r[j2 - n].0);
    }
}

/// Pushing the same file with the same status twice leaves the host as
/// pushing it once does.
pub proof fn lemma_push_idempotent(
    host: Seq<(Seq<char>, Seq<char>)>,
    file: (Seq<char>, Seq<char>),
    result: DiffResult,
)
    requires
        unique_paths(host),
    ensures
        pushed(pushed(host, file, result), file, result) == pushed(host, file, result),
{
    match result {
        DiffResult::Same => {},
        DiffResult::New | DiffResult::Modified => {
            let w = written(host, file);
            lemma_written(host, file);
            let k = position(w, file.0);
            assert(w[k] == file);
            assert(written(w, file) =~= w);
        },
        DiffResult::Removed => {
            lemma_deleted(host, file.0);
        },
    }
}

/// After a submitted file is pushed with the status that the diff gave it,
/// diffing the same submission again reports that file as `Same`.
pub proof fn lemma_push_then_diff(
    host: Seq<(Seq<char>, Seq<char>)>,
    client: Seq<(Seq<char>, Seq<char>)>,
    i: int,
)
    requires
        unique_paths(host),
        0 <= i < client.len(),
    ensures
        diff_spec(pushed(host, client[i], diff_spec(host, client)[i].1), client)[i].1
            == DiffResult::Same,
{
    let st = diff_spec(host, client)[i].1;
    assert(diff_spec(host, client)[i] == client_diffs(host, client)[i]);
    let after = pushed(host, client[i], st);
    assert(diff_spec(after, client)[i] == client_diffs(after, client)[i]);
    if st == DiffResult::New || st == DiffResult::Modified {
        lemma_written(host, client[i]);
    }
}

/// After a `Removed` diff is pushed, submitting that path again (with any
/// text) reports it as `New`.
pub proof fn lemma_removed_then_resubmitted(
    host: Seq<(Seq<char>, Seq<char>)>,
    client: Seq<(Seq<char>, Seq<char>)>,
    j: int,
    content: Seq<char>,
)
    requires
        unique_paths(host),
        client.len() <= j < diff_spec(host, client).len(),
    ensures
        ({
            let d = diff_spec(host, client)[j];
            let again = client.push((d.0, content));
            diff_spec(pushed(host, (d.0, d.2), d.1), again)[client.len() as int].1
                == DiffResult::New
        }),
{
    lemma_diff_partition(host, client);
    let d = diff_spec(host, client)[j];
    lemma_deleted(host, d.0);
    let after = pushed(host, (d.0, d.2), d.1);
    let again = client.push((d.0, content));
    assert(diff_spec(after, again)[client.len() as int] == client_diffs(after, again)[client.len() as int]);
}

} // verus!
