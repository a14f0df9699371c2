use vstd::prelude::*;

use crate::model::{ArtifactKind, BuildStatus};
use crate::scan::{pieces_view, split_chars, split_spec};
use crate::sessions::{uuid_hyphenated, uuid_text};
use crate::text::{chars_of, concat_strs, string_from_chars};

verus! {

/// Publishes finished builds into the package repository.
#[derive(Debug, Default, Clone, Copy)]
pub struct FileRepoManager;

/// A file a finished build produced, as publication reads it.
#[derive(Debug, Clone)]
pub struct PublishCandidate {
    pub artifact_id: u128,
    /// The file's path below the job's artifact directory.
    pub path: String,
    pub mock_chroot: String,
    pub kind: ArtifactKind,
}

/// A file to publish: the candidate at `index`, placed at `repo_path`
/// below the repository root.
#[derive(Debug, Clone)]
pub struct PlannedFile {
    pub index: usize,
    pub repo_path: String,
}

/// Why a build could not be published.
#[derive(Debug, Clone, Copy, PartialEq, Eq)]
pub enum PublishError {
    /// Only a succeeded build is published.
    BuildNotSucceeded,
    /// The candidate at this index has a path without a file name.
    NoFileName(usize),
}

/// The last piece that names something: empty and `.` pieces are passed
/// over, as path components do.
pub open spec fn last_named_piece(pieces: Seq<Seq<char>>) -> Option<Seq<char>>
    decreases pieces.len(),
{
    if pieces.len() == 0 {
        None
    } else if pieces.last().len() == 0 || pieces.last() == seq!['.'] {
        last_named_piece(pieces.drop_last())
    } else {
        Some(pieces.last())
    }
}

/// The file name of a path: its last component when that is a name, and
/// none when the path is empty, a root, or ends in `..`.
pub open spec fn file_name_spec(path: Seq<char>) -> Option<Seq<char>> {
    match last_named_piece(split_spec(path, '/')) {
        Some(p) => if p == seq!['.', '.'] {
            None
        } else {
            Some(p)
        },
        None => None,
    }
}

/// Where a build's file goes below the repository root.
pub open spec fn repo_path_text(package_name: Seq<char>, mock_chroot: Seq<char>, job_id: u128, file_name: Seq<char>) -> Seq<
    char,
> {
    "packages/"@ + package_name + "/"@ + mock_chroot + "/builds/"@ + uuid_text(job_id) + "/"@ + file_name
}

/// Whether a planned file already sits at `path`.
pub open spec fn path_planned(plan: Seq<(int, Seq<char>)>, path: Seq<char>) -> bool {
    exists|k: int| 0 <= k < plan.len() && (#[trigger] plan[k]).1 == path
}

/// The plan for the first `n` candidates: source packages are left out
/// unless the package publishes them, each file lands in its build's
/// directory, and a second file for a path already planned is dropped.
pub open spec fn plan_prefix(
    package_name: Seq<char>,
    publish_srpm: bool,
    job_id: u128,
    artifacts: Seq<PublishCandidate>,
    n: nat,
) -> Result<Seq<(int, Seq<char>)>, PublishError>
    decreases n,
{
    if n == 0 {
        Ok(seq![])
    } else {
        match plan_prefix(package_name, publish_srpm, job_id, artifacts, (n - 1) as nat) {
            Err(e) => Err(e),
            Ok(plan) => {
                let a = artifacts[n - 1];
                if a.kind == ArtifactKind::Srpm && !publish_srpm {
                    Ok(plan)
                } else {
                    match file_name_spec(a.path@) {
                        None => Err(PublishError::NoFileName((n - 1) as usize)),
                        Some(f) => {
                            let path = repo_path_text(package_name, a.mock_chroot@, job_id, f);
                            if path_planned(plan, path) {
                                Ok(plan)
                            } else {
                                Ok(plan.push(((n - 1) as int, path)))
                            }
                        },
                    }
                }
            },
        }
    }
}

/// The files a build publishes, in candidate order.
pub open spec fn publication_plan(
    package_name: Seq<char>,
    publish_srpm: bool,
    job_id: u128,
    status: BuildStatus,
    artifacts: Seq<PublishCandidate>,
) -> Result<Seq<(int, Seq<char>)>, PublishError> {
    if status != BuildStatus::Succeeded {
        Err(PublishError::BuildNotSucceeded)
    } else {
        plan_prefix(package_name, publish_srpm, job_id, artifacts, artifacts.len())
    }
}

pub open spec fn plan_view(plan: Seq<PlannedFile>) -> Seq<(int, Seq<char>)> {
    plan.map_values(|p: PlannedFile| (p.index as int, p.repo_path@))
}

fn file_name_of(path: &str) -> (res: Option<Vec<char>>)
    ensures
        match res {
            Some(f) => file_name_spec(path@) == Some(f@),
            None => file_name_spec(path@) is None,
        },
{
    let chars = chars_of(path);
    let pieces = split_chars(&chars, '/');
    let ghost pv = pieces_view(pieces@);
    let mut n: usize = pieces.len();
    assert(pv.take(n as int) =~= pv);
    while n > 0
        invariant
            n <= pieces@.len(),
            pv == split_spec(path@, '/'),
            pv == pieces_view(pieces@),
            last_named_piece(pv) == last_named_piece(pv.take(n as int)),
        decreases n,
    {
        let piece = &pieces[n - 1];
        let ghost pre = pv.take(n as int);
        assert(pre.last() == piece@);
        assert(pre.drop_last() =~= pv.take(n as int - 1));
        if piece.len() == 0 || (piece.len() == 1 && piece[0] == '.') {
            assert(piece@.len() == 0 || piece@ =~= seq!['.']);
            n = n - 1;
        } else {
            assert(piece@ != seq!['.']) by {
                if piece@.len() == 1 {
                    assert(piece@[0] != '.');
                }
            }
            if piece.len() == 2 && piece[0] == '.' && piece[1] == '.' {
                assert(piece@ =~= seq!['.', '.']);
                return None;
            }
            assert(piece@ != seq!['.', '.']) by {
                if piece@.len() == 2 {
                    assert(piece@[0] != '.' || piece@[1] != '.');
                }
            }
            return Some(piece.clone());
        }
    }
    assert(pv.take(0) =~= Seq::<Seq<char>>::empty());
    None
}

fn planned_at(plan: &Vec<PlannedFile>, path: &String) -> (res: bool)
    ensures
        res == path_planned(plan_view(plan@), path@),
{
    let mut k: usize = 0;
    while k < plan.len()
        invariant
            k <= plan@.len(),
            forall|j: int| 0 <= j < k ==> (#[trigger] plan@[j]).repo_path@ != path@,
        decreases plan@.len() - k,
    {
        if plan[k].repo_path == *path {
            assert(plan_view(plan@)[k as int].1 == path@);
            return true;
        }
        k = k + 1;
    }
    assert forall|j: int| 0 <= j < plan_view(plan@).len() implies (#[trigger] plan_view(plan@)[j]).1 != path@ by {
        assert(plan_view(plan@)[j].1 == plan@[j].repo_path@);
    }
    false
}

fn repo_path_of(package_name: &str, mock_chroot: &str, job_text: &str, file_name: &str) -> (res: String)
    ensures
        res@ == "packages/"@ + package_name@ + "/"@ + mock_chroot@ + "/builds/"@ + job_text@ + "/"@ + file_name@,
{
    let a = concat_strs("packages/", package_name);
    let b = concat_strs(a.as_str(), "/");
    let c = concat_strs(b.as_str(), mock_chroot);
    let d = concat_strs(c.as_str(), "/builds/");
    let e = concat_strs(d.as_str(), job_text);
    let f = concat_strs(e.as_str(), "/");
    concat_strs(f.as_str(), file_name)
}

impl FileRepoManager {
    /// Lays out a succeeded build in the repository: which of its files are
    /// published, and where. Files are taken in order; a source package is
    /// published only when the package asks for it; each file goes to
    /// `packages/<package>/<chroot>/builds/<job>/<file name>`, and a file
    /// for a path already taken is passed over.
    pub fn plan_publication(
        &self,
        package_name: &str,
        publish_srpm: bool,
        job_id: u128,
        status: BuildStatus,
        artifacts: &Vec<PublishCandidate>,
    ) -> (res: Result<Vec<PlannedFile>, PublishError>)
        ensures
            match res {
                Ok(plan) => publication_plan(package_name@, publish_srpm, job_id, status, artifacts@) == Ok::<
                    Seq<(int, Seq<char>)>,
                    PublishError,
                >(plan_view(plan@)),
                Err(e) => publication_plan(package_name@, publish_srpm, job_id, status, artifacts@) == Err::<
                    Seq<(int, Seq<char>)>,
                    PublishError,
                >(e),
            },
    {
        match status {
            BuildStatus::Succeeded => {},
            _ => {
                return Err(PublishError::BuildNotSucceeded);
            },
        }
        let job_text = uuid_hyphenated(job_id);
        let mut plan: Vec<PlannedFile> = Vec::new();
        assert(plan_view(plan@) =~= Seq::<(int, Seq<char>)>::empty());
        let mut i: usize = 0;
        while i < artifacts.len()
            invariant
                i <= artifacts@.len(),
                status == BuildStatus::Succeeded,
                job_text@ == uuid_text(job_id),
                plan_prefix(package_name@, publish_srpm, job_id, artifacts@, i as nat) == Ok::<
                    Seq<(int, Seq<char>)>,
                    PublishError,
                >(plan_view(plan@)),
            decreases artifacts@.len() - i,
        {
            let artifact = &artifacts[i];
            let skip = match artifact.kind {
                ArtifactKind::Srpm => !publish_srpm,
                _ => false,
            };
            if !skip {
                let name = match file_name_of(artifact.path.as_str()) {
                    Some(name) => name,
                    None => {
                        proof {
                            assert(artifacts@[i as int] == *artifact);
                            assert(plan_prefix(package_name@, publish_srpm, job_id, artifacts@, i as nat + 1) == Err::<
                                Seq<(int, Seq<char>)>,
                                PublishError,
                            >(PublishError::NoFileName(i)));
                            lemma_plan_error_persists(package_name@, publish_srpm, job_id, artifacts@, i as nat + 1);
                        }
                        return Err(PublishError::NoFileName(i));
                    },
                };
                let file_name = string_from_chars(&name);
                let path = repo_path_of(package_name, artifact.mock_chroot.as_str(), job_text.as_str(), file_name.as_str());
                if !planned_at(&plan, &path) {
                    let ghost before = plan@;
                    plan.push(PlannedFile { index: i, repo_path: path });
                    assert(plan_view(plan@) =~= plan_view(before).push((i as int, path@)));
                }
            }
            i = i + 1;
        }
        Ok(plan)
    }
}

/// Once a prefix of the candidates fails to plan, every longer prefix fails
/// the same way.
proof fn lemma_plan_error_persists(
    package_name: Seq<char>,
    publish_srpm: bool,
    job_id: u128,
    artifacts: Seq<PublishCandidate>,
    n: nat,
)
    requires
        n <= artifacts.len(),
        plan_prefix(package_name, publish_srpm, job_id, artifacts, n) is Err,
    ensures
        plan_prefix(package_name, publish_srpm, job_id, artifacts, artifacts.len()) == plan_prefix(
            package_name,
            publish_srpm,
            job_id,
            artifacts,
            n,
        ),
    decreases artifacts.len() - n,
{
    if n < artifacts.len() {
        lemma_plan_error_persists(package_name, publish_srpm, job_id, artifacts, n + 1);
    }
}

/// What a publication promises: no two published files share a path, no
/// source package is published for a package that does not publish them,
/// and files keep the order of the build's artifacts.
pub proof fn lemma_publication_plan_sound(
    package_name: Seq<char>,
    publish_srpm: bool,
    job_id: u128,
    artifacts: Seq<PublishCandidate>,
    n: nat,
)
    requires
        n <= artifacts.len(),
        plan_prefix(package_name, publish_srpm, job_id, artifacts, n) is Ok,
    ensures
        ({
            let plan = plan_prefix(package_name, publish_srpm, job_id, artifacts, n)->Ok_0;
            &&& forall|a: int, b: int| 0 <= a < b < plan.len() ==> (#[trigger] plan[a]).1 != (#[trigger] plan[b]).1
            &&& forall|a: int, b: int| 0 <= a < b < plan.len() ==> (#[trigger] plan[a]).0 < (#[trigger] plan[b]).0
            &&& forall|a: int|
                0 <= a < plan.len() ==> 0 <= (#[trigger] plan[a]).0 < n && (!publish_srpm ==> artifacts[plan[a].0].kind
                    != ArtifactKind::Srpm)
        }),
    decreases n,
{
    if n > 0 {
        lemma_publication_plan_sound(package_name, publish_srpm, job_id, artifacts, (n - 1) as nat);
    }
}

/// A prefix's plan keeps every file planned for a shorter prefix.
proof fn lemma_plan_grows(
    package_name: Seq<char>,
    publish_srpm: bool,
    job_id: u128,
    artifacts: Seq<PublishCandidate>,
    m: nat,
    n: nat,
    path: Seq<char>,
)
    requires
        m <= n <= artifacts.len(),
        plan_prefix(package_name, publish_srpm, job_id, artifacts, n) is Ok,
        plan_prefix(package_name, publish_srpm, job_id, artifacts, m) is Ok,
        path_planned(plan_prefix(package_name, publish_srpm, job_id, artifacts, m)->Ok_0, path),
    ensures
        path_planned(plan_prefix(package_name, publish_srpm, job_id, artifacts, n)->Ok_0, path),
    decreases n - m,
{
    if m < n {
        let prev = plan_prefix(package_name, publish_srpm, job_id, artifacts, (n - 1) as nat);
        if prev is Err {
            lemma_plan_error_persists(package_name, publish_srpm, job_id, artifacts, (n - 1) as nat);
            lemma_plan_error_persists(package_name, publish_srpm, job_id, artifacts, n);
        }
        lemma_plan_grows(package_name, publish_srpm, job_id, artifacts, m, (n - 1) as nat, path);
        let before = prev->Ok_0;
        let after = plan_prefix(package_name, publish_srpm, job_id, artifacts, n)->Ok_0;
        let k = choose|k: int| 0 <= k < before.len() && (#[trigger] before[k]).1 == path;
        assert(after[k] == before[k]);
    }
}

/// Nothing publishable is left out: every candidate with a file name that
/// is not a source package withheld by the package (debug packages, logs
/// and every other kind included) has its repository path in the plan,
/// placed there by it or by an earlier candidate with the same path.
pub proof fn lemma_publication_plan_complete(
    package_name: Seq<char>,
    publish_srpm: bool,
    job_id: u128,
    artifacts: Seq<PublishCandidate>,
    i: int,
)
    requires
        0 <= i < artifacts.len(),
        plan_prefix(package_name, publish_srpm, job_id, artifacts, artifacts.len()) is Ok,
        artifacts[i].kind != ArtifactKind::Srpm || publish_srpm,
        file_name_spec(artifacts[i].path@) is Some,
    ensures
        path_planned(
            plan_prefix(package_name, publish_srpm, job_id, artifacts, artifacts.len())->Ok_0,
            repo_path_text(package_name, artifacts[i].mock_chroot@, job_id, file_name_spec(artifacts[i].path@)->Some_0),
        ),
{
    let path = repo_path_text(package_name, artifacts[i].mock_chroot@, job_id, file_name_spec(artifacts[i].path@)->Some_0);
    let prev = plan_prefix(package_name, publish_srpm, job_id, artifacts, i as nat);
    if prev is Err {
        lemma_plan_error_persists(package_name, publish_srpm, job_id, artifacts, i as nat);
    }
    let cur = plan_prefix(package_name, publish_srpm, job_id, artifacts, (i + 1) as nat);
    if cur is Err {
        lemma_plan_error_persists(package_name, publish_srpm, job_id, artifacts, (i + 1) as nat);
    }
    let before = prev->Ok_0;
    let after = cur->Ok_0;
    if !path_planned(before, path) {
        assert(after == before.push((i, path)));
        assert(after[before.len() as int].1 == path);
    }
    lemma_plan_grows(package_name, publish_srpm, job_id, artifacts, (i + 1) as nat, artifacts.len(), path);
}

} // verus!
