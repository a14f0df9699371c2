use vstd::prelude::*;

use crate::keyring::{lines_of, lines_spec};
use crate::sort::{sort_texts, text_order};
use crate::text::{
    chars_of, concat_strs, decimal_string, decimal_text, str_trim, string_from_chars, strings_view, to_owned_string,
    trim_spec,
};

verus! {

/// Why a repository browse was refused.
#[derive(Debug, Clone, Copy, PartialEq, Eq)]
pub enum BrowseError {
    EmptyUrl,
    AlreadyRunning,
}

impl BrowseError {
    pub fn message(&self) -> (res: &'static str)
        ensures
            res@ == match *self {
                BrowseError::EmptyUrl => "repository URL must not be empty"@,
                BrowseError::AlreadyRunning => "repository browse is already running"@,
            },
    {
        match self {
            BrowseError::EmptyUrl => "repository URL must not be empty",
            BrowseError::AlreadyRunning => "repository browse is already running",
        }
    }
}

/// Starts a repository browse: the URL without surrounding whitespace must
/// not be empty, and no other browse may be running.
pub fn begin_browse(repo_url: &str, browse_running: bool) -> (res: Result<String, BrowseError>)
    ensures
        trim_spec(repo_url@).len() == 0 ==> res == Err::<String, BrowseError>(BrowseError::EmptyUrl),
        trim_spec(repo_url@).len() > 0 && browse_running ==> res == Err::<String, BrowseError>(
            BrowseError::AlreadyRunning,
        ),
        trim_spec(repo_url@).len() > 0 && !browse_running ==> (res matches Ok(url) && url@ == trim_spec(repo_url@)),
{
    let url = str_trim(repo_url);
    if url.is_empty() {
        return Err(BrowseError::EmptyUrl);
    }
    if browse_running {
        return Err(BrowseError::AlreadyRunning);
    }
    Ok(to_owned_string(url))
}

/// Where a repository browse stands.
#[derive(Debug, Clone, Copy, PartialEq, Eq)]
pub enum BrowseState {
    Running,
    Completed,
    Failed,
}

/// A step of a repository browse.
#[derive(Debug, Clone, PartialEq, Eq)]
pub enum BrowseStage {
    Preparing,
    CheckingMirror,
    /// `git clone --progress` reported a phase.
    Cloning { percent: u8, message: String },
    MirrorCloneFailed,
    MirrorUnavailable,
    ReadingMetadata,
    ScanningFiles,
    Completed { spec_file_count: u64 },
    Failed { message: String },
}

/// What a browse reports at a step.
#[derive(Debug, Clone)]
pub struct BrowseUpdate {
    pub state: BrowseState,
    pub percent: u8,
    pub message: String,
}

/// The report of each step. Clone progress is held below 96 percent,
/// which the steps after the clone take.
pub open spec fn browse_update_spec(stage: BrowseStage) -> (BrowseState, int, Seq<char>) {
    match stage {
        BrowseStage::Preparing => (BrowseState::Running, 0, "Preparing repository clone\u{2026}"@),
        BrowseStage::CheckingMirror => (BrowseState::Running, 5, "Checking mirror cache\u{2026}"@),
        BrowseStage::Cloning { percent, message } => (
            BrowseState::Running,
            if percent < 95 {
                percent as int
            } else {
                95
            },
            message@,
        ),
        BrowseStage::MirrorCloneFailed => (BrowseState::Running, 8, "Mirror clone failed. Retrying direct clone\u{2026}"@),
        BrowseStage::MirrorUnavailable => (BrowseState::Running, 8, "Mirror cache unavailable. Cloning directly\u{2026}"@),
        BrowseStage::ReadingMetadata => (BrowseState::Running, 96, "Reading repository metadata\u{2026}"@),
        BrowseStage::ScanningFiles => (BrowseState::Running, 98, "Scanning repository files\u{2026}"@),
        BrowseStage::Completed { spec_file_count } => (
            BrowseState::Completed,
            100,
            "Clone complete. "@ + decimal_text(spec_file_count as nat) + " spec file(s) discovered."@,
        ),
        BrowseStage::Failed { message } => (BrowseState::Failed, 100, message@),
    }
}

/// The report of a browse step.
pub fn browse_update(stage: BrowseStage) -> (res: BrowseUpdate)
    ensures
        (res.state, res.percent as int, res.message@) == browse_update_spec(stage),
{
    match stage {
        BrowseStage::Preparing => BrowseUpdate {
            state: BrowseState::Running,
            percent: 0,
            message: to_owned_string("Preparing repository clone\u{2026}"),
        },
        BrowseStage::CheckingMirror => BrowseUpdate {
            state: BrowseState::Running,
            percent: 5,
            message: to_owned_string("Checking mirror cache\u{2026}"),
        },
        BrowseStage::Cloning { percent, message } => BrowseUpdate {
            state: BrowseState::Running,
            percent: if percent < 95 {
                percent
            } else {
                95
            },
            message,
        },
        BrowseStage::MirrorCloneFailed => BrowseUpdate {
            state: BrowseState::Running,
            percent: 8,
            message: to_owned_string("Mirror clone failed. Retrying direct clone\u{2026}"),
        },
        BrowseStage::MirrorUnavailable => BrowseUpdate {
            state: BrowseState::Running,
            percent: 8,
            message: to_owned_string("Mirror cache unavailable. Cloning directly\u{2026}"),
        },
        BrowseStage::ReadingMetadata => BrowseUpdate {
            state: BrowseState::Running,
            percent: 96,
            message: to_owned_string("Reading repository metadata\u{2026}"),
        },
        BrowseStage::ScanningFiles => BrowseUpdate {
            state: BrowseState::Running,
            percent: 98,
            message: to_owned_string("Scanning repository files\u{2026}"),
        },
        BrowseStage::Completed { spec_file_count } => {
            let count = string_from_chars(&decimal_string(spec_file_count));
            let head = concat_strs("Clone complete. ", count.as_str());
            BrowseUpdate {
                state: BrowseState::Completed,
                percent: 100,
                message: concat_strs(head.as_str(), " spec file(s) discovered."),
            }
        },
        BrowseStage::Failed { message } => BrowseUpdate { state: BrowseState::Failed, percent: 100, message },
    }
}

/// The non-blank lines of a listing, each without surrounding whitespace.
pub open spec fn listed_files(lines: Seq<Seq<char>>) -> Seq<Seq<char>>
    decreases lines.len(),
{
    if lines.len() == 0 {
        seq![]
    } else {
        let rest = listed_files(lines.drop_last());
        let t = trim_spec(lines.last());
        if t.len() > 0 {
            rest.push(t)
        } else {
            rest
        }
    }
}

/// An RPM spec file, by its name.
pub open spec fn is_spec_path(path: Seq<char>) -> bool {
    path.len() >= 5 && path.subrange(path.len() - 5, path.len() as int) == ".spec"@
}

/// The spec files among the paths, in order.
pub open spec fn spec_paths(paths: Seq<Seq<char>>) -> Seq<Seq<char>>
    decreases paths.len(),
{
    if paths.len() == 0 {
        seq![]
    } else if is_spec_path(paths.last()) {
        spec_paths(paths.drop_last()).push(paths.last())
    } else {
        spec_paths(paths.drop_last())
    }
}

fn ends_with_spec(path: &str) -> (res: bool)
    ensures
        res == is_spec_path(path@),
{
    let c = chars_of(path);
    let n = c.len();
    proof {
        reveal_strlit(".spec");
    }
    if n < 5 {
        return false;
    }
    let res = c[n - 5] == '.' && c[n - 4] == 's' && c[n - 3] == 'p' && c[n - 2] == 'e' && c[n - 1] == 'c';
    proof {
        let sub = c@.subrange(n - 5, n as int);
        assert(".spec"@ =~= seq!['.', 's', 'p', 'e', 'c']);
        if res {
            assert(sub =~= ".spec"@);
        } else if sub == ".spec"@ {
            assert(sub[0] == '.' && sub[1] == 's' && sub[2] == 'p' && sub[3] == 'e' && sub[4] == 'c');
        }
    }
    res
}

/// What a browse finds in a clone.
#[derive(Debug, Clone)]
pub struct BrowseListing {
    pub head_commit: String,
    /// Every tracked file, in the order of `String`.
    pub files: Vec<String>,
    /// The tracked files whose name ends in `.spec`, in the same order.
    pub spec_files: Vec<String>,
}

/// Reads a browse's findings from the output of `git rev-parse HEAD` and
/// `git ls-files`: the commit without surrounding whitespace, the
/// non-blank trimmed file lines sorted, and among them the spec files.
pub fn browse_listing(head_output: &str, files_output: &str) -> (res: BrowseListing)
    ensures
        res.head_commit@ == trim_spec(head_output@),
        strings_view(res.files@) == listed_files(lines_spec(files_output@)).sort_by(text_order()),
        strings_view(res.spec_files@) == spec_paths(strings_view(res.files@)),
{
    let lines = lines_of(files_output);
    let ghost lv = strings_view(lines@);
    let mut kept: Vec<String> = Vec::new();
    let mut i: usize = 0;
    while i < lines.len()
        invariant
            i <= lines@.len(),
            lv == strings_view(lines@),
            lv == lines_spec(files_output@),
            strings_view(kept@) == listed_files(lv.take(i as int)),
        decreases lines@.len() - i,
    {
        let t = str_trim(lines[i].as_str());
        assert(lv.take(i as int + 1).drop_last() =~= lv.take(i as int));
        assert(lv.take(i as int + 1).last() == lines@[i as int]@);
        if !t.is_empty() {
            let ghost before = kept@;
            kept.push(to_owned_string(t));
            assert(strings_view(kept@) =~= strings_view(before).push(t@));
        }
        i = i + 1;
    }
    assert(lv.take(lines@.len() as int) =~= lv);
    let files = sort_texts(&kept);
    let ghost fv = strings_view(files@);
    let mut spec_files: Vec<String> = Vec::new();
    let mut j: usize = 0;
    while j < files.len()
        invariant
            j <= files@.len(),
            fv == strings_view(files@),
            strings_view(spec_files@) == spec_paths(fv.take(j as int)),
        decreases files@.len() - j,
    {
        assert(fv.take(j as int + 1).drop_last() =~= fv.take(j as int));
        assert(fv.take(j as int + 1).last() == files@[j as int]@);
        if ends_with_spec(files[j].as_str()) {
            let ghost before = spec_files@;
            spec_files.push(files[j].clone());
            assert(strings_view(spec_files@) =~= strings_view(before).push(files@[j as int]@));
        }
        j = j + 1;
    }
    assert(fv.take(files@.len() as int) =~= fv);
    BrowseListing { head_commit: to_owned_string(str_trim(head_output)), files, spec_files }
}

/// Where a browse clones the repository from.
#[derive(Debug, Clone, PartialEq, Eq)]
pub enum CloneSource {
    /// The local mirror at this path.
    Mirror(String),
    /// The repository's own URL.
    Direct,
}

/// The first clone of a browse: from the mirror when the cache could
/// provide one, else directly, with the step that reports the fallback.
pub fn first_clone(mirror: Result<String, String>) -> (res: (CloneSource, Option<BrowseStage>))
    ensures
        match mirror {
            Ok(path) => res.0 matches CloneSource::Mirror(p) && p@ == path@ && res.1 is None,
            Err(_) => res.0 is Direct && res.1 == Some(BrowseStage::MirrorUnavailable),
        },
{
    match mirror {
        Ok(path) => (CloneSource::Mirror(path), None),
        Err(_) => (CloneSource::Direct, Some(BrowseStage::MirrorUnavailable)),
    }
}

/// What follows a clone.
#[derive(Debug, PartialEq, Eq)]
pub enum CloneNext {
    /// The mirror clone failed: report it and clone directly.
    RetryDirect,
    /// The clone is over, with this outcome.
    Finished(Result<(), String>),
}

/// A failed clone from the mirror is retried once, directly; a direct
/// clone, or a mirror clone that worked, ends the clone with its outcome.
pub fn after_clone(source: &CloneSource, result: Result<(), String>) -> (res: CloneNext)
    ensures
        source is Mirror && result is Err ==> res == CloneNext::RetryDirect,
        !(source is Mirror && result is Err) ==> res == CloneNext::Finished(result),
{
    match source {
        CloneSource::Mirror(_) => if result.is_err() {
            CloneNext::RetryDirect
        } else {
            CloneNext::Finished(result)
        },
        CloneSource::Direct => CloneNext::Finished(result),
    }
}

/// The arguments of the shallow `git clone` of a browse into `clone_dir`,
/// from the mirror or from `repo_url`.
pub fn clone_args(source: &CloneSource, repo_url: &str, clone_dir: &str) -> (res: Vec<String>)
    ensures
        strings_view(res@) == seq![
            "clone"@,
            "--progress"@,
            "--depth"@,
            "1"@,
            match source {
                CloneSource::Mirror(p) => p@,
                CloneSource::Direct => repo_url@,
            },
            clone_dir@,
        ],
{
    let from = match source {
        CloneSource::Mirror(p) => p.clone(),
        CloneSource::Direct => to_owned_string(repo_url),
    };
    let mut v: Vec<String> = Vec::new();
    v.push(to_owned_string("clone"));
    v.push(to_owned_string("--progress"));
    v.push(to_owned_string("--depth"));
    v.push(to_owned_string("1"));
    v.push(from);
    v.push(to_owned_string(clone_dir));
    proof {
        assert(strings_view(v@) =~= seq![
            "clone"@,
            "--progress"@,
            "--depth"@,
            "1"@,
            match source {
                CloneSource::Mirror(p) => p@,
                CloneSource::Direct => repo_url@,
            },
            clone_dir@,
        ]);
    }
    v
}

} // verus!
