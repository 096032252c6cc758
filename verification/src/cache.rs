//! The layout of the cache on disk: where blobs, pointers, references and
//! scratch files of a repository stand, and what finalizing a download
//! writes where. Only paths and contents are computed here; reading and
//! writing them is the caller's part.

use rand::distributions::Alphanumeric;
use rand::Rng;
use vstd::prelude::*;
use crate::paths::is_absolute;
use crate::paths::join_path;
use crate::paths::link_target;
use crate::paths::parent_path;
use crate::paths::path_join;
use crate::paths::path_parent;
use crate::paths::relative_path;
use crate::repo::Repo;
use crate::repo::RepoType;
use crate::repo::RepoView;
use crate::resolve::Metadata;
use crate::text::trim;
use crate::text::trimmed;

verus! {

/// The length of the random name of a scratch file.
pub const TEMP_NAME_LEN: usize = 7;

/// Whether `c` is an ASCII letter or digit.
pub open spec fn is_alphanumeric(c: char) -> bool {
    let n = c as u32;
    ||| 0x30 <= n <= 0x39
    ||| 0x41 <= n <= 0x5a
    ||| 0x61 <= n <= 0x7a
}

/// Whether `name` can be the name of a scratch file: seven ASCII letters or
/// digits.
pub open spec fn is_temp_name(name: Seq<char>) -> bool {
    &&& name.len() == TEMP_NAME_LEN
    &&& forall|i: int| 0 <= i < name.len() ==> is_alphanumeric(#[trigger] name[i])
}

/// `rand::Rng::sample_iter` on the thread's generator with the distribution
/// `Alphanumeric`, `len` samples collected as characters. Each sample is one
/// of the 62 ASCII letters and digits; which ones is left open.
#[verifier::external_body]
fn random_alphanumeric(len: usize) -> (name: String)
    ensures
        name@.len() == len,
        forall|i: int| 0 <= i < name@.len() ==> is_alphanumeric(#[trigger] name@[i]),
{
    rand::thread_rng().sample_iter(&Alphanumeric).take(len).map(char::from).collect()
}

/// The root of the cache.
#[derive(Debug)]
pub struct Cache {
    path: String,
}

impl View for Cache {
    type V = Seq<char>;

    /// The path of the root.
    closed spec fn view(&self) -> Seq<char> {
        self.path@
    }
}

impl Clone for Cache {
    fn clone(&self) -> (out: Cache)
        ensures
            out@ == self@,
    {
        Cache { path: self.path.clone() }
    }
}

/// The path of the token file of the cache at `root`: the file `token`
/// beside the root, that is in the directory above it, or in the root itself
/// where nothing is above.
pub open spec fn token_path_of(root: Seq<char>) -> Seq<char> {
    match path_parent(root) {
        Some(up) => path_join(up, "token"@),
        None => path_join(root, "token"@),
    }
}

/// The token that the content of a token file gives: the content without
/// white space at its ends, and none where nothing is left.
pub open spec fn token_of(content: Seq<char>) -> Option<Seq<char>> {
    if trimmed(content).len() == 0 {
        None
    } else {
        Some(trimmed(content))
    }
}

/// The root of the cache that the process is set up for: `hub` under the
/// directory named by the override where there is one, else under
/// `.cache/huggingface` in the home directory. Without either there is
/// none.
pub open spec fn default_root(hf_home: Option<Seq<char>>, home: Option<Seq<char>>) -> Option<
    Seq<char>,
> {
    match hf_home {
        Some(dir) => Some(path_join(dir, "hub"@)),
        None => match home {
            Some(dir) => Some(
                path_join(path_join(path_join(dir, ".cache"@), "huggingface"@), "hub"@),
            ),
            None => None,
        },
    }
}

/// The path of the scratch file `name` of the cache at `root`.
pub open spec fn temp_path_of(root: Seq<char>, name: Seq<char>) -> Seq<char> {
    path_join(path_join(root, "tmp"@), name)
}

impl Cache {
    /// The cache rooted at `path`.
    pub fn new(path: String) -> (cache: Cache)
        ensures
            cache@ == path@,
    {
        Self { path }
    }

    /// The cache that the process is set up for, given the value of the
    /// override variable and the home directory, as far as they are set.
    pub fn from_home(hf_home: Option<&str>, home: Option<&str>) -> (r: Option<Cache>)
        ensures
            match r {
                Some(cache) => Some(cache@) == default_root(
                    match hf_home {
                        Some(dir) => Some(dir@),
                        None => None,
                    },
                    match home {
                        Some(dir) => Some(dir@),
                        None => None,
                    },
                ),
                None => hf_home is None && home is None,
            },
    {
        match hf_home {
            Some(dir) => Some(Cache { path: join_path(dir, "hub") }),
            None => match home {
                Some(dir) => {
                    let a = join_path(dir, ".cache");
                    let b = join_path(a.as_str(), "huggingface");
                    Some(Cache { path: join_path(b.as_str(), "hub") })
                },
                None => None,
            },
        }
    }

    /// The path of the root.
    pub fn path(&self) -> (path: &String)
        ensures
            path@ == self@,
    {
        &self.path
    }

    /// The path of the token file.
    pub fn token_path(&self) -> (path: String)
        ensures
            path@ == token_path_of(self@),
    {
        match parent_path(self.path.as_str()) {
            Some(up) => join_path(up.as_str(), "token"),
            None => join_path(self.path.as_str(), "token"),
        }
    }

    /// The token that a token file with this content gives.
    pub fn token(content: &str) -> (token: Option<String>)
        ensures
            match token {
                Some(t) => token_of(content@) == Some(t@),
                None => token_of(content@) is None,
            },
    {
        let t = trim(content);
        if t.as_str().unicode_len() == 0 {
            None
        } else {
            Some(t)
        }
    }

    /// The view of this cache on one repository.
    pub fn repo(&self, repo: Repo) -> (view: CacheRepo)
        ensures
            view.root() == self@,
            view.repo() == repo@,
    {
        CacheRepo::new(self.clone(), repo)
    }

    /// The view of this cache on the model `model_id` at revision `main`.
    pub fn model(&self, model_id: String) -> (view: CacheRepo)
        ensures
            view.root() == self@,
            view.repo() == (RepoView {
                repo_id: model_id@,
                repo_type: RepoType::Model,
                revision: "main"@,
            }),
    {
        self.repo(Repo::new(model_id, RepoType::Model))
    }

    /// The view of this cache on the dataset `model_id` at revision `main`.
    pub fn dataset(&self, model_id: String) -> (view: CacheRepo)
        ensures
            view.root() == self@,
            view.repo() == (RepoView {
                repo_id: model_id@,
                repo_type: RepoType::Dataset,
                revision: "main"@,
            }),
    {
        self.repo(Repo::new(model_id, RepoType::Dataset))
    }

    /// The view of this cache on the space `model_id` at revision `main`.
    pub fn space(&self, model_id: String) -> (view: CacheRepo)
        ensures
            view.root() == self@,
            view.repo() == (RepoView {
                repo_id: model_id@,
                repo_type: RepoType::Space,
                revision: "main"@,
            }),
    {
        self.repo(Repo::new(model_id, RepoType::Space))
    }

    /// The path of the scratch file called `name`.
    pub fn temp_path_named(&self, name: &str) -> (path: String)
        ensures
            path@ == temp_path_of(self@, name@),
    {
        let dir = join_path(self.path.as_str(), "tmp");
        join_path(dir.as_str(), name)
    }

    /// The path of a fresh scratch file: a random name of seven letters and
    /// digits in the directory `tmp` of the cache.
    pub fn temp_path(&self) -> (path: String)
        ensures
            exists|name: Seq<char>| is_temp_name(name) && path@ == #[trigger] temp_path_of(self@, name),
    {
        let name = random_alphanumeric(TEMP_NAME_LEN);
        self.temp_path_named(name.as_str())
    }
}

/// A cache seen from one repository.
#[derive(Debug)]
pub struct CacheRepo {
    cache: Cache,
    repo: Repo,
}

/// The folder of `repo` in the cache at `root`.
pub open spec fn repo_path_of(root: Seq<char>, repo: RepoView) -> Seq<char> {
    path_join(root, repo.folder_name())
}

/// The file that records which commit the revision of `repo` stands for.
pub open spec fn ref_path_of(root: Seq<char>, repo: RepoView) -> Seq<char> {
    path_join(path_join(repo_path_of(root, repo), "refs"@), repo.revision)
}

/// The file that holds the content with identity `etag`.
pub open spec fn blob_path_of(root: Seq<char>, repo: RepoView, etag: Seq<char>) -> Seq<char> {
    path_join(path_join(repo_path_of(root, repo), "blobs"@), etag)
}

/// The directory that holds the files of commit `commit_hash`.
pub open spec fn pointer_path_of(root: Seq<char>, repo: RepoView, commit_hash: Seq<char>) -> Seq<
    char,
> {
    path_join(path_join(repo_path_of(root, repo), "snapshots"@), commit_hash)
}

/// The place of the file `filename` of commit `commit_hash`.
pub open spec fn pointer_file_of(
    root: Seq<char>,
    repo: RepoView,
    commit_hash: Seq<char>,
    filename: Seq<char>,
) -> Seq<char> {
    path_join(pointer_path_of(root, repo, commit_hash), filename)
}

/// What recording a commit writes: the file, the directory to make first,
/// and the content.
#[derive(Debug, PartialEq, Eq)]
pub struct RefRecord {
    /// The directory that holds the file; none where the path has no parent.
    pub dir: Option<String>,
    /// The file.
    pub path: String,
    /// What is written, replacing what was there.
    pub content: String,
}

/// What a download does once the file is resolved. Where the content is
/// not in the cache yet it is fetched into a scratch file, `blob_dir` is
/// made and the scratch file is moved to `blob_path`. In either case
/// `pointer_dir` is made, `pointer_path` is linked to the blob and the
/// commit is recorded.
#[derive(Debug, PartialEq, Eq)]
pub struct FinalizePlan {
    /// Whether the content is to be fetched: it is not where its blob is
    /// there already, for a blob is written once and never again.
    pub fetch: bool,
    /// Where the content goes, named by its identity.
    pub blob_path: String,
    /// The directory of the blob; none where the path has no parent.
    pub blob_dir: Option<String>,
    /// Where the file appears under its commit. The result of the download.
    pub pointer_path: String,
    /// The directory of the pointer; none where the path has no parent.
    pub pointer_dir: Option<String>,
    /// What the link at `pointer_path` names to reach the blob; none where
    /// one of the two paths is absolute and the other is not.
    pub link_target: Option<String>,
    /// The record of the commit.
    pub reference: RefRecord,
}

/// The view of an optional string.
pub open spec fn option_text(s: Option<String>) -> Option<Seq<char>> {
    match s {
        Some(t) => Some(t@),
        None => None,
    }
}

impl CacheRepo {
    /// The root of the cache.
    pub closed spec fn root(&self) -> Seq<char> {
        self.cache@
    }

    /// The repository.
    pub closed spec fn repo(&self) -> RepoView {
        self.repo@
    }

    /// The view of `cache` on `repo`.
    pub fn new(cache: Cache, repo: Repo) -> (view: CacheRepo)
        ensures
            view.root() == cache@,
            view.repo() == repo@,
    {
        Self { cache, repo }
    }

    /// The folder of the repository in the cache.
    pub fn path(&self) -> (path: String)
        ensures
            path@ == repo_path_of(self.root(), self.repo()),
    {
        let folder = self.repo.folder_name();
        join_path(self.cache.path().as_str(), folder.as_str())
    }

    /// The file that records which commit the revision stands for.
    pub fn ref_path(&self) -> (path: String)
        ensures
            path@ == ref_path_of(self.root(), self.repo()),
    {
        let base = self.path();
        let refs = join_path(base.as_str(), "refs");
        join_path(refs.as_str(), self.repo.revision())
    }

    /// The file that holds the content with identity `etag`.
    pub fn blob_path(&self, etag: &str) -> (path: String)
        ensures
            path@ == blob_path_of(self.root(), self.repo(), etag@),
    {
        let base = self.path();
        let blobs = join_path(base.as_str(), "blobs");
        join_path(blobs.as_str(), etag)
    }

    /// The directory that holds the files of commit `commit_hash`.
    pub fn pointer_path(&self, commit_hash: &str) -> (path: String)
        ensures
            path@ == pointer_path_of(self.root(), self.repo(), commit_hash@),
    {
        let base = self.path();
        let snapshots = join_path(base.as_str(), "snapshots");
        join_path(snapshots.as_str(), commit_hash)
    }

    /// Where `filename` stands in the cache if it is cached, given the
    /// content of the reference file where there is one. Without a
    /// reference nothing is cached; with one, the file is cached exactly if
    /// the returned place exists.
    pub fn get(&self, reference: Option<&str>, filename: &str) -> (place: Option<String>)
        ensures
            match reference {
                Some(commit_hash) => place matches Some(p) && p@ == pointer_file_of(
                    self.root(),
                    self.repo(),
                    commit_hash@,
                    filename@,
                ),
                None => place is None,
            },
    {
        match reference {
            Some(commit_hash) => {
                let dir = self.pointer_path(commit_hash);
                Some(join_path(dir.as_str(), filename))
            },
            None => None,
        }
    }

    /// What recording `commit_hash` for the revision writes: the hash
    /// without white space at its ends, into the reference file.
    pub fn create_ref(&self, commit_hash: &str) -> (record: RefRecord)
        ensures
            record.path@ == ref_path_of(self.root(), self.repo()),
            option_text(record.dir) == path_parent(record.path@),
            record.content@ == trimmed(commit_hash@),
    {
        let path = self.ref_path();
        let dir = parent_path(path.as_str());
        RefRecord { dir, path, content: trim(commit_hash) }
    }

    /// What the download of `filename` with metadata `meta` does, given
    /// whether the blob for the content is in the cache already. Content
    /// that is there is not fetched again.
    pub fn finalize_plan(&self, meta: &Metadata, filename: &str, blob_exists: bool) -> (plan:
        FinalizePlan)
        ensures
            plan.fetch == !blob_exists,
            plan.blob_path@ == blob_path_of(self.root(), self.repo(), meta.etag@),
            option_text(plan.blob_dir) == path_parent(plan.blob_path@),
            plan.pointer_path@ == pointer_file_of(
                self.root(),
                self.repo(),
                meta.commit_hash@,
                filename@,
            ),
            option_text(plan.pointer_dir) == path_parent(plan.pointer_path@),
            option_text(plan.link_target) == (if is_absolute(plan.blob_path@) == is_absolute(
                plan.pointer_path@,
            ) {
                Some(relative_path(plan.blob_path@, plan.pointer_path@))
            } else {
                None
            }),
            plan.reference.path@ == ref_path_of(self.root(), self.repo()),
            option_text(plan.reference.dir) == path_parent(plan.reference.path@),
            plan.reference.content@ == trimmed(meta.commit_hash@),
    {
        let blob_path = self.blob_path(meta.etag.as_str());
        let blob_dir = parent_path(blob_path.as_str());
        let dir = self.pointer_path(meta.commit_hash.as_str());
        let pointer_path = join_path(dir.as_str(), filename);
        let pointer_dir = parent_path(pointer_path.as_str());
        let link_target = link_target(blob_path.as_str(), pointer_path.as_str());
        let reference = self.create_ref(meta.commit_hash.as_str());
        FinalizePlan {
            fetch: !blob_exists,
            blob_path,
            blob_dir,
            pointer_path,
            pointer_dir,
            link_target,
            reference,
        }
    }

    /// Where `filename` stands in the cache, if it is cached: the place that
    /// `get` names, given whether that place exists. Without a reference,
    /// or where the place does not exist, the file is not cached.
    pub fn lookup(&self, reference: Option<&str>, filename: &str, exists: bool) -> (place: Option<
        String,
    >)
        ensures
            match reference {
                Some(commit_hash) => if exists {
                    place matches Some(p) && p@ == pointer_file_of(
                        self.root(),
                        self.repo(),
                        commit_hash@,
                        filename@,
                    )
                } else {
                    place is None
                },
                None => place is None,
            },
    {
        if exists {
            self.get(reference, filename)
        } else {
            None
        }
    }
}

/// One step of finalizing a download.
#[derive(Debug, PartialEq, Eq)]
pub enum FinalizeStep {
    /// Make the directory `path` and those above it, where there is one to
    /// make. Where `must` is false, a failure to do so is passed over.
    MakeDir { path: Option<String>, must: bool },
    /// Move the file `from` to `to` in one step.
    MoveFile { from: String, to: String },
    /// Put the blob in place at `pointer`: a link where one can be made,
    /// else the file itself; nothing where `pointer` exists.
    PlacePointer { blob: String, pointer: String },
    /// Write `content` to the file `file`, replacing what was there.
    WriteRef { file: String, content: String },
}

impl FinalizePlan {
    /// The steps that put fetched content into the cache, in order: the
    /// directory of the blob is made, then the scratch file `scratch` is
    /// moved to the blob. Each step is taken only once the one before has
    /// succeeded. Where the content was in the cache already there is no
    /// step: the blob is not written again.
    pub fn blob_steps(&self, scratch: &str) -> (steps: Vec<FinalizeStep>)
        ensures
            !self.fetch ==> steps@.len() == 0,
            self.fetch ==> {
                &&& steps@.len() == 2
                &&& steps@[0] matches FinalizeStep::MakeDir { path, must }
                &&& must
                &&& option_text(path) == option_text(self.blob_dir)
                &&& steps@[1] matches FinalizeStep::MoveFile { from, to }
                &&& from@ == scratch@
                &&& to@ == self.blob_path@
            },
    {
        let mut steps: Vec<FinalizeStep> = Vec::new();
        if self.fetch {
            steps.push(FinalizeStep::MakeDir { path: copy_of(&self.blob_dir), must: true });
            steps.push(
                FinalizeStep::MoveFile { from: scratch.to_owned(), to: self.blob_path.clone() },
            );
        }
        steps
    }

    /// The steps that make the file appear under its commit, in order, once
    /// the blob is in the cache. Each step is taken only once the one
    /// before has succeeded, and a failure ends the download with its
    /// error, but for a directory that need not be made. First the pointer:
    /// its directory, then the pointer itself. Then the commit is recorded:
    /// the directory of the reference file, then its content.
    pub fn pointer_steps(&self) -> (steps: Vec<FinalizeStep>)
        ensures
            steps@.len() == 4,
            steps@[0] matches FinalizeStep::MakeDir { path, must } && !must && option_text(path)
                == option_text(self.pointer_dir),
            steps@[1] matches FinalizeStep::PlacePointer { blob, pointer } && blob@
                == self.blob_path@ && pointer@ == self.pointer_path@,
            steps@[2] matches FinalizeStep::MakeDir { path, must } && must && option_text(path)
                == option_text(self.reference.dir),
            steps@[3] matches FinalizeStep::WriteRef { file, content } && file@
                == self.reference.path@ && content@ == self.reference.content@,
    {
        let mut steps: Vec<FinalizeStep> = Vec::new();
        steps.push(FinalizeStep::MakeDir { path: copy_of(&self.pointer_dir), must: false });
        steps.push(
            FinalizeStep::PlacePointer {
                blob: self.blob_path.clone(),
                pointer: self.pointer_path.clone(),
            },
        );
        steps.push(FinalizeStep::MakeDir { path: copy_of(&self.reference.dir), must: true });
        steps.push(
            FinalizeStep::WriteRef {
                file: self.reference.path.clone(),
                content: self.reference.content.clone(),
            },
        );
        steps
    }
}

fn copy_of(text: &Option<String>) -> (out: Option<String>)
    ensures
        option_text(out) == option_text(*text),
{
    match text {
        Some(t) => Some(t.clone()),
        None => None,
    }
}

/// What the caller reports while a pointer is being put in place.
#[derive(Clone, Copy, Debug, PartialEq, Eq, Structural)]
pub enum LinkEvent {
    /// Nothing was tried yet; `exists` says whether the destination is there.
    Begin { exists: bool },
    /// The link could not be made.
    LinkFailed,
}

/// What the caller is to do next to put a pointer in place.
#[derive(Debug, PartialEq, Eq)]
pub enum LinkAction {
    /// Nothing: the destination is there and is left as it is.
    Done,
    /// Make a symbolic link at `at` that names `target`.
    Link { target: String, at: String },
    /// Move or copy the file `from` to `to`.
    Move { from: String, to: String },
}

/// Puts the blob `src` in place at `dst`, step by step. A destination that
/// exists is left untouched. Otherwise a link to the blob is made, by the
/// relative path from the destination. Where that link cannot be made, or
/// cannot be named because only one of the two paths is absolute, the blob
/// itself is moved to the destination, so that the file is there either way.
pub fn symlink_or_rename(src: &str, dst: &str, event: LinkEvent) -> (action: LinkAction)
    ensures
        match event {
            LinkEvent::Begin { exists: true } => action is Done,
            LinkEvent::Begin { exists: false } => if is_absolute(src@) == is_absolute(dst@) {
                &&& action matches LinkAction::Link { target, at }
                &&& target@ == relative_path(src@, dst@)
                &&& at@ == dst@
            } else {
                &&& action matches LinkAction::Move { from, to }
                &&& from@ == src@
                &&& to@ == dst@
            },
            LinkEvent::LinkFailed => {
                &&& action matches LinkAction::Move { from, to }
                &&& from@ == src@
                &&& to@ == dst@
            },
        },
{
    match event {
        LinkEvent::Begin { exists } => {
            if exists {
                LinkAction::Done
            } else {
                match link_target(src, dst) {
                    Some(target) => LinkAction::Link { target, at: dst.to_owned() },
                    None => LinkAction::Move { from: src.to_owned(), to: dst.to_owned() },
                }
            }
        },
        LinkEvent::LinkFailed => LinkAction::Move { from: src.to_owned(), to: dst.to_owned() },
    }
}

/// Extending a path by something relative keeps it absolute or relative.
pub proof fn lemma_join_keeps_root(base: Seq<char>, seg: Seq<char>)
    requires
        !is_absolute(seg),
    ensures
        is_absolute(path_join(base, seg)) == is_absolute(base),
{
}

/// The folder name of a repository is never absolute.
pub proof fn lemma_folder_name_relative(repo: RepoView)
    ensures
        !is_absolute(repo.folder_name()),
{
    let plain = crate::repo::kind_prefix(repo.repo_type) + "--"@ + repo.repo_id;
    reveal_strlit("models");
    reveal_strlit("datasets");
    reveal_strlit("spaces");
    reveal_strlit("--");
    assert(plain.len() > 0 && plain[0] != '/');
    crate::text::lemma_replace_char_first(plain, '/', "--"@);
}

/// Two files whose content has the same identity go to one blob, whatever
/// they are called; and under one commit two different file names, neither
/// absolute, stand at two different places.
pub proof fn lemma_one_blob_two_pointers(
    root: Seq<char>,
    repo: RepoView,
    first_etag: Seq<char>,
    second_etag: Seq<char>,
    commit_hash: Seq<char>,
    first: Seq<char>,
    second: Seq<char>,
)
    requires
        first_etag == second_etag,
        first != second,
        !is_absolute(first),
        !is_absolute(second),
    ensures
        blob_path_of(root, repo, first_etag) == blob_path_of(root, repo, second_etag),
        pointer_file_of(root, repo, commit_hash, first) != pointer_file_of(
            root,
            repo,
            commit_hash,
            second,
        ),
{
    let dir = pointer_path_of(root, repo, commit_hash);
    let a = path_join(dir, first);
    let b = path_join(dir, second);
    if a == b {
        let lead = if dir.len() == 0 || dir.last() == '/' {
            dir
        } else {
            dir + seq!['/']
        };
        assert(a =~= lead + first);
        assert(b =~= lead + second);
        assert(first =~= a.skip(lead.len() as int));
        assert(second =~= b.skip(lead.len() as int));
    }
}

/// A file that was finalized is found again. Where the commit has no white
/// space at its ends, the place that a lookup names from the recorded
/// content of the reference file is the place where finalizing put the
/// file.
pub proof fn lemma_lookup_finds_finalized(
    root: Seq<char>,
    repo: RepoView,
    commit_hash: Seq<char>,
    filename: Seq<char>,
)
    requires
        trimmed(commit_hash) == commit_hash,
    ensures
        pointer_file_of(root, repo, trimmed(commit_hash), filename) == pointer_file_of(
            root,
            repo,
            commit_hash,
            filename,
        ),
{
}

/// Where the identity, the commit and the file name are not absolute, the
/// blob and its pointer are both absolute or both relative, as the root is:
/// the pointer can be a link by a relative path.
pub proof fn lemma_link_can_be_named(
    root: Seq<char>,
    repo: RepoView,
    etag: Seq<char>,
    commit_hash: Seq<char>,
    filename: Seq<char>,
)
    requires
        !is_absolute(etag),
        !is_absolute(commit_hash),
        !is_absolute(filename),
    ensures
        is_absolute(blob_path_of(root, repo, etag)) == is_absolute(root),
        is_absolute(pointer_file_of(root, repo, commit_hash, filename)) == is_absolute(root),
{
    lemma_folder_name_relative(repo);
    let base = repo_path_of(root, repo);
    lemma_join_keeps_root(root, repo.folder_name());
    reveal_strlit("blobs");
    reveal_strlit("snapshots");
    lemma_join_keeps_root(base, "blobs"@);
    lemma_join_keeps_root(path_join(base, "blobs"@), etag);
    lemma_join_keeps_root(base, "snapshots"@);
    lemma_join_keeps_root(path_join(base, "snapshots"@), commit_hash);
    lemma_join_keeps_root(pointer_path_of(root, repo, commit_hash), filename);
}

} // verus!
