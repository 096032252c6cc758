//! Downloading every file of a repository into a directory: the client's
//! options, and the plan of what to fetch, to where, in which batches.

use vstd::prelude::*;
use crate::api::bearer;
use crate::api::is_header_value;
use crate::api::RequestHeaders;
use crate::cache::option_text;
use crate::chunks::chunk_count;
use crate::chunks::chunk_plan;
use crate::chunks::chunk_ranges;
use crate::chunks::is_partition;
use crate::chunks::ChunkTask;
use crate::error::ApiError;
use crate::locator::AddressError;
use crate::locator::HfURL;
use crate::locator::HfUrlView;
use crate::locator::parse_reference;
use crate::paths::join_path;
use crate::paths::parent_path;
use crate::paths::path_join;
use crate::paths::path_parent;
use crate::resolve::content_range_total;
use crate::resolve::after_size_probe;
use crate::resolve::ProbeResponse;
use crate::text::contains;
use crate::text::contains_text;
use crate::text::texts;

verus! {

/// The size of a chunk for an endpoint whose name holds `face`, in bytes.
pub const CHUNK_SIZE: u64 = 100_000_000;

/// The size of a chunk for any other endpoint, in bytes.
pub const CHUNK_SIZE_XL: u64 = 10_000_000_000;

/// How many files are fetched at once.
pub const BATCH_SIZE: usize = 5;

/// How often one chunk of a file is tried.
pub const MAX_ATTEMPTS: usize = 100;

/// The wait after a failed attempt, in seconds.
pub const RETRY_WAIT_SECS: u64 = 10;

/// What follows the end of an attempt to fetch one chunk.
#[derive(Clone, Copy, Debug, PartialEq, Eq, Structural)]
pub enum ChunkRetry {
    /// The chunk is written.
    Done,
    /// Wait `wait_secs` seconds, then fetch the same range again; `failed`
    /// attempts have failed so far.
    Again { failed: usize, wait_secs: u64 },
    /// Wait `wait_secs` seconds, then give the chunk up with the failure of
    /// the last attempt.
    GiveUp { wait_secs: u64 },
}

/// The rule for the end of an attempt, after `failed` attempts have failed
/// before it: a success completes the chunk; a failure is followed by a
/// wait, and by another attempt unless it was the hundredth.
pub open spec fn chunk_retry_rule(failed: nat, ok: bool) -> ChunkRetry {
    if ok {
        ChunkRetry::Done
    } else if failed + 1 < MAX_ATTEMPTS {
        ChunkRetry::Again { failed: (failed + 1) as usize, wait_secs: RETRY_WAIT_SECS }
    } else {
        ChunkRetry::GiveUp { wait_secs: RETRY_WAIT_SECS }
    }
}

/// Says what follows the end of an attempt to fetch one chunk, after
/// `failed` attempts have failed before it.
pub fn download_chunk_with_retry(failed: usize, ok: bool) -> (next: ChunkRetry)
    ensures
        next == chunk_retry_rule(failed as nat, ok),
{
    if ok {
        ChunkRetry::Done
    } else if failed < MAX_ATTEMPTS - 1 {
        ChunkRetry::Again { failed: failed + 1, wait_secs: RETRY_WAIT_SECS }
    } else {
        ChunkRetry::GiveUp { wait_secs: RETRY_WAIT_SECS }
    }
}

/// The options of a download of a whole repository.
#[derive(Debug)]
pub struct HfClient {
    headers: RequestHeaders,
    hf_url: HfURL,
    root: String,
}

/// What an `HfClient` holds, as plain values.
pub struct HfClientView {
    pub user_agent: Seq<char>,
    pub authorization: Option<Seq<char>>,
    pub hf_url: HfUrlView,
    pub root: Seq<char>,
}

/// One file to fetch.
#[derive(Debug, PartialEq, Eq)]
pub struct FileJob {
    /// The URL of the file.
    pub url: String,
    /// Where the file goes.
    pub path: String,
    /// The directory to make first; none where the path has no parent.
    pub dir: Option<String>,
    /// The size of the chunks that the file is fetched in.
    pub chunk_size: u64,
}

/// The directory that the files of `repo_id` go to: the repository's
/// identifier under `base`, or under `.` where no base is given.
pub open spec fn download_root(base: Option<Seq<char>>, repo_id: Seq<char>) -> Seq<char> {
    path_join(
        match base {
            Some(dir) => dir,
            None => "."@,
        },
        repo_id,
    )
}

impl HfClientView {
    /// The size of the chunks that files are fetched in.
    pub open spec fn chunk_size(self) -> u64 {
        if contains_text(self.hf_url.endpoint, "face"@) {
            CHUNK_SIZE
        } else {
            CHUNK_SIZE_XL
        }
    }

    /// Whether `job` is what fetching `file` takes.
    pub open spec fn is_job_for(self, job: FileJob, file: Seq<char>) -> bool {
        &&& job.url@ == self.hf_url.path(file)
        &&& job.path@ == path_join(self.root, file)
        &&& option_text(job.dir) == path_parent(job.path@)
        &&& job.chunk_size == self.chunk_size()
    }
}

/// The batch that the file at place `i` of the listing is fetched in.
pub open spec fn batch_of(i: int) -> int {
    i / (BATCH_SIZE as int)
}

/// The place within its batch of the file at place `i` of the listing.
pub open spec fn slot_of(i: int) -> int {
    i % (BATCH_SIZE as int)
}

/// The place in the listing of the file at place `j` of batch `b`.
pub open spec fn file_of(b: int, j: int) -> int {
    b * BATCH_SIZE + j
}

/// How many of `total` files are fetched under `limit`.
pub open spec fn limited(total: nat, limit: Option<usize>) -> nat {
    match limit {
        Some(n) => if n < total {
            n as nat
        } else {
            total
        },
        None => total,
    }
}

impl View for HfClient {
    type V = HfClientView;

    closed spec fn view(&self) -> HfClientView {
        HfClientView {
            user_agent: self.headers.user_agent@,
            authorization: option_text(self.headers.authorization),
            hf_url: self.hf_url@,
            root: self.root@,
        }
    }
}

impl HfClient {
    /// The client for `hf_url` that sends `headers`, given the value of the
    /// variable that names the base directory, where it is set.
    pub fn new(headers: RequestHeaders, hf_url: HfURL, hf_home: Option<&str>) -> (client:
        HfClient)
        ensures
            client@ == (HfClientView {
                user_agent: headers.user_agent@,
                authorization: option_text(headers.authorization),
                hf_url: hf_url@,
                root: download_root(
                    match hf_home {
                        Some(dir) => Some(dir@),
                        None => None,
                    },
                    hf_url@.repo_id,
                ),
            }),
    {
        let root = match hf_home {
            Some(dir) => join_path(dir, hf_url.repo_id()),
            None => join_path(".", hf_url.repo_id()),
        };
        Self { headers, hf_url, root }
    }

    /// The client for the repository that `url` refers to.
    pub fn build(url: &str, hf_home: Option<&str>) -> (r: Result<HfClient, AddressError>)
        ensures
            match r {
                Ok(client) => {
                    &&& parse_reference(url@) == Ok::<HfUrlView, AddressError>(client@.hf_url)
                    &&& client@.user_agent == "hyper-client-http2"@
                    &&& client@.authorization is None
                    &&& client@.root == download_root(
                        match hf_home {
                            Some(dir) => Some(dir@),
                            None => None,
                        },
                        client@.hf_url.repo_id,
                    )
                },
                Err(e) => parse_reference(url@) == Err::<HfUrlView, AddressError>(e),
            },
    {
        let hf_url = match HfURL::parse(url) {
            Ok(hf_url) => hf_url,
            Err(e) => {
                return Err(e);
            },
        };
        let headers = RequestHeaders {
            user_agent: "hyper-client-http2".to_owned(),
            authorization: None,
        };
        Ok(Self::new(headers, hf_url, hf_home))
    }

    /// Sends `token` as a bearer, where one is given.
    pub fn apply_token(self, token: Option<&str>) -> (client: HfClient)
        requires
            token matches Some(t) ==> is_header_value(bearer(t@)),
        ensures
            client@ == (HfClientView {
                authorization: match token {
                    Some(t) => Some(bearer(t@)),
                    None => self@.authorization,
                },
                ..self@
            }),
    {
        match token {
            Some(t) => HfClient {
                headers: RequestHeaders {
                    user_agent: self.headers.user_agent,
                    authorization: Some("Bearer ".to_owned().concat(t)),
                },
                hf_url: self.hf_url,
                root: self.root,
            },
            None => self,
        }
    }

    /// Puts the files under `root`, where one is given.
    pub fn apply_root(self, root: Option<&str>) -> (client: HfClient)
        ensures
            client@ == (HfClientView {
                root: match root {
                    Some(dir) => download_root(Some(dir@), self@.hf_url.repo_id),
                    None => self@.root,
                },
                ..self@
            }),
    {
        match root {
            Some(dir) => {
                let root = join_path(dir, self.hf_url.repo_id());
                HfClient { headers: self.headers, hf_url: self.hf_url, root }
            },
            None => self,
        }
    }

    /// Asks `endpoint` in place of the one in the reference, where one is
    /// given.
    pub fn apply_endpoint(self, endpoint: Option<&str>) -> (client: HfClient)
        ensures
            client@ == (HfClientView {
                hf_url: match endpoint {
                    Some(ep) => HfUrlView { endpoint: ep@, ..self@.hf_url },
                    None => self@.hf_url,
                },
                ..self@
            }),
    {
        match endpoint {
            Some(ep) => HfClient {
                headers: self.headers,
                hf_url: self.hf_url.with_endpoint(ep),
                root: self.root,
            },
            None => self,
        }
    }

    /// The headers that the client's requests carry.
    pub fn headers(&self) -> (headers: &RequestHeaders)
        ensures
            headers.user_agent@ == self@.user_agent,
            option_text(headers.authorization) == self@.authorization,
    {
        &self.headers
    }

    /// The URL that lists the files of the repository.
    pub fn list_files(&self) -> (url: String)
        ensures
            url@ == self@.hf_url.api(),
    {
        self.hf_url.api()
    }

    /// What fetching `file` takes.
    pub fn job(&self, file: &str) -> (job: FileJob)
        ensures
            self@.is_job_for(job, file@),
    {
        let url = self.hf_url.path(file);
        let path = join_path(self.root.as_str(), file);
        let dir = parent_path(path.as_str());
        let chunk_size = if contains(self.hf_url.endpoint(), "face") {
            CHUNK_SIZE
        } else {
            CHUNK_SIZE_XL
        };
        FileJob { url, path, dir, chunk_size }
    }

    /// The plan for fetching the files listed in `files`: the first `limit`
    /// of them where a limit is given, else all, in the order of the
    /// listing, five to a batch but for the last batch. The files of one
    /// batch are fetched before the next batch begins.
    pub fn download_all(&self, files: &Vec<String>, limit: Option<usize>) -> (batches: Vec<
        Vec<FileJob>,
    >)
        ensures
            batches@.len() == chunk_count(limited(files@.len(), limit), BATCH_SIZE as nat),
            forall|b: int|
                0 <= b < batches@.len() ==> 0 < (#[trigger] batches@[b])@.len() <= BATCH_SIZE,
            forall|i: int|
                0 <= i < limited(files@.len(), limit) ==> 0 <= #[trigger] batch_of(i)
                    < batches@.len(),
            forall|i: int|
                0 <= i < limited(files@.len(), limit) ==> 0 <= #[trigger] slot_of(i)
                    < batches@[batch_of(i)]@.len(),
            forall|i: int|
                0 <= i < limited(files@.len(), limit) ==> self@.is_job_for(
                    batches@[batch_of(i)]@[slot_of(i)],
                    #[trigger] files@[i]@,
                ),
            forall|b: int, j: int|
                0 <= b < batches@.len() && 0 <= j < batches@[b]@.len() ==> 0 <= #[trigger] file_of(
                    b,
                    j,
                ) < limited(files@.len(), limit),
            forall|b: int, j: int|
                0 <= b < batches@.len() && 0 <= j < batches@[b]@.len() ==> self@.is_job_for(
                    #[trigger] batches@[b]@[j],
                    files@[file_of(b, j)]@,
                ),
    {
        let count: usize = match limit {
            Some(n) => if n < files.len() {
                n
            } else {
                files.len()
            },
            None => files.len(),
        };
        let mut batches: Vec<Vec<FileJob>> = Vec::new();
        let mut current: Vec<FileJob> = Vec::new();
        let mut i: usize = 0;
        while i < count
            invariant
                i <= count <= files.len(),
                count == limited(files@.len(), limit),
                batches@.len() == i / BATCH_SIZE,
                current@.len() == i % BATCH_SIZE,
                forall|b: int| 0 <= b < batches@.len() ==> (#[trigger] batches@[b])@.len() == BATCH_SIZE,
                forall|b: int, j: int|
                    0 <= b < batches@.len() && 0 <= j < BATCH_SIZE ==> self@.is_job_for(
                        #[trigger] batches@[b]@[j],
                        files@[b * BATCH_SIZE + j]@,
                    ),
                forall|j: int|
                    0 <= j < current@.len() ==> self@.is_job_for(
                        #[trigger] current@[j],
                        files@[(i / BATCH_SIZE) * BATCH_SIZE + j]@,
                    ),
            decreases count - i,
        {
            let job = self.job(files[i].as_str());
            current.push(job);
            i += 1;
            if current.len() == BATCH_SIZE {
                batches.push(current);
                current = Vec::new();
            }
        }
        if current.len() > 0 {
            batches.push(current);
        }
        proof {
            crate::chunks::lemma_chunk_count_is_ceiling(count as nat, BATCH_SIZE as nat);
        }
        batches
    }

    /// The plan for fetching one file whose probe was answered by `resp`:
    /// its length, read from the header `content-range`, and the ranges that
    /// cut it into chunks of `chunk_size` bytes.
    pub fn download(resp: &ProbeResponse, chunk_size: u64) -> (r: Result<
        (u64, Vec<ChunkTask>),
        ApiError,
    >)
        requires
            chunk_size > 0,
        ensures
            match r {
                Ok((length, tasks)) => {
                    &&& resp.size_failure() is None
                    &&& content_range_total(resp.content_range->Text_0@) == Some(length as nat)
                    &&& tasks@ == chunk_plan(length as nat, chunk_size as nat)
                    &&& is_partition(tasks@, length as nat, chunk_size as nat)
                },
                Err(e) => resp.size_failure() == Some(e@),
            },
    {
        match after_size_probe(String::new(), String::new(), resp) {
            Ok(meta) => Ok((meta.size, chunk_ranges(meta.size, chunk_size))),
            Err(e) => Err(e),
        }
    }
}

} // verus!
