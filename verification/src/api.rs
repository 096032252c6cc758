//! The configuration of a download session and what it derives for one
//! repository: request headers, file URLs, the plan for fetching a file
//! into a scratch file, and the listing of a repository.

use vstd::prelude::*;
use crate::cache::is_temp_name;
use crate::cache::pointer_file_of;
use crate::cache::temp_path_of;
use crate::cache::token_of;
use crate::cache::Cache;
use crate::cache::CacheRepo;
use crate::cache::FinalizePlan;
use crate::chunks::chunk_plan;
use crate::chunks::chunk_ranges;
use crate::chunks::is_partition;
use crate::chunks::ChunkTask;
use crate::error::ApiError;
use crate::error::ApiErrorView;
use crate::repo::Repo;
use crate::repo::RepoType;
use crate::repo::RepoView;
use crate::resolve::Metadata;
use crate::retry::RetryPolicy;
use crate::text::replace_all;
use crate::text::replace_text;
use crate::text::texts;

verus! {

/// One file of a repository, as its listing names it.
#[derive(Debug, PartialEq, Eq)]
pub struct Siblings {
    /// The path of the file within the repository.
    pub rfilename: String,
}

/// The listing of a repository.
#[derive(Debug, PartialEq, Eq)]
pub struct RepoInfo {
    /// Every file of the repository.
    pub siblings: Vec<Siblings>,
    /// The commit that the listing describes.
    pub sha: String,
}

impl RepoInfo {
    /// The paths of the files, in the order of the listing.
    pub open spec fn spec_file_names(self) -> Seq<Seq<char>> {
        Seq::new(self.siblings@.len(), |i: int| self.siblings@[i].rfilename@)
    }

    /// The paths of the files, in the order of the listing.
    pub fn file_names(&self) -> (names: Vec<String>)
        ensures
            texts(names@) == self.spec_file_names(),
    {
        let mut names: Vec<String> = Vec::new();
        let mut i: usize = 0;
        while i < self.siblings.len()
            invariant
                i <= self.siblings.len(),
                texts(names@) == self.spec_file_names().take(i as int),
            decreases self.siblings.len() - i,
        {
            let ghost before = texts(names@);
            names.push(self.siblings[i].rfilename.clone());
            assert(texts(names@) =~= before.push(self.siblings@[i as int].rfilename@));
            assert(texts(names@) =~= self.spec_file_names().take(i + 1));
            i += 1;
        }
        assert(self.spec_file_names().take(self.siblings.len() as int) =~= self.spec_file_names());
        names
    }
}

/// The headers that every request carries.
#[derive(Debug, PartialEq, Eq)]
pub struct RequestHeaders {
    /// Header `User-Agent`.
    pub user_agent: String,
    /// Header `Authorization`, where a token is configured.
    pub authorization: Option<String>,
}

impl Clone for RequestHeaders {
    fn clone(&self) -> (out: RequestHeaders)
        ensures
            out.user_agent@ == self.user_agent@,
            crate::cache::option_text(out.authorization) == crate::cache::option_text(
                self.authorization,
            ),
    {
        RequestHeaders {
            user_agent: self.user_agent.clone(),
            authorization: match &self.authorization {
                Some(value) => Some(value.clone()),
                None => None,
            },
        }
    }
}

/// Whether a header value may hold `c`: a tab, or any character from the
/// space on but for the delete character.
pub open spec fn is_header_char(c: char) -> bool {
    let n = c as u32;
    (n >= 32 && n != 127) || n == 9
}

/// Whether `value` can be sent as a header value.
pub open spec fn is_header_value(value: Seq<char>) -> bool {
    forall|i: int| 0 <= i < value.len() ==> is_header_char(#[trigger] value[i])
}

/// `reqwest::header::HeaderValue::from_str`, asked only whether it accepts
/// the text. By its source it accepts exactly the texts whose bytes are all
/// a tab or at least 32 and not 127. A character below 128 is one such
/// byte, and every byte of a character from 128 on is at least 128, so the
/// same holds character by character.
#[verifier::external_body]
fn header_value_accepted(value: &str) -> (ok: bool)
    ensures
        ok == is_header_value(value@),
{
    reqwest::header::HeaderValue::from_str(value).is_ok()
}

/// `num_cpus::get`: the number of processors that this process can use,
/// which its documentation gives as at least 1.
#[verifier::external_body]
fn available_cpus() -> (n: usize)
    ensures
        n >= 1,
{
    num_cpus::get()
}

/// Whether `value` can be sent as a header value.
pub fn valid_header_value(value: &str) -> (ok: bool)
    ensures
        ok == is_header_value(value@),
{
    header_value_accepted(value)
}

/// The value of the header that carries `token`.
pub open spec fn bearer(token: Seq<char>) -> Seq<char> {
    "Bearer "@ + token
}

/// The endpoint that is asked where none is configured.
pub open spec fn default_endpoint() -> Seq<char> {
    "https://huggingface.co"@
}

/// The pattern of a file's URL where none is configured.
pub open spec fn default_url_template() -> Seq<char> {
    "{endpoint}/{repo_id}/resolve/{revision}/{filename}"@
}

/// How this library names itself to a server.
pub open spec fn user_agent() -> Seq<char> {
    "unkown/None; libhfd/0.1.0; rust/unknown"@
}

/// The size of a chunk where none is configured, in bytes.
pub const DEFAULT_CHUNK_SIZE: u64 = 10_000_000;

/// What a session is configured with, as plain values.
pub struct ApiView {
    pub endpoint: Seq<char>,
    pub url_template: Seq<char>,
    pub cache: Seq<char>,
    pub token: Option<Seq<char>>,
    pub max_files: usize,
    pub chunk_size: u64,
    pub parallel_failures: usize,
    pub max_retries: usize,
    pub progress: bool,
}

/// The URL of a file: the pattern with `{endpoint}`, `{repo_id}`,
/// `{revision}` and `{filename}` replaced, in this order, each in the result
/// of the replacement before.
pub open spec fn file_url(
    template: Seq<char>,
    endpoint: Seq<char>,
    repo: RepoView,
    filename: Seq<char>,
) -> Seq<char> {
    replace_all(
        replace_all(
            replace_all(
                replace_all(template, "{endpoint}"@, endpoint),
                "{repo_id}"@,
                repo.url(),
            ),
            "{revision}"@,
            repo.url_revision(),
        ),
        "{filename}"@,
        filename,
    )
}

/// Collects the options of a session.
#[derive(Debug)]
pub struct ApiBuilder {
    endpoint: String,
    cache: Cache,
    url_template: String,
    token: Option<String>,
    max_files: usize,
    chunk_size: u64,
    parallel_failures: usize,
    max_retries: usize,
    progress: bool,
}

impl View for ApiBuilder {
    type V = ApiView;

    closed spec fn view(&self) -> ApiView {
        ApiView {
            endpoint: self.endpoint@,
            url_template: self.url_template@,
            cache: self.cache@,
            token: crate::cache::option_text(self.token),
            max_files: self.max_files,
            chunk_size: self.chunk_size,
            parallel_failures: self.parallel_failures,
            max_retries: self.max_retries,
            progress: self.progress,
        }
    }
}

impl ApiView {
    /// Whether these are the options that a builder starts with for the
    /// cache at `cache` and the token `token`.
    pub open spec fn is_default_for(self, cache: Seq<char>, token: Option<Seq<char>>) -> bool {
        &&& self.endpoint == default_endpoint()
        &&& self.url_template == default_url_template()
        &&& self.cache == cache
        &&& self.token == token
        &&& self.max_files >= 1
        &&& self.chunk_size == DEFAULT_CHUNK_SIZE
        &&& self.parallel_failures == 0
        &&& self.max_retries == 0
        &&& self.progress
    }
}

impl ApiBuilder {
    #[verifier::type_invariant]
    spec fn inv(self) -> bool {
        self.chunk_size > 0
    }

    /// The builder for the cache that the process is set up for, given the
    /// value of the override variable, the home directory and the content of
    /// the token file, as far as they are there. Without override and home
    /// there is no cache and no builder.
    pub fn new(hf_home: Option<&str>, home: Option<&str>, token_file: Option<&str>) -> (r: Option<
        ApiBuilder,
    >)
        ensures
            match r {
                Some(builder) => {
                    &&& crate::cache::default_root(
                        match hf_home {
                            Some(dir) => Some(dir@),
                            None => None,
                        },
                        match home {
                            Some(dir) => Some(dir@),
                            None => None,
                        },
                    ) == Some(builder@.cache)
                    &&& builder@.is_default_for(
                        builder@.cache,
                        match token_file {
                            Some(content) => token_of(content@),
                            None => None,
                        },
                    )
                },
                None => hf_home is None && home is None,
            },
    {
        match Cache::from_home(hf_home, home) {
            Some(cache) => Some(Self::from_cache(cache, token_file)),
            None => None,
        }
    }

    /// The builder for `cache`, given the content of its token file where
    /// there is one. As many chunks are fetched at once as the machine has
    /// processors; nothing is retried.
    pub fn from_cache(cache: Cache, token_file: Option<&str>) -> (builder: ApiBuilder)
        ensures
            builder@.is_default_for(
                cache@,
                match token_file {
                    Some(content) => token_of(content@),
                    None => None,
                },
            ),
    {
        let token = match token_file {
            Some(content) => Cache::token(content),
            None => None,
        };
        Self {
            endpoint: "https://huggingface.co".to_owned(),
            url_template: "{endpoint}/{repo_id}/resolve/{revision}/{filename}".to_owned(),
            cache,
            token,
            max_files: available_cpus(),
            chunk_size: DEFAULT_CHUNK_SIZE,
            parallel_failures: 0,
            max_retries: 0,
            progress: true,
        }
    }

    /// Whether progress is shown.
    pub fn with_progress(self, progress: bool) -> (builder: ApiBuilder)
        ensures
            builder@ == (ApiView { progress, ..self@ }),
    {
        proof {
            use_type_invariant(&self);
        }
        ApiBuilder {
            endpoint: self.endpoint,
            cache: self.cache,
            url_template: self.url_template,
            token: self.token,
            max_files: self.max_files,
            chunk_size: self.chunk_size,
            parallel_failures: self.parallel_failures,
            max_retries: self.max_retries,
            progress,
        }
    }

    /// Another root for the cache.
    pub fn with_cache_dir(self, cache_dir: String) -> (builder: ApiBuilder)
        ensures
            builder@ == (ApiView { cache: cache_dir@, ..self@ }),
    {
        proof {
            use_type_invariant(&self);
        }
        ApiBuilder {
            endpoint: self.endpoint,
            cache: Cache::new(cache_dir),
            url_template: self.url_template,
            token: self.token,
            max_files: self.max_files,
            chunk_size: self.chunk_size,
            parallel_failures: self.parallel_failures,
            max_retries: self.max_retries,
            progress: self.progress,
        }
    }

    /// Another token, or none.
    pub fn with_token(self, token: Option<String>) -> (builder: ApiBuilder)
        ensures
            builder@ == (ApiView { token: crate::cache::option_text(token), ..self@ }),
    {
        proof {
            use_type_invariant(&self);
        }
        ApiBuilder {
            endpoint: self.endpoint,
            cache: self.cache,
            url_template: self.url_template,
            token,
            max_files: self.max_files,
            chunk_size: self.chunk_size,
            parallel_failures: self.parallel_failures,
            max_retries: self.max_retries,
            progress: self.progress,
        }
    }

    /// Another endpoint to ask.
    pub fn with_endpoint(self, endpoint: &str) -> (builder: ApiBuilder)
        ensures
            builder@ == (ApiView { endpoint: endpoint@, ..self@ }),
    {
        proof {
            use_type_invariant(&self);
        }
        ApiBuilder {
            endpoint: endpoint.to_owned(),
            cache: self.cache,
            url_template: self.url_template,
            token: self.token,
            max_files: self.max_files,
            chunk_size: self.chunk_size,
            parallel_failures: self.parallel_failures,
            max_retries: self.max_retries,
            progress: self.progress,
        }
    }

    /// Another limit on the chunks fetched at once.
    pub fn with_max_files(self, max_files: usize) -> (builder: ApiBuilder)
        ensures
            builder@ == (ApiView { max_files, ..self@ }),
    {
        proof {
            use_type_invariant(&self);
        }
        ApiBuilder {
            endpoint: self.endpoint,
            cache: self.cache,
            url_template: self.url_template,
            token: self.token,
            max_files,
            chunk_size: self.chunk_size,
            parallel_failures: self.parallel_failures,
            max_retries: self.max_retries,
            progress: self.progress,
        }
    }

    /// Another size for the chunks, in bytes.
    pub fn with_chunk_size(self, chunk_size: u64) -> (builder: ApiBuilder)
        requires
            chunk_size > 0,
        ensures
            builder@ == (ApiView { chunk_size, ..self@ }),
    {
        proof {
            use_type_invariant(&self);
        }
        ApiBuilder {
            endpoint: self.endpoint,
            cache: self.cache,
            url_template: self.url_template,
            token: self.token,
            max_files: self.max_files,
            chunk_size,
            parallel_failures: self.parallel_failures,
            max_retries: self.max_retries,
            progress: self.progress,
        }
    }

    /// Another limit on the chunks in a retry at once. With 0 nothing is
    /// retried.
    pub fn with_parallel_failures(self, parallel_failures: usize) -> (builder: ApiBuilder)
        ensures
            builder@ == (ApiView { parallel_failures, ..self@ }),
    {
        proof {
            use_type_invariant(&self);
        }
        ApiBuilder {
            endpoint: self.endpoint,
            cache: self.cache,
            url_template: self.url_template,
            token: self.token,
            max_files: self.max_files,
            chunk_size: self.chunk_size,
            parallel_failures,
            max_retries: self.max_retries,
            progress: self.progress,
        }
    }

    /// Another limit on the retries of one chunk.
    pub fn with_max_retries(self, max_retries: usize) -> (builder: ApiBuilder)
        ensures
            builder@ == (ApiView { max_retries, ..self@ }),
    {
        proof {
            use_type_invariant(&self);
        }
        ApiBuilder {
            endpoint: self.endpoint,
            cache: self.cache,
            url_template: self.url_template,
            token: self.token,
            max_files: self.max_files,
            chunk_size: self.chunk_size,
            parallel_failures: self.parallel_failures,
            max_retries,
            progress: self.progress,
        }
    }

    /// The headers for the configured token: the user agent, and the token
    /// as a bearer where there is one. A token that cannot stand in a header
    /// is an error.
    pub fn build_headers(&self) -> (r: Result<RequestHeaders, ApiError>)
        ensures
            match r {
                Ok(headers) => {
                    &&& headers.user_agent@ == user_agent()
                    &&& match self@.token {
                        Some(token) => is_header_value(bearer(token))
                            && crate::cache::option_text(headers.authorization) == Some(
                            bearer(token),
                        ),
                        None => headers.authorization is None,
                    }
                },
                Err(e) => {
                    &&& e@ == ApiErrorView::InvalidHeaderValue("failed to parse header value"@)
                    &&& self@.token matches Some(token)
                    &&& !is_header_value(bearer(token))
                },
            },
    {
        let user_agent = "unkown/None; libhfd/0.1.0; rust/unknown".to_owned();
        let authorization = match &self.token {
            Some(token) => {
                let value = "Bearer ".to_owned().concat(token.as_str());
                if !header_value_accepted(value.as_str()) {
                    return Err(
                        ApiError::InvalidHeaderValue("failed to parse header value".to_owned()),
                    );
                }
                Some(value)
            },
            None => None,
        };
        Ok(RequestHeaders { user_agent, authorization })
    }

    /// The session with these options. It fails where the headers do.
    pub fn build(self) -> (r: Result<Api, ApiError>)
        ensures
            match r {
                Ok(api) => {
                    &&& api@ == self@
                    &&& api.headers().user_agent@ == user_agent()
                    &&& crate::cache::option_text(api.headers().authorization) == (match self@.token {
                        Some(token) => Some(bearer(token)),
                        None => None,
                    })
                    &&& self@.token matches Some(token) ==> is_header_value(bearer(token))
                },
                Err(e) => {
                    &&& e@ == ApiErrorView::InvalidHeaderValue("failed to parse header value"@)
                    &&& self@.token matches Some(token)
                    &&& !is_header_value(bearer(token))
                },
            },
    {
        proof {
            use_type_invariant(&self);
        }
        let headers = match self.build_headers() {
            Ok(headers) => headers,
            Err(e) => {
                return Err(e);
            },
        };
        Ok(
            Api {
                endpoint: self.endpoint,
                url_template: self.url_template,
                cache: self.cache,
                token: self.token,
                headers,
                max_files: self.max_files,
                chunk_size: self.chunk_size,
                parallel_failures: self.parallel_failures,
                max_retries: self.max_retries,
                progress: self.progress,
            },
        )
    }
}

/// A configured session.
#[derive(Debug)]
pub struct Api {
    endpoint: String,
    url_template: String,
    cache: Cache,
    token: Option<String>,
    headers: RequestHeaders,
    max_files: usize,
    chunk_size: u64,
    parallel_failures: usize,
    max_retries: usize,
    progress: bool,
}

impl View for Api {
    type V = ApiView;

    closed spec fn view(&self) -> ApiView {
        ApiView {
            endpoint: self.endpoint@,
            url_template: self.url_template@,
            cache: self.cache@,
            token: crate::cache::option_text(self.token),
            max_files: self.max_files,
            chunk_size: self.chunk_size,
            parallel_failures: self.parallel_failures,
            max_retries: self.max_retries,
            progress: self.progress,
        }
    }
}

impl Clone for Api {
    fn clone(&self) -> (out: Api)
        ensures
            out@ == self@,
            out.headers().user_agent@ == self.headers().user_agent@,
            crate::cache::option_text(out.headers().authorization) == crate::cache::option_text(
                self.headers().authorization,
            ),
    {
        proof {
            use_type_invariant(self);
        }
        Api {
            endpoint: self.endpoint.clone(),
            url_template: self.url_template.clone(),
            cache: self.cache.clone(),
            token: match &self.token {
                Some(token) => Some(token.clone()),
                None => None,
            },
            headers: self.headers.clone(),
            max_files: self.max_files,
            chunk_size: self.chunk_size,
            parallel_failures: self.parallel_failures,
            max_retries: self.max_retries,
            progress: self.progress,
        }
    }
}

impl Api {
    #[verifier::type_invariant]
    spec fn inv(self) -> bool {
        self.chunk_size > 0
    }

    /// The headers that the session's requests carry.
    pub closed spec fn headers(&self) -> RequestHeaders {
        self.headers
    }

    /// The session for the cache that the process is set up for, with the
    /// options that a builder starts with, given the value of the override
    /// variable, the home directory and the content of the token file, as
    /// far as they are there. Without override and home there is no cache,
    /// and then nothing is returned. A token that cannot stand in a header
    /// is an error.
    pub fn new(hf_home: Option<&str>, home: Option<&str>, token_file: Option<&str>) -> (r: Option<
        Result<Api, ApiError>,
    >)
        ensures
            r is None <==> hf_home is None && home is None,
            r matches Some(Ok(api)) ==> {
                &&& crate::cache::default_root(
                    match hf_home {
                        Some(dir) => Some(dir@),
                        None => None,
                    },
                    match home {
                        Some(dir) => Some(dir@),
                        None => None,
                    },
                ) == Some(api@.cache)
                &&& api@.is_default_for(
                    api@.cache,
                    match token_file {
                        Some(content) => token_of(content@),
                        None => None,
                    },
                )
                &&& api.headers().user_agent@ == user_agent()
                &&& crate::cache::option_text(api.headers().authorization) == (match api@.token {
                    Some(token) => Some(bearer(token)),
                    None => None,
                })
                &&& api@.token matches Some(token) ==> is_header_value(bearer(token))
            },
            r matches Some(Err(e)) ==> {
                &&& e@ == ApiErrorView::InvalidHeaderValue("failed to parse header value"@)
                &&& token_file matches Some(content)
                &&& token_of(content@) matches Some(token)
                &&& !is_header_value(bearer(token))
            },
    {
        match ApiBuilder::new(hf_home, home, token_file) {
            Some(builder) => Some(builder.build()),
            None => None,
        }
    }

    /// The headers that the session's requests carry.
    pub fn request_headers(&self) -> (headers: &RequestHeaders)
        ensures
            *headers == self.headers(),
    {
        &self.headers
    }

    /// The limits on retrying.
    pub fn retry_policy(&self) -> (policy: RetryPolicy)
        ensures
            policy.parallel_failures == self@.parallel_failures,
            policy.max_retries == self@.max_retries,
    {
        RetryPolicy { parallel_failures: self.parallel_failures, max_retries: self.max_retries }
    }

    /// How many chunks are fetched at once.
    pub fn max_files(&self) -> (n: usize)
        ensures
            n == self@.max_files,
    {
        self.max_files
    }

    /// Whether progress is shown.
    pub fn progress(&self) -> (p: bool)
        ensures
            p == self@.progress,
    {
        self.progress
    }

    /// The session seen from `repo`.
    pub fn repo(&self, repo: Repo) -> (handle: ApiRepo)
        ensures
            handle.api() == self@,
            handle.repo() == repo@,
    {
        ApiRepo::new(self.clone(), repo)
    }

    /// The session seen from the model `model_id` at revision `main`.
    pub fn model(&self, model_id: String) -> (handle: ApiRepo)
        ensures
            handle.api() == self@,
            handle.repo() == (RepoView {
                repo_id: model_id@,
                repo_type: RepoType::Model,
                revision: "main"@,
            }),
    {
        self.repo(Repo::new(model_id, RepoType::Model))
    }

    /// The session seen from the dataset `model_id` at revision `main`.
    pub fn dataset(&self, model_id: String) -> (handle: ApiRepo)
        ensures
            handle.api() == self@,
            handle.repo() == (RepoView {
                repo_id: model_id@,
                repo_type: RepoType::Dataset,
                revision: "main"@,
            }),
    {
        self.repo(Repo::new(model_id, RepoType::Dataset))
    }

    /// The session seen from the space `model_id` at revision `main`.
    pub fn space(&self, model_id: String) -> (handle: ApiRepo)
        ensures
            handle.api() == self@,
            handle.repo() == (RepoView {
                repo_id: model_id@,
                repo_type: RepoType::Space,
                revision: "main"@,
            }),
    {
        self.repo(Repo::new(model_id, RepoType::Space))
    }
}

/// What fetching a file into a scratch file takes: the scratch file, made
/// with exactly `length` bytes, and one task for each range, of which no
/// more than `max_files` run at once and which are retried by `policy`.
#[derive(Debug)]
pub struct TempfilePlan {
    /// The scratch file.
    pub filename: String,
    /// The length that the scratch file is made with.
    pub length: u64,
    /// The ranges to fetch, each written at its own offset.
    pub tasks: Vec<ChunkTask>,
    /// How many chunks are fetched at once.
    pub max_files: usize,
    /// The limits on retrying.
    pub policy: RetryPolicy,
}

/// A session seen from one repository.
#[derive(Debug)]
pub struct ApiRepo {
    api: Api,
    repo: Repo,
}

impl ApiRepo {
    /// The options of the session.
    pub closed spec fn api(&self) -> ApiView {
        self.api@
    }

    /// The repository.
    pub closed spec fn repo(&self) -> RepoView {
        self.repo@
    }

    /// The session `api` seen from `repo`.
    pub fn new(api: Api, repo: Repo) -> (handle: ApiRepo)
        ensures
            handle.api() == api@,
            handle.repo() == repo@,
    {
        Self { api, repo }
    }

    /// The URL of the remote file `filename`.
    pub fn url(&self, filename: &str) -> (url: String)
        ensures
            url@ == file_url(self.api().url_template, self.api().endpoint, self.repo(), filename@),
    {
        let repo_url = self.repo.url();
        let revision = self.repo.url_revision();
        let a = replace_text(
            self.api.url_template.as_str(),
            "{endpoint}",
            self.api.endpoint.as_str(),
        );
        let b = replace_text(a.as_str(), "{repo_id}", repo_url.as_str());
        let c = replace_text(b.as_str(), "{revision}", revision.as_str());
        replace_text(c.as_str(), "{filename}", filename)
    }

    /// The URL that describes the repository: the endpoint, `/api/`, and the
    /// repository's path under the API.
    pub fn info_url(&self) -> (url: String)
        ensures
            url@ == self.api().endpoint + "/api/"@ + self.repo().api_url(),
    {
        let mut url = self.api.endpoint.clone();
        url.append("/api/");
        let path = self.repo.api_url();
        url.append(path.as_str());
        url
    }

    /// The cache seen from the repository.
    pub fn cache(&self) -> (view: CacheRepo)
        ensures
            view.root() == self.api().cache,
            view.repo() == self.repo(),
    {
        self.api.cache.repo(self.repo.clone())
    }

    /// Where `filename` stands in the cache if it is cached, given the
    /// content of the reference file where there is one: where that place
    /// exists the file need not be fetched.
    pub fn get(&self, reference: Option<&str>, filename: &str) -> (place: Option<String>)
        ensures
            match reference {
                Some(commit_hash) => place matches Some(p) && p@ == pointer_file_of(
                    self.api().cache,
                    self.repo(),
                    commit_hash@,
                    filename@,
                ),
                None => place is None,
            },
    {
        self.cache().get(reference, filename)
    }

    /// Where `filename` stands in the cache, if it is cached: the place that
    /// `get` names, given whether that place exists. A file that is cached
    /// is not asked of the network.
    pub fn lookup(&self, reference: Option<&str>, filename: &str, exists: bool) -> (place: Option<
        String,
    >)
        ensures
            match reference {
                Some(commit_hash) => if exists {
                    place matches Some(p) && p@ == pointer_file_of(
                        self.api().cache,
                        self.repo(),
                        commit_hash@,
                        filename@,
                    )
                } else {
                    place is None
                },
                None => place is None,
            },
    {
        self.cache().lookup(reference, filename, exists)
    }

    /// The plan for fetching a file of `length` bytes into a fresh scratch
    /// file: the ranges cut `[0, length)` into chunks of the configured
    /// size.
    pub fn download_tempfile(&self, length: u64) -> (plan: TempfilePlan)
        ensures
            exists|name: Seq<char>|
                is_temp_name(name) && plan.filename@ == #[trigger] temp_path_of(
                    self.api().cache,
                    name,
                ),
            plan.length == length,
            self.api().chunk_size > 0,
            plan.tasks@ == chunk_plan(length as nat, self.api().chunk_size as nat),
            is_partition(plan.tasks@, length as nat, self.api().chunk_size as nat),
            plan.max_files == self.api().max_files,
            plan.policy.parallel_failures == self.api().parallel_failures,
            plan.policy.max_retries == self.api().max_retries,
    {
        proof {
            use_type_invariant(&self.api);
        }
        let filename = self.api.cache.temp_path();
        proof {
            let name = choose|name: Seq<char>|
                is_temp_name(name) && filename@ == #[trigger] temp_path_of(self.api.cache@, name);
            assert(filename@ == temp_path_of(self.api().cache, name));
        }
        let tasks = chunk_ranges(length, self.api.chunk_size);
        TempfilePlan {
            filename,
            length,
            tasks,
            max_files: self.api.max_files,
            policy: self.api.retry_policy(),
        }
    }

    /// What the download of `filename` with metadata `meta` does, given
    /// whether the blob for the content is in the cache already; the file is
    /// then found at the plan's `pointer_path`. Content that is there is not
    /// fetched again.
    pub fn download(&self, meta: &Metadata, filename: &str, blob_exists: bool) -> (plan:
        FinalizePlan)
        ensures
            plan.fetch == !blob_exists,
            plan.blob_path@ == crate::cache::blob_path_of(
                self.api().cache,
                self.repo(),
                meta.etag@,
            ),
            plan.pointer_path@ == pointer_file_of(
                self.api().cache,
                self.repo(),
                meta.commit_hash@,
                filename@,
            ),
            crate::cache::option_text(plan.blob_dir) == crate::paths::path_parent(plan.blob_path@),
            crate::cache::option_text(plan.pointer_dir) == crate::paths::path_parent(
                plan.pointer_path@,
            ),
            crate::cache::option_text(plan.link_target) == (if crate::paths::is_absolute(
                plan.blob_path@,
            ) == crate::paths::is_absolute(plan.pointer_path@) {
                Some(crate::paths::relative_path(plan.blob_path@, plan.pointer_path@))
            } else {
                None
            }),
            plan.reference.path@ == crate::cache::ref_path_of(self.api().cache, self.repo()),
            crate::cache::option_text(plan.reference.dir) == crate::paths::path_parent(
                plan.reference.path@,
            ),
            plan.reference.content@ == crate::text::trimmed(meta.commit_hash@),
    {
        self.cache().finalize_plan(meta, filename, blob_exists)
    }
}

} // verus!
