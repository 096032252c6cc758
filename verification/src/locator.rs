//! Addressing a repository by a reference of the form
//! `<scheme>//<endpoint>/[datasets/|spaces/]<owner>/<name>`, and the URLs
//! derived from it.

use vstd::prelude::*;
use crate::text::same_text;
use crate::text::split;
use crate::text::split_at_char;
use crate::text::texts;

verus! {

/// Why a repository reference cannot be read.
#[derive(Clone, Copy, Debug, PartialEq, Eq, Structural)]
pub enum AddressError {
    /// Nothing follows the scheme.
    MissingEndpoint,
    /// Nothing follows the endpoint, or the kind.
    MissingOwner,
    /// Nothing follows the owner.
    MissingRepo,
}

impl AddressError {
    /// The sentence that reports the error.
    pub fn message(&self) -> (text: &'static str)
        ensures
            text@ == (match self {
                AddressError::MissingEndpoint => "Missing endpoint"@,
                AddressError::MissingOwner => "Missing owner"@,
                AddressError::MissingRepo => "Missing repo"@,
            }),
    {
        match self {
            AddressError::MissingEndpoint => "Missing endpoint",
            AddressError::MissingOwner => "Missing owner",
            AddressError::MissingRepo => "Missing repo",
        }
    }
}

/// Where a repository is: the endpoint that serves it, its kind where it is
/// not a model, and its identifier `owner/name`.
#[derive(Debug)]
pub struct HfURL {
    endpoint: String,
    repo_type: Option<String>,
    repo_id: String,
}

/// What an `HfURL` holds, as plain values.
pub struct HfUrlView {
    pub endpoint: Seq<char>,
    pub repo_type: Option<Seq<char>>,
    pub repo_id: Seq<char>,
}

impl HfUrlView {
    /// The URL that lists the repository:
    /// `https://{endpoint}/api/{kind}/{owner}/{name}`, with `models` for the
    /// kind where none is given.
    pub open spec fn api(self) -> Seq<char> {
        "https://"@ + self.endpoint + "/api/"@ + (match self.repo_type {
            Some(kind) => kind,
            None => "models"@,
        }) + "/"@ + self.repo_id
    }

    /// The path of the repository under the endpoint: the identifier, after
    /// the kind and `/` where a kind is given.
    pub open spec fn repo_path(self) -> Seq<char> {
        match self.repo_type {
            Some(kind) => kind + "/"@ + self.repo_id,
            None => self.repo_id,
        }
    }

    /// The URL that resolves the file `fname`:
    /// `https://{endpoint}/{repo path}/resolve/main/{fname}`.
    pub open spec fn path(self, fname: Seq<char>) -> Seq<char> {
        "https://"@ + self.endpoint + "/"@ + self.repo_path() + "/resolve/main/"@ + fname
    }
}

/// Whether `segment` names a kind other than the default.
pub open spec fn is_kind_segment(segment: Seq<char>) -> bool {
    segment == "datasets"@ || segment == "spaces"@
}

/// What a repository reference says. It is cut at every `/`. The first two
/// pieces belong to the scheme; the third is the endpoint. Then may come
/// `datasets` or `spaces`; then come the owner and the name, and what
/// follows them is not read.
pub open spec fn parse_reference(s: Seq<char>) -> Result<HfUrlView, AddressError> {
    let pieces = split(s, '/');
    if pieces.len() <= 2 {
        Err(AddressError::MissingEndpoint)
    } else {
        let has_kind = pieces.len() > 3 && is_kind_segment(pieces[3]);
        let at: int = if has_kind {
            4
        } else {
            3
        };
        if pieces.len() <= at {
            Err(AddressError::MissingOwner)
        } else if pieces.len() <= at + 1 {
            Err(AddressError::MissingRepo)
        } else {
            Ok(
                HfUrlView {
                    endpoint: pieces[2],
                    repo_type: if has_kind {
                        Some(pieces[3])
                    } else {
                        None
                    },
                    repo_id: pieces[at] + "/"@ + pieces[at + 1],
                },
            )
        }
    }
}

impl View for HfURL {
    type V = HfUrlView;

    closed spec fn view(&self) -> HfUrlView {
        HfUrlView {
            endpoint: self.endpoint@,
            repo_type: match self.repo_type {
                Some(kind) => Some(kind@),
                None => None,
            },
            repo_id: self.repo_id@,
        }
    }
}

impl Clone for HfURL {
    fn clone(&self) -> (out: HfURL)
        ensures
            out@ == self@,
    {
        HfURL {
            endpoint: self.endpoint.clone(),
            repo_type: match &self.repo_type {
                Some(kind) => Some(kind.clone()),
                None => None,
            },
            repo_id: self.repo_id.clone(),
        }
    }
}

impl HfURL {
    /// The repository `repo_id` of kind `repo_type` at `endpoint`.
    pub fn new(endpoint: String, repo_type: Option<String>, repo_id: String) -> (url: HfURL)
        ensures
            url@ == (HfUrlView {
                endpoint: endpoint@,
                repo_type: match repo_type {
                    Some(kind) => Some(kind@),
                    None => None,
                },
                repo_id: repo_id@,
            }),
    {
        Self { endpoint, repo_type, repo_id }
    }

    /// The same repository at another endpoint.
    pub fn with_endpoint(self, endpoint: &str) -> (url: HfURL)
        ensures
            url@ == (HfUrlView { endpoint: endpoint@, ..self@ }),
    {
        HfURL { endpoint: endpoint.to_owned(), repo_type: self.repo_type, repo_id: self.repo_id }
    }

    /// The endpoint.
    pub fn endpoint(&self) -> (endpoint: &str)
        ensures
            endpoint@ == self@.endpoint,
    {
        self.endpoint.as_str()
    }

    /// The identifier `owner/name`.
    pub fn repo_id(&self) -> (repo_id: &str)
        ensures
            repo_id@ == self@.repo_id,
    {
        self.repo_id.as_str()
    }

    /// The URL that lists the repository.
    pub fn api(&self) -> (url: String)
        ensures
            url@ == self@.api(),
    {
        let mut url = "https://".to_owned();
        url.append(self.endpoint.as_str());
        url.append("/api/");
        match &self.repo_type {
            Some(kind) => url.append(kind.as_str()),
            None => url.append("models"),
        }
        url.append("/");
        url.append(self.repo_id.as_str());
        url
    }

    /// The URL that resolves the file `fname`.
    pub fn path(&self, fname: &str) -> (url: String)
        ensures
            url@ == self@.path(fname@),
    {
        let mut url = "https://".to_owned();
        url.append(self.endpoint.as_str());
        url.append("/");
        match &self.repo_type {
            Some(kind) => {
                url.append(kind.as_str());
                url.append("/");
            },
            None => {},
        }
        url.append(self.repo_id.as_str());
        url.append("/resolve/main/");
        url.append(fname);
        assert(url@ =~= self@.path(fname@));
        url
    }

    /// Reads a repository reference.
    pub fn parse(s: &str) -> (r: Result<HfURL, AddressError>)
        ensures
            match r {
                Ok(url) => parse_reference(s@) == Ok::<HfUrlView, AddressError>(url@),
                Err(e) => parse_reference(s@) == Err::<HfUrlView, AddressError>(e),
            },
    {
        let pieces = split_at_char(s, '/');
        assert(texts(pieces@).len() == pieces@.len());
        if pieces.len() <= 2 {
            return Err(AddressError::MissingEndpoint);
        }
        let endpoint = pieces[2].clone();
        assert(endpoint@ == texts(pieces@)[2]);
        let mut at: usize = 3;
        let mut repo_type: Option<String> = None;
        if pieces.len() > 3 {
            let segment = &pieces[3];
            assert(segment@ == texts(pieces@)[3]);
            if same_text(segment.as_str(), "datasets") || same_text(segment.as_str(), "spaces") {
                repo_type = Some(segment.clone());
                at = 4;
            }
        }
        if pieces.len() <= at {
            return Err(AddressError::MissingOwner);
        }
        if pieces.len() <= at + 1 {
            return Err(AddressError::MissingRepo);
        }
        let mut repo_id = pieces[at].clone();
        repo_id.append("/");
        repo_id.append(pieces[at + 1].as_str());
        assert(pieces@[at as int]@ == texts(pieces@)[at as int]);
        assert(pieces@[at + 1]@ == texts(pieces@)[at + 1]);
        Ok(HfURL { endpoint, repo_type, repo_id })
    }
}

impl std::str::FromStr for HfURL {
    type Err = AddressError;

    /// Reads a repository reference, as `parse` does.
    fn from_str(s: &str) -> (r: Result<HfURL, AddressError>)
        ensures
            match r {
                Ok(url) => parse_reference(s@) == Ok::<HfUrlView, AddressError>(url@),
                Err(e) => parse_reference(s@) == Err::<HfUrlView, AddressError>(e),
            },
    {
        HfURL::parse(s)
    }
}

} // verus!
