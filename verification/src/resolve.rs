//! Resolving what a remote file is: its content identity, the commit it
//! belongs to and its length, read from the headers of a one-byte probe.
//! The transport stays outside: it hands each response over as plain values
//! and is told what to ask next.

use vstd::prelude::*;
use crate::error::ApiError;
use crate::error::ApiErrorView;
use crate::text::decimal_digits;
use crate::text::decimal_string;
use crate::text::parse_u64;
use crate::text::parse_unsigned;
use crate::text::replace_char;
use crate::text::replace_char_in;
use crate::text::split;
use crate::text::split_at_char;
use crate::text::texts;

verus! {

/// What a response says under one header name.
#[derive(Debug, PartialEq, Eq)]
pub enum HeaderField {
    /// The response has no such header.
    Missing,
    /// The header is there, but its value is not visible text.
    NotText,
    /// The value of the header.
    Text(String),
}

/// The part of a probe's response that resolution reads.
#[derive(Debug, PartialEq, Eq)]
pub struct ProbeResponse {
    /// The status code.
    pub status: u16,
    /// Header `x-linked-etag`.
    pub linked_etag: HeaderField,
    /// Header `etag`.
    pub etag: HeaderField,
    /// Header `x-repo-commit`.
    pub commit: HeaderField,
    /// Header `location`.
    pub location: HeaderField,
    /// Header `content-range`.
    pub content_range: HeaderField,
}

/// What is known of a remote file once it is resolved.
#[derive(Debug, PartialEq, Eq)]
pub struct Metadata {
    /// The commit that the revision stands for.
    pub commit_hash: String,
    /// The content identity, without quotes.
    pub etag: String,
    /// The length of the file in bytes.
    pub size: u64,
}

/// What the first probe leads to.
#[derive(Debug, PartialEq, Eq)]
pub enum ProbeOutcome {
    /// The response held everything.
    Resolved(Metadata),
    /// The identity is known; the length has to be asked of `location`.
    NeedSize { etag: String, commit_hash: String, location: String },
}

/// Whether `status` reports a failure of the client or of the server.
pub open spec fn is_error_status(status: u16) -> bool {
    400 <= status <= 599
}

/// Whether `status` is a redirection.
pub open spec fn is_redirection(status: u16) -> bool {
    300 <= status <= 399
}

/// Whether `status` reports success.
pub open spec fn is_success(status: u16) -> bool {
    200 <= status <= 299
}

/// The reason given for a response with a failing status.
pub open spec fn status_reason(status: u16) -> Seq<char> {
    "HTTP status "@ + decimal_digits(status as nat)
}

/// The total that a `Content-Range` value of the form `bytes start-end/total`
/// ends in: what follows its last `/`, read as a number.
pub open spec fn content_range_total(value: Seq<char>) -> Option<nat> {
    parse_unsigned(split(value, '/').last(), u64::MAX as nat)
}

impl ProbeResponse {
    /// The header that the content identity is taken from: the linked one
    /// where the response has it, else the plain one.
    pub open spec fn identity_header(self) -> HeaderField {
        if self.linked_etag is Missing {
            self.etag
        } else {
            self.linked_etag
        }
    }

    /// Why no identity can be read from the response, if none can.
    pub open spec fn identity_failure(self) -> Option<ApiErrorView> {
        if is_error_status(self.status) {
            Some(ApiErrorView::RequestError(status_reason(self.status)))
        } else if self.identity_header() is Missing {
            Some(ApiErrorView::MissingHeader("etag"@))
        } else if self.identity_header() is NotText {
            Some(ApiErrorView::ToStr)
        } else if self.commit is Missing {
            Some(ApiErrorView::MissingHeader("x-repo-commit"@))
        } else if self.commit is NotText {
            Some(ApiErrorView::ToStr)
        } else {
            None
        }
    }

    /// Why no length can be read from the response, if none can.
    pub open spec fn size_failure(self) -> Option<ApiErrorView> {
        match self.content_range {
            HeaderField::Missing => Some(ApiErrorView::MissingHeader("content-range"@)),
            HeaderField::NotText => Some(ApiErrorView::ToStr),
            HeaderField::Text(value) => if content_range_total(value@) is None {
                Some(ApiErrorView::ParseIntError)
            } else {
                None
            },
        }
    }

    /// Why a redirected response does not say where to go, if it does not.
    pub open spec fn location_failure(self) -> Option<ApiErrorView> {
        match self.location {
            HeaderField::Missing => Some(ApiErrorView::MissingHeader("location"@)),
            HeaderField::NotText => Some(ApiErrorView::ToStr),
            HeaderField::Text(_) => None,
        }
    }

    /// Why the first probe fails, if it does: the identity comes first, then
    /// the target of a redirection or the length.
    pub open spec fn probe_failure(self) -> Option<ApiErrorView> {
        if self.identity_failure() is Some {
            self.identity_failure()
        } else if is_redirection(self.status) {
            self.location_failure()
        } else {
            self.size_failure()
        }
    }

    /// The content identity that the response gives: the value of the
    /// identity header without its quote characters.
    pub open spec fn spec_etag(self) -> Seq<char>
        recommends
            self.identity_header() is Text,
    {
        replace_char(self.identity_header()->Text_0@, '"', Seq::empty())
    }
}

/// Reads the total length out of a `Content-Range` value.
pub fn parse_content_range(value: &str) -> (r: Option<u64>)
    ensures
        match r {
            Some(n) => content_range_total(value@) == Some(n as nat),
            None => content_range_total(value@) is None,
        },
{
    let parts = split_at_char(value, '/');
    proof {
        crate::text::lemma_split_pieces(value@, '/');
        assert(texts(parts@).len() == parts@.len());
    }
    let last = &parts[parts.len() - 1];
    assert(last@ == texts(parts@).last());
    parse_u64(last.as_str())
}

/// Whether a response with this status counts as a fetched chunk: only a
/// status of success does.
pub fn chunk_status_ok(status: u16) -> (ok: bool)
    ensures
        ok == is_success(status),
{
    200 <= status && status <= 299
}

fn read_identity(resp: &ProbeResponse) -> (r: Result<(String, String), ApiError>)
    ensures
        match r {
            Ok(id) => {
                &&& resp.identity_failure() is None
                &&& id.0@ == resp.spec_etag()
                &&& id.1@ == resp.commit->Text_0@
            },
            Err(e) => resp.identity_failure() == Some(e@),
        },
{
    if 400 <= resp.status && resp.status <= 599 {
        let code = decimal_string(resp.status as u64);
        let why = "HTTP status ".to_owned().concat(code.as_str());
        return Err(ApiError::RequestError(why));
    }
    let chosen = match &resp.linked_etag {
        HeaderField::Missing => &resp.etag,
        _ => &resp.linked_etag,
    };
    let etag = match chosen {
        HeaderField::Missing => {
            return Err(ApiError::MissingHeader("etag".to_owned()));
        },
        HeaderField::NotText => {
            return Err(ApiError::ToStr);
        },
        HeaderField::Text(value) => replace_char_in(value.as_str(), '"', ""),
    };
    proof {
        reveal_strlit("");
        assert(""@ =~= Seq::<char>::empty());
    }
    let commit_hash = match &resp.commit {
        HeaderField::Missing => {
            return Err(ApiError::MissingHeader("x-repo-commit".to_owned()));
        },
        HeaderField::NotText => {
            return Err(ApiError::ToStr);
        },
        HeaderField::Text(value) => value.clone(),
    };
    Ok((etag, commit_hash))
}

fn read_size(resp: &ProbeResponse) -> (r: Result<u64, ApiError>)
    ensures
        match r {
            Ok(n) => {
                &&& resp.size_failure() is None
                &&& content_range_total(resp.content_range->Text_0@) == Some(n as nat)
            },
            Err(e) => resp.size_failure() == Some(e@),
        },
{
    match &resp.content_range {
        HeaderField::Missing => Err(ApiError::MissingHeader("content-range".to_owned())),
        HeaderField::NotText => Err(ApiError::ToStr),
        HeaderField::Text(value) => match parse_content_range(value.as_str()) {
            Some(n) => Ok(n),
            None => Err(ApiError::ParseIntError),
        },
    }
}

/// Decides what the response to the first probe means. A failing status is
/// a request error. The content identity comes from the linked ETag where
/// there is one, else from the ETag, with the quotes taken out; the commit
/// from its own header. Where the response is a redirection that was not
/// followed, the identity stands and the length is to be asked of the place
/// it points to; otherwise the length is read from this response.
pub fn after_probe(resp: &ProbeResponse) -> (r: Result<ProbeOutcome, ApiError>)
    ensures
        match r {
            Ok(ProbeOutcome::Resolved(meta)) => {
                &&& resp.probe_failure() is None
                &&& !is_redirection(resp.status)
                &&& meta.etag@ == resp.spec_etag()
                &&& meta.commit_hash@ == resp.commit->Text_0@
                &&& content_range_total(resp.content_range->Text_0@) == Some(meta.size as nat)
            },
            Ok(ProbeOutcome::NeedSize { etag, commit_hash, location }) => {
                &&& resp.probe_failure() is None
                &&& is_redirection(resp.status)
                &&& etag@ == resp.spec_etag()
                &&& commit_hash@ == resp.commit->Text_0@
                &&& location@ == resp.location->Text_0@
            },
            Err(e) => resp.probe_failure() == Some(e@),
        },
{
    let (etag, commit_hash) = match read_identity(resp) {
        Ok(id) => id,
        Err(e) => {
            return Err(e);
        },
    };
    if 300 <= resp.status && resp.status <= 399 {
        match &resp.location {
            HeaderField::Missing => Err(ApiError::MissingHeader("location".to_owned())),
            HeaderField::NotText => Err(ApiError::ToStr),
            HeaderField::Text(value) => Ok(
                ProbeOutcome::NeedSize { etag, commit_hash, location: value.clone() },
            ),
        }
    } else {
        match read_size(resp) {
            Ok(size) => Ok(ProbeOutcome::Resolved(Metadata { commit_hash, etag, size })),
            Err(e) => Err(e),
        }
    }
}

/// Completes a resolution with the response of the place that the first
/// probe was redirected to: only the length is read from it.
pub fn after_size_probe(etag: String, commit_hash: String, resp: &ProbeResponse) -> (r: Result<
    Metadata,
    ApiError,
>)
    ensures
        match r {
            Ok(meta) => {
                &&& resp.size_failure() is None
                &&& meta.etag@ == etag@
                &&& meta.commit_hash@ == commit_hash@
                &&& content_range_total(resp.content_range->Text_0@) == Some(meta.size as nat)
            },
            Err(e) => resp.size_failure() == Some(e@),
        },
{
    match read_size(resp) {
        Ok(size) => Ok(Metadata { commit_hash, etag, size }),
        Err(e) => Err(e),
    }
}

/// What to do with a redirection.
#[derive(Clone, Copy, Debug, PartialEq, Eq, Structural)]
pub enum RedirectAction {
    /// Ask the place that the response points to.
    Follow,
    /// Take the redirecting response as the answer.
    Stop,
    /// Give up: the chain is too long.
    TooManyRedirects,
}

/// The most redirections that are followed for one probe.
pub const MAX_REDIRECTS: usize = 10;

/// The reference that leads from the URL `base` to the URL `target`, where
/// both are URLs and there is such a reference.
pub uninterp spec fn relative_reference(base: Seq<char>, target: Seq<char>) -> Option<Seq<char>>;

/// `url::Url::parse` on both texts, then `url::Url::make_relative` from the
/// first to the second. The result is what that call returns, and nothing
/// where either text is not a URL. By the source of `make_relative` there is
/// no such reference where the base cannot be a base or where scheme, host
/// or port differ; the contract only names the result.
#[verifier::external_body]
fn make_relative_url(base: &str, target: &str) -> (r: Option<String>)
    ensures
        match r {
            Some(reference) => relative_reference(base@, target@) == Some(reference@),
            None => relative_reference(base@, target@) is None,
        },
{
    let from = url::Url::parse(base).ok()?;
    let to = url::Url::parse(target).ok()?;
    from.make_relative(&to)
}

/// The rule for a redirection, given how many URLs were asked so far in this
/// chain (the first one included) and whether the new target can be reached
/// from the last of them by a relative reference.
pub open spec fn redirect_rule(asked: nat, relative: bool) -> RedirectAction {
    if asked > MAX_REDIRECTS {
        RedirectAction::TooManyRedirects
    } else if asked > 0 && !relative {
        RedirectAction::Stop
    } else {
        RedirectAction::Follow
    }
}

/// Applies the rule: more than ten redirections are an error, a target on
/// another origin halts the chain, anything else is followed.
pub fn redirect_decision(asked: usize, relative: bool) -> (action: RedirectAction)
    ensures
        action == redirect_rule(asked as nat, relative),
{
    if asked > MAX_REDIRECTS {
        RedirectAction::TooManyRedirects
    } else if asked > 0 && !relative {
        RedirectAction::Stop
    } else {
        RedirectAction::Follow
    }
}

/// Decides on a redirection to `next` after the URLs in `previous` were
/// asked, the first of which is the one the probe began with.
pub fn redirect_action(previous: &Vec<String>, next: &str) -> (action: RedirectAction)
    ensures
        action == redirect_rule(
            previous@.len(),
            previous@.len() > 0 && relative_reference(previous@.last()@, next@) is Some,
        ),
{
    if previous.len() > MAX_REDIRECTS {
        return RedirectAction::TooManyRedirects;
    }
    if previous.len() == 0 {
        return RedirectAction::Follow;
    }
    let last = &previous[previous.len() - 1];
    let reference = make_relative_url(last.as_str(), next);
    redirect_decision(previous.len(), reference.is_some())
}

} // verus!
