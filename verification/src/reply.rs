//! The answers the registry gives, and the decisions that pick them.
use vstd::prelude::*;

verus! {

/// An answer of the registry, apart from package documents.
#[derive(Debug, Clone, PartialEq, Eq)]
pub enum Reply {
    /// 401 with `{"error":"unauthorized"}`.
    Unauthorized,
    /// 404 with `{"error":"not found"}`.
    NotFoundJson,
    /// 404 without a body.
    NotFound,
    /// 502 without a body.
    BadGateway,
    /// 200, `application/json`: a document passed on from the upstream registry.
    UpstreamDocument(Vec<u8>),
    /// 200, `application/gzip`: a stored tarball.
    Tarball(Vec<u8>),
    /// 200 with `{"ok":true,"name":name}`: a package document was published.
    PublishedManifest { name: String },
    /// 200 with `{"ok":true,"name":..,"version":..,"shasum":..}`: a raw
    /// tarball was published.
    PublishedTarball { name: String, version: String, shasum: String },
}

/// The content of a `Reply`.
pub enum ReplyView {
    Unauthorized,
    NotFoundJson,
    NotFound,
    BadGateway,
    UpstreamDocument(Seq<u8>),
    Tarball(Seq<u8>),
    PublishedManifest { name: Seq<char> },
    PublishedTarball { name: Seq<char>, version: Seq<char>, shasum: Seq<char> },
}

impl View for Reply {
    type V = ReplyView;

    open spec fn view(&self) -> ReplyView {
        match self {
            Reply::Unauthorized => ReplyView::Unauthorized,
            Reply::NotFoundJson => ReplyView::NotFoundJson,
            Reply::NotFound => ReplyView::NotFound,
            Reply::BadGateway => ReplyView::BadGateway,
            Reply::UpstreamDocument(b) => ReplyView::UpstreamDocument(b@),
            Reply::Tarball(b) => ReplyView::Tarball(b@),
            Reply::PublishedManifest { name } => ReplyView::PublishedManifest { name: name@ },
            Reply::PublishedTarball { name, version, shasum } => ReplyView::PublishedTarball {
                name: name@,
                version: version@,
                shasum: shasum@,
            },
        }
    }
}

/// The HTTP status of an answer.
pub open spec fn reply_status(r: ReplyView) -> u16 {
    match r {
        ReplyView::Unauthorized => 401,
        ReplyView::NotFoundJson => 404,
        ReplyView::NotFound => 404,
        ReplyView::BadGateway => 502,
        _ => 200,
    }
}

impl Reply {
    /// The HTTP status of this answer.
    pub fn status(&self) -> (s: u16)
        ensures
            s == reply_status(self@),
    {
        match self {
            Reply::Unauthorized => 401,
            Reply::NotFoundJson => 404,
            Reply::NotFound => 404,
            Reply::BadGateway => 502,
            _ => 200,
        }
    }
}

/// What came of asking the upstream registry for a document.
#[derive(Debug, Clone, PartialEq, Eq)]
pub enum UpstreamOutcome {
    /// The request failed, or the answer's status was not a success.
    Unavailable,
    /// The answer was a success but its body could not be read.
    BodyUnreadable,
    /// The answer was a success with this body.
    Body(Vec<u8>),
}

/// The answer passed on for an upstream outcome: the body where there is
/// one, 502 where it could not be read, 404 where the upstream had nothing.
pub open spec fn upstream_reply(o: UpstreamOutcome) -> ReplyView {
    match o {
        UpstreamOutcome::Unavailable => ReplyView::NotFoundJson,
        UpstreamOutcome::BodyUnreadable => ReplyView::BadGateway,
        UpstreamOutcome::Body(b) => ReplyView::UpstreamDocument(b@),
    }
}

/// Answers a request for a package that the registry does not hold, from
/// what the upstream registry gave back.
pub fn proxy_upstream(outcome: UpstreamOutcome) -> (r: Reply)
    ensures
        r@ == upstream_reply(outcome),
{
    match outcome {
        UpstreamOutcome::Unavailable => Reply::NotFoundJson,
        UpstreamOutcome::BodyUnreadable => Reply::BadGateway,
        UpstreamOutcome::Body(b) => Reply::UpstreamDocument(b),
    }
}

/// Answers a tarball download from what reading the file gave: its bytes,
/// or nothing where it could not be read.
pub fn download_reply(file: Option<Vec<u8>>) -> (r: Reply)
    ensures
        r@ == (match file {
            Some(b) => ReplyView::Tarball(b@),
            None => ReplyView::NotFound,
        }),
{
    match file {
        Some(b) => Reply::Tarball(b),
        None => Reply::NotFound,
    }
}

} // verus!
