//! The decisions of obtaining an index page: where a cached copy lies, where
//! the live copy is asked for, and how each outcome of reading or requesting
//! it is classified. Reading and requesting are left to the caller.
use vstd::prelude::*;
use crate::content::{ContentError, PageType};

verus! {

/// The path of a subject's cached index page under a working directory.
pub open spec fn cache_path(cwd: Seq<char>, crate_name: Seq<char>) -> Seq<char> {
    cwd + "/target/doc/"@ + crate_name + "/all.html"@
}

/// The landing page of a subject on the documentation host.
pub open spec fn landing_address(crate_name: Seq<char>) -> Seq<char> {
    "https://docs.rs/"@ + crate_name
}

/// The index page below the address a landing page resolved to.
pub open spec fn index_address_of(resolved: Seq<char>) -> Seq<char> {
    resolved + "all.html"@
}

/// Where a subject's cached index page lies.
pub fn local_index_path(cwd: &str, crate_name: &str) -> (r: String)
    ensures
        r@ == cache_path(cwd@, crate_name@),
{
    let mut p = cwd.to_owned();
    p.append("/target/doc/");
    p.append(crate_name);
    p.append("/all.html");
    p
}

/// The landing page to request first for a subject.
pub fn landing_url(crate_name: &str) -> (r: String)
    ensures
        r@ == landing_address(crate_name@),
{
    let mut p = "https://docs.rs/".to_owned();
    p.append(crate_name);
    p
}

/// The index page to request once the landing page resolved to `resolved`.
pub fn index_address(resolved: &str) -> (r: String)
    ensures
        r@ == index_address_of(resolved@),
{
    let mut p = resolved.to_owned();
    p.append("all.html");
    p
}

/// What reading a cached index page gave.
#[derive(Debug)]
pub enum FileRead {
    /// There is no file at the path.
    Missing,
    /// The file is there but could not be opened or read as text.
    Unreadable,
    /// The file's text.
    Text(String),
}

/// What the request for an index page gave.
#[derive(Debug)]
pub enum IndexReply {
    /// The request failed in transport.
    Failed,
    /// The server answered with a status, and with the body where it could
    /// be read.
    Answered { status: u16, body: Option<String> },
}

/// Whether a status is a success.
pub open spec fn is_success(status: u16) -> bool {
    200 <= status < 300
}

/// Classifies a read of the cache file at `path`: a missing file is
/// `DoesNotExist`, an unreadable one `LoadFailure`, and a read one is the
/// index page, based at `path`.
pub fn local_page(read: FileRead, path: String) -> (r: Result<(PageType, String), ContentError>)
    ensures
        match read {
            FileRead::Missing => r == Err::<(PageType, String), ContentError>(
                ContentError::DoesNotExist,
            ),
            FileRead::Unreadable => r == Err::<(PageType, String), ContentError>(
                ContentError::LoadFailure,
            ),
            FileRead::Text(t) => r == Ok::<(PageType, String), ContentError>(
                (PageType::All(t), path),
            ),
        },
{
    match read {
        FileRead::Missing => Err(ContentError::DoesNotExist),
        FileRead::Unreadable => Err(ContentError::LoadFailure),
        FileRead::Text(t) => Ok((PageType::All(t), path)),
    }
}

/// Classifies the request for the landing page: a transport failure is
/// `LoadFailure`; otherwise the index page below the resolved address is
/// to be requested next.
pub fn after_landing(resolved: Option<String>) -> (r: Result<String, ContentError>)
    ensures
        match resolved {
            None => r == Err::<String, ContentError>(ContentError::LoadFailure),
            Some(u) => r is Ok && r->Ok_0@ == index_address_of(u@),
        },
{
    match resolved {
        None => Err(ContentError::LoadFailure),
        Some(u) => Ok(index_address(u.as_str())),
    }
}

/// Classifies the request for the index page at `address`: a transport
/// failure or an unreadable body is `LoadFailure`, a status other than a
/// success is `DoesNotExist`, and a read body is the index page, based at
/// `address`.
pub fn live_page(reply: IndexReply, address: String) -> (r: Result<
    (PageType, String),
    ContentError,
>)
    ensures
        match reply {
            IndexReply::Failed => r == Err::<(PageType, String), ContentError>(
                ContentError::LoadFailure,
            ),
            IndexReply::Answered { status, body } => if !is_success(status) {
                r == Err::<(PageType, String), ContentError>(ContentError::DoesNotExist)
            } else {
                match body {
                    None => r == Err::<(PageType, String), ContentError>(
                        ContentError::LoadFailure,
                    ),
                    Some(b) => r == Ok::<(PageType, String), ContentError>(
                        (PageType::All(b), address),
                    ),
                }
            },
        },
{
    match reply {
        IndexReply::Failed => Err(ContentError::LoadFailure),
        IndexReply::Answered { status, body } => {
            if status < 200 || status >= 300 {
                Err(ContentError::DoesNotExist)
            } else {
                match body {
                    None => Err(ContentError::LoadFailure),
                    Some(b) => Ok((PageType::All(b), address)),
                }
            }
        },
    }
}

/// What a session does after trying to open a subject's page.
#[derive(Debug, Clone, Copy, PartialEq, Eq, Structural)]
pub enum FetchStep {
    /// The page opened: start looking items up in it.
    Open,
    /// The cache has no copy: ask whether to fetch the live page.
    AskToGoOnline,
    /// The subject has no documentation: say so and stop.
    ReportMissing,
    /// The live page could not be fetched: point at the connection and stop.
    ReportOffline,
    /// Show the error and stop; whether to try again is the user's choice.
    ReportError(ContentError),
}

/// The step that follows an attempt to open a page, in the network mode or
/// not, that gave `outcome` (`None` where the page opened). No step fetches
/// the same page again: a failure ends the attempt.
pub fn next_fetch_step(online: bool, outcome: Option<ContentError>) -> (r: FetchStep)
    ensures
        match outcome {
            None => r == FetchStep::Open,
            Some(ContentError::DoesNotExist) => r == if online {
                FetchStep::ReportMissing
            } else {
                FetchStep::AskToGoOnline
            },
            Some(ContentError::LoadFailure) => r == if online {
                FetchStep::ReportOffline
            } else {
                FetchStep::ReportError(ContentError::LoadFailure)
            },
            Some(e) => r == FetchStep::ReportError(e),
        },
{
    match outcome {
        None => FetchStep::Open,
        Some(ContentError::DoesNotExist) => {
            if online {
                FetchStep::ReportMissing
            } else {
                FetchStep::AskToGoOnline
            }
        },
        Some(ContentError::LoadFailure) => {
            if online {
                FetchStep::ReportOffline
            } else {
                FetchStep::ReportError(ContentError::LoadFailure)
            }
        },
        Some(e) => FetchStep::ReportError(e),
    }
}

} // verus!
