use vstd::prelude::*;
use crate::errors::{BinstallError, HttpCause};

verus! {

/// What sending one request came to.
#[derive(Clone, Debug, PartialEq, Eq)]
pub enum HttpReply {
    /// The server answered with this status code.
    Status(u16),
    /// No answer arrived; the text says why.
    Failed(String),
}

/// The success class of status codes: 200 to 299.
pub open spec fn is_success(status: u16) -> bool {
    200 <= status < 300
}

/// Whether `status` is in the success class.
pub fn status_is_success(status: u16) -> (success: bool)
    ensures
        success == is_success(status),
{
    200 <= status && status < 300
}

/// Whether the resource at `url` exists, judged by the reply to a request
/// with the method `method`: the success class of its status, whatever the
/// body. A request that was not answered is an HTTP error that names the
/// method, the URL and the cause.
pub fn remote_exists(url: String, method: String, reply: HttpReply) -> (exists: Result<
    bool,
    BinstallError,
>)
    ensures
        match reply {
            HttpReply::Status(status) => exists == Ok::<bool, BinstallError>(is_success(status)),
            HttpReply::Failed(cause) => exists == Err::<bool, BinstallError>(
                BinstallError::Http { method, url, cause: HttpCause::Transport(cause) },
            ),
        },
{
    match reply {
        HttpReply::Status(status) => Ok(status_is_success(status)),
        HttpReply::Failed(cause) => Err(
            BinstallError::Http { method, url, cause: HttpCause::Transport(cause) },
        ),
    }
}

} // verus!
