//! The decisions of the web server and of the Wi-Fi event handler.
use vstd::prelude::*;
use vstd::utf8::{valid_utf8, decode_utf8};
use crate::commands::RequestMethod;

verus! {

/// The largest form body, in bytes, that the server reads.
pub const MAX_BODY_LEN: usize = 500;

/// The routes that take a form post.
#[derive(Debug, Clone, Copy, PartialEq, Eq, Structural)]
pub enum PostRoute {
    /// `/delete`: drop the stored values.
    Delete,
    /// `/change-v`: new voltage bounds.
    ChangeV,
    /// `/change-time`: a new sampling period.
    ChangeTime,
}

impl PostRoute {
    /// The request that a post to this route hands on.
    pub fn method(&self) -> (m: RequestMethod)
        ensures
            m == match *self {
                PostRoute::Delete => RequestMethod::RESET,
                PostRoute::ChangeV => RequestMethod::CHANGE_V,
                PostRoute::ChangeTime => RequestMethod::CHANGE_T,
            },
    {
        match self {
            PostRoute::Delete => RequestMethod::RESET,
            PostRoute::ChangeV => RequestMethod::CHANGE_V,
            PostRoute::ChangeTime => RequestMethod::CHANGE_T,
        }
    }

    /// Whether the route reads a form body.
    pub fn reads_body(&self) -> (b: bool)
        ensures
            b == !(*self is Delete),
    {
        match self {
            PostRoute::Delete => false,
            _ => true,
        }
    }
}

/// How many bytes of body to read for a post whose announced length is
/// `content_len` (none announced counts as 0, and the length is taken as a
/// `usize`), or `None` where that is more than `MAX_BODY_LEN`: the post is then
/// answered with status 413.
pub fn body_len(content_len: Option<u64>) -> (r: Option<usize>)
    ensures
        ({
            let len = match content_len {
                Some(l) => l as usize,
                None => 0usize,
            };
            r == if len > MAX_BODY_LEN {
                None::<usize>
            } else {
                Some(len)
            }
        }),
{
    let len = match content_len {
        Some(l) => l as usize,
        None => 0usize,
    };
    if len > MAX_BODY_LEN {
        None
    } else {
        Some(len)
    }
}

#[verifier::external_type_specification]
#[verifier::external_body]
pub struct ExFromUtf8Error(std::string::FromUtf8Error);

/// Calls `String::from_utf8`, which, as its documentation says, succeeds exactly on
/// valid UTF-8 and then holds the characters that the bytes encode.
#[verifier::external_body]
fn string_from_utf8(bytes: Vec<u8>) -> (r: Result<String, std::string::FromUtf8Error>)
    ensures
        match r {
            Ok(s) => valid_utf8(bytes@) && s@ == decode_utf8(bytes@),
            Err(_) => !valid_utf8(bytes@),
        },
{
    String::from_utf8(bytes)
}

/// The form content of a post body: its text where the body is valid UTF-8, else
/// `None` (the post is then not handed on).
pub fn posted_content(body: Vec<u8>) -> (r: Option<String>)
    ensures
        match r {
            Some(s) => valid_utf8(body@) && s@ == decode_utf8(body@),
            None => !valid_utf8(body@),
        },
{
    match string_from_utf8(body) {
        Ok(string) => Some(string),
        Err(_) => None,
    }
}

/// The Wi-Fi events that the handler tells apart.
#[derive(Debug, Clone, Copy, PartialEq, Eq, Structural)]
pub enum WifiEventKind {
    StaConnected,
    StaDisconnected,
    Other,
}

/// Whether the station has to connect again after `event`: exactly when it was
/// disconnected.
pub fn should_reconnect(event: WifiEventKind) -> (b: bool)
    ensures
        b == (event is StaDisconnected),
{
    match event {
        WifiEventKind::StaConnected => false,
        WifiEventKind::StaDisconnected => true,
        WifiEventKind::Other => false,
    }
}

} // verus!
