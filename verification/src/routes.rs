//! The backend's routes: which request each lookup makes, and what the
//! backend's reply means. Sending the request and reading the reply is the
//! caller's part.

use crate::config::{
    GROUP_URL, HTTP_READ_TIMEOUT_MS, HTTP_WRITE_TIMEOUT_MS, PASSWD_URL, SHADOW_URL, SOCKET_PATH,
    SOCKET_PATH_PRIV,
};
use crate::cursor::fetched_list;
use crate::types::AlexandriaSvcError;
use vstd::prelude::*;
use vstd::string::*;

verus! {

/// One request to the backend: a GET for `url` over the socket at
/// `socket_path`, with the time each direction may take.
#[derive(Debug, PartialEq, Eq)]
pub struct Request {
    pub socket_path: String,
    pub url: String,
    pub read_timeout_ms: u64,
    pub write_timeout_ms: u64,
}

/// The mathematical content of a [`Request`].
pub struct RequestView {
    pub socket_path: Seq<char>,
    pub url: Seq<char>,
    pub read_timeout_ms: u64,
    pub write_timeout_ms: u64,
}

impl View for Request {
    type V = RequestView;

    open spec fn view(&self) -> RequestView {
        RequestView {
            socket_path: self.socket_path@,
            url: self.url@,
            read_timeout_ms: self.read_timeout_ms,
            write_timeout_ms: self.write_timeout_ms,
        }
    }
}

/// How asking the backend ended.
#[derive(Debug, PartialEq, Eq)]
pub enum Reply<T> {
    /// No request was made: the route refused the caller.
    Unasked,
    /// The request could not be sent, or the reply could not be read or decoded.
    Failed(AlexandriaSvcError),
    /// The backend has no such data.
    NotFound,
    /// The decoded body of the reply.
    Body(T),
}

/// The request for `url` over `socket_path`, with the usual time limits.
pub open spec fn request_for(socket_path: Seq<char>, url: Seq<char>) -> RequestView {
    RequestView {
        socket_path,
        url,
        read_timeout_ms: HTTP_READ_TIMEOUT_MS,
        write_timeout_ms: HTTP_WRITE_TIMEOUT_MS,
    }
}

/// The decimal digit for `d`.
pub open spec fn digit(d: nat) -> char {
    if d == 0 {
        '0'
    } else if d == 1 {
        '1'
    } else if d == 2 {
        '2'
    } else if d == 3 {
        '3'
    } else if d == 4 {
        '4'
    } else if d == 5 {
        '5'
    } else if d == 6 {
        '6'
    } else if d == 7 {
        '7'
    } else if d == 8 {
        '8'
    } else {
        '9'
    }
}

/// A number in decimal digits, without leading zeros.
pub open spec fn decimal(n: nat) -> Seq<char>
    decreases n,
{
    if n < 10 {
        seq![digit(n)]
    } else {
        decimal(n / 10).push(digit(n % 10))
    }
}

/// The path and query that asks a database for the entry with a numeric id.
pub open spec fn id_url(path: Seq<char>, key: Seq<char>, id: u32) -> Seq<char> {
    path + key + decimal(id as nat)
}

/// The path and query that asks a database for the entry with a name.
pub open spec fn name_url(path: Seq<char>, name: Seq<char>) -> Seq<char> {
    path + "?name="@ + name
}

/// Whether a caller with this effective user id may see the shadow database:
/// only the privileged account may.
pub open spec fn privileged(euid: u32) -> bool {
    euid == 0
}

/// The request for the whole shadow database, if the caller may make it.
pub open spec fn shadow_request(euid: u32) -> Option<RequestView> {
    if privileged(euid) {
        Some(request_for(SOCKET_PATH_PRIV@, SHADOW_URL@))
    } else {
        None
    }
}

/// The request for one shadow entry, if the caller may make it.
pub open spec fn shadow_name_request(euid: u32, name: Seq<char>) -> Option<RequestView> {
    if privileged(euid) {
        Some(request_for(SOCKET_PATH_PRIV@, name_url(SHADOW_URL@, name)))
    } else {
        None
    }
}

/// The list that a reply to a request for a whole database brings: a refused
/// caller and a backend without such data both see an empty list, and a
/// failure brings none.
pub open spec fn listed<T>(reply: Reply<Vec<T>>) -> Option<Seq<T>> {
    match reply {
        Reply::Unasked => Some(Seq::empty()),
        Reply::Failed(_) => None,
        Reply::NotFound => Some(Seq::empty()),
        Reply::Body(list) => Some(list@),
    }
}

/// What a reply to a request for one entry means: a refused caller and a
/// backend without such an entry both see none.
pub open spec fn found<T>(reply: Reply<T>) -> Result<Option<T>, AlexandriaSvcError> {
    match reply {
        Reply::Unasked => Ok(None),
        Reply::Failed(error) => Err(error),
        Reply::NotFound => Ok(None),
        Reply::Body(entry) => Ok(Some(entry)),
    }
}

fn request(socket_path: &str, url: String) -> (r: Request)
    ensures
        r@ == request_for(socket_path@, url@),
{
    Request {
        socket_path: String::from_str(socket_path),
        url,
        read_timeout_ms: HTTP_READ_TIMEOUT_MS,
        write_timeout_ms: HTTP_WRITE_TIMEOUT_MS,
    }
}

fn digit_str(d: u32) -> (s: &'static str)
    requires
        d < 10,
    ensures
        s@ == seq![digit(d as nat)],
{
    proof {
        reveal_strlit("0");
        reveal_strlit("1");
        reveal_strlit("2");
        reveal_strlit("3");
        reveal_strlit("4");
        reveal_strlit("5");
        reveal_strlit("6");
        reveal_strlit("7");
        reveal_strlit("8");
        reveal_strlit("9");
    }
    let s = if d == 0 {
        "0"
    } else if d == 1 {
        "1"
    } else if d == 2 {
        "2"
    } else if d == 3 {
        "3"
    } else if d == 4 {
        "4"
    } else if d == 5 {
        "5"
    } else if d == 6 {
        "6"
    } else if d == 7 {
        "7"
    } else if d == 8 {
        "8"
    } else {
        "9"
    };
    assert(s@ =~= seq![digit(d as nat)]);
    s
}

fn append_decimal(text: String, n: u32) -> (r: String)
    ensures
        r@ == text@ + decimal(n as nat),
    decreases n,
{
    if n < 10 {
        text.concat(digit_str(n))
    } else {
        let r = append_decimal(text, n / 10).concat(digit_str(n % 10));
        assert(r@ =~= text@ + decimal(n as nat));
        r
    }
}

fn id_query(path: &str, key: &str, id: u32) -> (url: String)
    ensures
        url@ == id_url(path@, key@, id),
{
    let url = append_decimal(String::from_str(path).concat(key), id);
    assert(url@ =~= id_url(path@, key@, id));
    url
}

fn name_query(path: &str, name: &str) -> (url: String)
    ensures
        url@ == name_url(path@, name@),
{
    String::from_str(path).concat("?name=").concat(name)
}

/// The request for the whole password database.
pub fn passwd() -> (r: Request)
    ensures
        r@ == request_for(SOCKET_PATH@, PASSWD_URL@),
{
    request(SOCKET_PATH, String::from_str(PASSWD_URL))
}

/// The request for the password entry with this user id.
pub fn passwd_uid(uid: u32) -> (r: Request)
    ensures
        r@ == request_for(SOCKET_PATH@, id_url(PASSWD_URL@, "?uid="@, uid)),
{
    request(SOCKET_PATH, id_query(PASSWD_URL, "?uid=", uid))
}

/// The request for the password entry with this name.
pub fn passwd_name(name: &str) -> (r: Request)
    ensures
        r@ == request_for(SOCKET_PATH@, name_url(PASSWD_URL@, name@)),
{
    request(SOCKET_PATH, name_query(PASSWD_URL, name))
}

/// The request for the whole group database.
pub fn group() -> (r: Request)
    ensures
        r@ == request_for(SOCKET_PATH@, GROUP_URL@),
{
    request(SOCKET_PATH, String::from_str(GROUP_URL))
}

/// The request for the group entry with this group id.
pub fn group_gid(gid: u32) -> (r: Request)
    ensures
        r@ == request_for(SOCKET_PATH@, id_url(GROUP_URL@, "?gid="@, gid)),
{
    request(SOCKET_PATH, id_query(GROUP_URL, "?gid=", gid))
}

/// The request for the group entry with this name.
pub fn group_name(name: &str) -> (r: Request)
    ensures
        r@ == request_for(SOCKET_PATH@, name_url(GROUP_URL@, name@)),
{
    request(SOCKET_PATH, name_query(GROUP_URL, name))
}

/// The request for the whole shadow database, for a caller with the
/// effective user id `euid`. Only the privileged account gets one; it goes to
/// the restricted socket. Any other caller gets none, and so finds the
/// database empty instead of being told that it may not look.
pub fn shadow(euid: u32) -> (r: Option<Request>)
    ensures
        match r {
            Some(request) => shadow_request(euid) == Some(request@),
            None => shadow_request(euid) is None,
        },
{
    if euid != 0 {
        return None;
    }
    Some(request(SOCKET_PATH_PRIV, String::from_str(SHADOW_URL)))
}

/// The request for the shadow entry with this name, for a caller with the
/// effective user id `euid`. Only the privileged account gets one; it goes to
/// the restricted socket. Any other caller gets none, and so finds no entry
/// instead of being told that it may not look.
pub fn shadow_name(euid: u32, name: &str) -> (r: Option<Request>)
    ensures
        match r {
            Some(request) => shadow_name_request(euid, name@) == Some(request@),
            None => shadow_name_request(euid, name@) is None,
        },
{
    if euid != 0 {
        return None;
    }
    Some(request(SOCKET_PATH_PRIV, name_query(SHADOW_URL, name)))
}

/// Whether a reply with this HTTP status says that the backend has no such
/// data, so that its body is not to be read.
pub fn no_data(status: u16) -> (missing: bool)
    ensures
        missing == (status == 404),
{
    status == 404
}

/// Turns the reply to a request for a whole database into the list to
/// enumerate, or into the failure that the reply reports.
pub fn entries<T>(reply: Reply<Vec<T>>) -> (fetched: Result<Vec<T>, AlexandriaSvcError>)
    ensures
        fetched_list(fetched) == listed(reply),
        fetched matches Err(error) ==> reply == Reply::<Vec<T>>::Failed(error),
{
    match reply {
        Reply::Unasked => Ok(Vec::new()),
        Reply::Failed(error) => Err(error),
        Reply::NotFound => Ok(Vec::new()),
        Reply::Body(list) => Ok(list),
    }
}

/// Turns the reply to a request for one entry into the entry, if there is one.
pub fn entry<T>(reply: Reply<T>) -> (lookup: Result<Option<T>, AlexandriaSvcError>)
    ensures
        lookup == found(reply),
{
    match reply {
        Reply::Unasked => Ok(None),
        Reply::Failed(error) => Err(error),
        Reply::NotFound => Ok(None),
        Reply::Body(entry) => Ok(Some(entry)),
    }
}

} // verus!
