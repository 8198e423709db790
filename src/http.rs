use vstd::prelude::*;
use vstd::string::{StrSliceExecFns, StringExecFns};
use crate::clock::{local_now, LocalDateTime};
use crate::text::push_str;

verus! {

/// The handlers that requests are dispatched to.
#[derive(Clone, Copy, Debug, PartialEq, Eq, Structural)]
pub enum Endpoint {
    Health,
    Upload,
    Download,
}

/// The endpoint that serves a method and path, if any.
pub open spec fn route_spec(method: Seq<char>, path: Seq<char>) -> Option<Endpoint> {
    if method == "GET"@ && path == "/health"@ {
        Some(Endpoint::Health)
    } else if method == "POST"@ && path == "/upload"@ {
        Some(Endpoint::Upload)
    } else if method == "GET"@ && path == "/download"@ {
        Some(Endpoint::Download)
    } else {
        None
    }
}

pub open spec fn health_text() -> Seq<char> {
    "{\"status\":\"ok\",\"message\":\"Server is running :)\"}"@
}

pub open spec fn upload_success_text() -> Seq<char> {
    "{\"status\":\"success\",\"message\":\"File uploaded successfully\"}"@
}

/// `logs_<YYYYMMDD_HHMMSS>.zip`.
pub open spec fn archive_file_name_text(t: LocalDateTime) -> Seq<char> {
    "logs_"@ + t.stamp_text() + ".zip"@
}

/// `attachment; filename="<name>"`.
pub open spec fn content_disposition_text(name: Seq<char>) -> Seq<char> {
    "attachment; filename=\""@ + name + "\""@
}

/// The media type of a downloaded archive.
pub const ARCHIVE_CONTENT_TYPE: &'static str = "application/zip";

fn same_text(a: &str, b: &str) -> (r: bool)
    ensures
        r == (a@ == b@),
{
    let n = a.unicode_len();
    if n != b.unicode_len() {
        return false;
    }
    let mut i: usize = 0;
    while i < n
        invariant
            n == a@.len(),
            n == b@.len(),
            i <= n,
            a@.subrange(0, i as int) == b@.subrange(0, i as int),
        decreases n - i,
    {
        if a.get_char(i) != b.get_char(i) {
            assert(a@[i as int] != b@[i as int]);
            return false;
        }
        i = i + 1;
        assert(a@.subrange(0, i as int) =~= b@.subrange(0, i as int));
    }
    assert(a@ =~= a@.subrange(0, n as int));
    assert(b@ =~= b@.subrange(0, n as int));
    true
}

/// Dispatches a request by method and path.
pub fn route(method: &str, path: &str) -> (r: Option<Endpoint>)
    ensures
        r == route_spec(method@, path@),
{
    let get = same_text(method, "GET");
    let post = same_text(method, "POST");
    if get && same_text(path, "/health") {
        Some(Endpoint::Health)
    } else if post && same_text(path, "/upload") {
        Some(Endpoint::Upload)
    } else if get && same_text(path, "/download") {
        Some(Endpoint::Download)
    } else {
        None
    }
}

/// The fixed liveness payload.
pub fn health_body() -> (r: String)
    ensures
        r@ == health_text(),
{
    String::from_str("{\"status\":\"ok\",\"message\":\"Server is running :)\"}")
}

/// The acknowledgement of a successful upload.
pub fn upload_success_body() -> (r: String)
    ensures
        r@ == upload_success_text(),
{
    String::from_str("{\"status\":\"success\",\"message\":\"File uploaded successfully\"}")
}

/// The name offered for an archive downloaded at reading `t`.
pub fn archive_file_name(t: &LocalDateTime) -> (r: String)
    ensures
        r@ == archive_file_name_text(*t),
{
    let mut s = String::from_str("logs_");
    let stamp = t.stamp_string();
    push_str(&mut s, stamp.as_str());
    push_str(&mut s, ".zip");
    s
}

/// The name offered for an archive downloaded now.
pub fn download_file_name() -> (r: String)
    ensures
        exists|t: LocalDateTime| t.wf() && r@ == archive_file_name_text(t),
{
    let t = local_now();
    archive_file_name(&t)
}

/// The attachment hint that carries a download's file name.
pub fn content_disposition(name: &str) -> (r: String)
    ensures
        r@ == content_disposition_text(name@),
{
    let mut s = String::from_str("attachment; filename=\"");
    push_str(&mut s, name);
    push_str(&mut s, "\"");
    s
}

} // verus!
