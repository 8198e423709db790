use vstd::prelude::*;
use vstd::string::{StrSliceExecFns, StringExecFns};
use crate::clock::{local_now, LocalDateTime};
use crate::error::{bad_request, ApiError};
use crate::text::{decimal, lemma_decimal_value, push_char, push_signed, push_str, signed_decimal};

verus! {

pub open spec fn is_separator(c: char) -> bool {
    c == '/' || c == '\\'
}

/// The name with every path separator replaced by `_`.
pub open spec fn sanitized(name: Seq<char>) -> Seq<char> {
    name.map_values(|c: char| if is_separator(c) { '_' } else { c })
}

/// `<unix_secs>_<sanitized name>`.
pub open spec fn stored_name_text(unix_secs: int, name: Seq<char>) -> Seq<char> {
    signed_decimal(unix_secs) + seq!['_'] + sanitized(name)
}

/// The root as a directory prefix: with one trailing `/`, added unless already there.
pub open spec fn dir_prefix(root: Seq<char>) -> Seq<char> {
    if root.len() > 0 && root.last() == '/' {
        root
    } else {
        root.push('/')
    }
}

/// `<root>/<YYYY-MM-DD>`.
pub open spec fn daily_dir_text(root: Seq<char>, now: LocalDateTime) -> Seq<char> {
    dir_prefix(root) + now.date_text()
}

/// The path of a stored file, relative to the storage root.
pub open spec fn relative_path_text(now: LocalDateTime, name: Seq<char>) -> Seq<char> {
    now.date_text() + seq!['/'] + stored_name_text(now.unix_secs as int, name)
}

/// `<root>/<YYYY-MM-DD>/<unix_secs>_<sanitized name>`.
pub open spec fn stored_path_text(root: Seq<char>, now: LocalDateTime, name: Seq<char>) -> Seq<char> {
    daily_dir_text(root, now) + seq!['/'] + stored_name_text(now.unix_secs as int, name)
}

/// Replaces each `/` and `\` in a file name by `_`.
pub fn sanitize_file_name(name: &str) -> (r: String)
    ensures
        r@ == sanitized(name@),
        forall|i: int| 0 <= i < r@.len() ==> !is_separator(#[trigger] r@[i]),
{
    let n = name.unicode_len();
    let mut s = String::new();
    let mut i: usize = 0;
    while i < n
        invariant
            n == name@.len(),
            i <= n,
            s@ == sanitized(name@.subrange(0, i as int)),
        decreases n - i,
    {
        let c = name.get_char(i);
        if c == '/' || c == '\\' {
            push_char(&mut s, '_');
        } else {
            push_char(&mut s, c);
        }
        i = i + 1;
        assert(s@ =~= sanitized(name@.subrange(0, i as int)));
    }
    assert(name@.subrange(0, n as int) =~= name@);
    s
}

/// The collision-resistant name under which an upload is stored.
pub fn stored_file_name(unix_secs: i64, name: &str) -> (r: String)
    ensures
        r@ == stored_name_text(unix_secs as int, name@),
        forall|i: int| 0 <= i < r@.len() ==> !is_separator(#[trigger] r@[i]),
{
    let mut s = String::new();
    push_signed(&mut s, unix_secs);
    push_char(&mut s, '_');
    let safe = sanitize_file_name(name);
    push_str(&mut s, safe.as_str());
    assert(s@ =~= stored_name_text(unix_secs as int, name@));
    proof {
        let m: nat = if unix_secs < 0 { (-unix_secs) as nat } else { unix_secs as nat };
        lemma_decimal_value(m);
        let d = signed_decimal(unix_secs as int);
        assert forall|i: int| 0 <= i < s@.len() implies !is_separator(#[trigger] s@[i]) by {
            if i < d.len() {
                if unix_secs < 0 && i > 0 {
                    assert(s@[i] == decimal(m)[i - 1]);
                } else if unix_secs >= 0 {
                    assert(s@[i] == decimal(m)[i]);
                }
            } else if i > d.len() {
                assert(s@[i] == safe@[i - d.len() - 1]);
            }
        }
    }
    s
}

/// The root as a directory prefix, ending in exactly the `/` it needs.
pub fn dir_prefix_string(root: &str) -> (r: String)
    ensures
        r@ == dir_prefix(root@),
{
    let mut s = String::from_str(root);
    let n = root.unicode_len();
    if n == 0 || root.get_char(n - 1) != '/' {
        push_char(&mut s, '/');
    }
    s
}

/// The directory that holds the uploads of the reading's calendar day.
pub fn daily_dir(root: &str, now: &LocalDateTime) -> (r: String)
    ensures
        r@ == daily_dir_text(root@, *now),
{
    let mut s = dir_prefix_string(root);
    let d = now.date_string();
    push_str(&mut s, d.as_str());
    assert(s@ =~= daily_dir_text(root@, *now));
    s
}

/// Where an upload of `name` at the reading `now` is stored.
pub fn stored_file_path(root: &str, now: &LocalDateTime, name: &str) -> (r: String)
    ensures
        r@ == stored_path_text(root@, *now, name@),
{
    let mut s = daily_dir(root, now);
    push_char(&mut s, '/');
    let f = stored_file_name(now.unix_secs, name);
    push_str(&mut s, f.as_str());
    assert(s@ =~= stored_path_text(root@, *now, name@));
    s
}

/// The directory to create and the file to write for one uploaded part.
#[derive(Debug, PartialEq, Eq)]
pub struct UploadTarget {
    pub dir: String,
    pub path: String,
}

/// A part is accepted when it has a non-empty field name and a non-empty file name.
pub open spec fn part_accepted(field_name: Option<&str>, file_name: Option<&str>) -> bool {
    &&& field_name is Some
    &&& field_name->0@.len() > 0
    &&& file_name is Some
    &&& file_name->0@.len() > 0
}

/// Decides where one part of an upload goes, from the day of the request
/// (`day`) and the reading at which the part arrives (`now`).
pub fn plan_upload_part(
    root: &str,
    day: &LocalDateTime,
    now: &LocalDateTime,
    field_name: Option<&str>,
    file_name: Option<&str>,
) -> (r: Result<UploadTarget, ApiError>)
    ensures
        r is Ok <==> part_accepted(field_name, file_name),
        !(field_name is Some && field_name->0@.len() > 0) ==> r is Err
            && r->Err_0.is_bad_request("Field name is missing"@),
        (field_name is Some && field_name->0@.len() > 0) && !(file_name is Some
            && file_name->0@.len() > 0) ==> r is Err && r->Err_0.is_bad_request(
            "File name is missing"@,
        ),
        r is Ok ==> r->Ok_0.dir@ == daily_dir_text(root@, *day),
        r is Ok ==> r->Ok_0.path@ == daily_dir_text(root@, *day) + seq!['/'] + stored_name_text(
            now.unix_secs as int,
            file_name->0@,
        ),
{
    let missing_field = match field_name {
        Some(f) => f.unicode_len() == 0,
        None => true,
    };
    if missing_field {
        return Err(bad_request("Field name is missing"));
    }
    match file_name {
        Some(f) => {
            if f.unicode_len() == 0 {
                return Err(bad_request("File name is missing"));
            }
            let dir = daily_dir(root, day);
            let mut path = daily_dir(root, day);
            push_char(&mut path, '/');
            let stored = stored_file_name(now.unix_secs, f);
            push_str(&mut path, stored.as_str());
            Ok(UploadTarget { dir, path })
        },
        None => Err(bad_request("File name is missing")),
    }
}

} // verus!
