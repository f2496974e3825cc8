//! Rules for uploaded assets: which names and types are accepted and under
//! which name a file is stored.

use vstd::prelude::*;
use crate::text::{
    alphanumeric, chars_of, drop_front, drop_front_exec, has_sub, has_sub_exec, is_alphanumeric,
    lowercase, push_all, str_eq, string_of, take_front_exec, to_lowercase,
};
use crate::search::last_index_of;

verus! {

/// Largest accepted upload, in bytes.
pub const MAX_FILE_SIZE: usize = 10 * 1024 * 1024;

/// Query of an upload request.
#[derive(Debug, Clone)]
pub struct UploadQuery {
    pub project: Option<String>,
}

/// Answer to an upload.
#[derive(Debug, Clone)]
pub struct UploadResponse {
    pub url: String,
    pub filename: String,
    pub size: usize,
}

/// `component` can stand as one component of a path: it is not empty and
/// holds neither `..` nor a separator.
pub open spec fn valid_component(component: Seq<char>) -> bool {
    &&& component.len() > 0
    &&& !has_sub(component, ".."@)
    &&& !has_sub(component, "/"@)
    &&& !has_sub(component, "\\"@)
}

/// Accepts a path component that cannot lead out of its directory.
pub fn validate_path_component(component: &str) -> (r: Result<(), String>)
    ensures
        r is Ok <==> valid_component(component@),
        r matches Err(e) ==> e@ == "Invalid path component"@,
{
    let chars = chars_of(component);
    if chars.len() == 0 || has_sub_exec(&chars, &chars_of("..")) || has_sub_exec(
        &chars,
        &chars_of("/"),
    ) || has_sub_exec(&chars, &chars_of("\\")) {
        return Err("Invalid path component".to_owned());
    }
    Ok(())
}

/// `content_type` is one of the accepted types: the image types and PDF.
pub open spec fn allowed_content_type(content_type: Seq<char>) -> bool {
    ||| content_type == "image/jpeg"@
    ||| content_type == "image/png"@
    ||| content_type == "image/gif"@
    ||| content_type == "image/webp"@
    ||| content_type == "image/svg+xml"@
    ||| content_type == "application/pdf"@
}

/// Tells whether an upload of this content type is accepted.
pub fn is_allowed_content_type(content_type: &str) -> (r: bool)
    ensures
        r == allowed_content_type(content_type@),
{
    str_eq(content_type, "image/jpeg") || str_eq(content_type, "image/png") || str_eq(
        content_type,
        "image/gif",
    ) || str_eq(content_type, "image/webp") || str_eq(content_type, "image/svg+xml") || str_eq(
        content_type,
        "application/pdf",
    )
}

/// What follows the last dot of `filename`; all of it if it has no dot.
pub open spec fn extension_of(filename: Seq<char>) -> Seq<char> {
    drop_front(filename, last_index_of(filename, '.') + 1)
}

/// The content type served for a file with this extension in lower case.
pub open spec fn content_type_for(ext: Seq<char>) -> Seq<char> {
    if ext == "jpg"@ || ext == "jpeg"@ {
        "image/jpeg"@
    } else if ext == "png"@ {
        "image/png"@
    } else if ext == "gif"@ {
        "image/gif"@
    } else if ext == "webp"@ {
        "image/webp"@
    } else if ext == "svg"@ {
        "image/svg+xml"@
    } else if ext == "pdf"@ {
        "application/pdf"@
    } else {
        "application/octet-stream"@
    }
}

/// Position after the last `c` in `s`; 0 if there is none.
fn after_last(s: &Vec<char>, c: char) -> (r: usize)
    ensures
        r == last_index_of(s@, c) + 1,
        r <= s.len(),
{
    let mut n: usize = s.len();
    assert(s@.take(n as int) =~= s@);
    while n > 0 && s[n - 1] != c
        invariant
            n <= s.len(),
            last_index_of(s@, c) == last_index_of(s@.take(n as int), c),
        decreases n,
    {
        assert(s@.take(n as int).drop_last() =~= s@.take(n - 1));
        n -= 1;
    }
    proof {
        if n > 0 {
            assert(s@.take(n as int).last() == s@[n - 1]);
        }
    }
    n
}

/// Returns the content type served for a file name, by its extension
/// without regard to case.
pub fn get_content_type(filename: &str) -> (r: &'static str)
    ensures
        r@ == content_type_for(lowercase(extension_of(filename@))),
{
    let chars = chars_of(filename);
    let start = after_last(&chars, '.');
    let ext = string_of(&drop_front_exec(&chars, start));
    let lower = to_lowercase(ext.as_str());
    let e = lower.as_str();
    if str_eq(e, "jpg") || str_eq(e, "jpeg") {
        "image/jpeg"
    } else if str_eq(e, "png") {
        "image/png"
    } else if str_eq(e, "gif") {
        "image/gif"
    } else if str_eq(e, "webp") {
        "image/webp"
    } else if str_eq(e, "svg") {
        "image/svg+xml"
    } else if str_eq(e, "pdf") {
        "application/pdf"
    } else {
        "application/octet-stream"
    }
}

/// `c` can stay in a stored file name.
pub open spec fn keeps(c: char) -> bool {
    alphanumeric(c) || c == '-' || c == '_'
}

/// `name` with every character that cannot stay replaced by `_`.
pub open spec fn sanitized(name: Seq<char>) -> Seq<char> {
    Seq::new(name.len(), |i: int| if keeps(name[i]) { name[i] } else { '_' })
}

/// The part of a file name before its last dot; all of it if it has none.
pub open spec fn name_part(given: Seq<char>) -> Seq<char> {
    if last_index_of(given, '.') >= 0 {
        given.take(last_index_of(given, '.'))
    } else {
        given
    }
}

/// The last dot of a file name and what follows; empty if it has no dot.
pub open spec fn ext_part(given: Seq<char>) -> Seq<char> {
    if last_index_of(given, '.') >= 0 {
        given.skip(last_index_of(given, '.'))
    } else {
        Seq::empty()
    }
}

/// The name a file is stored under when that name is free.
pub open spec fn base_filename(given: Seq<char>) -> Seq<char> {
    sanitized(name_part(given)) + ext_part(given)
}

/// The name a file is stored under when its base name is taken: the
/// sanitized name, `_`, the given suffix, then the extension.
pub open spec fn suffixed_filename(given: Seq<char>, suffix: Seq<char>) -> Seq<char> {
    sanitized(name_part(given)) + "_"@ + suffix + ext_part(given)
}

fn split_name(given: &Vec<char>) -> (r: (Vec<char>, Vec<char>))
    ensures
        r.0@ == sanitized(name_part(given@)),
        r.1@ == ext_part(given@),
{
    let after = after_last(given, '.');
    let (name, ext) = if after > 0 {
        let name = take_front_exec(given, after - 1);
        let ext = drop_front_exec(given, after - 1);
        assert(ext@ =~= given@.skip(after - 1));
        (name, ext)
    } else {
        let name = take_front_exec(given, given.len());
        assert(name@ =~= given@);
        (name, Vec::new())
    };
    let mut clean: Vec<char> = Vec::new();
    let mut i: usize = 0;
    while i < name.len()
        invariant
            i <= name.len(),
            clean.len() == i,
            forall|j: int| 0 <= j < i ==> clean@[j] == (if keeps(name@[j]) { name@[j] } else { '_' }),
        decreases name.len() - i,
    {
        let c = name[i];
        if is_alphanumeric(c) || c == '-' || c == '_' {
            clean.push(c);
        } else {
            clean.push('_');
        }
        i += 1;
    }
    assert(clean@ =~= sanitized(name@));
    (clean, ext)
}

/// Returns the name a file is stored under when that name is free.
pub fn generate_base_filename(given: &str) -> (r: String)
    ensures
        r@ == base_filename(given@),
{
    let (mut name, ext) = split_name(&chars_of(given));
    push_all(&mut name, &ext);
    string_of(&name)
}

/// Returns the name a file is stored under: its base name where that is
/// free, else the name with `suffix` set before the extension.
pub fn generate_unique_filename(given: &str, base_taken: bool, suffix: &str) -> (r: String)
    ensures
        r@ == (if base_taken {
            suffixed_filename(given@, suffix@)
        } else {
            base_filename(given@)
        }),
{
    if !base_taken {
        return generate_base_filename(given);
    }
    let (mut name, ext) = split_name(&chars_of(given));
    push_all(&mut name, &chars_of("_"));
    push_all(&mut name, &chars_of(suffix));
    push_all(&mut name, &ext);
    string_of(&name)
}

/// The address an asset is served under.
pub open spec fn asset_url(project: Option<String>, filename: Seq<char>) -> Seq<char> {
    "/api/assets/"@ + (match project {
        Some(p) => p@,
        None => "notes"@,
    }) + "/"@ + filename
}

/// Why an upload is refused.
#[derive(Debug, Clone, Copy, PartialEq, Eq, Structural)]
pub enum UploadError {
    UnsupportedType,
    TooLarge,
}

/// Checks an upload's content type and size.
pub fn check_upload(content_type: &str, size: usize) -> (r: Result<(), UploadError>)
    ensures
        r == (if !allowed_content_type(content_type@) {
            Err::<(), UploadError>(UploadError::UnsupportedType)
        } else if size > MAX_FILE_SIZE {
            Err::<(), UploadError>(UploadError::TooLarge)
        } else {
            Ok::<(), UploadError>(())
        }),
{
    if !is_allowed_content_type(content_type) {
        Err(UploadError::UnsupportedType)
    } else if size > MAX_FILE_SIZE {
        Err(UploadError::TooLarge)
    } else {
        Ok(())
    }
}

/// Builds the answer to a stored upload.
pub fn upload_response(query: &UploadQuery, filename: String, size: usize) -> (r: UploadResponse)
    ensures
        r.url@ == asset_url(query.project, filename@),
        r.filename@ == filename@,
        r.size == size,
{
    let mut url = chars_of("/api/assets/");
    match &query.project {
        Some(p) => push_all(&mut url, &chars_of(p.as_str())),
        None => push_all(&mut url, &chars_of("notes")),
    }
    push_all(&mut url, &chars_of("/"));
    push_all(&mut url, &chars_of(filename.as_str()));
    UploadResponse { url: string_of(&url), filename, size }
}

} // verus!
