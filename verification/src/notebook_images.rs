//! Image references and formats for notebook image upload, and the steps of
//! an upload around its requests.
use vstd::prelude::*;

use crate::idp::migrate::{entries1, push_member};
use crate::json::{get, jentries, jobj, jv, str_at, vget, Json, JsonV};
use crate::text::{
    debug_quoted, debug_str, extension_of, file_name_of, is_verbatim_path, name_extension, owned,
    plain_path,
    ascii_lower, ascii_lower_chars, chars_eq, concat2, concat3, find_str, find_sub, from_chars,
    slice_chars, strip_leading, strip_leading_chars, to_chars,
};

verus! {

/// The API path prefix of uploaded images.
pub open spec fn images_prefix() -> Seq<char> {
    "/api/v2/images/"@
}

/// The `/api/v2/images/{uuid}` path a reference resolves to.
pub open spec fn image_path(reference: Seq<char>) -> Seq<char> {
    if reference.len() > 0 && reference[0] == '/' {
        reference
    } else {
        match find_str(reference, images_prefix()) {
            Some(i) => reference.skip(i),
            None => images_prefix() + reference,
        }
    }
}

/// Resolves a user-supplied image reference to the `/api/v2/images/{uuid}`
/// path: accepts a bare UUID, a `content_url`-style path, or a full URL.
pub fn resolve_image_path(reference: &str) -> (r: String)
    ensures
        r@ == image_path(reference@),
{
    let v = to_chars(reference);
    if v.len() > 0 && v[0] == '/' {
        return from_chars(&v);
    }
    let prefix = to_chars("/api/v2/images/");
    match find_sub(&v, &prefix) {
        Some(i) => {
            let tail = slice_chars(&v, i, v.len());
            assert(tail@ =~= v@.skip(i as int));
            from_chars(&tail)
        },
        None => concat2("/api/v2/images/", reference),
    }
}

/// Why an image format was refused.
#[derive(Debug, PartialEq, Eq)]
pub enum FormatError {
    /// The (normalized) format is not one of png, jpeg, jpg, gif.
    Unsupported(String),
    /// No `--format` was given and the file name has no extension.
    NotInferable(String),
}

impl FormatError {
    /// The user-facing message; the format or file is written as Rust's
    /// `Debug` writes a string.
    pub fn to_string(&self) -> (r: String)
        ensures
            r@ == match self {
                FormatError::Unsupported(f) => "unsupported image format "@ + debug_quoted(f@)
                    + "; supported formats: png, jpeg, jpg, gif"@,
                FormatError::NotInferable(f) => "could not infer image format from "@
                    + debug_quoted(f@) + "; pass --format explicitly"@,
            },
    {
        match self {
            FormatError::Unsupported(f) => concat3(
                "unsupported image format ",
                debug_str(f.as_str()).as_str(),
                "; supported formats: png, jpeg, jpg, gif",
            ),
            FormatError::NotInferable(f) => concat3(
                "could not infer image format from ",
                debug_str(f.as_str()).as_str(),
                "; pass --format explicitly",
            ),
        }
    }
}

/// The formats the upload endpoint accepts.
pub open spec fn supported_format(f: Seq<char>) -> bool {
    f == "png"@ || f == "jpeg"@ || f == "jpg"@ || f == "gif"@
}

/// A format with its leading dots removed, in ASCII lowercase.
pub open spec fn format_key(raw: Seq<char>) -> Seq<char> {
    ascii_lower(strip_leading(raw, '.'))
}

/// Normalizes a format name (`.PNG` becomes `png`) and accepts only the supported ones.
pub fn normalize_format(raw: &str) -> (r: Result<String, FormatError>)
    ensures
        match r {
            Ok(f) => supported_format(format_key(raw@)) && f@ == format_key(raw@),
            Err(e) => !supported_format(format_key(raw@)) && e is Unsupported && e->Unsupported_0@
                == format_key(raw@),
        },
{
    let v = to_chars(raw);
    let stripped = strip_leading_chars(&v, '.');
    let lower = ascii_lower_chars(&stripped);
    if chars_eq(&lower, &to_chars("png")) || chars_eq(&lower, &to_chars("jpeg")) || chars_eq(
        &lower,
        &to_chars("jpg"),
    ) || chars_eq(&lower, &to_chars("gif")) {
        Ok(from_chars(&lower))
    } else {
        Err(FormatError::Unsupported(from_chars(&lower)))
    }
}

/// The extension std's `Path::extension` finds in a path, as a string: none
/// when the path has no `.`; otherwise, outside Windows verbatim paths, what
/// follows the last `.` of its file name (see [`file_name_of`] and
/// [`extension_of`]). A path that is one plain component (see
/// [`plain_path`]) is its own file name, and its extension is the one
/// `Path::extension` documents (see [`name_extension`]).
#[verifier::external_body]
fn path_extension(file: &str) -> (r: Option<String>)
    ensures
        !file@.contains('.') ==> r is None,
        plain_path(file@) ==> (r is Some <==> name_extension(file@) is Some),
        plain_path(file@) ==> (r is Some ==> name_extension(file@) == Some(r->0@)),
        !is_verbatim_path(file@) ==> (r matches Some(e) ==> exists|n: Seq<char>|
            file_name_of(file@, n) && extension_of(n, e@)),
{
    std::path::Path::new(file).extension().and_then(|ext| ext.to_str()).map(|ext| ext.to_string())
}

/// What normalizing `raw` gives (see [`normalize_format`]): the format, or
/// the refused key.
pub open spec fn normalized(raw: Seq<char>, r: Result<String, FormatError>) -> bool {
    match r {
        Ok(f) => supported_format(format_key(raw)) && f@ == format_key(raw),
        Err(e) => !supported_format(format_key(raw)) && e is Unsupported && e->Unsupported_0@
            == format_key(raw),
    }
}

/// The format of an image: the explicit `--format` if given, else the file's
/// extension, normalized by [`normalize_format`]; refused as not inferable
/// when the file has no extension.
pub fn infer_format(file: &str, format: Option<&str>) -> (r: Result<String, FormatError>)
    ensures
        format matches Some(explicit) ==> normalized(explicit@, r),
        format is None ==> (r matches Err(FormatError::NotInferable(f)) ==> f@ == file@),
        format is None && !file@.contains('.') ==> r matches Err(FormatError::NotInferable(f)),
        format is None && plain_path(file@) ==> match name_extension(file@) {
            Some(e) => normalized(e, r),
            None => r matches Err(FormatError::NotInferable(f)),
        },
        format is None && !is_verbatim_path(file@) && !(r matches Err(FormatError::NotInferable(_)))
            ==> exists|n: Seq<char>, e: Seq<char>|
            file_name_of(file@, n) && extension_of(n, e) && normalized(e, r),
{
    if let Some(explicit) = format {
        return normalize_format(explicit);
    }
    match path_extension(file) {
        Some(ext) => normalize_format(ext.as_str()),
        None => Err(FormatError::NotInferable(String::from_str(file))),
    }
}

/// The MIME type of a supported format.
pub fn mime_for(format: &str) -> (r: &'static str)
    requires
        supported_format(format@),
    ensures
        format@ == "png"@ ==> r@ == "image/png"@,
        format@ == "jpeg"@ ==> r@ == "image/jpeg"@,
        format@ == "jpg"@ ==> r@ == "image/jpg"@,
        format@ == "gif"@ ==> r@ == "image/gif"@,
{
    proof {
        reveal_strlit("png");
        reveal_strlit("jpeg");
        reveal_strlit("jpg");
        reveal_strlit("gif");
        assert("png"@[0] != "jpeg"@[0] && "png"@[0] != "jpg"@[0] && "png"@[0] != "gif"@[0]);
        assert("jpeg"@.len() != "jpg"@.len() && "jpeg"@[0] != "gif"@[0]);
        assert("jpg"@[0] != "gif"@[0]);
    }
    let v = to_chars(format);
    if chars_eq(&v, &to_chars("png")) {
        "image/png"
    } else if chars_eq(&v, &to_chars("jpeg")) {
        "image/jpeg"
    } else if chars_eq(&v, &to_chars("jpg")) {
        "image/jpg"
    } else {
        "image/gif"
    }
}

/// Why an upload stopped.
#[derive(Debug, PartialEq, Eq)]
pub enum UploadError {
    /// The upload request's response has no `/data/attributes`; it holds the
    /// response's JSON text.
    UnexpectedResponse(String),
    /// The attributes lack a string `upload_url`.
    MissingUploadUrl,
    /// The attributes lack a string `img_uuid`.
    MissingImageId,
    /// Storage answered the upload with an HTTP status other than success.
    HttpStatus { status: String, body: String },
    /// The upload of the bytes could not be sent.
    Transport(String),
}

/// The user-facing message of an upload error.
pub open spec fn upload_error_text(e: UploadError) -> Seq<char> {
    match e {
        UploadError::UnexpectedResponse(t) => "unexpected image upload response: "@ + t@,
        UploadError::MissingUploadUrl => "image upload response missing upload_url"@,
        UploadError::MissingImageId => "image upload response missing img_uuid"@,
        UploadError::HttpStatus { status, body } => "uploading image bytes failed (HTTP "@ + status@
            + "): "@ + body@,
        UploadError::Transport(e) => "uploading image bytes failed: "@ + e@,
    }
}

impl UploadError {
    /// The user-facing message (see [`upload_error_text`]).
    pub fn to_string(&self) -> (r: String)
        ensures
            r@ == upload_error_text(*self),
    {
        match self {
            UploadError::UnexpectedResponse(t) => concat2("unexpected image upload response: ", t.as_str()),
            UploadError::MissingUploadUrl => owned("image upload response missing upload_url"),
            UploadError::MissingImageId => owned("image upload response missing img_uuid"),
            UploadError::HttpStatus { status, body } => {
                let head = concat3("uploading image bytes failed (HTTP ", status.as_str(), "): ");
                concat2(head.as_str(), body.as_str())
            },
            UploadError::Transport(e) => concat2("uploading image bytes failed: ", e.as_str()),
        }
    }
}

/// The attributes of the upload request's body: the image format.
pub open spec fn upload_request_attributes(format: Seq<char>) -> JsonV {
    JsonV::Object(seq![("img_format"@, JsonV::Str(format))])
}

/// The attributes of the upload request (see [`upload_request_attributes`]).
pub fn upload_request(format: &str) -> (r: Json)
    ensures
        jv(r) == upload_request_attributes(format@),
{
    jobj(entries1("img_format", Json::Str(owned(format))))
}

/// Where the bytes go and the image's id, read from `/data/attributes` of the
/// upload request's response; else the message of the error. `text` is that
/// response as JSON text.
pub open spec fn upload_target_spec(created: JsonV, text: Seq<char>) -> Result<(Seq<char>, Seq<char>), Seq<char>> {
    match vget(created, "data"@) {
        Some(d) => match vget(d, "attributes"@) {
            Some(a) => match str_at(a, "upload_url"@) {
                None => Err("image upload response missing upload_url"@),
                Some(url) => match str_at(a, "img_uuid"@) {
                    None => Err("image upload response missing img_uuid"@),
                    Some(id) => Ok((url, id)),
                },
            },
            None => Err("unexpected image upload response: "@ + text),
        },
        None => Err("unexpected image upload response: "@ + text),
    }
}

fn str_member(j: &Json, key: &str) -> (r: Option<String>)
    ensures
        match r {
            Some(s) => str_at(jv(*j), key@) == Some(s@),
            None => str_at(jv(*j), key@) is None,
        },
{
    match get(j, key) {
        Some(Json::Str(s)) => Some(s.clone()),
        _ => None,
    }
}

/// The upload URL and image id of an upload request's response (see
/// [`upload_target_spec`]).
pub fn upload_target(created: &Json, text: &str) -> (r: Result<(String, String), UploadError>)
    ensures
        match upload_target_spec(jv(*created), text@) {
            Ok((url, id)) => r matches Ok((u, i)) && u@ == url && i@ == id,
            Err(m) => r matches Err(e) && upload_error_text(e) == m,
        },
{
    let attrs = match get(created, "data") {
        Some(d) => match get(d, "attributes") {
            Some(a) => a,
            None => {
                return Err(UploadError::UnexpectedResponse(owned(text)));
            },
        },
        None => {
            return Err(UploadError::UnexpectedResponse(owned(text)));
        },
    };
    let url = match str_member(attrs, "upload_url") {
        Some(u) => u,
        None => {
            return Err(UploadError::MissingUploadUrl);
        },
    };
    let id = match str_member(attrs, "img_uuid") {
        Some(i) => i,
        None => {
            return Err(UploadError::MissingImageId);
        },
    };
    Ok((url, id))
}

/// The path that reports how the upload of an image went.
pub fn image_status_path(img_uuid: &str) -> (r: String)
    ensures
        r@ == "/api/ui/image_status/"@ + img_uuid@,
{
    concat2("/api/ui/image_status/", img_uuid)
}

/// The attributes of the status report: `success` or `failure`.
pub fn image_status_attributes(succeeded: bool) -> (r: Json)
    ensures
        jv(r) == JsonV::Object(seq![("status"@, JsonV::Str(if succeeded { "success"@ } else { "failure"@ }))]),
{
    jobj(entries1("status", Json::Str(owned(if succeeded { "success" } else { "failure" }))))
}

/// What an upload shows once stored: the image id, its format and the path of
/// its content.
pub open spec fn uploaded_image(img_uuid: Seq<char>, format: Seq<char>) -> JsonV {
    JsonV::Object(seq![
        ("img_uuid"@, JsonV::Str(img_uuid)),
        ("img_format"@, JsonV::Str(format)),
        ("content_url"@, JsonV::Str(images_prefix() + img_uuid)),
    ])
}

/// The result of a stored upload (see [`uploaded_image`]).
pub fn upload_result(img_uuid: &str, format: &str) -> (r: Json)
    ensures
        jv(r) == uploaded_image(img_uuid@, format@),
{
    let mut es = entries1("img_uuid", Json::Str(owned(img_uuid)));
    push_member(&mut es, "img_format", Json::Str(owned(format)));
    push_member(&mut es, "content_url", Json::Str(concat2("/api/v2/images/", img_uuid)));
    assert(jentries(es@) =~= uploaded_image(img_uuid@, format@)->Object_0);
    jobj(es)
}

/// How the upload of the bytes to storage went: a response, with whether its
/// status is a success, the status as text and the body; or the error that
/// kept the request from being sent.
pub enum PutOutcome {
    Response { success: bool, status: String, body: String },
    Failed(String),
}

/// Whether the bytes were stored.
pub fn put_succeeded(o: &PutOutcome) -> (r: bool)
    ensures
        r == (*o matches PutOutcome::Response { success, .. } && success),
{
    match o {
        PutOutcome::Response { success, .. } => *success,
        PutOutcome::Failed(_) => false,
    }
}

/// The error an upload stops with after storage answered, if any.
pub fn put_result(o: PutOutcome) -> (r: Result<(), UploadError>)
    ensures
        match o {
            PutOutcome::Response { success, status, body } => if success {
                r is Ok
            } else {
                r == Err::<(), UploadError>(UploadError::HttpStatus { status, body })
            },
            PutOutcome::Failed(e) => r == Err::<(), UploadError>(UploadError::Transport(e)),
        },
{
    match o {
        PutOutcome::Response { success, status, body } => if success {
            Ok(())
        } else {
            Err(UploadError::HttpStatus { status, body })
        },
        PutOutcome::Failed(e) => Err(UploadError::Transport(e)),
    }
}

} // verus!
