//! `send`: caption resolution (BODY, `--text` or stdin) and attachment
//! loading, validated before any network call.

use vstd::prelude::*;
use vstd::string::*;
use crate::discord::api::{bytes_content, bytes_from_vec, FilePart};
use crate::discord::error::{plain_error, AppError, ErrorKind};
use crate::text::{decimal, str_eq, u64_to_decimal};

verus! {

#[verifier::external_type_specification]
#[verifier::external_body]
pub struct ExIoError(std::io::Error);

/// Discord rejects empty messages and caps content at 2000 codepoints.
pub const MAX_BODY_CHARS: usize = 2000;

/// Discord allows at most 10 attachments per message.
pub const MAX_FILES: usize = 10;

/// Files are read fully into memory before upload; this bounds one file.
pub const MAX_FILE_BYTES: usize = 100 * 1024 * 1024;

/// The text of an I/O error (`Display for std::io::Error`). What it says
/// depends on the operating system, so nothing is stated of it.
#[verifier::external_body]
fn io_error_text(e: &std::io::Error) -> String {
    e.to_string()
}

/// The message of a body rejected for length.
pub open spec fn too_long_message(len: nat) -> Seq<char> {
    "message body exceeds 2000 characters (got "@ + decimal(len) + ")"@
}

/// What validating a caption answers: an empty caption is refused unless
/// files carry the message, and no caption may exceed 2000 characters.
pub open spec fn body_verdict(content: Seq<char>, has_files: bool, r: Result<(), AppError>) -> bool {
    if content.len() == 0 && !has_files {
        r matches Err(e) && plain_error(ErrorKind::Usage, "message body must not be empty"@, e)
    } else if content.len() > MAX_BODY_CHARS {
        r matches Err(e) && plain_error(ErrorKind::Usage, too_long_message(content.len()), e)
    } else {
        r is Ok
    }
}

pub fn validate_body(content: &str, has_files: bool) -> (r: Result<(), AppError>)
    ensures
        body_verdict(content@, has_files, r),
{
    let len = content.unicode_len();
    if len == 0 && !has_files {
        return Err(AppError::new(ErrorKind::Usage, "message body must not be empty"));
    }
    if len > MAX_BODY_CHARS {
        let mut message = String::new();
        message.append("message body exceeds 2000 characters (got ");
        message.append(u64_to_decimal(len as u64).as_str());
        message.append(")");
        return Err(AppError::with_message(ErrorKind::Usage, message));
    }
    Ok(())
}

/// An error whose message starts with `prefix`.
pub open spec fn error_with_prefix(kind: ErrorKind, prefix: Seq<char>, e: AppError) -> bool {
    &&& e.kind == kind
    &&& e.http_status is None
    &&& e.retry_after_ms is None
    &&& prefix.len() <= e.message@.len()
    &&& e.message@.subrange(0, prefix.len() as int) == prefix
}

/// Reads stdin through `read_stdin`, mapping an I/O failure to an internal
/// error.
pub fn read_stdin_to_string(read_stdin: impl FnOnce() -> std::io::Result<String>) -> (r: Result<String, AppError>)
    requires
        call_requires(read_stdin, ()),
    ensures
        exists|res: std::io::Result<String>| {
            &&& call_ensures(read_stdin, (), res)
            &&& match res {
                Ok(s) => r == Ok::<String, AppError>(s),
                Err(_) => r matches Err(e) && error_with_prefix(ErrorKind::Internal, "failed to read stdin: "@, e),
            }
        },
{
    let res = read_stdin();
    match res {
        Ok(s) => Ok(s),
        Err(e) => {
            let mut message = String::new();
            message.append("failed to read stdin: ");
            let ghost prefix = message@;
            message.append(io_error_text(&e).as_str());
            assert(message@.subrange(0, prefix.len() as int) =~= prefix);
            Err(AppError::with_message(ErrorKind::Internal, message))
        },
    }
}

/// Whether the caption comes from stdin: no `--text`, and BODY is `-`, or
/// BODY is absent and no file carries the message.
pub open spec fn reads_stdin(body: Option<Seq<char>>, text: Option<Seq<char>>, has_files: bool) -> bool {
    text is None && (body == Some("-"@) || (body is None && !has_files))
}

/// The caption when it does not come from stdin.
pub open spec fn direct_caption(body: Option<Seq<char>>, text: Option<Seq<char>>) -> Seq<char> {
    match text {
        Some(t) => t,
        None => match body {
            Some(b) => b,
            None => Seq::empty(),
        },
    }
}

/// `content` validated into the caption result.
pub open spec fn caption_verdict(content: Seq<char>, has_files: bool, r: Result<String, AppError>) -> bool {
    if content.len() == 0 && !has_files {
        r matches Err(e) && plain_error(ErrorKind::Usage, "message body must not be empty"@, e)
    } else if content.len() > MAX_BODY_CHARS {
        r matches Err(e) && plain_error(ErrorKind::Usage, too_long_message(content.len()), e)
    } else {
        r matches Ok(c) && c@ == content
    }
}

pub open spec fn opt_view(o: Option<&str>) -> Option<Seq<char>> {
    match o {
        Some(s) => Some(s@),
        None => None,
    }
}

/// What resolving the caption answers: BODY together with `--text` is a
/// usage error; otherwise the caption from `--text`, BODY or stdin (see
/// [`reads_stdin`]) is validated, and a failed stdin read is an internal
/// error.
pub open spec fn caption_outcome<F: FnOnce() -> std::io::Result<String>>(
    body: Option<Seq<char>>,
    text: Option<Seq<char>>,
    has_files: bool,
    read_stdin: F,
    r: Result<String, AppError>,
) -> bool {
    if body is Some && text is Some {
        r matches Err(e) && plain_error(ErrorKind::Usage, "BODY and --text are mutually exclusive; pass only one"@, e)
    } else if !reads_stdin(body, text, has_files) {
        caption_verdict(direct_caption(body, text), has_files, r)
    } else {
        exists|res: std::io::Result<String>| {
            &&& call_ensures(read_stdin, (), res)
            &&& match res {
                Ok(s) => caption_verdict(s@, has_files, r),
                Err(_) => r matches Err(e) && error_with_prefix(ErrorKind::Internal, "failed to read stdin: "@, e),
            }
        }
    }
}

/// Resolves the outgoing caption. BODY and `--text` are mutually exclusive
/// and the 2000-character cap always applies. With attachments an empty
/// caption is allowed and stdin is not read; without them an empty caption
/// is refused and stdin is read when BODY is absent or `-`.
pub fn resolve_send_content(
    body: Option<&str>,
    text: Option<&str>,
    has_files: bool,
    read_stdin: impl FnOnce() -> std::io::Result<String>,
) -> (r: Result<String, AppError>)
    requires
        call_requires(read_stdin, ()),
    ensures
        caption_outcome(opt_view(body), opt_view(text), has_files, read_stdin, r),
{
    if body.is_some() && text.is_some() {
        return Err(AppError::new(ErrorKind::Usage, "BODY and --text are mutually exclusive; pass only one"));
    }
    let content = match text {
        Some(t) => t.to_owned(),
        None => match body {
            Some(b) => {
                if str_eq(b, "-") {
                    match read_stdin_to_string(read_stdin) {
                        Ok(s) => s,
                        Err(e) => return Err(e),
                    }
                } else {
                    b.to_owned()
                }
            },
            None => {
                if has_files {
                    String::new()
                } else {
                    match read_stdin_to_string(read_stdin) {
                        Ok(s) => s,
                        Err(e) => return Err(e),
                    }
                }
            },
        },
    };
    match validate_body(content.as_str(), has_files) {
        Ok(()) => Ok(content),
        Err(e) => Err(e),
    }
}

/// The last component of `path`, as `std::path::Path::file_name` reads it
/// (lossily decoded).
pub uninterp spec fn path_file_name(path: Seq<char>) -> Option<Seq<char>>;

/// `std::path::Path::file_name`, decoded lossily to a `String`.
#[verifier::external_body]
fn path_file_name_of(path: &str) -> (r: Option<String>)
    ensures
        match r {
            Some(n) => path_file_name(path@) == Some(n@),
            None => path_file_name(path@) is None,
        },
{
    std::path::Path::new(path).file_name().map(|name| name.to_string_lossy().into_owned())
}

/// The MIME type `mime_guess` guesses from a file name's extension, with
/// `application/octet-stream` as the fallback.
pub uninterp spec fn guessed_content_type(filename: Seq<char>) -> Seq<char>;

/// `mime_guess::from_path(filename).first_or_octet_stream()`, rendered. A
/// name without a `.` has no extension, so the guess falls back to
/// `application/octet-stream`.
#[verifier::external_body]
fn guess_content_type(filename: &str) -> (r: String)
    ensures
        r@ == guessed_content_type(filename@),
        !filename@.contains('.') ==> r@ == "application/octet-stream"@,
{
    mime_guess::from_path(filename).first_or_octet_stream().to_string()
}

/// The name Discord shows for an upload: the last path component, or the
/// whole path when it has none.
pub open spec fn upload_name(path: Seq<char>) -> Seq<char> {
    match path_file_name(path) {
        Some(n) => n,
        None => path,
    }
}

/// The last path component — viewers should see the file's name, not the
/// caller's full local path.
pub fn file_name_of(path: &str) -> (r: String)
    ensures
        r@ == upload_name(path@),
{
    match path_file_name_of(path) {
        Some(name) => name,
        None => path.to_owned(),
    }
}

/// `part` is the upload built from `contents` read at `path`.
pub open spec fn part_of(path: Seq<char>, contents: Seq<u8>, part: FilePart) -> bool {
    &&& part.filename@ == upload_name(path)
    &&& part.content_type@ == guessed_content_type(part.filename@)
    &&& bytes_content(part.bytes) == contents
}

/// What loading the file at `path` answers when the read gave `res`.
pub open spec fn file_verdict(path: Seq<char>, res: std::io::Result<Vec<u8>>, r: Result<FilePart, AppError>) -> bool {
    match res {
        Err(_) => r matches Err(e) && error_with_prefix(ErrorKind::Usage, "cannot read file '"@ + path + "': "@, e),
        Ok(v) => if v@.len() == 0 {
            r matches Err(e) && plain_error(ErrorKind::Usage, "file '"@ + path + "' is empty; nothing to upload"@, e)
        } else if v@.len() > MAX_FILE_BYTES {
            r matches Err(e) && plain_error(
                ErrorKind::Usage,
                "file '"@ + path + "' exceeds 104857600 bytes (got "@ + decimal(v@.len()) + ")"@,
                e,
            )
        } else {
            r matches Ok(part) && part_of(path, v@, part)
        },
    }
}

fn load_file<F: Fn(&str) -> std::io::Result<Vec<u8>>>(path: &str, read_file: &F) -> (r: Result<FilePart, AppError>)
    requires
        forall|p: &str| call_requires(*read_file, (p,)),
    ensures
        exists|res: std::io::Result<Vec<u8>>| call_ensures(*read_file, (path,), res) && file_verdict(path@, res, r),
{
    let res = read_file(path);
    let ghost res_g = res;
    assert(call_ensures(*read_file, (path,), res_g));
    match res {
        Err(e) => {
            let mut message = String::new();
            message.append("cannot read file '");
            message.append(path);
            message.append("': ");
            let ghost prefix = message@;
            message.append(io_error_text(&e).as_str());
            assert(message@.subrange(0, prefix.len() as int) =~= prefix);
            let r = Err(AppError::with_message(ErrorKind::Usage, message));
            assert(file_verdict(path@, res_g, r));
            r
        },
        Ok(bytes) => {
            if bytes.len() == 0 {
                let mut message = String::new();
                message.append("file '");
                message.append(path);
                message.append("' is empty; nothing to upload");
                assert(message@ =~= "file '"@ + path@ + "' is empty; nothing to upload"@);
                let r = Err(AppError::with_message(ErrorKind::Usage, message));
                assert(res_g == Ok::<Vec<u8>, std::io::Error>(bytes));
                assert(file_verdict(path@, res_g, r));
                return r;
            }
            if bytes.len() > MAX_FILE_BYTES {
                let mut message = String::new();
                message.append("file '");
                message.append(path);
                message.append("' exceeds 104857600 bytes (got ");
                message.append(u64_to_decimal(bytes.len() as u64).as_str());
                message.append(")");
                assert(message@ =~= "file '"@ + path@ + "' exceeds 104857600 bytes (got "@ + decimal(bytes@.len()) + ")"@);
                let r = Err(AppError::with_message(ErrorKind::Usage, message));
                assert(res_g == Ok::<Vec<u8>, std::io::Error>(bytes));
                assert(file_verdict(path@, res_g, r));
                return r;
            }
            let filename = file_name_of(path);
            let content_type = guess_content_type(filename.as_str());
            let ghost contents = bytes@;
            let r = Ok(FilePart { filename, bytes: bytes_from_vec(bytes), content_type });
            assert(file_verdict(path@, res_g, r));
            r
        },
    }
}

/// Reads and validates one attachment path. Every failure is a usage error
/// naming the path, caught before any network call.
pub fn resolve_file(path: &str, read_file: impl Fn(&str) -> std::io::Result<Vec<u8>>) -> (r: Result<FilePart, AppError>)
    requires
        forall|p: &str| call_requires(read_file, (p,)),
    ensures
        exists|res: std::io::Result<Vec<u8>>| call_ensures(read_file, (path,), res) && file_verdict(path@, res, r),
{
    load_file(path, &read_file)
}

/// The message for too many attachments.
pub open spec fn too_many_files_message(count: nat) -> Seq<char> {
    "at most 10 files per message (got "@ + decimal(count) + ")"@
}

/// File `i` of `paths` was read into a valid upload `part`.
pub open spec fn loaded<F: Fn(&str) -> std::io::Result<Vec<u8>>>(read_file: F, path: Seq<char>, part: FilePart) -> bool {
    exists|p: &str, v: Vec<u8>| p@ == path && call_ensures(read_file, (p,), Ok::<Vec<u8>, std::io::Error>(v)) && part_of(path, v@, part)
}

/// What loading the attachments answers: more than ten paths is a usage
/// error; otherwise every file is loaded in order, and the result is either
/// all of them or the verdict of one that failed.
pub open spec fn files_outcome<F: Fn(&str) -> std::io::Result<Vec<u8>>>(
    file_paths: Seq<String>,
    read_file: F,
    r: Result<Vec<FilePart>, AppError>,
) -> bool {
    if file_paths.len() > MAX_FILES {
        r matches Err(e) && plain_error(ErrorKind::Usage, too_many_files_message(file_paths.len()), e)
    } else {
        match r {
            Ok(parts) => {
                &&& parts@.len() == file_paths.len()
                &&& forall|i: int| 0 <= i < parts@.len() ==> loaded(read_file, file_paths[i]@, #[trigger] parts@[i])
            },
            Err(e) => exists|i: int, p: &str, res: std::io::Result<Vec<u8>>| {
                &&& 0 <= i < file_paths.len()
                &&& p@ == file_paths[i]@
                &&& call_ensures(read_file, (p,), res)
                &&& file_verdict(file_paths[i]@, res, Err(e))
            },
        }
    }
}

/// Reads and validates each attachment path, in order, stopping at the
/// first failure.
pub fn resolve_files<F: Fn(&str) -> std::io::Result<Vec<u8>>>(file_paths: &[String], read_file: F) -> (r: Result<Vec<FilePart>, AppError>)
    requires
        forall|p: &str| call_requires(read_file, (p,)),
    ensures
        files_outcome(file_paths@, read_file, r),
{
    let count = file_paths.len();
    if count > MAX_FILES {
        let mut message = String::new();
        message.append("at most 10 files per message (got ");
        message.append(u64_to_decimal(count as u64).as_str());
        message.append(")");
        return Err(AppError::with_message(ErrorKind::Usage, message));
    }
    let mut parts: Vec<FilePart> = Vec::new();
    let mut i: usize = 0;
    while i < count
        invariant
            count == file_paths@.len(),
            i <= count,
            count <= MAX_FILES,
            parts@.len() == i,
            forall|p: &str| call_requires(read_file, (p,)),
            forall|j: int| 0 <= j < i ==> loaded(read_file, file_paths@[j]@, #[trigger] parts@[j]),
        decreases count - i,
    {
        let path = file_paths[i].as_str();
        let loaded_part = load_file(path, &read_file);
        match loaded_part {
            Ok(part) => {
                proof {
                    let res = choose|res: std::io::Result<Vec<u8>>| call_ensures(read_file, (path,), res) && file_verdict(path@, res, Ok::<FilePart, AppError>(part));
                    assert(res is Ok);
                }
                parts.push(part);
            },
            Err(e) => {
                return Err(e);
            },
        }
        i = i + 1;
    }
    Ok(parts)
}

} // verus!
