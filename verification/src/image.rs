//! Images of a project: what kind of image a file holds, going by its name,
//! and images as text, in base64.

use vstd::prelude::*;
use crate::projects::paths::{joined, ProjectPaths};
use crate::projects::scenes::{ascii_lower, to_ascii_lower};
use crate::text::{after_last, decimal, find_after_last, push_decimal, to_chars};

verus! {

/// Length of the longest input whose base64 form can be addressed.
pub open spec fn max_encodable() -> int {
    (usize::MAX / 4 - 1) * 3
}

/// The standard base64 form of `bytes`, with padding.
pub uninterp spec fn base64_encoded(bytes: Seq<u8>) -> Seq<char>;

/// Why a text is no base64: the variants are those of the decoder, with the
/// offsets and symbols it reports.
#[derive(Debug, Clone, Copy, PartialEq, Eq, Structural)]
pub enum DecodeFailure {
    /// A symbol that base64 does not have, at this offset.
    InvalidByte(usize, u8),
    /// A number of symbols that no encoding has.
    InvalidLength(usize),
    /// A last symbol with bits that no encoding sets, at this offset.
    InvalidLastSymbol(usize, u8),
    /// Padding that is missing or not canonical.
    InvalidPadding,
}

/// What the standard base64 text `text` decodes to, or why it does not.
pub uninterp spec fn base64_decoded(text: Seq<char>) -> Result<Seq<u8>, DecodeFailure>;

/// `base64::Engine::encode` on the engine `STANDARD`: the result is named
/// [`base64_encoded`], nothing else is claimed of it. The call fails on an
/// input whose encoded length overflows, which the demand leaves out.
#[verifier::external_body]
fn encode_base64(bytes: &[u8]) -> (text: String)
    requires
        bytes@.len() <= max_encodable(),
    ensures
        text@ == base64_encoded(bytes@),
{
    base64::Engine::encode(&base64::engine::general_purpose::STANDARD, bytes)
}

/// `base64::Engine::decode` on the engine `STANDARD`: the result is named
/// [`base64_decoded`]; the decoder's error is handed on variant by variant.
#[verifier::external_body]
fn decode_base64(text: &str) -> (r: Result<Vec<u8>, DecodeFailure>)
    ensures
        match base64_decoded(text@) {
            Ok(bytes) => r is Ok && r->Ok_0@ == bytes,
            Err(e) => r == Err::<Vec<u8>, DecodeFailure>(e),
        },
{
    match base64::Engine::decode(&base64::engine::general_purpose::STANDARD, text) {
        Ok(bytes) => Ok(bytes),
        Err(base64::DecodeError::InvalidByte(at, b)) => Err(DecodeFailure::InvalidByte(at, b)),
        Err(base64::DecodeError::InvalidLength(n)) => Err(DecodeFailure::InvalidLength(n)),
        Err(base64::DecodeError::InvalidLastSymbol(at, b)) => Err(
            DecodeFailure::InvalidLastSymbol(at, b),
        ),
        Err(base64::DecodeError::InvalidPadding) => Err(DecodeFailure::InvalidPadding),
    }
}

/// The words for a decoding failure.
pub open spec fn decode_failure_text(e: DecodeFailure) -> Seq<char> {
    match e {
        DecodeFailure::InvalidByte(at, b) => "Invalid symbol "@ + decimal(b as nat) + ", offset "@
            + decimal(at as nat) + "."@,
        DecodeFailure::InvalidLength(n) => "Invalid input length: "@ + decimal(n as nat),
        DecodeFailure::InvalidLastSymbol(at, b) => "Invalid last symbol "@ + decimal(b as nat)
            + ", offset "@ + decimal(at as nat) + "."@,
        DecodeFailure::InvalidPadding => "Invalid padding"@,
    }
}

/// Builds [`decode_failure_text`].
pub fn decode_failure_message(e: DecodeFailure) -> (message: String)
    ensures
        message@ == decode_failure_text(e),
{
    match e {
        DecodeFailure::InvalidByte(at, b) => {
            let mut message = String::from_str("Invalid symbol ");
            push_decimal(&mut message, b as u128);
            message.append(", offset ");
            push_decimal(&mut message, at as u128);
            message.append(".");
            message
        },
        DecodeFailure::InvalidLength(n) => {
            let mut message = String::from_str("Invalid input length: ");
            push_decimal(&mut message, n as u128);
            message
        },
        DecodeFailure::InvalidLastSymbol(at, b) => {
            let mut message = String::from_str("Invalid last symbol ");
            push_decimal(&mut message, b as u128);
            message.append(", offset ");
            push_decimal(&mut message, at as u128);
            message.append(".");
            message
        },
        DecodeFailure::InvalidPadding => String::from_str("Invalid padding"),
    }
}

/// Name of the file that the path `path` leads to: what follows its last
/// separator.
pub open spec fn file_name_of(path: Seq<char>) -> Seq<char> {
    path.skip(after_last(path, '/', path.len() as int))
}

/// The extension of the file that `path` leads to: what follows the last dot
/// of its name, unless the name has no dot, or none but the one it starts
/// with, or is `..`.
pub open spec fn extension_of(path: Seq<char>) -> Option<Seq<char>> {
    let name = file_name_of(path);
    let dot = after_last(name, '.', name.len() as int);
    if dot <= 1 || name == ".."@ {
        None
    } else {
        Some(name.skip(dot))
    }
}

/// `s` in lower case as far as ASCII goes.
pub open spec fn lowered(s: Seq<char>) -> Seq<char> {
    s.map_values(|c: char| ascii_lower(c))
}

/// The kind of image that the file at `path` holds, going by its extension
/// without regard to case; PNG where the extension says nothing.
pub open spec fn mime_type_of(path: Seq<char>) -> Seq<char> {
    match extension_of(path) {
        Some(ext) => if lowered(ext) == "png"@ {
            "image/png"@
        } else if lowered(ext) == "jpg"@ || lowered(ext) == "jpeg"@ {
            "image/jpeg"@
        } else if lowered(ext) == "gif"@ {
            "image/gif"@
        } else if lowered(ext) == "webp"@ {
            "image/webp"@
        } else {
            "image/png"@
        },
        None => "image/png"@,
    }
}

/// The bounds of the extension of the path `chars`: see [`extension_of`].
fn extension_bounds(chars: &Vec<char>) -> (bounds: Option<(usize, usize)>)
    ensures
        match extension_of(chars@) {
            Some(ext) => bounds is Some && bounds->Some_0.0 <= bounds->Some_0.1 == chars@.len()
                && chars@.subrange(bounds->Some_0.0 as int, bounds->Some_0.1 as int) == ext,
            None => bounds is None,
        },
{
    let n = chars.len();
    let start = find_after_last(chars, '/', 0, n);
    let dot = find_after_last(chars, '.', start, n);
    proof {
        reveal_strlit("..");
        assert(chars@.subrange(0, n as int) =~= chars@);
        let name = file_name_of(chars@);
        assert(name =~= chars@.subrange(start as int, n as int));
        assert(name.skip(dot - start) =~= chars@.subrange(dot as int, n as int));
        if name.len() == 2 && name[0] == '.' && name[1] == '.' {
            assert(name =~= ".."@);
        }
    }
    if dot - start <= 1 {
        return None;
    }
    if n - start == 2 && chars[start] == '.' && chars[start + 1] == '.' {
        return None;
    }
    Some((dot, n))
}

/// Whether `chars[from..to]` is `pattern` but for the case of ASCII letters.
fn matches_lowered(chars: &Vec<char>, from: usize, to: usize, pattern: &str) -> (same: bool)
    requires
        from <= to <= chars.len(),
    ensures
        same == (lowered(chars@.subrange(from as int, to as int)) == pattern@),
{
    let wanted = to_chars(pattern);
    let ghost piece = lowered(chars@.subrange(from as int, to as int));
    if to - from != wanted.len() {
        return false;
    }
    let mut i: usize = 0;
    while i < wanted.len()
        invariant
            i <= wanted.len(),
            from <= to <= chars.len(),
            to - from == wanted.len(),
            wanted@ == pattern@,
            piece == lowered(chars@.subrange(from as int, to as int)),
            forall|k: int| 0 <= k < i ==> piece[k] == wanted@[k],
        decreases wanted.len() - i,
    {
        assert(piece[i as int] == ascii_lower(chars@[from + i]));
        if to_ascii_lower(chars[from + i]) != wanted[i] {
            return false;
        }
        i = i + 1;
    }
    assert(piece =~= wanted@);
    true
}

/// The kind of image that the file at `image_path` holds: see
/// [`mime_type_of`].
pub fn get_image_mime_type(image_path: &str) -> (mime: &'static str)
    ensures
        mime@ == mime_type_of(image_path@),
{
    let chars = to_chars(image_path);
    match extension_bounds(&chars) {
        Some((from, to)) => {
            if matches_lowered(&chars, from, to, "png") {
                "image/png"
            } else if matches_lowered(&chars, from, to, "jpg") || matches_lowered(
                &chars,
                from,
                to,
                "jpeg",
            ) {
                "image/jpeg"
            } else if matches_lowered(&chars, from, to, "gif") {
                "image/gif"
            } else if matches_lowered(&chars, from, to, "webp") {
                "image/webp"
            } else {
                "image/png"
            }
        },
        None => "image/png",
    }
}

/// An image as a data URL: its kind, then its contents in base64.
pub open spec fn data_url(image_path: Seq<char>, bytes: Seq<u8>) -> Seq<char> {
    "data:"@ + mime_type_of(image_path) + ";base64,"@ + base64_encoded(bytes)
}

/// The message for an image file that could not be read.
pub open spec fn read_failure_text(error: Seq<char>) -> Seq<char> {
    "Failed to read image file: "@ + error
}

/// The image at `image_path` as a data URL, from what reading the file gave:
/// its contents, or the reason why it could not be read.
pub fn read_image_as_data_url(image_path: &str, contents: Result<Vec<u8>, String>) -> (r: Result<
    String,
    String,
>)
    requires
        contents matches Ok(bytes) ==> bytes@.len() <= max_encodable(),
    ensures
        match contents {
            Ok(bytes) => r is Ok && r->Ok_0@ == data_url(image_path@, bytes@),
            Err(e) => r is Err && r->Err_0@ == read_failure_text(e@),
        },
{
    match contents {
        Err(e) => {
            let mut message = String::from_str("Failed to read image file: ");
            message.append(e.as_str());
            Err(message)
        },
        Ok(bytes) => {
            let mut url = String::from_str("data:");
            url.append(get_image_mime_type(image_path));
            url.append(";base64,");
            url.append(encode_base64(bytes.as_slice()).as_str());
            Ok(url)
        },
    }
}

/// Whether an input of `len` bytes can be encoded: see [`max_encodable`].
pub fn can_encode(len: usize) -> (fits: bool)
    ensures
        fits == (len <= max_encodable()),
{
    len <= (usize::MAX / 4 - 1) * 3
}

/// The path of the image `image_name` of the project at `project_path`, if
/// the image is there.
pub fn get_image_path(project_path: &str, image_name: &str, exists: bool) -> (r: Result<
    Option<String>,
    String,
>)
    ensures
        r is Ok,
        exists ==> r->Ok_0 is Some && r->Ok_0->Some_0@ == joined(
            joined(project_path@, "images"@),
            image_name@,
        ),
        !exists ==> r->Ok_0 is None,
{
    let paths = ProjectPaths::new(project_path);
    let image_path = paths.image_file(image_name);
    if exists {
        Ok(Some(image_path))
    } else {
        Ok(None)
    }
}

/// The message for image data that is no base64.
pub open spec fn decode_failed_text(e: DecodeFailure) -> Seq<char> {
    "Failed to decode base64 image: "@ + decode_failure_text(e)
}

/// An image that is to be saved: where, and what.
#[derive(Debug, Clone, PartialEq, Eq)]
pub struct ImageToSave {
    /// The directory of the project's images, which is made first.
    pub dir: String,
    /// The file of the image.
    pub path: String,
    /// The contents of the image.
    pub bytes: Vec<u8>,
}

/// What saving the image `image_name`, given in base64 as `image_data`,
/// comes to in the project `project`. A project that could not be found is
/// reported first, its error handed on; then data that is no base64.
pub fn save_image(project: Result<ProjectPaths, String>, image_name: &str, image_data: &str) -> (r:
    Result<ImageToSave, String>)
    ensures
        project is Err ==> r is Err && r->Err_0 == project->Err_0,
        project is Ok ==> match base64_decoded(image_data@) {
            Err(e) => r is Err && r->Err_0@ == decode_failed_text(e),
            Ok(bytes) => r is Ok && r->Ok_0.bytes@ == bytes && r->Ok_0.dir@ == joined(
                project->Ok_0@,
                "images"@,
            ) && r->Ok_0.path@ == joined(joined(project->Ok_0@, "images"@), image_name@),
        },
{
    let paths = match project {
        Ok(paths) => paths,
        Err(e) => {
            return Err(e);
        },
    };
    let bytes = match decode_base64(image_data) {
        Ok(bytes) => bytes,
        Err(e) => {
            let mut message = String::from_str("Failed to decode base64 image: ");
            message.append(decode_failure_message(e).as_str());
            return Err(message);
        },
    };
    Ok(ImageToSave { dir: paths.images_dir(), path: paths.image_file(image_name), bytes })
}

/// Whether an image of `current` width and height must be resized to have
/// the `target` width and height.
pub fn needs_resize(current: (u32, u32), target: (u32, u32)) -> (resize: bool)
    ensures
        resize == (current.0 != target.0 || current.1 != target.1),
{
    current.0 != target.0 || current.1 != target.1
}

} // verus!
