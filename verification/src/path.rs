//! Paths of files: carried through as they are, and asked a few questions
//! by way of `std::path`.

use std::path::PathBuf;
use vstd::prelude::*;
use vstd::utf8::encode_utf8;

verus! {

#[verifier::external_type_specification]
#[verifier::external_body]
pub struct ExPathBuf(PathBuf);

/// `PathBuf::clone` returns a path equal to the one it was given.
pub assume_specification[ <PathBuf as Clone>::clone ](path: &PathBuf) -> (copy: PathBuf)
    ensures
        copy == *path,
;

/// The bytes of a path, as the platform encodes them.
pub uninterp spec fn path_bytes(path: PathBuf) -> Seq<u8>;

/// The path that `Path::parent` gives for a path, both by their bytes;
/// `None` where it gives none.
pub uninterp spec fn parent_path(path: Seq<u8>) -> Option<Seq<u8>>;

/// The text that `Path::display` shows for a path with these bytes.
pub uninterp spec fn path_shown(path: Seq<u8>) -> Seq<char>;

/// The path that `Path::with_extension` makes of a path and an extension,
/// both paths by their bytes.
pub uninterp spec fn with_extension(path: Seq<u8>, extension: Seq<char>) -> Seq<u8>;

/// The bytes of an optional path.
pub open spec fn opt_bytes(path: Option<PathBuf>) -> Option<Seq<u8>> {
    match path {
        Some(p) => Some(path_bytes(p)),
        None => None,
    }
}

/// `Path::parent`: the path without its final component, if there is one.
#[verifier::external_body]
pub(crate) fn parent_dir(file: &PathBuf) -> (r: Option<PathBuf>)
    ensures
        opt_bytes(r) == parent_path(path_bytes(*file)),
{
    file.parent().map(std::path::Path::to_path_buf)
}

/// `PathBuf::from` on a string slice: the path written as `text`, whose
/// bytes are those of the text in UTF-8.
#[verifier::external_body]
pub(crate) fn path_from(text: &str) -> (r: PathBuf)
    ensures
        path_bytes(r) == encode_utf8(text@),
{
    PathBuf::from(text)
}

/// `Path::display`, written out as a string.
#[verifier::external_body]
pub(crate) fn path_text(path: &PathBuf) -> (r: String)
    ensures
        r@ == path_shown(path_bytes(*path)),
{
    format!("{}", path.display())
}

/// Whether a text holds no path separator of any platform.
pub open spec fn has_no_separator(text: Seq<char>) -> bool {
    forall|i: int| 0 <= i < text.len() ==> text[i] != '/' && text[i] != '\\'
}

/// `Path::with_extension`: the path with its extension set to `extension`.
/// It panics on an extension that holds a path separator, so none is
/// admitted.
#[verifier::external_body]
pub(crate) fn replace_extension(path: &PathBuf, extension: &str) -> (r: PathBuf)
    requires
        has_no_separator(extension@),
    ensures
        path_bytes(r) == with_extension(path_bytes(*path), extension@),
{
    path.with_extension(extension)
}

} // verus!
