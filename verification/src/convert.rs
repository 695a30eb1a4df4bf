//! Config file formats: which format a path names, and the error type of loading and saving.
//! (Reading and writing files lives with the application.)
use vstd::prelude::*;

use crate::command::opt_view;
use crate::text::{is, lower_vec, lower, chars_of};

verus! {

/// Supported config file formats.
#[derive(Copy, Clone, Debug, PartialEq, Eq, Structural, PartialOrd, Ord)]
pub enum FileType {
    Toml,
    Json,
}

/// Error raised while saving/serializing or loading/deserializing a config, carrying a
/// human-readable message that includes the underlying cause.
#[derive(Debug)]
pub enum Error {
    Serialize(String),
    Deserialize(String),
}

impl Error {
    /// The error's message (its display form).
    pub fn message(&self) -> (r: String)
        ensures
            r@ == (match self {
                Error::Serialize(m) => m@,
                Error::Deserialize(m) => m@,
            }),
    {
        match self {
            Error::Serialize(m) => m.clone(),
            Error::Deserialize(m) => m.clone(),
        }
    }
}

/// The extension of the last component of `path` (the text after its last `.`, when that dot
/// is not the component's first character), as `std::path::Path::extension` computes it.
pub uninterp spec fn path_extension(path: Seq<char>) -> Option<Seq<char>>;

/// `std::path::Path::extension` of `path`, as a string.
#[verifier::external_body]
pub(crate) fn extension_of(path: &str) -> (r: Option<String>)
    ensures
        opt_view(r) == path_extension(path@),
{
    std::path::Path::new(path).extension().and_then(|e| e.to_str()).map(|e| e.to_string())
}

/// The format an extension names, compared without regard to ASCII case.
pub open spec fn spec_file_type_of_extension(ext: Option<Seq<char>>) -> Option<FileType> {
    match ext {
        Some(e) => if lower(e) == "toml"@ {
            Some(FileType::Toml)
        } else if lower(e) == "json"@ {
            Some(FileType::Json)
        } else {
            None
        },
        None => None,
    }
}

/// An extension names TOML exactly when it reads `toml` and JSON exactly when it reads `json`,
/// in any ASCII case; no other extension, and no missing one, names a format.
pub proof fn lemma_file_type_names(ext: Option<Seq<char>>)
    ensures
        (spec_file_type_of_extension(ext) == Some(FileType::Toml)) <==> (ext is Some && lower(
            ext->0,
        ) == "toml"@),
        (spec_file_type_of_extension(ext) == Some(FileType::Json)) <==> (ext is Some && lower(
            ext->0,
        ) == "json"@),
        ext is None ==> spec_file_type_of_extension(ext) is None,
        ext is Some ==> spec_file_type_of_extension(ext) == spec_file_type_of_extension(
            Some(lower(ext->0)),
        ),
{
    reveal_strlit("toml");
    reveal_strlit("json");
    assert("toml"@[0] != "json"@[0]);
    if ext is Some {
        let e = ext->0;
        assert(lower(lower(e)) =~= lower(e));
    }
}

/// The format an extension names (`toml` / `json`, any ASCII case), if any.
pub fn file_type_of_extension(ext: Option<&str>) -> (r: Option<FileType>)
    ensures
        r == spec_file_type_of_extension(
            match ext {
                Some(e) => Some(e@),
                None => None,
            },
        ),
{
    match ext {
        Some(e) => {
            let l = lower_vec(&chars_of(e));
            if is(&l, "toml") {
                Some(FileType::Toml)
            } else if is(&l, "json") {
                Some(FileType::Json)
            } else {
                None
            }
        },
        None => None,
    }
}

impl FileType {
    /// Infer the file type from a path's extension (`.toml` / `.json`, any case).
    pub fn from_path(path: &str) -> (r: Option<FileType>)
        ensures
            r == spec_file_type_of_extension(path_extension(path@)),
    {
        let ext = extension_of(path);
        match ext {
            Some(e) => file_type_of_extension(Some(e.as_str())),
            None => file_type_of_extension(None),
        }
    }
}

/// Namespace for file (de)serialization; its operations do file I/O and live with the
/// application.
pub struct Converter {}

} // verus!
