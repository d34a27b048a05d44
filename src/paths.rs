use vstd::prelude::*;
use vstd::string::*;

verus! {

/// The operating system family, which decides where files live.
#[derive(Clone, Copy, PartialEq, Eq, Structural, Debug)]
pub enum Platform {
    Windows,
    MacOs,
    Other,
}

pub open spec fn opt_view(o: Option<String>) -> Option<Seq<char>> {
    match o {
        Some(s) => Some(s@),
        None => None,
    }
}

/// What `std::path::Path::file_stem` gives for a path, as text.
pub uninterp spec fn file_stem_of(path: Seq<char>) -> Option<Seq<char>>;

/// What `std::path::Path::parent` gives for a path, as text.
pub uninterp spec fn parent_of(path: Seq<char>) -> Option<Seq<char>>;

/// What `std::path::Path::join` gives for a base path and a file name, as text.
pub uninterp spec fn joined_of(base: Seq<char>, name: Seq<char>) -> Seq<char>;

/// Relies on `std::path::Path::file_stem`: the final component without its extension.
#[verifier::external_body]
pub(crate) fn file_stem(path: &str) -> (r: Option<String>)
    ensures
        opt_view(r) == file_stem_of(path@),
{
    match std::path::Path::new(path).file_stem() {
        Some(stem) => match stem.to_str() {
            Some(t) => Some(t.to_string()),
            None => None,
        },
        None => None,
    }
}

/// Relies on `std::path::Path::parent`: the path without its final component.
#[verifier::external_body]
pub(crate) fn parent(path: &str) -> (r: Option<String>)
    ensures
        opt_view(r) == parent_of(path@),
{
    match std::path::Path::new(path).parent() {
        Some(p) => match p.to_str() {
            Some(t) => Some(t.to_string()),
            None => None,
        },
        None => None,
    }
}

/// Relies on `std::path::Path::join`: `name` placed under `base`.
#[verifier::external_body]
pub(crate) fn join(base: &str, name: &str) -> (r: String)
    ensures
        r@ == joined_of(base@, name@),
{
    std::path::Path::new(base).join(name).to_string_lossy().into_owned()
}

/// Where this application keeps `file_name`, relative to the home directory.
pub open spec fn config_rel_spec(platform: Platform, file_name: Seq<char>) -> Seq<char> {
    match platform {
        Platform::MacOs => "Library/Application Support/AnimaMac/"@ + file_name,
        Platform::Windows => "AppData/Roaming/AnimaMac/"@ + file_name,
        Platform::Other => ".config/animatux/"@ + file_name,
    }
}

/// The path of this application's file `file_name` under the home directory `home`.
pub fn config_file(platform: Platform, home: &str, file_name: &str) -> (r: String)
    ensures
        r@ == joined_of(home@, config_rel_spec(platform, file_name@)),
{
    let mut rel = match platform {
        Platform::MacOs => String::from_str("Library/Application Support/AnimaMac/"),
        Platform::Windows => String::from_str("AppData/Roaming/AnimaMac/"),
        Platform::Other => String::from_str(".config/animatux/"),
    };
    rel.append(file_name);
    join(home, rel.as_str())
}

} // verus!
