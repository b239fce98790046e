use vstd::prelude::*;

verus! {

/// Relies on std::path::Path::file_stem: the final component of the path
/// without its extension, or None when the path has no file name. What
/// counts as a separator depends on the platform, so nothing is promised of
/// the value.
#[verifier::external_body]
fn file_stem(file_name: &str) -> Option<String> {
    match std::path::Path::new(file_name).file_stem() {
        Some(stem) => Some(stem.to_string_lossy().into_owned()),
        None => None,
    }
}

/// The stem when there is one, else the whole name.
pub fn stem_or_name(stem: Option<String>, file_name: &str) -> (name: String)
    ensures
        name@ == stem_or_name_spec(stem, file_name@),
{
    match stem {
        Some(s) => s,
        None => file_name.to_string(),
    }
}

/// A file name without its directory and extension, for display; the name
/// itself when the path has no file name.
pub fn trim_file_ext(file_name: &str) -> (name: String)
    ensures
        exists|stem: Option<String>| #[trigger]
            stem_or_name_spec(stem, file_name@) == name@,
{
    let stem = file_stem(file_name);
    let ghost g = stem;
    let name = stem_or_name(stem, file_name);
    assert(stem_or_name_spec(g, file_name@) == name@);
    name
}

/// What `stem_or_name` returns.
pub open spec fn stem_or_name_spec(stem: Option<String>, file_name: Seq<char>) -> Seq<char> {
    match stem {
        Some(s) => s@,
        None => file_name,
    }
}

} // verus!
