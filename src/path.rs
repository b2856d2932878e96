use vstd::prelude::*;

verus! {

/// What `std::path::Path::parent` gives for a path: the path without its
/// final component, or none where the path ends in a root or a prefix, or is
/// empty.
pub uninterp spec fn parent_path(path: Seq<char>) -> Option<Seq<char>>;

/// Relies on `std::path::Path::parent`, for the directory that holds `path`.
/// A parent of a path given as `&str` is valid UTF-8, so the lossy
/// conversion keeps it whole.
#[verifier::external_body]
fn path_parent(path: &str) -> (r: Option<String>)
    ensures
        match r {
            Some(s) => parent_path(path@) == Some(s@),
            None => parent_path(path@) is None,
        },
{
    std::path::Path::new(path).parent().map(|p| p.to_string_lossy().to_string())
}

/// The path of the directory that holds `path`, or none at the root.
pub fn find_par_dir(path: &str) -> (r: Option<String>)
    ensures
        match r {
            Some(s) => parent_path(path@) == Some(s@),
            None => parent_path(path@) is None,
        },
{
    path_parent(path)
}

/// The path of entry `name` inside directory `dir`.
pub open spec fn join(dir: Seq<char>, name: Seq<char>) -> Seq<char> {
    dir + seq!['/'] + name
}

/// Builds the path of entry `name` inside directory `dir`.
pub fn join_path(dir: &String, name: &String) -> (r: String)
    ensures
        r@ == join(dir@, name@),
{
    let mut r = String::from_str(dir.as_str());
    proof {
        reveal_strlit("/");
    }
    r.append("/");
    r.append(name.as_str());
    r
}

} // verus!
