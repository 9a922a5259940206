use vstd::prelude::*;

verus! {

/// The path of `file` taken relative to the directory `dir`.
pub uninterp spec fn joined_path(dir: Seq<char>, file: Seq<char>) -> Seq<char>;

/// Relies on `std::path::Path::join`: the path of `file` under `dir`, which
/// depends on the two strings alone. The result of joining two `&str` is
/// valid UTF-8, so the lossless conversion back to text keeps every char.
#[verifier::external_body]
pub(crate) fn join_path(dir: &str, file: &str) -> (r: String)
    ensures
        r@ == joined_path(dir@, file@),
{
    std::path::Path::new(dir).join(file).to_string_lossy().into_owned()
}

} // verus!
