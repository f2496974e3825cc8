//! Where the document root lies.

use vstd::prelude::*;
use crate::text::cat2;

verus! {

/// The document root, in order of preference: the directory the
/// environment names; in production, `data` beside the executable; in
/// development, `../data`.
pub open spec fn data_dir_for(custom: Option<&str>, production: bool, exe_dir: Seq<char>) -> Seq<
    char,
> {
    match custom {
        Some(dir) => dir@,
        None => if production {
            exe_dir + "/data"@
        } else {
            "../data"@
        },
    }
}

/// Resolves the document root.
pub fn resolve_data_dir(custom: Option<&str>, production: bool, exe_dir: &str) -> (dir: String)
    ensures
        dir@ == data_dir_for(custom, production, exe_dir@),
{
    match custom {
        Some(dir) => dir.to_owned(),
        None => if production {
            cat2(exe_dir, "/data")
        } else {
            "../data".to_owned()
        },
    }
}

/// The file whose presence beside the executable marks production mode.
pub fn production_marker(exe_dir: &str) -> (path: String)
    ensures
        path@ == exe_dir@ + "/static/index.html"@,
{
    cat2(exe_dir, "/static/index.html")
}

} // verus!
