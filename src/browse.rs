//! File browsing: serving a directory tree directly, files as plain text
//! and directories as listings.
use vstd::prelude::*;
use crate::error::ErrorKind;
use crate::paths::{opt_view, resolution, resolve, ResolvedPath};

verus! {

/// What to answer a browsing request with.
pub enum Browse {
    /// Send this file as plain text.
    ServeFile(ResolvedPath),
    /// Send a listing of this directory.
    ListDirectory(ResolvedPath),
}

/// The content type that browsed files are sent with.
pub fn browse_content_type() -> (r: &'static str)
    ensures
        r@ == "text/plain;charset=ISO-8859-1"@,
{
    "text/plain;charset=ISO-8859-1"
}

/// Decides a browsing request from the canonical root and the canonical
/// requested path (`None` where canonicalization failed): a missing path
/// is `DoesNotExist`, one outside the root a traversal attempt; a file is
/// served and anything else is listed.
pub fn browse(base: Option<String>, target: Option<String>, is_file: bool) -> (r: Result<Browse, ErrorKind>)
    ensures
        match (r, resolution(opt_view(base), opt_view(target))) {
            (Ok(Browse::ServeFile(p)), Ok((b, t))) => is_file && p.base_view() == b && p.path_view()
                == t,
            (Ok(Browse::ListDirectory(p)), Ok((b, t))) => !is_file && p.base_view() == b
                && p.path_view() == t,
            (Err(e), Err(f)) => e == f,
            _ => false,
        },
{
    match resolve(base, target) {
        Ok(p) => if is_file {
            Ok(Browse::ServeFile(p))
        } else {
            Ok(Browse::ListDirectory(p))
        },
        Err(e) => Err(e),
    }
}

} // verus!
