//! Verified core of the Encodeck FFmpeg front end: encoding plans and their checks, the
//! job queue, the installed engines, the build catalogs and installation checks, and
//! the update check.
use vstd::prelude::*;

pub mod config;
pub mod digest;
pub mod engine;
pub mod ids;
pub mod queue;
pub mod text;
pub mod updates;
pub mod versions;

verus! {

/// The text of an error, as it is shown to the user.
pub fn err(e: &str) -> (r: String)
    ensures
        r@ == e@,
{
    text::owned(e)
}

} // verus!
