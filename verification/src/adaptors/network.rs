//! The decisions of the adaptor's HTTP helpers.

use vstd::prelude::*;

verus! {

/// The status that answers a request which did not come back `200 OK`.
pub const UNAUTHORIZED: u16 = 401;

/// Whether a response may be read: `200 OK` may, anything else is answered
/// as `401 Unauthorized` (most likely an outdated token).
pub fn check_status(status: u16) -> (r: Result<(), u16>)
    ensures
        r is Ok <==> status == 200,
        r matches Err(e) ==> e == UNAUTHORIZED,
{
    if status != 200 {
        Err(UNAUTHORIZED)
    } else {
        Ok(())
    }
}

} // verus!

verus! {

/// A file to fetch into the cache: where from, into which directory, under
/// which name.
#[derive(Debug)]
pub struct CacheDownload {
    pub url: String,
    pub dir: String,
    pub file_name: String,
}

impl CacheDownload {
    /// Where the file lands (`dir.join(file_name)`); a download that finds
    /// a file there already keeps it.
    pub fn cache_path(&self) -> (r: String)
        ensures
            r@ == crate::text::path_join_spec(self.dir@, self.file_name@),
    {
        crate::text::path_join(self.dir.as_str(), self.file_name.as_str())
    }
}

} // verus!
