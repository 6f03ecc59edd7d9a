//! The markets for which a catalog is asked.

use vstd::prelude::*;
use vstd::string::StringExecFns;

verus! {

/// The ISO 3166 code of Argentina.
pub const ARGENTINA_ISO3166_CODE: &'static str = "AR";

/// The markets that the service knows by their country codes.
pub struct Market {}

impl Market {
    /// The market code of Argentina.
    pub fn argentina() -> (code: String)
        ensures
            code@ == ARGENTINA_ISO3166_CODE@,
            code@ == seq!['A', 'R'],
    {
        proof {
            reveal_strlit("AR");
            assert(ARGENTINA_ISO3166_CODE@ =~= seq!['A', 'R']);
        }
        String::from_str(ARGENTINA_ISO3166_CODE)
    }
}

} // verus!
