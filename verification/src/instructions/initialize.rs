use vstd::prelude::*;

use crate::config::Config;

verus! {

/// Create the singleton administrative record. The surrounding store is
/// what guarantees it is created at most once; this step only fixes the
/// administrative identity.
pub fn handler(admin: u64) -> (c: Config)
    ensures
        c == (Config { admin: admin }),
{
    Config { admin }
}

} // verus!
