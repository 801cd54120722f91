use vstd::prelude::*;

use crate::errors::MarketError;

verus! {

/// The singleton administrative record: it holds the one identity allowed
/// to create and resolve markets.
#[derive(Clone, Copy, Debug, PartialEq, Eq, Structural)]
pub struct Config {
    pub admin: u64,
}

impl Config {
    /// Pure read-check with no side effect: succeeds exactly for the
    /// administrative identity.
    pub fn authorize(&self, caller: u64) -> (r: Result<(), MarketError>)
        ensures
            r is Ok <==> caller == self.admin,
            r is Err ==> r == Err::<(), MarketError>(MarketError::Unauthorized),
    {
        if caller == self.admin {
            Ok(())
        } else {
            Err(MarketError::Unauthorized)
        }
    }
}

} // verus!
