use vstd::prelude::*;
use crate::constants::PROGRAM_VERSION;
use crate::ids::AccountId;

verus! {

/// A lending market: the root record a set of reserves and obligations
/// belong to.
#[derive(Clone, Debug)]
pub struct LendingMarket {
    /// Record layout version.
    pub version: u8,
    /// Bump seed for the derived market authority address.
    pub bump_seed: u8,
    /// Owner authority which can add new reserves.
    pub owner: AccountId,
    /// Currency market prices are quoted in, as 32 bytes.
    pub quote_currency: Vec<u8>,
    /// The token program all asset accounts belong to.
    pub token_program_id: AccountId,
    /// The oracle program price feeds belong to.
    pub oracle_program_id: AccountId,
}

/// Everything a fresh lending market is initialized with.
pub struct InitLendingMarketParams {
    /// Bump seed for the derived market authority address.
    pub bump_seed: u8,
    /// Owner authority which can add new reserves.
    pub owner: AccountId,
    /// Currency market prices are quoted in, as 32 bytes.
    pub quote_currency: Vec<u8>,
    /// The token program all asset accounts belong to.
    pub token_program_id: AccountId,
    /// The oracle program price feeds belong to.
    pub oracle_program_id: AccountId,
}

impl LendingMarket {
    /// Overwrites this record with a freshly initialized lending market.
    pub fn init(&mut self, params: InitLendingMarketParams)
        ensures
            final(self).version == PROGRAM_VERSION,
            final(self).bump_seed == params.bump_seed,
            final(self).owner == params.owner,
            final(self).quote_currency@ == params.quote_currency@,
            final(self).token_program_id == params.token_program_id,
            final(self).oracle_program_id == params.oracle_program_id,
    {
        self.version = PROGRAM_VERSION;
        self.bump_seed = params.bump_seed;
        self.owner = params.owner;
        self.quote_currency = params.quote_currency;
        self.token_program_id = params.token_program_id;
        self.oracle_program_id = params.oracle_program_id;
    }
}

/// Whether two byte strings hold the same bytes.
pub fn bytes_equal(a: &Vec<u8>, b: &Vec<u8>) -> (r: bool)
    ensures
        r == (a@ == b@),
{
    if a.len() != b.len() {
        return false;
    }
    let mut i: usize = 0;
    while i < a.len()
        invariant
            i <= a@.len(),
            a@.len() == b@.len(),
            forall|j: int| 0 <= j < i ==> a@[j] == b@[j],
        decreases a@.len() - i,
    {
        if a[i] != b[i] {
            return false;
        }
        i = i + 1;
    }
    proof {
        assert(a@ =~= b@);
    }
    true
}

} // verus!
