//! The factory that deploys new sponsorship NFT collections.

use vstd::prelude::*;

use crate::nft::InitParams;

verus! {

/// The byte at position `i` of the salt derived from the ledger time
/// `timestamp`: the time's low byte plus `i`, modulo 256.
pub open spec fn salt_byte(timestamp: u64, i: int) -> int {
    ((timestamp % 256) + i) % 256
}

/// The salt used when the caller gives none: byte `i` is the low byte of the
/// ledger time plus `i`, wrapping around.
pub fn default_salt(timestamp: u64) -> (r: [u8; 32])
    ensures
        forall|i: int| 0 <= i < 32 ==> #[trigger] r@[i] as int == salt_byte(timestamp, i),
{
    let low = timestamp as u8;
    proof {
        assert(low == timestamp % 256) by (bit_vector)
            requires
                low == timestamp as u8,
        ;
    }
    let mut salt = [0u8; 32];
    let mut i: usize = 0;
    while i < 32
        invariant
            i <= 32,
            low as int == timestamp % 256,
            forall|j: int| 0 <= j < i ==> #[trigger] salt@[j] as int == salt_byte(timestamp, j),
        decreases 32 - i,
    {
        let b = low.wrapping_add(i as u8);
        proof {
            assert(b as int == (low as int + i as int) % 256);
        }
        salt[i] = b;
        i = i + 1;
    }
    salt
}

/// The salt of a deployment: the given one, else the one derived from the
/// ledger time.
pub open spec fn chosen_salt(salt: Option<[u8; 32]>, timestamp: u64, r: [u8; 32]) -> bool {
    match salt {
        Some(s) => r == s,
        None => forall|i: int| 0 <= i < 32 ==> #[trigger] r@[i] as int == salt_byte(timestamp, i),
    }
}

/// What the host needs to deploy a collection: its constructor arguments and
/// the salt of its address.
pub struct NftDeployment {
    pub init_params: InitParams,
    pub native_xlm: String,
    pub salt: [u8; 32],
}

/// The factory contract; it keeps no state.
pub struct DSponsorFactory;

impl DSponsorFactory {
    /// The deployment of a collection created with `init_params`, whose
    /// native currency is `native_xlm`, at the address that `salt` (or, with
    /// none, the ledger time) picks.
    pub fn create_dsponsor_nft(
        init_params: InitParams,
        native_xlm: String,
        salt: Option<[u8; 32]>,
        timestamp: u64,
    ) -> (r: NftDeployment)
        ensures
            r.init_params == init_params,
            r.native_xlm == native_xlm,
            chosen_salt(salt, timestamp, r.salt),
    {
        let salt_bytes = match salt {
            Some(s) => s,
            None => default_salt(timestamp),
        };
        NftDeployment { init_params, native_xlm, salt: salt_bytes }
    }
}

} // verus!
