use vstd::prelude::*;

verus! {

/// A ledger account, as its 32 raw bytes.
#[derive(Clone, Copy, Debug, PartialEq, Eq, Hash)]
pub struct Address {
    pub bytes: [u8; 32],
}

/// A fungible asset type, as its 32 raw bytes.
#[derive(Clone, Copy, Debug, PartialEq, Eq, Hash)]
pub struct AssetId {
    pub bytes: [u8; 32],
}

/// An unspent output: who owns it, of which asset, how much, and the
/// transaction output (`tx_id`, `output_index`) that created it.
#[derive(Clone, Copy, Debug, PartialEq, Eq, Hash)]
pub struct Coin {
    pub tx_id: [u8; 32],
    pub output_index: u8,
    pub owner: Address,
    pub asset_id: AssetId,
    pub amount: u64,
}

/// The base asset, whose id is all zero bytes.
pub open spec fn is_base_asset(a: AssetId) -> bool {
    a.bytes@.len() == 32 && forall|i: int| 0 <= i < 32 ==> a.bytes@[i] == 0
}

pub fn base_asset() -> (r: AssetId)
    ensures
        is_base_asset(r),
{
    AssetId { bytes: [0u8; 32] }
}

/// Byte-wise equality of two 32-byte identifiers.
pub fn same_bytes(a: &[u8; 32], b: &[u8; 32]) -> (r: bool)
    ensures
        r == (*a == *b),
{
    let mut i: usize = 0;
    while i < 32
        invariant
            0 <= i <= 32,
            a@.len() == 32,
            b@.len() == 32,
            forall|j: int| 0 <= j < i ==> a@[j] == b@[j],
        decreases 32 - i,
    {
        if a[i] != b[i] {
            return false;
        }
        i = i + 1;
    }
    assert(*a =~= *b);
    true
}

} // verus!
