use vstd::prelude::*;

verus! {

/// Why an operation was rejected. A rejected operation changes nothing.
#[derive(Clone, Copy, Debug, PartialEq, Eq, Structural)]
pub enum EscrowError {
    /// The caller is not the party that the operation requires.
    Unauthorized,
    /// The record's address, or that of its vault, is already in use.
    RecordAlreadyExists,
    /// No record, or no vault, is stored where the operation looks for it.
    RecordNotFound,
    /// The record's maker or mints differ from the accounts supplied.
    RecordMismatch,
    /// The declared mint or its decimals differ from the actual asset.
    AssetMismatch,
    /// The source account lacks the funds for a transfer.
    InsufficientBalance,
    /// A vault was to be closed before it was drained.
    VaultNotEmpty,
    /// The maker and seed derive no address under the bump in use.
    NoDerivedAuthority,
}

} // verus!
