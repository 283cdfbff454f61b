use vstd::prelude::*;

verus! {

/// Why an operation on the registry failed.
#[derive(Debug, Clone, Copy, PartialEq, Eq, Structural)]
pub enum RegistryError {
    /// No minter has been recorded.
    NotInitialized,
    /// The caller lacks the role or approval that the operation needs.
    Unauthorized,
    /// The token does not exist.
    TokenNotFound,
    /// The approval would go to the token's current owner.
    InvalidApproval,
    /// The token's owner is not the address the transfer names as source.
    NotOwner,
    /// No token has ever been minted.
    EmptyRegistry,
    /// A stored record could not be read as the value it should hold.
    StoreError,
    /// The token-id counter has reached its largest value.
    IdOverflow,
}

impl RegistryError {
    /// A short message for the failure, as reported to a caller.
    pub fn message(&self) -> (r: &'static str) {
        match self {
            RegistryError::NotInitialized => "minter is not set",
            RegistryError::Unauthorized => "caller is not authorized",
            RegistryError::TokenNotFound => "nonexistent token",
            RegistryError::InvalidApproval => "approval to current owner",
            RegistryError::NotOwner => "transfer of token that is not own",
            RegistryError::EmptyRegistry => "this contract has no tokens",
            RegistryError::StoreError => "malformed stored record",
            RegistryError::IdOverflow => "token ids are exhausted",
        }
    }
}

} // verus!
