//! A registry of non-fungible tokens over a key/value store: who owns each
//! token, who may act for whom, and the rules of minting, approval and
//! transfer.
use vstd::prelude::*;

pub mod codec;
pub mod error;
pub mod keys;
pub mod laws;
pub mod machine;
pub mod mint;
pub mod store;
pub mod token;

use crate::codec::{address_eq, Address};
use crate::error::RegistryError;
use crate::machine::{
    approve_records, approve_result, init_records, lemma_tokens_scan_err_sticks, mint_records,
    mint_result, set_approval_for_all_records, tokens_of_owner_result, tokens_scan,
    transfer_records, transfer_result,
};
use crate::mint::{addr_result, counter_of};
use crate::store::Store;
use crate::token::{operator_of, owner_of};

verus! {

/// Makes `caller` the minter. Calling it again hands the role to the new caller.
pub fn init(st: &mut Store, caller: &Address)
    ensures
        final(st)@ == init_records(old(st)@, caller@),
{
    mint::set_minter(st, caller);
}

/// Lets `to` act on the token, when `caller` is its owner or an operator of
/// its owner and `to` is not the owner.
pub fn approve(st: &mut Store, caller: &Address, to: &Address, token_id: u64) -> (r: Result<
    (),
    RegistryError,
>)
    ensures
        r == approve_result(old(st)@, caller@, to@, token_id),
        final(st)@ == approve_records(old(st)@, caller@, to@, token_id),
{
    let owner = token::get_token_owner(st, token_id)?;
    if address_eq(&owner, to) {
        return Err(RegistryError::InvalidApproval);
    }
    if !address_eq(&owner, caller) {
        if !token::is_approved_for_all(st, &owner, caller)? {
            return Err(RegistryError::Unauthorized);
        }
    }
    token::set_token_approvals(st, token_id, to);
    Ok(())
}

/// Lets `operator` act, or stops it acting, on every token of `caller`.
#[allow(non_snake_case)]
pub fn setApprovalForAll(st: &mut Store, caller: &Address, operator: &Address, approved: bool)
    ensures
        final(st)@ == set_approval_for_all_records(old(st)@, caller@, operator@, approved),
{
    token::set_approved(st, caller, operator, approved);
}

/// Whether `operator` may act on every token of `owner`.
#[allow(non_snake_case)]
pub fn isApprovedForAll(st: &Store, owner: &Address, operator: &Address) -> (r: Result<
    bool,
    RegistryError,
>)
    ensures
        r == operator_of(st@, owner@, operator@),
{
    token::is_approved_for_all(st, owner, operator)
}

/// The owner of the token.
#[allow(non_snake_case)]
pub fn ownerOf(st: &Store, token_id: u64) -> (r: Result<Address, RegistryError>)
    ensures
        addr_result(r) == owner_of(st@, token_id),
{
    token::get_token_owner(st, token_id)
}

/// Creates the next token for `to`, when `caller` is the minter; returns its id.
pub fn mint(st: &mut Store, caller: &Address, to: &Address) -> (r: Result<u64, RegistryError>)
    ensures
        r == mint_result(old(st)@, caller@),
        final(st)@ == mint_records(old(st)@, caller@, to@),
{
    if !mint::is_minter(st, caller)? {
        Err(RegistryError::Unauthorized)
    } else {
        let token_id = mint::get_and_incr_next_token_id(st)?;
        token::set_token_owner(st, token_id, to);
        Ok(token_id)
    }
}

/// Moves the token from `from` to `to`, when `caller` may act on it and
/// `from` owns it; the token's approval is cleared.
#[allow(non_snake_case)]
pub fn transferFrom(st: &mut Store, caller: &Address, from: &Address, to: &Address, token_id: u64)
    -> (r: Result<(), RegistryError>)
    ensures
        r == transfer_result(old(st)@, caller@, from@, token_id),
        final(st)@ == transfer_records(old(st)@, caller@, from@, to@, token_id),
{
    if !token::is_approved_or_owner(st, caller, token_id)? {
        return Err(RegistryError::Unauthorized);
    }
    let owner = token::get_token_owner(st, token_id)?;
    if !address_eq(&owner, from) {
        return Err(RegistryError::NotOwner);
    }
    token::clear_approval(st, token_id);
    token::set_token_owner(st, token_id, to);
    Ok(())
}

/// The ids of every token that `owner` holds, ascending, found by scanning
/// every id minted so far.
#[allow(non_snake_case)]
pub fn tokensOfOwner(st: &Store, owner: &Address) -> (r: Result<Vec<u64>, RegistryError>)
    ensures
        match r {
            Ok(v) => tokens_of_owner_result(st@, owner@) == Ok::<Seq<u64>, RegistryError>(v@),
            Err(e) => tokens_of_owner_result(st@, owner@) == Err::<Seq<u64>, RegistryError>(e),
        },
{
    let current = mint::get_current_token_id(st)?;
    if current == 0 {
        return Err(RegistryError::EmptyRegistry);
    }
    let mut ids: Vec<u64> = Vec::new();
    let mut done: u64 = 0;
    while done < current
        invariant
            done <= current,
            counter_of(st@) == Ok::<u64, RegistryError>(current),
            tokens_scan(st@, owner@, done as nat) == Ok::<Seq<u64>, RegistryError>(ids@),
        decreases current - done,
    {
        let id: u64 = done + 1;
        match token::get_token_owner(st, id) {
            Err(e) => {
                proof {
                    lemma_tokens_scan_err_sticks(st@, owner@, id as nat, current as nat);
                }
                return Err(e);
            },
            Ok(o) => {
                if address_eq(&o, owner) {
                    ids.push(id);
                }
            },
        }
        done = id;
    }
    Ok(ids)
}

} // verus!
