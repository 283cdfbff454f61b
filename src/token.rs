use vstd::prelude::*;

use crate::codec::{
    address_eq, address_from_bytes, address_to_bytes, bool_bytes, bool_from_bytes,
    bool_to_bytes, u64_to_bytes, zero, zero_address, Address,
};
use crate::error::RegistryError;
use crate::keys::{
    make_key2, make_key3, operator_approvals_key, operator_approvals_ns_bytes, token_approvals_key,
    token_approvals_ns_bytes, token_owner_key, token_owner_ns_bytes,
};
use crate::mint::{addr_result, Records};
use crate::store::Store;

verus! {

/// The owner of a token; fails when the token does not exist.
pub open spec fn owner_of(m: Records, id: u64) -> Result<Seq<u8>, RegistryError> {
    if !m.contains_key(token_owner_key(id)) {
        Err(RegistryError::TokenNotFound)
    } else if m[token_owner_key(id)].len() != 20 {
        Err(RegistryError::StoreError)
    } else {
        Ok(m[token_owner_key(id)])
    }
}

/// A token exists when its owner can be read.
pub open spec fn token_exists(m: Records, id: u64) -> bool {
    owner_of(m, id) is Ok
}

/// The address approved for a token; the zero address when none was set.
pub open spec fn approval_of(m: Records, id: u64) -> Result<Seq<u8>, RegistryError> {
    if !token_exists(m, id) {
        Err(RegistryError::TokenNotFound)
    } else if !m.contains_key(token_approvals_key(id)) {
        Ok(zero_address())
    } else if m[token_approvals_key(id)].len() != 20 {
        Err(RegistryError::StoreError)
    } else {
        Ok(m[token_approvals_key(id)])
    }
}

/// Whether `operator` may act for `owner`; an absent record means no.
pub open spec fn operator_of(m: Records, owner: Seq<u8>, operator: Seq<u8>) -> Result<
    bool,
    RegistryError,
> {
    let k = operator_approvals_key(owner, operator);
    if !m.contains_key(k) {
        Ok(false)
    } else if m[k] == bool_bytes(true) {
        Ok(true)
    } else if m[k] == bool_bytes(false) {
        Ok(false)
    } else {
        Err(RegistryError::StoreError)
    }
}

/// Whether `spender` owns the token, is approved for it, or is an operator
/// of its owner; checked in that order.
pub open spec fn approved_or_owner(m: Records, spender: Seq<u8>, id: u64) -> Result<
    bool,
    RegistryError,
> {
    if !token_exists(m, id) {
        Err(RegistryError::TokenNotFound)
    } else {
        let owner = owner_of(m, id)->Ok_0;
        if owner == spender {
            Ok(true)
        } else {
            match approval_of(m, id) {
                Err(e) => Err(e),
                Ok(a) => if a == spender {
                    Ok(true)
                } else {
                    operator_of(m, owner, spender)
                },
            }
        }
    }
}

/// Records whether `operator` may act for `owner`.
pub fn set_approved(st: &mut Store, owner: &Address, operator: &Address, approved: bool)
    ensures
        final(st)@ == old(st)@.insert(
            operator_approvals_key(owner@, operator@),
            bool_bytes(approved),
        ),
{
    let key = make_operator_approvals_key(owner, operator);
    st.write(key, bool_to_bytes(approved));
}

/// Whether `operator` may act for `owner`.
pub fn is_approved_for_all(st: &Store, owner: &Address, operator: &Address) -> (r: Result<
    bool,
    RegistryError,
>)
    ensures
        r == operator_of(st@, owner@, operator@),
{
    let key = make_operator_approvals_key(owner, operator);
    match st.read(&key) {
        None => Ok(false),
        Some(v) => match bool_from_bytes(&v) {
            Some(b) => Ok(b),
            None => Err(RegistryError::StoreError),
        },
    }
}

fn make_operator_approvals_key(owner: &Address, operator: &Address) -> (r: Vec<u8>)
    ensures
        r@ == operator_approvals_key(owner@, operator@),
{
    make_key3(
        operator_approvals_ns_bytes(),
        address_to_bytes(owner),
        address_to_bytes(operator),
    )
}

/// Records `to` as the owner of the token.
pub fn set_token_owner(st: &mut Store, token_id: u64, to: &Address)
    ensures
        final(st)@ == old(st)@.insert(token_owner_key(token_id), to@),
{
    st.write(make_token_owner_key(token_id), address_to_bytes(to));
}

/// The owner of the token.
pub fn get_token_owner(st: &Store, token_id: u64) -> (r: Result<Address, RegistryError>)
    ensures
        addr_result(r) == owner_of(st@, token_id),
{
    let key = make_token_owner_key(token_id);
    match st.read(&key) {
        None => Err(RegistryError::TokenNotFound),
        Some(v) => match address_from_bytes(&v) {
            Some(a) => Ok(a),
            None => Err(RegistryError::StoreError),
        },
    }
}

fn make_token_owner_key(token_id: u64) -> (r: Vec<u8>)
    ensures
        r@ == token_owner_key(token_id),
{
    make_key2(token_owner_ns_bytes(), u64_to_bytes(token_id))
}

/// Records `to` as the address approved for the token.
pub fn set_token_approvals(st: &mut Store, token_id: u64, to: &Address)
    ensures
        final(st)@ == old(st)@.insert(token_approvals_key(token_id), to@),
{
    let key = make_token_approvals_key(token_id);
    st.write(key, address_to_bytes(to));
}

fn make_token_approvals_key(token_id: u64) -> (r: Vec<u8>)
    ensures
        r@ == token_approvals_key(token_id),
{
    make_key2(token_approvals_ns_bytes(), u64_to_bytes(token_id))
}

/// The address approved for an existing token, the zero address when none was set.
pub fn get_token_approval(st: &Store, token_id: u64) -> (r: Result<Address, RegistryError>)
    ensures
        addr_result(r) == approval_of(st@, token_id),
{
    if !check_exists(st, token_id) {
        return Err(RegistryError::TokenNotFound);
    }
    let key = make_token_approvals_key(token_id);
    match st.read(&key) {
        None => Ok(zero()),
        Some(v) => match address_from_bytes(&v) {
            Some(a) => Ok(a),
            None => Err(RegistryError::StoreError),
        },
    }
}

/// Whether the token exists.
pub fn check_exists(st: &Store, token_id: u64) -> (r: bool)
    ensures
        r == token_exists(st@, token_id),
{
    get_token_owner(st, token_id).is_ok()
}

/// Whether `spender` may act on the token: its owner, its approved address,
/// or an operator of its owner.
pub fn is_approved_or_owner(st: &Store, spender: &Address, token_id: u64) -> (r: Result<
    bool,
    RegistryError,
>)
    ensures
        r == approved_or_owner(st@, spender@, token_id),
{
    if !check_exists(st, token_id) {
        Err(RegistryError::TokenNotFound)
    } else {
        let owner = get_token_owner(st, token_id)?;
        if address_eq(&owner, spender) {
            return Ok(true);
        }
        let approved = get_token_approval(st, token_id)?;
        if address_eq(&approved, spender) {
            return Ok(true);
        }
        is_approved_for_all(st, &owner, spender)
    }
}

/// Resets the token's approval to the zero address; false, with nothing
/// written, when the token does not exist.
pub fn clear_approval(st: &mut Store, token_id: u64) -> (r: bool)
    ensures
        r == token_exists(old(st)@, token_id),
        final(st)@ == if r {
            old(st)@.insert(token_approvals_key(token_id), zero_address())
        } else {
            old(st)@
        },
{
    if check_exists(st, token_id) {
        let zero_address = zero();
        set_token_approvals(st, token_id, &zero_address);
        true
    } else {
        false
    }
}

} // verus!
