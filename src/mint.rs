use vstd::prelude::*;

use crate::codec::{
    address_eq, address_from_bytes, address_to_bytes, be8, from_be8, u64_from_bytes,
    u64_to_bytes, Address,
};
use crate::error::RegistryError;
use crate::keys::{
    make_key1, minter_key, minter_ns_bytes, token_seq_key, token_seq_ns_bytes,
};
use crate::store::Store;

verus! {

/// The contents of a key/value store, as bytes.
pub type Records = Map<Seq<u8>, Seq<u8>>;

/// An address result seen as bytes.
pub open spec fn addr_result(r: Result<Address, RegistryError>) -> Result<Seq<u8>, RegistryError> {
    match r {
        Ok(a) => Ok(a@),
        Err(e) => Err(e),
    }
}

/// The recorded minter.
pub open spec fn minter_of(m: Records) -> Result<Seq<u8>, RegistryError> {
    if !m.contains_key(minter_key()) {
        Err(RegistryError::NotInitialized)
    } else if m[minter_key()].len() != 20 {
        Err(RegistryError::StoreError)
    } else {
        Ok(m[minter_key()])
    }
}

/// The token-id counter; an absent record counts as zero.
pub open spec fn counter_of(m: Records) -> Result<u64, RegistryError> {
    if !m.contains_key(token_seq_key()) {
        Ok(0)
    } else if m[token_seq_key()].len() != 8 {
        Err(RegistryError::StoreError)
    } else {
        Ok(from_be8(m[token_seq_key()]))
    }
}

/// The id that the next mint assigns: one past the counter.
pub open spec fn next_id_of(m: Records) -> Result<u64, RegistryError> {
    match counter_of(m) {
        Err(e) => Err(e),
        Ok(c) => if c == u64::MAX {
            Err(RegistryError::IdOverflow)
        } else {
            Ok((c + 1) as u64)
        },
    }
}

/// Key of the minter record.
pub fn make_minter_key() -> (r: Vec<u8>)
    ensures
        r@ == minter_key(),
{
    make_key1(minter_ns_bytes())
}

/// Records `addr` as the minter.
pub fn set_minter(st: &mut Store, addr: &Address)
    ensures
        final(st)@ == old(st)@.insert(minter_key(), addr@),
{
    st.write(make_minter_key(), address_to_bytes(addr));
}

/// The recorded minter.
pub fn get_minter(st: &Store) -> (r: Result<Address, RegistryError>)
    ensures
        addr_result(r) == minter_of(st@),
{
    match st.read(&make_minter_key()) {
        None => Err(RegistryError::NotInitialized),
        Some(v) => match address_from_bytes(&v) {
            Some(a) => Ok(a),
            None => Err(RegistryError::StoreError),
        },
    }
}

/// Whether `addr` is the recorded minter.
pub fn is_minter(st: &Store, addr: &Address) -> (r: Result<bool, RegistryError>)
    ensures
        match minter_of(st@) {
            Ok(m) => r == Ok::<bool, RegistryError>(m == addr@),
            Err(e) => r == Err::<bool, RegistryError>(e),
        },
{
    let m = get_minter(st)?;
    Ok(address_eq(&m, addr))
}

/// Key of the token-id counter.
fn make_token_seq_key() -> (r: Vec<u8>)
    ensures
        r@ == token_seq_key(),
{
    make_key1(token_seq_ns_bytes())
}

/// Advances the counter by one and returns its new value.
pub fn get_and_incr_next_token_id(st: &mut Store) -> (r: Result<u64, RegistryError>)
    ensures
        r == next_id_of(old(st)@),
        final(st)@ == match r {
            Ok(id) => old(st)@.insert(token_seq_key(), be8(id)),
            Err(_) => old(st)@,
        },
{
    let current = get_current_token_id(st)?;
    if current == u64::MAX {
        return Err(RegistryError::IdOverflow);
    }
    let id: u64 = current + 1;
    st.write(make_token_seq_key(), u64_to_bytes(id));
    Ok(id)
}

/// The current value of the counter, zero when none was recorded.
pub fn get_current_token_id(st: &Store) -> (r: Result<u64, RegistryError>)
    ensures
        r == counter_of(st@),
{
    let key = make_token_seq_key();
    match st.read(&key) {
        None => Ok(0),
        Some(v) => match u64_from_bytes(&v) {
            Some(x) => Ok(x),
            None => Err(RegistryError::StoreError),
        },
    }
}

} // verus!
