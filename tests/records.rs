use erc721::codec::{
    address_from_bytes, bool_from_bytes, bool_to_bytes, encode_token_ids, u64_from_bytes,
    u64_to_bytes,
};
use erc721::error::RegistryError;
use erc721::keys::{make_key2, make_key_by_parts, token_owner_ns_bytes};
use erc721::mint::{
    get_and_incr_next_token_id, get_current_token_id, get_minter, make_minter_key,
};
use erc721::store::{bytes_eq, Store};
use erc721::{init, mint, ownerOf};

#[test]
fn u64_is_big_endian() {
    assert_eq!(vec![0, 0, 0, 0, 0, 0, 1, 2], u64_to_bytes(258));
    assert_eq!(Some(258), u64_from_bytes(&vec![0, 0, 0, 0, 0, 0, 1, 2]));
    assert_eq!(None, u64_from_bytes(&vec![1, 2]));
    assert_eq!(
        vec![0, 0, 0, 0, 0, 0, 0, 1, 0, 0, 0, 0, 0, 0, 0, 3],
        encode_token_ids(&vec![1, 3])
    );
}

#[test]
fn flags_are_one_byte() {
    assert_eq!(vec![1u8], bool_to_bytes(true));
    assert_eq!(vec![0u8], bool_to_bytes(false));
    assert_eq!(Some(true), bool_from_bytes(&vec![1]));
    assert_eq!(Some(false), bool_from_bytes(&vec![0]));
    assert_eq!(None, bool_from_bytes(&vec![2]));
    assert_eq!(None, bool_from_bytes(&vec![]));
}

#[test]
fn addresses_are_twenty_bytes() {
    assert_eq!(Some([7u8; 20]), address_from_bytes(&vec![7u8; 20]));
    assert_eq!(None, address_from_bytes(&vec![7u8; 19]));
}

#[test]
fn keys_join_parts_with_slash() {
    assert_eq!(b"minter".to_vec(), make_minter_key());
    assert_eq!(
        b"a/bc/d".to_vec(),
        make_key_by_parts(&vec![b"a".to_vec(), b"bc".to_vec(), b"d".to_vec()])
    );
    assert_eq!(
        b"tokenOwner/\x00\x00\x00\x00\x00\x00\x00\x05".to_vec(),
        make_key2(token_owner_ns_bytes(), u64_to_bytes(5))
    );
}

#[test]
fn store_keeps_last_write() {
    let mut st = Store::new();
    assert_eq!(None, st.read(&b"k".to_vec()));
    st.write(b"k".to_vec(), b"1".to_vec());
    st.write(b"j".to_vec(), b"2".to_vec());
    st.write(b"k".to_vec(), b"3".to_vec());
    assert_eq!(Some(b"3".to_vec()), st.read(&b"k".to_vec()));
    assert_eq!(Some(b"2".to_vec()), st.read(&b"j".to_vec()));
    assert_eq!(3, st.log_len());
    assert_eq!((b"j".to_vec(), b"2".to_vec()), st.log_entry(1));
    assert!(bytes_eq(&vec![1, 2], &vec![1, 2]));
    assert!(!bytes_eq(&vec![1, 2], &vec![1]));
}

#[test]
fn records_land_under_their_keys() {
    let a = *b"00000000000000000001";
    let mut st = Store::new();
    assert_eq!(Err(RegistryError::NotInitialized), get_minter(&st));
    init(&mut st, &a);
    assert_eq!(Some(a.to_vec()), st.read(&b"minter".to_vec()));
    mint(&mut st, &a, &a).unwrap();
    assert_eq!(Some(u64_to_bytes(1)), st.read(&b"mint".to_vec()));
    assert_eq!(
        Some(a.to_vec()),
        st.read(&b"tokenOwner/\x00\x00\x00\x00\x00\x00\x00\x01".to_vec())
    );
}

#[test]
fn malformed_records_are_store_errors() {
    let a = *b"00000000000000000001";
    let mut st = Store::new();
    init(&mut st, &a);
    st.write(b"mint".to_vec(), vec![1, 2, 3]);
    assert_eq!(Err(RegistryError::StoreError), get_current_token_id(&st));
    assert_eq!(Err(RegistryError::StoreError), mint(&mut st, &a, &a));
    st.write(b"tokenOwner/\x00\x00\x00\x00\x00\x00\x00\x04".to_vec(), vec![9]);
    assert_eq!(Err(RegistryError::StoreError), ownerOf(&st, 4));
}

#[test]
fn counter_stops_at_largest_id() {
    let a = *b"00000000000000000001";
    let mut st = Store::new();
    init(&mut st, &a);
    st.write(b"mint".to_vec(), u64_to_bytes(u64::MAX - 1));
    assert_eq!(Ok(u64::MAX), get_and_incr_next_token_id(&mut st));
    assert_eq!(Err(RegistryError::IdOverflow), mint(&mut st, &a, &a));
    assert_eq!(Ok(u64::MAX), get_current_token_id(&st));
}
