use erc721::codec::{encode_token_ids, u64_from_bytes, Address};
use erc721::error::RegistryError;
use erc721::mint::get_current_token_id;
use erc721::store::Store;
use erc721::token::{get_token_approval, is_approved_or_owner};
use erc721::{
    approve, init, isApprovedForAll, mint, ownerOf, setApprovalForAll, tokensOfOwner,
    transferFrom,
};

const SENDER1: Address = *b"00000000000000000001";
const SENDER2: Address = *b"00000000000000000002";
const SENDER3: Address = *b"00000000000000000003";
const ZERO: Address = [0u8; 20];

#[test]
fn test_mint() {
    let mut st = Store::new();
    init(&mut st, &SENDER1);

    assert_eq!(Ok(1u64), mint(&mut st, &SENDER1, &SENDER1));

    assert!(mint(&mut st, &SENDER2, &SENDER2).is_err());

    let tks = encode_token_ids(&tokensOfOwner(&st, &SENDER1).unwrap());
    assert_eq!(1 * 8, tks.len());
    assert_eq!(Some(1), u64_from_bytes(&tks));

    assert_eq!(Ok(2u64), mint(&mut st, &SENDER1, &SENDER1));
    assert_eq!(Ok(3u64), mint(&mut st, &SENDER1, &SENDER2));

    let tks = encode_token_ids(&tokensOfOwner(&st, &SENDER1).unwrap());
    assert_eq!(2 * 8, tks.len());
    assert_eq!(Some(1), u64_from_bytes(&tks[0..8].to_vec()));
    assert_eq!(Some(2), u64_from_bytes(&tks[8..16].to_vec()));
}

#[test]
fn test_approve() {
    let mut st = Store::new();
    init(&mut st, &SENDER1);
    assert!(mint(&mut st, &SENDER1, &SENDER1).is_ok());
    assert!(approve(&mut st, &SENDER1, &SENDER2, 1).is_ok());
}

#[test]
fn test_transfer_from() {
    {
        let mut st = Store::new();
        init(&mut st, &SENDER1);
        assert_eq!(Ok(1u64), mint(&mut st, &SENDER1, &SENDER1));
        assert_eq!(Ok(SENDER1), ownerOf(&st, 1));
        assert!(transferFrom(&mut st, &SENDER2, &SENDER1, &SENDER2, 1).is_err());
        transferFrom(&mut st, &SENDER1, &SENDER1, &SENDER2, 1).unwrap();
        assert_eq!(Ok(SENDER2), ownerOf(&st, 1));
    }
    {
        let mut st = Store::new();
        init(&mut st, &SENDER1);
        assert_eq!(Ok(1u64), mint(&mut st, &SENDER1, &SENDER1));
        approve(&mut st, &SENDER1, &SENDER2, 1).expect("failed to approve");
        transferFrom(&mut st, &SENDER2, &SENDER1, &SENDER2, 1).unwrap();
        assert_eq!(Ok(SENDER2), ownerOf(&st, 1));
    }
}

#[test]
fn unminted_token_is_not_found() {
    let mut st = Store::new();
    init(&mut st, &SENDER1);
    assert_eq!(Err(RegistryError::TokenNotFound), ownerOf(&st, 1));
    assert_eq!(Err(RegistryError::TokenNotFound), is_approved_or_owner(&st, &SENDER1, 1));
    mint(&mut st, &SENDER1, &SENDER1).unwrap();
    assert_eq!(Err(RegistryError::TokenNotFound), ownerOf(&st, 2));
    assert_eq!(Err(RegistryError::TokenNotFound), ownerOf(&st, 0));
    assert_eq!(Err(RegistryError::TokenNotFound), get_token_approval(&st, 2));
}

#[test]
fn minted_token_has_owner_and_no_approval() {
    let mut st = Store::new();
    init(&mut st, &SENDER1);
    let id = mint(&mut st, &SENDER1, &SENDER2).unwrap();
    assert_eq!(Ok(SENDER2), ownerOf(&st, id));
    assert_eq!(Ok(ZERO), get_token_approval(&st, id));
    assert_eq!(Err(RegistryError::Unauthorized), mint(&mut st, &SENDER2, &SENDER2));
}

#[test]
fn approved_spender_transfers_and_stranger_cannot_approve() {
    let mut st = Store::new();
    init(&mut st, &SENDER1);
    mint(&mut st, &SENDER1, &SENDER1).unwrap();
    assert_eq!(Err(RegistryError::Unauthorized), approve(&mut st, &SENDER2, &SENDER3, 1));
    approve(&mut st, &SENDER1, &SENDER2, 1).unwrap();
    assert_eq!(Ok(SENDER2), get_token_approval(&st, 1));
    transferFrom(&mut st, &SENDER2, &SENDER1, &SENDER3, 1).unwrap();
    assert_eq!(Ok(SENDER3), ownerOf(&st, 1));
}

#[test]
fn operator_transfers_until_revoked() {
    let mut st = Store::new();
    init(&mut st, &SENDER1);
    mint(&mut st, &SENDER1, &SENDER1).unwrap();
    mint(&mut st, &SENDER1, &SENDER1).unwrap();
    assert_eq!(Ok(false), isApprovedForAll(&st, &SENDER1, &SENDER2));
    setApprovalForAll(&mut st, &SENDER1, &SENDER2, true);
    assert_eq!(Ok(true), isApprovedForAll(&st, &SENDER1, &SENDER2));
    transferFrom(&mut st, &SENDER2, &SENDER1, &SENDER3, 1).unwrap();
    assert_eq!(Ok(SENDER3), ownerOf(&st, 1));
    setApprovalForAll(&mut st, &SENDER1, &SENDER2, false);
    assert_eq!(Ok(false), isApprovedForAll(&st, &SENDER1, &SENDER2));
    assert_eq!(
        Err(RegistryError::Unauthorized),
        transferFrom(&mut st, &SENDER2, &SENDER1, &SENDER3, 2)
    );
    assert_eq!(Ok(SENDER1), ownerOf(&st, 2));
}

#[test]
fn operator_may_approve_for_owner() {
    let mut st = Store::new();
    init(&mut st, &SENDER1);
    mint(&mut st, &SENDER1, &SENDER1).unwrap();
    setApprovalForAll(&mut st, &SENDER1, &SENDER2, true);
    approve(&mut st, &SENDER2, &SENDER3, 1).unwrap();
    assert_eq!(Ok(SENDER3), get_token_approval(&st, 1));
}

#[test]
fn transfer_round_trip_restores_owner() {
    let mut st = Store::new();
    init(&mut st, &SENDER1);
    mint(&mut st, &SENDER1, &SENDER1).unwrap();
    approve(&mut st, &SENDER1, &SENDER3, 1).unwrap();
    transferFrom(&mut st, &SENDER1, &SENDER1, &SENDER2, 1).unwrap();
    assert_eq!(Ok(ZERO), get_token_approval(&st, 1));
    transferFrom(&mut st, &SENDER2, &SENDER2, &SENDER1, 1).unwrap();
    assert_eq!(Ok(SENDER1), ownerOf(&st, 1));
    assert_eq!(Ok(ZERO), get_token_approval(&st, 1));
}

#[test]
fn approved_address_moves_token_to_third_party() {
    let (a, b, c) = (SENDER1, SENDER2, SENDER3);
    let mut st = Store::new();
    init(&mut st, &a);
    assert_eq!(Ok(1), mint(&mut st, &a, &a));
    approve(&mut st, &a, &b, 1).unwrap();
    assert_eq!(Ok(()), transferFrom(&mut st, &b, &a, &c, 1));
    assert_eq!(Ok(c), ownerOf(&st, 1));
    assert_eq!(Ok(ZERO), get_token_approval(&st, 1));
}

#[test]
fn non_minter_mint_leaves_counter() {
    let mut st = Store::new();
    init(&mut st, &SENDER1);
    assert_eq!(Ok(0), get_current_token_id(&st));
    assert_eq!(Err(RegistryError::Unauthorized), mint(&mut st, &SENDER2, &SENDER2));
    assert_eq!(Ok(0), get_current_token_id(&st));
    mint(&mut st, &SENDER1, &SENDER1).unwrap();
    assert_eq!(Err(RegistryError::Unauthorized), mint(&mut st, &SENDER2, &SENDER2));
    assert_eq!(Ok(1), get_current_token_id(&st));
}

#[test]
fn tokens_of_owner_alternating() {
    let (a, b) = (SENDER1, SENDER2);
    let mut st = Store::new();
    init(&mut st, &a);
    assert_eq!(Ok(1), mint(&mut st, &a, &a));
    assert_eq!(Ok(2), mint(&mut st, &a, &b));
    assert_eq!(Ok(3), mint(&mut st, &a, &a));
    assert_eq!(Ok(vec![1u64, 3]), tokensOfOwner(&st, &a));
    assert_eq!(Ok(vec![2u64]), tokensOfOwner(&st, &b));
    assert_eq!(Ok(vec![]), tokensOfOwner(&st, &SENDER3));
}

#[test]
fn error_variants() {
    let mut st = Store::new();
    assert_eq!(Err(RegistryError::NotInitialized), mint(&mut st, &SENDER1, &SENDER1));
    assert_eq!(Err(RegistryError::EmptyRegistry), tokensOfOwner(&st, &SENDER1));
    init(&mut st, &SENDER1);
    assert_eq!(Err(RegistryError::EmptyRegistry), tokensOfOwner(&st, &SENDER1));
    mint(&mut st, &SENDER1, &SENDER1).unwrap();
    assert_eq!(Err(RegistryError::InvalidApproval), approve(&mut st, &SENDER1, &SENDER1, 1));
    assert_eq!(Err(RegistryError::TokenNotFound), approve(&mut st, &SENDER1, &SENDER2, 9));
    assert_eq!(
        Err(RegistryError::NotOwner),
        transferFrom(&mut st, &SENDER1, &SENDER2, &SENDER3, 1)
    );
    assert_eq!(
        Err(RegistryError::TokenNotFound),
        transferFrom(&mut st, &SENDER1, &SENDER1, &SENDER3, 9)
    );
    assert_eq!(Ok(SENDER1), ownerOf(&st, 1));
}

#[test]
fn reinit_hands_minter_role_over() {
    let mut st = Store::new();
    init(&mut st, &SENDER1);
    init(&mut st, &SENDER2);
    assert_eq!(Err(RegistryError::Unauthorized), mint(&mut st, &SENDER1, &SENDER1));
    assert_eq!(Ok(1), mint(&mut st, &SENDER2, &SENDER1));
}
