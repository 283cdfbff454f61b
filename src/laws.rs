use vstd::prelude::*;

use crate::codec::{be8, bool_bytes, zero_address};
use crate::error::RegistryError;
use crate::keys::{
    lemma_keys_distinct, minter_key, operator_approvals_key, token_approvals_key,
    token_owner_key, token_seq_key,
};
use crate::machine::{
    approve_records, approve_result, init_records, mint_records, mint_result,
    set_approval_for_all_records, transfer_records, transfer_result,
};
use crate::mint::{counter_of, minter_of, Records};
use crate::token::{approval_of, approved_or_owner, operator_of, owner_of};

verus! {

/// What holds of the records in every state that the operations reach from
/// an empty store: the counter reads, every existing token has an id in
/// `1..=counter` and a well-formed owner, and approval records belong to
/// existing tokens.
pub open spec fn registry_inv(m: Records) -> bool {
    &&& counter_of(m) is Ok
    &&& forall|id: u64| #[trigger]
        m.contains_key(token_owner_key(id)) ==> 1 <= id <= counter_of(m)->Ok_0 && m[token_owner_key(
            id,
        )].len() == 20
    &&& forall|id: u64| #[trigger]
        m.contains_key(token_approvals_key(id)) ==> m.contains_key(token_owner_key(id))
            && m[token_approvals_key(id)].len() == 20
}

/// An empty store satisfies the invariant.
pub proof fn lemma_inv_empty()
    ensures
        registry_inv(Map::empty()),
{
}

/// Writing a key that is neither an owner, an approval nor the counter key
/// keeps the invariant.
proof fn lemma_inv_other_write(m: Records, k: Seq<u8>, v: Seq<u8>)
    requires
        registry_inv(m),
        k != token_seq_key(),
        forall|id: u64| k != #[trigger] token_owner_key(id),
        forall|id: u64| k != #[trigger] token_approvals_key(id),
    ensures
        registry_inv(m.insert(k, v)),
{
    let m2 = m.insert(k, v);
    assert(counter_of(m2) == counter_of(m));
    assert forall|id: u64| #[trigger] m2.contains_key(token_owner_key(id)) implies 1 <= id
        <= counter_of(m2)->Ok_0 && m2[token_owner_key(id)].len() == 20 by {
        assert(k != token_owner_key(id));
    }
    assert forall|id: u64| #[trigger] m2.contains_key(token_approvals_key(id)) implies m2.contains_key(
        token_owner_key(id),
    ) && m2[token_approvals_key(id)].len() == 20 by {
        assert(k != token_approvals_key(id));
    }
}

/// `init` keeps the invariant.
pub proof fn lemma_inv_init(m: Records, caller: Seq<u8>)
    requires
        registry_inv(m),
    ensures
        registry_inv(init_records(m, caller)),
{
    assert forall|id: u64| minter_key() != #[trigger] token_owner_key(id) by {
        lemma_keys_distinct(id, id, seq![], seq![]);
    }
    assert forall|id: u64| minter_key() != #[trigger] token_approvals_key(id) by {
        lemma_keys_distinct(id, id, seq![], seq![]);
    }
    lemma_keys_distinct(0, 0, seq![], seq![]);
    lemma_inv_other_write(m, minter_key(), caller);
}

/// `setApprovalForAll` keeps the invariant.
pub proof fn lemma_inv_set_approval_for_all(
    m: Records,
    caller: Seq<u8>,
    operator: Seq<u8>,
    approved: bool,
)
    requires
        registry_inv(m),
    ensures
        registry_inv(set_approval_for_all_records(m, caller, operator, approved)),
{
    let k = operator_approvals_key(caller, operator);
    assert forall|id: u64| k != #[trigger] token_owner_key(id) by {
        lemma_keys_distinct(id, id, caller, operator);
    }
    assert forall|id: u64| k != #[trigger] token_approvals_key(id) by {
        lemma_keys_distinct(id, id, caller, operator);
    }
    lemma_keys_distinct(0, 0, caller, operator);
    lemma_inv_other_write(m, k, bool_bytes(approved));
}

/// `mint` keeps the invariant.
pub proof fn lemma_inv_mint(m: Records, caller: Seq<u8>, to: Seq<u8>)
    requires
        registry_inv(m),
        to.len() == 20,
    ensures
        registry_inv(mint_records(m, caller, to)),
{
    if mint_result(m, caller) is Ok {
        let id = mint_result(m, caller)->Ok_0;
        let c = counter_of(m)->Ok_0;
        assert(id == c + 1);
        let m1 = m.insert(token_seq_key(), be8(id));
        let m2 = m1.insert(token_owner_key(id), to);
        crate::codec::lemma_be8_round_trip(id);
        lemma_keys_distinct(id, id, seq![], seq![]);
        assert(counter_of(m2) == Ok::<u64, RegistryError>(id));
        assert forall|j: u64| #[trigger] m2.contains_key(token_owner_key(j)) implies 1 <= j
            <= counter_of(m2)->Ok_0 && m2[token_owner_key(j)].len() == 20 by {
            lemma_keys_distinct(j, id, seq![], seq![]);
        }
        assert forall|j: u64| #[trigger] m2.contains_key(token_approvals_key(j)) implies m2.contains_key(
            token_owner_key(j),
        ) && m2[token_approvals_key(j)].len() == 20 by {
            lemma_keys_distinct(j, id, seq![], seq![]);
            lemma_keys_distinct(id, j, seq![], seq![]);
        }
    }
}

/// `approve` keeps the invariant.
pub proof fn lemma_inv_approve(m: Records, caller: Seq<u8>, to: Seq<u8>, id: u64)
    requires
        registry_inv(m),
        to.len() == 20,
    ensures
        registry_inv(approve_records(m, caller, to, id)),
{
    if approve_result(m, caller, to, id) is Ok {
        let m2 = m.insert(token_approvals_key(id), to);
        lemma_keys_distinct(id, id, seq![], seq![]);
        assert(counter_of(m2) == counter_of(m));
        assert forall|j: u64| #[trigger] m2.contains_key(token_owner_key(j)) implies 1 <= j
            <= counter_of(m2)->Ok_0 && m2[token_owner_key(j)].len() == 20 by {
            lemma_keys_distinct(j, id, seq![], seq![]);
        }
        assert forall|j: u64| #[trigger] m2.contains_key(token_approvals_key(j)) implies m2.contains_key(
            token_owner_key(j),
        ) && m2[token_approvals_key(j)].len() == 20 by {
            lemma_keys_distinct(j, id, seq![], seq![]);
            lemma_keys_distinct(id, j, seq![], seq![]);
        }
    }
}

/// `transferFrom` keeps the invariant.
pub proof fn lemma_inv_transfer(m: Records, caller: Seq<u8>, from: Seq<u8>, to: Seq<u8>, id: u64)
    requires
        registry_inv(m),
        to.len() == 20,
    ensures
        registry_inv(transfer_records(m, caller, from, to, id)),
{
    if transfer_result(m, caller, from, id) is Ok {
        let m1 = m.insert(token_approvals_key(id), zero_address());
        let m2 = m1.insert(token_owner_key(id), to);
        lemma_keys_distinct(id, id, seq![], seq![]);
        assert(m.contains_key(token_owner_key(id)));
        assert(counter_of(m2) == counter_of(m));
        assert forall|j: u64| #[trigger] m2.contains_key(token_owner_key(j)) implies 1 <= j
            <= counter_of(m2)->Ok_0 && m2[token_owner_key(j)].len() == 20 by {
            lemma_keys_distinct(j, id, seq![], seq![]);
        }
        assert forall|j: u64| #[trigger] m2.contains_key(token_approvals_key(j)) implies m2.contains_key(
            token_owner_key(j),
        ) && m2[token_approvals_key(j)].len() == 20 by {
            lemma_keys_distinct(j, id, seq![], seq![]);
            lemma_keys_distinct(id, j, seq![], seq![]);
        }
    }
}

/// A token that was never minted has no owner, and asking whether anyone
/// may act on it fails the same way.
pub proof fn lemma_unminted_token_not_found(m: Records, id: u64, spender: Seq<u8>)
    requires
        registry_inv(m),
        id == 0 || id > counter_of(m)->Ok_0,
    ensures
        owner_of(m, id) == Err::<Seq<u8>, RegistryError>(RegistryError::TokenNotFound),
        approved_or_owner(m, spender, id) == Err::<bool, RegistryError>(
            RegistryError::TokenNotFound,
        ),
{
}

/// After a successful mint, the new token belongs to the recipient, nobody is
/// approved for it, and a mint by anyone but the minter fails and changes nothing.
pub proof fn lemma_mint_then_query(m: Records, minter: Seq<u8>, to: Seq<u8>, other: Seq<u8>)
    requires
        registry_inv(m),
        to.len() == 20,
        mint_result(m, minter) is Ok,
        other != minter,
    ensures
        owner_of(mint_records(m, minter, to), mint_result(m, minter)->Ok_0) == Ok::<
            Seq<u8>,
            RegistryError,
        >(to),
        approval_of(mint_records(m, minter, to), mint_result(m, minter)->Ok_0) == Ok::<
            Seq<u8>,
            RegistryError,
        >(zero_address()),
        mint_result(mint_records(m, minter, to), other) == Err::<u64, RegistryError>(
            RegistryError::Unauthorized,
        ),
        mint_records(mint_records(m, minter, to), other, to) == mint_records(m, minter, to),
{
    let id = mint_result(m, minter)->Ok_0;
    let m2 = mint_records(m, minter, to);
    lemma_keys_distinct(id, id, seq![], seq![]);
    assert(!m.contains_key(token_owner_key(id)));
    assert(!m.contains_key(token_approvals_key(id)));
    assert(minter_of(m2) == minter_of(m));
}

/// The owner approves `spender`; `spender` may then move the token elsewhere.
pub proof fn lemma_approve_then_transfer(
    m: Records,
    owner: Seq<u8>,
    spender: Seq<u8>,
    to: Seq<u8>,
    id: u64,
)
    requires
        owner_of(m, id) == Ok::<Seq<u8>, RegistryError>(owner),
        spender != owner,
        spender.len() == 20,
        to.len() == 20,
    ensures
        approve_result(m, owner, spender, id) == Ok::<(), RegistryError>(()),
        transfer_result(approve_records(m, owner, spender, id), spender, owner, id) == Ok::<
            (),
            RegistryError,
        >(()),
        owner_of(
            transfer_records(approve_records(m, owner, spender, id), spender, owner, to, id),
            id,
        ) == Ok::<Seq<u8>, RegistryError>(to),
{
    lemma_keys_distinct(id, id, seq![], seq![]);
    let m2 = approve_records(m, owner, spender, id);
    assert(owner_of(m2, id) == owner_of(m, id));
}

/// A caller that neither owns the token nor operates for its owner cannot
/// approve anyone for it, and the records stay as they were.
pub proof fn lemma_approve_by_stranger(m: Records, caller: Seq<u8>, to: Seq<u8>, id: u64)
    requires
        owner_of(m, id) is Ok,
        caller != owner_of(m, id)->Ok_0,
        to != owner_of(m, id)->Ok_0,
        operator_of(m, owner_of(m, id)->Ok_0, caller) == Ok::<bool, RegistryError>(false),
    ensures
        approve_result(m, caller, to, id) == Err::<(), RegistryError>(RegistryError::Unauthorized),
        approve_records(m, caller, to, id) == m,
{
}

/// An operator that the owner has enabled may move any token of that owner
/// without a per-token approval.
pub proof fn lemma_operator_may_transfer(
    m: Records,
    owner: Seq<u8>,
    operator: Seq<u8>,
    to: Seq<u8>,
    id: u64,
)
    requires
        registry_inv(m),
        owner_of(m, id) == Ok::<Seq<u8>, RegistryError>(owner),
        to.len() == 20,
    ensures
        transfer_result(set_approval_for_all_records(m, owner, operator, true), operator, owner, id)
            == Ok::<(), RegistryError>(()),
        owner_of(
            transfer_records(
                set_approval_for_all_records(m, owner, operator, true),
                operator,
                owner,
                to,
                id,
            ),
            id,
        ) == Ok::<Seq<u8>, RegistryError>(to),
{
    lemma_keys_distinct(id, id, owner, operator);
    let m2 = set_approval_for_all_records(m, owner, operator, true);
    assert(owner_of(m2, id) == owner_of(m, id));
    assert(approval_of(m2, id) == approval_of(m, id));
    assert(operator_of(m2, owner, operator) == Ok::<bool, RegistryError>(true));
}

/// Once the owner disables an operator, that operator can no longer move the
/// owner's tokens unless it is approved for the token itself.
pub proof fn lemma_revoked_operator_may_not_transfer(
    m: Records,
    owner: Seq<u8>,
    operator: Seq<u8>,
    id: u64,
)
    requires
        registry_inv(m),
        owner_of(m, id) == Ok::<Seq<u8>, RegistryError>(owner),
        operator != owner,
        approval_of(m, id) != Ok::<Seq<u8>, RegistryError>(operator),
    ensures
        transfer_result(
            set_approval_for_all_records(m, owner, operator, false),
            operator,
            owner,
            id,
        ) == Err::<(), RegistryError>(RegistryError::Unauthorized),
{
    lemma_keys_distinct(id, id, owner, operator);
    let m2 = set_approval_for_all_records(m, owner, operator, false);
    assert(owner_of(m2, id) == owner_of(m, id));
    assert(approval_of(m2, id) == approval_of(m, id));
    assert(bool_bytes(false)[0] != bool_bytes(true)[0]);
    assert(operator_of(m2, owner, operator) == Ok::<bool, RegistryError>(false));
}

/// A successful transfer hands the token to `to` and leaves nobody approved
/// for it, whatever approval it had before.
pub proof fn lemma_transfer_clears_approval(
    m: Records,
    caller: Seq<u8>,
    from: Seq<u8>,
    to: Seq<u8>,
    id: u64,
)
    requires
        transfer_result(m, caller, from, id) is Ok,
        to.len() == 20,
    ensures
        owner_of(transfer_records(m, caller, from, to, id), id) == Ok::<Seq<u8>, RegistryError>(
            to,
        ),
        approval_of(transfer_records(m, caller, from, to, id), id) == Ok::<
            Seq<u8>,
            RegistryError,
        >(zero_address()),
{
    lemma_keys_distinct(id, id, seq![], seq![]);
}

/// Moving a token from `a` to `b` and back, each time by its owner, restores
/// `a` as the owner and leaves nobody approved for it.
pub proof fn lemma_transfer_round_trip(m: Records, a: Seq<u8>, b: Seq<u8>, id: u64)
    requires
        owner_of(m, id) == Ok::<Seq<u8>, RegistryError>(a),
        a.len() == 20,
        b.len() == 20,
    ensures
        transfer_result(m, a, a, id) == Ok::<(), RegistryError>(()),
        approval_of(transfer_records(m, a, a, b, id), id) == Ok::<Seq<u8>, RegistryError>(
            zero_address(),
        ),
        transfer_result(transfer_records(m, a, a, b, id), b, b, id) == Ok::<(), RegistryError>(()),
        owner_of(transfer_records(transfer_records(m, a, a, b, id), b, b, a, id), id) == Ok::<
            Seq<u8>,
            RegistryError,
        >(a),
        approval_of(transfer_records(transfer_records(m, a, a, b, id), b, b, a, id), id) == Ok::<
            Seq<u8>,
            RegistryError,
        >(zero_address()),
{
    lemma_transfer_clears_approval(m, a, a, b, id);
    let m1 = transfer_records(m, a, a, b, id);
    lemma_transfer_clears_approval(m1, b, b, a, id);
}

} // verus!
