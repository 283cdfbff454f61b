use vstd::prelude::*;

use crate::codec::{be8, bool_bytes, zero_address};
use crate::error::RegistryError;
use crate::keys::{minter_key, operator_approvals_key, token_approvals_key, token_owner_key, token_seq_key};
use crate::mint::{counter_of, minter_of, next_id_of, Records};
use crate::token::{approved_or_owner, operator_of, owner_of};

verus! {

/// Records after `init` by `caller`: the caller becomes the minter.
pub open spec fn init_records(m: Records, caller: Seq<u8>) -> Records {
    m.insert(minter_key(), caller)
}

/// Outcome of `mint(to)` by `caller`.
pub open spec fn mint_result(m: Records, caller: Seq<u8>) -> Result<u64, RegistryError> {
    match minter_of(m) {
        Err(e) => Err(e),
        Ok(minter) => if minter != caller {
            Err(RegistryError::Unauthorized)
        } else {
            next_id_of(m)
        },
    }
}

/// Records after `mint(to)` by `caller`: on success the counter advances and
/// `to` owns the new id; on failure nothing changes.
pub open spec fn mint_records(m: Records, caller: Seq<u8>, to: Seq<u8>) -> Records {
    match mint_result(m, caller) {
        Ok(id) => m.insert(token_seq_key(), be8(id)).insert(token_owner_key(id), to),
        Err(_) => m,
    }
}

/// Outcome of `approve(to, id)` by `caller`.
pub open spec fn approve_result(m: Records, caller: Seq<u8>, to: Seq<u8>, id: u64) -> Result<
    (),
    RegistryError,
> {
    match owner_of(m, id) {
        Err(e) => Err(e),
        Ok(owner) => if owner == to {
            Err(RegistryError::InvalidApproval)
        } else if owner == caller {
            Ok(())
        } else {
            match operator_of(m, owner, caller) {
                Err(e) => Err(e),
                Ok(true) => Ok(()),
                Ok(false) => Err(RegistryError::Unauthorized),
            }
        },
    }
}

/// Records after `approve(to, id)` by `caller`.
pub open spec fn approve_records(m: Records, caller: Seq<u8>, to: Seq<u8>, id: u64) -> Records {
    if approve_result(m, caller, to, id) is Ok {
        m.insert(token_approvals_key(id), to)
    } else {
        m
    }
}

/// Records after `setApprovalForAll(operator, approved)` by `caller`.
pub open spec fn set_approval_for_all_records(
    m: Records,
    caller: Seq<u8>,
    operator: Seq<u8>,
    approved: bool,
) -> Records {
    m.insert(operator_approvals_key(caller, operator), bool_bytes(approved))
}

/// Outcome of `transferFrom(from, to, id)` by `caller`.
pub open spec fn transfer_result(m: Records, caller: Seq<u8>, from: Seq<u8>, id: u64) -> Result<
    (),
    RegistryError,
> {
    match approved_or_owner(m, caller, id) {
        Err(e) => Err(e),
        Ok(false) => Err(RegistryError::Unauthorized),
        Ok(true) => if owner_of(m, id) != Ok::<Seq<u8>, RegistryError>(from) {
            Err(RegistryError::NotOwner)
        } else {
            Ok(())
        },
    }
}

/// Records after `transferFrom(from, to, id)` by `caller`: on success the
/// approval is cleared and `to` owns the token.
pub open spec fn transfer_records(
    m: Records,
    caller: Seq<u8>,
    from: Seq<u8>,
    to: Seq<u8>,
    id: u64,
) -> Records {
    if transfer_result(m, caller, from, id) is Ok {
        m.insert(token_approvals_key(id), zero_address()).insert(token_owner_key(id), to)
    } else {
        m
    }
}

/// The ids among `1..=n` that `owner` holds, ascending; the first failing
/// owner read decides the error.
pub open spec fn tokens_scan(m: Records, owner: Seq<u8>, n: nat) -> Result<Seq<u64>, RegistryError>
    decreases n,
{
    if n == 0 {
        Ok(seq![])
    } else {
        match tokens_scan(m, owner, (n - 1) as nat) {
            Err(e) => Err(e),
            Ok(s) => match owner_of(m, n as u64) {
                Err(e) => Err(e),
                Ok(o) => if o == owner {
                    Ok(s.push(n as u64))
                } else {
                    Ok(s)
                },
            },
        }
    }
}

/// Outcome of `tokensOfOwner(owner)`.
pub open spec fn tokens_of_owner_result(m: Records, owner: Seq<u8>) -> Result<
    Seq<u64>,
    RegistryError,
> {
    match counter_of(m) {
        Err(e) => Err(e),
        Ok(c) => if c == 0 {
            Err(RegistryError::EmptyRegistry)
        } else {
            tokens_scan(m, owner, c as nat)
        },
    }
}

/// Once the scan fails, every longer scan fails the same way.
pub proof fn lemma_tokens_scan_err_sticks(m: Records, owner: Seq<u8>, k: nat, n: nat)
    requires
        k <= n,
        tokens_scan(m, owner, k) is Err,
    ensures
        tokens_scan(m, owner, n) == tokens_scan(m, owner, k),
    decreases n - k,
{
    if k < n {
        lemma_tokens_scan_err_sticks(m, owner, k, (n - 1) as nat);
    }
}

/// A successful scan of `1..=n` lists, in strictly ascending order, exactly
/// the ids in that range that `owner` holds.
pub proof fn lemma_tokens_scan_exact(m: Records, owner: Seq<u8>, n: nat)
    requires
        n <= u64::MAX,
        tokens_scan(m, owner, n) is Ok,
    ensures
        forall|i: int, j: int|
            0 <= i < j < tokens_scan(m, owner, n)->Ok_0.len() ==> tokens_scan(m, owner, n)->Ok_0[i]
                < tokens_scan(m, owner, n)->Ok_0[j],
        forall|i: int|
            0 <= i < tokens_scan(m, owner, n)->Ok_0.len() ==> 1 <= #[trigger] tokens_scan(
                m,
                owner,
                n,
            )->Ok_0[i] <= n,
        forall|id: u64|
            1 <= id <= n ==> (#[trigger] tokens_scan(m, owner, n)->Ok_0.contains(id) <==> owner_of(
                m,
                id,
            ) == Ok::<Seq<u8>, RegistryError>(owner)),
    decreases n,
{
    if n > 0 {
        let k = (n - 1) as nat;
        lemma_tokens_scan_exact(m, owner, k);
        let prev = tokens_scan(m, owner, k)->Ok_0;
        let s = tokens_scan(m, owner, n)->Ok_0;
        assert forall|id: u64| 1 <= id <= n implies (#[trigger] s.contains(id) <==> owner_of(
            m,
            id,
        ) == Ok::<Seq<u8>, RegistryError>(owner)) by {
            if id < n {
                if s.contains(id) {
                    let i = choose|i: int| 0 <= i < s.len() && s[i] == id;
                    if i < prev.len() {
                        assert(prev[i] == id);
                        assert(prev.contains(id));
                    }
                } else if prev.contains(id) {
                    let i = choose|i: int| 0 <= i < prev.len() && prev[i] == id;
                    assert(s[i] == id);
                }
            } else {
                if s.contains(id) {
                    let i = choose|i: int| 0 <= i < s.len() && s[i] == id;
                    if i < prev.len() {
                        assert(prev[i] <= k);
                    }
                } else if owner_of(m, id) == Ok::<Seq<u8>, RegistryError>(owner) {
                    assert(s[s.len() - 1] == id);
                }
            }
        }
    }
}

} // verus!
