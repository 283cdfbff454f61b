use vstd::prelude::*;

use crate::codec::be8;

verus! {

/// The byte that separates the parts of a key: `/`.
pub const SEPARATOR: u8 = 47;

/// The parts joined in order, with one separator between neighbours.
pub open spec fn join_parts(parts: Seq<Seq<u8>>) -> Seq<u8>
    decreases parts.len(),
{
    if parts.len() == 0 {
        seq![]
    } else if parts.len() == 1 {
        parts[0]
    } else {
        join_parts(parts.drop_last()) + seq![SEPARATOR] + parts.last()
    }
}

/// The bytes of each part.
pub open spec fn parts_view(parts: Seq<Vec<u8>>) -> Seq<Seq<u8>> {
    parts.map_values(|p: Vec<u8>| p@)
}

/// Builds a storage key by joining its parts with the separator.
pub fn make_key_by_parts(parts: &Vec<Vec<u8>>) -> (r: Vec<u8>)
    ensures
        r@ == join_parts(parts_view(parts@)),
{
    let ghost dv = parts_view(parts@);
    let mut r: Vec<u8> = Vec::new();
    let mut i: usize = 0;
    while i < parts.len()
        invariant
            i <= parts@.len(),
            dv == parts_view(parts@),
            dv.len() == parts@.len(),
            r@ == join_parts(dv.take(i as int)),
        decreases parts@.len() - i,
    {
        if i > 0 {
            r.push(SEPARATOR);
        }
        let part = &parts[i];
        let ghost base = r@;
        let mut j: usize = 0;
        while j < part.len()
            invariant
                j <= part@.len(),
                r@ == base + part@.take(j as int),
            decreases part@.len() - j,
        {
            r.push(part[j]);
            j = j + 1;
            assert(r@ =~= base + part@.take(j as int));
        }
        assert(part@.take(part@.len() as int) =~= part@);
        assert(part@ == dv[i as int]);
        assert(dv.take(i as int + 1).drop_last() =~= dv.take(i as int));
        i = i + 1;
    }
    assert(dv.take(dv.len() as int) =~= dv);
    r
}

/// `minter`
pub open spec fn minter_ns() -> Seq<u8> {
    seq![109u8, 105, 110, 116, 101, 114]
}

/// `mint`
pub open spec fn token_seq_ns() -> Seq<u8> {
    seq![109u8, 105, 110, 116]
}

/// `tokenOwner`
pub open spec fn token_owner_ns() -> Seq<u8> {
    seq![116u8, 111, 107, 101, 110, 79, 119, 110, 101, 114]
}

/// `tokenApprovals`
pub open spec fn token_approvals_ns() -> Seq<u8> {
    seq![116u8, 111, 107, 101, 110, 65, 112, 112, 114, 111, 118, 97, 108, 115]
}

/// `operatorApprovals`
pub open spec fn operator_approvals_ns() -> Seq<u8> {
    seq![111u8, 112, 101, 114, 97, 116, 111, 114, 65, 112, 112, 114, 111, 118, 97, 108, 115]
}

/// Key of the minter record.
pub open spec fn minter_key() -> Seq<u8> {
    join_parts(seq![minter_ns()])
}

/// Key of the token-id counter.
pub open spec fn token_seq_key() -> Seq<u8> {
    join_parts(seq![token_seq_ns()])
}

/// Key of the owner record of a token.
pub open spec fn token_owner_key(id: u64) -> Seq<u8> {
    join_parts(seq![token_owner_ns(), be8(id)])
}

/// Key of the approval record of a token.
pub open spec fn token_approvals_key(id: u64) -> Seq<u8> {
    join_parts(seq![token_approvals_ns(), be8(id)])
}

/// Key of the flag that lets `operator` act for `owner`.
pub open spec fn operator_approvals_key(owner: Seq<u8>, operator: Seq<u8>) -> Seq<u8> {
    join_parts(seq![operator_approvals_ns(), owner, operator])
}

/// The keys written out byte by byte.
pub proof fn lemma_key_shapes(id: u64, owner: Seq<u8>, operator: Seq<u8>)
    ensures
        minter_key() == minter_ns(),
        token_seq_key() == token_seq_ns(),
        token_owner_key(id) == token_owner_ns() + seq![SEPARATOR] + be8(id),
        token_approvals_key(id) == token_approvals_ns() + seq![SEPARATOR] + be8(id),
        operator_approvals_key(owner, operator) == operator_approvals_ns() + seq![SEPARATOR]
            + owner + seq![SEPARATOR] + operator,
{
    reveal_with_fuel(join_parts, 4);
    let owner_parts = seq![token_owner_ns(), be8(id)];
    assert(owner_parts.drop_last() =~= seq![token_owner_ns()]);
    let approval_parts = seq![token_approvals_ns(), be8(id)];
    assert(approval_parts.drop_last() =~= seq![token_approvals_ns()]);
    let operator_parts = seq![operator_approvals_ns(), owner, operator];
    assert(operator_parts.drop_last() =~= seq![operator_approvals_ns(), owner]);
    assert(operator_parts.drop_last().drop_last() =~= seq![operator_approvals_ns()]);
}

/// Keys of different kinds never meet, and a token's keys tell its id.
pub proof fn lemma_keys_distinct(id: u64, id2: u64, owner: Seq<u8>, operator: Seq<u8>)
    ensures
        minter_key() != token_seq_key(),
        minter_key() != token_owner_key(id),
        minter_key() != token_approvals_key(id),
        minter_key() != operator_approvals_key(owner, operator),
        token_seq_key() != token_owner_key(id),
        token_seq_key() != token_approvals_key(id),
        token_seq_key() != operator_approvals_key(owner, operator),
        token_owner_key(id) != token_approvals_key(id2),
        token_owner_key(id) != operator_approvals_key(owner, operator),
        token_approvals_key(id) != operator_approvals_key(owner, operator),
        token_owner_key(id) == token_owner_key(id2) ==> id == id2,
        token_approvals_key(id) == token_approvals_key(id2) ==> id == id2,
{
    lemma_key_shapes(id, owner, operator);
    lemma_key_shapes(id2, owner, operator);
    assert(minter_key().len() != token_seq_key().len());
    assert(minter_key()[0] != token_owner_key(id)[0]);
    assert(minter_key()[0] != token_approvals_key(id)[0]);
    assert(minter_key()[0] != operator_approvals_key(owner, operator)[0]);
    assert(token_seq_key()[0] != token_owner_key(id)[0]);
    assert(token_seq_key()[0] != token_approvals_key(id)[0]);
    assert(token_seq_key()[0] != operator_approvals_key(owner, operator)[0]);
    assert(token_owner_key(id)[5] != token_approvals_key(id2)[5]);
    assert(token_owner_key(id)[0] != operator_approvals_key(owner, operator)[0]);
    assert(token_approvals_key(id)[0] != operator_approvals_key(owner, operator)[0]);
    if token_owner_key(id) == token_owner_key(id2) {
        assert(be8(id) =~= token_owner_key(id).subrange(11, 19));
        assert(be8(id2) =~= token_owner_key(id2).subrange(11, 19));
        crate::codec::lemma_be8_injective(id, id2);
    }
    if token_approvals_key(id) == token_approvals_key(id2) {
        assert(be8(id) =~= token_approvals_key(id).subrange(15, 23));
        assert(be8(id2) =~= token_approvals_key(id2).subrange(15, 23));
        crate::codec::lemma_be8_injective(id, id2);
    }
}

/// A key of one part.
pub fn make_key1(a: Vec<u8>) -> (r: Vec<u8>)
    ensures
        r@ == join_parts(seq![a@]),
{
    let ghost av = a@;
    let parts = vec![a];
    assert(parts_view(parts@) =~= seq![av]);
    make_key_by_parts(&parts)
}

/// A key of two parts.
pub fn make_key2(a: Vec<u8>, b: Vec<u8>) -> (r: Vec<u8>)
    ensures
        r@ == join_parts(seq![a@, b@]),
{
    let ghost av = a@;
    let ghost bv = b@;
    let parts = vec![a, b];
    assert(parts_view(parts@) =~= seq![av, bv]);
    make_key_by_parts(&parts)
}

/// A key of three parts.
pub fn make_key3(a: Vec<u8>, b: Vec<u8>, c: Vec<u8>) -> (r: Vec<u8>)
    ensures
        r@ == join_parts(seq![a@, b@, c@]),
{
    let ghost av = a@;
    let ghost bv = b@;
    let ghost cv = c@;
    let parts = vec![a, b, c];
    assert(parts_view(parts@) =~= seq![av, bv, cv]);
    make_key_by_parts(&parts)
}

/// The bytes of `minter`.
pub fn minter_ns_bytes() -> (r: Vec<u8>)
    ensures
        r@ == minter_ns(),
{
    let r = vec![109u8, 105, 110, 116, 101, 114];
    assert(r@ =~= minter_ns());
    r
}

/// The bytes of `mint`.
pub fn token_seq_ns_bytes() -> (r: Vec<u8>)
    ensures
        r@ == token_seq_ns(),
{
    let r = vec![109u8, 105, 110, 116];
    assert(r@ =~= token_seq_ns());
    r
}

/// The bytes of `tokenOwner`.
pub fn token_owner_ns_bytes() -> (r: Vec<u8>)
    ensures
        r@ == token_owner_ns(),
{
    let r = vec![116u8, 111, 107, 101, 110, 79, 119, 110, 101, 114];
    assert(r@ =~= token_owner_ns());
    r
}

/// The bytes of `tokenApprovals`.
pub fn token_approvals_ns_bytes() -> (r: Vec<u8>)
    ensures
        r@ == token_approvals_ns(),
{
    let r = vec![116u8, 111, 107, 101, 110, 65, 112, 112, 114, 111, 118, 97, 108, 115];
    assert(r@ =~= token_approvals_ns());
    r
}

/// The bytes of `operatorApprovals`.
pub fn operator_approvals_ns_bytes() -> (r: Vec<u8>)
    ensures
        r@ == operator_approvals_ns(),
{
    let r = vec![111u8, 112, 101, 114, 97, 116, 111, 114, 65, 112, 112, 114, 111, 118, 97, 108, 115];
    assert(r@ =~= operator_approvals_ns());
    r
}

} // verus!
