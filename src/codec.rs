use vstd::prelude::*;

verus! {

/// Big-endian, fixed-width encoding of a `u64`.
pub open spec fn be8(x: u64) -> Seq<u8> {
    seq![
        (x >> 56u64) as u8,
        (x >> 48u64) as u8,
        (x >> 40u64) as u8,
        (x >> 32u64) as u8,
        (x >> 24u64) as u8,
        (x >> 16u64) as u8,
        (x >> 8u64) as u8,
        x as u8,
    ]
}

/// The value of eight big-endian bytes.
pub open spec fn from_be8(s: Seq<u8>) -> u64 {
    ((s[0] as u64) << 56u64) | ((s[1] as u64) << 48u64) | ((s[2] as u64) << 40u64) | ((
    s[3] as u64) << 32u64) | ((s[4] as u64) << 24u64) | ((s[5] as u64) << 16u64) | ((
    s[6] as u64) << 8u64) | (s[7] as u64)
}

pub proof fn lemma_be8_round_trip(x: u64)
    ensures
        be8(x).len() == 8,
        from_be8(be8(x)) == x,
{
    let s = be8(x);
    let (b0, b1, b2, b3, b4, b5, b6, b7) = (s[0], s[1], s[2], s[3], s[4], s[5], s[6], s[7]);
    assert(b0 == (x >> 56u64) as u8 && b7 == x as u8);
    assert((((b0 as u64) << 56u64) | ((b1 as u64) << 48u64) | ((b2 as u64) << 40u64) | ((
    b3 as u64) << 32u64) | ((b4 as u64) << 24u64) | ((b5 as u64) << 16u64) | ((b6 as u64)
        << 8u64) | (b7 as u64)) == x) by (bit_vector)
        requires
            b0 == (x >> 56u64) as u8,
            b1 == (x >> 48u64) as u8,
            b2 == (x >> 40u64) as u8,
            b3 == (x >> 32u64) as u8,
            b4 == (x >> 24u64) as u8,
            b5 == (x >> 16u64) as u8,
            b6 == (x >> 8u64) as u8,
            b7 == x as u8,
    ;
}

pub proof fn lemma_be8_injective(x: u64, y: u64)
    ensures
        be8(x) == be8(y) ==> x == y,
{
    lemma_be8_round_trip(x);
    lemma_be8_round_trip(y);
}

/// Every eight bytes are the encoding of the value they hold.
pub proof fn lemma_from_be8_round_trip(s: Seq<u8>)
    requires
        s.len() == 8,
    ensures
        be8(from_be8(s)) == s,
{
    let (b0, b1, b2, b3, b4, b5, b6, b7) = (s[0], s[1], s[2], s[3], s[4], s[5], s[6], s[7]);
    let x = from_be8(s);
    assert(x == ((b0 as u64) << 56u64) | ((b1 as u64) << 48u64) | ((b2 as u64) << 40u64) | ((
    b3 as u64) << 32u64) | ((b4 as u64) << 24u64) | ((b5 as u64) << 16u64) | ((b6 as u64)
        << 8u64) | (b7 as u64));
    assert(b0 == (x >> 56u64) as u8 && b1 == (x >> 48u64) as u8 && b2 == (x >> 40u64) as u8
        && b3 == (x >> 32u64) as u8 && b4 == (x >> 24u64) as u8 && b5 == (x >> 16u64) as u8
        && b6 == (x >> 8u64) as u8 && b7 == x as u8) by (bit_vector)
        requires
            x == ((b0 as u64) << 56u64) | ((b1 as u64) << 48u64) | ((b2 as u64) << 40u64) | ((
            b3 as u64) << 32u64) | ((b4 as u64) << 24u64) | ((b5 as u64) << 16u64) | ((
            b6 as u64) << 8u64) | (b7 as u64),
    ;
    assert(be8(x) =~= s);
}

/// Encodes a `u64` as eight big-endian bytes.
pub fn u64_to_bytes(x: u64) -> (r: Vec<u8>)
    ensures
        r@ == be8(x),
{
    let r = vec![
        (x >> 56u64) as u8,
        (x >> 48u64) as u8,
        (x >> 40u64) as u8,
        (x >> 32u64) as u8,
        (x >> 24u64) as u8,
        (x >> 16u64) as u8,
        (x >> 8u64) as u8,
        x as u8,
    ];
    assert(r@ =~= be8(x));
    r
}

/// Decodes eight big-endian bytes; any other length is malformed.
pub fn u64_from_bytes(b: &Vec<u8>) -> (r: Option<u64>)
    ensures
        r.is_some() <==> b@.len() == 8,
        r.is_some() ==> be8(r.unwrap()) == b@ && r.unwrap() == from_be8(b@),
{
    if b.len() != 8 {
        return None;
    }
    let x: u64 = ((b[0] as u64) << 56u64) | ((b[1] as u64) << 48u64) | ((b[2] as u64) << 40u64)
        | ((b[3] as u64) << 32u64) | ((b[4] as u64) << 24u64) | ((b[5] as u64) << 16u64) | ((
    b[6] as u64) << 8u64) | (b[7] as u64);
    proof {
        lemma_from_be8_round_trip(b@);
    }
    Some(x)
}

/// One byte: 1 for true, 0 for false.
pub open spec fn bool_bytes(v: bool) -> Seq<u8> {
    if v {
        seq![1u8]
    } else {
        seq![0u8]
    }
}

/// Encodes a flag as one byte.
pub fn bool_to_bytes(v: bool) -> (r: Vec<u8>)
    ensures
        r@ == bool_bytes(v),
{
    let r = if v {
        vec![1u8]
    } else {
        vec![0u8]
    };
    assert(r@ =~= bool_bytes(v));
    r
}

/// Decodes a flag; anything but a single 0 or 1 byte is malformed.
pub fn bool_from_bytes(b: &Vec<u8>) -> (r: Option<bool>)
    ensures
        r.is_some() <==> (b@ == bool_bytes(true) || b@ == bool_bytes(false)),
        r.is_some() ==> bool_bytes(r.unwrap()) == b@,
        b@ == bool_bytes(true) ==> r == Some(true),
        b@ == bool_bytes(false) ==> r == Some(false),
{
    if b.len() == 1 && b[0] == 1 {
        assert(b@ =~= bool_bytes(true));
        Some(true)
    } else if b.len() == 1 && b[0] == 0 {
        assert(b@ =~= bool_bytes(false));
        Some(false)
    } else {
        None
    }
}

/// Number of bytes in an address.
pub const ADDRESS_LEN: usize = 20;

/// An account identity: twenty opaque bytes.
pub type Address = [u8; 20];

/// The address that stands for "no one".
pub open spec fn zero_address() -> Seq<u8> {
    Seq::new(20, |i: int| 0u8)
}

/// The zero address as a value.
pub fn zero() -> (r: Address)
    ensures
        r@ == zero_address(),
{
    let r: Address = [0u8; 20];
    assert(r@ =~= zero_address());
    r
}

/// Whether two addresses hold the same bytes.
pub fn address_eq(a: &Address, b: &Address) -> (r: bool)
    ensures
        r == (a@ == b@),
{
    let mut i: usize = 0;
    while i < ADDRESS_LEN
        invariant
            i <= ADDRESS_LEN,
            a@.len() == 20,
            b@.len() == 20,
            forall|j: int| 0 <= j < i ==> a@[j] == b@[j],
        decreases ADDRESS_LEN - i,
    {
        if a[i] != b[i] {
            return false;
        }
        i = i + 1;
    }
    assert(a@ =~= b@);
    true
}

/// The bytes of an address.
pub fn address_to_bytes(a: &Address) -> (r: Vec<u8>)
    ensures
        r@ == a@,
{
    let mut r: Vec<u8> = Vec::new();
    let mut i: usize = 0;
    while i < ADDRESS_LEN
        invariant
            i <= ADDRESS_LEN,
            a@.len() == 20,
            r@ == a@.take(i as int),
        decreases ADDRESS_LEN - i,
    {
        r.push(a[i]);
        i = i + 1;
        assert(r@ =~= a@.take(i as int));
    }
    assert(a@.take(20) =~= a@);
    r
}

/// Reads an address back from its bytes; any length but twenty is malformed.
pub fn address_from_bytes(b: &Vec<u8>) -> (r: Option<Address>)
    ensures
        r.is_some() <==> b@.len() == 20,
        r.is_some() ==> r.unwrap()@ == b@,
{
    if b.len() != ADDRESS_LEN {
        return None;
    }
    let mut a: Address = [0u8; 20];
    let mut i: usize = 0;
    while i < ADDRESS_LEN
        invariant
            i <= ADDRESS_LEN,
            b@.len() == 20,
            a@.len() == 20,
            forall|j: int| 0 <= j < i ==> a@[j] == b@[j],
        decreases ADDRESS_LEN - i,
    {
        a[i] = b[i];
        i = i + 1;
    }
    assert(a@ =~= b@);
    Some(a)
}

/// The concatenated big-endian encodings of a sequence of ids.
pub open spec fn be8_concat(ids: Seq<u64>) -> Seq<u8>
    decreases ids.len(),
{
    if ids.len() == 0 {
        seq![]
    } else {
        be8_concat(ids.drop_last()) + be8(ids.last())
    }
}

/// Packs token ids into one byte string, eight big-endian bytes each.
pub fn encode_token_ids(ids: &Vec<u64>) -> (r: Vec<u8>)
    ensures
        r@ == be8_concat(ids@),
{
    let mut r: Vec<u8> = Vec::new();
    let mut i: usize = 0;
    while i < ids.len()
        invariant
            i <= ids@.len(),
            r@ == be8_concat(ids@.take(i as int)),
        decreases ids@.len() - i,
    {
        let mut enc = u64_to_bytes(ids[i]);
        r.append(&mut enc);
        assert(ids@.take(i as int + 1).drop_last() =~= ids@.take(i as int));
        i = i + 1;
    }
    assert(ids@.take(ids@.len() as int) =~= ids@);
    r
}

} // verus!
