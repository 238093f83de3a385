//! Addresses as plain values, and their canonical byte encoding.

use vstd::prelude::*;

verus! {

/// Who an address stands for: an account, named by its ed25519 public key, or a
/// contract, named by its contract id.
#[derive(Clone, Copy, Debug, PartialEq, Eq)]
pub enum Address {
    Account([u8; 32]),
    Contract([u8; 32]),
}

impl View for Address {
    type V = Address;

    open spec fn view(&self) -> Address {
        *self
    }
}

/// XDR discriminant of an address value.
pub open spec fn address_value_tag() -> Seq<u8> {
    seq![0u8, 0u8, 0u8, 18u8]
}

/// XDR discriminants of an account with an ed25519 key: the address kind, then
/// the key kind.
pub open spec fn account_tag() -> Seq<u8> {
    seq![0u8, 0u8, 0u8, 0u8, 0u8, 0u8, 0u8, 0u8]
}

/// XDR discriminant of a contract.
pub open spec fn contract_tag() -> Seq<u8> {
    seq![0u8, 0u8, 0u8, 1u8]
}

/// The XDR form of an address: the discriminants, then the 32 bytes that name it.
pub open spec fn address_encoding(address: Address) -> Seq<u8> {
    match address {
        Address::Account(key) => address_value_tag() + account_tag() + key@,
        Address::Contract(id) => address_value_tag() + contract_tag() + id@,
    }
}

/// Two 32-byte strings are equal when all their bytes are.
pub fn same_bytes32(left: &[u8; 32], right: &[u8; 32]) -> (same: bool)
    ensures
        same == (*left == *right),
{
    let mut i: usize = 0;
    while i < 32
        invariant
            0 <= i <= 32,
            forall|j: int| 0 <= j < i ==> left[j] == right[j],
        decreases 32 - i,
    {
        if left[i] != right[i] {
            return false;
        }
        i += 1;
    }
    assert(*left =~= *right);
    true
}

/// Whether two addresses are the same address.
pub fn same_address(left: &Address, right: &Address) -> (same: bool)
    ensures
        same == (*left == *right),
{
    match (left, right) {
        (Address::Account(a), Address::Account(b)) => same_bytes32(a, b),
        (Address::Contract(a), Address::Contract(b)) => same_bytes32(a, b),
        _ => false,
    }
}

/// Whether `address` is on `list`.
pub(crate) fn is_on(list: &Vec<Address>, address: &Address) -> (found: bool)
    ensures
        found == list@.contains(*address),
{
    let mut i: usize = 0;
    while i < list.len()
        invariant
            0 <= i <= list@.len(),
            forall|j: int| 0 <= j < i ==> list@[j] != *address,
        decreases list@.len() - i,
    {
        if same_address(&list[i], address) {
            assert(list@[i as int] == *address);
            return true;
        }
        i += 1;
    }
    false
}

/// Stable byte representation of an address, for use inside a hashed key: its XDR
/// form, the same encoding that the network uses to identify it.
pub fn address_bytes(address: &Address) -> (bytes: Vec<u8>)
    ensures
        bytes@ == address_encoding(*address),
{
    let mut bytes: Vec<u8> = vec![0u8, 0u8, 0u8, 18u8];
    let name: &[u8; 32] = match address {
        Address::Account(key) => {
            let mut tag: Vec<u8> = vec![0u8, 0u8, 0u8, 0u8, 0u8, 0u8, 0u8, 0u8];
            assert(tag@ =~= account_tag());
            bytes.append(&mut tag);
            key
        },
        Address::Contract(id) => {
            let mut tag: Vec<u8> = vec![0u8, 0u8, 0u8, 1u8];
            assert(tag@ =~= contract_tag());
            bytes.append(&mut tag);
            id
        },
    };
    let ghost tags = bytes@;
    assert(tags + name@ =~= address_encoding(*address));
    let mut i: usize = 0;
    while i < 32
        invariant
            0 <= i <= 32,
            bytes@ == tags + name@.take(i as int),
        decreases 32 - i,
    {
        bytes.push(name[i]);
        i += 1;
        assert(name@.take(i as int) =~= name@.take(i - 1).push(name@[i - 1]));
    }
    assert(name@.take(32) =~= name@);
    bytes
}

/// The 32 bytes of `bytes` from `from` on.
fn name_at(bytes: &Vec<u8>, from: usize) -> (name: [u8; 32])
    requires
        from + 32 <= bytes.len(),
    ensures
        name@ == bytes@.subrange(from as int, from + 32),
{
    let mut name: [u8; 32] = [0u8; 32];
    let mut i: usize = 0;
    while i < 32
        invariant
            0 <= i <= 32,
            from + 32 <= bytes.len(),
            forall|j: int| 0 <= j < i ==> name@[j] == bytes@[from + j],
        decreases 32 - i,
    {
        name[i] = bytes[from + i];
        i += 1;
    }
    assert(name@ =~= bytes@.subrange(from as int, from + 32));
    name
}

/// Whether `bytes` holds `expected` from `from` on.
fn holds_at(bytes: &Vec<u8>, from: usize, expected: &Vec<u8>) -> (held: bool)
    requires
        from + expected@.len() <= bytes.len(),
    ensures
        held == (bytes@.subrange(from as int, from + expected@.len()) == expected@),
{
    let mut i: usize = 0;
    while i < expected.len()
        invariant
            0 <= i <= expected@.len(),
            from + expected@.len() <= bytes.len(),
            forall|j: int| 0 <= j < i ==> bytes@[from + j] == expected@[j],
        decreases expected@.len() - i,
    {
        if bytes[from + i] != expected[i] {
            assert(bytes@.subrange(from as int, from + expected@.len())[i as int]
                != expected@[i as int]);
            return false;
        }
        i += 1;
    }
    assert(bytes@.subrange(from as int, from + expected@.len()) =~= expected@);
    true
}

/// The address whose byte representation is `bytes`, if there is one: the inverse
/// of [`address_bytes`].
pub fn address_from_bytes(bytes: &Vec<u8>) -> (address: Option<Address>)
    ensures
        match address {
            Some(named) => bytes@ == address_encoding(named),
            None => forall|named: Address| bytes@ != #[trigger] address_encoding(named),
        },
{
    let value_tag: Vec<u8> = vec![0u8, 0u8, 0u8, 18u8];
    let key_tag: Vec<u8> = vec![0u8, 0u8, 0u8, 0u8, 0u8, 0u8, 0u8, 0u8];
    let id_tag: Vec<u8> = vec![0u8, 0u8, 0u8, 1u8];
    proof {
        assert(value_tag@ =~= address_value_tag());
        assert(key_tag@ =~= account_tag());
        assert(id_tag@ =~= contract_tag());
        assert forall|named: Address| bytes@ == #[trigger] address_encoding(named) implies (match named {
            Address::Account(key) => {
                &&& bytes@.len() == 44
                &&& bytes@.subrange(0, 4) == address_value_tag()
                &&& bytes@.subrange(4, 12) == account_tag()
            },
            Address::Contract(id) => {
                &&& bytes@.len() == 40
                &&& bytes@.subrange(0, 4) == address_value_tag()
                &&& bytes@.subrange(4, 8) == contract_tag()
            },
        }) by {
            match named {
                Address::Account(key) => {
                    assert(bytes@.subrange(0, 4) =~= address_value_tag());
                    assert(bytes@.subrange(4, 12) =~= account_tag());
                },
                Address::Contract(id) => {
                    assert(bytes@.subrange(0, 4) =~= address_value_tag());
                    assert(bytes@.subrange(4, 8) =~= contract_tag());
                },
            }
        }
    }
    if bytes.len() == 44 && holds_at(bytes, 0, &value_tag) && holds_at(bytes, 4, &key_tag) {
        let key = name_at(bytes, 12);
        assert(bytes@ =~= bytes@.subrange(0, 4) + bytes@.subrange(4, 12) + bytes@.subrange(12, 44));
        Some(Address::Account(key))
    } else if bytes.len() == 40 && holds_at(bytes, 0, &value_tag) && holds_at(bytes, 4, &id_tag) {
        let id = name_at(bytes, 8);
        assert(bytes@ =~= bytes@.subrange(0, 4) + bytes@.subrange(4, 8) + bytes@.subrange(8, 40));
        Some(Address::Contract(id))
    } else {
        None
    }
}

/// No two addresses share an encoding.
pub proof fn lemma_address_encoding_is_injective(left: Address, right: Address)
    requires
        address_encoding(left) == address_encoding(right),
    ensures
        left == right,
{
    let l = address_encoding(left);
    let r = address_encoding(right);
    match (left, right) {
        (Address::Account(a), Address::Account(b)) => {
            assert forall|i: int| 0 <= i < 32 implies a[i] == b[i] by {
                assert(l[12 + i] == a@[i]);
                assert(r[12 + i] == b@[i]);
            }
            assert(a =~= b);
        },
        (Address::Contract(a), Address::Contract(b)) => {
            assert forall|i: int| 0 <= i < 32 implies a[i] == b[i] by {
                assert(l[8 + i] == a@[i]);
                assert(r[8 + i] == b@[i]);
            }
            assert(a =~= b);
        },
        (Address::Account(a), Address::Contract(b)) => {
            assert(l[7] == account_tag()[3]);
            assert(r[7] == contract_tag()[3]);
        },
        (Address::Contract(a), Address::Account(b)) => {
            assert(l[7] == contract_tag()[3]);
            assert(r[7] == account_tag()[3]);
        },
    }
}

/// How long an encoding is.
pub proof fn lemma_address_encoding_is_short(address: Address)
    ensures
        40 <= address_encoding(address).len() <= 44,
{
    match address {
        Address::Account(key) => assert(key@.len() == 32),
        Address::Contract(id) => assert(id@.len() == 32),
    }
}

} // verus!
