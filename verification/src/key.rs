//! Keys of the global state and the access rights that unforgeable references carry.
use vstd::prelude::*;

verus! {

/// Length of the address of an unforgeable reference.
pub const UREF_ADDR_SIZE: usize = 32;

/// Length of a contract hash.
pub const HASH_SIZE: usize = 32;

/// Whether two 32-byte arrays are equal.
pub fn bytes32_equal(a: &[u8; 32], b: &[u8; 32]) -> (r: bool)
    ensures
        r == (*a == *b),
{
    let mut i: usize = 0;
    while i < 32
        invariant
            i <= 32,
            forall|j: int| 0 <= j < i ==> a[j] == b[j],
        decreases 32 - i,
    {
        if a[i] != b[i] {
            return false;
        }
        i = i + 1;
    }
    assert(*a =~= *b);
    true
}

/// A set of access rights, as bits: read is 1, write is 2, add is 4.
#[derive(Clone, Copy, Debug, PartialEq, Eq, Structural)]
pub struct AccessRights {
    pub bits: u8,
}

impl AccessRights {
    /// The right to read.
    pub fn read() -> (r: AccessRights)
        ensures
            r.bits == 1,
    {
        AccessRights { bits: 1 }
    }

    /// Read, add and write together.
    pub fn read_add_write() -> (r: AccessRights)
        ensures
            r.bits == 7,
    {
        AccessRights { bits: 7 }
    }

    /// Whether the set holds the right to read.
    pub open spec fn readable(self) -> bool {
        self.bits % 2 == 1
    }

    /// A set of rights is readable exactly when it holds the read bit, whatever else it
    /// holds: read, read-write, read-add and read-add-write are readable; add, write and
    /// add-write are not.
    pub proof fn lemma_readable_is_read_bit(self)
        ensures
            self.readable() <==> (self.bits & 1u8) == 1u8,
    {
        let b = self.bits;
        assert((b & 1 == 1) == (b % 2 == 1)) by (bit_vector);
    }

    /// Whether the set holds the right to read.
    pub fn is_readable(self) -> (r: bool)
        ensures
            r == self.readable(),
    {
        let b = self.bits;
        assert((b & 1 == 1) == (b % 2 == 1)) by (bit_vector);
        b & 1 == 1
    }
}

/// An unforgeable reference: an address with the rights its holder has, if any.
#[derive(Clone, Copy, Debug, PartialEq, Eq)]
pub struct URef {
    pub addr: [u8; 32],
    pub access_rights: Option<AccessRights>,
}

impl URef {
    /// A reference to `addr` that carries `rights`.
    pub fn new(addr: [u8; 32], rights: AccessRights) -> (r: URef)
        ensures
            r.addr == addr,
            r.access_rights == Some(rights),
    {
        URef { addr, access_rights: Some(rights) }
    }

    /// Whether the reference carries the right to read.
    pub open spec fn readable(self) -> bool {
        match self.access_rights {
            Some(rights) => rights.readable(),
            None => false,
        }
    }

    /// Whether the reference carries the right to read.
    pub fn is_readable(self) -> (r: bool)
        ensures
            r == self.readable(),
    {
        match self.access_rights {
            Some(rights) => rights.is_readable(),
            None => false,
        }
    }

    /// Whether both references name the same address with the same rights.
    pub fn same_as(&self, other: &URef) -> (r: bool)
        ensures
            r == (*self == *other),
    {
        if !bytes32_equal(&self.addr, &other.addr) {
            return false;
        }
        match (self.access_rights, other.access_rights) {
            (None, None) => true,
            (Some(x), Some(y)) => x.bits == y.bits,
            _ => false,
        }
    }

    /// The same address without any rights.
    pub open spec fn without_rights(self) -> URef {
        URef { addr: self.addr, access_rights: None }
    }

    /// The same address without any rights.
    pub fn remove_access_rights(self) -> (r: URef)
        ensures
            r == self.without_rights(),
    {
        URef { addr: self.addr, access_rights: None }
    }
}

/// A key of the global state.
#[derive(Clone, Copy, Debug, PartialEq, Eq)]
pub enum Key {
    Account([u8; 32]),
    Hash([u8; 32]),
    URef(URef),
    Local([u8; 32]),
}

/// The kinds of keys, for reporting.
#[derive(Clone, Copy, Debug, PartialEq, Eq, Structural)]
pub enum KeyKind {
    Account,
    Hash,
    URef,
    Local,
}

impl Key {
    /// Whether both keys are the same.
    pub fn same_as(&self, other: &Key) -> (r: bool)
        ensures
            r == (*self == *other),
    {
        match (self, other) {
            (Key::Account(a), Key::Account(b)) => bytes32_equal(a, b),
            (Key::Hash(a), Key::Hash(b)) => bytes32_equal(a, b),
            (Key::URef(a), Key::URef(b)) => a.same_as(b),
            (Key::Local(a), Key::Local(b)) => bytes32_equal(a, b),
            _ => false,
        }
    }

    /// The key with the rights of a reference removed; other keys stay as they are.
    pub open spec fn normalized(self) -> Key {
        match self {
            Key::URef(u) => Key::URef(u.without_rights()),
            other => other,
        }
    }

    /// The key with the rights of a reference removed; other keys stay as they are.
    pub fn normalize(self) -> (r: Key)
        ensures
            r == self.normalized(),
    {
        match self {
            Key::URef(u) => Key::URef(u.remove_access_rights()),
            other => other,
        }
    }

    /// The account address, for an account key.
    pub open spec fn account_of(self) -> Option<[u8; 32]> {
        match self {
            Key::Account(a) => Some(a),
            _ => None,
        }
    }

    /// Only an account key has an account address, and it is the key's own address.
    pub proof fn lemma_account_of_is_own_address(self)
        ensures
            self.account_of() is Some <==> self is Account,
            self.account_of() matches Some(a) ==> self == Key::Account(a),
            forall|a: [u8; 32]| #[trigger] Key::Account(a).account_of() == Some(a),
    {
    }

    /// Stripping the rights of a key keeps its kind and its address: a reference loses
    /// its rights, and every other key stays as it is.
    pub proof fn lemma_normalized_keeps_address(self)
        ensures
            self matches Key::URef(u) ==> self.normalized() == Key::URef(
                (URef { addr: u.addr, access_rights: None }),
            ),
            !(self is URef) ==> self.normalized() == self,
    {
    }

    /// The account address, for an account key.
    pub fn as_account(&self) -> (r: Option<[u8; 32]>)
        ensures
            r == self.account_of(),
    {
        match self {
            Key::Account(a) => Some(*a),
            _ => None,
        }
    }

    /// The kind of the key.
    pub open spec fn kind_of(self) -> KeyKind {
        match self {
            Key::Account(_) => KeyKind::Account,
            Key::Hash(_) => KeyKind::Hash,
            Key::URef(_) => KeyKind::URef,
            Key::Local(_) => KeyKind::Local,
        }
    }

    /// The kind of the key.
    pub fn kind(&self) -> (r: KeyKind)
        ensures
            r == self.kind_of(),
    {
        match self {
            Key::Account(_) => KeyKind::Account,
            Key::Hash(_) => KeyKind::Hash,
            Key::URef(_) => KeyKind::URef,
            Key::Local(_) => KeyKind::Local,
        }
    }
}

impl KeyKind {
    /// How the kind is written in reports: `Key::Account`, `Key::Hash`, `Key::URef`
    /// or `Key::Local`.
    pub fn type_string(self) -> (r: String)
        ensures
            r@ == self.written_name(),
    {
        match self {
            KeyKind::Account => String::from_str("Key::Account"),
            KeyKind::Hash => String::from_str("Key::Hash"),
            KeyKind::URef => String::from_str("Key::URef"),
            KeyKind::Local => String::from_str("Key::Local"),
        }
    }

    /// How the kind is written in reports.
    pub open spec fn written_name(self) -> Seq<char> {
        match self {
            KeyKind::Account => "Key::Account"@,
            KeyKind::Hash => "Key::Hash"@,
            KeyKind::URef => "Key::URef"@,
            KeyKind::Local => "Key::Local"@,
        }
    }
}

} // verus!
