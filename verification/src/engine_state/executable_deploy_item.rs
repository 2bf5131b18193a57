//! The code a deploy runs, and where the engine finds it.
use super::error::Error;
use crate::key::{AccessRights, Key, URef, HASH_SIZE, UREF_ADDR_SIZE};
use crate::named_keys::{first_key_normalizing_to, key_named, NamedKeys};
use vstd::prelude::*;

verus! {

/// The code a deploy runs: given as bytes, or stored in the global state.
pub enum ExecutableDeployItem {
    ModuleBytes { module_bytes: Vec<u8>, args: Vec<u8> },
    StoredContractByHash { hash: Vec<u8>, args: Vec<u8> },
    StoredContractByName { name: String, args: Vec<u8> },
    StoredContractByURef { uref: Vec<u8>, args: Vec<u8> },
}

impl ExecutableDeployItem {
    /// The serialized arguments of the code.
    pub fn args(&self) -> (r: &[u8])
        ensures
            r@ == match self {
                ExecutableDeployItem::ModuleBytes { args, .. } => args@,
                ExecutableDeployItem::StoredContractByHash { args, .. } => args@,
                ExecutableDeployItem::StoredContractByName { args, .. } => args@,
                ExecutableDeployItem::StoredContractByURef { args, .. } => args@,
            },
    {
        match self {
            ExecutableDeployItem::ModuleBytes { args, .. } => args.as_slice(),
            ExecutableDeployItem::StoredContractByHash { args, .. } => args.as_slice(),
            ExecutableDeployItem::StoredContractByName { args, .. } => args.as_slice(),
            ExecutableDeployItem::StoredContractByURef { args, .. } => args.as_slice(),
        }
    }
}

/// Where the module of a deploy item comes from.
pub enum ModuleSource {
    /// Wasm bytes, to be preprocessed.
    Bytes(Vec<u8>),
    /// A contract stored under this key, to be read and deserialized.
    Stored(Key),
}

/// The 32 bytes of `bytes`, which has exactly 32.
fn to_bytes32(bytes: &Vec<u8>) -> (r: [u8; 32])
    requires
        bytes@.len() == 32,
    ensures
        r@ == bytes@,
{
    let mut arr = [0u8; 32];
    let mut i: usize = 0;
    while i < 32
        invariant
            i <= 32,
            bytes@.len() == 32,
            forall|j: int| 0 <= j < i ==> arr[j] == bytes@[j],
        decreases 32 - i,
    {
        arr[i] = bytes[i];
        i = i + 1;
    }
    assert(arr@ =~= bytes@);
    arr
}

/// The read-only reference to the address given by 32 bytes.
pub open spec fn read_only_uref(addr: [u8; 32]) -> URef {
    URef { addr, access_rights: Some(AccessRights { bits: 1 }) }
}

/// Finds the module of `item` for an account that names `named_keys`.
///
/// Bytes are passed on as they are. A contract hash must have 32 bytes. A name must be
/// known to the account, and a reference under it must be readable. A reference given
/// by address must have 32 bytes, and the account must know a key that denotes the same
/// address: it must be a reference, and a readable one.
pub fn module_source<E>(item: &ExecutableDeployItem, named_keys: &NamedKeys) -> (r: Result<
    ModuleSource,
    Error<E>,
>)
    ensures
        match item {
            ExecutableDeployItem::ModuleBytes { module_bytes, .. } => r matches Ok(
                ModuleSource::Bytes(b),
            ) && b@ == module_bytes@,
            ExecutableDeployItem::StoredContractByHash { hash, .. } => if hash@.len() != HASH_SIZE {
                r == Err::<ModuleSource, Error<E>>(
                    Error::InvalidHashLength { expected: HASH_SIZE, actual: hash@.len() as usize },
                )
            } else {
                r matches Ok(ModuleSource::Stored(Key::Hash(a))) && a@ == hash@
            },
            ExecutableDeployItem::StoredContractByName { name, .. } => match key_named(
                named_keys@,
                name@,
            ) {
                None => r matches Err(Error::URefNotFound(n)) && n@ == name@,
                Some(k) => if k matches Key::URef(u) && !u.readable() {
                    r == Err::<ModuleSource, Error<E>>(Error::ForgedReference(k->URef_0))
                } else {
                    r == Ok::<ModuleSource, Error<E>>(ModuleSource::Stored(k.normalized()))
                },
            },
            ExecutableDeployItem::StoredContractByURef { uref, .. } => if uref@.len()
                != UREF_ADDR_SIZE {
                r == Err::<ModuleSource, Error<E>>(
                    Error::InvalidHashLength {
                        expected: UREF_ADDR_SIZE,
                        actual: uref@.len() as usize,
                    },
                )
            } else {
                exists|addr: [u8; 32]|
                    {
                        &&& addr@ == uref@
                        &&& {
                            let ro = read_only_uref(addr);
                            let target = Key::URef(ro).normalized();
                            match first_key_normalizing_to(named_keys@, target) {
                                Some(Key::URef(known)) => if known.readable() {
                                    r == Ok::<ModuleSource, Error<E>>(ModuleSource::Stored(target))
                                } else {
                                    r == Err::<ModuleSource, Error<E>>(Error::ForgedReference(ro))
                                },
                                Some(other) => r matches Err(
                                    Error::TypeMismatch { expected, found },
                                ) && expected@ == "Key::URef"@ && found@
                                    == other.kind_of().written_name(),
                                None => r == Err::<ModuleSource, Error<E>>(
                                    Error::KeyNotFound(Key::URef(ro)),
                                ),
                            }
                        }
                    }
            },
        },
{
    match item {
        ExecutableDeployItem::ModuleBytes { module_bytes, .. } => {
            Ok(ModuleSource::Bytes(module_bytes.clone()))
        },
        ExecutableDeployItem::StoredContractByHash { hash, .. } => {
            let hash_len = hash.len();
            if hash_len != HASH_SIZE {
                return Err(Error::InvalidHashLength { expected: HASH_SIZE, actual: hash_len });
            }
            Ok(ModuleSource::Stored(Key::Hash(to_bytes32(hash))))
        },
        ExecutableDeployItem::StoredContractByName { name, .. } => {
            match named_keys.get(name) {
                None => Err(Error::URefNotFound(name.clone())),
                Some(k) => {
                    if let Key::URef(u) = k {
                        if !u.is_readable() {
                            return Err(Error::ForgedReference(u));
                        }
                    }
                    Ok(ModuleSource::Stored(k.normalize()))
                },
            }
        },
        ExecutableDeployItem::StoredContractByURef { uref, .. } => {
            let len = uref.len();
            if len != UREF_ADDR_SIZE {
                return Err(Error::InvalidHashLength { expected: UREF_ADDR_SIZE, actual: len });
            }
            let addr = to_bytes32(uref);
            let ro = URef::new(addr, AccessRights::read());
            let normalized = Key::URef(ro).normalize();
            match named_keys.find_normalizing_to(normalized) {
                Some(Key::URef(known)) => {
                    if known.is_readable() {
                        Ok(ModuleSource::Stored(normalized))
                    } else {
                        Err(Error::ForgedReference(ro))
                    }
                },
                Some(other) => Err(
                    Error::TypeMismatch {
                        expected: String::from_str("Key::URef"),
                        found: other.kind().type_string(),
                    },
                ),
                None => Err(Error::KeyNotFound(Key::URef(ro))),
            }
        },
    }
}

} // verus!
