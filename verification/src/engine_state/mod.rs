//! The execution engine's state: its configuration and the global state it reads.
pub mod deploy;
pub mod deploy_laws;
pub mod engine_config;
pub mod error;
pub mod executable_deploy_item;

use self::deploy::{DeployAction, DeployState};
use self::engine_config::EngineConfig;
use crate::key::{Key, URef};
use crate::named_keys::NamedKeys;
use self::error::Error;
use vstd::prelude::*;

verus! {

/// Upper bound, in motes, of what payment code may spend.
pub const MAX_PAYMENT: u64 = 10_000_000;

/// Motes per unit of gas.
pub const CONV_RATE: u64 = 10;

/// Address of the account that runs the finalization of a payment.
pub const SYSTEM_ACCOUNT_ADDR: [u8; 32] = [
    0, 0, 0, 0, 0, 0, 0, 0, 0, 0, 0, 0, 0, 0, 0, 0, 0, 0, 0, 0, 0, 0, 0, 0, 0, 0, 0, 0, 0, 0, 0, 0,
];

/// Motes granted to session code when payment code is not in use.
pub const DEFAULT_SESSION_MOTES: u64 = 1_000_000_000;

/// The hash that names a state root of the global state.
#[derive(Clone, Copy, Debug, PartialEq, Eq)]
pub struct Blake2bHash(pub [u8; 32]);

/// Why the bonded validators at a state root could not be read.
pub enum GetBondedValidatorsError<E> {
    /// The store failed.
    StateError(E),
    /// The store has no state under this root.
    PostStateHashNotFound(Blake2bHash),
    /// No proof-of-stake contract is stored under this key.
    ProofOfStakeNotFound(Key),
}

/// A source of global state snapshots, keyed by state root hash.
pub trait StateProvider {
    /// A read-only view of one snapshot.
    type Reader;

    /// What the store reports when it cannot serve a request.
    type Error;

    /// Changes to apply to a snapshot.
    type Effects;

    /// What the store reports after applying changes.
    type CommitResult;

    /// Whether `hash` may be the root of this store's empty state. A store that states
    /// nothing of its empty root keeps the default.
    closed spec fn is_empty_root(&self, hash: Blake2bHash) -> bool {
        true
    }

    /// Whether `r` is an answer this store may give to a checkout of `state_hash`. A
    /// store that states nothing of its answers keeps the default.
    closed spec fn checked_out(
        &self,
        state_hash: Blake2bHash,
        r: Result<Option<Self::Reader>, Self::Error>,
    ) -> bool {
        true
    }

    /// Whether `r` is an answer this store may give to a commit of `effects` onto the
    /// snapshot rooted at `prestate_hash`. A store that states nothing of its answers
    /// keeps the default.
    closed spec fn committed(
        &self,
        prestate_hash: Blake2bHash,
        effects: Self::Effects,
        r: Result<Self::CommitResult, Self::Error>,
    ) -> bool {
        true
    }

    /// The root of the store's empty state.
    fn empty_root(&self) -> (r: Blake2bHash)
        ensures
            self.is_empty_root(r),
    ;

    /// The snapshot whose root is `state_hash`, or `None` when the store has no such root.
    fn checkout(&self, state_hash: Blake2bHash) -> (r: Result<Option<Self::Reader>, Self::Error>)
        ensures
            self.checked_out(state_hash, r),
    ;

    /// Applies `effects` to the snapshot whose root is `prestate_hash`.
    fn commit(&self, prestate_hash: Blake2bHash, effects: Self::Effects) -> (r: Result<
        Self::CommitResult,
        Self::Error,
    >)
        ensures
            self.committed(prestate_hash, effects, r),
    ;
}

/// A snapshot of the global state on which the effects of a deploy are tracked.
pub struct TrackingCopy<R> {
    reader: R,
}

impl<R> TrackingCopy<R> {
    /// The tracking copy over `reader`.
    pub closed spec fn over(reader: R) -> TrackingCopy<R> {
        TrackingCopy { reader }
    }

    /// The snapshot this copy reads from.
    pub closed spec fn reader_spec(&self) -> R {
        self.reader
    }

    /// A tracking copy made over `reader` reads from `reader`.
    pub proof fn lemma_over_reads(reader: R)
        ensures
            TrackingCopy::over(reader).reader_spec() == reader,
    {
    }

    /// A tracking copy over `reader`.
    pub fn new(reader: R) -> (r: TrackingCopy<R>)
        ensures
            r == TrackingCopy::over(reader),
            r.reader_spec() == reader,
    {
        TrackingCopy { reader }
    }

    /// The snapshot this copy reads from.
    pub fn reader(&self) -> (r: &R)
        ensures
            *r == self.reader_spec(),
    {
        &self.reader
    }
}

/// What `EngineState::tracking_copy` returns for the given outcome of a checkout.
pub open spec fn tracking_copy_result<R, E>(checkout: Result<Option<R>, E>) -> Result<
    Option<TrackingCopy<R>>,
    Error<E>,
> {
    match checkout {
        Err(e) => Err(Error::ExecError(e)),
        Ok(None) => Ok(None),
        Ok(Some(reader)) => Ok(Some(TrackingCopy::over(reader))),
    }
}

/// Wraps the outcome of a checkout: a found snapshot becomes a tracking copy, a store
/// failure becomes an execution error.
pub fn tracking_copy_from_checkout<R, E>(checkout: Result<Option<R>, E>) -> (r: Result<
    Option<TrackingCopy<R>>,
    Error<E>,
>)
    ensures
        r == tracking_copy_result(checkout),
{
    match checkout {
        Err(e) => Err(Error::ExecError(e)),
        Ok(None) => Ok(None),
        Ok(Some(reader)) => Ok(Some(TrackingCopy::new(reader))),
    }
}

/// What `EngineState::commit_genesis` returns for the given outcome of a commit: a store
/// failure becomes an execution error.
pub open spec fn genesis_commit_result<C, E>(commit: Result<C, E>) -> Result<C, Error<E>> {
    match commit {
        Ok(c) => Ok(c),
        Err(e) => Err(Error::ExecError(e)),
    }
}

/// What `EngineState::bonded_validators_source` returns for the given outcome of a
/// checkout of `root_hash`: the snapshot and the key to read there.
pub open spec fn bonded_validators_source_result<R, E>(
    root_hash: Blake2bHash,
    pos_key: Key,
    checkout: Result<Option<R>, E>,
) -> Result<(R, Key), GetBondedValidatorsError<E>> {
    match checkout {
        Err(e) => Err(GetBondedValidatorsError::StateError(e)),
        Ok(None) => Err(GetBondedValidatorsError::PostStateHashNotFound(root_hash)),
        Ok(Some(reader)) => Ok((reader, pos_key.normalized())),
    }
}

/// Two proof-of-stake keys that differ only in access rights lead to the same read of
/// the same checkout.
pub proof fn lemma_bonded_validators_source_by_normalized_key<R, E>(
    root_hash: Blake2bHash,
    k1: Key,
    k2: Key,
    checkout: Result<Option<R>, E>,
)
    requires
        k1.normalized() == k2.normalized(),
    ensures
        bonded_validators_source_result(root_hash, k1, checkout) == bonded_validators_source_result(
            root_hash,
            k2,
            checkout,
        ),
{
}

/// On a found root, the bonded validators are read in the checked-out snapshot under the
/// proof-of-stake key with its rights stripped: a reference keeps its address and loses
/// its rights, any other key is read as it is. A store failure and a missing root are
/// reported as such.
pub proof fn lemma_bonded_validators_read_key<R, E>(
    root_hash: Blake2bHash,
    pos_key: Key,
    checkout: Result<Option<R>, E>,
)
    ensures
        checkout matches Ok(Some(reader)) ==> bonded_validators_source_result(
            root_hash,
            pos_key,
            checkout,
        ) matches Ok((rd, k)) && rd == reader && match pos_key {
            Key::URef(u) => k == Key::URef((URef { addr: u.addr, access_rights: None })),
            _ => k == pos_key,
        },
        checkout matches Ok(None) ==> bonded_validators_source_result(root_hash, pos_key, checkout)
            == Err::<(R, Key), GetBondedValidatorsError<E>>(
            GetBondedValidatorsError::PostStateHashNotFound(root_hash),
        ),
        checkout matches Err(e) ==> bonded_validators_source_result(root_hash, pos_key, checkout)
            == Err::<(R, Key), GetBondedValidatorsError<E>>(GetBondedValidatorsError::StateError(e)),
{
}

/// The named keys of the proof-of-stake contract, which hold the bonded validators,
/// given what a read under `pos_key` returned: the contract's named keys, `None` when
/// no contract is stored there, or the store's failure.
pub fn bonded_validators_from_read<E>(pos_key: Key, read: Result<Option<NamedKeys>, E>) -> (r:
    Result<NamedKeys, GetBondedValidatorsError<E>>)
    ensures
        match read {
            Ok(Some(keys)) => r == Ok::<NamedKeys, GetBondedValidatorsError<E>>(keys),
            Ok(None) => r == Err::<NamedKeys, GetBondedValidatorsError<E>>(
                GetBondedValidatorsError::ProofOfStakeNotFound(pos_key),
            ),
            Err(e) => r == Err::<NamedKeys, GetBondedValidatorsError<E>>(
                GetBondedValidatorsError::StateError(e),
            ),
        },
{
    match read {
        Ok(Some(keys)) => Ok(keys),
        Ok(None) => Err(GetBondedValidatorsError::ProofOfStakeNotFound(pos_key)),
        Err(e) => Err(GetBondedValidatorsError::StateError(e)),
    }
}

/// The engine: its configuration and the global state it executes against.
#[derive(Debug)]
pub struct EngineState<S> {
    config: EngineConfig,
    state: S,
}

impl<S: StateProvider> EngineState<S> {
    /// The configuration the engine runs with.
    pub closed spec fn config_spec(&self) -> EngineConfig {
        self.config
    }

    /// The global state the engine reads.
    pub closed spec fn state_spec(&self) -> S {
        self.state
    }

    /// An engine over `state` with `config`.
    pub fn new(state: S, config: EngineConfig) -> (r: EngineState<S>)
        ensures
            r.config_spec() == config,
            r.state_spec() == state,
    {
        EngineState { config, state }
    }

    /// The configuration the engine runs with.
    pub fn config(&self) -> (r: &EngineConfig)
        ensures
            *r == self.config_spec(),
    {
        &self.config
    }

    /// A tracking copy of the snapshot whose root is `hash`: `Ok(None)` when the store has
    /// no such root, an execution error when the store fails.
    pub fn tracking_copy(&self, hash: Blake2bHash) -> (r: Result<
        Option<TrackingCopy<S::Reader>>,
        Error<S::Error>,
    >)
        ensures
            exists|c: Result<Option<S::Reader>, S::Error>|
                self.state_spec().checked_out(hash, c) && r == tracking_copy_result(c),
            r matches Ok(Some(tc)) ==> self.state_spec().checked_out(
                hash,
                Ok(Some(tc.reader_spec())),
            ) && tc == TrackingCopy::over(tc.reader_spec()),
    {
        let checkout = self.state.checkout(hash);
        let r = tracking_copy_from_checkout(checkout);
        proof {
            assert(r == tracking_copy_result(checkout));
            assert forall|reader: S::Reader| #[trigger] TrackingCopy::over(reader).reader_spec()
                == reader by {
                TrackingCopy::<S::Reader>::lemma_over_reads(reader);
            }
        }
        r
    }

    /// Applies `effects` to the snapshot whose root is `prestate_hash`; the store
    /// decides the outcome, which is handed back unchanged.
    pub fn apply_effect(&self, prestate_hash: Blake2bHash, effects: S::Effects) -> (r: Result<
        S::CommitResult,
        S::Error,
    >)
        ensures
            self.state_spec().committed(prestate_hash, effects, r),
    {
        self.state.commit(prestate_hash, effects)
    }

    /// Commits the genesis `effects` onto the store's empty state; a store failure
    /// becomes an execution error.
    pub fn commit_genesis(&self, effects: S::Effects) -> (r: Result<
        S::CommitResult,
        Error<S::Error>,
    >)
        ensures
            exists|root: Blake2bHash, c: Result<S::CommitResult, S::Error>|
                self.state_spec().is_empty_root(root) && self.state_spec().committed(
                    root,
                    effects,
                    c,
                ) && r == genesis_commit_result(c),
    {
        let prestate_hash = self.state.empty_root();
        let commit = self.state.commit(prestate_hash, effects);
        let r = match commit {
            Ok(c) => Ok(c),
            Err(e) => Err(Error::ExecError(e)),
        };
        proof {
            assert(self.state_spec().is_empty_root(prestate_hash) && self.state_spec().committed(
                prestate_hash,
                effects,
                commit,
            ) && r == genesis_commit_result(commit));
        }
        r
    }

    /// The snapshot under `root_hash` in which the bonded validators are read, and the
    /// key to read there: the proof-of-stake key `pos_key` stripped of access rights.
    pub fn bonded_validators_source(&self, root_hash: Blake2bHash, pos_key: Key) -> (r: Result<
        (S::Reader, Key),
        GetBondedValidatorsError<S::Error>,
    >)
        ensures
            exists|c: Result<Option<S::Reader>, S::Error>|
                self.state_spec().checked_out(root_hash, c) && r
                    == bonded_validators_source_result(root_hash, pos_key, c),
    {
        let checkout = self.state.checkout(root_hash);
        let r = match checkout {
            Err(e) => Err(GetBondedValidatorsError::StateError(e)),
            Ok(None) => Err(GetBondedValidatorsError::PostStateHashNotFound(root_hash)),
            Ok(Some(reader)) => Ok((reader, pos_key.normalize())),
        };
        proof {
            assert(r == bonded_validators_source_result(root_hash, pos_key, checkout));
        }
        r
    }

    /// Starts a deploy sent by `address` against the state rooted at `prestate_hash`,
    /// with payment code as the configuration says.
    pub fn start_deploy<E>(
        &self,
        address: Key,
        prestate_hash: Blake2bHash,
        has_authorization_keys: bool,
    ) -> (r: (DeployState, DeployAction<E>))
        ensures
            r.0.stage is AwaitCheckout,
            r.0.address == address,
            r.0.prestate_hash == prestate_hash,
            r.0.has_authorization_keys == has_authorization_keys,
            r.0.use_payment_code == self.config_spec().uses_payment_code(),
            r.1 == DeployAction::<E>::CheckoutState(prestate_hash),
    {
        DeployState::start(
            address,
            prestate_hash,
            has_authorization_keys,
            self.config.use_payment_code(),
        )
    }
}

} // verus!
