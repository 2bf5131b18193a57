//! The decisions a deploy takes, as a state machine: each step takes what the last
//! outside request returned and names the next request, or the deploy's answer.
use super::error::Error;
use super::{Blake2bHash, CONV_RATE, DEFAULT_SESSION_MOTES, MAX_PAYMENT, SYSTEM_ACCOUNT_ADDR};
use crate::gas::Gas;
use crate::key::{Key, URef};
use crate::motes::Motes;
use crate::named_keys::{key_named, NamedKeys};
use crate::u512::u512_modulus;
use vstd::prelude::*;

verus! {

/// Name under which an account knows the mint.
pub const MINT_NAME: &'static str = "mint";

/// Name under which an account knows the proof-of-stake contract.
pub const POS_NAME: &'static str = "pos";

/// Name under which the proof-of-stake contract knows the purse that receives payments.
pub const POS_PAYMENT_PURSE: &'static str = "pos_payment_purse";

/// Name under which the proof-of-stake contract knows the purse of validator rewards.
pub const POS_REWARDS_PURSE: &'static str = "pos_rewards_purse";

/// The proof-of-stake method that finalization calls.
pub const FINALIZE_PAYMENT: &'static str = "finalize_payment";

/// The phase of a deploy in which code runs.
#[derive(Clone, Copy, Debug, PartialEq, Eq, Structural)]
pub enum Phase {
    Payment,
    Session,
    FinalizePayment,
}

/// What the engine learns of the account that sends a deploy.
pub struct AccountFacts {
    /// Whether every authorization key of the deploy belongs to the account.
    pub can_authorize: bool,
    /// Whether the authorization keys weigh enough for a deploy.
    pub can_deploy_with: bool,
    /// The keys the account knows by name.
    pub named_keys: NamedKeys,
    /// The account's main purse.
    pub main_purse: URef,
}

/// What the engine learns of a system contract it fetches.
pub struct SystemContractInfo {
    /// The key under which the contract keeps its own state.
    pub inner_key: Key,
    /// The keys the contract knows by name.
    pub named_keys: NamedKeys,
}

/// What a deploy knows of the system contracts once it has found them.
pub struct SystemContracts {
    /// The address of the account that sent the deploy.
    pub account_addr: [u8; 32],
    /// The mint's own reference, through which purse balances are found.
    pub mint: URef,
    /// The normalized key under which the account knows the proof-of-stake contract.
    pub pos_key: Key,
    /// The proof-of-stake contract's own key.
    pub pos_base_key: Key,
    /// The keys the proof-of-stake contract knows by name.
    pub pos_keys: NamedKeys,
}

/// What a checkout of the prestate returned.
pub enum Checkout<E> {
    Failed(E),
    Missing,
    Found,
}

/// What the outside request that a step named returned.
pub enum DeployEvent<E> {
    /// The prestate was checked out.
    Checkout(Checkout<E>),
    /// The account was fetched; `None` when there is no such account.
    Account(Option<AccountFacts>),
    /// The requested module was loaded.
    Module(Result<(), Error<E>>),
    /// Code ran and spent `cost`.
    Executed { cost: Gas, failed: bool },
    /// A system contract was fetched.
    SystemContract(Result<SystemContractInfo, E>),
    /// The balance key of a purse was found.
    PurseBalanceKey(Result<Key, E>),
    /// The balance of a purse was read.
    PurseBalance(Result<Motes, E>),
    /// The forced-transfer check ran; `true` when it ended the deploy.
    ForcedTransfer(bool),
    /// The payment was finalized.
    Finalized,
}

/// The next outside request, or the answer to the deploy.
pub enum DeployAction<E> {
    CheckoutState(Blake2bHash),
    FetchAccount([u8; 32]),
    LoadModule(Phase),
    /// Run the loaded code of `phase` with `gas_limit`.
    Execute { phase: Phase, gas_limit: Gas },
    /// Fetch the system contract under this (normalized) key.
    FetchSystemContract(Key),
    /// Find, through the mint, the key under which the balance of `purse` is kept.
    FindPurseBalanceKey { mint: URef, purse: Key },
    ReadPurseBalance(Key),
    CheckForcedTransfer {
        max_payment_cost: Motes,
        main_purse_balance: Motes,
        payment_purse_balance: Motes,
        main_purse_balance_key: Key,
        rewards_purse_balance_key: Key,
    },
    /// Finalize the payment: the system account runs the proof-of-stake method
    /// `FINALIZE_PAYMENT` with `gas_limit`, on the contract's own key, charging `cost` to
    /// the account at `account_addr`; it runs on the state after session code, or after
    /// payment code when session effects are dropped, with the contract's named keys read
    /// again under `pos_key` from that state.
    Finalize {
        cost: Motes,
        account_addr: [u8; 32],
        pos_key: Key,
        pos_base_key: Key,
        system_account: [u8; 32],
        gas_limit: Gas,
        keep_session_effects: bool,
    },
    /// The deploy ends: a precondition does not hold.
    ReturnPreconditionFailure(Error<E>),
    /// The deploy ends: the prestate does not exist.
    ReturnRootNotFound(Blake2bHash),
    /// The deploy ends with the result of the last request.
    ReturnExecutionResult,
}

/// Where a deploy stands, and what it keeps for later steps.
pub enum Stage {
    AwaitCheckout,
    AwaitAccount { account_addr: [u8; 32] },
    AwaitSessionModule { account_addr: [u8; 32], named_keys: NamedKeys, main_purse: URef },
    AwaitSessionOnly,
    AwaitMint { account_addr: [u8; 32], named_keys: NamedKeys, main_purse: URef },
    AwaitProofOfStake { account_addr: [u8; 32], main_purse: URef, mint: URef, pos_key: Key },
    AwaitRewardsPurseKey { sys: SystemContracts, main_purse: URef },
    AwaitMainPurseKey { sys: SystemContracts, rewards_key: Key },
    AwaitMainPurseBalance { sys: SystemContracts, rewards_key: Key, main_key: Key },
    AwaitPaymentModule {
        sys: SystemContracts,
        rewards_key: Key,
        main_key: Key,
        main_balance: Motes,
    },
    AwaitPayment { sys: SystemContracts, rewards_key: Key, main_key: Key, main_balance: Motes },
    AwaitPaymentPurseKey {
        sys: SystemContracts,
        rewards_key: Key,
        main_key: Key,
        main_balance: Motes,
        payment_cost: Gas,
    },
    AwaitPaymentPurseBalance {
        sys: SystemContracts,
        rewards_key: Key,
        main_key: Key,
        main_balance: Motes,
        payment_cost: Gas,
    },
    AwaitForcedTransfer { sys: SystemContracts, payment_cost: Gas, payment_purse_balance: Motes },
    AwaitSession { sys: SystemContracts, payment_cost: Gas },
    AwaitFinalizeModule {
        sys: SystemContracts,
        payment_cost: Gas,
        session_cost: Gas,
        keep_session_effects: bool,
    },
    AwaitFinalize,
    Done,
}

/// A deploy in progress.
pub struct DeployState {
    pub stage: Stage,
    /// The key the deploy names as its sender.
    pub address: Key,
    pub prestate_hash: Blake2bHash,
    /// Whether the deploy carries any authorization key.
    pub has_authorization_keys: bool,
    pub use_payment_code: bool,
}

/// Gas that `motes` buy at the conversion rate, rounded down.
pub open spec fn gas_bought(motes: nat) -> nat {
    motes / (CONV_RATE as nat)
}

/// Whether `e` answers the request that `s` awaits, and, where the answer leads to
/// arithmetic, that the arithmetic stays in range.
pub open spec fn admissible<E>(s: DeployState, e: DeployEvent<E>) -> bool {
    match s.stage {
        Stage::AwaitCheckout => e is Checkout,
        Stage::AwaitAccount { .. } => e is Account,
        Stage::AwaitSessionModule { .. } => e is Module,
        Stage::AwaitSessionOnly => e is Executed,
        Stage::AwaitMint { .. } => e is SystemContract && (e matches DeployEvent::SystemContract(
            Ok(info),
        ) ==> info.inner_key is URef),
        Stage::AwaitProofOfStake { .. } => e is SystemContract,
        Stage::AwaitRewardsPurseKey { .. } => e is PurseBalanceKey,
        Stage::AwaitMainPurseKey { .. } => e is PurseBalanceKey,
        Stage::AwaitMainPurseBalance { .. } => e is PurseBalance,
        Stage::AwaitPaymentModule { .. } => e is Module,
        Stage::AwaitPayment { .. } => e is Executed,
        Stage::AwaitPaymentPurseKey { .. } => e is PurseBalanceKey,
        Stage::AwaitPaymentPurseBalance { .. } => e is PurseBalance,
        Stage::AwaitForcedTransfer { payment_cost, payment_purse_balance, .. } => e is ForcedTransfer
            && (e matches DeployEvent::ForcedTransfer(false) ==> payment_cost@ <= gas_bought(
            payment_purse_balance@,
        )),
        Stage::AwaitSession { .. } => e is Executed,
        Stage::AwaitFinalizeModule { payment_cost, session_cost, .. } => e is Module && (e matches DeployEvent::Module(Ok(_))
            ==> (payment_cost@ + session_cost@) * CONV_RATE < u512_modulus()),
        Stage::AwaitFinalize => e is Finalized,
        Stage::Done => false,
    }
}

/// The deploy ends with `a` and nothing more is awaited.
pub open spec fn ends_with<E>(s2: DeployState, a: DeployAction<E>, expected: DeployAction<E>) -> bool {
    s2.stage is Done && a == expected
}

/// The step from `s` on `e` leads to `s2` and requests `a`.
pub open spec fn step_spec<E>(s: DeployState, e: DeployEvent<E>, s2: DeployState, a: DeployAction<
    E,
>) -> bool {
    &&& s2.address == s.address
    &&& s2.prestate_hash == s.prestate_hash
    &&& s2.has_authorization_keys == s.has_authorization_keys
    &&& s2.use_payment_code == s.use_payment_code
    &&& match (s.stage, e) {
        (Stage::AwaitCheckout, DeployEvent::Checkout(c)) => match c {
            Checkout::Failed(err) => ends_with(
                s2,
                a,
                DeployAction::ReturnPreconditionFailure(Error::ExecError(err)),
            ),
            Checkout::Missing => ends_with(s2, a, DeployAction::ReturnRootNotFound(s.prestate_hash)),
            Checkout::Found => match s.address.account_of() {
                None => ends_with(
                    s2,
                    a,
                    DeployAction::ReturnPreconditionFailure(Error::AuthorizationError),
                ),
                Some(addr) => s2.stage == (Stage::AwaitAccount { account_addr: addr }) && a
                    == DeployAction::<E>::FetchAccount(addr),
            },
        },
        (Stage::AwaitAccount { account_addr }, DeployEvent::Account(facts)) => match facts {
            None => ends_with(
                s2,
                a,
                DeployAction::ReturnPreconditionFailure(Error::AuthorizationError),
            ),
            Some(f) => if !s.has_authorization_keys || !f.can_authorize {
                ends_with(s2, a, DeployAction::ReturnPreconditionFailure(Error::AuthorizationError))
            } else if !f.can_deploy_with {
                ends_with(
                    s2,
                    a,
                    DeployAction::ReturnPreconditionFailure(Error::DeploymentAuthorizationFailure),
                )
            } else {
                s2.stage == (Stage::AwaitSessionModule {
                    account_addr,
                    named_keys: f.named_keys,
                    main_purse: f.main_purse,
                }) && a == DeployAction::<E>::LoadModule(Phase::Session)
            },
        },
        (
            Stage::AwaitSessionModule { account_addr, named_keys, main_purse },
            DeployEvent::Module(m),
        ) => match m {
            Err(err) => ends_with(s2, a, DeployAction::ReturnPreconditionFailure(err)),
            Ok(()) => if !s.use_payment_code {
                {
                    &&& s2.stage is AwaitSessionOnly
                    &&& a matches DeployAction::Execute { phase: Phase::Session, gas_limit }
                    &&& gas_limit@ == gas_bought(DEFAULT_SESSION_MOTES as nat)
                }
            } else {
                match key_named(named_keys@, MINT_NAME@) {
                    None => {
                        &&& s2.stage is Done
                        &&& a matches DeployAction::ReturnPreconditionFailure(
                            Error::MissingSystemContractError(n),
                        )
                        &&& n@ == MINT_NAME@
                    },
                    Some(k) => s2.stage == (Stage::AwaitMint { account_addr, named_keys, main_purse })
                        && a == DeployAction::<E>::FetchSystemContract(k.normalized()),
                }
            },
        },
        (Stage::AwaitSessionOnly, DeployEvent::Executed { .. }) => ends_with(
            s2,
            a,
            DeployAction::ReturnExecutionResult,
        ),
        (
            Stage::AwaitMint { account_addr, named_keys, main_purse },
            DeployEvent::SystemContract(r),
        ) => match r {
            Err(err) => ends_with(
                s2,
                a,
                DeployAction::ReturnPreconditionFailure(Error::ExecError(err)),
            ),
            Ok(mint_info) => match key_named(named_keys@, POS_NAME@) {
                None => {
                    &&& s2.stage is Done
                    &&& a matches DeployAction::ReturnPreconditionFailure(
                        Error::MissingSystemContractError(n),
                    )
                    &&& n@ == POS_NAME@
                },
                Some(k) => {
                    &&& s2.stage matches Stage::AwaitProofOfStake {
                        account_addr: aa,
                        main_purse: mp,
                        mint,
                        pos_key,
                    }
                    &&& aa == account_addr
                    &&& mp == main_purse
                    &&& mint_info.inner_key == Key::URef(mint)
                    &&& pos_key == k.normalized()
                    &&& a == DeployAction::<E>::FetchSystemContract(k.normalized())
                },
            },
        },
        (
            Stage::AwaitProofOfStake { account_addr, main_purse, mint, pos_key },
            DeployEvent::SystemContract(r),
        ) => match r {
            Err(err) => ends_with(
                s2,
                a,
                DeployAction::ReturnPreconditionFailure(Error::ExecError(err)),
            ),
            Ok(pos_info) => match key_named(pos_info.named_keys@, POS_REWARDS_PURSE@) {
                None => ends_with(s2, a, DeployAction::ReturnPreconditionFailure(Error::DeployError)),
                Some(k) => s2.stage == (Stage::AwaitRewardsPurseKey {
                    sys: SystemContracts {
                        account_addr,
                        mint,
                        pos_key,
                        pos_base_key: pos_info.inner_key,
                        pos_keys: pos_info.named_keys,
                    },
                    main_purse,
                }) && a == (DeployAction::<E>::FindPurseBalanceKey { mint, purse: k }),
            },
        },
        (Stage::AwaitRewardsPurseKey { sys, main_purse }, DeployEvent::PurseBalanceKey(r)) =>
            match r {
            Err(err) => ends_with(
                s2,
                a,
                DeployAction::ReturnPreconditionFailure(Error::ExecError(err)),
            ),
            Ok(rewards_key) => s2.stage == (Stage::AwaitMainPurseKey { sys, rewards_key }) && a
                == (DeployAction::<E>::FindPurseBalanceKey {
                mint: sys.mint,
                purse: Key::URef(main_purse),
            }),
        },
        (Stage::AwaitMainPurseKey { sys, rewards_key }, DeployEvent::PurseBalanceKey(r)) =>
            match r {
            Err(err) => ends_with(
                s2,
                a,
                DeployAction::ReturnPreconditionFailure(Error::ExecError(err)),
            ),
            Ok(main_key) => s2.stage == (Stage::AwaitMainPurseBalance {
                sys,
                rewards_key,
                main_key,
            }) && a == DeployAction::<E>::ReadPurseBalance(main_key),
        },
        (
            Stage::AwaitMainPurseBalance { sys, rewards_key, main_key },
            DeployEvent::PurseBalance(r),
        ) => match r {
            Err(err) => ends_with(
                s2,
                a,
                DeployAction::ReturnPreconditionFailure(Error::ExecError(err)),
            ),
            Ok(main_balance) => if main_balance@ < MAX_PAYMENT {
                ends_with(s2, a, DeployAction::ReturnPreconditionFailure(Error::InsufficientPaymentError))
            } else {
                s2.stage == (Stage::AwaitPaymentModule {
                    sys,
                    rewards_key,
                    main_key,
                    main_balance,
                }) && a == DeployAction::<E>::LoadModule(Phase::Payment)
            },
        },
        (
            Stage::AwaitPaymentModule { sys, rewards_key, main_key, main_balance },
            DeployEvent::Module(m),
        ) => match m {
            Err(err) => ends_with(s2, a, DeployAction::ReturnPreconditionFailure(err)),
            Ok(()) => {
                &&& s2.stage == (Stage::AwaitPayment { sys, rewards_key, main_key, main_balance })
                &&& a matches DeployAction::Execute { phase: Phase::Payment, gas_limit }
                &&& gas_limit@ == gas_bought(MAX_PAYMENT as nat)
            },
        },
        (
            Stage::AwaitPayment { sys, rewards_key, main_key, main_balance },
            DeployEvent::Executed { cost, .. },
        ) => match key_named(sys.pos_keys@, POS_PAYMENT_PURSE@) {
            None => ends_with(s2, a, DeployAction::ReturnPreconditionFailure(Error::DeployError)),
            Some(k) => s2.stage == (Stage::AwaitPaymentPurseKey {
                sys,
                rewards_key,
                main_key,
                main_balance,
                payment_cost: cost,
            }) && a == (DeployAction::<E>::FindPurseBalanceKey { mint: sys.mint, purse: k }),
        },
        (
            Stage::AwaitPaymentPurseKey { sys, rewards_key, main_key, main_balance, payment_cost },
            DeployEvent::PurseBalanceKey(r),
        ) => match r {
            Err(err) => ends_with(
                s2,
                a,
                DeployAction::ReturnPreconditionFailure(Error::ExecError(err)),
            ),
            Ok(k) => s2.stage == (Stage::AwaitPaymentPurseBalance {
                sys,
                rewards_key,
                main_key,
                main_balance,
                payment_cost,
            }) && a == DeployAction::<E>::ReadPurseBalance(k),
        },
        (
            Stage::AwaitPaymentPurseBalance { sys, rewards_key, main_key, main_balance, payment_cost },
            DeployEvent::PurseBalance(r),
        ) => match r {
            Err(err) => ends_with(
                s2,
                a,
                DeployAction::ReturnPreconditionFailure(Error::ExecError(err)),
            ),
            Ok(ppb) => {
                &&& s2.stage == (Stage::AwaitForcedTransfer {
                    sys,
                    payment_cost,
                    payment_purse_balance: ppb,
                })
                &&& a matches DeployAction::CheckForcedTransfer {
                    max_payment_cost,
                    main_purse_balance,
                    payment_purse_balance,
                    main_purse_balance_key,
                    rewards_purse_balance_key,
                }
                &&& max_payment_cost@ == MAX_PAYMENT
                &&& main_purse_balance == main_balance
                &&& payment_purse_balance == ppb
                &&& main_purse_balance_key == main_key
                &&& rewards_purse_balance_key == rewards_key
            },
        },
        (
            Stage::AwaitForcedTransfer { sys, payment_cost, payment_purse_balance },
            DeployEvent::ForcedTransfer(failed),
        ) => if failed {
            ends_with(s2, a, DeployAction::ReturnExecutionResult)
        } else {
            {
                &&& s2.stage == (Stage::AwaitSession { sys, payment_cost })
                &&& a matches DeployAction::Execute { phase: Phase::Session, gas_limit }
                &&& gas_limit@ == gas_bought(payment_purse_balance@) - payment_cost@
            }
        },
        (Stage::AwaitSession { sys, payment_cost }, DeployEvent::Executed { cost, failed }) => {
            &&& s2.stage == (Stage::AwaitFinalizeModule {
                sys,
                payment_cost,
                session_cost: cost,
                keep_session_effects: !failed,
            })
            &&& a == DeployAction::<E>::LoadModule(Phase::FinalizePayment)
        },
        (
            Stage::AwaitFinalizeModule { sys, payment_cost, session_cost, keep_session_effects },
            DeployEvent::Module(m),
        ) => match m {
            Err(err) => ends_with(s2, a, DeployAction::ReturnPreconditionFailure(err)),
            Ok(()) => {
                &&& s2.stage is AwaitFinalize
                &&& a matches DeployAction::Finalize {
                    cost: charge,
                    account_addr: charged,
                    pos_key: pk,
                    pos_base_key: base,
                    system_account: runner,
                    gas_limit: limit,
                    keep_session_effects: keep,
                }
                &&& charge@ == (payment_cost@ + session_cost@) * CONV_RATE
                &&& charged == sys.account_addr
                &&& pk == sys.pos_key
                &&& base == sys.pos_base_key
                &&& runner == SYSTEM_ACCOUNT_ADDR
                &&& limit@ == u64::MAX
                &&& keep == keep_session_effects
            },
        },
        (Stage::AwaitFinalize, DeployEvent::Finalized) => ends_with(
            s2,
            a,
            DeployAction::ReturnExecutionResult,
        ),
        _ => false,
    }
}

/// The gas that `motes` buy at the conversion rate.
fn gas_for(motes: Motes) -> (r: Gas)
    ensures
        r@ == gas_bought(motes@),
{
    match Gas::from_motes(motes, CONV_RATE) {
        Some(g) => g,
        None => Gas::default(),
    }
}

impl DeployState {
    /// A deploy that starts: it asks for its prestate.
    pub fn start<E>(
        address: Key,
        prestate_hash: Blake2bHash,
        has_authorization_keys: bool,
        use_payment_code: bool,
    ) -> (r: (DeployState, DeployAction<E>))
        ensures
            r.0.stage is AwaitCheckout,
            r.0.address == address,
            r.0.prestate_hash == prestate_hash,
            r.0.has_authorization_keys == has_authorization_keys,
            r.0.use_payment_code == use_payment_code,
            r.1 == DeployAction::<E>::CheckoutState(prestate_hash),
    {
        (
            DeployState {
                stage: Stage::AwaitCheckout,
                address,
                prestate_hash,
                has_authorization_keys,
                use_payment_code,
            },
            DeployAction::CheckoutState(prestate_hash),
        )
    }

    /// The same deploy, moved on to `stage`.
    fn at(self, stage: Stage) -> (r: DeployState)
        ensures
            r.stage == stage,
            r.address == self.address,
            r.prestate_hash == self.prestate_hash,
            r.has_authorization_keys == self.has_authorization_keys,
            r.use_payment_code == self.use_payment_code,
    {
        DeployState { stage, ..self }
    }

    /// Takes the answer `e` to the request the deploy awaits; returns where the deploy
    /// then stands and its next request or its answer.
    pub fn step<E>(self, e: DeployEvent<E>) -> (r: (DeployState, DeployAction<E>))
        requires
            admissible(self, e),
        ensures
            step_spec(self, e, r.0, r.1),
    {
        let ghost s = self;
        let use_payment_code = self.use_payment_code;
        let has_authorization_keys = self.has_authorization_keys;
        let address = self.address;
        let prestate_hash = self.prestate_hash;
        let shell = DeployState { stage: Stage::Done, address, prestate_hash, has_authorization_keys, use_payment_code };
        match (self.stage, e) {
            (Stage::AwaitCheckout, DeployEvent::Checkout(c)) => match c {
                Checkout::Failed(err) => (
                    shell,
                    DeployAction::ReturnPreconditionFailure(Error::ExecError(err)),
                ),
                Checkout::Missing => (shell, DeployAction::ReturnRootNotFound(prestate_hash)),
                Checkout::Found => match address.as_account() {
                    None => (shell, DeployAction::ReturnPreconditionFailure(Error::AuthorizationError)),
                    Some(addr) => (
                        shell.at(Stage::AwaitAccount { account_addr: addr }),
                        DeployAction::FetchAccount(addr),
                    ),
                },
            },
            (Stage::AwaitAccount { account_addr }, DeployEvent::Account(facts)) => match facts {
                None => (shell, DeployAction::ReturnPreconditionFailure(Error::AuthorizationError)),
                Some(f) => {
                    if !has_authorization_keys || !f.can_authorize {
                        (shell, DeployAction::ReturnPreconditionFailure(Error::AuthorizationError))
                    } else if !f.can_deploy_with {
                        (
                            shell,
                            DeployAction::ReturnPreconditionFailure(
                                Error::DeploymentAuthorizationFailure,
                            ),
                        )
                    } else {
                        (
                            shell.at(
                                Stage::AwaitSessionModule {
                                    account_addr,
                                    named_keys: f.named_keys,
                                    main_purse: f.main_purse,
                                },
                            ),
                            DeployAction::LoadModule(Phase::Session),
                        )
                    }
                },
            },
            (
                Stage::AwaitSessionModule { account_addr, named_keys, main_purse },
                DeployEvent::Module(m),
            ) => match m {
                Err(err) => (shell, DeployAction::ReturnPreconditionFailure(err)),
                Ok(()) => {
                    if !use_payment_code {
                        let gas_limit = gas_for(Motes::from_u64(DEFAULT_SESSION_MOTES));
                        (
                            shell.at(Stage::AwaitSessionOnly),
                            DeployAction::Execute { phase: Phase::Session, gas_limit },
                        )
                    } else {
                        let name = String::from_str(MINT_NAME);
                        match named_keys.get(&name) {
                            None => (
                                shell,
                                DeployAction::ReturnPreconditionFailure(
                                    Error::MissingSystemContractError(name),
                                ),
                            ),
                            Some(k) => (
                                shell.at(Stage::AwaitMint { account_addr, named_keys, main_purse }),
                                DeployAction::FetchSystemContract(k.normalize()),
                            ),
                        }
                    }
                },
            },
            (Stage::AwaitSessionOnly, DeployEvent::Executed { .. }) => (
                shell,
                DeployAction::ReturnExecutionResult,
            ),
            (
                Stage::AwaitMint { account_addr, named_keys, main_purse },
                DeployEvent::SystemContract(r),
            ) => match r {
                Err(err) => (shell, DeployAction::ReturnPreconditionFailure(Error::ExecError(err))),
                Ok(mint_info) => {
                    let name = String::from_str(POS_NAME);
                    match named_keys.get(&name) {
                        None => (
                            shell,
                            DeployAction::ReturnPreconditionFailure(
                                Error::MissingSystemContractError(name),
                            ),
                        ),
                        Some(k) => match mint_info.inner_key {
                            Key::URef(mint) => {
                                let pos_key = k.normalize();
                                (
                                    shell.at(
                                        Stage::AwaitProofOfStake {
                                            account_addr,
                                            main_purse,
                                            mint,
                                            pos_key,
                                        },
                                    ),
                                    DeployAction::FetchSystemContract(pos_key),
                                )
                            },
                            _ => {
                                proof {
                                    assert(false);
                                }
                                (shell, DeployAction::ReturnExecutionResult)
                            },
                        },
                    }
                },
            },
            (
                Stage::AwaitProofOfStake { account_addr, main_purse, mint, pos_key },
                DeployEvent::SystemContract(r),
            ) => match r {
                Err(err) => (shell, DeployAction::ReturnPreconditionFailure(Error::ExecError(err))),
                Ok(pos_info) => {
                    let name = String::from_str(POS_REWARDS_PURSE);
                    match pos_info.named_keys.get(&name) {
                        None => (shell, DeployAction::ReturnPreconditionFailure(Error::DeployError)),
                        Some(k) => {
                            let sys = SystemContracts {
                                account_addr,
                                mint,
                                pos_key,
                                pos_base_key: pos_info.inner_key,
                                pos_keys: pos_info.named_keys,
                            };
                            (
                                shell.at(Stage::AwaitRewardsPurseKey { sys, main_purse }),
                                DeployAction::FindPurseBalanceKey { mint, purse: k },
                            )
                        },
                    }
                },
            },
            (Stage::AwaitRewardsPurseKey { sys, main_purse }, DeployEvent::PurseBalanceKey(r)) => {
                match r {
                    Err(err) => (
                        shell,
                        DeployAction::ReturnPreconditionFailure(Error::ExecError(err)),
                    ),
                    Ok(rewards_key) => {
                        let mint = sys.mint;
                        (
                            shell.at(Stage::AwaitMainPurseKey { sys, rewards_key }),
                            DeployAction::FindPurseBalanceKey { mint, purse: Key::URef(main_purse) },
                        )
                    },
                }
            },
            (Stage::AwaitMainPurseKey { sys, rewards_key }, DeployEvent::PurseBalanceKey(r)) => {
                match r {
                    Err(err) => (
                        shell,
                        DeployAction::ReturnPreconditionFailure(Error::ExecError(err)),
                    ),
                    Ok(main_key) => (
                        shell.at(Stage::AwaitMainPurseBalance { sys, rewards_key, main_key }),
                        DeployAction::ReadPurseBalance(main_key),
                    ),
                }
            },
            (
                Stage::AwaitMainPurseBalance { sys, rewards_key, main_key },
                DeployEvent::PurseBalance(r),
            ) => match r {
                Err(err) => (shell, DeployAction::ReturnPreconditionFailure(Error::ExecError(err))),
                Ok(main_balance) => {
                    let max_payment_cost = Motes::from_u64(MAX_PAYMENT);
                    if main_balance < max_payment_cost {
                        (
                            shell,
                            DeployAction::ReturnPreconditionFailure(Error::InsufficientPaymentError),
                        )
                    } else {
                        (
                            shell.at(
                                Stage::AwaitPaymentModule { sys, rewards_key, main_key, main_balance },
                            ),
                            DeployAction::LoadModule(Phase::Payment),
                        )
                    }
                },
            },
            (
                Stage::AwaitPaymentModule { sys, rewards_key, main_key, main_balance },
                DeployEvent::Module(m),
            ) => match m {
                Err(err) => (shell, DeployAction::ReturnPreconditionFailure(err)),
                Ok(()) => {
                    let gas_limit = gas_for(Motes::from_u64(MAX_PAYMENT));
                    (
                        shell.at(Stage::AwaitPayment { sys, rewards_key, main_key, main_balance }),
                        DeployAction::Execute { phase: Phase::Payment, gas_limit },
                    )
                },
            },
            (
                Stage::AwaitPayment { sys, rewards_key, main_key, main_balance },
                DeployEvent::Executed { cost, .. },
            ) => {
                let name = String::from_str(POS_PAYMENT_PURSE);
                match sys.pos_keys.get(&name) {
                    None => (shell, DeployAction::ReturnPreconditionFailure(Error::DeployError)),
                    Some(k) => {
                        let mint = sys.mint;
                        (
                            shell.at(
                                Stage::AwaitPaymentPurseKey {
                                    sys,
                                    rewards_key,
                                    main_key,
                                    main_balance,
                                    payment_cost: cost,
                                },
                            ),
                            DeployAction::FindPurseBalanceKey { mint, purse: k },
                        )
                    },
                }
            },
            (
                Stage::AwaitPaymentPurseKey { sys, rewards_key, main_key, main_balance, payment_cost },
                DeployEvent::PurseBalanceKey(r),
            ) => match r {
                Err(err) => (shell, DeployAction::ReturnPreconditionFailure(Error::ExecError(err))),
                Ok(k) => (
                    shell.at(
                        Stage::AwaitPaymentPurseBalance {
                            sys,
                            rewards_key,
                            main_key,
                            main_balance,
                            payment_cost,
                        },
                    ),
                    DeployAction::ReadPurseBalance(k),
                ),
            },
            (
                Stage::AwaitPaymentPurseBalance {
                    sys,
                    rewards_key,
                    main_key,
                    main_balance,
                    payment_cost,
                },
                DeployEvent::PurseBalance(r),
            ) => match r {
                Err(err) => (shell, DeployAction::ReturnPreconditionFailure(Error::ExecError(err))),
                Ok(ppb) => (
                    shell.at(
                        Stage::AwaitForcedTransfer { sys, payment_cost, payment_purse_balance: ppb },
                    ),
                    DeployAction::CheckForcedTransfer {
                        max_payment_cost: Motes::from_u64(MAX_PAYMENT),
                        main_purse_balance: main_balance,
                        payment_purse_balance: ppb,
                        main_purse_balance_key: main_key,
                        rewards_purse_balance_key: rewards_key,
                    },
                ),
            },
            (
                Stage::AwaitForcedTransfer { sys, payment_cost, payment_purse_balance },
                DeployEvent::ForcedTransfer(failed),
            ) => {
                if failed {
                    (shell, DeployAction::ReturnExecutionResult)
                } else {
                    let gas_limit = gas_for(payment_purse_balance) - payment_cost;
                    (
                        shell.at(Stage::AwaitSession { sys, payment_cost }),
                        DeployAction::Execute { phase: Phase::Session, gas_limit },
                    )
                }
            },
            (Stage::AwaitSession { sys, payment_cost }, DeployEvent::Executed { cost, failed }) => (
                shell.at(
                    Stage::AwaitFinalizeModule {
                        sys,
                        payment_cost,
                        session_cost: cost,
                        keep_session_effects: !failed,
                    },
                ),
                DeployAction::LoadModule(Phase::FinalizePayment),
            ),
            (
                Stage::AwaitFinalizeModule { sys, payment_cost, session_cost, keep_session_effects },
                DeployEvent::Module(m),
            ) => match m {
                Err(err) => (shell, DeployAction::ReturnPreconditionFailure(err)),
                Ok(()) => {
                    proof {
                        assert(payment_cost@ + session_cost@ < u512_modulus()) by (nonlinear_arith)
                            requires
                                (payment_cost@ + session_cost@) * 10 < u512_modulus(),
                        ;
                    }
                    let total = payment_cost + session_cost;
                    let charge = Motes::from_gas(total, CONV_RATE).expect("motes overflow");
                    (
                        shell.at(Stage::AwaitFinalize),
                        DeployAction::Finalize {
                            cost: charge,
                            account_addr: sys.account_addr,
                            pos_key: sys.pos_key,
                            pos_base_key: sys.pos_base_key,
                            system_account: SYSTEM_ACCOUNT_ADDR,
                            gas_limit: Gas::from_u64(u64::MAX),
                            keep_session_effects,
                        },
                    )
                },
            },
            (Stage::AwaitFinalize, DeployEvent::Finalized) => (
                shell,
                DeployAction::ReturnExecutionResult,
            ),
            _ => {
                proof {
                    assert(false);
                }
                (shell, DeployAction::ReturnExecutionResult)
            },
        }
    }
}

} // verus!
