use engine_core::engine_state::deploy::{
    AccountFacts, Checkout, DeployAction, DeployEvent, DeployState, Phase, Stage,
    SystemContractInfo,
};
use engine_core::engine_state::engine_config::EngineConfig;
use engine_core::engine_state::error::Error;
use engine_core::engine_state::executable_deploy_item::{
    module_source, ExecutableDeployItem, ModuleSource,
};
use engine_core::engine_state::{
    bonded_validators_from_read, tracking_copy_from_checkout, Blake2bHash, EngineState,
    GetBondedValidatorsError, StateProvider, CONV_RATE, DEFAULT_SESSION_MOTES, MAX_PAYMENT,
    SYSTEM_ACCOUNT_ADDR,
};
use engine_core::gas::Gas;
use engine_core::key::{AccessRights, Key, URef};
use engine_core::motes::Motes;
use engine_core::named_keys::NamedKeys;
use engine_core::u512::U512;

struct Store {
    roots: Vec<([u8; 32], u32)>,
    broken: bool,
}

impl StateProvider for Store {
    type Reader = u32;
    type Error = String;
    type Effects = u32;
    type CommitResult = u32;

    fn empty_root(&self) -> Blake2bHash {
        Blake2bHash([9u8; 32])
    }

    fn checkout(&self, state_hash: Blake2bHash) -> Result<Option<u32>, String> {
        if self.broken {
            return Err("store is down".to_string());
        }
        Ok(self.roots.iter().find(|(h, _)| *h == state_hash.0).map(|(_, v)| *v))
    }

    fn commit(&self, prestate_hash: Blake2bHash, effects: u32) -> Result<u32, String> {
        if self.broken {
            return Err("store is down".to_string());
        }
        Ok(effects + u32::from(prestate_hash.0[0]))
    }
}

fn engine(broken: bool, payment: bool) -> EngineState<Store> {
    EngineState::new(
        Store { roots: vec![([1u8; 32], 17)], broken },
        EngineConfig::new().set_use_payment_code(payment),
    )
}

#[test]
fn tracking_copy_of_a_known_root() {
    let e = engine(false, false);
    let tc = e.tracking_copy(Blake2bHash([1u8; 32])).unwrap().unwrap();
    assert_eq!(*tc.reader(), 17);
}

#[test]
fn tracking_copy_of_an_unknown_root_is_none() {
    let e = engine(false, false);
    assert!(e.tracking_copy(Blake2bHash([2u8; 32])).unwrap().is_none());
}

#[test]
fn tracking_copy_reports_store_failure() {
    let e = engine(true, false);
    match e.tracking_copy(Blake2bHash([1u8; 32])) {
        Err(Error::ExecError(msg)) => assert_eq!(msg, "store is down"),
        _ => panic!("expected a store failure"),
    }
    let wrapped = tracking_copy_from_checkout::<u8, u8>(Ok(None));
    assert!(matches!(wrapped, Ok(None)));
}

#[test]
fn config_and_effects() {
    let e = engine(false, true);
    assert!(e.config().use_payment_code());
    assert!(!EngineConfig::default().use_payment_code());
    assert_eq!(e.apply_effect(Blake2bHash([1u8; 32]), 41), Ok(42));
    assert_eq!(e.apply_effect(Blake2bHash([3u8; 32]), 41), Ok(44));
    assert_eq!(engine(true, true).apply_effect(Blake2bHash([1u8; 32]), 41), Err("store is down".to_string()));
}

#[test]
fn genesis_is_committed_onto_the_empty_root() {
    assert_eq!(engine(false, true).commit_genesis(1), Ok(10));
    match engine(true, true).commit_genesis(1) {
        Err(Error::ExecError(m)) => assert_eq!(m, "store is down"),
        _ => panic!("expected a store failure"),
    }
}

#[test]
fn bonded_validators_are_read_under_the_normalized_pos_key() {
    let e = engine(false, true);
    let pos = Key::URef(uref(60, 7));
    match e.bonded_validators_source(Blake2bHash([1u8; 32]), pos) {
        Ok((reader, Key::URef(u))) => {
            assert_eq!(reader, 17);
            assert_eq!(u.addr, [60u8; 32]);
            assert!(u.access_rights.is_none());
        }
        _ => panic!("expected the snapshot and the key"),
    }
    assert!(matches!(
        e.bonded_validators_source(Blake2bHash([2u8; 32]), pos),
        Err(GetBondedValidatorsError::PostStateHashNotFound(h)) if h == Blake2bHash([2u8; 32])
    ));
    match engine(true, true).bonded_validators_source(Blake2bHash([1u8; 32]), pos) {
        Err(GetBondedValidatorsError::StateError(m)) => assert_eq!(m, "store is down"),
        _ => panic!("expected a store failure"),
    }
}

#[test]
fn bonded_validators_from_what_was_read() {
    let pos = Key::URef(uref(60, 7));
    match bonded_validators_from_read::<String>(pos, Ok(Some(pos_keys()))) {
        Ok(keys) => assert_eq!(keys.len(), 2),
        _ => panic!("expected the contract's keys"),
    }
    assert!(matches!(
        bonded_validators_from_read::<String>(pos, Ok(None)),
        Err(GetBondedValidatorsError::ProofOfStakeNotFound(k)) if k == pos
    ));
    match bonded_validators_from_read::<String>(pos, Err("bad".to_string())) {
        Err(GetBondedValidatorsError::StateError(m)) => assert_eq!(m, "bad"),
        _ => panic!("expected a store failure"),
    }
}

#[test]
fn named_keys_follow_the_order_of_names() {
    let mut keys = NamedKeys::new();
    keys.insert("zeta".to_string(), Key::URef(uref(12, 1)));
    keys.insert("\u{e9}".to_string(), Key::URef(uref(12, 2)));
    keys.insert("alpha".to_string(), Key::URef(uref(12, 7)));
    let target = Key::URef(uref(12, 7)).normalize();
    assert!(matches!(keys.find_normalizing_to(target), Some(Key::URef(u)) if u == uref(12, 7)));
    assert_eq!(keys.len(), 3);
    let mut later = NamedKeys::new();
    later.insert("\u{e9}".to_string(), Key::URef(uref(12, 2)));
    later.insert("zeta".to_string(), Key::URef(uref(12, 1)));
    assert!(matches!(later.find_normalizing_to(target), Some(Key::URef(u)) if u == uref(12, 1)));
}

fn uref(byte: u8, bits: u8) -> URef {
    URef::new([byte; 32], AccessRights { bits })
}

fn account_keys() -> NamedKeys {
    let mut keys = NamedKeys::new();
    keys.insert("mint".to_string(), Key::URef(uref(10, 7)));
    keys.insert("pos".to_string(), Key::URef(uref(11, 7)));
    keys.insert("readable".to_string(), Key::URef(uref(12, 1)));
    keys.insert("hidden".to_string(), Key::URef(uref(13, 2)));
    keys.insert("contract".to_string(), Key::Hash([14u8; 32]));
    keys
}

fn pos_keys() -> NamedKeys {
    let mut keys = NamedKeys::new();
    keys.insert("pos_rewards_purse".to_string(), Key::URef(uref(20, 7)));
    keys.insert("pos_payment_purse".to_string(), Key::URef(uref(21, 7)));
    keys
}

fn mint_info() -> SystemContractInfo {
    SystemContractInfo { inner_key: Key::URef(uref(50, 7)), named_keys: NamedKeys::new() }
}

fn pos_info(named_keys: NamedKeys) -> SystemContractInfo {
    SystemContractInfo { inner_key: Key::Hash([51u8; 32]), named_keys }
}

fn facts(can_authorize: bool, can_deploy_with: bool) -> AccountFacts {
    AccountFacts {
        can_authorize,
        can_deploy_with,
        named_keys: account_keys(),
        main_purse: uref(30, 7),
    }
}

fn start(payment: bool) -> DeployState {
    let (s, a) = engine(false, payment).start_deploy::<String>(
        Key::Account([5u8; 32]),
        Blake2bHash([1u8; 32]),
        true,
    );
    assert!(matches!(a, DeployAction::CheckoutState(h) if h == Blake2bHash([1u8; 32])));
    s
}

fn to_account(payment: bool) -> DeployState {
    let (s, a) = start(payment).step::<String>(DeployEvent::Checkout(Checkout::Found));
    assert!(matches!(a, DeployAction::FetchAccount(addr) if addr == [5u8; 32]));
    s
}

#[test]
fn deploy_against_missing_root_ends() {
    let (s, a) = start(true).step::<String>(DeployEvent::Checkout(Checkout::Missing));
    assert!(matches!(s.stage, Stage::Done));
    assert!(matches!(a, DeployAction::ReturnRootNotFound(h) if h == Blake2bHash([1u8; 32])));
}

#[test]
fn deploy_from_a_non_account_key_is_refused() {
    let (s, _) = engine(false, true).start_deploy::<String>(
        Key::Hash([5u8; 32]),
        Blake2bHash([1u8; 32]),
        true,
    );
    let (_, a) = s.step::<String>(DeployEvent::Checkout(Checkout::Found));
    assert!(matches!(a, DeployAction::ReturnPreconditionFailure(Error::AuthorizationError)));
}

#[test]
fn deploy_without_enough_key_weight_is_refused() {
    let (_, a) = to_account(true).step::<String>(DeployEvent::Account(Some(facts(true, false))));
    assert!(matches!(
        a,
        DeployAction::ReturnPreconditionFailure(Error::DeploymentAuthorizationFailure)
    ));
    let (_, a) = to_account(true).step::<String>(DeployEvent::Account(Some(facts(false, true))));
    assert!(matches!(a, DeployAction::ReturnPreconditionFailure(Error::AuthorizationError)));
    let (_, a) = to_account(true).step::<String>(DeployEvent::Account(None));
    assert!(matches!(a, DeployAction::ReturnPreconditionFailure(Error::AuthorizationError)));
}

#[test]
fn deploy_without_payment_code_runs_session_with_default_gas() {
    let (s, a) = to_account(false).step::<String>(DeployEvent::Account(Some(facts(true, true))));
    assert!(matches!(a, DeployAction::LoadModule(Phase::Session)));
    let (s, a) = s.step::<String>(DeployEvent::Module(Ok(())));
    match a {
        DeployAction::Execute { phase: Phase::Session, gas_limit } => {
            assert_eq!(gas_limit, Gas::from_u64(DEFAULT_SESSION_MOTES / CONV_RATE));
            assert_eq!(gas_limit.to_string(), "100000000");
        }
        _ => panic!("expected session execution"),
    }
    let (s, a) = s.step::<String>(DeployEvent::Executed { cost: Gas::from_u64(5), failed: false });
    assert!(matches!(a, DeployAction::ReturnExecutionResult));
    assert!(matches!(s.stage, Stage::Done));
}

#[test]
fn deploy_with_payment_code_full_run() {
    let (s, _) = to_account(true).step::<String>(DeployEvent::Account(Some(facts(true, true))));
    let (s, a) = s.step::<String>(DeployEvent::Module(Ok(())));
    assert!(matches!(a, DeployAction::FetchSystemContract(Key::URef(u))
        if u.addr == [10u8; 32] && u.access_rights.is_none()));
    let (s, a) = s.step::<String>(DeployEvent::SystemContract(Ok(mint_info())));
    assert!(matches!(a, DeployAction::FetchSystemContract(Key::URef(u)) if u.addr == [11u8; 32]));
    let (s, a) = s.step::<String>(DeployEvent::SystemContract(Ok(pos_info(pos_keys()))));
    assert!(matches!(a, DeployAction::FindPurseBalanceKey { mint, purse: Key::URef(u) }
        if u.addr == [20u8; 32] && mint == uref(50, 7)));
    let (s, a) = s.step::<String>(DeployEvent::PurseBalanceKey(Ok(Key::Hash([40u8; 32]))));
    assert!(matches!(a, DeployAction::FindPurseBalanceKey { mint, purse: Key::URef(u) }
        if u.addr == [30u8; 32] && mint == uref(50, 7)));
    let (s, a) = s.step::<String>(DeployEvent::PurseBalanceKey(Ok(Key::Hash([41u8; 32]))));
    assert!(matches!(a, DeployAction::ReadPurseBalance(Key::Hash(h)) if h == [41u8; 32]));
    let (s, a) = s.step::<String>(DeployEvent::PurseBalance(Ok(Motes::from_u64(MAX_PAYMENT))));
    assert!(matches!(a, DeployAction::LoadModule(Phase::Payment)));
    let (s, a) = s.step::<String>(DeployEvent::Module(Ok(())));
    match a {
        DeployAction::Execute { phase: Phase::Payment, gas_limit } => {
            assert_eq!(gas_limit, Gas::from_u64(1_000_000))
        }
        _ => panic!("expected payment execution"),
    }
    let (s, a) = s.step::<String>(DeployEvent::Executed { cost: Gas::from_u64(300), failed: false });
    assert!(matches!(a, DeployAction::FindPurseBalanceKey { mint, purse: Key::URef(u) }
        if u.addr == [21u8; 32] && mint == uref(50, 7)));
    let (s, a) = s.step::<String>(DeployEvent::PurseBalanceKey(Ok(Key::Hash([42u8; 32]))));
    assert!(matches!(a, DeployAction::ReadPurseBalance(Key::Hash(h)) if h == [42u8; 32]));
    let (s, a) = s.step::<String>(DeployEvent::PurseBalance(Ok(Motes::from_u64(5_000))));
    match a {
        DeployAction::CheckForcedTransfer {
            max_payment_cost,
            main_purse_balance,
            payment_purse_balance,
            main_purse_balance_key,
            rewards_purse_balance_key,
        } => {
            assert_eq!(max_payment_cost, Motes::from_u64(10_000_000));
            assert_eq!(main_purse_balance, Motes::from_u64(MAX_PAYMENT));
            assert_eq!(payment_purse_balance, Motes::from_u64(5_000));
            assert!(matches!(main_purse_balance_key, Key::Hash(h) if h == [41u8; 32]));
            assert!(matches!(rewards_purse_balance_key, Key::Hash(h) if h == [40u8; 32]));
        }
        _ => panic!("expected the forced-transfer check"),
    }
    let (s, a) = s.step::<String>(DeployEvent::ForcedTransfer(false));
    match a {
        DeployAction::Execute { phase: Phase::Session, gas_limit } => {
            assert_eq!(gas_limit, Gas::from_u64(5_000 / 10 - 300))
        }
        _ => panic!("expected session execution"),
    }
    let (s, a) = s.step::<String>(DeployEvent::Executed { cost: Gas::from_u64(150), failed: true });
    assert!(matches!(a, DeployAction::LoadModule(Phase::FinalizePayment)));
    let (s, a) = s.step::<String>(DeployEvent::Module(Ok(())));
    match a {
        DeployAction::Finalize {
            cost,
            account_addr,
            pos_key,
            pos_base_key,
            system_account,
            gas_limit,
            keep_session_effects,
        } => {
            assert_eq!(cost, Motes::from_u64((300 + 150) * 10));
            assert_eq!(account_addr, [5u8; 32]);
            assert!(matches!(pos_key, Key::URef(u) if u.addr == [11u8; 32] && u.access_rights.is_none()));
            assert!(matches!(pos_base_key, Key::Hash(h) if h == [51u8; 32]));
            assert_eq!(system_account, SYSTEM_ACCOUNT_ADDR);
            assert_eq!(system_account, [0u8; 32]);
            assert_eq!(gas_limit, Gas::from_u64(u64::MAX));
            assert!(!keep_session_effects);
        }
        _ => panic!("expected finalization"),
    }
    let (s, a) = s.step::<String>(DeployEvent::Finalized);
    assert!(matches!(a, DeployAction::ReturnExecutionResult));
    assert!(matches!(s.stage, Stage::Done));
}

#[test]
fn deploy_with_a_poor_main_purse_is_refused() {
    let (s, _) = to_account(true).step::<String>(DeployEvent::Account(Some(facts(true, true))));
    let (s, _) = s.step::<String>(DeployEvent::Module(Ok(())));
    let (s, _) = s.step::<String>(DeployEvent::SystemContract(Ok(mint_info())));
    let (s, _) = s.step::<String>(DeployEvent::SystemContract(Ok(pos_info(pos_keys()))));
    let (s, _) = s.step::<String>(DeployEvent::PurseBalanceKey(Ok(Key::Hash([40u8; 32]))));
    let (s, _) = s.step::<String>(DeployEvent::PurseBalanceKey(Ok(Key::Hash([41u8; 32]))));
    let (s, a) = s.step::<String>(DeployEvent::PurseBalance(Ok(Motes::from_u64(MAX_PAYMENT - 1))));
    assert!(matches!(a, DeployAction::ReturnPreconditionFailure(Error::InsufficientPaymentError)));
    assert!(matches!(s.stage, Stage::Done));
}

#[test]
fn deploy_without_system_contracts_is_refused() {
    let mut keys = NamedKeys::new();
    keys.insert("pos".to_string(), Key::URef(uref(11, 7)));
    let f = AccountFacts { can_authorize: true, can_deploy_with: true, named_keys: keys, main_purse: uref(30, 7) };
    let (s, _) = to_account(true).step::<String>(DeployEvent::Account(Some(f)));
    let (_, a) = s.step::<String>(DeployEvent::Module(Ok(())));
    match a {
        DeployAction::ReturnPreconditionFailure(Error::MissingSystemContractError(name)) => {
            assert_eq!(name, "mint")
        }
        _ => panic!("expected a missing mint"),
    }
    let (s, _) = to_account(true).step::<String>(DeployEvent::Account(Some(facts(true, true))));
    let (s, _) = s.step::<String>(DeployEvent::Module(Ok(())));
    let (s, _) = s.step::<String>(DeployEvent::SystemContract(Ok(mint_info())));
    let (_, a) = s.step::<String>(DeployEvent::SystemContract(Ok(pos_info(NamedKeys::new()))));
    assert!(matches!(a, DeployAction::ReturnPreconditionFailure(Error::DeployError)));
}

#[test]
fn deploy_reports_store_failures_as_execution_errors() {
    let (_, a) = start(true).step::<String>(DeployEvent::Checkout(Checkout::Failed("gone".to_string())));
    match a {
        DeployAction::ReturnPreconditionFailure(Error::ExecError(m)) => assert_eq!(m, "gone"),
        _ => panic!("expected an execution error"),
    }
    let (s, _) = to_account(true).step::<String>(DeployEvent::Account(Some(facts(true, true))));
    let (_, a) = s.step::<String>(DeployEvent::Module(Err(Error::InvalidHashLength { expected: 32, actual: 3 })));
    assert!(matches!(
        a,
        DeployAction::ReturnPreconditionFailure(Error::InvalidHashLength { expected: 32, actual: 3 })
    ));
}

#[test]
fn module_source_by_bytes_and_hash() {
    let keys = account_keys();
    let item = ExecutableDeployItem::ModuleBytes { module_bytes: vec![0, 97, 115, 109], args: vec![1] };
    assert_eq!(item.args(), &[1u8][..]);
    match module_source::<String>(&item, &keys) {
        Ok(ModuleSource::Bytes(b)) => assert_eq!(b, vec![0, 97, 115, 109]),
        _ => panic!("expected bytes"),
    }
    let item = ExecutableDeployItem::StoredContractByHash { hash: vec![7u8; 32], args: vec![] };
    assert!(matches!(module_source::<String>(&item, &keys), Ok(ModuleSource::Stored(Key::Hash(h))) if h == [7u8; 32]));
    let item = ExecutableDeployItem::StoredContractByHash { hash: vec![7u8; 31], args: vec![] };
    assert!(matches!(
        module_source::<String>(&item, &keys),
        Err(Error::InvalidHashLength { expected: 32, actual: 31 })
    ));
}

#[test]
fn module_source_by_name() {
    let keys = account_keys();
    let by_name = |n: &str| ExecutableDeployItem::StoredContractByName { name: n.to_string(), args: vec![] };
    assert!(matches!(module_source::<String>(&by_name("contract"), &keys), Ok(ModuleSource::Stored(Key::Hash(h))) if h == [14u8; 32]));
    assert!(matches!(module_source::<String>(&by_name("readable"), &keys),
        Ok(ModuleSource::Stored(Key::URef(u))) if u.addr == [12u8; 32] && u.access_rights.is_none()));
    assert!(matches!(module_source::<String>(&by_name("hidden"), &keys),
        Err(Error::ForgedReference(u)) if u == uref(13, 2)));
    match module_source::<String>(&by_name("nothing"), &keys) {
        Err(Error::URefNotFound(n)) => assert_eq!(n, "nothing"),
        _ => panic!("expected an unknown name"),
    }
}

#[test]
fn module_source_by_uref() {
    let keys = account_keys();
    let by_uref = |b: u8, len: usize| ExecutableDeployItem::StoredContractByURef { uref: vec![b; len], args: vec![] };
    assert!(matches!(module_source::<String>(&by_uref(12, 32), &keys),
        Ok(ModuleSource::Stored(Key::URef(u))) if u.addr == [12u8; 32] && u.access_rights.is_none()));
    assert!(matches!(module_source::<String>(&by_uref(13, 32), &keys),
        Err(Error::ForgedReference(u)) if u == uref(13, 1)));
    assert!(matches!(module_source::<String>(&by_uref(99, 32), &keys),
        Err(Error::KeyNotFound(Key::URef(u))) if u == uref(99, 1)));
    assert!(matches!(module_source::<String>(&by_uref(12, 5), &keys),
        Err(Error::InvalidHashLength { expected: 32, actual: 5 })));
    let mut odd = NamedKeys::new();
    odd.insert("h".to_string(), Key::Hash([12u8; 32]));
    assert!(matches!(module_source::<String>(&by_uref(12, 32), &odd), Err(Error::KeyNotFound(_))));
}

#[test]
fn named_keys_replace_in_place() {
    let mut keys = NamedKeys::new();
    keys.insert("a".to_string(), Key::Hash([1u8; 32]));
    keys.insert("b".to_string(), Key::Hash([2u8; 32]));
    keys.insert("a".to_string(), Key::Hash([3u8; 32]));
    assert_eq!(keys.len(), 2);
    assert!(matches!(keys.get(&"a".to_string()), Some(Key::Hash(h)) if h == [3u8; 32]));
    assert!(keys.get(&"c".to_string()).is_none());
    let u = U512::from(3);
    assert_eq!(u.as_u64(), 3);
}
