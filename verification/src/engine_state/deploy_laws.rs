//! Laws of the deploy state machine: every deploy ends, code runs only after the
//! checks that the engine owes before it, and finalization charges the sender.
use super::deploy::{
    admissible, step_spec, Checkout, DeployAction, DeployEvent, DeployState, Phase, Stage,
};
use crate::gas::Gas;
use crate::key::Key;
use super::{MAX_PAYMENT, SYSTEM_ACCOUNT_ADDR};
use vstd::prelude::*;

verus! {

/// How far a deploy has come; every step goes strictly further.
pub open spec fn stage_rank(s: Stage) -> nat {
    match s {
        Stage::AwaitCheckout => 0,
        Stage::AwaitAccount { .. } => 1,
        Stage::AwaitSessionModule { .. } => 2,
        Stage::AwaitSessionOnly => 3,
        Stage::AwaitMint { .. } => 4,
        Stage::AwaitProofOfStake { .. } => 5,
        Stage::AwaitRewardsPurseKey { .. } => 6,
        Stage::AwaitMainPurseKey { .. } => 7,
        Stage::AwaitMainPurseBalance { .. } => 8,
        Stage::AwaitPaymentModule { .. } => 9,
        Stage::AwaitPayment { .. } => 10,
        Stage::AwaitPaymentPurseKey { .. } => 11,
        Stage::AwaitPaymentPurseBalance { .. } => 12,
        Stage::AwaitForcedTransfer { .. } => 13,
        Stage::AwaitSession { .. } => 14,
        Stage::AwaitFinalizeModule { .. } => 15,
        Stage::AwaitFinalize => 16,
        Stage::Done => 17,
    }
}

/// Every step of a deploy moves it strictly closer to its end, so a deploy answers after
/// at most sixteen steps.
pub proof fn lemma_step_progresses<E>(
    s: DeployState,
    e: DeployEvent<E>,
    s2: DeployState,
    a: DeployAction<E>,
)
    requires
        admissible(s, e),
        step_spec(s, e, s2, a),
    ensures
        stage_rank(s2.stage) > stage_rank(s.stage),
        stage_rank(s2.stage) <= 17,
{
}

/// `states`, `events` and `actions` are a run of a deploy from its start: each state
/// steps on its event to the next state and that step's action.
pub open spec fn is_run<E>(
    states: Seq<DeployState>,
    events: Seq<DeployEvent<E>>,
    actions: Seq<DeployAction<E>>,
) -> bool {
    &&& states.len() == events.len() + 1
    &&& actions.len() == events.len()
    &&& states[0].stage is AwaitCheckout
    &&& forall|i: int|
        0 <= i < events.len() ==> admissible(#[trigger] states[i], events[i]) && step_spec(
            states[i],
            events[i],
            states[i + 1],
            actions[i],
        )
}

/// At step `j` the sender's account was found, the deploy carried authorization keys,
/// they all belong to the account and they weigh enough for a deploy.
pub open spec fn authorized_at<E>(
    states: Seq<DeployState>,
    events: Seq<DeployEvent<E>>,
    j: int,
) -> bool {
    &&& states[j].has_authorization_keys
    &&& events[j] matches DeployEvent::Account(Some(f))
    &&& f.can_authorize
    &&& f.can_deploy_with
}

/// At step `j` the balance of the account's main purse was read, and it was at least
/// the maximal payment.
pub open spec fn funded_at<E>(states: Seq<DeployState>, events: Seq<DeployEvent<E>>, j: int) -> bool {
    &&& states[j].stage is AwaitMainPurseBalance
    &&& events[j] matches DeployEvent::PurseBalance(Ok(b))
    &&& b@ >= MAX_PAYMENT
}

/// Stages that only an authorized deploy reaches.
pub open spec fn after_authorization(s: Stage) -> bool {
    2 <= stage_rank(s) <= 16
}

/// Stages that only a deploy whose main purse holds the maximal payment reaches.
pub open spec fn after_funding(s: Stage) -> bool {
    9 <= stage_rank(s) <= 10
}

proof fn lemma_run_invariant<E>(
    states: Seq<DeployState>,
    events: Seq<DeployEvent<E>>,
    actions: Seq<DeployAction<E>>,
    i: int,
)
    requires
        is_run(states, events, actions),
        0 <= i < states.len(),
    ensures
        after_authorization(states[i].stage) ==> exists|j: int|
            0 <= j < i && #[trigger] authorized_at(states, events, j),
        after_funding(states[i].stage) ==> exists|j: int|
            0 <= j < i && #[trigger] funded_at(states, events, j),
    decreases i,
{
    if i > 0 {
        lemma_run_invariant(states, events, actions, i - 1);
        let p = i - 1;
        assert(admissible(states[p], events[p]) && step_spec(
            states[p],
            events[p],
            states[i],
            actions[p],
        ));
        if after_authorization(states[i].stage) && !after_authorization(states[p].stage) {
            assert(authorized_at(states, events, p));
        }
        if after_funding(states[i].stage) && !after_funding(states[p].stage) {
            assert(funded_at(states, events, p));
        }
    }
}

/// In every run of a deploy, code runs only after the sender's account was found and the
/// deploy's authorization keys were accepted; and payment code runs only after the
/// account's main purse was found to hold at least the maximal payment.
pub proof fn lemma_code_runs_only_when_authorized<E>(
    states: Seq<DeployState>,
    events: Seq<DeployEvent<E>>,
    actions: Seq<DeployAction<E>>,
    k: int,
)
    requires
        is_run(states, events, actions),
        0 <= k < actions.len(),
        actions[k] is Execute,
    ensures
        exists|j: int| 0 <= j < k && #[trigger] authorized_at(states, events, j),
        actions[k] matches DeployAction::Execute { phase: Phase::Payment, .. } ==> exists|j: int|
            0 <= j < k && #[trigger] funded_at(states, events, j),
{
    assert(admissible(states[k], events[k]) && step_spec(
        states[k],
        events[k],
        states[k + 1],
        actions[k],
    ));
    lemma_run_invariant(states, events, actions, k);
}

/// The account address a stage carries, once the sender's account is known.
pub open spec fn stage_account(s: Stage) -> Option<[u8; 32]> {
    match s {
        Stage::AwaitAccount { account_addr } => Some(account_addr),
        Stage::AwaitSessionModule { account_addr, .. } => Some(account_addr),
        Stage::AwaitMint { account_addr, .. } => Some(account_addr),
        Stage::AwaitProofOfStake { account_addr, .. } => Some(account_addr),
        Stage::AwaitRewardsPurseKey { sys, .. } => Some(sys.account_addr),
        Stage::AwaitMainPurseKey { sys, .. } => Some(sys.account_addr),
        Stage::AwaitMainPurseBalance { sys, .. } => Some(sys.account_addr),
        Stage::AwaitPaymentModule { sys, .. } => Some(sys.account_addr),
        Stage::AwaitPayment { sys, .. } => Some(sys.account_addr),
        Stage::AwaitPaymentPurseKey { sys, .. } => Some(sys.account_addr),
        Stage::AwaitPaymentPurseBalance { sys, .. } => Some(sys.account_addr),
        Stage::AwaitForcedTransfer { sys, .. } => Some(sys.account_addr),
        Stage::AwaitSession { sys, .. } => Some(sys.account_addr),
        Stage::AwaitFinalizeModule { sys, .. } => Some(sys.account_addr),
        _ => None,
    }
}

/// A deploy's stage carries no account but the one its sender names.
pub open spec fn carries_sender_account(s: DeployState) -> bool {
    stage_account(s.stage) matches Some(addr) ==> s.address.account_of() == Some(addr)
}

proof fn lemma_sender_account_kept<E>(
    states: Seq<DeployState>,
    events: Seq<DeployEvent<E>>,
    actions: Seq<DeployAction<E>>,
    i: int,
)
    requires
        is_run(states, events, actions),
        0 <= i < states.len(),
    ensures
        states[i].address == states[0].address,
        carries_sender_account(states[i]),
    decreases i,
{
    if i > 0 {
        lemma_sender_account_kept(states, events, actions, i - 1);
        let p = i - 1;
        assert(admissible(states[p], events[p]) && step_spec(
            states[p],
            events[p],
            states[i],
            actions[p],
        ));
    }
}

/// In every run of a deploy, finalization charges the account that the deploy names as
/// its sender, and is run by the system account with the largest gas limit.
pub proof fn lemma_finalization_charges_sender<E>(
    states: Seq<DeployState>,
    events: Seq<DeployEvent<E>>,
    actions: Seq<DeployAction<E>>,
    k: int,
)
    requires
        is_run(states, events, actions),
        0 <= k < actions.len(),
        actions[k] is Finalize,
    ensures
        actions[k] matches DeployAction::Finalize { account_addr, system_account, gas_limit, .. }
            && states[0].address.account_of() == Some(account_addr) && states[0].address
            == Key::Account(account_addr)
            && system_account == SYSTEM_ACCOUNT_ADDR && gas_limit@ == u64::MAX,
{
    assert(admissible(states[k], events[k]) && step_spec(
        states[k],
        events[k],
        states[k + 1],
        actions[k],
    ));
    lemma_sender_account_kept(states, events, actions, k);
}

/// Once the prestate is found, a deploy from the account key `Key::Account(addr)` asks
/// for the account at `addr` itself.
pub proof fn lemma_found_prestate_fetches_sender<E>(
    s: DeployState,
    addr: [u8; 32],
    s2: DeployState,
    a: DeployAction<E>,
)
    requires
        s.stage is AwaitCheckout,
        s.address == Key::Account(addr),
        step_spec(s, DeployEvent::Checkout(Checkout::Found), s2, a),
    ensures
        a == DeployAction::<E>::FetchAccount(addr),
        s2.stage == (Stage::AwaitAccount { account_addr: addr }),
{
}

/// After session code ran and the finalize module loaded, finalization keeps the session's
/// effects exactly when session code did not fail, and charges the payment gas and the
/// session gas together at the conversion rate, whether session code failed or not.
pub proof fn lemma_finalize_after_session<E>(
    s: DeployState,
    payment_cost: Gas,
    session_cost: Gas,
    failed: bool,
    s2: DeployState,
    a: DeployAction<E>,
    s3: DeployState,
    a2: DeployAction<E>,
)
    requires
        s.stage matches Stage::AwaitSession { payment_cost: pc, .. } && pc == payment_cost,
        step_spec(s, DeployEvent::Executed { cost: session_cost, failed }, s2, a),
        step_spec(s2, DeployEvent::Module(Ok(())), s3, a2),
    ensures
        a == DeployAction::<E>::LoadModule(Phase::FinalizePayment),
        a2 matches DeployAction::Finalize { cost, keep_session_effects, .. } && keep_session_effects
            == !failed && cost@ == (payment_cost@ + session_cost@) * 10,
{
}

/// Without payment code, session code gets the gas that `DEFAULT_SESSION_MOTES` buy at
/// ten motes a unit.
pub proof fn lemma_session_only_gas<E>(s: DeployState, s2: DeployState, a: DeployAction<E>)
    requires
        s.stage is AwaitSessionModule,
        !s.use_payment_code,
        step_spec(s, DeployEvent::Module(Ok(())), s2, a),
    ensures
        a matches DeployAction::Execute { phase: Phase::Session, gas_limit } && gas_limit@
            == 100_000_000,
{
}

/// Payment code gets the gas that `MAX_PAYMENT` buys at ten motes a unit.
pub proof fn lemma_payment_gas<E>(s: DeployState, s2: DeployState, a: DeployAction<E>)
    requires
        s.stage is AwaitPaymentModule,
        step_spec(s, DeployEvent::Module(Ok(())), s2, a),
    ensures
        a matches DeployAction::Execute { phase: Phase::Payment, gas_limit } && gas_limit@
            == 1_000_000,
{
}

/// Once the forced-transfer check passes, session code gets the gas the payment purse's
/// balance buys at ten motes a unit, less what payment code spent; when the check ends
/// the deploy, nothing more runs.
pub proof fn lemma_session_gas<E>(
    s: DeployState,
    payment_cost: Gas,
    payment_purse_balance: crate::motes::Motes,
    forced: bool,
    s2: DeployState,
    a: DeployAction<E>,
)
    requires
        s.stage matches Stage::AwaitForcedTransfer { payment_cost: pc, payment_purse_balance: b, .. }
            && pc == payment_cost && b == payment_purse_balance,
        admissible(s, DeployEvent::<E>::ForcedTransfer(forced)),
        step_spec(s, DeployEvent::ForcedTransfer(forced), s2, a),
    ensures
        !forced ==> (a matches DeployAction::Execute { phase: Phase::Session, gas_limit }
            && gas_limit@ == payment_purse_balance@ / 10 - payment_cost@),
        forced ==> a is ReturnExecutionResult && s2.stage is Done,
{
}

/// A deploy goes on to payment code only when the main purse holds at least
/// `MAX_PAYMENT` motes; with less it is refused for insufficient payment.
pub proof fn lemma_main_purse_threshold<E>(
    s: DeployState,
    balance: crate::motes::Motes,
    s2: DeployState,
    a: DeployAction<E>,
)
    requires
        s.stage is AwaitMainPurseBalance,
        step_spec(s, DeployEvent::PurseBalance(Ok(balance)), s2, a),
    ensures
        balance@ < 10_000_000 ==> a == DeployAction::<E>::ReturnPreconditionFailure(
            crate::engine_state::error::Error::InsufficientPaymentError,
        ),
        balance@ >= 10_000_000 ==> a == DeployAction::<E>::LoadModule(Phase::Payment),
{
}

/// The prestate decides first: a store failure is reported as an execution error, a
/// missing root as that root not found, and a deploy from a key that is no account is
/// refused for authorization.
pub proof fn lemma_checkout_outcomes<E>(
    s: DeployState,
    c: Checkout<E>,
    s2: DeployState,
    a: DeployAction<E>,
)
    requires
        s.stage is AwaitCheckout,
        step_spec(s, DeployEvent::Checkout(c), s2, a),
    ensures
        c matches Checkout::Failed(err) ==> a == DeployAction::<E>::ReturnPreconditionFailure(
            crate::engine_state::error::Error::ExecError(err),
        ),
        c is Missing ==> a == DeployAction::<E>::ReturnRootNotFound(s.prestate_hash),
        (c is Found && !(s.address is Account)) ==> a == DeployAction::<E>::ReturnPreconditionFailure(
            crate::engine_state::error::Error::AuthorizationError,
        ),
{
}

} // verus!
