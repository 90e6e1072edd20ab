//! Relay Service
use vstd::prelude::*;
use std::sync::Arc;
use crate::encoding::{decimal, decimal_string};
use crate::parcel::EthereumRelayHeaderParcel;
use crate::result::BridgerError;

verus! {

/// Intervals, in seconds, at which the services run.
#[derive(Debug, Clone, Copy)]
pub struct Step {
    /// Interval of the relay service
    pub relay: u64,
}

/// Bridger configuration, as far as the relay service reads it.
#[derive(Debug, Clone, Copy)]
pub struct Config {
    /// Service intervals
    pub step: Step,
}

/// Relay Service
pub struct RelayService<S, D> {
    step: u64,
    /// Shadow API
    pub shadow: Arc<S>,
    /// Dawrinia API
    pub darwinia: Arc<D>,
}

impl<S, D> RelayService<S, D> {
    /// The interval, in seconds, between two rounds of the service.
    pub closed spec fn interval(&self) -> u64 {
        self.step
    }

    /// The shadow service the relay fetches parcels from.
    pub closed spec fn shadow_api(&self) -> Arc<S> {
        self.shadow
    }

    /// The darwinia chain the relay affirms on.
    pub closed spec fn darwinia_api(&self) -> Arc<D> {
        self.darwinia
    }

    /// New relay service
    pub fn new(config: &Config, shadow: Arc<S>, darwinia: Arc<D>) -> (r: RelayService<S, D>)
        ensures
            r.interval() == config.step.relay,
            r.shadow_api() == shadow,
            r.darwinia_api() == darwinia,
    {
        RelayService { darwinia, shadow, step: config.step.relay }
    }

    /// The interval, in seconds, between two rounds of the service.
    pub fn step(&self) -> (s: u64)
        ensures
            s == self.interval(),
    {
        self.step
    }

    /// The service's name.
    pub fn name(&self) -> (n: &'static str)
        ensures
            n@ == "RELAY"@,
    {
        "RELAY"
    }
}

/// A claim of the relayer game, as far as the relay reads it: the header
/// parcels it puts forward.
pub struct RelayAffirmation {
    /// The parcels of the relayed headers
    pub relay_header_parcels: Vec<EthereumRelayHeaderParcel>,
}

/// Some parcel of some affirmation is at or above `block`.
pub open spec fn has_large_block(affirmations: Seq<RelayAffirmation>, block: u64) -> bool {
    exists|a: int, p: int|
        0 <= a < affirmations.len() && 0 <= p < affirmations[a].relay_header_parcels@.len()
            && #[trigger] affirmations[a].relay_header_parcels@[p].header.number >= block
}

/// Some header pending on darwinia is at or above `target`.
pub open spec fn is_pending(pending: Seq<EthereumRelayHeaderParcel>, target: u64) -> bool {
    exists|i: int| 0 <= i < pending.len() && #[trigger] pending[i].header.number >= target
}

/// Some round of some game of the relayer game holds an affirmation of a
/// block at or above `target`. Games are listed with their rounds, rounds
/// with their affirmations.
pub open spec fn is_in_relayer_game(games: Seq<Vec<Vec<RelayAffirmation>>>, target: u64) -> bool {
    exists|g: int, r: int|
        0 <= g < games.len() && 0 <= r < games[g]@.len() && #[trigger] has_large_block(
            games[g]@[r]@,
            target,
        )
}

/// The refusal of a target at or below the last confirmed block.
pub open spec fn below_last_confirmed_message(target: u64, last_confirmed: u64) -> Seq<char> {
    "The target block "@ + decimal(target as nat) + " is less than the last_confirmed "@
        + decimal(last_confirmed as nat)
}

/// The refusal of a target that a pending header reaches.
pub open spec fn pending_message(target: u64) -> Seq<char> {
    "The target block "@ + decimal(target as nat) + " is pending"@
}

/// The refusal of a target that the relayer game reaches.
pub open spec fn in_relayer_game_message(target: u64) -> Seq<char> {
    "The target block "@ + decimal(target as nat) + " is in the relayer game"@
}

/// `r` is a bridger error with message `m`.
pub open spec fn is_bridger_error(r: Result<(), BridgerError>, m: Seq<char>) -> bool {
    r matches Err(BridgerError::Bridger(s)) && s@ == m
}

/// Whether some parcel of some affirmation is at or above `block`.
pub fn large_block_exists(affirmations: &Vec<RelayAffirmation>, block: u64) -> (r: bool)
    ensures
        r == has_large_block(affirmations@, block),
        forall|a: int, p: int|
            0 <= a < affirmations@.len() && 0 <= p < affirmations@[a].relay_header_parcels@.len()
                && affirmations@[a].relay_header_parcels@[p].header.number >= block ==> r,
        !r ==> forall|a: int, p: int|
            0 <= a < affirmations@.len() && 0 <= p < affirmations@[a].relay_header_parcels@.len()
                ==> affirmations@[a].relay_header_parcels@[p].header.number < block,
{
    let n = affirmations.len();
    for a in 0..n
        invariant
            n == affirmations@.len(),
            forall|x: int, p: int|
                0 <= x < a && 0 <= p < affirmations@[x].relay_header_parcels@.len()
                    ==> #[trigger] affirmations@[x].relay_header_parcels@[p].header.number < block,
    {
        let parcels = &affirmations[a].relay_header_parcels;
        let m = parcels.len();
        for p in 0..m
            invariant
                m == parcels@.len(),
                a < n,
                n == affirmations@.len(),
                parcels == affirmations@[a as int].relay_header_parcels,
                forall|q: int| 0 <= q < p ==> #[trigger] parcels@[q].header.number < block,
        {
            if parcels[p].header.number >= block {
                assert(affirmations@[a as int].relay_header_parcels@[p as int].header.number >= block);
                return true;
            }
        }
    }
    false
}

/// Refuses a target at or below the last confirmed block.
pub fn check_last_confirmed(target: u64, last_confirmed: u64) -> (r: Result<(), BridgerError>)
    ensures
        r is Ok <==> target > last_confirmed,
        r is Err ==> is_bridger_error(r, below_last_confirmed_message(target, last_confirmed)),
{
    if target <= last_confirmed {
        let mut reason = String::from_str("The target block ");
        let t = decimal_string(target);
        reason.append(t.as_str());
        reason.append(" is less than the last_confirmed ");
        let l = decimal_string(last_confirmed);
        reason.append(l.as_str());
        return Err(BridgerError::Bridger(reason));
    }
    Ok(())
}

/// Refuses a target that a header pending on darwinia reaches.
pub fn check_pending(target: u64, pending: &Vec<EthereumRelayHeaderParcel>) -> (r: Result<(), BridgerError>)
    ensures
        r is Ok <==> !is_pending(pending@, target),
        r is Err ==> is_bridger_error(r, pending_message(target)),
        forall|i: int| 0 <= i < pending@.len() && pending@[i].header.number >= target ==> r is Err,
        r is Err ==> exists|i: int| 0 <= i < pending@.len() && pending@[i].header.number >= target,
{
    let n = pending.len();
    for i in 0..n
        invariant
            n == pending@.len(),
            forall|j: int| 0 <= j < i ==> #[trigger] pending@[j].header.number < target,
    {
        let pending_block_number = pending[i].header.number;
        if pending_block_number >= target {
            assert(pending@[i as int].header.number >= target);
            let mut reason = String::from_str("The target block ");
            let t = decimal_string(target);
            reason.append(t.as_str());
            reason.append(" is pending");
            return Err(BridgerError::Bridger(reason));
        }
    }
    Ok(())
}

/// Refuses a target that the relayer game reaches.
pub fn check_affirmations(target: u64, games: &Vec<Vec<Vec<RelayAffirmation>>>) -> (r: Result<(), BridgerError>)
    ensures
        r is Ok <==> !is_in_relayer_game(games@, target),
        r is Err ==> is_bridger_error(r, in_relayer_game_message(target)),
        forall|g: int, rd: int, a: int, p: int|
            0 <= g < games@.len() && 0 <= rd < games@[g]@.len() && 0 <= a < games@[g]@[rd]@.len()
                && 0 <= p < games@[g]@[rd]@[a].relay_header_parcels@.len()
                && games@[g]@[rd]@[a].relay_header_parcels@[p].header.number >= target ==> r is Err,
        r is Ok ==> forall|g: int, rd: int, a: int, p: int|
            0 <= g < games@.len() && 0 <= rd < games@[g]@.len() && 0 <= a < games@[g]@[rd]@.len()
                && 0 <= p < games@[g]@[rd]@[a].relay_header_parcels@.len()
                ==> games@[g]@[rd]@[a].relay_header_parcels@[p].header.number < target,
{
    let n = games.len();
    for g in 0..n
        invariant
            n == games@.len(),
            forall|x: int, r: int|
                0 <= x < g && 0 <= r < games@[x]@.len() ==> !#[trigger] has_large_block(
                    games@[x]@[r]@,
                    target,
                ),
    {
        let game = &games[g];
        let m = game.len();
        for round in 0..m
            invariant
                m == game@.len(),
                g < n,
                n == games@.len(),
                game == games@[g as int],
                forall|r: int| 0 <= r < round ==> !#[trigger] has_large_block(game@[r]@, target),
        {
            if large_block_exists(&game[round], target) {
                assert(has_large_block(games@[g as int]@[round as int]@, target));
                let mut reason = String::from_str("The target block ");
                let t = decimal_string(target);
                reason.append(t.as_str());
                reason.append(" is in the relayer game");
                return Err(BridgerError::Bridger(reason));
            }
        }
    }
    proof {
        assert forall|g: int, rd: int, a: int, p: int|
            0 <= g < games@.len() && 0 <= rd < games@[g]@.len() && 0 <= a < games@[g]@[rd]@.len()
                && 0 <= p < games@[g]@[rd]@[a].relay_header_parcels@.len() implies games@[g]@[rd]@[a].relay_header_parcels@[p].header.number
            < target by {
            if games@[g]@[rd]@[a].relay_header_parcels@[p].header.number >= target {
                relayer_game_found_anywhere(games@, target, g, rd, a, p);
            }
        }
    }
    Ok(())
}

/// Where an affirm of a target block stands. The relay fetches the parcel
/// of the target from shadow, checks the target against darwinia's last
/// confirmed block, its pending headers and its relayer game, in that
/// order, and then affirms the parcel.
pub enum AffirmState {
    /// The parcel of the target is being fetched from shadow.
    FetchingParcel { target: u64 },
    /// The last confirmed block is being fetched from darwinia.
    FetchingLastConfirmed { target: u64, parcel: EthereumRelayHeaderParcel },
    /// The pending headers are being fetched; the target is above the last
    /// confirmed block.
    FetchingPendingHeaders { target: u64, parcel: EthereumRelayHeaderParcel, last_confirmed: u64 },
    /// The relayer game is being fetched; the target is above the last
    /// confirmed block and above every pending header.
    FetchingAffirmations {
        target: u64,
        parcel: EthereumRelayHeaderParcel,
        last_confirmed: u64,
        pending: Ghost<Seq<EthereumRelayHeaderParcel>>,
    },
    /// The parcel has been handed to darwinia to affirm.
    Affirming { target: u64 },
    /// The affirm is over.
    Finished,
}

/// What the services answered to the relay's last request.
pub enum AffirmEvent {
    /// The parcel of the target, from shadow
    Parcel(Result<EthereumRelayHeaderParcel, BridgerError>),
    /// Darwinia's last confirmed block
    LastConfirmed(Result<u64, BridgerError>),
    /// The parcels of the headers pending on darwinia
    PendingHeaders(Result<Vec<EthereumRelayHeaderParcel>, BridgerError>),
    /// Darwinia's relayer game: games, each with its rounds, each with its affirmations
    Affirmations(Result<Vec<Vec<Vec<RelayAffirmation>>>, BridgerError>),
    /// The hash of the extrinsic that affirmed the parcel
    Affirmed(Result<[u8; 32], BridgerError>),
}

/// What the relay asks for next.
pub enum AffirmAction {
    /// Fetch the parcel of this block from shadow.
    FetchParcel(u64),
    /// Fetch darwinia's last confirmed block.
    FetchLastConfirmed,
    /// Fetch the headers pending on darwinia.
    FetchPendingHeaders,
    /// Fetch darwinia's relayer game.
    FetchAffirmations,
    /// Affirm this parcel on darwinia.
    Affirm(EthereumRelayHeaderParcel),
    /// The affirm is over, with this outcome.
    Done(Result<[u8; 32], BridgerError>),
}

/// The event is the answer that the state waits for.
pub open spec fn is_expected(state: AffirmState, event: AffirmEvent) -> bool {
    match state {
        AffirmState::FetchingParcel { .. } => event is Parcel,
        AffirmState::FetchingLastConfirmed { .. } => event is LastConfirmed,
        AffirmState::FetchingPendingHeaders { .. } => event is PendingHeaders,
        AffirmState::FetchingAffirmations { .. } => event is Affirmations,
        AffirmState::Affirming { .. } => event is Affirmed,
        AffirmState::Finished => false,
    }
}

/// What each state knows of its target: the checks already passed.
pub open spec fn affirm_state_wf(state: AffirmState) -> bool {
    match state {
        AffirmState::FetchingPendingHeaders { target, last_confirmed, .. } => target > last_confirmed,
        AffirmState::FetchingAffirmations { target, last_confirmed, pending, .. } => {
            &&& target > last_confirmed
            &&& !is_pending(pending@, target)
        },
        _ => true,
    }
}

/// The affirm ends with the refusal `m`.
pub open spec fn is_refusal(action: AffirmAction, m: Seq<char>) -> bool {
    action matches AffirmAction::Done(Err(BridgerError::Bridger(s))) && s@ == m
}

/// One step of the affirm: from `state`, on `event`, the relay moves to
/// `next` and asks for `action`. A failed request ends the affirm with its
/// error; a refused target ends it with the refusal.
pub open spec fn affirm_next(
    state: AffirmState,
    event: AffirmEvent,
    next: AffirmState,
    action: AffirmAction,
) -> bool {
    match state {
        AffirmState::FetchingParcel { target } => match event {
            AffirmEvent::Parcel(Ok(parcel)) => {
                &&& next == AffirmState::FetchingLastConfirmed { target, parcel }
                &&& action == AffirmAction::FetchLastConfirmed
            },
            AffirmEvent::Parcel(Err(e)) => next == AffirmState::Finished && action == AffirmAction::Done(
                Err(e),
            ),
            _ => false,
        },
        AffirmState::FetchingLastConfirmed { target, parcel } => match event {
            AffirmEvent::LastConfirmed(Ok(last_confirmed)) => if target <= last_confirmed {
                &&& next == AffirmState::Finished
                &&& is_refusal(action, below_last_confirmed_message(target, last_confirmed))
            } else {
                &&& next == AffirmState::FetchingPendingHeaders { target, parcel, last_confirmed }
                &&& action == AffirmAction::FetchPendingHeaders
            },
            AffirmEvent::LastConfirmed(Err(e)) => next == AffirmState::Finished && action
                == AffirmAction::Done(Err(e)),
            _ => false,
        },
        AffirmState::FetchingPendingHeaders { target, parcel, last_confirmed } => match event {
            AffirmEvent::PendingHeaders(Ok(pending)) => if is_pending(pending@, target) {
                &&& next == AffirmState::Finished
                &&& is_refusal(action, pending_message(target))
            } else {
                &&& next == AffirmState::FetchingAffirmations {
                    target,
                    parcel,
                    last_confirmed,
                    pending: Ghost(pending@),
                }
                &&& action == AffirmAction::FetchAffirmations
            },
            AffirmEvent::PendingHeaders(Err(e)) => next == AffirmState::Finished && action
                == AffirmAction::Done(Err(e)),
            _ => false,
        },
        AffirmState::FetchingAffirmations { target, parcel, .. } => match event {
            AffirmEvent::Affirmations(Ok(games)) => if is_in_relayer_game(games@, target) {
                &&& next == AffirmState::Finished
                &&& is_refusal(action, in_relayer_game_message(target))
            } else {
                &&& next == AffirmState::Affirming { target }
                &&& action == AffirmAction::Affirm(parcel)
            },
            AffirmEvent::Affirmations(Err(e)) => next == AffirmState::Finished && action
                == AffirmAction::Done(Err(e)),
            _ => false,
        },
        AffirmState::Affirming { .. } => match event {
            AffirmEvent::Affirmed(r) => next == AffirmState::Finished && action == AffirmAction::Done(r),
            _ => false,
        },
        AffirmState::Finished => false,
    }
}

/// Begins the affirm of a target block: its parcel is fetched first.
pub fn affirm_start(target: u64) -> (r: (AffirmState, AffirmAction))
    ensures
        r.0 == (AffirmState::FetchingParcel { target }),
        r.1 == AffirmAction::FetchParcel(target),
        affirm_state_wf(r.0),
{
    (AffirmState::FetchingParcel { target }, AffirmAction::FetchParcel(target))
}

/// One step of the affirm, on the answer to the last request.
pub fn affirm_step(state: AffirmState, event: AffirmEvent) -> (r: (AffirmState, AffirmAction))
    requires
        is_expected(state, event),
    ensures
        affirm_next(state, event, r.0, r.1),
{
    match state {
        AffirmState::FetchingParcel { target } => match event {
            AffirmEvent::Parcel(Ok(parcel)) => (
                AffirmState::FetchingLastConfirmed { target, parcel },
                AffirmAction::FetchLastConfirmed,
            ),
            AffirmEvent::Parcel(Err(e)) => (AffirmState::Finished, AffirmAction::Done(Err(e))),
            _ => {
                proof {
                    assert(false);
                }
                (AffirmState::Finished, AffirmAction::FetchLastConfirmed)
            },
        },
        AffirmState::FetchingLastConfirmed { target, parcel } => match event {
            AffirmEvent::LastConfirmed(Ok(last_confirmed)) => match check_last_confirmed(
                target,
                last_confirmed,
            ) {
                Err(e) => (AffirmState::Finished, AffirmAction::Done(Err(e))),
                Ok(()) => (
                    AffirmState::FetchingPendingHeaders { target, parcel, last_confirmed },
                    AffirmAction::FetchPendingHeaders,
                ),
            },
            AffirmEvent::LastConfirmed(Err(e)) => (AffirmState::Finished, AffirmAction::Done(Err(e))),
            _ => {
                proof {
                    assert(false);
                }
                (AffirmState::Finished, AffirmAction::FetchLastConfirmed)
            },
        },
        AffirmState::FetchingPendingHeaders { target, parcel, last_confirmed } => match event {
            AffirmEvent::PendingHeaders(Ok(pending)) => match check_pending(target, &pending) {
                Err(e) => (AffirmState::Finished, AffirmAction::Done(Err(e))),
                Ok(()) => (
                    AffirmState::FetchingAffirmations {
                        target,
                        parcel,
                        last_confirmed,
                        pending: Ghost(pending@),
                    },
                    AffirmAction::FetchAffirmations,
                ),
            },
            AffirmEvent::PendingHeaders(Err(e)) => (AffirmState::Finished, AffirmAction::Done(Err(e))),
            _ => {
                proof {
                    assert(false);
                }
                (AffirmState::Finished, AffirmAction::FetchLastConfirmed)
            },
        },
        AffirmState::FetchingAffirmations { target, parcel, .. } => match event {
            AffirmEvent::Affirmations(Ok(games)) => match check_affirmations(target, &games) {
                Err(e) => (AffirmState::Finished, AffirmAction::Done(Err(e))),
                Ok(()) => (AffirmState::Affirming { target }, AffirmAction::Affirm(parcel)),
            },
            AffirmEvent::Affirmations(Err(e)) => (AffirmState::Finished, AffirmAction::Done(Err(e))),
            _ => {
                proof {
                    assert(false);
                }
                (AffirmState::Finished, AffirmAction::FetchLastConfirmed)
            },
        },
        AffirmState::Affirming { .. } => match event {
            AffirmEvent::Affirmed(r) => (AffirmState::Finished, AffirmAction::Done(r)),
            _ => {
                proof {
                    assert(false);
                }
                (AffirmState::Finished, AffirmAction::FetchLastConfirmed)
            },
        },
        AffirmState::Finished => {
            proof {
                assert(false);
            }
            (AffirmState::Finished, AffirmAction::FetchLastConfirmed)
        },
    }
}

/// Every step of the affirm keeps what its states know of the target.
pub proof fn affirm_step_keeps_wf(
    state: AffirmState,
    event: AffirmEvent,
    next: AffirmState,
    action: AffirmAction,
)
    requires
        affirm_state_wf(state),
        affirm_next(state, event, next, action),
    ensures
        affirm_state_wf(next),
{
}

/// A target is affirmed only when it is above darwinia's last confirmed
/// block, above every header pending there, and in no round of the relayer
/// game; and what is affirmed is the parcel that shadow gave for it.
pub proof fn affirm_only_clear_targets(
    state: AffirmState,
    event: AffirmEvent,
    next: AffirmState,
    action: AffirmAction,
)
    requires
        affirm_state_wf(state),
        affirm_next(state, event, next, action),
        action is Affirm,
    ensures
        state matches AffirmState::FetchingAffirmations { target, parcel, last_confirmed, pending } && {
            &&& action == AffirmAction::Affirm(parcel)
            &&& target > last_confirmed
            &&& !is_pending(pending@, target)
            &&& event matches AffirmEvent::Affirmations(Ok(games)) && !is_in_relayer_game(games@, target)
            &&& next == AffirmState::Affirming { target }
        },
{
}

/// The affirm is over exactly when it answers with an outcome, and then it
/// waits for no further answer.
pub proof fn affirm_ends_once(state: AffirmState, event: AffirmEvent, next: AffirmState, action: AffirmAction)
    requires
        affirm_next(state, event, next, action),
    ensures
        (action is Done) == (next is Finished),
        forall|e: AffirmEvent| next is Finished ==> !is_expected(next, e),
{
}

/// The block that a round of the relay affirms: the one after the highest
/// block of the Ethereum transactions in the pool; none for an empty pool.
pub fn relay_target(pool_blocks: &Vec<u64>) -> (t: Option<u64>)
    requires
        forall|i: int| 0 <= i < pool_blocks@.len() ==> pool_blocks@[i] < u64::MAX,
    ensures
        pool_blocks@.len() == 0 ==> t is None,
        pool_blocks@.len() > 0 ==> (t matches Some(x) && {
            &&& forall|i: int| 0 <= i < pool_blocks@.len() ==> pool_blocks@[i] < x
            &&& exists|i: int| 0 <= i < pool_blocks@.len() && pool_blocks@[i] + 1 == x
        }),
{
    let n = pool_blocks.len();
    if n == 0 {
        return None;
    }
    let mut max: u64 = pool_blocks[0];
    let mut at: usize = 0;
    for i in 1..n
        invariant
            n == pool_blocks@.len(),
            at < n,
            max == pool_blocks@[at as int],
            forall|j: int| 0 <= j < i ==> pool_blocks@[j] <= max,
    {
        if pool_blocks[i] > max {
            max = pool_blocks[i];
            at = i;
        }
    }
    assert(max < u64::MAX);
    Some(max + 1)
}

/// A round holds a large block as soon as any parcel of any of its
/// affirmations is at or above the block, whatever its position.
pub proof fn large_block_found_anywhere(affirmations: Seq<RelayAffirmation>, block: u64, a: int, p: int)
    requires
        0 <= a < affirmations.len(),
        0 <= p < affirmations[a].relay_header_parcels@.len(),
        affirmations[a].relay_header_parcels@[p].header.number >= block,
    ensures
        has_large_block(affirmations, block),
{
}

/// A round holds no large block when every parcel of every affirmation is
/// below the block.
pub proof fn large_block_absent_when_all_below(affirmations: Seq<RelayAffirmation>, block: u64)
    requires
        forall|a: int, p: int|
            0 <= a < affirmations.len() && 0 <= p < affirmations[a].relay_header_parcels@.len()
                ==> affirmations[a].relay_header_parcels@[p].header.number < block,
    ensures
        !has_large_block(affirmations, block),
{
}

/// Any pending header at or above the target, at any position of the list,
/// makes the target pending.
pub proof fn pending_found_anywhere(pending: Seq<EthereumRelayHeaderParcel>, target: u64, i: int)
    requires
        0 <= i < pending.len(),
        pending[i].header.number >= target,
    ensures
        is_pending(pending, target),
{
}

/// A target is not pending when every pending header is below it.
pub proof fn pending_absent_when_all_below(pending: Seq<EthereumRelayHeaderParcel>, target: u64)
    requires
        forall|i: int| 0 <= i < pending.len() ==> pending[i].header.number < target,
    ensures
        !is_pending(pending, target),
{
}

/// Whether a target is pending does not depend on the order of the pending
/// headers, nor on where one more header is put in the list.
pub proof fn pending_ignores_order(
    pending: Seq<EthereumRelayHeaderParcel>,
    extra: EthereumRelayHeaderParcel,
    target: u64,
)
    ensures
        is_pending(pending.reverse(), target) == is_pending(pending, target),
        is_pending(seq![extra] + pending, target) == is_pending(pending.push(extra), target),
        is_pending(pending.push(extra), target) == (is_pending(pending, target)
            || extra.header.number >= target),
{
    let r = pending.reverse();
    if is_pending(pending, target) {
        let i = choose|i: int| 0 <= i < pending.len() && #[trigger] pending[i].header.number >= target;
        assert(r[pending.len() - 1 - i] == pending[i]);
    }
    if is_pending(r, target) {
        let i = choose|i: int| 0 <= i < r.len() && #[trigger] r[i].header.number >= target;
        assert(pending[pending.len() - 1 - i] == r[i]);
    }
    let front = seq![extra] + pending;
    let back = pending.push(extra);
    if is_pending(pending, target) {
        let i = choose|i: int| 0 <= i < pending.len() && #[trigger] pending[i].header.number >= target;
        assert(front[i + 1] == pending[i]);
        assert(back[i] == pending[i]);
    }
    if extra.header.number >= target {
        assert(front[0] == extra);
        assert(back[pending.len() as int] == extra);
    }
    if is_pending(front, target) {
        let i = choose|i: int| 0 <= i < front.len() && #[trigger] front[i].header.number >= target;
        if i > 0 {
            assert(pending[i - 1] == front[i]);
        }
    }
    if is_pending(back, target) {
        let i = choose|i: int| 0 <= i < back.len() && #[trigger] back[i].header.number >= target;
        if i < pending.len() {
            assert(pending[i] == back[i]);
        }
    }
}

/// The relayer game reaches a target as soon as any affirmation of any
/// round of any game carries a parcel at or above it.
pub proof fn relayer_game_found_anywhere(
    games: Seq<Vec<Vec<RelayAffirmation>>>,
    target: u64,
    g: int,
    r: int,
    a: int,
    p: int,
)
    requires
        0 <= g < games.len(),
        0 <= r < games[g]@.len(),
        0 <= a < games[g]@[r]@.len(),
        0 <= p < games[g]@[r]@[a].relay_header_parcels@.len(),
        games[g]@[r]@[a].relay_header_parcels@[p].header.number >= target,
    ensures
        is_in_relayer_game(games, target),
{
    large_block_found_anywhere(games[g]@[r]@, target, a, p);
}

/// The relayer game does not reach a target when every parcel of every
/// affirmation of every round is below it.
pub proof fn relayer_game_absent_when_all_below(games: Seq<Vec<Vec<RelayAffirmation>>>, target: u64)
    requires
        forall|g: int, r: int, a: int, p: int|
            0 <= g < games.len() && 0 <= r < games[g]@.len() && 0 <= a < games[g]@[r]@.len()
                && 0 <= p < games[g]@[r]@[a].relay_header_parcels@.len()
                ==> games[g]@[r]@[a].relay_header_parcels@[p].header.number < target,
    ensures
        !is_in_relayer_game(games, target),
{
    assert forall|g: int, r: int| 0 <= g < games.len() && 0 <= r < games[g]@.len() implies !has_large_block(
        games[g]@[r]@,
        target,
    ) by {
        let affs = games[g]@[r]@;
        assert forall|a: int, p: int|
            0 <= a < affs.len() && 0 <= p < affs[a].relay_header_parcels@.len()
                implies affs[a].relay_header_parcels@[p].header.number < target by {
            assert(games[g]@[r]@[a].relay_header_parcels@[p].header.number < target);
        }
        large_block_absent_when_all_below(affs, target);
    }
}

/// On darwinia's last confirmed block, the affirm refuses a target at or
/// below it, naming both blocks, and otherwise goes on to the pending
/// headers with the same target and parcel.
pub proof fn last_confirmed_step_checks_target(
    target: u64,
    parcel: EthereumRelayHeaderParcel,
    last_confirmed: u64,
    next: AffirmState,
    action: AffirmAction,
)
    requires
        affirm_next(
            AffirmState::FetchingLastConfirmed { target, parcel },
            AffirmEvent::LastConfirmed(Ok(last_confirmed)),
            next,
            action,
        ),
    ensures
        target <= last_confirmed ==> (next is Finished && (action matches AffirmAction::Done(
            Err(BridgerError::Bridger(m)),
        ) && m@ == "The target block "@ + decimal(target as nat)
            + " is less than the last_confirmed "@ + decimal(last_confirmed as nat))),
        target > last_confirmed ==> next == (AffirmState::FetchingPendingHeaders {
            target,
            parcel,
            last_confirmed,
        }) && action is FetchPendingHeaders,
{
}

/// On the pending headers, the affirm refuses the target when any of them,
/// anywhere in the list, is at or above the target, and otherwise goes on
/// to the relayer game, keeping the list it received.
pub proof fn pending_step_checks_target(
    target: u64,
    parcel: EthereumRelayHeaderParcel,
    last_confirmed: u64,
    pending: Vec<EthereumRelayHeaderParcel>,
    next: AffirmState,
    action: AffirmAction,
)
    requires
        affirm_next(
            AffirmState::FetchingPendingHeaders { target, parcel, last_confirmed },
            AffirmEvent::PendingHeaders(Ok(pending)),
            next,
            action,
        ),
    ensures
        (exists|i: int| 0 <= i < pending@.len() && pending@[i].header.number >= target) ==> (
        next is Finished && (action matches AffirmAction::Done(Err(BridgerError::Bridger(m)))
            && m@ == "The target block "@ + decimal(target as nat) + " is pending"@)),
        (forall|i: int| 0 <= i < pending@.len() ==> pending@[i].header.number < target) ==> (next
            == AffirmState::FetchingAffirmations {
            target,
            parcel,
            last_confirmed,
            pending: Ghost(pending@),
        } && action is FetchAffirmations),
{
    if exists|i: int| 0 <= i < pending@.len() && pending@[i].header.number >= target {
        let i = choose|i: int| 0 <= i < pending@.len() && pending@[i].header.number >= target;
        pending_found_anywhere(pending@, target, i);
    }
    if forall|i: int| 0 <= i < pending@.len() ==> pending@[i].header.number < target {
        pending_absent_when_all_below(pending@, target);
    }
}

/// On the relayer game, the affirm refuses the target when any parcel of
/// any affirmation of any round of any game is at or above it, and
/// otherwise affirms the parcel that shadow gave.
pub proof fn affirmations_step_checks_target(
    target: u64,
    parcel: EthereumRelayHeaderParcel,
    last_confirmed: u64,
    pending: Ghost<Seq<EthereumRelayHeaderParcel>>,
    games: Vec<Vec<Vec<RelayAffirmation>>>,
    next: AffirmState,
    action: AffirmAction,
)
    requires
        affirm_next(
            AffirmState::FetchingAffirmations { target, parcel, last_confirmed, pending },
            AffirmEvent::Affirmations(Ok(games)),
            next,
            action,
        ),
    ensures
        (exists|g: int, r: int, a: int, p: int|
            0 <= g < games@.len() && 0 <= r < games@[g]@.len() && 0 <= a < games@[g]@[r]@.len()
                && 0 <= p < games@[g]@[r]@[a].relay_header_parcels@.len()
                && games@[g]@[r]@[a].relay_header_parcels@[p].header.number >= target) ==> (
        next is Finished && (action matches AffirmAction::Done(Err(BridgerError::Bridger(m)))
            && m@ == "The target block "@ + decimal(target as nat) + " is in the relayer game"@)),
        (forall|g: int, r: int, a: int, p: int|
            0 <= g < games@.len() && 0 <= r < games@[g]@.len() && 0 <= a < games@[g]@[r]@.len()
                && 0 <= p < games@[g]@[r]@[a].relay_header_parcels@.len()
                ==> games@[g]@[r]@[a].relay_header_parcels@[p].header.number < target) ==> (next
            == AffirmState::Affirming { target } && action == AffirmAction::Affirm(parcel)),
{
    if exists|g: int, r: int, a: int, p: int|
        0 <= g < games@.len() && 0 <= r < games@[g]@.len() && 0 <= a < games@[g]@[r]@.len()
            && 0 <= p < games@[g]@[r]@[a].relay_header_parcels@.len()
            && games@[g]@[r]@[a].relay_header_parcels@[p].header.number >= target {
        let (g, r, a, p) = choose|g: int, r: int, a: int, p: int|
            0 <= g < games@.len() && 0 <= r < games@[g]@.len() && 0 <= a < games@[g]@[r]@.len()
                && 0 <= p < games@[g]@[r]@[a].relay_header_parcels@.len()
                && games@[g]@[r]@[a].relay_header_parcels@[p].header.number >= target;
        relayer_game_found_anywhere(games@, target, g, r, a, p);
    }
    if forall|g: int, r: int, a: int, p: int|
        0 <= g < games@.len() && 0 <= r < games@[g]@.len() && 0 <= a < games@[g]@[r]@.len()
            && 0 <= p < games@[g]@[r]@[a].relay_header_parcels@.len()
            ==> games@[g]@[r]@[a].relay_header_parcels@[p].header.number < target {
        relayer_game_absent_when_all_below(games@, target);
    }
}

/// The affirm keeps the parcel that shadow gives for the target, ends with
/// the very error of any failed request, and ends with darwinia's answer to
/// the affirm itself.
pub proof fn affirm_passes_answers_through(
    state: AffirmState,
    event: AffirmEvent,
    next: AffirmState,
    action: AffirmAction,
)
    requires
        affirm_next(state, event, next, action),
    ensures
        state matches AffirmState::FetchingParcel { target } ==> (event matches AffirmEvent::Parcel(
            Ok(p),
        ) ==> (next == (AffirmState::FetchingLastConfirmed { target, parcel: p }) && action
            is FetchLastConfirmed)),
        event matches AffirmEvent::Parcel(Err(e)) ==> (next is Finished && action
            == AffirmAction::Done(Err(e))),
        event matches AffirmEvent::LastConfirmed(Err(e)) ==> (next is Finished && action
            == AffirmAction::Done(Err(e))),
        event matches AffirmEvent::PendingHeaders(Err(e)) ==> (next is Finished && action
            == AffirmAction::Done(Err(e))),
        event matches AffirmEvent::Affirmations(Err(e)) ==> (next is Finished && action
            == AffirmAction::Done(Err(e))),
        event matches AffirmEvent::Affirmed(r) ==> (next is Finished && action == AffirmAction::Done(r)),
{
}

} // verus!
