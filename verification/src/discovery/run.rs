//! What holds of every run of the discovery loop in which no node is found.
//!
//! A run is a chain of steps, each of which meets the loop's contract. The
//! laws here speak of a request during which no gossip answer leads to a
//! node: the loop then pauses once after each attempt that was allowed,
//! announces its failure once, with the number of attempts allowed, and never
//! announces a node.

use crate::discovery::cluster::{
    announcement, announces, begins, expected, fruitful, gives_up, reported_members, same_seeds, scans,
    transition, Action, Event, LoopView, Msg, PhaseView, BACKOFF_MILLIS,
};
use crate::discovery::member::Member;
use crate::discovery::selection::{
    best_of, challenges, eligible, endpoints_of, lemma_chosen_is_eligible_member,
    lemma_single_choice, lemma_some_iff_eligible,
};
use crate::types::{Endpoint, GossipSeed, SeedSource};
use vstd::prelude::*;

verus! {

/// One step of a loop: the state before, what happened, the state after and
/// the action that was asked for.
pub ghost struct Step {
    pub pre: LoopView,
    pub event: Event,
    pub post: LoopView,
    pub action: Action,
}

impl Step {
    /// The step is one that the loop can make.
    #[verifier::opaque]
    pub open spec fn holds(self) -> bool {
        transition(self.pre, self.event, self.post, self.action)
    }

    /// The event is the one that the loop waited for, and it is no gossip
    /// answer that leads to a node.
    #[verifier::opaque]
    pub open spec fn fruitless(self) -> bool {
        &&& expected(self.pre.phase, self.event)
        &&& !(self.event matches Event::Gossip(reply) && fruitful(reply))
    }
}

/// The step at `k` begins where the step before it ended.
pub open spec fn follows(steps: Seq<Step>, k: int) -> bool {
    steps[k].pre == steps[k - 1].post
}

/// Each step is one that the loop can make, and begins where the step before
/// it ended.
pub open spec fn is_run(steps: Seq<Step>) -> bool {
    &&& forall|k: int| 0 <= k < steps.len() ==> (#[trigger] steps[k]).holds()
    &&& forall|k: int| 0 < k < steps.len() ==> #[trigger] follows(steps, k)
}

/// The steps are those of one request, from its arrival to its end: the loop
/// is idle before the first step and after the last one, and at no time in
/// between.
pub open spec fn is_one_request(steps: Seq<Step>) -> bool {
    &&& steps.len() > 0
    &&& steps[0].pre.phase is Idle
    &&& steps.last().post.phase is Idle
    &&& forall|k: int| 0 <= k < steps.len() - 1 ==> !((#[trigger] steps[k]).post.phase is Idle)
}

/// How often the loop was told to pause.
pub open spec fn pauses(steps: Seq<Step>) -> nat
    decreases steps.len(),
{
    if steps.len() == 0 {
        0
    } else if steps.last().action is Sleep {
        pauses(steps.drop_last()) + 1
    } else {
        pauses(steps.drop_last())
    }
}

pub open spec fn is_establish(action: Action) -> bool {
    action matches Action::Publish(Msg::Establish(_))
}

pub open spec fn is_failure(action: Action) -> bool {
    action matches Action::Publish(Msg::Failed(_, _))
}

/// How often a node was announced.
pub open spec fn nodes_announced(steps: Seq<Step>) -> nat
    decreases steps.len(),
{
    if steps.len() == 0 {
        0
    } else if is_establish(steps.last().action) {
        nodes_announced(steps.drop_last()) + 1
    } else {
        nodes_announced(steps.drop_last())
    }
}

/// How often a failure was announced.
pub open spec fn failures_announced(steps: Seq<Step>) -> nat
    decreases steps.len(),
{
    if steps.len() == 0 {
        0
    } else if is_failure(steps.last().action) {
        failures_announced(steps.drop_last()) + 1
    } else {
        failures_announced(steps.drop_last())
    }
}

/// How often a loop in this phase has paused since the request arrived: once
/// after each attempt that is over.
pub open spec fn paused_so_far(phase: PhaseView) -> int {
    match phase {
        PhaseView::Idle => 0,
        PhaseView::Resolving { attempt, .. } => attempt - 1,
        PhaseView::Querying { attempt, .. } => attempt - 1,
        PhaseView::Backoff { attempt, .. } => attempt as int,
    }
}

/// What is left of a request, largest first: the attempts that may still
/// begin, then the rank of what the loop waits for, then the candidates that
/// were not asked yet.
pub open spec fn left_to_do(view: LoopView) -> (int, int, int) {
    let allowed = view.settings.max_discover_attempts as int;
    match view.phase {
        PhaseView::Idle => (allowed, 3, 0),
        PhaseView::Resolving { attempt, .. } => (allowed - attempt, 2, 0),
        PhaseView::Querying { attempt, candidates, next, .. } => (
            allowed - attempt,
            1,
            candidates.len() - next,
        ),
        PhaseView::Backoff { attempt, .. } => (allowed - attempt, 0, 0),
    }
}

/// `after` comes before `before` in the order of what is left to do, and all
/// its parts are natural numbers: no chain of such steps goes on for ever.
pub open spec fn less_left(before: (int, int, int), after: (int, int, int)) -> bool {
    &&& 0 <= after.0 && 0 <= after.1 && 0 <= after.2
    &&& after.0 < before.0 || (after.0 == before.0 && (after.1 < before.1 || (after.1 == before.1
        && after.2 < before.2)))
}

/// One step in which no node is found.
///
/// * No node is announced, and the loop is not found misconfigured.
/// * Where the step ends the request, it announces the failure, with the
///   number of attempts allowed, and the loop has paused that many times.
/// * Where it does not, nothing is announced, a pause is of 500 milliseconds,
///   and less is left to do than before.
pub proof fn lemma_fruitless_step(step: Step)
    requires
        step.pre.wf(),
        step.holds(),
        step.fruitless(),
    ensures
        step.post.wf(),
        step.post.settings == step.pre.settings,
        step.post.cache == step.pre.cache,
        !is_establish(step.action),
        !(step.action is Misconfigured),
        step.post.phase is Idle ==> step.action == gives_up(step.pre.settings) && paused_so_far(
            step.pre.phase,
        ) == step.pre.settings.max_discover_attempts,
        !(step.post.phase is Idle) ==> !(step.action is Publish) && less_left(
            left_to_do(step.pre),
            left_to_do(step.post),
        ) && paused_so_far(step.post.phase) == paused_so_far(step.pre.phase) + (if step.action
            is Sleep {
            1int
        } else {
            0int
        }),
        step.action is Sleep ==> step.action == Action::Sleep(BACKOFF_MILLIS),
{
    reveal(Step::holds);
    reveal(Step::fruitless);
}

/// The members that are kept from earlier answers change in one way only: a
/// gossip answer that was waited for and leads to a node replaces them by
/// the members it reports. Nothing else changes them, and nothing clears
/// them.
pub proof fn lemma_members_are_kept_until_replaced(step: Step)
    requires
        step.holds(),
    ensures
        step.post.cache != step.pre.cache ==> step.pre.phase is Querying && (step.event
            matches Event::Gossip(reply) && fruitful(reply) && step.post.cache
            == reported_members(reply)),
        step.pre.cache is Some ==> step.post.cache is Some,
{
    reveal(Step::holds);
}

/// A gossip answer that was waited for and leads to a node ends the request
/// at once: no further candidate is asked. Without secure mode the endpoint
/// that is announced is the external TCP address of one of the members that
/// the answer reports, and of one that is alive and in an allowed state.
pub proof fn lemma_fruitful_answer_ends_the_request(step: Step)
    requires
        step.holds(),
        step.pre.phase is Querying,
        step.event matches Event::Gossip(reply) && fruitful(reply),
    ensures
        step.post.phase is Idle,
        step.action is Publish || step.action is Misconfigured,
        !is_failure(step.action),
        !step.pre.secure_mode ==> exists|i: int|
            0 <= i < reported_members(step.event->Gossip_0)->0.len() && eligible(
                #[trigger] reported_members(step.event->Gossip_0)->0[i],
            ) && step.action == Action::Publish(
                Msg::Establish(
                    Endpoint { addr: reported_members(step.event->Gossip_0)->0[i].external_tcp },
                ),
            ),
{
    reveal(Step::holds);
    let members = reported_members(step.event->Gossip_0)->0;
    let draws = choose|draws: Seq<u32>|
        draws.len() == challenges(members) && #[trigger] announces(
            step.pre.preference,
            step.pre.secure_mode,
            members,
            draws,
            step.action,
        );
    lemma_chosen_is_eligible_member(step.pre.preference, members, draws);
    if !step.pre.secure_mode {
        let best = best_of(step.pre.preference, members, draws)->0;
        let i = choose|i: int| 0 <= i < members.len() && members[i] == best;
    }
}

/// A request during which no gossip answer leads to a node ends in failure:
/// the loop pauses once after each attempt that was allowed, then announces
/// the failure once, with the number of attempts allowed, as its last action.
/// It announces no node.
pub proof fn lemma_fruitless_request_fails_once(steps: Seq<Step>)
    requires
        is_run(steps),
        is_one_request(steps),
        steps[0].pre.wf(),
        forall|k: int| 0 <= k < steps.len() ==> (#[trigger] steps[k]).fruitless(),
    ensures
        nodes_announced(steps) == 0,
        failures_announced(steps) == 1,
        steps.last().action == gives_up(steps[0].pre.settings),
        pauses(steps) == steps[0].pre.settings.max_discover_attempts,
{
    lemma_fruitless_prefix(steps, steps.len() as int);
    assert(steps.take(steps.len() as int) =~= steps);
}

/// What holds after the first `n` steps of such a request.
proof fn lemma_fruitless_prefix(steps: Seq<Step>, n: int)
    requires
        is_run(steps),
        is_one_request(steps),
        steps[0].pre.wf(),
        forall|k: int| 0 <= k < steps.len() ==> (#[trigger] steps[k]).fruitless(),
        1 <= n <= steps.len(),
    ensures
        steps[n - 1].post.wf(),
        steps[n - 1].post.settings == steps[0].pre.settings,
        nodes_announced(steps.take(n)) == 0,
        n < steps.len() ==> failures_announced(steps.take(n)) == 0 && pauses(steps.take(n))
            == paused_so_far(steps[n - 1].post.phase),
        n == steps.len() ==> failures_announced(steps.take(n)) == 1 && pauses(steps.take(n))
            == steps[0].pre.settings.max_discover_attempts && steps[n - 1].action == gives_up(
            steps[0].pre.settings,
        ),
    decreases n,
{
    let step = steps[n - 1];
    assert(steps.take(n).drop_last() =~= steps.take(n - 1));
    if n == 1 {
        lemma_fruitless_step(step);
        assert(nodes_announced(steps.take(0)) == 0);
        assert(failures_announced(steps.take(0)) == 0);
        assert(pauses(steps.take(0)) == 0);
    } else {
        lemma_fruitless_prefix(steps, n - 1);
        assert(follows(steps, n - 1));
        lemma_fruitless_step(step);
    }
}

/// The loop asks the candidate at `next` of `candidates`.
pub open spec fn asks(view: LoopView, candidates: Seq<GossipSeed>, next: int) -> bool {
    view.phase matches PhaseView::Querying { candidates: list, next: at, .. } && list
        == candidates && at == next
}

/// Within an attempt the candidates are asked in their order, one after the
/// other: while no answer leads to a node, the answer number `k` is that of
/// the candidate at `k`, and the next candidate is asked after it, or the
/// loop pauses where it was the last.
pub proof fn lemma_candidates_are_asked_in_order(
    steps: Seq<Step>,
    candidates: Seq<GossipSeed>,
    k: int,
)
    requires
        is_run(steps),
        steps.len() <= candidates.len(),
        0 <= k < steps.len(),
        steps[0].pre.wf(),
        asks(steps[0].pre, candidates, 0),
        forall|j: int| 0 <= j < steps.len() ==> (#[trigger] steps[j]).fruitless(),
    ensures
        steps[k].pre.wf(),
        asks(steps[k].pre, candidates, k),
        k + 1 < candidates.len() ==> asks(steps[k].post, candidates, k + 1) && steps[k].action
            == Action::Query(candidates[k + 1]),
        k + 1 == candidates.len() ==> steps[k].post.phase is Backoff && steps[k].action
            == Action::Sleep(BACKOFF_MILLIS),
    decreases k,
{
    if k > 0 {
        lemma_candidates_are_asked_in_order(steps, candidates, k - 1);
        assert(follows(steps, k));
        lemma_fruitless_step(steps[k - 1]);
    }
    let step = steps[k];
    assert(step.holds());
    assert(step.fruitless());
    reveal(Step::holds);
    reveal(Step::fruitless);
}

/// A request to a loop that has kept no members and has one configured seed
/// leads to that seed being asked.
pub proof fn lemma_one_seed_is_asked(step: Step, seed: GossipSeed)
    requires
        step.holds(),
        step.pre.wf(),
        step.pre.phase is Idle,
        step.pre.cache is None,
        step.pre.settings.kind matches SeedSource::Seeds(seeds) && seeds@ == seq![seed],
        step.pre.settings.max_discover_attempts >= 1,
        step.event is Request,
    ensures
        step.action == Action::Query(seed),
        step.post.phase is Querying,
        step.post.wf(),
        step.post.preference == step.pre.preference,
        step.post.secure_mode == step.pre.secure_mode,
{
    reveal(Step::holds);
    let failed_endpoint = step.event->Request_0;
    assert(begins(step.pre, failed_endpoint, 1, step.post.phase, step.action));
    let list = choose|list: Seq<GossipSeed>| #[trigger]
        same_seeds(seq![seed], list) && scans(
            failed_endpoint,
            1,
            list,
            0,
            step.post.phase,
            step.action,
        );
    assert(same_seeds(seq![seed], list));
    list.to_multiset_ensures();
    seq![seed].to_multiset_ensures();
    assert(list.len() == 1);
    assert(list.contains(list[0]));
    assert(seq![seed].to_multiset().count(list[0]) > 0);
    assert(seq![seed].contains(list[0]));
    assert(list[0] == seed);
}

/// An answer that reports one member, and one that may be chosen, leads to
/// the announcement of that member, whatever the preference; the member is
/// kept.
pub proof fn lemma_one_member_is_chosen(step: Step, member: Member)
    requires
        step.holds(),
        step.pre.phase is Querying,
        step.event matches Event::Gossip(reply) && reported_members(reply) == Some(
            seq![member],
        ),
        eligible(member),
    ensures
        step.action == announcement(step.pre.secure_mode, endpoints_of(member)),
        step.post.phase is Idle,
        step.post.cache == Some(seq![member]),
{
    reveal(Step::holds);
    let members = seq![member];
    assert(eligible(members[0]));
    lemma_some_iff_eligible(step.pre.preference, members, Seq::empty());
    let draws = choose|draws: Seq<u32>|
        draws.len() == challenges(members) && #[trigger] announces(
            step.pre.preference,
            step.pre.secure_mode,
            members,
            draws,
            step.action,
        );
    lemma_single_choice(step.pre.preference, members, draws, 0);
}

/// One configured seed and one member that may be chosen: a loop that has
/// kept no members asks the seed at the first attempt, and when the seed
/// reports that member alone, announces the member's external TCP address at
/// once, whatever the preference, and keeps the member.
pub proof fn lemma_one_seed_one_member(first: Step, second: Step, seed: GossipSeed, member: Member)
    requires
        first.holds(),
        second.holds(),
        second.pre == first.post,
        first.pre.wf(),
        first.pre.phase is Idle,
        first.pre.cache is None,
        first.pre.settings.kind matches SeedSource::Seeds(seeds) && seeds@ == seq![seed],
        first.pre.settings.max_discover_attempts >= 1,
        !first.pre.secure_mode,
        first.event is Request,
        second.event matches Event::Gossip(reply) && reported_members(reply) == Some(
            seq![member],
        ),
        eligible(member),
    ensures
        first.action == Action::Query(seed),
        second.action == Action::Publish(Msg::Establish(Endpoint { addr: member.external_tcp })),
        second.post.phase is Idle,
        second.post.cache == Some(seq![member]),
{
    lemma_one_seed_is_asked(first, seed);
    lemma_one_member_is_chosen(second, member);
}

} // verus!
