//! Choosing, among the members that gossip reported, the node to connect to.
//!
//! Members that are not alive, and managers and nodes that are shutting down
//! or shut down, are never chosen. The others are walked in order: the first
//! of them is the best so far, and each later one challenges the best so far
//! and takes its place where the preference says so. With the preference
//! `Random` each challenge is settled by one number drawn from the generator.

use crate::discovery::member::{Member, VNodeState};
use crate::discovery::random::next_u32;
use crate::types::{Endpoint, NodePreference};
use rand::rngs::SmallRng;
use vstd::prelude::*;

verus! {

/// The endpoints of the node that was chosen.
#[derive(Clone, Copy, Debug, PartialEq, Eq)]
pub struct NodeEndpoints {
    pub tcp_endpoint: Endpoint,
    pub secure_tcp_endpoint: Option<Endpoint>,
}

/// Whether a node in this state may be chosen.
pub open spec fn allowed_state(state: VNodeState) -> bool {
    !(state is Manager || state is ShuttingDown || state is Shutdown)
}

/// Whether a member may be chosen: it is alive and in an allowed state.
pub open spec fn eligible(member: Member) -> bool {
    member.is_alive && allowed_state(member.state)
}

/// How many of the members may be chosen.
pub open spec fn eligible_count(members: Seq<Member>) -> nat
    decreases members.len(),
{
    if members.len() == 0 {
        0
    } else if eligible(members.last()) {
        eligible_count(members.drop_last()) + 1
    } else {
        eligible_count(members.drop_last())
    }
}

/// How many challenges the walk over the members holds: every member that may
/// be chosen challenges the best so far, but for the first, which has nobody
/// to challenge.
pub open spec fn challenges(members: Seq<Member>) -> nat {
    if eligible_count(members) == 0 {
        0
    } else {
        (eligible_count(members) - 1) as nat
    }
}

/// Whether a challenger takes the place of the best so far.
///
/// * `Leader`: a master takes the place of a node that is no master.
/// * `Follower`: a master takes the place of a node that is no master; a
///   slave never takes the place of the best so far.
/// * `Random`: the challenger wins on an even draw.
pub open spec fn challenger_wins(
    preference: NodePreference,
    best: Member,
    challenger: Member,
    draw: u32,
) -> bool {
    match preference {
        NodePreference::Leader => !(best.state is Master) && challenger.state is Master,
        NodePreference::Follower => !(best.state is Master) && !(challenger.state is Slave)
            && challenger.state is Master,
        NodePreference::Random => draw % 2 == 0,
    }
}

/// The member that the walk ends with. The challenge number `k` (counted from
/// 0) is settled with `draws[k]`.
pub open spec fn best_of(preference: NodePreference, members: Seq<Member>, draws: Seq<u32>)
    -> Option<Member>
    decreases members.len(),
{
    if members.len() == 0 {
        None
    } else {
        let before = members.drop_last();
        let challenger = members.last();
        match best_of(preference, before, draws) {
            _ if !eligible(challenger) => best_of(preference, before, draws),
            None => Some(challenger),
            Some(best) => if challenger_wins(
                preference,
                best,
                challenger,
                draws[challenges(before) as int],
            ) {
                Some(challenger)
            } else {
                Some(best)
            },
        }
    }
}

/// The endpoints of a member: its external TCP address, and its external
/// secure TCP address where it has one.
pub open spec fn endpoints_of(member: Member) -> NodeEndpoints {
    NodeEndpoints {
        tcp_endpoint: Endpoint { addr: member.external_tcp },
        secure_tcp_endpoint: match member.external_secure_tcp {
            Some(addr) => Some(Endpoint { addr }),
            None => None,
        },
    }
}

/// The endpoints that are handed out for the outcome of a walk.
pub open spec fn selection(preference: NodePreference, members: Seq<Member>, draws: Seq<u32>)
    -> Option<NodeEndpoints> {
    match best_of(preference, members, draws) {
        Some(member) => Some(endpoints_of(member)),
        None => None,
    }
}

// ---------------------------------------------------------------------------
// What holds of every walk
// ---------------------------------------------------------------------------

/// A walk reads no draw beyond the number of its challenges: two lists of
/// draws that agree on that many lead to the same member.
pub proof fn lemma_best_of_reads_its_draws(
    preference: NodePreference,
    members: Seq<Member>,
    draws: Seq<u32>,
    others: Seq<u32>,
)
    requires
        forall|k: int| 0 <= k < challenges(members) ==> draws[k] == others[k],
    ensures
        best_of(preference, members, draws) == best_of(preference, members, others),
    decreases members.len(),
{
    if members.len() > 0 {
        let before = members.drop_last();
        lemma_best_of_reads_its_draws(preference, before, draws, others);
        if eligible(members.last()) && best_of(preference, before, draws) is Some {
            lemma_some_iff_eligible(preference, before, draws);
        }
    }
}

/// With the preference `Leader` or `Follower` the draws do not matter.
pub proof fn lemma_draws_matter_only_for_random(
    preference: NodePreference,
    members: Seq<Member>,
    draws: Seq<u32>,
    others: Seq<u32>,
)
    requires
        !(preference is Random),
    ensures
        selection(preference, members, draws) == selection(preference, members, others),
{
    lemma_best_equal(preference, members, draws, others);
}

proof fn lemma_best_equal(
    preference: NodePreference,
    members: Seq<Member>,
    draws: Seq<u32>,
    others: Seq<u32>,
)
    requires
        !(preference is Random),
    ensures
        best_of(preference, members, draws) == best_of(preference, members, others),
    decreases members.len(),
{
    if members.len() > 0 {
        lemma_best_equal(preference, members.drop_last(), draws, others);
    }
}

/// A member is chosen if and only if some member may be chosen.
pub proof fn lemma_some_iff_eligible(
    preference: NodePreference,
    members: Seq<Member>,
    draws: Seq<u32>,
)
    ensures
        best_of(preference, members, draws) is Some <==> eligible_count(members) > 0,
        eligible_count(members) > 0 <==> exists|i: int|
            0 <= i < members.len() && eligible(#[trigger] members[i]),
    decreases members.len(),
{
    if members.len() > 0 {
        let before = members.drop_last();
        lemma_some_iff_eligible(preference, before, draws);
        if eligible(members.last()) {
            assert(eligible(members[members.len() - 1]));
        } else if eligible_count(before) > 0 {
            let i = choose|i: int| 0 <= i < before.len() && eligible(#[trigger] before[i]);
            assert(eligible(members[i]));
        } else {
            assert forall|i: int| 0 <= i < members.len() implies !eligible(
                #[trigger] members[i],
            ) by {
                if i < before.len() {
                    assert(before[i] == members[i]);
                }
            }
        }
    }
}

/// Where every member is dead, or a manager, or shutting down or shut down,
/// nobody is chosen, whatever the preference and the draws.
pub proof fn lemma_nobody_to_choose(
    preference: NodePreference,
    members: Seq<Member>,
    draws: Seq<u32>,
)
    requires
        forall|i: int|
            0 <= i < members.len() ==> !(#[trigger] members[i]).is_alive || members[i].state
                is Manager || members[i].state is ShuttingDown || members[i].state is Shutdown,
    ensures
        selection(preference, members, draws) is None,
{
    lemma_some_iff_eligible(preference, members, draws);
}

/// Whoever is chosen is one of the members, and one that may be chosen.
pub proof fn lemma_chosen_is_eligible_member(
    preference: NodePreference,
    members: Seq<Member>,
    draws: Seq<u32>,
)
    ensures
        best_of(preference, members, draws) matches Some(best) ==> eligible(best)
            && members.contains(best),
    decreases members.len(),
{
    if members.len() > 0 {
        let before = members.drop_last();
        lemma_chosen_is_eligible_member(preference, before, draws);
        assert(members.last() == members[members.len() - 1]);
        if best_of(preference, before, draws) is Some {
            let best = best_of(preference, before, draws)->0;
            let i = choose|i: int| 0 <= i < before.len() && before[i] == best;
            assert(members[i] == best);
        }
    }
}

/// Where one member only may be chosen, it is chosen, whatever the
/// preference and the draws.
pub proof fn lemma_single_choice(
    preference: NodePreference,
    members: Seq<Member>,
    draws: Seq<u32>,
    i: int,
)
    requires
        0 <= i < members.len(),
        eligible(members[i]),
        forall|j: int| 0 <= j < members.len() && j != i ==> !eligible(#[trigger] members[j]),
    ensures
        best_of(preference, members, draws) == Some(members[i]),
        selection(preference, members, draws) == Some(endpoints_of(members[i])),
    decreases members.len(),
{
    let before = members.drop_last();
    if i == members.len() - 1 {
        lemma_some_iff_eligible(preference, before, draws);
        assert forall|j: int| 0 <= j < before.len() implies !eligible(#[trigger] before[j]) by {
            assert(before[j] == members[j]);
        }
    } else {
        assert(before[i] == members[i]);
        assert forall|j: int| 0 <= j < before.len() && j != i implies !eligible(
            #[trigger] before[j],
        ) by {
            assert(before[j] == members[j]);
        }
        lemma_single_choice(preference, before, draws, i);
        assert(!eligible(members[members.len() - 1]));
    }
}

/// The place of the first member that may be chosen and is a master, or the
/// length of the list where there is none.
pub open spec fn first_master(members: Seq<Member>) -> int
    decreases members.len(),
{
    if members.len() == 0 {
        0
    } else if first_master(members.drop_last()) < members.len() - 1 {
        first_master(members.drop_last())
    } else if eligible(members.last()) && members.last().state is Master {
        members.len() - 1
    } else {
        members.len() as int
    }
}

/// With the preference `Leader`, and with `Follower`, a master is chosen
/// wherever one may be chosen: the first such member of the list, whatever
/// the draws. Where none is, the first member that may be chosen is.
pub proof fn lemma_master_is_preferred(
    preference: NodePreference,
    members: Seq<Member>,
    draws: Seq<u32>,
)
    requires
        !(preference is Random),
    ensures
        0 <= first_master(members) <= members.len(),
        first_master(members) < members.len() ==> best_of(preference, members, draws) == Some(
            members[first_master(members)],
        ) && members[first_master(members)].state is Master,
        first_master(members) == members.len() ==> (best_of(preference, members, draws)
            matches Some(best) ==> !(best.state is Master)),
    decreases members.len(),
{
    if members.len() > 0 {
        let before = members.drop_last();
        lemma_master_is_preferred(preference, before, draws);
        lemma_chosen_is_eligible_member(preference, before, draws);
        if first_master(before) < before.len() {
            assert(before[first_master(before)] == members[first_master(before)]);
        }
    }
}

// ---------------------------------------------------------------------------
// The walk
// ---------------------------------------------------------------------------

pub fn allowed_states(state: VNodeState) -> (allowed: bool)
    ensures
        allowed == allowed_state(state),
{
    match state {
        VNodeState::Manager | VNodeState::ShuttingDown | VNodeState::Shutdown => false,
        _ => true,
    }
}

/// Whether a member may be chosen.
pub fn is_eligible(member: &Member) -> (yes: bool)
    ensures
        yes == eligible(*member),
{
    member.is_alive && allowed_states(member.state)
}

fn is_master(state: VNodeState) -> (yes: bool)
    ensures
        yes == (state is Master),
{
    match state {
        VNodeState::Master => true,
        _ => false,
    }
}

fn is_slave(state: VNodeState) -> (yes: bool)
    ensures
        yes == (state is Slave),
{
    match state {
        VNodeState::Slave => true,
        _ => false,
    }
}

/// Settles one challenge, with the number that was drawn for it.
pub fn prefers_challenger(
    preference: NodePreference,
    best: &Member,
    challenger: &Member,
    draw: u32,
) -> (wins: bool)
    ensures
        wins == challenger_wins(preference, *best, *challenger, draw),
{
    match preference {
        NodePreference::Leader => !is_master(best.state) && is_master(challenger.state),
        NodePreference::Follower => {
            if is_master(best.state) {
                false
            } else if is_slave(challenger.state) {
                false
            } else {
                is_master(challenger.state)
            }
        },
        NodePreference::Random => draw % 2 == 0,
    }
}

/// The endpoints of a member.
pub fn node_endpoints(member: &Member) -> (endpoints: NodeEndpoints)
    ensures
        endpoints == endpoints_of(*member),
{
    NodeEndpoints {
        tcp_endpoint: Endpoint::from_addr(member.external_tcp),
        secure_tcp_endpoint: match member.external_secure_tcp {
            Some(addr) => Some(Endpoint::from_addr(addr)),
            None => None,
        },
    }
}

/// Walks the members with draws that were made beforehand, one for each
/// challenge. With the preference `Leader` or `Follower` no draw is read.
pub fn select_with_draws(preference: NodePreference, members: &Vec<Member>, draws: &Vec<u32>) -> (chosen:
    Option<NodeEndpoints>)
    requires
        preference is Random ==> draws@.len() >= challenges(members@),
    ensures
        chosen == selection(preference, members@, draws@),
{
    let mut best: Option<Member> = None;
    let mut used: usize = 0;
    let mut i: usize = 0;
    while i < members.len()
        invariant
            i <= members.len(),
            preference is Random ==> draws@.len() >= challenges(members@),
            best == best_of(preference, members@.take(i as int), draws@),
            used == challenges(members@.take(i as int)),
            best is Some <==> eligible_count(members@.take(i as int)) > 0,
            eligible_count(members@.take(i as int)) <= i,
        decreases members.len() - i,
    {
        let challenger = members[i];
        assert(members@.take(i + 1).drop_last() =~= members@.take(i as int));
        if is_eligible(&challenger) {
            match best {
                None => {
                    best = Some(challenger);
                },
                Some(current) => {
                    proof {
                        lemma_challenges_grow(members@, i + 1);
                    }
                    let draw: u32 = match preference {
                        NodePreference::Random => draws[used],
                        _ => 0,
                    };
                    if prefers_challenger(preference, &current, &challenger, draw) {
                        best = Some(challenger);
                    }
                    used += 1;
                },
            }
        }
        i += 1;
    }
    assert(members@.take(members.len() as int) =~= members@);
    match best {
        Some(member) => Some(node_endpoints(&member)),
        None => None,
    }
}

/// The number of members that may be chosen, and with it the number of
/// challenges, only grows along a list.
proof fn lemma_challenges_grow(members: Seq<Member>, k: int)
    requires
        0 <= k <= members.len(),
    ensures
        eligible_count(members.take(k)) <= eligible_count(members),
        challenges(members.take(k)) <= challenges(members),
    decreases members.len() - k,
{
    if k == members.len() {
        assert(members.take(k) =~= members);
    } else {
        lemma_challenges_grow(members.drop_last(), k);
        assert(members.drop_last().take(k) =~= members.take(k));
    }
}

/// Chooses the node to connect to.
///
/// Nobody is chosen if and only if no member is alive and in an allowed
/// state. Otherwise the endpoints are those of the member that the walk ends
/// with, for the numbers that were drawn: one for each challenge with the
/// preference `Random`, none with the others, where the outcome does not
/// depend on the generator.
pub fn determine_best_node(
    rng: &mut SmallRng,
    preference: NodePreference,
    members: &[Member],
) -> (chosen: Option<NodeEndpoints>)
    ensures
        exists|draws: Seq<u32>|
            draws.len() == challenges(members@) && chosen == #[trigger] selection(
                preference,
                members@,
                draws,
            ),
        !(preference is Random) ==> chosen == selection(preference, members@, Seq::empty()),
        chosen is None <==> forall|i: int|
            0 <= i < members@.len() ==> !eligible(#[trigger] members@[i]),
{
    let mut best: Option<Member> = None;
    let ghost mut draws: Seq<u32> = Seq::empty();
    let mut i: usize = 0;
    while i < members.len()
        invariant
            i <= members.len(),
            best == best_of(preference, members@.take(i as int), draws),
            draws.len() == challenges(members@.take(i as int)),
            best is Some <==> eligible_count(members@.take(i as int)) > 0,
        decreases members.len() - i,
    {
        let challenger = members[i];
        let ghost before = members@.take(i as int);
        assert(members@.take(i + 1).drop_last() =~= before);
        if is_eligible(&challenger) {
            match best {
                None => {
                    best = Some(challenger);
                },
                Some(current) => {
                    let draw: u32 = match preference {
                        NodePreference::Random => next_u32(rng),
                        _ => 0,
                    };
                    proof {
                        lemma_best_of_reads_its_draws(preference, before, draws, draws.push(draw));
                        draws = draws.push(draw);
                    }
                    if prefers_challenger(preference, &current, &challenger, draw) {
                        best = Some(challenger);
                    }
                },
            }
        }
        i += 1;
    }
    assert(members@.take(members.len() as int) =~= members@);
    proof {
        lemma_some_iff_eligible(preference, members@, draws);
        if !(preference is Random) {
            lemma_draws_matter_only_for_random(preference, members@, draws, Seq::empty());
        }
    }
    match best {
        Some(member) => Some(node_endpoints(&member)),
        None => None,
    }
}

} // verus!
