//! The order in which the nodes of a cluster are asked for gossip.
//!
//! Before anything is known of the cluster the seeds of the configuration are
//! asked, in a random order. Once a gossip answer is at hand its members are
//! asked instead: the regular nodes first, in a random order, then the
//! managers, in a random order, and never the node that just failed.

use crate::address::{socket_address, IpAddress, SocketAddress};
use crate::discovery::member::{Member, VNodeState};
use crate::discovery::random::shuffle;
use crate::types::{ClusterSettings, Endpoint, GossipSeed, SeedSource};
use rand::rngs::SmallRng;
use vstd::prelude::*;
use vstd::seq_lib::*;

verus! {

/// The reason no seeds could be had: the lookup of the cluster's name failed.
#[derive(Clone, Copy, Debug, PartialEq, Eq, Structural)]
pub struct ResolutionError {}

pub open spec fn is_manager(member: Member) -> bool {
    member.state is Manager
}

/// No manager stands before a regular node.
pub open spec fn nodes_before_managers(order: Seq<Member>) -> bool {
    forall|i: int, j: int|
        #![trigger order[i], order[j]]
        0 <= i < j < order.len() ==> !(is_manager(order[i]) && !is_manager(order[j]))
}

/// `order` holds the members, each as often as they occur, with every regular
/// node before every manager.
pub open spec fn arrangement_of(members: Seq<Member>, order: Seq<Member>) -> bool {
    order.to_multiset() == members.to_multiset() && nodes_before_managers(order)
}

/// `split` parts the list into the regular nodes, which come first, and the
/// managers.
pub open spec fn parts_at(order: Seq<Member>, split: int) -> bool {
    &&& 0 <= split <= order.len()
    &&& forall|i: int| 0 <= i < split ==> !is_manager(#[trigger] order[i])
    &&& forall|i: int| split <= i < order.len() ==> is_manager(#[trigger] order[i])
}

/// An arrangement is a run of regular nodes followed by a run of managers,
/// and it leaves no member out and adds none.
pub proof fn lemma_arrangement_is_nodes_then_managers(members: Seq<Member>, order: Seq<Member>)
    requires
        arrangement_of(members, order),
    ensures
        exists|split: int| parts_at(order, split),
        order.len() == members.len(),
        forall|i: int| 0 <= i < order.len() ==> members.contains(#[trigger] order[i]),
        forall|i: int| 0 <= i < members.len() ==> order.contains(#[trigger] members[i]),
{
    lemma_same_items(members, order);
    lemma_same_items(order, members);
    lemma_nodes_then_managers(order);
}

proof fn lemma_nodes_then_managers(order: Seq<Member>)
    requires
        nodes_before_managers(order),
    ensures
        exists|split: int| parts_at(order, split),
    decreases order.len(),
{
    if order.len() == 0 {
        assert(parts_at(order, 0));
    } else {
        let before = order.drop_last();
        assert(nodes_before_managers(before)) by {
            assert forall|i: int, j: int| 0 <= i < j < before.len() implies !(is_manager(
                #[trigger] before[i],
            ) && !is_manager(#[trigger] before[j])) by {
                assert(before[i] == order[i] && before[j] == order[j]);
            }
        }
        lemma_nodes_then_managers(before);
        let split = choose|split: int| parts_at(before, split);
        if is_manager(order.last()) {
            assert(parts_at(order, split)) by {
                assert forall|i: int| 0 <= i < split implies !is_manager(#[trigger] order[i]) by {
                    assert(order[i] == before[i]);
                }
                assert forall|i: int| split <= i < order.len() implies is_manager(
                    #[trigger] order[i],
                ) by {
                    if i < before.len() {
                        assert(order[i] == before[i]);
                    }
                }
            }
        } else {
            let last = order.len() - 1;
            assert(parts_at(order, order.len() as int)) by {
                assert forall|i: int| 0 <= i < order.len() implies !is_manager(
                    #[trigger] order[i],
                ) by {
                    if i < last {
                        assert(!(is_manager(order[i]) && !is_manager(order[last])));
                    }
                }
            }
        }
    }
}

/// The seed by which a member is asked for gossip: its external HTTP address,
/// over plain HTTP.
pub open spec fn seed_of(member: Member) -> GossipSeed {
    GossipSeed::at(member.external_http)
}

pub open spec fn seeds_of(members: Seq<Member>) -> Seq<GossipSeed> {
    members.map_values(|member: Member| seed_of(member))
}

/// Whether a member is asked again after the endpoint `failed` has failed:
/// every member but the one whose external TCP address is that endpoint's.
pub open spec fn still_trusted(failed: Option<Endpoint>, member: Member) -> bool {
    match failed {
        Some(endpoint) => member.external_tcp != endpoint.addr,
        None => true,
    }
}

/// The members that are asked again after the endpoint `failed` has failed.
pub open spec fn remaining(failed: Option<Endpoint>, members: Seq<Member>) -> Seq<Member> {
    members.filter(|member: Member| still_trusted(failed, member))
}

/// The seeds for the nodes that a name lookup found, in the order found.
pub open spec fn seeds_at(ips: Seq<IpAddress>, port: u16) -> Seq<GossipSeed> {
    ips.map_values(|ip: IpAddress| GossipSeed::at(socket_address(ip, port)))
}

/// The members of a gossip answer, the regular nodes apart from the managers.
pub struct Candidates {
    nodes: Vec<Member>,
    managers: Vec<Member>,
}

impl Candidates {
    pub closed spec fn nodes(&self) -> Seq<Member> {
        self.nodes@
    }

    pub closed spec fn managers(&self) -> Seq<Member> {
        self.managers@
    }

    /// No manager is among the nodes, and the managers are all managers.
    pub open spec fn wf(&self) -> bool {
        &&& forall|i: int| 0 <= i < self.nodes().len() ==> !is_manager(#[trigger] self.nodes()[i])
        &&& forall|i: int|
            0 <= i < self.managers().len() ==> is_manager(#[trigger] self.managers()[i])
    }

    pub fn new() -> (candidates: Candidates)
        ensures
            candidates.wf(),
            candidates.nodes() == Seq::<Member>::empty(),
            candidates.managers() == Seq::<Member>::empty(),
    {
        Candidates { nodes: Vec::new(), managers: Vec::new() }
    }

    /// Puts a member behind the managers if it is one, and behind the nodes
    /// if it is not.
    pub fn push(&mut self, member: Member)
        requires
            old(self).wf(),
        ensures
            final(self).wf(),
            is_manager(member) ==> final(self).managers() == old(self).managers().push(member)
                && final(self).nodes() == old(self).nodes(),
            !is_manager(member) ==> final(self).nodes() == old(self).nodes().push(member)
                && final(self).managers() == old(self).managers(),
    {
        if let VNodeState::Manager = member.state {
            self.managers.push(member);
            assert forall|i: int| 0 <= i < self.managers().len() implies is_manager(
                #[trigger] self.managers()[i],
            ) by {
                if i < old(self).managers().len() {
                    assert(self.managers()[i] == old(self).managers()[i]);
                }
            }
        } else {
            self.nodes.push(member);
            assert forall|i: int| 0 <= i < self.nodes().len() implies !is_manager(
                #[trigger] self.nodes()[i],
            ) by {
                if i < old(self).nodes().len() {
                    assert(self.nodes()[i] == old(self).nodes()[i]);
                }
            }
        }
    }

    /// Puts the nodes in a random order, and the managers too. Each holds
    /// afterwards what it held before.
    pub fn shuffle(&mut self, rng: &mut SmallRng)
        requires
            old(self).wf(),
        ensures
            final(self).wf(),
            final(self).nodes().to_multiset() == old(self).nodes().to_multiset(),
            final(self).managers().to_multiset() == old(self).managers().to_multiset(),
    {
        shuffle(&mut self.nodes, rng);
        shuffle(&mut self.managers, rng);
        proof {
            lemma_same_items(old(self).nodes@, self.nodes@);
            lemma_same_items(old(self).managers@, self.managers@);
            assert forall|i: int| 0 <= i < self.nodes@.len() implies !is_manager(
                #[trigger] self.nodes@[i],
            ) by {
                let j = choose|j: int|
                    0 <= j < old(self).nodes@.len() && old(self).nodes@[j] == self.nodes@[i];
                assert(!is_manager(old(self).nodes()[j]));
            }
            assert forall|i: int| 0 <= i < self.managers@.len() implies is_manager(
                #[trigger] self.managers@[i],
            ) by {
                let j = choose|j: int|
                    0 <= j < old(self).managers@.len() && old(self).managers@[j]
                        == self.managers@[i];
                assert(is_manager(old(self).managers()[j]));
            }
        }
    }

    /// The seeds of the nodes, then those of the managers.
    pub fn gossip_seeds(self) -> (seeds: Vec<GossipSeed>)
        ensures
            seeds@ == seeds_of(self.nodes() + self.managers()),
    {
        let mut seeds: Vec<GossipSeed> = Vec::new();
        let mut i: usize = 0;
        while i < self.nodes.len()
            invariant
                i <= self.nodes.len(),
                seeds@ == seeds_of(self.nodes@.take(i as int)),
            decreases self.nodes.len() - i,
        {
            seeds.push(GossipSeed::from_socket_addr(self.nodes[i].external_http));
            i += 1;
        }
        let mut j: usize = 0;
        while j < self.managers.len()
            invariant
                j <= self.managers.len(),
                seeds@ == seeds_of(self.nodes@ + self.managers@.take(j as int)),
            decreases self.managers.len() - j,
        {
            seeds.push(GossipSeed::from_socket_addr(self.managers[j].external_http));
            j += 1;
        }
        seeds
    }
}

/// Two lists that hold the same items hold each other's items.
proof fn lemma_same_items<T>(a: Seq<T>, b: Seq<T>)
    requires
        a.to_multiset() == b.to_multiset(),
    ensures
        a.len() == b.len(),
        forall|i: int| 0 <= i < b.len() ==> a.contains(#[trigger] b[i]),
{
    broadcast use group_to_multiset_ensures;

    a.to_multiset_ensures();
    b.to_multiset_ensures();
    assert forall|i: int| 0 <= i < b.len() implies a.contains(#[trigger] b[i]) by {
        assert(b.to_multiset().count(b[i]) > 0);
    }
}

/// Orders the members of a gossip answer for the next round of questions:
/// the seeds are those of the members in some order that holds each member
/// as often as the answer did, with every regular node before every manager.
pub fn arrange_gossip_candidates(candidates: Vec<Member>, rng: &mut SmallRng) -> (seeds: Vec<
    GossipSeed,
>)
    ensures
        exists|order: Seq<Member>| #[trigger]
            arrangement_of(candidates@, order) && seeds@ == seeds_of(order),
{
    let mut arranged_candidates = Candidates::new();
    let mut i: usize = 0;
    assert(arranged_candidates.nodes() + arranged_candidates.managers() =~= candidates@.take(0));
    while i < candidates.len()
        invariant
            i <= candidates.len(),
            arranged_candidates.wf(),
            (arranged_candidates.nodes() + arranged_candidates.managers()).to_multiset()
                == candidates@.take(i as int).to_multiset(),
        decreases candidates.len() - i,
    {
        let ghost nodes = arranged_candidates.nodes();
        let ghost managers = arranged_candidates.managers();
        let member = candidates[i];
        arranged_candidates.push(member);
        proof {
            broadcast use group_to_multiset_ensures;

            lemma_multiset_commutative(nodes, managers);
            lemma_multiset_commutative(
                arranged_candidates.nodes(),
                arranged_candidates.managers(),
            );
            assert(candidates@.take(i + 1) =~= candidates@.take(i as int).push(member));
        }
        i += 1;
    }
    assert(candidates@.take(i as int) =~= candidates@);
    let ghost nodes = arranged_candidates.nodes();
    let ghost managers = arranged_candidates.managers();
    arranged_candidates.shuffle(rng);
    let ghost order = arranged_candidates.nodes() + arranged_candidates.managers();
    proof {
        lemma_multiset_commutative(nodes, managers);
        lemma_multiset_commutative(arranged_candidates.nodes(), arranged_candidates.managers());
        assert(arrangement_of(candidates@, order));
    }
    arranged_candidates.gossip_seeds()
}

/// Orders the members of the last gossip answer for the next round of
/// questions, without the member whose external TCP address is that of the
/// endpoint that failed.
pub fn candidates_from_old_gossip(
    failed_endpoint: Option<Endpoint>,
    old_candidates: Vec<Member>,
    rng: &mut SmallRng,
) -> (seeds: Vec<GossipSeed>)
    ensures
        exists|order: Seq<Member>| #[trigger]
            arrangement_of(remaining(failed_endpoint, old_candidates@), order) && seeds@
                == seeds_of(order),
{
    let candidates = match failed_endpoint {
        Some(endpoint) => {
            let mut kept: Vec<Member> = Vec::new();
            let mut i: usize = 0;
            proof {
                reveal(Seq::filter);
            }
            while i < old_candidates.len()
                invariant
                    i <= old_candidates.len(),
                    failed_endpoint == Some(endpoint),
                    kept@ == remaining(failed_endpoint, old_candidates@.take(i as int)),
                decreases old_candidates.len() - i,
            {
                let member = old_candidates[i];
                proof {
                    old_candidates@.take(i as int).lemma_filter_push(
                        member,
                        |member: Member| still_trusted(failed_endpoint, member),
                    );
                    assert(old_candidates@.take(i + 1) =~= old_candidates@.take(i as int).push(
                        member,
                    ));
                }
                if member.external_tcp != endpoint.addr {
                    kept.push(member);
                }
                i += 1;
            }
            assert(old_candidates@.take(i as int) =~= old_candidates@);
            kept
        },
        None => {
            proof {
                lemma_filter_keeps_all(old_candidates@);
            }
            old_candidates
        },
    };
    arrange_gossip_candidates(candidates, rng)
}

/// Where no endpoint has failed, every member is asked again.
proof fn lemma_filter_keeps_all(members: Seq<Member>)
    ensures
        remaining(None, members) == members,
    decreases members.len(),
{
    reveal(Seq::filter);
    if members.len() > 0 {
        lemma_filter_keeps_all(members.drop_last());
    }
}

/// The seeds for the nodes that a name lookup found, each at the gossip port.
pub fn seeds_from_addresses(ips: &Vec<IpAddress>, gossip_port: u16) -> (seeds: Vec<GossipSeed>)
    ensures
        seeds@ == seeds_at(ips@, gossip_port),
{
    let mut seeds: Vec<GossipSeed> = Vec::new();
    let mut i: usize = 0;
    while i < ips.len()
        invariant
            i <= ips.len(),
            seeds@ == seeds_at(ips@.take(i as int), gossip_port),
        decreases ips.len() - i,
    {
        let seed = GossipSeed::from_socket_addr(SocketAddress::new(ips[i], gossip_port));
        seeds.push(seed);
        i += 1;
    }
    seeds
}

fn copy_seeds(seeds: &Vec<GossipSeed>) -> (copy: Vec<GossipSeed>)
    ensures
        copy@ == seeds@,
{
    let mut copy: Vec<GossipSeed> = Vec::new();
    let mut i: usize = 0;
    while i < seeds.len()
        invariant
            i <= seeds.len(),
            copy@ == seeds@.take(i as int),
        decreases seeds.len() - i,
    {
        copy.push(seeds[i]);
        i += 1;
    }
    copy
}

/// The seeds that the configuration stands for, before they are shuffled:
/// the configured seeds, or one seed at the gossip port for each address
/// that the lookup of the cluster's name found. `None` where a lookup was
/// needed and failed.
pub open spec fn configured_seeds(settings: ClusterSettings, lookup: Option<Seq<IpAddress>>)
    -> Option<Seq<GossipSeed>> {
    match settings.kind {
        SeedSource::Seeds(seeds) => Some(seeds@),
        SeedSource::Dns { .. } => match lookup {
            Some(ips) => Some(seeds_at(ips, settings.gossip_port)),
            None => None,
        },
    }
}

/// The first seeds to ask, in a random order.
///
/// `lookup` is what the lookup of the cluster's name found, or `None` if it
/// failed or was not made; it is read only where the configuration names a
/// domain. The result is an error if and only if the lookup was needed and
/// failed. Otherwise it holds the seeds that the configuration stands for,
/// each as often as it occurs there.
pub fn candidates_from_dns(
    rng: &mut SmallRng,
    settings: &ClusterSettings,
    lookup: Option<Vec<IpAddress>>,
) -> (seeds: Result<Vec<GossipSeed>, ResolutionError>)
    ensures
        match seeds {
            Ok(list) => configured_seeds(*settings, option_view(lookup)) matches Some(source)
                && list@.to_multiset() == source.to_multiset(),
            Err(_) => configured_seeds(*settings, option_view(lookup)) is None,
        },
{
    let mut src = match &settings.kind {
        SeedSource::Seeds(seeds) => copy_seeds(seeds),
        SeedSource::Dns { .. } => match lookup {
            Some(ips) => seeds_from_addresses(&ips, settings.gossip_port),
            None => {
                return Err(ResolutionError {  });
            },
        },
    };
    shuffle(&mut src, rng);
    Ok(src)
}

/// What an optional list holds.
pub open spec fn option_view<T>(list: Option<Vec<T>>) -> Option<Seq<T>> {
    match list {
        Some(items) => Some(items@),
        None => None,
    }
}

} // verus!
