//! The discovery loop: from a request to find a node to the announcement of
//! the node that was found, or of the failure to find one.
//!
//! The loop itself waits: for requests, for name lookups, for gossip answers,
//! for the pause between two attempts. This module holds what it decides in
//! between. `DiscoveryLoop::step` takes what happened and says what to do
//! next; the caller does it and comes back with what happened then.

use crate::address::{decimal_text, IpAddress};
use crate::discovery::candidates::{
    arrangement_of, candidates_from_dns, candidates_from_old_gossip, configured_seeds,
    option_view, remaining, seeds_of,
};
use crate::discovery::gossip::QueryError;
use crate::discovery::member::{members_of, validate_members, Member, MemberInfo};
use crate::discovery::selection::{
    challenges, determine_best_node, eligible_count, lemma_some_iff_eligible, selection,
    NodeEndpoints,
};
use crate::text::append_decimal;
use crate::types::{ClusterSettings, Endpoint, GossipSeed, NodePreference, SeedSource};
use rand::rngs::SmallRng;
use vstd::prelude::*;
use vstd::string::StringExecFns;

verus! {

/// The pause between two attempts, in milliseconds.
pub const BACKOFF_MILLIS: u64 = 500;

/// The identifier that announcements of the discovery loop carry: it speaks
/// for no connection of its own.
pub const NIL_ID: u128 = 0;

/// Discovery gave up: no node was found in the attempts that were allowed.
#[derive(Clone, Copy, Debug, PartialEq, Eq, Structural)]
pub struct DiscoveryFailed {
    /// How many attempts were allowed.
    pub attempts: usize,
}

/// What the failure says of itself.
pub open spec fn failure_text(attempts: usize) -> Seq<char> {
    "Failed to discover candidate in "@ + decimal_text(attempts as nat) + " attempts"@
}

impl DiscoveryFailed {
    /// What the failure says of itself: `Failed to discover candidate in 3
    /// attempts`.
    pub fn to_string(&self) -> (message: String)
        ensures
            message@ == failure_text(self.attempts),
    {
        let mut message = String::from_str("Failed to discover candidate in ");
        append_decimal(&mut message, self.attempts as u64);
        message.append(" attempts");
        message
    }
}

/// What the discovery loop announces to the rest of the client.
#[derive(Clone, Copy, Debug, PartialEq, Eq, Structural)]
pub enum Msg {
    /// Connect to this endpoint.
    Establish(Endpoint),
    /// No node was found.
    Failed(u128, DiscoveryFailed),
}

/// What happened while the loop waited.
#[derive(Debug)]
pub enum Event {
    /// A request to find a node arrived, with the endpoint that has just
    /// failed where there is one.
    Request(Option<Endpoint>),
    /// The lookup of the cluster's name ended: with the addresses found, or
    /// with `None` where it failed.
    Resolved(Option<Vec<IpAddress>>),
    /// The node that was asked for gossip answered, or did not.
    Gossip(Result<Vec<MemberInfo>, QueryError>),
    /// The pause is over.
    Woke,
}

/// What the caller is to do next. After each but `Publish` and
/// `Misconfigured` it comes back with the event that the action ends in.
#[derive(Clone, Copy, Debug, PartialEq, Eq, Structural)]
pub enum Action {
    /// Wait for the next request.
    AwaitRequest,
    /// Look up the cluster's name.
    Resolve,
    /// Ask this node for gossip.
    Query(GossipSeed),
    /// Pause for so many milliseconds.
    Sleep(u64),
    /// Announce this, then wait for the next request. The announcement is
    /// sent once and not repeated if nobody takes it.
    Publish(Msg),
    /// A node was found, but the client asked for a secure connection and the
    /// node offers none. The request is over and nothing is announced.
    Misconfigured,
}

/// Where the loop stands.
pub ghost enum PhaseView {
    /// No request is at work.
    Idle,
    /// The cluster's name is being looked up for this attempt.
    Resolving { failed_endpoint: Option<Endpoint>, attempt: usize },
    /// The candidate at `next` is being asked for gossip in this attempt.
    Querying {
        failed_endpoint: Option<Endpoint>,
        attempt: usize,
        candidates: Seq<GossipSeed>,
        next: int,
    },
    /// This attempt found nothing and the loop pauses.
    Backoff { failed_endpoint: Option<Endpoint>, attempt: usize },
}

/// What a discovery loop holds, as mathematical values.
pub ghost struct LoopView {
    pub settings: ClusterSettings,
    pub preference: NodePreference,
    pub secure_mode: bool,
    /// The members of the last gossip answer that led to a node.
    pub cache: Option<Seq<Member>>,
    pub phase: PhaseView,
}

impl LoopView {
    /// While a request is at work its attempt is one of those allowed, a name
    /// is looked up only where the configuration names one, and the candidate
    /// that is being asked is one of the list.
    pub open spec fn wf(self) -> bool {
        match self.phase {
            PhaseView::Idle => true,
            PhaseView::Resolving { attempt, .. } => 1 <= attempt
                <= self.settings.max_discover_attempts && self.settings.kind is Dns,
            PhaseView::Querying { attempt, candidates, next, .. } => 1 <= attempt
                <= self.settings.max_discover_attempts && 0 <= next < candidates.len(),
            PhaseView::Backoff { attempt, .. } => 1 <= attempt
                <= self.settings.max_discover_attempts,
        }
    }
}

/// The action that a loop in this phase waits for the end of.
pub open spec fn pending(phase: PhaseView) -> Action {
    match phase {
        PhaseView::Idle => Action::AwaitRequest,
        PhaseView::Resolving { .. } => Action::Resolve,
        PhaseView::Querying { candidates, next, .. } => Action::Query(candidates[next]),
        PhaseView::Backoff { .. } => Action::Sleep(BACKOFF_MILLIS),
    }
}

/// Whether an event is the one that a loop in this phase waits for.
pub open spec fn expected(phase: PhaseView, event: Event) -> bool {
    match phase {
        PhaseView::Idle => event is Request,
        PhaseView::Resolving { .. } => event is Resolved,
        PhaseView::Querying { .. } => event is Gossip,
        PhaseView::Backoff { .. } => event is Woke,
    }
}

/// The candidates are asked from `next` on: the one at `next` where there is
/// one, and where the list is at its end the attempt is over and the loop
/// pauses.
pub open spec fn scans(
    failed_endpoint: Option<Endpoint>,
    attempt: usize,
    candidates: Seq<GossipSeed>,
    next: int,
    phase: PhaseView,
    action: Action,
) -> bool {
    if next < candidates.len() {
        phase == (PhaseView::Querying { failed_endpoint, attempt, candidates, next }) && action
            == Action::Query(candidates[next])
    } else {
        phase == (PhaseView::Backoff { failed_endpoint, attempt }) && action == Action::Sleep(
            BACKOFF_MILLIS,
        )
    }
}

/// The announcement that ends a request without a node.
pub open spec fn gives_up(settings: ClusterSettings) -> Action {
    Action::Publish(
        Msg::Failed(NIL_ID, DiscoveryFailed { attempts: settings.max_discover_attempts }),
    )
}

/// `list` holds the seeds of `source`, each as often as `source` does.
pub open spec fn same_seeds(source: Seq<GossipSeed>, list: Seq<GossipSeed>) -> bool {
    list.to_multiset() == source.to_multiset()
}

/// The attempt with the number `attempt` begins.
///
/// Beyond the attempts allowed the loop gives up. Otherwise it asks the
/// members of the last gossip answer that led to a node, arranged anew, and
/// where there is no such answer the seeds of the configuration: at once
/// where they are listed, after a lookup where a name stands for them.
pub open spec fn begins(
    pre: LoopView,
    failed_endpoint: Option<Endpoint>,
    attempt: int,
    phase: PhaseView,
    action: Action,
) -> bool {
    if attempt > pre.settings.max_discover_attempts {
        phase is Idle && action == gives_up(pre.settings)
    } else {
        match pre.cache {
            Some(members) => exists|order: Seq<Member>| #[trigger]
                arrangement_of(remaining(failed_endpoint, members), order) && scans(
                    failed_endpoint,
                    attempt as usize,
                    seeds_of(order),
                    0,
                    phase,
                    action,
                ),
            None => match pre.settings.kind {
                SeedSource::Seeds(seeds) => exists|list: Seq<GossipSeed>| #[trigger]
                    same_seeds(seeds@, list) && scans(
                        failed_endpoint,
                        attempt as usize,
                        list,
                        0,
                        phase,
                        action,
                    ),
                SeedSource::Dns { .. } => phase == (PhaseView::Resolving {
                    failed_endpoint,
                    attempt: attempt as usize,
                }) && action == Action::Resolve,
            },
        }
    }
}

/// The seeds that a lookup led to: none where it failed.
pub open spec fn looked_up_seeds(settings: ClusterSettings, lookup: Option<Vec<IpAddress>>)
    -> Seq<GossipSeed> {
    match configured_seeds(settings, option_view(lookup)) {
        Some(seeds) => seeds,
        None => Seq::empty(),
    }
}

/// The members that a node reported: none where it did not answer, or where
/// one of the addresses it reported cannot be read.
pub open spec fn reported_members(reply: Result<Vec<MemberInfo>, QueryError>) -> Option<
    Seq<Member>,
> {
    match reply {
        Ok(infos) => members_of(infos@),
        Err(_) => None,
    }
}

/// Whether an answer leads to a node: it reports members, and one of them at
/// least is alive and in an allowed state.
pub open spec fn fruitful(reply: Result<Vec<MemberInfo>, QueryError>) -> bool {
    reported_members(reply) matches Some(members) && eligible_count(members) > 0
}

/// What is done about the node that was chosen: its secure endpoint is
/// announced where the client asked for a secure connection, its plain one
/// where it did not.
pub open spec fn announcement(secure_mode: bool, node: NodeEndpoints) -> Action {
    if secure_mode {
        match node.secure_tcp_endpoint {
            Some(endpoint) => Action::Publish(Msg::Establish(endpoint)),
            None => Action::Misconfigured,
        }
    } else {
        Action::Publish(Msg::Establish(node.tcp_endpoint))
    }
}

/// The action is the announcement of the node that is chosen among the
/// members with these draws.
pub open spec fn announces(
    preference: NodePreference,
    secure_mode: bool,
    members: Seq<Member>,
    draws: Seq<u32>,
    action: Action,
) -> bool {
    match selection(preference, members, draws) {
        Some(node) => action == announcement(secure_mode, node),
        None => false,
    }
}

/// The candidate that was asked has answered, or has not.
///
/// An answer that leads to a node ends the request: its members replace
/// those kept from earlier answers, and the node chosen among them is
/// announced. Anything else leads to the next candidate, or to the pause.
pub open spec fn answered(
    pre: LoopView,
    reply: Result<Vec<MemberInfo>, QueryError>,
    post: LoopView,
    action: Action,
) -> bool {
    if fruitful(reply) {
        let members = reported_members(reply)->0;
        &&& post.cache == Some(members)
        &&& post.phase is Idle
        &&& exists|draws: Seq<u32>|
            draws.len() == challenges(members) && #[trigger] announces(
                pre.preference,
                pre.secure_mode,
                members,
                draws,
                action,
            )
    } else {
        &&& post.cache == pre.cache
        &&& pre.phase matches PhaseView::Querying { failed_endpoint, attempt, candidates, next }
        &&& scans(failed_endpoint, attempt, candidates, next + 1, post.phase, action)
    }
}

/// One step of the loop: in `pre` the event `event` happened, the loop went
/// on to `post` and asked for `action`.
pub open spec fn transition(pre: LoopView, event: Event, post: LoopView, action: Action)
    -> bool {
    &&& post.settings == pre.settings
    &&& post.preference == pre.preference
    &&& post.secure_mode == pre.secure_mode
    &&& match (pre.phase, event) {
        (PhaseView::Idle, Event::Request(failed_endpoint)) => {
            &&& post.cache == pre.cache
            &&& begins(pre, failed_endpoint, 1, post.phase, action)
        },
        (PhaseView::Resolving { failed_endpoint, attempt }, Event::Resolved(lookup)) => {
            &&& post.cache == pre.cache
            &&& exists|list: Seq<GossipSeed>| #[trigger]
                same_seeds(looked_up_seeds(pre.settings, lookup), list) && scans(
                    failed_endpoint,
                    attempt,
                    list,
                    0,
                    post.phase,
                    action,
                )
        },
        (PhaseView::Querying { .. }, Event::Gossip(reply)) => answered(pre, reply, post, action),
        (PhaseView::Backoff { failed_endpoint, attempt }, Event::Woke) => {
            &&& post.cache == pre.cache
            &&& begins(pre, failed_endpoint, attempt + 1, post.phase, action)
        },
        _ => post == pre && action == pending(pre.phase),
    }
}

#[derive(Clone, Copy, Debug, PartialEq, Eq, Structural)]
enum Stage {
    Idle,
    Resolving,
    Querying,
    Backoff,
}

/// How far the request at work has come.
struct Progress {
    stage: Stage,
    failed_endpoint: Option<Endpoint>,
    attempt: usize,
    candidates: Vec<GossipSeed>,
    next: usize,
}

impl Progress {
    spec fn phase(&self) -> PhaseView {
        match self.stage {
            Stage::Idle => PhaseView::Idle,
            Stage::Resolving => PhaseView::Resolving {
                failed_endpoint: self.failed_endpoint,
                attempt: self.attempt,
            },
            Stage::Querying => PhaseView::Querying {
                failed_endpoint: self.failed_endpoint,
                attempt: self.attempt,
                candidates: self.candidates@,
                next: self.next as int,
            },
            Stage::Backoff => PhaseView::Backoff {
                failed_endpoint: self.failed_endpoint,
                attempt: self.attempt,
            },
        }
    }

    /// The progress of a loop with no request at work: no endpoint has
    /// failed, no attempt was made and no candidate is listed.
    fn idle() -> (progress: Progress)
        ensures
            progress.phase() is Idle,
            progress.stage == Stage::Idle,
            progress.failed_endpoint is None,
            progress.attempt == 0,
            progress.candidates@ == Seq::<GossipSeed>::empty(),
            progress.next == 0,
    {
        Progress {
            stage: Stage::Idle,
            failed_endpoint: None,
            attempt: 0,
            candidates: Vec::new(),
            next: 0,
        }
    }
}

/// The state of one client's discovery: its configuration, the members of
/// the last gossip answer that led to a node, its random generator, and how
/// far the request at work has come.
pub struct DiscoveryLoop {
    settings: ClusterSettings,
    preference: NodePreference,
    secure_mode: bool,
    previous_candidates: Option<Vec<Member>>,
    rng: SmallRng,
    progress: Progress,
}

impl View for DiscoveryLoop {
    type V = LoopView;

    closed spec fn view(&self) -> LoopView {
        LoopView {
            settings: self.settings,
            preference: self.preference,
            secure_mode: self.secure_mode,
            cache: option_view(self.previous_candidates),
            phase: self.progress.phase(),
        }
    }
}

fn copy_members(members: &Vec<Member>) -> (copy: Vec<Member>)
    ensures
        copy@ == members@,
{
    let mut copy: Vec<Member> = Vec::new();
    let mut i: usize = 0;
    while i < members.len()
        invariant
            i <= members.len(),
            copy@ == members@.take(i as int),
        decreases members.len() - i,
    {
        copy.push(members[i]);
        i += 1;
    }
    copy
}

/// Reads the addresses of the members that a node reported.
pub fn members_from_reply(reply: &Result<Vec<MemberInfo>, QueryError>) -> (members: Option<
    Vec<Member>,
>)
    ensures
        option_view(members) == reported_members(*reply),
{
    match reply {
        Ok(infos) => match validate_members(infos) {
            Ok(members) => Some(members),
            Err(_) => None,
        },
        Err(_) => None,
    }
}

/// Chooses a node among the members that a candidate reported.
///
/// The result is `None` if and only if the answer does not lead to a node.
/// Otherwise it holds the members that were reported and the endpoints of the
/// one that was chosen among them, for the numbers that were drawn.
pub fn choose_node(
    rng: &mut SmallRng,
    preference: NodePreference,
    reply: &Result<Vec<MemberInfo>, QueryError>,
) -> (found: Option<(Vec<Member>, NodeEndpoints)>)
    ensures
        found is Some <==> fruitful(*reply),
        found matches Some((members, node)) ==> reported_members(*reply) == Some(members@)
            && exists|draws: Seq<u32>|
            draws.len() == challenges(members@) && Some(node) == #[trigger] selection(
                preference,
                members@,
                draws,
            ),
{
    let members = match members_from_reply(reply) {
        Some(members) => members,
        None => {
            return None;
        },
    };
    let chosen = determine_best_node(rng, preference, members.as_slice());
    proof {
        lemma_some_iff_eligible(preference, members@, Seq::empty());
        assert(chosen is Some <==> eligible_count(members@) > 0);
    }
    match chosen {
        Some(node) => Some((members, node)),
        None => None,
    }
}

/// What is done about the node that was chosen.
pub fn announce(secure_mode: bool, node: NodeEndpoints) -> (action: Action)
    ensures
        action == announcement(secure_mode, node),
{
    if secure_mode {
        match node.secure_tcp_endpoint {
            Some(endpoint) => Action::Publish(Msg::Establish(endpoint)),
            None => Action::Misconfigured,
        }
    } else {
        Action::Publish(Msg::Establish(node.tcp_endpoint))
    }
}

impl DiscoveryLoop {
    /// A loop that has seen no gossip yet and waits for its first request.
    pub fn new(
        settings: ClusterSettings,
        preference: NodePreference,
        secure_mode: bool,
        rng: SmallRng,
    ) -> (discovery: DiscoveryLoop)
        ensures
            discovery@ == (LoopView {
                settings,
                preference,
                secure_mode,
                cache: None,
                phase: PhaseView::Idle,
            }),
            discovery@.wf(),
    {
        DiscoveryLoop {
            settings,
            preference,
            secure_mode,
            previous_candidates: None,
            rng,
            progress: Progress::idle(),
        }
    }

    /// The members of the last gossip answer that led to a node, if there
    /// was one.
    pub fn previous_candidates(&self) -> (members: Option<&Vec<Member>>)
        ensures
            match members {
                Some(list) => self@.cache == Some(list@),
                None => self@.cache is None,
            },
    {
        self.previous_candidates.as_ref()
    }

    /// The action whose end the loop waits for.
    pub fn pending_action(&self) -> (action: Action)
        requires
            self@.wf(),
        ensures
            action == pending(self@.phase),
    {
        match self.progress.stage {
            Stage::Idle => Action::AwaitRequest,
            Stage::Resolving => Action::Resolve,
            Stage::Querying => Action::Query(self.progress.candidates[self.progress.next]),
            Stage::Backoff => Action::Sleep(BACKOFF_MILLIS),
        }
    }

    /// Goes on with the candidates of an attempt from `next` on.
    fn scan(
        &mut self,
        failed_endpoint: Option<Endpoint>,
        attempt: usize,
        candidates: Vec<GossipSeed>,
        next: usize,
    ) -> (action: Action)
        requires
            1 <= attempt <= old(self)@.settings.max_discover_attempts,
        ensures
            scans(failed_endpoint, attempt, candidates@, next as int, final(self)@.phase, action),
            final(self)@.wf(),
            final(self)@.settings == old(self)@.settings,
            final(self)@.preference == old(self)@.preference,
            final(self)@.secure_mode == old(self)@.secure_mode,
            final(self)@.cache == old(self)@.cache,
    {
        if next < candidates.len() {
            let seed = candidates[next];
            self.progress = Progress {
                stage: Stage::Querying,
                failed_endpoint,
                attempt,
                candidates,
                next,
            };
            Action::Query(seed)
        } else {
            self.progress = Progress {
                stage: Stage::Backoff,
                failed_endpoint,
                attempt,
                candidates: Vec::new(),
                next: 0,
            };
            Action::Sleep(BACKOFF_MILLIS)
        }
    }

    /// Begins the attempt with the number `attempt`.
    fn begin(&mut self, failed_endpoint: Option<Endpoint>, attempt: usize) -> (action: Action)
        requires
            1 <= attempt,
        ensures
            begins(old(self)@, failed_endpoint, attempt as int, final(self)@.phase, action),
            final(self)@.wf(),
            final(self)@.settings == old(self)@.settings,
            final(self)@.preference == old(self)@.preference,
            final(self)@.secure_mode == old(self)@.secure_mode,
            final(self)@.cache == old(self)@.cache,
    {
        if attempt > self.settings.max_discover_attempts {
            self.progress = Progress::idle();
            return Action::Publish(
                Msg::Failed(
                    NIL_ID,
                    DiscoveryFailed { attempts: self.settings.max_discover_attempts },
                ),
            );
        }
        match &self.previous_candidates {
            Some(members) => {
                let old_candidates = copy_members(members);
                let candidates = candidates_from_old_gossip(
                    failed_endpoint,
                    old_candidates,
                    &mut self.rng,
                );
                let ghost order = choose|order: Seq<Member>| #[trigger]
                    arrangement_of(remaining(failed_endpoint, old_candidates@), order)
                        && candidates@ == seeds_of(order);
                let action = self.scan(failed_endpoint, attempt, candidates, 0);
                assert(arrangement_of(remaining(failed_endpoint, old(self)@.cache->0), order));
                action
            },
            None => {
                if let SeedSource::Seeds(_) = &self.settings.kind {
                    let candidates = match candidates_from_dns(
                        &mut self.rng,
                        &self.settings,
                        None,
                    ) {
                        Ok(seeds) => seeds,
                        Err(_) => Vec::new(),
                    };
                    assert(same_seeds(self.settings.kind->Seeds_0@, candidates@));
                    self.scan(failed_endpoint, attempt, candidates, 0)
                } else {
                    self.progress = Progress {
                        stage: Stage::Resolving,
                        failed_endpoint,
                        attempt,
                        candidates: Vec::new(),
                        next: 0,
                    };
                    Action::Resolve
                }
            },
        }
    }

    /// Takes what happened and says what to do next.
    ///
    /// * A request begins the first attempt.
    /// * The end of a lookup gives the candidates of the attempt, in a random
    ///   order; a lookup that failed gives none.
    /// * A gossip answer that reports members of which one may be chosen ends
    ///   the request: the members replace those kept from earlier answers,
    ///   and the node chosen among them is announced. Any other answer, and
    ///   no answer, leads to the next candidate, and after the last one to a
    ///   pause.
    /// * The end of a pause begins the next attempt, or ends the request with
    ///   the announcement of the failure where no attempt is left.
    /// * An event that the loop did not wait for changes nothing: the action
    ///   that it waits for is handed out again.
    pub fn step(&mut self, event: Event) -> (action: Action)
        requires
            old(self)@.wf(),
        ensures
            transition(old(self)@, event, final(self)@, action),
            final(self)@.wf(),
    {
        match (self.progress.stage, event) {
            (Stage::Idle, Event::Request(failed_endpoint)) => self.begin(failed_endpoint, 1),
            (Stage::Resolving, Event::Resolved(lookup)) => {
                let failed_endpoint = self.progress.failed_endpoint;
                let attempt = self.progress.attempt;
                let candidates = match candidates_from_dns(&mut self.rng, &self.settings, lookup) {
                    Ok(seeds) => seeds,
                    Err(_) => Vec::new(),
                };
                assert(same_seeds(looked_up_seeds(self.settings, lookup), candidates@));
                self.scan(failed_endpoint, attempt, candidates, 0)
            },
            (Stage::Querying, Event::Gossip(reply)) => self.answer(reply),
            (Stage::Backoff, Event::Woke) => {
                let failed_endpoint = self.progress.failed_endpoint;
                let attempt = self.progress.attempt;
                if attempt >= self.settings.max_discover_attempts {
                    self.progress = Progress::idle();
                    Action::Publish(
                        Msg::Failed(
                            NIL_ID,
                            DiscoveryFailed { attempts: self.settings.max_discover_attempts },
                        ),
                    )
                } else {
                    self.begin(failed_endpoint, attempt + 1)
                }
            },
            _ => self.pending_action(),
        }
    }

    /// Takes the answer of the candidate that was asked.
    fn answer(&mut self, reply: Result<Vec<MemberInfo>, QueryError>) -> (action: Action)
        requires
            old(self)@.wf(),
            old(self)@.phase is Querying,
        ensures
            answered(old(self)@, reply, final(self)@, action),
            final(self)@.wf(),
            final(self)@.settings == old(self)@.settings,
            final(self)@.preference == old(self)@.preference,
            final(self)@.secure_mode == old(self)@.secure_mode,
    {
        let failed_endpoint = self.progress.failed_endpoint;
        let attempt = self.progress.attempt;
        let next = self.progress.next;
        match choose_node(&mut self.rng, self.preference, &reply) {
            Some((members, node)) => {
                let action = announce(self.secure_mode, node);
                let ghost list = members@;
                let ghost draws = choose|draws: Seq<u32>|
                    draws.len() == challenges(list) && Some(node) == #[trigger] selection(
                        self.preference,
                        list,
                        draws,
                    );
                self.previous_candidates = Some(members);
                self.progress = Progress::idle();
                assert(announces(
                    old(self)@.preference,
                    old(self)@.secure_mode,
                    list,
                    draws,
                    action,
                ));
                action
            },
            None => {
                let candidates = self.take_candidates();
                assert(next < candidates.len());
                self.scan(failed_endpoint, attempt, candidates, next + 1)
            },
        }
    }

    /// Moves the candidates out of the loop, which is idle afterwards.
    fn take_candidates(&mut self) -> (candidates: Vec<GossipSeed>)
        ensures
            old(self)@.phase matches PhaseView::Querying { candidates: list, .. } ==> candidates@
                == list,
            final(self)@ == (LoopView { phase: PhaseView::Idle, ..old(self)@ }),
    {
        let mut progress = Progress::idle();
        std::mem::swap(&mut self.progress, &mut progress);
        progress.candidates
    }
}

} // verus!
