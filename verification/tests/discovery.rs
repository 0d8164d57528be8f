use eventstore::address::{AddressError, IpAddress, SocketAddress};
use eventstore::discovery::candidates::{
    arrange_gossip_candidates, candidates_from_dns, candidates_from_old_gossip,
    seeds_from_addresses, Candidates, ResolutionError,
};
use eventstore::discovery::cluster::{
    announce, choose_node, members_from_reply, Action, DiscoveryFailed, DiscoveryLoop, Event,
    Msg, BACKOFF_MILLIS, NIL_ID,
};
use eventstore::discovery::gossip::QueryError;
use eventstore::discovery::member::{validate_members, Member, MemberInfo, VNodeState};
use eventstore::discovery::selection::{
    allowed_states, determine_best_node, is_eligible, node_endpoints, prefers_challenger,
    select_with_draws, NodeEndpoints,
};
use eventstore::types::{
    ClusterSettings, Endpoint, GossipSeed, NodePreference, Scheme, SeedSource,
};
use rand::rngs::SmallRng;
use rand::SeedableRng;

fn v4(a: u8, b: u8, c: u8, d: u8, port: u16) -> SocketAddress {
    SocketAddress::V4 { ip: u32::from_be_bytes([a, b, c, d]), port }
}

fn member(last: u8, state: VNodeState, is_alive: bool) -> Member {
    Member {
        external_tcp: v4(10, 0, 0, last, 1113),
        external_secure_tcp: None,
        external_http: v4(10, 0, 0, last, 2113),
        internal_tcp: v4(10, 0, 0, last, 1112),
        internal_secure_tcp: None,
        internal_http: v4(10, 0, 0, last, 2112),
        state,
        is_alive,
    }
}

fn info(last: u8, state: VNodeState, is_alive: bool) -> MemberInfo {
    let ip = format!("10.0.0.{}", last);
    MemberInfo {
        instance_id: 1,
        state,
        is_alive,
        internal_tcp_ip: ip.clone(),
        internal_tcp_port: 1112,
        internal_secure_tcp_port: 0,
        external_tcp_ip: ip.clone(),
        external_tcp_port: 1113,
        external_secure_tcp_port: 0,
        internal_http_ip: ip.clone(),
        internal_http_port: 2112,
        external_http_ip: ip,
        external_http_port: 2113,
        last_commit_position: 0,
        writer_checkpoint: 0,
        chaser_checkpoint: 0,
        epoch_position: 0,
        epoch_number: 0,
        epoch_id: 2,
        node_priority: 0,
    }
}

fn seed(last: u8) -> GossipSeed {
    GossipSeed::from_socket_addr(v4(10, 0, 0, last, 2113))
}

fn rng(seed: u64) -> SmallRng {
    SmallRng::seed_from_u64(seed)
}

fn static_settings(seeds: Vec<GossipSeed>, max: usize) -> ClusterSettings {
    ClusterSettings { kind: SeedSource::Seeds(seeds), gossip_port: 2113, max_discover_attempts: max }
}

fn dns_settings(max: usize) -> ClusterSettings {
    ClusterSettings {
        kind: SeedSource::Dns { domain_name: "cluster.example".to_string() },
        gossip_port: 2114,
        max_discover_attempts: max,
    }
}

fn sorted_ports_of(seeds: &[GossipSeed]) -> Vec<SocketAddress> {
    let mut addrs: Vec<SocketAddress> = seeds.iter().map(|s| s.endpoint.addr).collect();
    addrs.sort_by_key(|a| match a {
        SocketAddress::V4 { ip, port } => (*ip as u128, *port),
        SocketAddress::V6 { ip, port, .. } => (*ip, *port),
    });
    addrs
}

// --- choosing a node -------------------------------------------------------

#[test]
fn allowed_states_refuses_managers_and_nodes_going_down() {
    assert!(!allowed_states(VNodeState::Manager));
    assert!(!allowed_states(VNodeState::ShuttingDown));
    assert!(!allowed_states(VNodeState::Shutdown));
    for state in [
        VNodeState::Initializing,
        VNodeState::Unknown,
        VNodeState::PreReplica,
        VNodeState::CatchingUp,
        VNodeState::Clone,
        VNodeState::Slave,
        VNodeState::PreMaster,
        VNodeState::Master,
    ] {
        assert!(allowed_states(state));
    }
}

#[test]
fn a_dead_member_is_not_eligible() {
    assert!(!is_eligible(&member(1, VNodeState::Master, false)));
    assert!(is_eligible(&member(1, VNodeState::Master, true)));
    assert!(!is_eligible(&member(1, VNodeState::Manager, true)));
}

#[test]
fn leader_picks_the_master_between_two_slaves() {
    let members = vec![
        member(1, VNodeState::Slave, true),
        member(2, VNodeState::Master, true),
        member(3, VNodeState::Slave, true),
    ];
    for s in 0..50u64 {
        let chosen = determine_best_node(&mut rng(s), NodePreference::Leader, &members);
        assert_eq!(
            chosen,
            Some(NodeEndpoints {
                tcp_endpoint: Endpoint { addr: v4(10, 0, 0, 2, 1113) },
                secure_tcp_endpoint: None,
            })
        );
    }
}

#[test]
fn leader_keeps_the_first_of_two_masters() {
    let members = vec![
        member(1, VNodeState::Slave, true),
        member(2, VNodeState::Master, true),
        member(3, VNodeState::Master, true),
    ];
    let chosen = determine_best_node(&mut rng(1), NodePreference::Leader, &members).unwrap();
    assert_eq!(chosen.tcp_endpoint.addr, v4(10, 0, 0, 2, 1113));
}

#[test]
fn leader_without_master_keeps_the_first_eligible_member() {
    let members = vec![
        member(1, VNodeState::Manager, true),
        member(2, VNodeState::Slave, false),
        member(3, VNodeState::Clone, true),
        member(4, VNodeState::Slave, true),
    ];
    let chosen = determine_best_node(&mut rng(1), NodePreference::Leader, &members).unwrap();
    assert_eq!(chosen.tcp_endpoint.addr, v4(10, 0, 0, 3, 1113));
}

#[test]
fn follower_prefers_a_master_and_never_a_slave_challenger() {
    let slave = member(1, VNodeState::Slave, true);
    let master = member(2, VNodeState::Master, true);
    let clone = member(3, VNodeState::Clone, true);
    assert!(prefers_challenger(NodePreference::Follower, &clone, &master, 0));
    assert!(prefers_challenger(NodePreference::Follower, &slave, &master, 1));
    assert!(!prefers_challenger(NodePreference::Follower, &master, &clone, 0));
    assert!(!prefers_challenger(NodePreference::Follower, &clone, &slave, 0));
    assert!(!prefers_challenger(NodePreference::Follower, &master, &slave, 0));
    assert!(!prefers_challenger(NodePreference::Follower, &master, &master, 0));
    let members = vec![clone, slave, master];
    let chosen = determine_best_node(&mut rng(9), NodePreference::Follower, &members).unwrap();
    assert_eq!(chosen.tcp_endpoint.addr, v4(10, 0, 0, 2, 1113));
    let members = vec![clone, slave];
    let chosen = determine_best_node(&mut rng(9), NodePreference::Follower, &members).unwrap();
    assert_eq!(chosen.tcp_endpoint.addr, v4(10, 0, 0, 3, 1113));
}

#[test]
fn leader_prefers_a_master_challenger_only() {
    let slave = member(1, VNodeState::Slave, true);
    let master = member(2, VNodeState::Master, true);
    assert!(prefers_challenger(NodePreference::Leader, &slave, &master, 1));
    assert!(!prefers_challenger(NodePreference::Leader, &master, &slave, 0));
    assert!(!prefers_challenger(NodePreference::Leader, &slave, &slave, 0));
    assert!(!prefers_challenger(NodePreference::Leader, &master, &master, 0));
}

#[test]
fn random_lets_the_challenger_win_on_an_even_draw() {
    let a = member(1, VNodeState::Slave, true);
    let b = member(2, VNodeState::Master, true);
    assert!(prefers_challenger(NodePreference::Random, &a, &b, 0));
    assert!(prefers_challenger(NodePreference::Random, &b, &a, 4));
    assert!(!prefers_challenger(NodePreference::Random, &a, &b, 1));
    assert!(!prefers_challenger(NodePreference::Random, &b, &a, u32::MAX));
}

#[test]
fn select_with_draws_follows_the_draws() {
    let members = vec![
        member(1, VNodeState::Slave, true),
        member(9, VNodeState::Manager, true),
        member(2, VNodeState::Master, true),
        member(3, VNodeState::Clone, true),
    ];
    let pick = |draws: Vec<u32>| {
        select_with_draws(NodePreference::Random, &members, &draws).unwrap().tcp_endpoint.addr
    };
    assert_eq!(pick(vec![1, 1]), v4(10, 0, 0, 1, 1113));
    assert_eq!(pick(vec![2, 1]), v4(10, 0, 0, 2, 1113));
    assert_eq!(pick(vec![1, 2]), v4(10, 0, 0, 3, 1113));
    assert_eq!(pick(vec![2, 2]), v4(10, 0, 0, 3, 1113));
    assert_eq!(pick(vec![7, 9, 0, 0]), v4(10, 0, 0, 1, 1113));
}

#[test]
fn select_with_draws_reads_no_draw_for_leader() {
    let members = vec![member(1, VNodeState::Slave, true), member(2, VNodeState::Master, true)];
    let chosen = select_with_draws(NodePreference::Leader, &members, &vec![]).unwrap();
    assert_eq!(chosen.tcp_endpoint.addr, v4(10, 0, 0, 2, 1113));
}

#[test]
fn nobody_is_chosen_among_managers_and_nodes_going_down() {
    let members = vec![
        member(1, VNodeState::Manager, true),
        member(2, VNodeState::ShuttingDown, true),
        member(3, VNodeState::Shutdown, true),
    ];
    for preference in [NodePreference::Leader, NodePreference::Follower, NodePreference::Random] {
        assert_eq!(determine_best_node(&mut rng(3), preference, &members), None);
    }
}

#[test]
fn nobody_is_chosen_among_the_dead() {
    let members = vec![member(1, VNodeState::Master, false), member(2, VNodeState::Slave, false)];
    for preference in [NodePreference::Leader, NodePreference::Follower, NodePreference::Random] {
        assert_eq!(determine_best_node(&mut rng(3), preference, &members), None);
    }
    assert_eq!(determine_best_node(&mut rng(3), NodePreference::Random, &vec![]), None);
}

#[test]
fn random_chooses_one_of_the_eligible_members() {
    let members = vec![
        member(1, VNodeState::Slave, true),
        member(2, VNodeState::Master, false),
        member(3, VNodeState::Clone, true),
        member(4, VNodeState::Manager, true),
    ];
    let mut seen = [false; 5];
    for s in 0..200u64 {
        let chosen = determine_best_node(&mut rng(s), NodePreference::Random, &members).unwrap();
        let addr = chosen.tcp_endpoint.addr;
        assert!(addr == v4(10, 0, 0, 1, 1113) || addr == v4(10, 0, 0, 3, 1113));
        if addr == v4(10, 0, 0, 1, 1113) {
            seen[1] = true;
        } else {
            seen[3] = true;
        }
    }
    assert!(seen[1] && seen[3]);
}

#[test]
fn node_endpoints_carry_the_secure_address_where_there_is_one() {
    let mut m = member(5, VNodeState::Master, true);
    m.external_secure_tcp = Some(v4(10, 0, 0, 5, 1115));
    let endpoints = node_endpoints(&m);
    assert_eq!(endpoints.tcp_endpoint, Endpoint { addr: v4(10, 0, 0, 5, 1113) });
    assert_eq!(endpoints.secure_tcp_endpoint, Some(Endpoint { addr: v4(10, 0, 0, 5, 1115) }));
    assert_eq!(node_endpoints(&member(5, VNodeState::Master, true)).secure_tcp_endpoint, None);
}

// --- reading the addresses of members ---------------------------------------

#[test]
fn a_secure_port_of_zero_means_no_secure_address() {
    let m = Member::from_member_info(info(7, VNodeState::Master, true)).unwrap();
    assert_eq!(m.external_secure_tcp, None);
    assert_eq!(m.internal_secure_tcp, None);
    assert_eq!(m.external_tcp, v4(10, 0, 0, 7, 1113));
    assert_eq!(m.external_http, v4(10, 0, 0, 7, 2113));
    assert_eq!(m.internal_tcp, v4(10, 0, 0, 7, 1112));
    assert_eq!(m.internal_http, v4(10, 0, 0, 7, 2112));
    assert_eq!(m.state, VNodeState::Master);
    assert!(m.is_alive);
}

#[test]
fn a_secure_port_gives_a_secure_address_on_the_same_host() {
    let mut record = info(7, VNodeState::Slave, false);
    record.external_secure_tcp_port = 1115;
    record.internal_secure_tcp_port = 1;
    let m = Member::from_member_info(record).unwrap();
    assert_eq!(m.external_secure_tcp, Some(v4(10, 0, 0, 7, 1115)));
    assert_eq!(m.internal_secure_tcp, Some(v4(10, 0, 0, 7, 1)));
    assert!(!m.is_alive);
}

#[test]
fn each_address_of_a_record_must_be_readable() {
    let spoil: [fn(&mut MemberInfo); 4] = [
        |r| r.external_tcp_ip = "nowhere".to_string(),
        |r| r.external_http_ip = "10.0.0".to_string(),
        |r| r.internal_tcp_ip = "10.0.0.256".to_string(),
        |r| r.internal_http_ip = "".to_string(),
    ];
    for s in spoil {
        let mut record = info(7, VNodeState::Master, true);
        s(&mut record);
        assert_eq!(Member::from_member_info(record), Err(AddressError {}));
    }
}

#[test]
fn a_bad_host_is_found_out_by_the_secure_address_only_where_there_is_a_port() {
    let mut record = info(7, VNodeState::Master, true);
    record.internal_tcp_ip = "10.0.0.7".to_string();
    record.external_tcp_ip = "10.0.0.07".to_string();
    assert_eq!(Member::from_member_info(record), Err(AddressError {}));
}

#[test]
fn a_host_may_be_an_ipv6_address_in_brackets() {
    let mut record = info(7, VNodeState::Master, true);
    record.external_tcp_ip = "[2001:db8::7]".to_string();
    record.external_secure_tcp_port = 1115;
    let m = Member::from_member_info(record).unwrap();
    let ip = 0x2001_0db8_0000_0000_0000_0000_0000_0007;
    assert_eq!(m.external_tcp, SocketAddress::V6 { ip, port: 1113, flowinfo: 0, scope_id: 0 });
    assert_eq!(
        m.external_secure_tcp,
        Some(SocketAddress::V6 { ip, port: 1115, flowinfo: 0, scope_id: 0 })
    );
    let mut record = info(7, VNodeState::Master, true);
    record.external_tcp_ip = "2001:db8::7".to_string();
    assert_eq!(Member::from_member_info(record), Err(AddressError {}));
}

#[test]
fn one_bad_record_spoils_the_batch() {
    let mut bad = info(2, VNodeState::Slave, true);
    bad.external_http_ip = "not-an-ip".to_string();
    let batch = vec![info(1, VNodeState::Master, true), bad, info(3, VNodeState::Slave, true)];
    assert_eq!(validate_members(&batch), Err(AddressError {}));
}

#[test]
fn a_good_batch_gives_one_member_for_each_record_in_order() {
    let batch = vec![
        info(1, VNodeState::Master, true),
        info(2, VNodeState::Slave, false),
        info(3, VNodeState::Manager, true),
    ];
    let members = validate_members(&batch).unwrap();
    assert_eq!(
        members,
        vec![
            member(1, VNodeState::Master, true),
            member(2, VNodeState::Slave, false),
            member(3, VNodeState::Manager, true),
        ]
    );
    assert_eq!(validate_members(&vec![]), Ok(vec![]));
}

// --- the order of the candidates --------------------------------------------

#[test]
fn static_seeds_come_back_as_a_permutation() {
    let seeds = vec![seed(1), seed(2), seed(3)];
    let settings = static_settings(seeds.clone(), 3);
    let mut orders = std::collections::HashSet::new();
    for s in 0..100u64 {
        let out = candidates_from_dns(&mut rng(s), &settings, None).unwrap();
        assert_eq!(sorted_ports_of(&out), sorted_ports_of(&seeds));
        orders.insert(out.iter().map(|s| s.endpoint.addr).collect::<Vec<_>>());
    }
    assert!(orders.len() > 1);
}

#[test]
fn static_seeds_ignore_what_a_lookup_found() {
    let seeds = vec![seed(1)];
    let settings = static_settings(seeds.clone(), 3);
    let out =
        candidates_from_dns(&mut rng(1), &settings, Some(vec![IpAddress::V4(1), IpAddress::V4(2)]))
            .unwrap();
    assert_eq!(out, seeds);
}

#[test]
fn a_lookup_gives_one_seed_at_the_gossip_port_for_each_address() {
    let settings = dns_settings(3);
    let ips = vec![
        IpAddress::V4(u32::from_be_bytes([192, 168, 0, 1])),
        IpAddress::V6(1),
        IpAddress::V4(u32::from_be_bytes([192, 168, 0, 2])),
    ];
    let out = candidates_from_dns(&mut rng(5), &settings, Some(ips.clone())).unwrap();
    let expected = vec![
        GossipSeed::from_socket_addr(v4(192, 168, 0, 1, 2114)),
        GossipSeed::from_socket_addr(SocketAddress::V6 {
            ip: 1,
            port: 2114,
            flowinfo: 0,
            scope_id: 0,
        }),
        GossipSeed::from_socket_addr(v4(192, 168, 0, 2, 2114)),
    ];
    assert_eq!(sorted_ports_of(&out), sorted_ports_of(&expected));
    assert_eq!(seeds_from_addresses(&ips, 2114), expected);
}

#[test]
fn a_failed_lookup_is_an_error_where_a_name_is_configured() {
    assert_eq!(candidates_from_dns(&mut rng(5), &dns_settings(3), None), Err(ResolutionError {}));
}

#[test]
fn a_seed_from_an_address_is_asked_over_plain_http() {
    let s = GossipSeed::from_socket_addr(v4(1, 2, 3, 4, 2113));
    assert_eq!(s.scheme, Scheme::Http);
    assert_eq!(s.endpoint, Endpoint::from_addr(v4(1, 2, 3, 4, 2113)));
}

#[test]
fn managers_come_after_the_nodes() {
    let members = vec![
        member(1, VNodeState::Manager, true),
        member(2, VNodeState::Slave, true),
        member(3, VNodeState::Manager, false),
        member(4, VNodeState::Master, true),
        member(5, VNodeState::Shutdown, false),
        member(6, VNodeState::Manager, true),
    ];
    let managers = [v4(10, 0, 0, 1, 2113), v4(10, 0, 0, 3, 2113), v4(10, 0, 0, 6, 2113)];
    let mut orders = std::collections::HashSet::new();
    for s in 0..100u64 {
        let seeds = arrange_gossip_candidates(members.clone(), &mut rng(s));
        assert_eq!(seeds.len(), 6);
        for (i, seed) in seeds.iter().enumerate() {
            assert_eq!(managers.contains(&seed.endpoint.addr), i >= 3);
            assert_eq!(seed.scheme, Scheme::Http);
        }
        let expected: Vec<GossipSeed> = (1..=6).map(seed).collect();
        assert_eq!(sorted_ports_of(&seeds), sorted_ports_of(&expected));
        orders.insert(seeds.iter().map(|s| s.endpoint.addr).collect::<Vec<_>>());
    }
    assert!(orders.len() > 1);
}

#[test]
fn the_endpoint_that_failed_is_not_asked_again() {
    let members = vec![
        member(1, VNodeState::Manager, true),
        member(2, VNodeState::Slave, true),
        member(3, VNodeState::Master, true),
    ];
    let failed = Endpoint { addr: v4(10, 0, 0, 2, 1113) };
    let seeds = candidates_from_old_gossip(Some(failed), members.clone(), &mut rng(4));
    assert_eq!(seeds, vec![seed(3), seed(1)]);
    let seeds = candidates_from_old_gossip(None, members.clone(), &mut rng(4));
    assert_eq!(seeds.len(), 3);
    assert_eq!(seeds[2], seed(1));
    let other = Endpoint { addr: v4(10, 0, 0, 2, 2113) };
    assert_eq!(candidates_from_old_gossip(Some(other), members, &mut rng(4)).len(), 3);
}

#[test]
fn candidates_sort_members_into_nodes_and_managers() {
    let candidates = Candidates::new();
    assert_eq!(candidates.gossip_seeds(), vec![]);
    let mut candidates = Candidates::new();
    candidates.push(member(1, VNodeState::Manager, true));
    candidates.push(member(2, VNodeState::Slave, true));
    candidates.push(member(3, VNodeState::Manager, true));
    candidates.push(member(4, VNodeState::Master, true));
    assert_eq!(candidates.gossip_seeds(), vec![seed(2), seed(4), seed(1), seed(3)]);
    let mut candidates = Candidates::new();
    candidates.push(member(1, VNodeState::Manager, true));
    candidates.push(member(2, VNodeState::Slave, true));
    candidates.shuffle(&mut rng(8));
    assert_eq!(candidates.gossip_seeds(), vec![seed(2), seed(1)]);
}

// --- the loop ---------------------------------------------------------------

fn new_loop(settings: ClusterSettings, preference: NodePreference, secure: bool) -> DiscoveryLoop {
    DiscoveryLoop::new(settings, preference, secure, rng(42))
}

#[test]
fn a_fresh_loop_waits_for_a_request() {
    let discovery = new_loop(static_settings(vec![seed(1)], 3), NodePreference::Random, false);
    assert_eq!(discovery.pending_action(), Action::AwaitRequest);
}

#[test]
fn one_seed_with_one_master_is_established_at_once() {
    let mut discovery =
        new_loop(static_settings(vec![seed(1)], 3), NodePreference::Random, false);
    assert_eq!(discovery.step(Event::Request(None)), Action::Query(seed(1)));
    let reply = Ok(vec![info(9, VNodeState::Master, true)]);
    assert_eq!(
        discovery.step(Event::Gossip(reply)),
        Action::Publish(Msg::Establish(Endpoint { addr: v4(10, 0, 0, 9, 1113) }))
    );
    assert_eq!(discovery.pending_action(), Action::AwaitRequest);
}

#[test]
fn a_seed_that_never_answers_ends_in_one_failure_after_the_attempts_allowed() {
    let mut discovery =
        new_loop(static_settings(vec![seed(1)], 3), NodePreference::Random, false);
    let mut actions = vec![discovery.step(Event::Request(None))];
    loop {
        let event = match actions.last().unwrap() {
            Action::Query(_) => Event::Gossip(Err(QueryError::Unreachable)),
            Action::Sleep(_) => Event::Woke,
            _ => break,
        };
        actions.push(discovery.step(event));
        assert!(actions.len() < 100);
    }
    let failed = Action::Publish(Msg::Failed(NIL_ID, DiscoveryFailed { attempts: 3 }));
    assert_eq!(
        actions,
        vec![
            Action::Query(seed(1)),
            Action::Sleep(500),
            Action::Query(seed(1)),
            Action::Sleep(500),
            Action::Query(seed(1)),
            Action::Sleep(500),
            failed,
        ]
    );
    assert_eq!(BACKOFF_MILLIS, 500);
    assert_eq!(NIL_ID, 0);
    assert_eq!(discovery.pending_action(), Action::AwaitRequest);
}

#[test]
fn attempts_without_a_node_end_in_one_failure() {
    let mut discovery = new_loop(
        static_settings(vec![seed(1), seed(2)], 3),
        NodePreference::Leader,
        false,
    );
    let mut action = discovery.step(Event::Request(None));
    let mut failures = 0;
    let mut established = 0;
    let mut sleeps = 0;
    let mut queries = 0;
    let mut bad = info(3, VNodeState::Master, true);
    bad.external_tcp_ip = "?".to_string();
    for round in 0..100 {
        let event = match action {
            Action::Query(_) => {
                queries += 1;
                match round % 4 {
                    0 => Event::Gossip(Ok(vec![])),
                    1 => Event::Gossip(Ok(vec![info(1, VNodeState::Manager, true)])),
                    2 => Event::Gossip(Ok(vec![info(1, VNodeState::Master, false)])),
                    _ => Event::Gossip(Err(QueryError::MalformedJson)),
                }
            }
            Action::Sleep(ms) => {
                assert_eq!(ms, 500);
                sleeps += 1;
                Event::Woke
            }
            Action::Publish(Msg::Failed(id, error)) => {
                assert_eq!(id, 0);
                assert_eq!(error.attempts, 3);
                failures += 1;
                break;
            }
            Action::Publish(Msg::Establish(_)) => {
                established += 1;
                break;
            }
            other => panic!("unexpected action {:?}", other),
        };
        action = discovery.step(event);
    }
    assert_eq!((failures, established, sleeps, queries), (1, 0, 3, 6));
    let _ = bad;
}

#[test]
fn a_batch_with_a_bad_address_is_passed_over() {
    let mut discovery = new_loop(
        static_settings(vec![seed(1), seed(2)], 1),
        NodePreference::Leader,
        false,
    );
    let first = discovery.step(Event::Request(None));
    let mut bad = info(3, VNodeState::Master, true);
    bad.external_tcp_ip = "?".to_string();
    let second = discovery.step(Event::Gossip(Ok(vec![info(1, VNodeState::Master, true), bad])));
    match (first, second) {
        (Action::Query(a), Action::Query(b)) => assert_ne!(a, b),
        other => panic!("unexpected actions {:?}", other),
    }
    assert_eq!(
        discovery.step(Event::Gossip(Ok(vec![info(4, VNodeState::Slave, true)]))),
        Action::Publish(Msg::Establish(Endpoint { addr: v4(10, 0, 0, 4, 1113) }))
    );
}

#[test]
fn no_attempt_is_made_where_none_is_allowed() {
    let mut discovery = new_loop(static_settings(vec![seed(1)], 0), NodePreference::Leader, false);
    assert_eq!(
        discovery.step(Event::Request(None)),
        Action::Publish(Msg::Failed(0, DiscoveryFailed { attempts: 0 }))
    );
}

#[test]
fn a_name_is_looked_up_before_its_nodes_are_asked() {
    let mut discovery = new_loop(dns_settings(2), NodePreference::Leader, false);
    assert_eq!(discovery.step(Event::Request(None)), Action::Resolve);
    assert_eq!(discovery.pending_action(), Action::Resolve);
    let found = Some(vec![IpAddress::V4(u32::from_be_bytes([10, 0, 0, 8]))]);
    assert_eq!(
        discovery.step(Event::Resolved(found)),
        Action::Query(GossipSeed::from_socket_addr(v4(10, 0, 0, 8, 2114)))
    );
}

#[test]
fn a_failed_lookup_counts_as_an_attempt_without_candidates() {
    let mut discovery = new_loop(dns_settings(2), NodePreference::Leader, false);
    assert_eq!(discovery.step(Event::Request(None)), Action::Resolve);
    assert_eq!(discovery.step(Event::Resolved(None)), Action::Sleep(500));
    assert_eq!(discovery.step(Event::Woke), Action::Resolve);
    assert_eq!(discovery.step(Event::Resolved(Some(vec![]))), Action::Sleep(500));
    assert_eq!(
        discovery.step(Event::Woke),
        Action::Publish(Msg::Failed(0, DiscoveryFailed { attempts: 2 }))
    );
}

#[test]
fn the_members_of_the_last_good_answer_are_asked_next_time() {
    let mut discovery =
        new_loop(static_settings(vec![seed(1)], 2), NodePreference::Leader, false);
    assert_eq!(discovery.step(Event::Request(None)), Action::Query(seed(1)));
    let reply = Ok(vec![
        info(5, VNodeState::Manager, true),
        info(6, VNodeState::Master, true),
        info(7, VNodeState::Slave, true),
    ]);
    assert_eq!(
        discovery.step(Event::Gossip(reply)),
        Action::Publish(Msg::Establish(Endpoint { addr: v4(10, 0, 0, 6, 1113) }))
    );
    let failed = Endpoint { addr: v4(10, 0, 0, 6, 1113) };
    assert_eq!(discovery.step(Event::Request(Some(failed))), Action::Query(seed(7)));
    assert_eq!(
        discovery.step(Event::Gossip(Err(QueryError::Unreachable))),
        Action::Query(seed(5))
    );
    assert_eq!(
        discovery.step(Event::Gossip(Err(QueryError::UnexpectedShape))),
        Action::Sleep(500)
    );
    // The members kept are not dropped by a failure: they are asked again.
    assert_eq!(discovery.step(Event::Woke), Action::Query(seed(7)));
}

#[test]
fn the_members_kept_change_on_success_only() {
    let mut discovery =
        new_loop(static_settings(vec![seed(1)], 5), NodePreference::Leader, false);
    assert_eq!(discovery.previous_candidates(), None);
    discovery.step(Event::Request(None));
    discovery.step(Event::Gossip(Ok(vec![info(5, VNodeState::Manager, true)])));
    assert_eq!(discovery.previous_candidates(), None);
    discovery.step(Event::Woke);
    discovery.step(Event::Gossip(Ok(vec![
        info(5, VNodeState::Manager, true),
        info(6, VNodeState::Slave, true),
    ])));
    let kept = vec![member(5, VNodeState::Manager, true), member(6, VNodeState::Slave, true)];
    assert_eq!(discovery.previous_candidates(), Some(&kept));
    // A request that finds nothing leaves them as they are.
    let mut action = discovery.step(Event::Request(None));
    for _ in 0..100 {
        let event = match action {
            Action::Query(_) => Event::Gossip(Ok(vec![info(7, VNodeState::Master, false)])),
            Action::Sleep(_) => Event::Woke,
            _ => break,
        };
        action = discovery.step(event);
    }
    assert_eq!(action, Action::Publish(Msg::Failed(0, DiscoveryFailed { attempts: 5 })));
    assert_eq!(discovery.previous_candidates(), Some(&kept));
    // Another answer that leads to a node replaces them.
    discovery.step(Event::Request(None));
    discovery.step(Event::Gossip(Ok(vec![info(8, VNodeState::Master, true)])));
    assert_eq!(
        discovery.previous_candidates(),
        Some(&vec![member(8, VNodeState::Master, true)])
    );
}

#[test]
fn an_event_that_was_not_waited_for_changes_nothing() {
    let mut discovery =
        new_loop(static_settings(vec![seed(1)], 2), NodePreference::Leader, false);
    assert_eq!(discovery.step(Event::Woke), Action::AwaitRequest);
    assert_eq!(discovery.step(Event::Resolved(None)), Action::AwaitRequest);
    assert_eq!(discovery.step(Event::Request(None)), Action::Query(seed(1)));
    assert_eq!(discovery.step(Event::Woke), Action::Query(seed(1)));
    assert_eq!(discovery.step(Event::Request(None)), Action::Query(seed(1)));
    assert_eq!(discovery.step(Event::Gossip(Ok(vec![]))), Action::Sleep(500));
    assert_eq!(discovery.step(Event::Gossip(Ok(vec![]))), Action::Sleep(500));
    assert_eq!(discovery.step(Event::Woke), Action::Query(seed(1)));
}

#[test]
fn secure_mode_announces_the_secure_endpoint() {
    let mut discovery = new_loop(static_settings(vec![seed(1)], 2), NodePreference::Leader, true);
    discovery.step(Event::Request(None));
    let mut record = info(9, VNodeState::Master, true);
    record.external_secure_tcp_port = 1115;
    assert_eq!(
        discovery.step(Event::Gossip(Ok(vec![record]))),
        Action::Publish(Msg::Establish(Endpoint { addr: v4(10, 0, 0, 9, 1115) }))
    );
}

#[test]
fn secure_mode_without_a_secure_endpoint_is_a_misconfiguration() {
    let mut discovery = new_loop(static_settings(vec![seed(1)], 2), NodePreference::Leader, true);
    discovery.step(Event::Request(None));
    assert_eq!(
        discovery.step(Event::Gossip(Ok(vec![info(9, VNodeState::Master, true)]))),
        Action::Misconfigured
    );
    assert_eq!(discovery.pending_action(), Action::AwaitRequest);
    let node = NodeEndpoints {
        tcp_endpoint: Endpoint { addr: v4(1, 1, 1, 1, 1) },
        secure_tcp_endpoint: None,
    };
    assert_eq!(announce(true, node), Action::Misconfigured);
    assert_eq!(announce(false, node), Action::Publish(Msg::Establish(node.tcp_endpoint)));
}

#[test]
fn members_from_reply_reads_the_addresses_or_gives_nothing() {
    assert_eq!(members_from_reply(&Err(QueryError::Unreachable)), None);
    let mut bad = info(3, VNodeState::Master, true);
    bad.internal_http_ip = "x".to_string();
    assert_eq!(members_from_reply(&Ok(vec![bad])), None);
    assert_eq!(
        members_from_reply(&Ok(vec![info(3, VNodeState::Master, true)])),
        Some(vec![member(3, VNodeState::Master, true)])
    );
}

#[test]
fn choose_node_hands_back_the_members_with_the_node() {
    let reply = Ok(vec![info(3, VNodeState::Slave, true), info(4, VNodeState::Master, true)]);
    let (members, node) = choose_node(&mut rng(1), NodePreference::Leader, &reply).unwrap();
    assert_eq!(members.len(), 2);
    assert_eq!(node.tcp_endpoint.addr, v4(10, 0, 0, 4, 1113));
    let reply = Ok(vec![info(3, VNodeState::Manager, true)]);
    assert!(choose_node(&mut rng(1), NodePreference::Leader, &reply).is_none());
}

// --- texts ------------------------------------------------------------------

#[test]
fn a_failure_says_how_many_attempts_were_allowed() {
    assert_eq!(
        DiscoveryFailed { attempts: 3 }.to_string(),
        "Failed to discover candidate in 3 attempts"
    );
    assert_eq!(
        DiscoveryFailed { attempts: 0 }.to_string(),
        "Failed to discover candidate in 0 attempts"
    );
    assert_eq!(
        DiscoveryFailed { attempts: 1234567890 }.to_string(),
        "Failed to discover candidate in 1234567890 attempts"
    );
}

#[test]
fn a_seed_is_asked_at_its_gossip_url() {
    assert_eq!(seed(7).url(), "http://10.0.0.7:2113/gossip?format=json");
    let secure = GossipSeed {
        endpoint: Endpoint { addr: v4(192, 168, 100, 255, 443) },
        scheme: Scheme::Https,
    };
    assert_eq!(secure.url(), "https://192.168.100.255:443/gossip?format=json");
    let six = GossipSeed::from_socket_addr(SocketAddress::V6 {
        ip: 0x2001_0db8_0000_0000_0000_0000_0abc_0001,
        port: 2113,
        flowinfo: 0,
        scope_id: 0,
    });
    assert_eq!(six.url(), "http://[2001:db8:0:0:0:0:abc:1]:2113/gossip?format=json");
}

#[test]
fn an_address_is_written_as_it_is_read() {
    let addrs = [
        v4(0, 0, 0, 0, 0),
        v4(255, 255, 255, 255, 65535),
        v4(10, 20, 30, 40, 50),
        SocketAddress::V6 { ip: 0, port: 0, flowinfo: 0, scope_id: 0 },
        SocketAddress::V6 { ip: u128::MAX, port: 65535, flowinfo: 0, scope_id: u32::MAX },
        SocketAddress::V6 { ip: 0xfe80 << 112 | 0x1, port: 8080, flowinfo: 0, scope_id: 3 },
    ];
    let texts = [
        "0.0.0.0:0",
        "255.255.255.255:65535",
        "10.20.30.40:50",
        "[0:0:0:0:0:0:0:0]:0",
        "[ffff:ffff:ffff:ffff:ffff:ffff:ffff:ffff%4294967295]:65535",
        "[fe80:0:0:0:0:0:0:1%3]:8080",
    ];
    for (addr, text) in addrs.iter().zip(texts) {
        assert_eq!(addr.to_string(), text);
        assert_eq!(eventstore::address::parse_socket_addr(text.to_string()), Ok(*addr));
    }
}

#[test]
fn each_state_has_its_name() {
    let names = [
        (VNodeState::Initializing, "Initializing"),
        (VNodeState::Unknown, "Unknown"),
        (VNodeState::PreReplica, "PreReplica"),
        (VNodeState::CatchingUp, "CatchingUp"),
        (VNodeState::Clone, "Clone"),
        (VNodeState::Slave, "Slave"),
        (VNodeState::PreMaster, "PreMaster"),
        (VNodeState::Master, "Master"),
        (VNodeState::Manager, "Manager"),
        (VNodeState::ShuttingDown, "ShuttingDown"),
        (VNodeState::Shutdown, "Shutdown"),
    ];
    for (state, name) in names {
        assert_eq!(state.to_string(), name);
        assert_eq!(state.name(), name);
        assert_eq!(eventstore::discovery::gossip::parse_state(name), Some(state));
    }
}
