use eventstore::discovery::gossip::{
    decode_gossip, member_info_from, members_from_document, parse_state, same_text, QueryError,
};
use eventstore::discovery::member::{MemberInfo, VNodeState};

fn record(id: &str, state: &str, last: u8) -> String {
    format!(
        r#"{{
            "instanceId": "{id}",
            "timeStamp": "2020-03-03T10:00:00.000000Z",
            "state": "{state}",
            "isAlive": true,
            "internalTcpIp": "10.0.0.{last}",
            "internalTcpPort": 1112,
            "internalSecureTcpPort": 0,
            "externalTcpIp": "10.0.1.{last}",
            "externalTcpPort": 1113,
            "externalSecureTcpPort": 1115,
            "internalHttpIp": "10.0.2.{last}",
            "internalHttpPort": 2112,
            "externalHttpIp": "10.0.3.{last}",
            "externalHttpPort": 2113,
            "lastCommitPosition": 1234567890123,
            "writerCheckpoint": 9223372036854775807,
            "chaserCheckpoint": -1,
            "epochPosition": 0,
            "epochNumber": 7,
            "epochId": "a1a2a3a4-b1b2-c1c2-d1d2-d3d4d5d6d7d8",
            "nodePriority": -3
        }}"#
    )
}

fn body(records: &[String]) -> Vec<u8> {
    format!(r#"{{ "members": [{}], "serverIp": "10.0.0.1", "serverPort": 2112 }}"#, records.join(","))
        .into_bytes()
}

fn expected(id: u128, state: VNodeState, last: u8) -> MemberInfo {
    MemberInfo {
        instance_id: id,
        state,
        is_alive: true,
        internal_tcp_ip: format!("10.0.0.{last}"),
        internal_tcp_port: 1112,
        internal_secure_tcp_port: 0,
        external_tcp_ip: format!("10.0.1.{last}"),
        external_tcp_port: 1113,
        external_secure_tcp_port: 1115,
        internal_http_ip: format!("10.0.2.{last}"),
        internal_http_port: 2112,
        external_http_ip: format!("10.0.3.{last}"),
        external_http_port: 2113,
        last_commit_position: 1234567890123,
        writer_checkpoint: i64::MAX,
        chaser_checkpoint: -1,
        epoch_position: 0,
        epoch_number: 7,
        epoch_id: 0xa1a2a3a4b1b2c1c2d1d2d3d4d5d6d7d8,
        node_priority: -3,
    }
}

fn same(a: &MemberInfo, b: &MemberInfo) -> bool {
    format!("{:?}", a) == format!("{:?}", b)
}

#[test]
fn a_document_gives_one_record_for_each_member_in_order() {
    let records = vec![
        record("00000000-0000-0000-0000-000000000001", "Master", 1),
        record("00000000-0000-0000-0000-000000000002", "Slave", 2),
        record("00000000000000000000000000000003", "Manager", 3),
    ];
    let infos = decode_gossip(&body(&records)).unwrap();
    assert_eq!(infos.len(), 3);
    assert!(same(&infos[0], &expected(1, VNodeState::Master, 1)));
    assert!(same(&infos[1], &expected(2, VNodeState::Slave, 2)));
    assert!(same(&infos[2], &expected(3, VNodeState::Manager, 3)));
}

#[test]
fn a_document_without_members_gives_no_record() {
    assert_eq!(decode_gossip(br#"{"members": []}"#).unwrap().len(), 0);
}

#[test]
fn what_is_no_json_is_malformed() {
    for text in ["", "{", r#"{"members": [}"#, "members", r#"{"members": []} x"#, "\u{0}"] {
        assert_eq!(decode_gossip(text.as_bytes()).unwrap_err(), QueryError::MalformedJson);
    }
    assert_eq!(decode_gossip(&[0xff, 0xfe]).unwrap_err(), QueryError::MalformedJson);
}

#[test]
fn a_document_of_another_shape_is_refused() {
    for text in [
        "[]",
        "null",
        "3",
        r#""members""#,
        "{}",
        r#"{"Members": []}"#,
        r#"{"members": {}}"#,
        r#"{"members": null}"#,
        r#"{"members": [1]}"#,
        r#"{"members": [{}]}"#,
    ] {
        assert_eq!(decode_gossip(text.as_bytes()).unwrap_err(), QueryError::UnexpectedShape);
    }
}

#[test]
fn one_bad_record_spoils_the_document() {
    let good = record("00000000-0000-0000-0000-000000000001", "Master", 1);
    let spoiled = [
        good.replace(r#""isAlive": true"#, r#""isAlive": "true""#),
        good.replace(r#""isAlive": true,"#, ""),
        good.replace(r#""state": "Master""#, r#""state": "master""#),
        good.replace(r#""state": "Master""#, r#""state": "Leader""#),
        good.replace(r#""state": "Master""#, r#""state": 7"#),
        good.replace("00000000-0000-0000-0000-000000000001", "not-an-identifier"),
        good.replace("a1a2a3a4-b1b2-c1c2-d1d2-d3d4d5d6d7d8", "a1a2a3a4-b1b2-c1c2-d1d2"),
        good.replace(r#""externalTcpPort": 1113"#, r#""externalTcpPort": 65536"#),
        good.replace(r#""externalTcpPort": 1113"#, r#""externalTcpPort": -1"#),
        good.replace(r#""externalTcpPort": 1113"#, r#""externalTcpPort": 1113.0"#),
        good.replace(r#""externalTcpPort": 1113"#, r#""externalTcpPort": "1113""#),
        good.replace(r#""internalSecureTcpPort": 0"#, r#""internalSecureTcpPort": null"#),
        good.replace(r#""externalHttpIp": "10.0.3.1""#, r#""externalHttpIp": 10"#),
        good.replace(r#""epochNumber": 7"#, r#""epochNumber": 9223372036854775808"#),
        good.replace(r#""nodePriority": -3"#, r#""nodePriority": -3.5"#),
        good.replace(r#""chaserCheckpoint": -1"#, r#""chaserCheckpoint": -9223372036854775809"#),
    ];
    for bad in spoiled {
        assert_ne!(bad, good);
        let records = vec![good.clone(), bad, good.clone()];
        assert_eq!(decode_gossip(&body(&records)).unwrap_err(), QueryError::UnexpectedShape);
    }
}

#[test]
fn the_limits_of_the_numbers_are_accepted() {
    let good = record("00000000-0000-0000-0000-000000000001", "Master", 1);
    let edge = good
        .replace(r#""externalTcpPort": 1113"#, r#""externalTcpPort": 65535"#)
        .replace(r#""chaserCheckpoint": -1"#, r#""chaserCheckpoint": -9223372036854775808"#);
    let infos = decode_gossip(&body(&[edge])).unwrap();
    assert_eq!(infos[0].external_tcp_port, 65535);
    assert_eq!(infos[0].chaser_checkpoint, i64::MIN);
    assert_eq!(infos[0].writer_checkpoint, i64::MAX);
}

#[test]
fn an_address_is_not_looked_at_while_the_document_is_read() {
    let good = record("00000000-0000-0000-0000-000000000001", "Master", 1);
    let odd = good.replace("10.0.1.1", "somewhere else");
    let infos = decode_gossip(&body(&[odd])).unwrap();
    assert_eq!(infos[0].external_tcp_ip, "somewhere else");
}

#[test]
fn a_document_is_read_from_a_value() {
    let good = record("00000000-0000-0000-0000-00000000000a", "PreMaster", 4);
    let document: serde_json::Value = serde_json::from_slice(&body(&[good.clone()])).unwrap();
    let infos = members_from_document(&document).unwrap();
    assert!(same(&infos[0], &expected(10, VNodeState::PreMaster, 4)));
    let one: serde_json::Value = serde_json::from_str(&good).unwrap();
    assert!(same(&member_info_from(&one).unwrap(), &expected(10, VNodeState::PreMaster, 4)));
    assert!(member_info_from(&document).is_none());
    assert_eq!(members_from_document(&one).unwrap_err(), QueryError::UnexpectedShape);
}

#[test]
fn each_state_is_read_from_its_name() {
    let names = [
        ("Initializing", VNodeState::Initializing),
        ("Unknown", VNodeState::Unknown),
        ("PreReplica", VNodeState::PreReplica),
        ("CatchingUp", VNodeState::CatchingUp),
        ("Clone", VNodeState::Clone),
        ("Slave", VNodeState::Slave),
        ("PreMaster", VNodeState::PreMaster),
        ("Master", VNodeState::Master),
        ("Manager", VNodeState::Manager),
        ("ShuttingDown", VNodeState::ShuttingDown),
        ("Shutdown", VNodeState::Shutdown),
    ];
    for (name, state) in names {
        assert_eq!(parse_state(name), Some(state));
    }
    for name in ["", "master", "MASTER", "Master ", "Shut", "Leader", "ShutDown"] {
        assert_eq!(parse_state(name), None);
    }
}

#[test]
fn same_text_compares_character_by_character() {
    assert!(same_text("", ""));
    assert!(same_text("Master", "Master"));
    assert!(same_text("é𝄞", "é𝄞"));
    assert!(!same_text("Master", "Mastex"));
    assert!(!same_text("Master", "Maste"));
    assert!(!same_text("", "x"));
}
