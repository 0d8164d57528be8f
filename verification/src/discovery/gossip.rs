//! What a node answers when it is asked for gossip.
//!
//! The answer is a JSON document: an object whose field `members` is an array
//! with one object for each member of the cluster. This module says which
//! documents describe a list of members, and reads the list from them.

use crate::address::chars_of;
use crate::discovery::json::{
    field_of, flag_of, get_field, get_flag, get_i64, get_items, get_text, get_u64, integer_of,
    items_of, json_document, json_of, jsons_of, parse_document, parse_uuid, text_of, uuid_value,
    Json,
};
use crate::discovery::member::{state_name, MemberInfo, MemberInfoView, VNodeState};
use serde_json::Value;
use vstd::prelude::*;

verus! {

/// Why a node gave no list of members.
#[derive(Clone, Copy, Debug, PartialEq, Eq, Structural)]
pub enum QueryError {
    /// The node was not reached, or did not answer the request.
    Unreachable,
    /// The answer is no JSON document.
    MalformedJson,
    /// The answer is a JSON document, but not the description of a list of
    /// members.
    UnexpectedShape,
}

// ---------------------------------------------------------------------------
// Which documents describe what
// ---------------------------------------------------------------------------

/// The state that a name stands for: the names are those of the states.
pub open spec fn state_named(name: Seq<char>) -> Option<VNodeState> {
    if name == "Initializing"@ {
        Some(VNodeState::Initializing)
    } else if name == "Unknown"@ {
        Some(VNodeState::Unknown)
    } else if name == "PreReplica"@ {
        Some(VNodeState::PreReplica)
    } else if name == "CatchingUp"@ {
        Some(VNodeState::CatchingUp)
    } else if name == "Clone"@ {
        Some(VNodeState::Clone)
    } else if name == "Slave"@ {
        Some(VNodeState::Slave)
    } else if name == "PreMaster"@ {
        Some(VNodeState::PreMaster)
    } else if name == "Master"@ {
        Some(VNodeState::Master)
    } else if name == "Manager"@ {
        Some(VNodeState::Manager)
    } else if name == "ShuttingDown"@ {
        Some(VNodeState::ShuttingDown)
    } else if name == "Shutdown"@ {
        Some(VNodeState::Shutdown)
    } else {
        None
    }
}

/// Each state is read back from its name.
pub proof fn lemma_state_is_read_from_its_name(state: VNodeState)
    ensures
        state_named(state_name(state)) == Some(state),
{
    reveal_strlit("Initializing");
    reveal_strlit("Unknown");
    reveal_strlit("PreReplica");
    reveal_strlit("CatchingUp");
    reveal_strlit("Clone");
    reveal_strlit("Slave");
    reveal_strlit("PreMaster");
    reveal_strlit("Master");
    reveal_strlit("Manager");
    reveal_strlit("ShuttingDown");
    reveal_strlit("Shutdown");
    assert("Initializing"@.len() == 12 && "Initializing"@[0] == 'I');
    assert("Unknown"@.len() == 7 && "Unknown"@[0] == 'U');
    assert("PreReplica"@.len() == 10 && "PreReplica"@[0] == 'P');
    assert("CatchingUp"@.len() == 10 && "CatchingUp"@[0] == 'C');
    assert("Clone"@.len() == 5 && "Clone"@[0] == 'C');
    assert("Slave"@.len() == 5 && "Slave"@[0] == 'S');
    assert("PreMaster"@.len() == 9);
    assert("Master"@.len() == 6);
    assert("Manager"@.len() == 7 && "Manager"@[0] == 'M');
    assert("ShuttingDown"@.len() == 12 && "ShuttingDown"@[0] == 'S');
}

/// The text under a key of an object.
pub open spec fn text_field(json: Json, key: Seq<char>) -> Option<Seq<char>> {
    match field_of(json, key) {
        Some(field) => text_of(field),
        None => None,
    }
}

/// The truth value under a key of an object.
pub open spec fn flag_field(json: Json, key: Seq<char>) -> Option<bool> {
    match field_of(json, key) {
        Some(field) => flag_of(field),
        None => None,
    }
}

/// The whole number under a key of an object, where it lies between `low`
/// and `high`.
pub open spec fn integer_field(json: Json, key: Seq<char>, low: int, high: int) -> Option<int> {
    match field_of(json, key) {
        Some(field) => match integer_of(field) {
            Some(value) => if low <= value <= high {
                Some(value)
            } else {
                None
            },
            None => None,
        },
        None => None,
    }
}

/// The port under a key of an object: a whole number from 0 to 65535.
pub open spec fn port_field(json: Json, key: Seq<char>) -> Option<u16> {
    match integer_field(json, key, 0, 0xffff) {
        Some(value) => Some(value as u16),
        None => None,
    }
}

/// The position or count under a key of an object: a whole number that fits
/// in 64 bits with a sign.
pub open spec fn i64_field(json: Json, key: Seq<char>) -> Option<i64> {
    match integer_field(json, key, i64::MIN as int, i64::MAX as int) {
        Some(value) => Some(value as i64),
        None => None,
    }
}

/// The identifier under a key of an object: a text that is read as one.
pub open spec fn uuid_field(json: Json, key: Seq<char>) -> Option<u128> {
    match text_field(json, key) {
        Some(text) => uuid_value(text),
        None => None,
    }
}

/// The state under a key of an object: a text that is the name of one.
pub open spec fn state_field(json: Json, key: Seq<char>) -> Option<VNodeState> {
    match text_field(json, key) {
        Some(text) => state_named(text),
        None => None,
    }
}

/// The member that a JSON value describes: an object that holds every field
/// of a member under its name, each with a value of the field's kind. Fields
/// of other names are passed over.
pub open spec fn member_info_of(json: Json) -> Option<MemberInfoView> {
    if uuid_field(json, "instanceId"@) is Some && state_field(json, "state"@) is Some
        && flag_field(json, "isAlive"@) is Some && text_field(json, "internalTcpIp"@) is Some
        && port_field(json, "internalTcpPort"@) is Some && port_field(
        json,
        "internalSecureTcpPort"@,
    ) is Some && text_field(json, "externalTcpIp"@) is Some && port_field(
        json,
        "externalTcpPort"@,
    ) is Some && port_field(json, "externalSecureTcpPort"@) is Some && text_field(
        json,
        "internalHttpIp"@,
    ) is Some && port_field(json, "internalHttpPort"@) is Some && text_field(
        json,
        "externalHttpIp"@,
    ) is Some && port_field(json, "externalHttpPort"@) is Some && i64_field(
        json,
        "lastCommitPosition"@,
    ) is Some && i64_field(json, "writerCheckpoint"@) is Some && i64_field(
        json,
        "chaserCheckpoint"@,
    ) is Some && i64_field(json, "epochPosition"@) is Some && i64_field(json, "epochNumber"@)
        is Some && uuid_field(json, "epochId"@) is Some && i64_field(json, "nodePriority"@)
        is Some {
        Some(
            MemberInfoView {
                instance_id: uuid_field(json, "instanceId"@)->0,
                state: state_field(json, "state"@)->0,
                is_alive: flag_field(json, "isAlive"@)->0,
                internal_tcp_ip: text_field(json, "internalTcpIp"@)->0,
                internal_tcp_port: port_field(json, "internalTcpPort"@)->0,
                internal_secure_tcp_port: port_field(json, "internalSecureTcpPort"@)->0,
                external_tcp_ip: text_field(json, "externalTcpIp"@)->0,
                external_tcp_port: port_field(json, "externalTcpPort"@)->0,
                external_secure_tcp_port: port_field(json, "externalSecureTcpPort"@)->0,
                internal_http_ip: text_field(json, "internalHttpIp"@)->0,
                internal_http_port: port_field(json, "internalHttpPort"@)->0,
                external_http_ip: text_field(json, "externalHttpIp"@)->0,
                external_http_port: port_field(json, "externalHttpPort"@)->0,
                last_commit_position: i64_field(json, "lastCommitPosition"@)->0,
                writer_checkpoint: i64_field(json, "writerCheckpoint"@)->0,
                chaser_checkpoint: i64_field(json, "chaserCheckpoint"@)->0,
                epoch_position: i64_field(json, "epochPosition"@)->0,
                epoch_number: i64_field(json, "epochNumber"@)->0,
                epoch_id: uuid_field(json, "epochId"@)->0,
                node_priority: i64_field(json, "nodePriority"@)->0,
            },
        )
    } else {
        None
    }
}

/// The members that a list of JSON values describes, in the order of the
/// list; `None` where one of the values describes no member.
pub open spec fn member_infos_of(items: Seq<Json>) -> Option<Seq<MemberInfoView>> {
    if forall|i: int| 0 <= i < items.len() ==> member_info_of(#[trigger] items[i]) is Some {
        Some(Seq::new(items.len(), |i: int| member_info_of(items[i])->0))
    } else {
        None
    }
}

/// The members that a gossip document describes: those of the array under
/// `members`.
pub open spec fn gossip_of(json: Json) -> Option<Seq<MemberInfoView>> {
    match field_of(json, "members"@) {
        Some(field) => match items_of(field) {
            Some(items) => member_infos_of(items),
            None => None,
        },
        None => None,
    }
}

/// What each record of a list holds.
pub open spec fn info_views(infos: Seq<MemberInfo>) -> Seq<MemberInfoView> {
    infos.map_values(|info: MemberInfo| info@)
}

/// A document that describes members describes as many as its array under
/// `members` has elements.
pub proof fn lemma_one_record_for_each_element(json: Json)
    requires
        gossip_of(json) is Some,
    ensures
        field_of(json, "members"@) is Some,
        items_of(field_of(json, "members"@)->0) is Some,
        gossip_of(json)->0.len() == items_of(field_of(json, "members"@)->0)->0.len(),
        forall|i: int|
            0 <= i < gossip_of(json)->0.len() ==> Some(#[trigger] gossip_of(json)->0[i])
                == member_info_of(items_of(field_of(json, "members"@)->0)->0[i]),
{
}

// ---------------------------------------------------------------------------
// Reading
// ---------------------------------------------------------------------------

/// Whether two texts hold the same characters.
pub fn same_text(left: &str, right: &str) -> (same: bool)
    ensures
        same == (left@ == right@),
{
    let a = chars_of(left);
    let b = chars_of(right);
    if a.len() != b.len() {
        return false;
    }
    let mut i: usize = 0;
    while i < a.len()
        invariant
            i <= a.len(),
            a.len() == b.len(),
            a@ == left@,
            b@ == right@,
            forall|j: int| 0 <= j < i ==> a@[j] == b@[j],
        decreases a.len() - i,
    {
        if a[i] != b[i] {
            return false;
        }
        i += 1;
    }
    assert(a@ =~= b@);
    true
}

/// Reads the name of a state.
pub fn parse_state(name: &str) -> (state: Option<VNodeState>)
    ensures
        state == state_named(name@),
{
    if same_text(name, "Initializing") {
        Some(VNodeState::Initializing)
    } else if same_text(name, "Unknown") {
        Some(VNodeState::Unknown)
    } else if same_text(name, "PreReplica") {
        Some(VNodeState::PreReplica)
    } else if same_text(name, "CatchingUp") {
        Some(VNodeState::CatchingUp)
    } else if same_text(name, "Clone") {
        Some(VNodeState::Clone)
    } else if same_text(name, "Slave") {
        Some(VNodeState::Slave)
    } else if same_text(name, "PreMaster") {
        Some(VNodeState::PreMaster)
    } else if same_text(name, "Master") {
        Some(VNodeState::Master)
    } else if same_text(name, "Manager") {
        Some(VNodeState::Manager)
    } else if same_text(name, "ShuttingDown") {
        Some(VNodeState::ShuttingDown)
    } else if same_text(name, "Shutdown") {
        Some(VNodeState::Shutdown)
    } else {
        None
    }
}

fn read_text<'a>(value: &'a Value, key: &str) -> (text: Option<&'a str>)
    ensures
        match text {
            Some(chars) => text_field(json_of(*value), key@) == Some(chars@),
            None => text_field(json_of(*value), key@) is None,
        },
{
    match get_field(value, key) {
        Some(field) => get_text(field),
        None => None,
    }
}

fn read_owned_text(value: &Value, key: &str) -> (text: Option<String>)
    ensures
        match text {
            Some(chars) => text_field(json_of(*value), key@) == Some(chars@),
            None => text_field(json_of(*value), key@) is None,
        },
{
    match read_text(value, key) {
        Some(text) => Some(text.to_owned()),
        None => None,
    }
}

fn read_flag(value: &Value, key: &str) -> (flag: Option<bool>)
    ensures
        flag == flag_field(json_of(*value), key@),
{
    match get_field(value, key) {
        Some(field) => get_flag(field),
        None => None,
    }
}

fn read_port(value: &Value, key: &str) -> (port: Option<u16>)
    ensures
        port == port_field(json_of(*value), key@),
{
    match get_field(value, key) {
        Some(field) => match get_u64(field) {
            Some(number) => if number <= 0xffff {
                Some(number as u16)
            } else {
                None
            },
            None => None,
        },
        None => None,
    }
}

fn read_i64(value: &Value, key: &str) -> (number: Option<i64>)
    ensures
        number == i64_field(json_of(*value), key@),
{
    match get_field(value, key) {
        Some(field) => get_i64(field),
        None => None,
    }
}

fn read_uuid(value: &Value, key: &str) -> (id: Option<u128>)
    ensures
        id == uuid_field(json_of(*value), key@),
{
    match read_text(value, key) {
        Some(text) => parse_uuid(text),
        None => None,
    }
}

fn read_state(value: &Value, key: &str) -> (state: Option<VNodeState>)
    ensures
        state == state_field(json_of(*value), key@),
{
    match read_text(value, key) {
        Some(text) => parse_state(text),
        None => None,
    }
}

/// Reads the description of one member.
pub fn member_info_from(value: &Value) -> (info: Option<MemberInfo>)
    ensures
        match info {
            Some(record) => member_info_of(json_of(*value)) == Some(record@),
            None => member_info_of(json_of(*value)) is None,
        },
{
    let instance_id = match read_uuid(value, "instanceId") {
        Some(v) => v,
        None => {
            return None;
        },
    };
    let state = match read_state(value, "state") {
        Some(v) => v,
        None => {
            return None;
        },
    };
    let is_alive = match read_flag(value, "isAlive") {
        Some(v) => v,
        None => {
            return None;
        },
    };
    let internal_tcp_ip = match read_owned_text(value, "internalTcpIp") {
        Some(v) => v,
        None => {
            return None;
        },
    };
    let internal_tcp_port = match read_port(value, "internalTcpPort") {
        Some(v) => v,
        None => {
            return None;
        },
    };
    let internal_secure_tcp_port = match read_port(value, "internalSecureTcpPort") {
        Some(v) => v,
        None => {
            return None;
        },
    };
    let external_tcp_ip = match read_owned_text(value, "externalTcpIp") {
        Some(v) => v,
        None => {
            return None;
        },
    };
    let external_tcp_port = match read_port(value, "externalTcpPort") {
        Some(v) => v,
        None => {
            return None;
        },
    };
    let external_secure_tcp_port = match read_port(value, "externalSecureTcpPort") {
        Some(v) => v,
        None => {
            return None;
        },
    };
    let internal_http_ip = match read_owned_text(value, "internalHttpIp") {
        Some(v) => v,
        None => {
            return None;
        },
    };
    let internal_http_port = match read_port(value, "internalHttpPort") {
        Some(v) => v,
        None => {
            return None;
        },
    };
    let external_http_ip = match read_owned_text(value, "externalHttpIp") {
        Some(v) => v,
        None => {
            return None;
        },
    };
    let external_http_port = match read_port(value, "externalHttpPort") {
        Some(v) => v,
        None => {
            return None;
        },
    };
    let last_commit_position = match read_i64(value, "lastCommitPosition") {
        Some(v) => v,
        None => {
            return None;
        },
    };
    let writer_checkpoint = match read_i64(value, "writerCheckpoint") {
        Some(v) => v,
        None => {
            return None;
        },
    };
    let chaser_checkpoint = match read_i64(value, "chaserCheckpoint") {
        Some(v) => v,
        None => {
            return None;
        },
    };
    let epoch_position = match read_i64(value, "epochPosition") {
        Some(v) => v,
        None => {
            return None;
        },
    };
    let epoch_number = match read_i64(value, "epochNumber") {
        Some(v) => v,
        None => {
            return None;
        },
    };
    let epoch_id = match read_uuid(value, "epochId") {
        Some(v) => v,
        None => {
            return None;
        },
    };
    let node_priority = match read_i64(value, "nodePriority") {
        Some(v) => v,
        None => {
            return None;
        },
    };
    Some(
        MemberInfo {
            instance_id,
            state,
            is_alive,
            internal_tcp_ip,
            internal_tcp_port,
            internal_secure_tcp_port,
            external_tcp_ip,
            external_tcp_port,
            external_secure_tcp_port,
            internal_http_ip,
            internal_http_port,
            external_http_ip,
            external_http_port,
            last_commit_position,
            writer_checkpoint,
            chaser_checkpoint,
            epoch_position,
            epoch_number,
            epoch_id,
            node_priority,
        },
    )
}

/// Reads the members that a gossip document describes.
///
/// The result holds one record for each element of the array under
/// `members`, in the order of the array. It is `UnexpectedShape` if and only
/// if the document describes no list of members: it is no object, or has no
/// array under `members`, or one of the elements describes no member.
pub fn members_from_document(document: &Value) -> (members: Result<Vec<MemberInfo>, QueryError>)
    ensures
        match members {
            Ok(infos) => gossip_of(json_of(*document)) == Some(info_views(infos@)),
            Err(error) => error is UnexpectedShape && gossip_of(json_of(*document)) is None,
        },
{
    let field = match get_field(document, "members") {
        Some(field) => field,
        None => {
            return Err(QueryError::UnexpectedShape);
        },
    };
    let items = match get_items(field) {
        Some(items) => items,
        None => {
            return Err(QueryError::UnexpectedShape);
        },
    };
    let ghost described = jsons_of(items@);
    let mut infos: Vec<MemberInfo> = Vec::new();
    let mut i: usize = 0;
    while i < items.len()
        invariant
            i <= items.len(),
            described == jsons_of(items@),
            gossip_of(json_of(*document)) == member_infos_of(described),
            infos@.len() == i,
            forall|j: int|
                0 <= j < i ==> member_info_of(#[trigger] described[j]) == Some(infos@[j]@),
        decreases items.len() - i,
    {
        assert(described[i as int] == json_of(items@[i as int]));
        match member_info_from(&items[i]) {
            Some(info) => {
                infos.push(info);
            },
            None => {
                return Err(QueryError::UnexpectedShape);
            },
        }
        i += 1;
    }
    Ok(infos)
}

/// Reads the members that the body of a gossip answer describes.
///
/// * `MalformedJson` if and only if the body is no JSON document.
/// * `UnexpectedShape` if and only if it is one that describes no list of
///   members.
/// * Otherwise the records of the members it describes, in its order.
pub fn decode_gossip(body: &[u8]) -> (members: Result<Vec<MemberInfo>, QueryError>)
    ensures
        match members {
            Ok(infos) => json_document(body@) matches Some(document) && gossip_of(document)
                == Some(info_views(infos@)),
            Err(QueryError::MalformedJson) => json_document(body@) is None,
            Err(QueryError::UnexpectedShape) => json_document(body@) matches Some(document)
                && gossip_of(document) is None,
            Err(QueryError::Unreachable) => false,
        },
{
    match parse_document(body) {
        Ok(document) => members_from_document(&document),
        Err(_) => Err(QueryError::MalformedJson),
    }
}

} // verus!
