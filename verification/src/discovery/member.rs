//! The members of a cluster, as gossip reports them and as the client keeps
//! them once their addresses have been read.

use crate::address::{
    host_port_chars, host_port_text, read_socket_addr, socket_address_of, AddressError,
    SocketAddress,
};
use vstd::prelude::*;
use vstd::string::StringExecFns;

verus! {

/// The lifecycle phase that a node reports about itself.
#[derive(Clone, Copy, Debug, PartialEq, Eq, Structural)]
pub enum VNodeState {
    Initializing,
    Unknown,
    PreReplica,
    CatchingUp,
    Clone,
    Slave,
    PreMaster,
    Master,
    Manager,
    ShuttingDown,
    Shutdown,
}

/// The name of a state, as it is written in gossip and in messages.
pub open spec fn state_name(state: VNodeState) -> Seq<char> {
    match state {
        VNodeState::Initializing => "Initializing"@,
        VNodeState::Unknown => "Unknown"@,
        VNodeState::PreReplica => "PreReplica"@,
        VNodeState::CatchingUp => "CatchingUp"@,
        VNodeState::Clone => "Clone"@,
        VNodeState::Slave => "Slave"@,
        VNodeState::PreMaster => "PreMaster"@,
        VNodeState::Master => "Master"@,
        VNodeState::Manager => "Manager"@,
        VNodeState::ShuttingDown => "ShuttingDown"@,
        VNodeState::Shutdown => "Shutdown"@,
    }
}

impl VNodeState {
    /// The name of the state.
    pub fn name(&self) -> (name: &'static str)
        ensures
            name@ == state_name(*self),
    {
        match self {
            VNodeState::Initializing => "Initializing",
            VNodeState::Unknown => "Unknown",
            VNodeState::PreReplica => "PreReplica",
            VNodeState::CatchingUp => "CatchingUp",
            VNodeState::Clone => "Clone",
            VNodeState::Slave => "Slave",
            VNodeState::PreMaster => "PreMaster",
            VNodeState::Master => "Master",
            VNodeState::Manager => "Manager",
            VNodeState::ShuttingDown => "ShuttingDown",
            VNodeState::Shutdown => "Shutdown",
        }
    }

    /// The name of the state, as a text of its own.
    pub fn to_string(&self) -> (name: String)
        ensures
            name@ == state_name(*self),
    {
        String::from_str(self.name())
    }
}

/// One member of the cluster as a gossip answer describes it.
#[derive(Debug)]
pub struct MemberInfo {
    pub instance_id: u128,
    pub state: VNodeState,
    pub is_alive: bool,
    pub internal_tcp_ip: String,
    pub internal_tcp_port: u16,
    pub internal_secure_tcp_port: u16,
    pub external_tcp_ip: String,
    pub external_tcp_port: u16,
    pub external_secure_tcp_port: u16,
    pub internal_http_ip: String,
    pub internal_http_port: u16,
    pub external_http_ip: String,
    pub external_http_port: u16,
    pub last_commit_position: i64,
    pub writer_checkpoint: i64,
    pub chaser_checkpoint: i64,
    pub epoch_position: i64,
    pub epoch_number: i64,
    pub epoch_id: u128,
    pub node_priority: i64,
}

/// What a `MemberInfo` holds, as mathematical values.
pub ghost struct MemberInfoView {
    pub instance_id: u128,
    pub state: VNodeState,
    pub is_alive: bool,
    pub internal_tcp_ip: Seq<char>,
    pub internal_tcp_port: u16,
    pub internal_secure_tcp_port: u16,
    pub external_tcp_ip: Seq<char>,
    pub external_tcp_port: u16,
    pub external_secure_tcp_port: u16,
    pub internal_http_ip: Seq<char>,
    pub internal_http_port: u16,
    pub external_http_ip: Seq<char>,
    pub external_http_port: u16,
    pub last_commit_position: i64,
    pub writer_checkpoint: i64,
    pub chaser_checkpoint: i64,
    pub epoch_position: i64,
    pub epoch_number: i64,
    pub epoch_id: u128,
    pub node_priority: i64,
}

impl View for MemberInfo {
    type V = MemberInfoView;

    open spec fn view(&self) -> MemberInfoView {
        MemberInfoView {
            instance_id: self.instance_id,
            state: self.state,
            is_alive: self.is_alive,
            internal_tcp_ip: self.internal_tcp_ip@,
            internal_tcp_port: self.internal_tcp_port,
            internal_secure_tcp_port: self.internal_secure_tcp_port,
            external_tcp_ip: self.external_tcp_ip@,
            external_tcp_port: self.external_tcp_port,
            external_secure_tcp_port: self.external_secure_tcp_port,
            internal_http_ip: self.internal_http_ip@,
            internal_http_port: self.internal_http_port,
            external_http_ip: self.external_http_ip@,
            external_http_port: self.external_http_port,
            last_commit_position: self.last_commit_position,
            writer_checkpoint: self.writer_checkpoint,
            chaser_checkpoint: self.chaser_checkpoint,
            epoch_position: self.epoch_position,
            epoch_number: self.epoch_number,
            epoch_id: self.epoch_id,
            node_priority: self.node_priority,
        }
    }
}

/// A member of the cluster whose addresses have all been read.
#[derive(Clone, Copy, Debug, PartialEq, Eq)]
pub struct Member {
    pub external_tcp: SocketAddress,
    pub external_secure_tcp: Option<SocketAddress>,
    pub external_http: SocketAddress,
    pub internal_tcp: SocketAddress,
    pub internal_secure_tcp: Option<SocketAddress>,
    pub internal_http: SocketAddress,
    pub state: VNodeState,
    pub is_alive: bool,
}

/// The address that a host and a port stand for: the one that the text
/// `host:port` denotes.
pub open spec fn address_of(host: Seq<char>, port: u16) -> Option<SocketAddress> {
    socket_address_of(host_port_text(host, port))
}

/// The address of a secure endpoint. A port below 1 says that the node has no
/// such endpoint, which is no error: the outer `Some` then holds `None`. The
/// result is `None` where there is a port and `host:port` denotes no address.
pub open spec fn secure_address_of(host: Seq<char>, port: u16) -> Option<Option<SocketAddress>> {
    if port < 1 {
        Some(None)
    } else {
        match address_of(host, port) {
            Some(addr) => Some(Some(addr)),
            None => None,
        }
    }
}

/// The member that a gossip record describes, or `None` where one of its
/// addresses cannot be read.
pub open spec fn member_of(info: MemberInfoView) -> Option<Member> {
    let external_tcp = address_of(info.external_tcp_ip, info.external_tcp_port);
    let external_secure_tcp = secure_address_of(
        info.external_tcp_ip,
        info.external_secure_tcp_port,
    );
    let external_http = address_of(info.external_http_ip, info.external_http_port);
    let internal_tcp = address_of(info.internal_tcp_ip, info.internal_tcp_port);
    let internal_secure_tcp = secure_address_of(
        info.internal_tcp_ip,
        info.internal_secure_tcp_port,
    );
    let internal_http = address_of(info.internal_http_ip, info.internal_http_port);
    if external_tcp is Some && external_secure_tcp is Some && external_http is Some
        && internal_tcp is Some && internal_secure_tcp is Some && internal_http is Some {
        Some(
            Member {
                external_tcp: external_tcp->0,
                external_secure_tcp: external_secure_tcp->0,
                external_http: external_http->0,
                internal_tcp: internal_tcp->0,
                internal_secure_tcp: internal_secure_tcp->0,
                internal_http: internal_http->0,
                state: info.state,
                is_alive: info.is_alive,
            },
        )
    } else {
        None
    }
}

/// The members that a batch of gossip records describes. One record with an
/// address that cannot be read spoils the whole batch.
pub open spec fn members_of(infos: Seq<MemberInfo>) -> Option<Seq<Member>> {
    if forall|i: int| 0 <= i < infos.len() ==> member_of(#[trigger] infos[i]@) is Some {
        Some(Seq::new(infos.len(), |i: int| member_of(infos[i]@)->0))
    } else {
        None
    }
}

/// A record whose secure port is 0 describes a member without the secure
/// address, if it describes a member at all.
pub proof fn lemma_no_secure_port_no_secure_address(info: MemberInfoView)
    requires
        member_of(info) is Some,
    ensures
        info.external_secure_tcp_port == 0 ==> member_of(info)->0.external_secure_tcp is None,
        info.internal_secure_tcp_port == 0 ==> member_of(info)->0.internal_secure_tcp is None,
        info.external_secure_tcp_port > 0 ==> member_of(info)->0.external_secure_tcp
            == address_of(info.external_tcp_ip, info.external_secure_tcp_port),
        info.internal_secure_tcp_port > 0 ==> member_of(info)->0.internal_secure_tcp
            == address_of(info.internal_tcp_ip, info.internal_secure_tcp_port),
{
}

/// One record with an address that cannot be read spoils the batch, whatever
/// the other records hold; a batch without such a record gives one member
/// for each record, in the order of the records.
pub proof fn lemma_batch_is_all_or_nothing(infos: Seq<MemberInfo>)
    ensures
        members_of(infos) is None <==> exists|i: int|
            0 <= i < infos.len() && member_of(#[trigger] infos[i]@) is None,
        members_of(infos) matches Some(members) ==> members.len() == infos.len() && forall|
            i: int,
        |
            0 <= i < infos.len() ==> Some(#[trigger] members[i]) == member_of(infos[i]@),
{
}

/// Reads the address `host:port`.
pub fn read_address(host: &str, port: u16) -> (addr: Option<SocketAddress>)
    ensures
        addr == address_of(host@, port),
{
    let text = host_port_chars(host, port);
    read_socket_addr(&text)
}

/// Reads the address of a secure endpoint, which a port below 1 declares
/// absent.
pub fn read_secure_address(host: &str, port: u16) -> (addr: Option<Option<SocketAddress>>)
    ensures
        addr == secure_address_of(host@, port),
{
    if port < 1 {
        Some(None)
    } else {
        match read_address(host, port) {
            Some(addr) => Some(Some(addr)),
            None => None,
        }
    }
}

impl Member {
    /// Reads the addresses of a gossip record. It fails if and only if one of
    /// them cannot be read; a secure port below 1 is no failure and leaves
    /// the secure address out.
    pub fn from_member_info(info: MemberInfo) -> (member: Result<Member, AddressError>)
        ensures
            match member {
                Ok(m) => member_of(info@) == Some(m),
                Err(_) => member_of(info@) is None,
            },
    {
        Member::from_record(&info)
    }

    /// As `from_member_info`, for a record that the caller keeps.
    pub fn from_record(info: &MemberInfo) -> (member: Result<Member, AddressError>)
        ensures
            match member {
                Ok(m) => member_of(info@) == Some(m),
                Err(_) => member_of(info@) is None,
            },
    {
        let external_tcp = match read_address(
            info.external_tcp_ip.as_str(),
            info.external_tcp_port,
        ) {
            Some(addr) => addr,
            None => {
                return Err(AddressError {  });
            },
        };
        let external_secure_tcp = match read_secure_address(
            info.external_tcp_ip.as_str(),
            info.external_secure_tcp_port,
        ) {
            Some(addr) => addr,
            None => {
                return Err(AddressError {  });
            },
        };
        let external_http = match read_address(
            info.external_http_ip.as_str(),
            info.external_http_port,
        ) {
            Some(addr) => addr,
            None => {
                return Err(AddressError {  });
            },
        };
        let internal_tcp = match read_address(
            info.internal_tcp_ip.as_str(),
            info.internal_tcp_port,
        ) {
            Some(addr) => addr,
            None => {
                return Err(AddressError {  });
            },
        };
        let internal_secure_tcp = match read_secure_address(
            info.internal_tcp_ip.as_str(),
            info.internal_secure_tcp_port,
        ) {
            Some(addr) => addr,
            None => {
                return Err(AddressError {  });
            },
        };
        let internal_http = match read_address(
            info.internal_http_ip.as_str(),
            info.internal_http_port,
        ) {
            Some(addr) => addr,
            None => {
                return Err(AddressError {  });
            },
        };
        Ok(
            Member {
                external_tcp,
                external_secure_tcp,
                external_http,
                internal_tcp,
                internal_secure_tcp,
                internal_http,
                state: info.state,
                is_alive: info.is_alive,
            },
        )
    }
}

/// Reads the addresses of every record of a batch. The batch is accepted as
/// a whole or not at all: the result is an error if and only if some record
/// has an address that cannot be read, and otherwise holds one member for
/// each record, in the order of the records.
pub fn validate_members(infos: &Vec<MemberInfo>) -> (members: Result<Vec<Member>, AddressError>)
    ensures
        match members {
            Ok(list) => members_of(infos@) == Some(list@),
            Err(_) => members_of(infos@) is None,
        },
{
    let mut list: Vec<Member> = Vec::new();
    let mut i: usize = 0;
    while i < infos.len()
        invariant
            i <= infos.len(),
            list@.len() == i,
            forall|j: int| 0 <= j < i ==> member_of(#[trigger] infos@[j]@) == Some(list@[j]),
        decreases infos.len() - i,
    {
        match Member::from_record(&infos[i]) {
            Ok(member) => {
                list.push(member);
            },
            Err(error) => {
                return Err(error);
            },
        }
        i += 1;
    }
    Ok(list)
}

} // verus!
