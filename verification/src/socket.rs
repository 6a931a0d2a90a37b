//! Raw socket records: what a snapshot of the host's sockets says of one
//! socket, held as plain values.

use crate::protocol::AddressFamily;
use vstd::prelude::*;

verus! {

/// The state of a TCP connection.
#[derive(Clone, Copy, Debug, PartialEq, Eq, Structural)]
pub enum TcpState {
    Closed,
    Listen,
    SynSent,
    SynReceived,
    Established,
    FinWait1,
    FinWait2,
    CloseWait,
    Closing,
    LastAck,
    TimeWait,
    DeleteTcb,
    Unknown,
}

impl TcpState {
    /// The text a state is shown by.
    pub open spec fn label(self) -> Seq<char> {
        match self {
            TcpState::Closed => "CLOSED"@,
            TcpState::Listen => "LISTEN"@,
            TcpState::SynSent => "SYN_SENT"@,
            TcpState::SynReceived => "SYN_RCVD"@,
            TcpState::Established => "ESTABLISHED"@,
            TcpState::FinWait1 => "FIN_WAIT_1"@,
            TcpState::FinWait2 => "FIN_WAIT_2"@,
            TcpState::CloseWait => "CLOSE_WAIT"@,
            TcpState::Closing => "CLOSING"@,
            TcpState::LastAck => "LAST_ACK"@,
            TcpState::TimeWait => "TIME_WAIT"@,
            TcpState::DeleteTcb => "DELETE_TCB"@,
            TcpState::Unknown => "__UNKNOWN"@,
        }
    }
}

/// The text of a TCP state, as `netstat2::TcpState` formats itself with
/// `Display` (reached here through `to_string`): the upper-case name that
/// `label` lists for each state.
#[verifier::external_body]
pub(crate) fn tcp_state_text(state: TcpState) -> (text: String)
    ensures
        text@ == state.label(),
{
    match state {
        TcpState::Closed => netstat2::TcpState::Closed,
        TcpState::Listen => netstat2::TcpState::Listen,
        TcpState::SynSent => netstat2::TcpState::SynSent,
        TcpState::SynReceived => netstat2::TcpState::SynReceived,
        TcpState::Established => netstat2::TcpState::Established,
        TcpState::FinWait1 => netstat2::TcpState::FinWait1,
        TcpState::FinWait2 => netstat2::TcpState::FinWait2,
        TcpState::CloseWait => netstat2::TcpState::CloseWait,
        TcpState::Closing => netstat2::TcpState::Closing,
        TcpState::LastAck => netstat2::TcpState::LastAck,
        TcpState::TimeWait => netstat2::TcpState::TimeWait,
        TcpState::DeleteTcb => netstat2::TcpState::DeleteTcb,
        TcpState::Unknown => netstat2::TcpState::Unknown,
    }.to_string()
}

/// An IP address: its family, and the text it is written as.
pub struct IpAddress {
    pub family: AddressFamily,
    pub text: String,
}

/// What an `IpAddress` stands for.
pub struct AddressModel {
    pub family: AddressFamily,
    pub text: Seq<char>,
}

impl View for IpAddress {
    type V = AddressModel;

    open spec fn view(&self) -> AddressModel {
        AddressModel { family: self.family, text: self.text@ }
    }
}

impl Clone for IpAddress {
    fn clone(&self) -> (copy: Self)
        ensures
            copy@ == self@,
    {
        IpAddress { family: self.family, text: self.text.clone() }
    }
}

impl IpAddress {
    /// Whether this is an IPv4 address.
    pub fn is_ipv4(&self) -> (v4: bool)
        ensures
            v4 == (self.family == AddressFamily::IPv4),
    {
        self.family == AddressFamily::IPv4
    }

    /// Whether this is an IPv6 address.
    pub fn is_ipv6(&self) -> (v6: bool)
        ensures
            v6 == (self.family == AddressFamily::IPv6),
    {
        self.family == AddressFamily::IPv6
    }
}

/// What a snapshot says of a TCP socket.
pub struct TcpSocketInfo {
    pub local_addr: IpAddress,
    pub local_port: u16,
    pub remote_addr: IpAddress,
    pub remote_port: u16,
    pub state: TcpState,
}

/// What a snapshot says of a UDP socket.
pub struct UdpSocketInfo {
    pub local_addr: IpAddress,
    pub local_port: u16,
}

/// What a snapshot says of a socket, by protocol.
pub enum ProtocolSocketInfo {
    Tcp(TcpSocketInfo),
    Udp(UdpSocketInfo),
}

/// What a `ProtocolSocketInfo` stands for.
pub enum SocketModel {
    Tcp {
        local_addr: AddressModel,
        local_port: u16,
        remote_addr: AddressModel,
        remote_port: u16,
        state: TcpState,
    },
    Udp { local_addr: AddressModel, local_port: u16 },
}

impl SocketModel {
    /// The address of the socket's own end.
    pub open spec fn local_addr(self) -> AddressModel {
        match self {
            SocketModel::Tcp { local_addr, .. } => local_addr,
            SocketModel::Udp { local_addr, .. } => local_addr,
        }
    }

    /// The port of the socket's own end.
    pub open spec fn local_port(self) -> u16 {
        match self {
            SocketModel::Tcp { local_port, .. } => local_port,
            SocketModel::Udp { local_port, .. } => local_port,
        }
    }
}

impl View for ProtocolSocketInfo {
    type V = SocketModel;

    open spec fn view(&self) -> SocketModel {
        match self {
            ProtocolSocketInfo::Tcp(tcp) => SocketModel::Tcp {
                local_addr: tcp.local_addr@,
                local_port: tcp.local_port,
                remote_addr: tcp.remote_addr@,
                remote_port: tcp.remote_port,
                state: tcp.state,
            },
            ProtocolSocketInfo::Udp(udp) => SocketModel::Udp {
                local_addr: udp.local_addr@,
                local_port: udp.local_port,
            },
        }
    }
}

impl Clone for ProtocolSocketInfo {
    fn clone(&self) -> (copy: Self)
        ensures
            copy@ == self@,
    {
        match self {
            ProtocolSocketInfo::Tcp(tcp) => ProtocolSocketInfo::Tcp(
                TcpSocketInfo {
                    local_addr: tcp.local_addr.clone(),
                    local_port: tcp.local_port,
                    remote_addr: tcp.remote_addr.clone(),
                    remote_port: tcp.remote_port,
                    state: tcp.state,
                },
            ),
            ProtocolSocketInfo::Udp(udp) => ProtocolSocketInfo::Udp(
                UdpSocketInfo { local_addr: udp.local_addr.clone(), local_port: udp.local_port },
            ),
        }
    }
}

/// One socket of a snapshot.
pub struct SocketInfo {
    /// What is known of the socket by its protocol.
    pub protocol_socket_info: ProtocolSocketInfo,
    /// The ids of the processes that hold the socket.
    pub associated_pids: Vec<u32>,
}

/// What a `SocketInfo` stands for.
pub struct SocketInfoModel {
    pub socket: SocketModel,
    pub pids: Seq<u32>,
}

impl SocketInfoModel {
    /// The process the socket is shown under: the last of those that hold it.
    pub open spec fn owning_pid(self) -> Option<u32> {
        if self.pids.len() == 0 {
            None
        } else {
            Some(self.pids.last())
        }
    }
}

impl View for SocketInfo {
    type V = SocketInfoModel;

    open spec fn view(&self) -> SocketInfoModel {
        SocketInfoModel { socket: self.protocol_socket_info@, pids: self.associated_pids@ }
    }
}

impl Clone for SocketInfo {
    fn clone(&self) -> (copy: Self)
        ensures
            copy@ == self@,
    {
        let pids = self.associated_pids.clone();
        assert(pids@ =~= self.associated_pids@);
        SocketInfo { protocol_socket_info: self.protocol_socket_info.clone(), associated_pids: pids }
    }
}

impl SocketInfo {
    /// The address of the socket's own end.
    pub fn local_addr(&self) -> (addr: &IpAddress)
        ensures
            addr@ == self@.socket.local_addr(),
    {
        match &self.protocol_socket_info {
            ProtocolSocketInfo::Tcp(tcp) => &tcp.local_addr,
            ProtocolSocketInfo::Udp(udp) => &udp.local_addr,
        }
    }

    /// The port of the socket's own end.
    pub fn local_port(&self) -> (port: u16)
        ensures
            port == self@.socket.local_port(),
    {
        match &self.protocol_socket_info {
            ProtocolSocketInfo::Tcp(tcp) => tcp.local_port,
            ProtocolSocketInfo::Udp(udp) => udp.local_port,
        }
    }

    /// The process the socket is shown under: the last of those that hold it,
    /// if any does.
    pub fn owning_pid(&self) -> (pid: Option<u32>)
        ensures
            pid == self@.owning_pid(),
    {
        let n: usize = self.associated_pids.len();
        if n == 0 {
            None
        } else {
            Some(self.associated_pids[n - 1])
        }
    }
}

} // verus!
