//! Connection records: one socket of a snapshot with the name of its process
//! and the cells it is shown by.

use crate::pattern::regex_finds;
use crate::protocol::{AddressFamily, ProtocolFlags, TCP_BIT, UDP_BIT};
use crate::socket::{tcp_state_text, ProtocolSocketInfo, SocketInfo, SocketInfoModel, SocketModel};
use crate::text::{decimal, decimal_text};
use regex::Regex;
use vstd::prelude::*;
use vstd::string::StringExecFns;

verus! {

/// How many cells a record is shown by.
pub const COLUMNS: usize = 8;

/// What is shown where a process id or a process name could not be found.
pub open spec fn placeholder() -> Seq<char> {
    "-"@
}

/// The texts that a row of cells holds.
pub open spec fn texts(cells: Seq<String>) -> Seq<Seq<char>> {
    cells.map_values(|cell: String| cell@)
}

/// The first cell: the protocol, with the version of IP of the local address.
pub open spec fn protocol_cell(socket: SocketModel) -> Seq<char> {
    match socket {
        SocketModel::Tcp { local_addr, .. } => if local_addr.family == AddressFamily::IPv4 {
            "tcp4"@
        } else {
            "tcp6"@
        },
        SocketModel::Udp { local_addr, .. } => if local_addr.family == AddressFamily::IPv4 {
            "udp4"@
        } else {
            "udp6"@
        },
    }
}

/// The cell of the process id: the id in decimal, or the placeholder where the
/// snapshot names no process.
pub open spec fn pid_cell(info: SocketInfoModel) -> Seq<char> {
    match info.owning_pid() {
        Some(pid) => decimal(pid as nat),
        None => placeholder(),
    }
}

/// The cells a socket is shown by, in the order of the columns: protocol,
/// local address, local port, remote address, remote port, state, process id,
/// process name. A UDP socket has no remote end and no state: those three
/// cells are empty.
pub open spec fn display_cells(info: SocketInfoModel, name: Seq<char>) -> Seq<Seq<char>> {
    match info.socket {
        SocketModel::Tcp { local_addr, local_port, remote_addr, remote_port, state } => seq![
            protocol_cell(info.socket),
            local_addr.text,
            decimal(local_port as nat),
            remote_addr.text,
            decimal(remote_port as nat),
            state.label(),
            pid_cell(info),
            name,
        ],
        SocketModel::Udp { local_addr, local_port } => seq![
            protocol_cell(info.socket),
            local_addr.text,
            decimal(local_port as nat),
            Seq::empty(),
            Seq::empty(),
            Seq::empty(),
            pid_cell(info),
            name,
        ],
    }
}

/// The mask of a socket's protocol.
pub open spec fn protocol_of(socket: SocketModel) -> ProtocolFlags {
    match socket {
        SocketModel::Tcp { .. } => ProtocolFlags { bits: TCP_BIT },
        SocketModel::Udp { .. } => ProtocolFlags { bits: UDP_BIT },
    }
}

/// Whether a record with these cells passes the text filter: there is no
/// filter, or the filter finds a match in at least one of the cells.
pub open spec fn passes(cells: Seq<Seq<char>>, filter: Option<Regex>) -> bool {
    filter matches Some(compiled) ==> exists|i: int|
        0 <= i < cells.len() && #[trigger] regex_finds(compiled, cells[i])
}

/// One socket of a snapshot, with the name of the process it belongs to and
/// the cells it is shown by.
pub struct SocketInfoWithProcName {
    pub info: SocketInfo,
    pub process_name: String,
    pub printable_string: Vec<String>,
    pub protocol_flags: ProtocolFlags,
}

/// What a `SocketInfoWithProcName` stands for.
pub struct ConnectionModel {
    pub info: SocketInfoModel,
    pub process_name: Seq<char>,
    pub cells: Seq<Seq<char>>,
    pub protocol_flags: ProtocolFlags,
}

impl ConnectionModel {
    /// The record of a socket and the name of its process.
    pub open spec fn of(info: SocketInfoModel, name: Seq<char>) -> ConnectionModel {
        ConnectionModel {
            info,
            process_name: name,
            cells: display_cells(info, name),
            protocol_flags: protocol_of(info.socket),
        }
    }

    /// Whether the cells and the mask are those of the socket and the name.
    pub open spec fn wf(self) -> bool {
        self == ConnectionModel::of(self.info, self.process_name)
    }

    /// The port that records are ordered by.
    pub open spec fn local_port(self) -> u16 {
        self.info.socket.local_port()
    }
}

impl View for SocketInfoWithProcName {
    type V = ConnectionModel;

    open spec fn view(&self) -> ConnectionModel {
        ConnectionModel {
            info: self.info@,
            process_name: self.process_name@,
            cells: texts(self.printable_string@),
            protocol_flags: self.protocol_flags,
        }
    }
}

/// What a list of records stands for.
pub open spec fn models(records: Seq<SocketInfoWithProcName>) -> Seq<ConnectionModel> {
    records.map_values(|record: SocketInfoWithProcName| record@)
}

impl Clone for SocketInfoWithProcName {
    fn clone(&self) -> (copy: Self)
        ensures
            copy@ == self@,
    {
        let mut cells: Vec<String> = Vec::new();
        let mut i: usize = 0;
        while i < self.printable_string.len()
            invariant
                i <= self.printable_string.len(),
                cells.len() == i,
                forall|j: int| 0 <= j < i ==> cells@[j]@ == self.printable_string@[j]@,
            decreases self.printable_string.len() - i,
        {
            cells.push(self.printable_string[i].clone());
            i = i + 1;
        }
        assert(texts(cells@) =~= texts(self.printable_string@));
        SocketInfoWithProcName {
            info: self.info.clone(),
            process_name: self.process_name.clone(),
            printable_string: cells,
            protocol_flags: self.protocol_flags,
        }
    }
}

impl SocketInfoWithProcName {
    /// Builds the record of a socket: its cells, and the mask of its protocol.
    pub fn new(info: SocketInfo, name: String) -> (record: SocketInfoWithProcName)
        ensures
            record@ == ConnectionModel::of(info@, name@),
            record@.wf(),
            record.printable_string.len() == COLUMNS,
    {
        let pid = match info.owning_pid() {
            Some(pid) => decimal_text(pid),
            None => String::from_str("-"),
        };
        let mut cells: Vec<String> = Vec::new();
        let protocol_flags = match &info.protocol_socket_info {
            ProtocolSocketInfo::Tcp(tcp) => {
                if tcp.local_addr.is_ipv4() {
                    cells.push(String::from_str("tcp4"));
                } else {
                    cells.push(String::from_str("tcp6"));
                }
                cells.push(tcp.local_addr.text.clone());
                cells.push(decimal_text(tcp.local_port as u32));
                cells.push(tcp.remote_addr.text.clone());
                cells.push(decimal_text(tcp.remote_port as u32));
                cells.push(tcp_state_text(tcp.state));
                ProtocolFlags::tcp()
            },
            ProtocolSocketInfo::Udp(udp) => {
                if udp.local_addr.is_ipv4() {
                    cells.push(String::from_str("udp4"));
                } else {
                    cells.push(String::from_str("udp6"));
                }
                cells.push(udp.local_addr.text.clone());
                cells.push(decimal_text(udp.local_port as u32));
                cells.push(String::new());
                cells.push(String::new());
                cells.push(String::new());
                ProtocolFlags::udp()
            },
        };
        cells.push(pid);
        cells.push(name.clone());
        assert(texts(cells@) =~= display_cells(info@, name@));
        SocketInfoWithProcName { info, process_name: name, printable_string: cells, protocol_flags }
    }

    /// Whether the record passes the text filter: there is no filter, or the
    /// filter finds a match in at least one of the record's cells.
    pub fn should_print(&self, regex: &Option<Regex>) -> (shown: bool)
        ensures
            shown == passes(self@.cells, *regex),
    {
        match regex {
            None => true,
            Some(compiled) => {
                let mut i: usize = 0;
                while i < self.printable_string.len()
                    invariant
                        i <= self.printable_string.len(),
                        *regex == Some(*compiled),
                        forall|j: int|
                            0 <= j < i ==> !#[trigger] regex_finds(*compiled, self@.cells[j]),
                    decreases self.printable_string.len() - i,
                {
                    if compiled.is_match(self.printable_string[i].as_str()) {
                        proof {
                            let found = Some(*compiled);
                            assert(found->0 == *compiled);
                            assert(regex_finds(found->0, self@.cells[i as int]));
                        }
                        return true;
                    }
                    i = i + 1;
                }
                false
            },
        }
    }
}

/// The name to show for a process, given how looking it up ended: the name
/// that was found, or the placeholder `-` where the lookup failed.
pub fn get_proc_name(resolved: Result<String, String>) -> (name: String)
    ensures
        resolved matches Ok(found) ==> name@ == found@,
        resolved is Err ==> name@ == placeholder(),
{
    match resolved {
        Ok(found) => found,
        Err(_) => String::from_str("-"),
    }
}

/// The id under which the name of the process `pid` is looked up, if there
/// is one: process ids above `i32::MAX` name no process that can be looked
/// up, and the socket is then shown with the placeholder.
pub fn lookup_id(pid: u32) -> (id: Option<i32>)
    ensures
        id == if pid <= i32::MAX {
            Some(pid as i32)
        } else {
            None
        },
{
    if pid <= 0x7fff_ffff {
        Some(pid as i32)
    } else {
        None
    }
}

/// A socket as a snapshot gave it, with how looking up the name of its
/// process ended. `lookup` is `None` where no name was looked up.
pub struct FetchedSocket {
    pub info: SocketInfo,
    pub lookup: Option<Result<String, String>>,
}

/// The process name that a socket is shown with: the name that was found for
/// its process, or the placeholder `-` where the socket names no process,
/// the name was not looked up, or the lookup failed.
pub open spec fn shown_name(info: SocketInfoModel, lookup: Option<Result<String, String>>) -> Seq<
    char,
> {
    match lookup {
        Some(Ok(name)) => if info.owning_pid() is Some {
            name@
        } else {
            placeholder()
        },
        _ => placeholder(),
    }
}

/// The record of one socket of a snapshot.
pub fn describe_socket(fetched: FetchedSocket) -> (record: SocketInfoWithProcName)
    ensures
        record@ == ConnectionModel::of(fetched.info@, shown_name(fetched.info@, fetched.lookup)),
{
    let FetchedSocket { info, lookup } = fetched;
    let name = match info.owning_pid() {
        Some(_) => match lookup {
            Some(resolved) => get_proc_name(resolved),
            None => String::from_str("-"),
        },
        None => String::from_str("-"),
    };
    SocketInfoWithProcName::new(info, name)
}

/// The records of the sockets of a snapshot, in the order of the snapshot.
pub fn get_all_socket_info(fetched: Vec<FetchedSocket>) -> (records: Vec<SocketInfoWithProcName>)
    ensures
        records@.len() == fetched@.len(),
        forall|i: int|
            0 <= i < fetched@.len() ==> (#[trigger] records@[i])@ == ConnectionModel::of(
                fetched@[i].info@,
                shown_name(fetched@[i].info@, fetched@[i].lookup),
            ),
{
    let ghost all = fetched@;
    let mut records: Vec<SocketInfoWithProcName> = Vec::new();
    for socket in it: fetched
        invariant
            it.seq() == all,
            records@.len() == it.index(),
            forall|i: int|
                0 <= i < it.index() ==> (#[trigger] records@[i])@ == ConnectionModel::of(
                    all[i].info@,
                    shown_name(all[i].info@, all[i].lookup),
                ),
    {
        records.push(describe_socket(socket));
    }
    records
}

/// A socket whose process name was not looked up, or could not be, is shown
/// with the placeholder as its process name, never with an empty name.
pub proof fn lemma_unresolved_name_is_placeholder(info: SocketInfoModel, failure: String)
    ensures
        shown_name(info, None) == placeholder(),
        shown_name(info, Some(Err(failure))) == placeholder(),
        ConnectionModel::of(info, shown_name(info, None)).process_name == placeholder(),
        ConnectionModel::of(info, shown_name(info, None)).cells[7] == placeholder(),
        placeholder().len() == 1,
{
    reveal_strlit("-");
}

} // verus!
