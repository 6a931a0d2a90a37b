//! Counts over the snapshot that is kept: the figures of the dashboard's
//! header.

use crate::app::App;
use crate::connection::{models, ConnectionModel, SocketInfoWithProcName};
use crate::protocol::{AddressFamily, ProtocolFlags};
use crate::socket::{AddressModel, IpAddress, ProtocolSocketInfo, SocketModel, TcpState};
use itertools::Itertools;
use vstd::prelude::*;
use vstd::seq_lib::*;

verus! {

/// The test for a record's protocols all being among those of `flags`.
pub open spec fn of_protocols(flags: ProtocolFlags) -> spec_fn(ConnectionModel) -> bool {
    |record: ConnectionModel| record.protocol_flags.spec_within(flags)
}

/// The test for a record being a TCP connection in the state `state`.
pub open spec fn in_state(state: TcpState) -> spec_fn(ConnectionModel) -> bool {
    |record: ConnectionModel|
        record.info.socket matches SocketModel::Tcp { state: found, .. } && found == state
}

/// The test for a record's local address belonging to `family`.
pub open spec fn of_family(family: AddressFamily) -> spec_fn(ConnectionModel) -> bool {
    |record: ConnectionModel| record.info.socket.local_addr().family == family
}

/// The address that a socket is counted by among the unique ones: the remote
/// address of a TCP socket, the local address of a UDP socket.
pub open spec fn peer_of(socket: SocketModel) -> AddressModel {
    match socket {
        SocketModel::Tcp { remote_addr, .. } => remote_addr,
        SocketModel::Udp { local_addr, .. } => local_addr,
    }
}

/// The addresses that the records are counted by, one for each record.
pub open spec fn peers(records: Seq<ConnectionModel>) -> Seq<AddressModel> {
    records.map_values(|record: ConnectionModel| peer_of(record.info.socket))
}

/// The records without those whose address an earlier record has already:
/// of the records with one address the first stays, and the order is kept.
pub open spec fn first_of_each_peer(records: Seq<ConnectionModel>) -> Seq<ConnectionModel>
    decreases records.len(),
{
    if records.len() == 0 {
        Seq::empty()
    } else if peers(records.drop_last()).contains(peer_of(records.last().info.socket)) {
        first_of_each_peer(records.drop_last())
    } else {
        first_of_each_peer(records.drop_last()).push(records.last())
    }
}

/// What a list of borrowed records stands for.
pub open spec fn borrowed_models(records: Seq<&SocketInfoWithProcName>) -> Seq<ConnectionModel> {
    records.map_values(|record: &SocketInfoWithProcName| record@)
}

/// There are as many first records as there are different addresses.
pub proof fn lemma_one_first_for_each_peer(records: Seq<ConnectionModel>)
    ensures
        first_of_each_peer(records).len() == peers(records).to_set().len(),
    decreases records.len(),
{
    broadcast use {vstd::set::group_set_axioms, seq_to_set_is_finite};

    if records.len() == 0 {
        assert(peers(records).to_set() =~= Set::<AddressModel>::empty());
    } else {
        let init = records.drop_last();
        let last = peer_of(records.last().info.socket);
        lemma_one_first_for_each_peer(init);
        assert(peers(records) =~= peers(init).push(last));
        assert(peers(records).to_set() =~= peers(init).to_set().insert(last)) by {
            assert forall|a: AddressModel|
                peers(records).to_set().contains(a) <==> peers(init).to_set().insert(
                    last,
                ).contains(a) by {
                if peers(init).contains(a) {
                    let j = choose|j: int| 0 <= j < peers(init).len() && peers(init)[j] == a;
                    assert(peers(records)[j] == a);
                }
                if a == last {
                    assert(peers(records)[records.len() - 1] == a);
                }
                if peers(records).contains(a) {
                    let j = choose|j: int| 0 <= j < peers(records).len() && peers(records)[j] == a;
                    if j < init.len() {
                        assert(peers(init)[j] == a);
                    }
                }
            }
        }
    }
}

/// The address that a record is counted by among the unique ones, as a key:
/// whether it is an IPv4 address, and its text.
pub fn peer_key(record: &SocketInfoWithProcName) -> (key: (bool, &str))
    ensures
        key.0 == (peer_of(record@.info.socket).family == AddressFamily::IPv4),
        key.1@ == peer_of(record@.info.socket).text,
{
    match &record.info.protocol_socket_info {
        ProtocolSocketInfo::Tcp(tcp) => (tcp.remote_addr.is_ipv4(), tcp.remote_addr.text.as_str()),
        ProtocolSocketInfo::Udp(udp) => (udp.local_addr.is_ipv4(), udp.local_addr.text.as_str()),
    }
}

/// The records without those whose address an earlier record has already,
/// by `unique_by` of `itertools`, with `peer_key` as the key: that adaptor
/// drops each item whose key an earlier item had, and keeps the others in
/// their order.
#[verifier::external_body]
fn unique_by_peer(records: &Vec<SocketInfoWithProcName>) -> (firsts: Vec<&SocketInfoWithProcName>)
    ensures
        borrowed_models(firsts@) == first_of_each_peer(models(records@)),
{
    records.iter().unique_by(|record| peer_key(*record)).collect()
}

/// How many of the kept records have all their protocols among `flags`.
pub fn get_total_sockets_protocol_count(app: &App, flags: ProtocolFlags) -> (count: usize)
    ensures
        count == app@.connections.filter(of_protocols(flags)).len(),
{
    let records = &app.connections;
    let mut count: usize = 0;
    let mut i: usize = 0;
    proof {
        reveal(Seq::filter);
        assert(models(records@).take(0) =~= Seq::<ConnectionModel>::empty());
    }
    while i < records.len()
        invariant
            i <= records.len(),
            count <= i,
            count == models(records@).take(i as int).filter(of_protocols(flags)).len(),
        decreases records.len() - i,
    {
        proof {
            let seen = models(records@).take(i as int);
            assert(models(records@).take(i + 1) =~= seen.push(records@[i as int]@));
            seen.lemma_filter_push(records@[i as int]@, of_protocols(flags));
        }
        if records[i].protocol_flags.within(flags) {
            count = count + 1;
        }
        i = i + 1;
    }
    assert(models(records@).take(records.len() as int) =~= models(records@));
    count
}

/// How many different addresses the kept records have, each counted by the
/// remote address if it is a TCP socket and by the local address if it is a
/// UDP socket.
pub fn get_total_sockets_unique_count(app: &App) -> (count: usize)
    ensures
        count == peers(app@.connections).to_set().len(),
{
    let firsts = unique_by_peer(&app.connections);
    proof {
        lemma_one_first_for_each_peer(app@.connections);
        assert(borrowed_models(firsts@).len() == firsts@.len());
    }
    firsts.len()
}

/// How many of the kept records are TCP connections in the state `state`.
pub fn get_total_sockets_state_count(app: &App, state: TcpState) -> (count: usize)
    ensures
        count == app@.connections.filter(in_state(state)).len(),
{
    let records = &app.connections;
    let mut count: usize = 0;
    let mut i: usize = 0;
    proof {
        reveal(Seq::filter);
        assert(models(records@).take(0) =~= Seq::<ConnectionModel>::empty());
    }
    while i < records.len()
        invariant
            i <= records.len(),
            count <= i,
            count == models(records@).take(i as int).filter(in_state(state)).len(),
        decreases records.len() - i,
    {
        proof {
            let seen = models(records@).take(i as int);
            assert(models(records@).take(i + 1) =~= seen.push(records@[i as int]@));
            seen.lemma_filter_push(records@[i as int]@, in_state(state));
        }
        let found = match &records[i].info.protocol_socket_info {
            ProtocolSocketInfo::Tcp(tcp) => tcp.state == state,
            ProtocolSocketInfo::Udp(_) => false,
        };
        if found {
            count = count + 1;
        }
        i = i + 1;
    }
    assert(models(records@).take(records.len() as int) =~= models(records@));
    count
}

/// How many of the kept records have a local address of the family `flags`.
pub fn get_total_sockets_ip_count(app: &App, flags: AddressFamily) -> (count: usize)
    ensures
        count == app@.connections.filter(of_family(flags)).len(),
{
    let records = &app.connections;
    let mut count: usize = 0;
    let mut i: usize = 0;
    proof {
        reveal(Seq::filter);
        assert(models(records@).take(0) =~= Seq::<ConnectionModel>::empty());
    }
    while i < records.len()
        invariant
            i <= records.len(),
            count <= i,
            count == models(records@).take(i as int).filter(of_family(flags)).len(),
        decreases records.len() - i,
    {
        proof {
            let seen = models(records@).take(i as int);
            assert(models(records@).take(i + 1) =~= seen.push(records@[i as int]@));
            seen.lemma_filter_push(records@[i as int]@, of_family(flags));
        }
        let addr: &IpAddress = records[i].info.local_addr();
        let found = match flags {
            AddressFamily::IPv4 => addr.is_ipv4(),
            AddressFamily::IPv6 => addr.is_ipv6(),
        };
        if found {
            count = count + 1;
        }
        i = i + 1;
    }
    assert(models(records@).take(records.len() as int) =~= models(records@));
    count
}

} // verus!
