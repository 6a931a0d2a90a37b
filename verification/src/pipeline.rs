//! From a snapshot to the list that is shown: the records of the active tab,
//! sorted by local port, of which those that pass the text filter remain.

use crate::connection::{models, passes, ConnectionModel, SocketInfoWithProcName};
use crate::ordering::{is_descending, lemma_sorted_is_descending, lemma_sorted_is_permutation};
use crate::ordering::{lemma_sorted_is_stable, port_is, with_port};
use crate::ordering::{sort_by_port, sorted_by_port};
use crate::protocol::{ProtocolFlags, TCP_BIT, UDP_BIT};
use crate::socket::SocketModel;
use regex::Regex;
use vstd::prelude::*;
use vstd::seq_lib::*;

verus! {

/// The test for a record belonging under a tab with the mask `mask`: the
/// record's protocols and the tab's have one in common.
pub open spec fn shown_under(mask: ProtocolFlags) -> spec_fn(ConnectionModel) -> bool {
    |record: ConnectionModel| record.protocol_flags.spec_intersects(mask)
}

/// The test for a record passing the text filter.
pub open spec fn passing(filter: Option<Regex>) -> spec_fn(ConnectionModel) -> bool {
    |record: ConnectionModel| passes(record.cells, filter)
}

/// The records that belong under a tab with the mask `mask`.
pub open spec fn under_tab(records: Seq<ConnectionModel>, mask: ProtocolFlags) -> Seq<
    ConnectionModel,
> {
    records.filter(shown_under(mask))
}

/// The records that pass the text filter.
pub open spec fn matching(records: Seq<ConnectionModel>, filter: Option<Regex>) -> Seq<
    ConnectionModel,
> {
    records.filter(passing(filter))
}

/// The list that is shown of a snapshot: the records of the tab, sorted by
/// local port with the largest first, of which those that pass the text
/// filter remain.
pub open spec fn visible(
    records: Seq<ConnectionModel>,
    mask: ProtocolFlags,
    filter: Option<Regex>,
) -> Seq<ConnectionModel> {
    matching(sorted_by_port(under_tab(records, mask)), filter)
}

/// Copies the records that belong under a tab with the mask `mask`.
pub fn records_under_tab(records: &Vec<SocketInfoWithProcName>, mask: ProtocolFlags) -> (under:
    Vec<SocketInfoWithProcName>)
    ensures
        models(under@) == under_tab(models(records@), mask),
{
    let mut under: Vec<SocketInfoWithProcName> = Vec::new();
    let mut i: usize = 0;
    proof {
        reveal(Seq::filter);
        assert(models(records@).take(0) =~= Seq::<ConnectionModel>::empty());
        assert(models(under@) =~= Seq::<ConnectionModel>::empty());
    }
    while i < records.len()
        invariant
            i <= records.len(),
            models(under@) == under_tab(models(records@).take(i as int), mask),
        decreases records.len() - i,
    {
        let ghost before = models(under@);
        let ghost seen = models(records@).take(i as int);
        proof {
            assert(models(records@).take(i + 1) =~= seen.push(records@[i as int]@));
            seen.lemma_filter_push(records@[i as int]@, shown_under(mask));
        }
        if records[i].protocol_flags.intersects(mask) {
            under.push(records[i].clone());
            assert(models(under@) =~= before.push(records@[i as int]@));
        }
        i = i + 1;
    }
    assert(models(records@).take(records.len() as int) =~= models(records@));
    under
}

/// Keeps the records that pass the text filter, in their order.
pub fn records_matching(records: Vec<SocketInfoWithProcName>, filter: &Option<Regex>) -> (kept:
    Vec<SocketInfoWithProcName>)
    ensures
        models(kept@) == matching(models(records@), *filter),
{
    let ghost all = records@;
    let mut kept: Vec<SocketInfoWithProcName> = Vec::new();
    proof {
        reveal(Seq::filter);
        assert(models(all).take(0) =~= Seq::<ConnectionModel>::empty());
        assert(models(kept@) =~= Seq::<ConnectionModel>::empty());
    }
    for record in it: records
        invariant
            it.seq() == all,
            models(kept@) == matching(models(all).take(it.index() as int), *filter),
    {
        let ghost before = models(kept@);
        let ghost seen = models(all).take(it.index() as int);
        proof {
            assert(models(all).take(it.index() + 1) =~= seen.push(record@));
            seen.lemma_filter_push(record@, passing(*filter));
        }
        if record.should_print(filter) {
            kept.push(record);
            assert(models(kept@) =~= before.push(record@));
        }
    }
    assert(models(all).take(all.len() as int) =~= models(all));
    kept
}

/// The list that is shown of `records` under a tab with the mask `mask` and
/// the text filter `filter`.
pub fn visible_records(
    records: &Vec<SocketInfoWithProcName>,
    mask: ProtocolFlags,
    filter: &Option<Regex>,
) -> (shown: Vec<SocketInfoWithProcName>)
    ensures
        models(shown@) == visible(models(records@), mask, *filter),
{
    let under = records_under_tab(records, mask);
    let sorted = sort_by_port(under);
    records_matching(sorted, filter)
}

/// A record belongs under a tab if and only if its protocols and the tab's
/// have one in common.
pub proof fn lemma_tab_shows_common_protocols(
    records: Seq<ConnectionModel>,
    mask: ProtocolFlags,
    record: ConnectionModel,
)
    ensures
        under_tab(records, mask).contains(record) <==> records.contains(record)
            && record.protocol_flags.spec_intersects(mask),
{
    broadcast use group_filter_ensures;

    if under_tab(records, mask).contains(record) {
        records.lemma_filter_contains_rev(shown_under(mask), record);
    }
    if records.contains(record) && record.protocol_flags.spec_intersects(mask) {
        let i = choose|i: int| 0 <= i < records.len() && records[i] == record;
        assert(shown_under(mask)(records[i]));
        assert(under_tab(records, mask).contains(records[i]));
    }
}

/// For the record of a socket, to have a protocol in common with a mask is to
/// have its own protocol in the mask. So a UDP socket is shown under a tab of
/// UDP alone and under a tab of both protocols, not under a tab of TCP alone,
/// and a TCP socket the other way round.
pub proof fn lemma_socket_shows_under_its_protocol(record: ConnectionModel, mask: ProtocolFlags)
    requires
        record.wf(),
    ensures
        record.protocol_flags.spec_intersects(mask) <==> record.protocol_flags.spec_within(mask),
        record.info.socket is Tcp ==> (record.protocol_flags.spec_intersects(mask) <==> mask.bits
            & TCP_BIT != 0),
        record.info.socket is Udp ==> (record.protocol_flags.spec_intersects(mask) <==> mask.bits
            & UDP_BIT != 0),
        record.info.socket is Udp ==> !record.protocol_flags.spec_intersects(
            ProtocolFlags { bits: TCP_BIT },
        ) && record.protocol_flags.spec_intersects(ProtocolFlags { bits: UDP_BIT })
            && record.protocol_flags.spec_intersects(ProtocolFlags { bits: TCP_BIT | UDP_BIT }),
        record.info.socket is Tcp ==> record.protocol_flags.spec_intersects(
            ProtocolFlags { bits: TCP_BIT },
        ) && !record.protocol_flags.spec_intersects(ProtocolFlags { bits: UDP_BIT })
            && record.protocol_flags.spec_intersects(ProtocolFlags { bits: TCP_BIT | UDP_BIT }),
{
    let own: u8 = record.protocol_flags.bits;
    let other: u8 = mask.bits;
    assert(own == 1 || own == 2) by {
        match record.info.socket {
            SocketModel::Tcp { .. } => {},
            SocketModel::Udp { .. } => {},
        }
    }
    assert((own == 1 || own == 2) ==> ((own & other != 0) <==> (own | other == other)))
        by (bit_vector);
    assert(own & other == other & own) by (bit_vector);
    assert(1u8 & 1u8 != 0 && 2u8 & 2u8 != 0 && 1u8 & 2u8 == 0 && 2u8 & 1u8 == 0 && 1u8 & (1u8
        | 2u8) != 0 && 2u8 & (1u8 | 2u8) != 0) by (bit_vector);
}

/// Filtering takes records away and moves none: what was in descending order
/// of ports stays so.
proof fn lemma_filter_keeps_descending(
    records: Seq<ConnectionModel>,
    test: spec_fn(ConnectionModel) -> bool,
)
    requires
        is_descending(records),
    ensures
        is_descending(records.filter(test)),
    decreases records.len(),
{
    broadcast use group_filter_ensures;

    reveal(Seq::filter);
    if records.len() > 0 {
        let init = records.drop_last();
        let last = records.last();
        assert forall|i: int, j: int| 0 <= i <= j < init.len() implies (#[trigger] init[i]).local_port()
            >= (#[trigger] init[j]).local_port() by {
            assert(init[i] == records[i] && init[j] == records[j]);
        }
        lemma_filter_keeps_descending(init, test);
        let kept = init.filter(test);
        if test(last) {
            let all = kept.push(last);
            assert forall|i: int, j: int| 0 <= i <= j < all.len() implies (#[trigger] all[i]).local_port()
                >= (#[trigger] all[j]).local_port() by {
                if j < kept.len() {
                    assert(all[i] == kept[i] && all[j] == kept[j]);
                } else if i < kept.len() {
                    assert(all[i] == kept[i]);
                    init.lemma_filter_contains_rev(test, kept[i]);
                    let k = choose|k: int| 0 <= k < init.len() && init[k] == kept[i];
                    assert(records[k] == kept[i]);
                    assert(records[records.len() - 1] == last);
                }
            }
        }
    }
}

/// The list that is shown holds the records of the snapshot that belong under
/// the tab and pass the text filter, and no others.
pub proof fn lemma_visible_members(
    records: Seq<ConnectionModel>,
    mask: ProtocolFlags,
    filter: Option<Regex>,
    record: ConnectionModel,
)
    ensures
        visible(records, mask, filter).contains(record) <==> records.contains(record)
            && record.protocol_flags.spec_intersects(mask) && passes(record.cells, filter),
{
    broadcast use {group_filter_ensures, group_to_multiset_ensures};

    let under = under_tab(records, mask);
    let sorted = sorted_by_port(under);
    lemma_tab_shows_common_protocols(records, mask, record);
    lemma_sorted_is_permutation(under);
    assert(sorted.contains(record) <==> under.contains(record)) by {
        sorted.to_multiset_ensures();
        under.to_multiset_ensures();
        assert(sorted.to_multiset().count(record) == under.to_multiset().count(record));
    }
    if matching(sorted, filter).contains(record) {
        sorted.lemma_filter_contains_rev(passing(filter), record);
    }
    if sorted.contains(record) && passes(record.cells, filter) {
        let i = choose|i: int| 0 <= i < sorted.len() && sorted[i] == record;
        assert(passing(filter)(sorted[i]));
        assert(matching(sorted, filter).contains(sorted[i]));
    }
}

/// The list that is shown is in descending order of local ports.
pub proof fn lemma_visible_is_descending(
    records: Seq<ConnectionModel>,
    mask: ProtocolFlags,
    filter: Option<Regex>,
)
    ensures
        is_descending(visible(records, mask, filter)),
{
    lemma_sorted_is_descending(under_tab(records, mask));
    lemma_filter_keeps_descending(sorted_by_port(under_tab(records, mask)), passing(filter));
}

/// Two filters after each other keep the same records in either order.
proof fn lemma_filters_commute(
    records: Seq<ConnectionModel>,
    first: spec_fn(ConnectionModel) -> bool,
    second: spec_fn(ConnectionModel) -> bool,
)
    ensures
        records.filter(first).filter(second) == records.filter(second).filter(first),
    decreases records.len(),
{
    reveal(Seq::filter);
    if records.len() > 0 {
        let init = records.drop_last();
        let last = records.last();
        lemma_filters_commute(init, first, second);
        assert(init.push(last) =~= records);
        init.lemma_filter_push(last, first);
        init.lemma_filter_push(last, second);
        init.filter(first).lemma_filter_push(last, second);
        init.filter(second).lemma_filter_push(last, first);
    }
}

/// Filtering keeps the order: of two records that meet the test, the one
/// that stood first stands first in what is kept. The result names where
/// the two stand there.
proof fn lemma_filter_keeps_order(
    records: Seq<ConnectionModel>,
    test: spec_fn(ConnectionModel) -> bool,
    i: int,
    j: int,
) -> (kept: (int, int))
    requires
        0 <= i < j < records.len(),
        test(records[i]),
        test(records[j]),
    ensures
        0 <= kept.0 < kept.1 < records.filter(test).len(),
        records.filter(test)[kept.0] == records[i],
        records.filter(test)[kept.1] == records[j],
    decreases records.len(),
{
    reveal(Seq::filter);
    let init = records.drop_last();
    let last = records.last();
    assert(init.push(last) =~= records);
    init.lemma_filter_push(last, test);
    if j == records.len() - 1 {
        let at = lemma_filter_keeps_one(init, test, i);
        (at, init.filter(test).len() as int)
    } else {
        let found = lemma_filter_keeps_order(init, test, i, j);
        found
    }
}

/// Filtering keeps every record that meets the test. The result names where
/// the record stands in what is kept.
proof fn lemma_filter_keeps_one(
    records: Seq<ConnectionModel>,
    test: spec_fn(ConnectionModel) -> bool,
    i: int,
) -> (kept: int)
    requires
        0 <= i < records.len(),
        test(records[i]),
    ensures
        0 <= kept < records.filter(test).len(),
        records.filter(test)[kept] == records[i],
    decreases records.len(),
{
    reveal(Seq::filter);
    let init = records.drop_last();
    let last = records.last();
    assert(init.push(last) =~= records);
    init.lemma_filter_push(last, test);
    if i == records.len() - 1 {
        init.filter(test).len() as int
    } else {
        lemma_filter_keeps_one(init, test, i)
    }
}

/// Filtering moves nothing: two records of what is kept stood in the same
/// order before. The result names where the two stood.
proof fn lemma_filter_came_in_order(
    records: Seq<ConnectionModel>,
    test: spec_fn(ConnectionModel) -> bool,
    a: int,
    b: int,
) -> (came: (int, int))
    requires
        0 <= a < b < records.filter(test).len(),
    ensures
        0 <= came.0 < came.1 < records.len(),
        records[came.0] == records.filter(test)[a],
        records[came.1] == records.filter(test)[b],
    decreases records.len(),
{
    reveal(Seq::filter);
    let init = records.drop_last();
    let last = records.last();
    assert(init.push(last) =~= records);
    init.lemma_filter_push(last, test);
    if test(last) && b == init.filter(test).len() {
        let from = lemma_filter_came_from(init, test, a);
        (from, records.len() - 1)
    } else {
        let found = lemma_filter_came_in_order(init, test, a, b);
        found
    }
}

/// Every record of what a filter keeps stood in the list. The result names
/// where it stood.
proof fn lemma_filter_came_from(
    records: Seq<ConnectionModel>,
    test: spec_fn(ConnectionModel) -> bool,
    a: int,
) -> (came: int)
    requires
        0 <= a < records.filter(test).len(),
    ensures
        0 <= came < records.len(),
        records[came] == records.filter(test)[a],
    decreases records.len(),
{
    reveal(Seq::filter);
    let init = records.drop_last();
    let last = records.last();
    assert(init.push(last) =~= records);
    init.lemma_filter_push(last, test);
    if test(last) && a == init.filter(test).len() {
        records.len() - 1
    } else {
        lemma_filter_came_from(init, test, a)
    }
}

/// The list that is shown is stable: under every port it holds the records
/// of the snapshot with that port that belong under the tab and pass the text
/// filter, in the order of the snapshot.
pub proof fn lemma_visible_is_stable(
    records: Seq<ConnectionModel>,
    mask: ProtocolFlags,
    filter: Option<Regex>,
    port: int,
)
    ensures
        with_port(visible(records, mask, filter), port) == matching(
            under_tab(with_port(records, port), mask),
            filter,
        ),
{
    let under = under_tab(records, mask);
    let sorted = sorted_by_port(under);
    lemma_filters_commute(sorted, passing(filter), port_is(port));
    lemma_sorted_is_stable(under, port);
    lemma_filters_commute(records, shown_under(mask), port_is(port));
}

/// Records of equal port keep their snapshot order in the list that is shown:
/// of two records of the snapshot with the same local port that both belong
/// under the tab and pass the text filter, the one that stands first in the
/// snapshot stands first in the list.
pub proof fn lemma_visible_keeps_snapshot_order(
    records: Seq<ConnectionModel>,
    mask: ProtocolFlags,
    filter: Option<Regex>,
    i: int,
    j: int,
)
    requires
        0 <= i < j < records.len(),
        records[i].local_port() == records[j].local_port(),
        records[i].protocol_flags.spec_intersects(mask),
        records[j].protocol_flags.spec_intersects(mask),
        passes(records[i].cells, filter),
        passes(records[j].cells, filter),
    ensures
        exists|a: int, b: int|
            0 <= a < b < visible(records, mask, filter).len() && #[trigger] visible(
                records,
                mask,
                filter,
            )[a] == records[i] && #[trigger] visible(records, mask, filter)[b] == records[j],
{
    let port = records[i].local_port() as int;
    let under = under_tab(records, mask);
    let sorted = sorted_by_port(under);
    let shown = visible(records, mask, filter);
    let in_tab = lemma_filter_keeps_order(records, shown_under(mask), i, j);
    let in_class = lemma_filter_keeps_order(under, port_is(port), in_tab.0, in_tab.1);
    lemma_sorted_is_stable(under, port);
    let in_sorted = lemma_filter_came_in_order(sorted, port_is(port), in_class.0, in_class.1);
    let in_shown = lemma_filter_keeps_order(sorted, passing(filter), in_sorted.0, in_sorted.1);
    assert(shown[in_shown.0] == records[i] && shown[in_shown.1] == records[j]);
}

/// How often a record occurs in what a filter keeps: as often as in the list
/// if it meets the test, and not at all if it does not.
proof fn lemma_filter_counts(
    records: Seq<ConnectionModel>,
    test: spec_fn(ConnectionModel) -> bool,
    record: ConnectionModel,
)
    ensures
        records.filter(test).to_multiset().count(record) == if test(record) {
            records.to_multiset().count(record)
        } else {
            0
        },
    decreases records.len(),
{
    broadcast use {group_to_multiset_ensures, vstd::multiset::group_multiset_axioms};

    reveal(Seq::filter);
    if records.len() == 0 {
        assert(records.filter(test) =~= records);
        assert(records.to_multiset().count(record) == 0) by {
            records.to_multiset_ensures();
            assert(!records.contains(record));
        }
    } else {
        let init = records.drop_last();
        let last = records.last();
        lemma_filter_counts(init, test, record);
        assert(init.push(last) =~= records);
        init.lemma_filter_push(last, test);
        assert(records.to_multiset() =~= init.to_multiset().insert(last));
        if test(last) {
            assert(records.filter(test).to_multiset() =~= init.filter(test).to_multiset().insert(
                last,
            ));
        }
    }
}

/// The list that is shown is a rearrangement of the records of the snapshot
/// that belong under the tab and pass the text filter: each of them is in
/// the list as often as in the snapshot, and nothing else is.
pub proof fn lemma_visible_is_permutation(
    records: Seq<ConnectionModel>,
    mask: ProtocolFlags,
    filter: Option<Regex>,
)
    ensures
        visible(records, mask, filter).to_multiset() == matching(
            under_tab(records, mask),
            filter,
        ).to_multiset(),
        visible(records, mask, filter).len() == matching(under_tab(records, mask), filter).len(),
        forall|record: ConnectionModel| #[trigger]
            visible(records, mask, filter).to_multiset().count(record) == if shown_under(mask)(
                record,
            ) && passing(filter)(record) {
                records.to_multiset().count(record)
            } else {
                0
            },
{
    let under = under_tab(records, mask);
    let sorted = sorted_by_port(under);
    let shown = visible(records, mask, filter);
    let wanted = matching(under, filter);
    lemma_sorted_is_permutation(under);
    assert forall|record: ConnectionModel|
        shown.to_multiset().count(record) == #[trigger] wanted.to_multiset().count(record) by {
        lemma_filter_counts(sorted, passing(filter), record);
        lemma_filter_counts(under, passing(filter), record);
    }
    assert(shown.to_multiset() =~= wanted.to_multiset());
    shown.to_multiset_ensures();
    wanted.to_multiset_ensures();
    assert forall|record: ConnectionModel| #[trigger]
        shown.to_multiset().count(record) == if record.protocol_flags.spec_intersects(mask)
            && passes(record.cells, filter) {
            records.to_multiset().count(record)
        } else {
            0
        } by {
        lemma_filter_counts(under, passing(filter), record);
        lemma_filter_counts(records, shown_under(mask), record);
    }
}

} // verus!
