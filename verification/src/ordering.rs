//! The order of the connection list: by local port, largest first, records
//! with the same port in the order in which the snapshot gave them.

use crate::connection::{models, ConnectionModel, SocketInfoWithProcName};
use vstd::prelude::*;
use vstd::seq_lib::*;

verus! {

/// The test for a record's local port being `port`.
pub open spec fn port_is(port: int) -> spec_fn(ConnectionModel) -> bool {
    |record: ConnectionModel| record.local_port() == port
}

/// The test for a record's local port being at most `top`.
pub open spec fn port_at_most(top: int) -> spec_fn(ConnectionModel) -> bool {
    |record: ConnectionModel| record.local_port() <= top
}

/// The records whose local port is `port`, in the order of `records`.
pub open spec fn with_port(records: Seq<ConnectionModel>, port: int) -> Seq<ConnectionModel> {
    records.filter(port_is(port))
}

/// The records whose local port is at most `top`: first those with port
/// `top`, then those with port `top - 1`, and so on down to port 0.
pub open spec fn from_port_down(records: Seq<ConnectionModel>, top: int) -> Seq<ConnectionModel>
    decreases top + 1,
{
    if top < 0 {
        Seq::empty()
    } else {
        with_port(records, top) + from_port_down(records, top - 1)
    }
}

/// The records sorted by local port, largest first. Records with the same
/// port stay in the order that they have in `records`.
pub open spec fn sorted_by_port(records: Seq<ConnectionModel>) -> Seq<ConnectionModel> {
    from_port_down(records, u16::MAX as int)
}

/// Whether no record stands before one with a larger local port.
pub open spec fn is_descending(records: Seq<ConnectionModel>) -> bool {
    forall|i: int, j: int|
        0 <= i <= j < records.len() ==> (#[trigger] records[i]).local_port()
            >= (#[trigger] records[j]).local_port()
}

/// A list in which every element meets a test is left as it is by filtering.
proof fn lemma_filter_keeps_all(records: Seq<ConnectionModel>, test: spec_fn(ConnectionModel) -> bool)
    requires
        forall|i: int| 0 <= i < records.len() ==> test(#[trigger] records[i]),
    ensures
        records.filter(test) == records,
    decreases records.len(),
{
    reveal(Seq::filter);
    if records.len() > 0 {
        lemma_filter_keeps_all(records.drop_last(), test);
        assert(records.drop_last().push(records.last()) =~= records);
    }
}

/// A list in which no element meets a test is emptied by filtering.
proof fn lemma_filter_drops_all(records: Seq<ConnectionModel>, test: spec_fn(ConnectionModel) -> bool)
    requires
        forall|i: int| 0 <= i < records.len() ==> !test(#[trigger] records[i]),
    ensures
        records.filter(test) == Seq::<ConnectionModel>::empty(),
    decreases records.len(),
{
    reveal(Seq::filter);
    if records.len() > 0 {
        lemma_filter_drops_all(records.drop_last(), test);
    }
}

/// Every record of `from_port_down(records, top)` has a port of at most
/// `top`, and the list is in descending order.
proof fn lemma_from_port_down_descending(records: Seq<ConnectionModel>, top: int)
    ensures
        forall|i: int|
            0 <= i < from_port_down(records, top).len() ==> (#[trigger] from_port_down(
                records,
                top,
            )[i]).local_port() <= top,
        is_descending(from_port_down(records, top)),
    decreases top + 1,
{
    broadcast use group_filter_ensures;

    if top >= 0 {
        lemma_from_port_down_descending(records, top - 1);
        let head = with_port(records, top);
        let tail = from_port_down(records, top - 1);
        let all = from_port_down(records, top);
        assert(all == head + tail);
        assert forall|i: int| 0 <= i < head.len() implies (#[trigger] head[i]).local_port()
            == top by {
            assert(port_is(top)(head[i]));
        }
        assert forall|i: int| 0 <= i < all.len() implies (#[trigger] all[i]).local_port()
            <= top by {
            if i < head.len() {
                assert(all[i] == head[i]);
            } else {
                assert(all[i] == tail[i - head.len()]);
            }
        }
        assert forall|i: int, j: int| 0 <= i <= j < all.len() implies (#[trigger] all[i]).local_port()
            >= (#[trigger] all[j]).local_port() by {
            if j < head.len() {
                assert(all[i] == head[i]);
                assert(all[j] == head[j]);
            } else if i < head.len() {
                assert(all[i] == head[i]);
                assert(all[j] == tail[j - head.len()]);
            } else {
                assert(all[i] == tail[i - head.len()]);
                assert(all[j] == tail[j - head.len()]);
            }
        }
    }
}

/// Among the records of `from_port_down(records, top)`, those with a given
/// port are those of `records`, in the same order.
proof fn lemma_from_port_down_stable(records: Seq<ConnectionModel>, top: int, port: int)
    ensures
        with_port(from_port_down(records, top), port) == if 0 <= port <= top {
            with_port(records, port)
        } else {
            Seq::empty()
        },
    decreases top + 1,
{
    broadcast use group_filter_ensures;

    if top < 0 {
        lemma_filter_drops_all(Seq::empty(), port_is(port));
    } else {
        lemma_from_port_down_stable(records, top - 1, port);
        let head = with_port(records, top);
        let tail = from_port_down(records, top - 1);
        Seq::filter_distributes_over_add(head, tail, port_is(port));
        assert forall|i: int| 0 <= i < head.len() implies (#[trigger] head[i]).local_port()
            == top by {
            assert(port_is(top)(head[i]));
        }
        if port == top {
            lemma_filter_keeps_all(head, port_is(port));
            assert(head + Seq::<ConnectionModel>::empty() =~= head);
        } else {
            lemma_filter_drops_all(head, port_is(port));
            assert(Seq::<ConnectionModel>::empty() + with_port(tail, port) =~= with_port(
                tail,
                port,
            ));
        }
    }
}

/// The records with a port of at most `top` are those with port `top`
/// together with those with a port of at most `top - 1`.
proof fn lemma_split_by_port(records: Seq<ConnectionModel>, top: int)
    ensures
        records.filter(port_at_most(top)).to_multiset() == with_port(records, top).to_multiset().add(
            records.filter(port_at_most(top - 1)).to_multiset(),
        ),
    decreases records.len(),
{
    broadcast use {group_to_multiset_ensures, vstd::multiset::group_multiset_axioms};

    reveal(Seq::filter);
    if records.len() == 0 {
        assert(records.filter(port_at_most(top)).to_multiset() =~= with_port(
            records,
            top,
        ).to_multiset().add(records.filter(port_at_most(top - 1)).to_multiset()));
    } else {
        let init = records.drop_last();
        let last = records.last();
        lemma_split_by_port(init, top);
        assert(init.push(last) =~= records);
        init.lemma_filter_push(last, port_at_most(top));
        init.lemma_filter_push(last, port_at_most(top - 1));
        init.lemma_filter_push(last, port_is(top));
        assert(records.filter(port_at_most(top)).to_multiset() =~= with_port(
            records,
            top,
        ).to_multiset().add(records.filter(port_at_most(top - 1)).to_multiset()));
    }
}

/// `from_port_down(records, top)` holds the records with a port of at most
/// `top`, each as often as `records` does.
proof fn lemma_from_port_down_permutes(records: Seq<ConnectionModel>, top: int)
    ensures
        from_port_down(records, top).to_multiset() == records.filter(
            port_at_most(top),
        ).to_multiset(),
    decreases top + 1,
{
    broadcast use {group_to_multiset_ensures, vstd::multiset::group_multiset_axioms};

    if top < 0 {
        assert forall|i: int| 0 <= i < records.len() implies !port_at_most(top)(
            #[trigger] records[i],
        ) by {}
        lemma_filter_drops_all(records, port_at_most(top));
    } else {
        lemma_from_port_down_permutes(records, top - 1);
        lemma_split_by_port(records, top);
        lemma_multiset_commutative(with_port(records, top), from_port_down(records, top - 1));
    }
}

/// Sorting by port puts the records in descending order of their local ports.
pub proof fn lemma_sorted_is_descending(records: Seq<ConnectionModel>)
    ensures
        is_descending(sorted_by_port(records)),
{
    lemma_from_port_down_descending(records, u16::MAX as int);
}

/// Sorting by port is stable: the records with any one port come out in the
/// order in which they went in.
pub proof fn lemma_sorted_is_stable(records: Seq<ConnectionModel>, port: int)
    ensures
        with_port(sorted_by_port(records), port) == with_port(records, port),
{
    lemma_from_port_down_stable(records, u16::MAX as int, port);
    if !(0 <= port <= u16::MAX) {
        assert forall|i: int| 0 <= i < records.len() implies !port_is(port)(
            #[trigger] records[i],
        ) by {}
        lemma_filter_drops_all(records, port_is(port));
    }
}

/// Sorting by port rearranges the records: none is lost, added or repeated.
pub proof fn lemma_sorted_is_permutation(records: Seq<ConnectionModel>)
    ensures
        sorted_by_port(records).to_multiset() == records.to_multiset(),
        sorted_by_port(records).len() == records.len(),
{
    broadcast use group_to_multiset_ensures;

    lemma_from_port_down_permutes(records, u16::MAX as int);
    assert forall|i: int| 0 <= i < records.len() implies port_at_most(u16::MAX as int)(
        #[trigger] records[i],
    ) by {}
    lemma_filter_keeps_all(records, port_at_most(u16::MAX as int));
    sorted_by_port(records).to_multiset_ensures();
    records.to_multiset_ensures();
}

/// In a list in descending order, the records with a port of at most `top`
/// are those with port `top` followed by those with a smaller port.
proof fn lemma_descending_splits_by_port(records: Seq<ConnectionModel>, top: int)
    requires
        is_descending(records),
    ensures
        records.filter(port_at_most(top)) == with_port(records, top) + records.filter(
            port_at_most(top - 1),
        ),
    decreases records.len(),
{
    reveal(Seq::filter);
    if records.len() == 0 {
        assert(records.filter(port_at_most(top)) =~= with_port(records, top) + records.filter(
            port_at_most(top - 1),
        ));
    } else {
        let init = records.drop_last();
        let last = records.last();
        assert forall|i: int, j: int| 0 <= i <= j < init.len() implies (#[trigger] init[i]).local_port()
            >= (#[trigger] init[j]).local_port() by {
            assert(init[i] == records[i] && init[j] == records[j]);
        }
        lemma_descending_splits_by_port(init, top);
        assert(init.push(last) =~= records);
        init.lemma_filter_push(last, port_at_most(top));
        init.lemma_filter_push(last, port_at_most(top - 1));
        init.lemma_filter_push(last, port_is(top));
        if last.local_port() == top {
            assert forall|i: int| 0 <= i < init.len() implies !port_at_most(top - 1)(
                #[trigger] init[i],
            ) by {
                assert(init[i] == records[i]);
                assert(records[records.len() - 1] == last);
            }
            lemma_filter_drops_all(init, port_at_most(top - 1));
        }
        assert(records.filter(port_at_most(top)) =~= with_port(records, top) + records.filter(
            port_at_most(top - 1),
        ));
    }
}

/// A list in descending order is, up to any port, what sorting makes of it.
proof fn lemma_descending_is_from_port_down(records: Seq<ConnectionModel>, top: int)
    requires
        is_descending(records),
    ensures
        from_port_down(records, top) == records.filter(port_at_most(top)),
    decreases top + 1,
{
    if top < 0 {
        assert forall|i: int| 0 <= i < records.len() implies !port_at_most(top)(
            #[trigger] records[i],
        ) by {}
        lemma_filter_drops_all(records, port_at_most(top));
    } else {
        lemma_descending_is_from_port_down(records, top - 1);
        lemma_descending_splits_by_port(records, top);
    }
}

/// Lists with the same records under every port are sorted to the same list.
proof fn lemma_from_port_down_by_classes(
    records: Seq<ConnectionModel>,
    others: Seq<ConnectionModel>,
    top: int,
)
    requires
        forall|port: int| #[trigger] with_port(others, port) == with_port(records, port),
    ensures
        from_port_down(others, top) == from_port_down(records, top),
    decreases top + 1,
{
    if top >= 0 {
        lemma_from_port_down_by_classes(records, others, top - 1);
        assert(with_port(others, top) == with_port(records, top));
    }
}

/// Sorting leaves a list in descending order as it is.
pub proof fn lemma_descending_is_sorted(records: Seq<ConnectionModel>)
    requires
        is_descending(records),
    ensures
        sorted_by_port(records) == records,
{
    lemma_descending_is_from_port_down(records, u16::MAX as int);
    assert forall|i: int| 0 <= i < records.len() implies port_at_most(u16::MAX as int)(
        #[trigger] records[i],
    ) by {}
    lemma_filter_keeps_all(records, port_at_most(u16::MAX as int));
}

/// There is one way to sort: a list in descending order that holds, under
/// every port, the records of `records` in their order, is `records` sorted.
pub proof fn lemma_sorted_is_unique(records: Seq<ConnectionModel>, sorted: Seq<ConnectionModel>)
    requires
        is_descending(sorted),
        forall|port: int| #[trigger] with_port(sorted, port) == with_port(records, port),
    ensures
        sorted == sorted_by_port(records),
{
    lemma_descending_is_sorted(sorted);
    lemma_from_port_down_by_classes(records, sorted, u16::MAX as int);
}

/// The records under one port in three lists that follow each other.
spec fn with_port_in_three(
    first: Seq<ConnectionModel>,
    second: Seq<ConnectionModel>,
    third: Seq<ConnectionModel>,
    port: int,
) -> Seq<ConnectionModel> {
    with_port(first, port) + with_port(second, port) + with_port(third, port)
}

/// Whether no record of `records` has a smaller port than a record of `later`.
spec fn not_below(records: Seq<ConnectionModel>, later: Seq<ConnectionModel>) -> bool {
    forall|i: int, j: int|
        0 <= i < records.len() && 0 <= j < later.len() ==> (#[trigger] records[i]).local_port()
            >= (#[trigger] later[j]).local_port()
}

/// A list in descending order without its last record is in descending order.
proof fn lemma_drop_last_descending(records: Seq<ConnectionModel>)
    requires
        is_descending(records),
        records.len() > 0,
    ensures
        is_descending(records.drop_last()),
        forall|i: int|
            0 <= i < records.len() ==> (#[trigger] records[i]).local_port()
                >= records.last().local_port(),
{
    let init = records.drop_last();
    assert forall|i: int, j: int| 0 <= i <= j < init.len() implies (#[trigger] init[i]).local_port()
        >= (#[trigger] init[j]).local_port() by {
        assert(init[i] == records[i] && init[j] == records[j]);
    }
    assert forall|i: int| 0 <= i < records.len() implies (#[trigger] records[i]).local_port()
        >= records.last().local_port() by {
        assert(records[records.len() - 1] == records.last());
    }
}

/// What one step of merging keeps true. The record `moved` goes from the end
/// of one of the two lists that are merged to the front of what is merged
/// already: from the second list, or from the first list where the second
/// holds no record with the same port.
proof fn lemma_merge_step(
    first: Seq<ConnectionModel>,
    second: Seq<ConnectionModel>,
    merged: Seq<ConnectionModel>,
    moved: ConnectionModel,
    from_second: bool,
    port: int,
)
    requires
        !from_second ==> forall|i: int|
            0 <= i < second.len() ==> (#[trigger] second[i]).local_port() != moved.local_port(),
    ensures
        from_second ==> with_port_in_three(first, second, seq![moved] + merged, port)
            == with_port_in_three(first, second.push(moved), merged, port),
        !from_second ==> with_port_in_three(first, second, seq![moved] + merged, port)
            == with_port_in_three(first.push(moved), second, merged, port),
{
    let one = seq![moved];
    Seq::filter_distributes_over_add(one, merged, port_is(port));
    assert(Seq::<ConnectionModel>::empty().push(moved) =~= one);
    Seq::<ConnectionModel>::empty().lemma_filter_push(moved, port_is(port));
    lemma_filter_drops_all(Seq::<ConnectionModel>::empty(), port_is(port));
    first.lemma_filter_push(moved, port_is(port));
    second.lemma_filter_push(moved, port_is(port));
    if from_second {
        assert(with_port_in_three(first, second, one + merged, port) =~= with_port_in_three(
            first,
            second.push(moved),
            merged,
            port,
        ));
    } else {
        if moved.local_port() == port {
            assert forall|i: int| 0 <= i < second.len() implies !port_is(port)(
                #[trigger] second[i],
            ) by {}
            lemma_filter_drops_all(second, port_is(port));
        }
        assert(with_port_in_three(first, second, one + merged, port) =~= with_port_in_three(
            first.push(moved),
            second,
            merged,
            port,
        ));
    }
}

/// The records in reverse order.
fn reverse_records(records: Vec<SocketInfoWithProcName>) -> (reversed: Vec<SocketInfoWithProcName>)
    ensures
        models(reversed@) == models(records@).reverse(),
{
    let ghost all = models(records@);
    let mut rest = records;
    let mut reversed: Vec<SocketInfoWithProcName> = Vec::new();
    while rest.len() > 0
        invariant
            rest@.len() <= all.len(),
            models(rest@) == all.take(rest@.len() as int),
            models(reversed@) == all.skip(rest@.len() as int).reverse(),
        decreases rest.len(),
    {
        let ghost before = models(reversed@);
        let ghost n = rest@.len() as int;
        let ghost held = rest@;
        match rest.pop() {
            Some(record) => {
                reversed.push(record);
                proof {
                    assert(models(held)[n - 1] == held[n - 1]@);
                    assert(record@ == all[n - 1]);
                    assert(models(rest@) =~= all.take(n - 1));
                    assert(models(reversed@) =~= before.push(all[n - 1]));
                    assert(before.push(all[n - 1]) =~= all.skip(n - 1).reverse());
                }
            },
            None => {},
        }
    }
    assert(all.skip(0) =~= all);
    reversed
}

/// Merges two lists in descending order into one: under every port the
/// records of `left` in their order, followed by those of `right` in theirs.
fn merge_descending(left: Vec<SocketInfoWithProcName>, right: Vec<SocketInfoWithProcName>) -> (merged:
    Vec<SocketInfoWithProcName>)
    requires
        is_descending(models(left@)),
        is_descending(models(right@)),
    ensures
        is_descending(models(merged@)),
        forall|port: int| #[trigger]
            with_port(models(merged@), port) == with_port(models(left@), port) + with_port(
                models(right@),
                port,
            ),
{
    let ghost all_left = models(left@);
    let ghost all_right = models(right@);
    let mut left = left;
    let mut right = right;
    let mut backwards: Vec<SocketInfoWithProcName> = Vec::new();
    proof {
        assert(models(backwards@).reverse() =~= Seq::<ConnectionModel>::empty());
        assert forall|port: int| #[trigger]
            with_port_in_three(all_left, all_right, Seq::empty(), port) == with_port(all_left, port)
                + with_port(all_right, port) by {
            lemma_filter_drops_all(Seq::empty(), port_is(port));
            assert(with_port_in_three(all_left, all_right, Seq::empty(), port) =~= with_port(
                all_left,
                port,
            ) + with_port(all_right, port));
        }
    }
    while left.len() > 0 || right.len() > 0
        invariant
            is_descending(models(left@)),
            is_descending(models(right@)),
            is_descending(models(backwards@).reverse()),
            not_below(models(left@), models(backwards@).reverse()),
            not_below(models(right@), models(backwards@).reverse()),
            forall|port: int| #[trigger]
                with_port_in_three(
                    models(left@),
                    models(right@),
                    models(backwards@).reverse(),
                    port,
                ) == with_port(all_left, port) + with_port(all_right, port),
        decreases left.len() + right.len(),
    {
        let ghost first = models(left@);
        let ghost second = models(right@);
        let ghost tail = models(backwards@).reverse();
        let from_right = if right.len() == 0 {
            false
        } else if left.len() == 0 {
            true
        } else {
            right[right.len() - 1].info.local_port() <= left[left.len() - 1].info.local_port()
        };
        if from_right {
            match right.pop() {
                Some(record) => {
                    backwards.push(record);
                    proof {
                        let moved = record@;
                        let rest = models(right@);
                        let merged = models(backwards@).reverse();
                        assert(moved == second.last());
                        assert(rest =~= second.drop_last());
                        assert(rest.push(moved) =~= second);
                        assert(merged =~= seq![moved] + tail);
                        lemma_drop_last_descending(second);
                        if first.len() > 0 {
                            lemma_drop_last_descending(first);
                        }
                        assert forall|i: int, j: int|
                            0 <= i <= j < merged.len() implies (#[trigger] merged[i]).local_port()
                                >= (#[trigger] merged[j]).local_port() by {
                            if i == 0 && j > 0 {
                                assert(merged[j] == tail[j - 1]);
                                assert(second[second.len() - 1] == moved);
                            } else if i > 0 {
                                assert(merged[i] == tail[i - 1] && merged[j] == tail[j - 1]);
                            }
                        }
                        assert forall|i: int, j: int|
                            0 <= i < rest.len() && 0 <= j < merged.len() implies (#[trigger] rest[i]).local_port()
                                >= (#[trigger] merged[j]).local_port() by {
                            assert(rest[i] == second[i]);
                            if j > 0 {
                                assert(merged[j] == tail[j - 1]);
                            }
                        }
                        assert forall|i: int, j: int|
                            0 <= i < first.len() && 0 <= j < merged.len() implies (#[trigger] first[i]).local_port()
                                >= (#[trigger] merged[j]).local_port() by {
                            if j > 0 {
                                assert(merged[j] == tail[j - 1]);
                            } else {
                                assert(first[first.len() - 1] == first.last());
                            }
                        }
                        assert forall|port: int| #[trigger]
                            with_port_in_three(first, rest, merged, port) == with_port(
                                all_left,
                                port,
                            ) + with_port(all_right, port) by {
                            lemma_merge_step(first, rest, tail, moved, true, port);
                            assert(with_port_in_three(first, second, tail, port) == with_port(
                                all_left,
                                port,
                            ) + with_port(all_right, port));
                        }
                    }
                },
                None => {},
            }
        } else {
            match left.pop() {
                Some(record) => {
                    backwards.push(record);
                    proof {
                        let moved = record@;
                        let rest = models(left@);
                        let merged = models(backwards@).reverse();
                        assert(moved == first.last());
                        assert(rest =~= first.drop_last());
                        assert(rest.push(moved) =~= first);
                        assert(merged =~= seq![moved] + tail);
                        lemma_drop_last_descending(first);
                        if second.len() > 0 {
                            lemma_drop_last_descending(second);
                        }
                        assert forall|i: int, j: int|
                            0 <= i <= j < merged.len() implies (#[trigger] merged[i]).local_port()
                                >= (#[trigger] merged[j]).local_port() by {
                            if i == 0 && j > 0 {
                                assert(merged[j] == tail[j - 1]);
                                assert(first[first.len() - 1] == moved);
                            } else if i > 0 {
                                assert(merged[i] == tail[i - 1] && merged[j] == tail[j - 1]);
                            }
                        }
                        assert forall|i: int, j: int|
                            0 <= i < rest.len() && 0 <= j < merged.len() implies (#[trigger] rest[i]).local_port()
                                >= (#[trigger] merged[j]).local_port() by {
                            assert(rest[i] == first[i]);
                            if j > 0 {
                                assert(merged[j] == tail[j - 1]);
                            }
                        }
                        assert forall|i: int, j: int|
                            0 <= i < second.len() && 0 <= j < merged.len() implies (#[trigger] second[i]).local_port()
                                >= (#[trigger] merged[j]).local_port() by {
                            if j > 0 {
                                assert(merged[j] == tail[j - 1]);
                            } else {
                                assert(second[second.len() - 1] == second.last());
                            }
                        }
                        assert forall|i: int| 0 <= i < second.len() implies (#[trigger] second[i]).local_port()
                            != moved.local_port() by {
                            assert(second[second.len() - 1] == second.last());
                        }
                        assert forall|port: int| #[trigger]
                            with_port_in_three(rest, second, merged, port) == with_port(
                                all_left,
                                port,
                            ) + with_port(all_right, port) by {
                            lemma_merge_step(rest, second, tail, moved, false, port);
                            assert(with_port_in_three(first, second, tail, port) == with_port(
                                all_left,
                                port,
                            ) + with_port(all_right, port));
                        }
                    }
                },
                None => {},
            }
        }
    }
    let merged = reverse_records(backwards);
    proof {
        let last = models(merged@);
        assert(models(left@) =~= Seq::<ConnectionModel>::empty());
        assert(models(right@) =~= Seq::<ConnectionModel>::empty());
        assert forall|port: int| #[trigger]
            with_port(last, port) == with_port(all_left, port) + with_port(all_right, port) by {
            lemma_filter_drops_all(Seq::empty(), port_is(port));
            assert(with_port_in_three(Seq::empty(), Seq::empty(), last, port) =~= with_port(
                last,
                port,
            ));
            assert(with_port_in_three(models(left@), models(right@), last, port) == with_port(
                all_left,
                port,
            ) + with_port(all_right, port));
        }
    }
    merged
}

/// Sorts the records by local port, largest first. Records with the same port
/// keep their order.
pub fn sort_by_port(records: Vec<SocketInfoWithProcName>) -> (sorted: Vec<SocketInfoWithProcName>)
    ensures
        models(sorted@) == sorted_by_port(models(records@)),
    decreases records@.len(),
{
    let ghost all = models(records@);
    let len: usize = records.len();
    if len <= 1 {
        proof {
            lemma_descending_is_sorted(all);
        }
        return records;
    }
    let mut left = records;
    let right = left.split_off(len / 2);
    let ghost first = models(left@);
    let ghost second = models(right@);
    let left = sort_by_port(left);
    let right = sort_by_port(right);
    proof {
        lemma_sorted_is_descending(first);
        lemma_sorted_is_descending(second);
    }
    let merged = merge_descending(left, right);
    proof {
        assert(first + second =~= all);
        assert forall|port: int| #[trigger]
            with_port(models(merged@), port) == with_port(all, port) by {
            lemma_sorted_is_stable(first, port);
            lemma_sorted_is_stable(second, port);
            Seq::filter_distributes_over_add(first, second, port_is(port));
        }
        lemma_sorted_is_unique(all, models(merged@));
    }
    merged
}

} // verus!
