//! The table of connected proxies: lookup by identifier, connection,
//! disconnection, statistics updates, listing by name and traffic totals.

use vstd::prelude::*;
use crate::model::{ProxyId, ProxyInfo, ProxyStats};
use crate::text::{text_le, text_le_exec, lemma_text_le_total, lemma_text_le_transitive};

verus! {

/// Some proxy in the table has identifier `id`.
pub open spec fn holds_id(proxies: Seq<ProxyInfo>, id: Seq<char>) -> bool {
    exists|i: int| 0 <= i < proxies.len() && #[trigger] proxies[i].id@ == id
}

/// `i` is the first position in the table of a proxy with identifier `id`.
pub open spec fn first_with_id_at(proxies: Seq<ProxyInfo>, id: Seq<char>, i: int) -> bool {
    &&& 0 <= i < proxies.len()
    &&& proxies[i].id@ == id
    &&& forall|j: int| 0 <= j < i ==> #[trigger] proxies[j].id@ != id
}

/// The first position in the table of a proxy with identifier `id`.
pub open spec fn first_with_id(proxies: Seq<ProxyInfo>, id: Seq<char>) -> int {
    choose|i: int| first_with_id_at(proxies, id, i)
}

/// No two proxies in the table share an identifier.
pub open spec fn ids_distinct(proxies: Seq<ProxyInfo>) -> bool {
    forall|i: int, j: int|
        0 <= i < proxies.len() && 0 <= j < proxies.len() && i != j ==> proxies[i].id@ != proxies[j].id@
}

/// The table after `info` connects: the entry with its identifier is replaced,
/// or `info` is appended when its identifier is new.
pub open spec fn connected(proxies: Seq<ProxyInfo>, info: ProxyInfo) -> Seq<ProxyInfo> {
    if holds_id(proxies, info.id@) {
        proxies.update(first_with_id(proxies, info.id@), info)
    } else {
        proxies.push(info)
    }
}

/// The table after the proxy with identifier `id` disconnects.
pub open spec fn disconnected(proxies: Seq<ProxyInfo>, id: Seq<char>) -> Seq<ProxyInfo> {
    if holds_id(proxies, id) {
        proxies.remove(first_with_id(proxies, id))
    } else {
        proxies
    }
}

/// The table after `stats` arrives: the proxy it names takes these statistics;
/// statistics of an unknown proxy are ignored.
pub open spec fn stats_updated(proxies: Seq<ProxyInfo>, stats: ProxyStats) -> Seq<ProxyInfo> {
    if holds_id(proxies, stats.proxy_id@) {
        let i = first_with_id(proxies, stats.proxy_id@);
        proxies.update(i, ProxyInfo { stats: stats, ..proxies[i] })
    } else {
        proxies
    }
}

/// The table as a map from identifiers to proxies.
pub open spec fn proxy_table(proxies: Seq<ProxyInfo>) -> Map<Seq<char>, ProxyInfo> {
    Map::new(|id: Seq<char>| holds_id(proxies, id), |id: Seq<char>| proxies[first_with_id(proxies, id)])
}

/// The first position of an identifier is the one `first_with_id` names.
pub proof fn lemma_first_with_id(proxies: Seq<ProxyInfo>, id: Seq<char>, i: int)
    requires
        first_with_id_at(proxies, id, i),
    ensures
        first_with_id(proxies, id) == i,
{
    let k = first_with_id(proxies, id);
    assert(first_with_id_at(proxies, id, k));
    if k < i {
        assert(proxies[k].id@ != id);
    }
    if i < k {
        assert(proxies[i].id@ != id);
    }
}

/// Position of the first proxy with identifier `id`, if any.
pub fn find_proxy(proxies: &Vec<ProxyInfo>, id: &ProxyId) -> (r: Option<usize>)
    ensures
        match r {
            Some(i) => first_with_id_at(proxies@, id@, i as int),
            None => !holds_id(proxies@, id@),
        },
{
    let n = proxies.len();
    for i in 0..n
        invariant
            n == proxies@.len(),
            forall|j: int| 0 <= j < i ==> #[trigger] proxies@[j].id@ != id@,
    {
        if proxies[i].id == *id {
            return Some(i);
        }
    }
    None
}

/// Records that `info` connected.
pub fn connect_proxy(proxies: &mut Vec<ProxyInfo>, info: ProxyInfo)
    ensures
        final(proxies)@ == connected(old(proxies)@, info),
{
    match find_proxy(proxies, &info.id) {
        Some(i) => {
            proof {
                lemma_first_with_id(proxies@, info.id@, i as int);
            }
            proxies.set(i, info);
        },
        None => {
            proxies.push(info);
        },
    }
}

/// Records that the proxy with identifier `id` disconnected.
pub fn disconnect_proxy(proxies: &mut Vec<ProxyInfo>, id: &ProxyId)
    ensures
        final(proxies)@ == disconnected(old(proxies)@, id@),
{
    match find_proxy(proxies, id) {
        Some(i) => {
            proof {
                lemma_first_with_id(proxies@, id@, i as int);
            }
            proxies.remove(i);
        },
        None => {},
    }
}

/// Stores `stats` with the proxy it names, if that proxy is in the table.
pub fn update_proxy_stats(proxies: &mut Vec<ProxyInfo>, stats: ProxyStats)
    ensures
        final(proxies)@ == stats_updated(old(proxies)@, stats),
{
    match find_proxy(proxies, &stats.proxy_id) {
        Some(i) => {
            proof {
                lemma_first_with_id(proxies@, stats.proxy_id@, i as int);
            }
            proxies[i].stats = stats;
        },
        None => {},
    }
}

/// `order` lists every position of the table once, by non-decreasing name.
pub open spec fn is_name_order(proxies: Seq<ProxyInfo>, order: Seq<usize>) -> bool {
    &&& order.len() == proxies.len()
    &&& forall|k: int| 0 <= k < order.len() ==> #[trigger] order[k] < proxies.len()
    &&& forall|k1: int, k2: int|
        0 <= k1 < order.len() && 0 <= k2 < order.len() && k1 != k2 ==> order[k1] != order[k2]
    &&& forall|k1: int, k2: int|
        0 <= k1 < k2 < order.len() ==> text_le(
            proxies[order[k1] as int].name@,
            proxies[order[k2] as int].name@,
        )
}

/// Where a proxy named `name` goes in `order`, searching from position `k`:
/// before the first listed proxy whose name sorts after `name`, else at the end.
pub open spec fn slot_from(proxies: Seq<ProxyInfo>, order: Seq<usize>, name: Seq<char>, k: int) -> int
    decreases order.len() - k,
{
    if k >= order.len() || !text_le(proxies[order[k] as int].name@, name) {
        k
    } else {
        slot_from(proxies, order, name, k + 1)
    }
}

/// The positions of the first `n` proxies, each inserted after every earlier
/// one whose name sorts no later than its own.
pub open spec fn sorted_prefix(proxies: Seq<ProxyInfo>, n: nat) -> Seq<usize>
    decreases n,
{
    if n == 0 {
        Seq::empty()
    } else {
        let earlier = sorted_prefix(proxies, (n - 1) as nat);
        earlier.insert(slot_from(proxies, earlier, proxies[n - 1].name@, 0), (n - 1) as usize)
    }
}

/// The order in which the proxy list shows the table: by name, and among
/// equal names by position in the table.
pub open spec fn name_sorted(proxies: Seq<ProxyInfo>) -> Seq<usize> {
    sorted_prefix(proxies, proxies.len())
}

/// The slot lies past every listed proxy whose name sorts no later than
/// `name`, and before the first one that sorts after it.
proof fn lemma_slot_from(proxies: Seq<ProxyInfo>, order: Seq<usize>, name: Seq<char>, k: int)
    requires
        0 <= k <= order.len(),
        forall|j: int| 0 <= j < k ==> text_le(#[trigger] proxies[order[j] as int].name@, name),
    ensures
        k <= slot_from(proxies, order, name, k) <= order.len(),
        forall|j: int|
            0 <= j < slot_from(proxies, order, name, k) ==> text_le(
                #[trigger] proxies[order[j] as int].name@,
                name,
            ),
        slot_from(proxies, order, name, k) < order.len() ==> !text_le(
            proxies[order[slot_from(proxies, order, name, k)] as int].name@,
            name,
        ),
    decreases order.len() - k,
{
    if k < order.len() && text_le(proxies[order[k] as int].name@, name) {
        lemma_slot_from(proxies, order, name, k + 1);
    }
}

/// The first `n` proxies in name order: each position below `n` once, by
/// non-decreasing name.
pub proof fn lemma_sorted_prefix(proxies: Seq<ProxyInfo>, n: nat)
    requires
        n <= proxies.len(),
        proxies.len() <= usize::MAX,
    ensures
        ({
            let order = sorted_prefix(proxies, n);
            &&& order.len() == n
            &&& forall|k: int| 0 <= k < order.len() ==> #[trigger] order[k] < n
            &&& forall|k1: int, k2: int|
                0 <= k1 < order.len() && 0 <= k2 < order.len() && k1 != k2 ==> order[k1] != order[k2]
            &&& forall|k1: int, k2: int|
                0 <= k1 < k2 < order.len() ==> text_le(
                    proxies[order[k1] as int].name@,
                    proxies[order[k2] as int].name@,
                )
        }),
    decreases n,
{
    if n > 0 {
        let i = (n - 1) as nat;
        lemma_sorted_prefix(proxies, i);
        let before = sorted_prefix(proxies, i);
        let name = proxies[i as int].name@;
        lemma_slot_from(proxies, before, name, 0);
        let pos = slot_from(proxies, before, name, 0);
        let order = sorted_prefix(proxies, n);
        assert(order == before.insert(pos, i as usize));
        assert forall|k: int| pos <= k < before.len() implies text_le(
            name,
            #[trigger] proxies[before[k] as int].name@,
        ) by {
            let first_after = proxies[before[pos] as int].name@;
            let other = proxies[before[k] as int].name@;
            if text_le(other, name) {
                if k > pos {
                    lemma_text_le_transitive(first_after, other, name);
                }
            }
            lemma_text_le_total(other, name);
        }
        assert forall|k1: int, k2: int| 0 <= k1 < k2 < order.len() implies text_le(
            proxies[order[k1] as int].name@,
            proxies[order[k2] as int].name@,
        ) by {
            if k2 < pos {
                assert(order[k1] == before[k1] && order[k2] == before[k2]);
            } else if k2 == pos {
                assert(order[k1] == before[k1]);
            } else if k1 < pos {
                assert(order[k1] == before[k1] && order[k2] == before[k2 - 1]);
                lemma_text_le_transitive(
                    proxies[before[k1] as int].name@,
                    name,
                    proxies[before[k2 - 1] as int].name@,
                );
            } else if k1 == pos {
                assert(order[k2] == before[k2 - 1]);
            } else {
                assert(order[k1] == before[k1 - 1] && order[k2] == before[k2 - 1]);
            }
        }
        assert forall|k1: int, k2: int|
            0 <= k1 < order.len() && 0 <= k2 < order.len() && k1 != k2 implies order[k1]
                != order[k2] by {
            if k1 != pos && k2 != pos {
                let b1 = if k1 < pos { k1 } else { k1 - 1 };
                let b2 = if k2 < pos { k2 } else { k2 - 1 };
                assert(order[k1] == before[b1] && order[k2] == before[b2]);
            } else if k1 == pos {
                let b2 = if k2 < pos { k2 } else { k2 - 1 };
                assert(order[k2] == before[b2]);
            } else {
                let b1 = if k1 < pos { k1 } else { k1 - 1 };
                assert(order[k1] == before[b1]);
            }
        }
        assert forall|k: int| 0 <= k < order.len() implies #[trigger] order[k] < n by {
            if k < pos {
                assert(order[k] == before[k]);
            } else if k > pos {
                assert(order[k] == before[k - 1]);
            }
        }
    }
}

/// The name order of a table lists every position once, by non-decreasing name.
pub proof fn lemma_name_sorted(proxies: Seq<ProxyInfo>)
    requires
        proxies.len() <= usize::MAX,
    ensures
        is_name_order(proxies, name_sorted(proxies)),
{
    lemma_sorted_prefix(proxies, proxies.len());
}

/// Positions of the proxies in name order.
pub fn name_order(proxies: &Vec<ProxyInfo>) -> (order: Vec<usize>)
    ensures
        order@ == name_sorted(proxies@),
        is_name_order(proxies@, order@),
{
    let n = proxies.len();
    let mut order: Vec<usize> = Vec::new();
    for i in 0..n
        invariant
            n == proxies@.len(),
            order@ == sorted_prefix(proxies@, i as nat),
    {
        proof {
            lemma_sorted_prefix(proxies@, i as nat);
        }
        let ghost name = proxies@[i as int].name@;
        let mut pos: usize = 0;
        while pos < order.len()
            invariant
                n == proxies@.len(),
                i < n,
                name == proxies@[i as int].name@,
                pos <= order@.len(),
                forall|k: int| 0 <= k < order@.len() ==> #[trigger] order@[k] < i,
                slot_from(proxies@, order@, name, 0) == slot_from(proxies@, order@, name, pos as int),
            ensures
                pos <= order@.len(),
                slot_from(proxies@, order@, name, 0) == pos,
            decreases order@.len() - pos,
        {
            if !text_le_exec(proxies[order[pos]].name.as_str(), proxies[i].name.as_str()) {
                break;
            }
            pos = pos + 1;
        }
        order.insert(pos, i);
    }
    proof {
        lemma_name_sorted(proxies@);
    }
    order
}

/// A traffic counter of the proxy statistics.
pub enum StatField {
    TotalRequests,
    SuccessfulRequests,
    FailedRequests,
    ActiveConnections,
    BytesTransferred,
}

/// The value of one counter.
pub open spec fn stat_of(stats: ProxyStats, field: StatField) -> u64 {
    match field {
        StatField::TotalRequests => stats.total_requests,
        StatField::SuccessfulRequests => stats.successful_requests,
        StatField::FailedRequests => stats.failed_requests,
        StatField::ActiveConnections => stats.active_connections,
        StatField::BytesTransferred => stats.bytes_transferred,
    }
}

/// The sum of one counter over the proxies.
pub open spec fn stat_sum(proxies: Seq<ProxyInfo>, field: StatField) -> int
    decreases proxies.len(),
{
    if proxies.len() == 0 {
        0
    } else {
        stat_sum(proxies.drop_last(), field) + stat_of(proxies.last().stats, field)
    }
}

/// Every sum over the proxies fits in a `u64`.
pub open spec fn totals_fit(proxies: Seq<ProxyInfo>) -> bool {
    &&& stat_sum(proxies, StatField::TotalRequests) <= u64::MAX
    &&& stat_sum(proxies, StatField::SuccessfulRequests) <= u64::MAX
    &&& stat_sum(proxies, StatField::FailedRequests) <= u64::MAX
    &&& stat_sum(proxies, StatField::ActiveConnections) <= u64::MAX
    &&& stat_sum(proxies, StatField::BytesTransferred) <= u64::MAX
}

/// A sum over a prefix of the table is no larger than the sum over the table.
pub proof fn lemma_stat_sum_prefix(proxies: Seq<ProxyInfo>, i: int, field: StatField)
    requires
        0 <= i <= proxies.len(),
    ensures
        0 <= stat_sum(proxies.take(i), field) <= stat_sum(proxies, field),
    decreases proxies.len(),
{
    if i == proxies.len() {
        assert(proxies.take(i) =~= proxies);
        if proxies.len() > 0 {
            lemma_stat_sum_prefix(proxies.drop_last(), 0, field);
        } else {
            assert(stat_sum(proxies, field) == 0);
        }
    } else {
        assert(proxies.take(i) =~= proxies.drop_last().take(i));
        lemma_stat_sum_prefix(proxies.drop_last(), i, field);
    }
}

} // verus!
