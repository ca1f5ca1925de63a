use vstd::prelude::*;

verus! {

/// Entry `a` comes before entry `b`: a smaller key, or the same key and an
/// earlier place in the input.
pub open spec fn ordered_before(keys: Seq<i128>, a: int, b: int) -> bool {
    keys[a] < keys[b] || (keys[a] == keys[b] && a < b)
}

/// `order` lists the indices of `keys` sorted by key, equal keys keeping
/// their input order: what a stable sort by key gives.
pub open spec fn is_stable_order(keys: Seq<i128>, order: Seq<usize>) -> bool {
    &&& order.len() == keys.len()
    &&& forall|i: int| 0 <= i < order.len() ==> #[trigger] order[i] < keys.len()
    &&& forall|i: int, j: int|
        0 <= i < j < order.len() ==> ordered_before(keys, #[trigger] order[i] as int, #[trigger] order[j] as int)
}

/// How many entries of `order` have a key at most `key`.
pub open spec fn count_not_after(keys: Seq<i128>, order: Seq<usize>, key: i128) -> int
    decreases order.len(),
{
    if order.len() == 0 {
        0
    } else {
        count_not_after(keys, order.drop_last(), key) + if keys[order.last() as int] <= key {
            1int
        } else {
            0
        }
    }
}

/// The stable sorted order of the first `k` indices, built by inserting each
/// index after every earlier one whose key is not larger.
pub open spec fn sort_order_upto(keys: Seq<i128>, k: nat) -> Seq<usize>
    decreases k,
{
    if k == 0 {
        seq![]
    } else {
        let prev = sort_order_upto(keys, (k - 1) as nat);
        prev.insert(count_not_after(keys, prev, keys[k - 1]), (k - 1) as usize)
    }
}

/// The stable sorted order of all indices of `keys`.
pub open spec fn sort_order(keys: Seq<i128>) -> Seq<usize> {
    sort_order_upto(keys, keys.len())
}

proof fn lemma_count_split(keys: Seq<i128>, order: Seq<usize>, key: i128, p: int)
    requires
        0 <= p <= order.len(),
        forall|q: int| 0 <= q < p ==> keys[#[trigger] order[q] as int] <= key,
        forall|q: int| p <= q < order.len() ==> keys[#[trigger] order[q] as int] > key,
    ensures
        count_not_after(keys, order, key) == p,
    decreases order.len(),
{
    if order.len() > 0 {
        let d = order.drop_last();
        if order.len() > p {
            assert forall|q: int| 0 <= q < p implies keys[#[trigger] d[q] as int] <= key by {
                assert(d[q] == order[q]);
            }
            assert forall|q: int| p <= q < d.len() implies keys[#[trigger] d[q] as int] > key by {
                assert(d[q] == order[q]);
            }
            lemma_count_split(keys, d, key, p);
            assert(keys[order.last() as int] > key);
        } else {
            assert forall|q: int| 0 <= q < p - 1 implies keys[#[trigger] d[q] as int] <= key by {
                assert(d[q] == order[q]);
            }
            lemma_count_split(keys, d, key, p - 1);
            assert(keys[order[p - 1] as int] <= key);
        }
    }
}

/// The indices of `keys` in stable sorted order.
pub fn stable_sort_order(keys: &Vec<i128>) -> (order: Vec<usize>)
    ensures
        is_stable_order(keys@, order@),
        order@ == sort_order(keys@),
{
    let mut order: Vec<usize> = Vec::new();
    let mut k: usize = 0;
    while k < keys.len()
        invariant
            k <= keys@.len(),
            order@.len() == k,
            order@ == sort_order_upto(keys@, k as nat),
            forall|i: int| 0 <= i < k ==> #[trigger] order@[i] < k,
            forall|i: int, j: int|
                0 <= i < j < k ==> ordered_before(keys@, #[trigger] order@[i] as int, #[trigger] order@[j] as int),
        decreases keys@.len() - k,
    {
        let key = keys[k];
        let mut p: usize = k;
        while p > 0 && keys[order[p - 1]] > key
            invariant
                p <= k,
                k < keys@.len(),
                key == keys@[k as int],
                order@.len() == k,
                forall|i: int| 0 <= i < k ==> #[trigger] order@[i] < k,
                forall|q: int| p <= q < k ==> keys@[#[trigger] order@[q] as int] > key,
            decreases p,
        {
            p = p - 1;
        }
        let ghost old_order = order@;
        proof {
            assert forall|q: int| 0 <= q < p implies keys@[#[trigger] old_order[q] as int] <= key by {
                if q < p - 1 {
                    assert(ordered_before(keys@, old_order[q] as int, old_order[p - 1] as int));
                }
            }
            lemma_count_split(keys@, old_order, key, p as int);
        }
        order.insert(p, k);
        proof {
            assert(sort_order_upto(keys@, (k + 1) as nat) == old_order.insert(p as int, k));
            assert forall|i: int| 0 <= i < k + 1 implies #[trigger] order@[i] < k + 1 by {
                if i < p {
                    assert(order@[i] == old_order[i]);
                } else if i > p {
                    assert(order@[i] == old_order[i - 1]);
                }
            }
            assert forall|i: int, j: int|
                0 <= i < j < k + 1 implies ordered_before(keys@, #[trigger] order@[i] as int, #[trigger] order@[j] as int) by {
                if j < p {
                    assert(order@[i] == old_order[i]);
                    assert(order@[j] == old_order[j]);
                } else if j == p {
                    assert(order@[i] == old_order[i]);
                    assert(order@[j] == k);
                    if i < p - 1 {
                        assert(ordered_before(keys@, old_order[i] as int, old_order[p - 1] as int));
                    }
                } else if i < p {
                    assert(order@[i] == old_order[i]);
                    assert(order@[j] == old_order[j - 1]);
                } else if i == p {
                    assert(order@[i] == k);
                    assert(order@[j] == old_order[j - 1]);
                    assert(keys@[old_order[j - 1] as int] > key);
                } else {
                    assert(order@[i] == old_order[i - 1]);
                    assert(order@[j] == old_order[j - 1]);
                }
            }
        }
        k = k + 1;
    }
    order
}

/// The key of a qualifying time: a set time sorts by its key, a missing time
/// after every set one.
pub open spec fn time_key(t: Option<u64>) -> i128 {
    match t {
        Some(k) => k as i128,
        None => 18446744073709551616i128,
    }
}

/// The keys of a list of qualifying times.
pub open spec fn time_keys(times: Seq<Option<u64>>) -> Seq<i128> {
    Seq::new(times.len(), |i: int| time_key(times[i]))
}

/// The order of a qualifying session's results: fastest first, drivers
/// without a time last, ties in their listed order. Each time is given as a
/// key that orders like the lap time. The driver at `order[i]` is ranked
/// `i + 1`.
pub fn qualifying_order(times: &Vec<Option<u64>>) -> (order: Vec<usize>)
    ensures
        is_stable_order(time_keys(times@), order@),
        order@ == sort_order(time_keys(times@)),
{
    let mut keys: Vec<i128> = Vec::new();
    let mut i: usize = 0;
    while i < times.len()
        invariant
            i <= times@.len(),
            keys@.len() == i,
            forall|j: int| 0 <= j < i ==> #[trigger] keys@[j] == time_key(times@[j]),
        decreases times@.len() - i,
    {
        let k: i128 = match times[i] {
            Some(t) => t as i128,
            None => 18446744073709551616,
        };
        keys.push(k);
        i = i + 1;
    }
    assert(keys@ =~= time_keys(times@));
    stable_sort_order(&keys)
}

/// The ranking of a qualifying session: its entries in qualifying order,
/// each as (index of the entry, position), positions counting 1, 2, ... in
/// that order. Every entry appears exactly once.
pub fn qualifying_ranking(times: &Vec<Option<u64>>) -> (ranked: Vec<(usize, u32)>)
    requires
        times@.len() <= u32::MAX,
    ensures
        ranked@.len() == times@.len(),
        forall|i: int|
            0 <= i < ranked@.len() ==> #[trigger] ranked@[i] == (
            sort_order(time_keys(times@))[i],
            (i + 1) as u32,
        ),
        is_stable_order(time_keys(times@), ranked@.map_values(|p: (usize, u32)| p.0)),
{
    let order = qualifying_order(times);
    let mut ranked: Vec<(usize, u32)> = Vec::new();
    let mut i: usize = 0;
    while i < order.len()
        invariant
            i <= order@.len(),
            order@.len() == times@.len(),
            times@.len() <= u32::MAX,
            order@ == sort_order(time_keys(times@)),
            ranked@.len() == i,
            forall|j: int| 0 <= j < i ==> #[trigger] ranked@[j] == (order@[j], (j + 1) as u32),
        decreases order@.len() - i,
    {
        ranked.push((order[i], (i + 1) as u32));
        i = i + 1;
    }
    assert(ranked@.map_values(|p: (usize, u32)| p.0) =~= order@);
    ranked
}

/// In a qualifying order, every driver with a time is ranked above every
/// driver without one, and of two set times the faster ranks higher.
pub proof fn lemma_qualifying_order_ranks_times(times: Seq<Option<u64>>, order: Seq<usize>, i: int, j: int)
    requires
        is_stable_order(time_keys(times), order),
        0 <= i < j < order.len(),
    ensures
        times[order[j] as int] is Some ==> times[order[i] as int] is Some,
        (times[order[i] as int] is Some && times[order[j] as int] is Some) ==> times[order[i] as int]->0
            <= times[order[j] as int]->0,
{
    assert(ordered_before(time_keys(times), order[i] as int, order[j] as int));
}

/// The keys of a list of positions.
pub open spec fn position_keys(positions: Seq<u32>) -> Seq<i128> {
    Seq::new(positions.len(), |i: int| positions[i] as i128)
}

/// The order of entries sorted by position, ties in their listed order.
pub fn order_by_position(positions: &Vec<u32>) -> (order: Vec<usize>)
    ensures
        is_stable_order(position_keys(positions@), order@),
        order@ == sort_order(position_keys(positions@)),
{
    let mut keys: Vec<i128> = Vec::new();
    let mut i: usize = 0;
    while i < positions.len()
        invariant
            i <= positions@.len(),
            keys@.len() == i,
            forall|j: int| 0 <= j < i ==> #[trigger] keys@[j] == positions@[j] as i128,
        decreases positions@.len() - i,
    {
        keys.push(positions[i] as i128);
        i = i + 1;
    }
    assert(keys@ =~= position_keys(positions@));
    stable_sort_order(&keys)
}

/// A lap of a driver: its number and when it started (nanoseconds since
/// the Unix epoch), if known.
#[derive(Clone, Copy, Debug)]
pub struct LapRecord {
    pub lap_number: u32,
    pub date_start: Option<i128>,
    pub driver_number: u32,
}

/// A driver's race position from a given instant (nanoseconds since the
/// Unix epoch).
#[derive(Clone, Copy, Debug)]
pub struct PositionRecord {
    pub position: u32,
    pub driver_number: u32,
    pub date: i128,
}

/// A driver's position at the start of a lap.
#[derive(Clone, Copy, Debug)]
pub struct LapPosition {
    pub lap: u32,
    pub position: u32,
}

/// The sort key of a lap: its start, laps without one first.
pub open spec fn lap_key(l: LapRecord) -> i128 {
    match l.date_start {
        Some(t) => t,
        None => i128::MIN,
    }
}

/// The sort keys of laps.
pub open spec fn lap_keys(laps: Seq<LapRecord>) -> Seq<i128> {
    Seq::new(laps.len(), |i: int| lap_key(laps[i]))
}

/// The sort keys of positions: their instants.
pub open spec fn stamp_keys(positions: Seq<PositionRecord>) -> Seq<i128> {
    Seq::new(positions.len(), |i: int| positions[i].date)
}

/// `s` rearranged by `order`.
pub open spec fn reordered<T>(s: Seq<T>, order: Seq<usize>) -> Seq<T> {
    Seq::new(order.len(), |i: int| s[order[i] as int])
}

/// Among the first `n` positions, the last one set at or before `ts`; the
/// first position when there is none.
pub open spec fn position_at(sorted: Seq<PositionRecord>, ts: i128, n: int) -> u32
    decreases n,
{
    if n <= 0 {
        sorted[0].position
    } else if sorted[n - 1].date <= ts {
        sorted[n - 1].position
    } else {
        position_at(sorted, ts, n - 1)
    }
}

/// The lap entries of a graph, one per lap with a known start, in lap order.
pub open spec fn graph_laps(sorted_laps: Seq<LapRecord>, sorted: Seq<PositionRecord>) -> Seq<LapPosition>
    decreases sorted_laps.len(),
{
    if sorted_laps.len() == 0 {
        seq![]
    } else {
        let prev = graph_laps(sorted_laps.drop_last(), sorted);
        match sorted_laps.last().date_start {
            Some(ts) => prev.push(
                LapPosition {
                    lap: sorted_laps.last().lap_number,
                    position: position_at(sorted, ts, sorted.len() as int),
                },
            ),
            None => prev,
        }
    }
}

/// The position graph of a driver from laps and positions already sorted by
/// time: lap 1 at the first position, then every lap with a known start at
/// the latest position set by then.
pub open spec fn lap_graph(sorted_laps: Seq<LapRecord>, sorted: Seq<PositionRecord>) -> Seq<LapPosition> {
    seq![LapPosition { lap: 1, position: sorted[0].position }] + graph_laps(sorted_laps, sorted)
}

/// The position graph of a driver from its laps and positions in any order:
/// both are put in stable time order first.
pub open spec fn driver_graph(laps: Seq<LapRecord>, positions: Seq<PositionRecord>) -> Seq<LapPosition> {
    lap_graph(
        reordered(laps, sort_order(lap_keys(laps))),
        reordered(positions, sort_order(stamp_keys(positions))),
    )
}

proof fn lemma_position_at_prefix(sorted: Seq<PositionRecord>, ts: i128, c: int, n: int)
    requires
        0 <= c <= n <= sorted.len(),
        forall|q: int| c <= q < n ==> #[trigger] sorted[q].date > ts,
    ensures
        position_at(sorted, ts, n) == position_at(sorted, ts, c),
    decreases n - c,
{
    if n > c {
        lemma_position_at_prefix(sorted, ts, c, n - 1);
    }
}

/// `v` rearranged by `order`, materialized.
fn reorder_stamps(v: &Vec<PositionRecord>, order: &Vec<usize>) -> (r: Vec<PositionRecord>)
    requires
        forall|i: int| 0 <= i < order@.len() ==> #[trigger] order@[i] < v@.len(),
    ensures
        r@ == reordered(v@, order@),
{
    let mut r: Vec<PositionRecord> = Vec::new();
    let mut i: usize = 0;
    while i < order.len()
        invariant
            i <= order@.len(),
            forall|j: int| 0 <= j < order@.len() ==> #[trigger] order@[j] < v@.len(),
            r@ =~= reordered(v@, order@.take(i as int)),
        decreases order@.len() - i,
    {
        r.push(v[order[i]]);
        i = i + 1;
        assert(r@ =~= reordered(v@, order@.take(i as int)));
    }
    assert(order@.take(order@.len() as int) =~= order@);
    r
}

/// `v` rearranged by `order`, materialized.
fn reorder_laps(v: &Vec<LapRecord>, order: &Vec<usize>) -> (r: Vec<LapRecord>)
    requires
        forall|i: int| 0 <= i < order@.len() ==> #[trigger] order@[i] < v@.len(),
    ensures
        r@ == reordered(v@, order@),
{
    let mut r: Vec<LapRecord> = Vec::new();
    let mut i: usize = 0;
    while i < order.len()
        invariant
            i <= order@.len(),
            forall|j: int| 0 <= j < order@.len() ==> #[trigger] order@[j] < v@.len(),
            r@ =~= reordered(v@, order@.take(i as int)),
        decreases order@.len() - i,
    {
        r.push(v[order[i]]);
        i = i + 1;
        assert(r@ =~= reordered(v@, order@.take(i as int)));
    }
    assert(order@.take(order@.len() as int) =~= order@);
    r
}

/// The position graph of one driver from its laps and positions (their
/// driver numbers are not read): `None` when there are no positions.
/// Laps and positions are taken in stable time order, laps without a start
/// first; the graph starts with lap 1 at the earliest position, then gives
/// for each lap with a known start the latest position set at or before it.
pub fn lap_position_graph(laps: &Vec<LapRecord>, positions: &Vec<PositionRecord>) -> (graph: Option<
    Vec<LapPosition>,
>)
    requires
        forall|i: int| 0 <= i < laps@.len() ==> (#[trigger] laps@[i]).date_start != Some(i128::MIN),
    ensures
        positions@.len() == 0 <==> graph is None,
        graph matches Some(g) ==> g@ == driver_graph(laps@, positions@),
{
    if positions.len() == 0 {
        return None;
    }
    let mut pkeys: Vec<i128> = Vec::new();
    let mut i: usize = 0;
    while i < positions.len()
        invariant
            i <= positions@.len(),
            pkeys@ =~= stamp_keys(positions@.take(i as int)),
        decreases positions@.len() - i,
    {
        pkeys.push(positions[i].date);
        i = i + 1;
        assert(pkeys@ =~= stamp_keys(positions@.take(i as int)));
    }
    assert(positions@.take(positions@.len() as int) =~= positions@);
    let mut lkeys: Vec<i128> = Vec::new();
    let mut i: usize = 0;
    while i < laps.len()
        invariant
            i <= laps@.len(),
            lkeys@ =~= lap_keys(laps@.take(i as int)),
        decreases laps@.len() - i,
    {
        let k: i128 = match laps[i].date_start {
            Some(t) => t,
            None => i128::MIN,
        };
        lkeys.push(k);
        i = i + 1;
        assert(lkeys@ =~= lap_keys(laps@.take(i as int)));
    }
    assert(laps@.take(laps@.len() as int) =~= laps@);
    let porder = stable_sort_order(&pkeys);
    let lorder = stable_sort_order(&lkeys);
    let sp = reorder_stamps(positions, &porder);
    let sl = reorder_laps(laps, &lorder);
    let ghost pk = stamp_keys(positions@);
    let ghost lk = lap_keys(laps@);
    assert forall|a: int, b: int| 0 <= a < b < sp@.len() implies sp@[a].date <= sp@[b].date by {
        assert(ordered_before(pk, porder@[a] as int, porder@[b] as int));
    }
    assert forall|a: int, b: int| 0 <= a < b < sl@.len() implies lap_key(sl@[a]) <= lap_key(sl@[b]) by {
        assert(ordered_before(lk, lorder@[a] as int, lorder@[b] as int));
    }
    assert forall|a: int| 0 <= a < sl@.len() implies (#[trigger] sl@[a]).date_start != Some(i128::MIN) by {
        assert(sl@[a] == laps@[lorder@[a] as int]);
    }
    let mut graph: Vec<LapPosition> = Vec::new();
    let mut last_pos = sp[0].position;
    graph.push(LapPosition { lap: 1, position: last_pos });
    let mut pos_idx: usize = 0;
    let mut j: usize = 0;
    assert(sl@.take(0) =~= Seq::<LapRecord>::empty());
    while j < sl.len()
        invariant
            sp@.len() == positions@.len(),
            sp@.len() > 0,
            forall|a: int, b: int| 0 <= a < b < sp@.len() ==> sp@[a].date <= sp@[b].date,
            forall|a: int, b: int| 0 <= a < b < sl@.len() ==> lap_key(sl@[a]) <= lap_key(sl@[b]),
            forall|a: int| 0 <= a < sl@.len() ==> (#[trigger] sl@[a]).date_start != Some(i128::MIN),
            j <= sl@.len(),
            pos_idx <= sp@.len(),
            last_pos == (if pos_idx == 0 { sp@[0].position } else { sp@[pos_idx - 1].position }),
            pos_idx > 0 ==> j > 0 && sp@[pos_idx - 1].date <= lap_key(sl@[j - 1]),
            graph@ == lap_graph(sl@.take(j as int), sp@),
        decreases sl@.len() - j,
    {
        assert(sl@.take(j + 1).drop_last() =~= sl@.take(j as int));
        let lap = sl[j];
        match lap.date_start {
            Some(ts) => {
                while pos_idx < sp.len() && sp[pos_idx].date <= ts
                    invariant
                        sp@.len() > 0,
                        forall|a: int, b: int| 0 <= a < b < sp@.len() ==> sp@[a].date <= sp@[b].date,
                        pos_idx <= sp@.len(),
                        last_pos == (if pos_idx == 0 {
                            sp@[0].position
                        } else {
                            sp@[pos_idx - 1].position
                        }),
                        pos_idx > 0 ==> sp@[pos_idx - 1].date <= ts,
                    decreases sp@.len() - pos_idx,
                {
                    last_pos = sp[pos_idx].position;
                    pos_idx = pos_idx + 1;
                }
                proof {
                    assert forall|q: int| pos_idx <= q < sp@.len() implies #[trigger] sp@[q].date > ts by {
                        if q > pos_idx {
                            assert(sp@[pos_idx as int].date <= sp@[q].date);
                        }
                    }
                    lemma_position_at_prefix(sp@, ts, pos_idx as int, sp@.len() as int);
                    if pos_idx > 0 {
                        assert(position_at(sp@, ts, pos_idx as int) == sp@[pos_idx - 1].position);
                    }
                }
                graph.push(LapPosition { lap: lap.lap_number, position: last_pos });
                assert(graph@ =~= lap_graph(sl@.take(j + 1), sp@));
            },
            None => {
                assert(graph@ =~= lap_graph(sl@.take(j + 1), sp@));
            },
        }
        j = j + 1;
    }
    assert(sl@.take(sl@.len() as int) =~= sl@);
    Some(graph)
}


/// A driver's position graph over the laps of a session.
#[derive(Clone, Debug)]
pub struct DriverLapGraph {
    pub driver_number: u32,
    pub data: Vec<LapPosition>,
}

/// The drivers of `laps` in order of first appearance.
pub open spec fn lap_drivers(laps: Seq<LapRecord>) -> Seq<u32>
    decreases laps.len(),
{
    if laps.len() == 0 {
        seq![]
    } else {
        let prev = lap_drivers(laps.drop_last());
        if prev.contains(laps.last().driver_number) {
            prev
        } else {
            prev.push(laps.last().driver_number)
        }
    }
}

/// The laps of driver `d`, in order.
pub open spec fn laps_of(laps: Seq<LapRecord>, d: u32) -> Seq<LapRecord>
    decreases laps.len(),
{
    if laps.len() == 0 {
        seq![]
    } else if laps.last().driver_number == d {
        laps_of(laps.drop_last(), d).push(laps.last())
    } else {
        laps_of(laps.drop_last(), d)
    }
}

/// The positions of driver `d`, in order.
pub open spec fn positions_of(positions: Seq<PositionRecord>, d: u32) -> Seq<PositionRecord>
    decreases positions.len(),
{
    if positions.len() == 0 {
        seq![]
    } else if positions.last().driver_number == d {
        positions_of(positions.drop_last(), d).push(positions.last())
    } else {
        positions_of(positions.drop_last(), d)
    }
}

/// Each lap driver's graph, in order of first appearance.
pub open spec fn unsorted_graphs(laps: Seq<LapRecord>, positions: Seq<PositionRecord>) -> Seq<
    (u32, Seq<LapPosition>),
> {
    lap_drivers(laps).map_values(
        |d: u32| (d, driver_graph(laps_of(laps, d), positions_of(positions, d))),
    )
}

/// The sort keys of graphs: the position at their last lap.
pub open spec fn final_position_keys(graphs: Seq<(u32, Seq<LapPosition>)>) -> Seq<i128> {
    Seq::new(graphs.len(), |i: int| graphs[i].1.last().position as i128)
}

/// The position graphs of all drivers of a session, ordered by the position
/// at their last lap, ties in order of the drivers' first lap.
pub open spec fn session_graphs(laps: Seq<LapRecord>, positions: Seq<PositionRecord>) -> Seq<
    (u32, Seq<LapPosition>),
> {
    let g = unsorted_graphs(laps, positions);
    reordered(g, sort_order(final_position_keys(g)))
}

/// The laps of driver `d`.
fn select_laps(laps: &Vec<LapRecord>, d: u32) -> (r: Vec<LapRecord>)
    ensures
        r@ == laps_of(laps@, d),
{
    let mut r: Vec<LapRecord> = Vec::new();
    let mut i: usize = 0;
    assert(laps@.take(0) =~= Seq::<LapRecord>::empty());
    while i < laps.len()
        invariant
            i <= laps@.len(),
            r@ == laps_of(laps@.take(i as int), d),
        decreases laps@.len() - i,
    {
        assert(laps@.take(i + 1).drop_last() =~= laps@.take(i as int));
        if laps[i].driver_number == d {
            r.push(laps[i]);
        }
        i = i + 1;
    }
    assert(laps@.take(laps@.len() as int) =~= laps@);
    r
}

/// The positions of driver `d`.
fn select_positions(positions: &Vec<PositionRecord>, d: u32) -> (r: Vec<PositionRecord>)
    ensures
        r@ == positions_of(positions@, d),
{
    let mut r: Vec<PositionRecord> = Vec::new();
    let mut i: usize = 0;
    assert(positions@.take(0) =~= Seq::<PositionRecord>::empty());
    while i < positions.len()
        invariant
            i <= positions@.len(),
            r@ == positions_of(positions@.take(i as int), d),
        decreases positions@.len() - i,
    {
        assert(positions@.take(i + 1).drop_last() =~= positions@.take(i as int));
        if positions[i].driver_number == d {
            r.push(positions[i]);
        }
        i = i + 1;
    }
    assert(positions@.take(positions@.len() as int) =~= positions@);
    r
}

/// The drivers of the laps, in order of first appearance.
fn distinct_lap_drivers(laps: &Vec<LapRecord>) -> (r: Vec<u32>)
    ensures
        r@ == lap_drivers(laps@),
{
    let mut r: Vec<u32> = Vec::new();
    let mut i: usize = 0;
    assert(laps@.take(0) =~= Seq::<LapRecord>::empty());
    while i < laps.len()
        invariant
            i <= laps@.len(),
            r@ == lap_drivers(laps@.take(i as int)),
        decreases laps@.len() - i,
    {
        assert(laps@.take(i + 1).drop_last() =~= laps@.take(i as int));
        let d = laps[i].driver_number;
        let mut seen = false;
        let mut j: usize = 0;
        while j < r.len()
            invariant
                j <= r@.len(),
                seen == exists|k: int| 0 <= k < j && r@[k] == d,
            decreases r@.len() - j,
        {
            if r[j] == d {
                seen = true;
            }
            j = j + 1;
        }
        proof {
            if seen {
                let k = choose|k: int| 0 <= k < j && r@[k] == d;
                assert(r@.contains(d));
            } else {
                assert(!r@.contains(d));
            }
        }
        if !seen {
            r.push(d);
        }
        i = i + 1;
    }
    assert(laps@.take(laps@.len() as int) =~= laps@);
    r
}

proof fn lemma_lap_drivers_have_laps(laps: Seq<LapRecord>, i: int)
    requires
        0 <= i < lap_drivers(laps).len(),
    ensures
        exists|k: int| 0 <= k < laps.len() && laps[k].driver_number == lap_drivers(laps)[i],
    decreases laps.len(),
{
    if laps.len() > 0 {
        let prev = lap_drivers(laps.drop_last());
        if i < prev.len() {
            lemma_lap_drivers_have_laps(laps.drop_last(), i);
            let k = choose|k: int| 0 <= k < laps.drop_last().len() && laps.drop_last()[k].driver_number == prev[i];
            assert(laps[k] == laps.drop_last()[k]);
        } else {
            assert(laps[laps.len() - 1].driver_number == lap_drivers(laps)[i]);
        }
    }
}

/// The position graphs of all drivers with laps in a session: for each
/// driver, the graph of its own laps and positions; the graphs are ordered
/// by the position at their last lap, ties in order of the drivers' first
/// lap. Every driver with laps must have positions.
pub fn drivers_position_graphs(laps: &Vec<LapRecord>, positions: &Vec<PositionRecord>) -> (graphs: Vec<
    DriverLapGraph,
>)
    requires
        forall|i: int| 0 <= i < laps@.len() ==> (#[trigger] laps@[i]).date_start != Some(i128::MIN),
        forall|i: int|
            0 <= i < laps@.len() ==> exists|j: int|
                0 <= j < positions@.len() && positions@[j].driver_number == (
                #[trigger] laps@[i]).driver_number,
    ensures
        graphs@.len() == session_graphs(laps@, positions@).len(),
        forall|i: int|
            0 <= i < graphs@.len() ==> (#[trigger] graphs@[i]).driver_number == session_graphs(
                laps@,
                positions@,
            )[i].0 && graphs@[i].data@ == session_graphs(laps@, positions@)[i].1,
{
    let drivers = distinct_lap_drivers(laps);
    let ghost ug = unsorted_graphs(laps@, positions@);
    let mut unsorted: Vec<DriverLapGraph> = Vec::new();
    let mut keys: Vec<i128> = Vec::new();
    let mut i: usize = 0;
    while i < drivers.len()
        invariant
            drivers@ == lap_drivers(laps@),
            ug == unsorted_graphs(laps@, positions@),
            forall|k: int| 0 <= k < laps@.len() ==> (#[trigger] laps@[k]).date_start != Some(i128::MIN),
            forall|k: int|
                0 <= k < laps@.len() ==> exists|j: int|
                    0 <= j < positions@.len() && positions@[j].driver_number == (
                    #[trigger] laps@[k]).driver_number,
            i <= drivers@.len(),
            unsorted@.len() == i,
            keys@.len() == i,
            forall|k: int|
                0 <= k < i ==> (#[trigger] unsorted@[k]).driver_number == ug[k].0
                    && unsorted@[k].data@ == ug[k].1 && ug[k].1.len() > 0,
            forall|k: int| 0 <= k < i ==> #[trigger] keys@[k] == ug[k].1.last().position as i128,
        decreases drivers@.len() - i,
    {
        let d = drivers[i];
        let dl = select_laps(laps, d);
        let dp = select_positions(positions, d);
        proof {
            lemma_lap_drivers_have_laps(laps@, i as int);
            let k = choose|k: int| 0 <= k < laps@.len() && laps@[k].driver_number == d;
            let j = choose|j: int| 0 <= j < positions@.len() && positions@[j].driver_number == laps@[k].driver_number;
            lemma_positions_of_nonempty(positions@, d, j);
            lemma_laps_of_starts(laps@, d);
        }
        let g = lap_position_graph(&dl, &dp);
        let data = g.unwrap();
        assert(data@.len() > 0);
        keys.push(data[data.len() - 1].position as i128);
        unsorted.push(DriverLapGraph { driver_number: d, data });
        i = i + 1;
    }
    assert(keys@ =~= final_position_keys(ug));
    let order = stable_sort_order(&keys);
    let mut graphs: Vec<DriverLapGraph> = Vec::new();
    let mut k: usize = 0;
    let ghost sg = session_graphs(laps@, positions@);
    while k < order.len()
        invariant
            ug == unsorted_graphs(laps@, positions@),
            sg == reordered(ug, order@),
            is_stable_order(keys@, order@),
            unsorted@.len() == ug.len(),
            keys@.len() == ug.len(),
            forall|m: int|
                0 <= m < ug.len() ==> (#[trigger] unsorted@[m]).driver_number == ug[m].0
                    && unsorted@[m].data@ == ug[m].1,
            k <= order@.len(),
            graphs@.len() == k,
            forall|m: int|
                0 <= m < k ==> (#[trigger] graphs@[m]).driver_number == sg[m].0 && graphs@[m].data@
                    == sg[m].1,
        decreases order@.len() - k,
    {
        let src = &unsorted[order[k]];
        let data = src.data.clone();
        graphs.push(DriverLapGraph { driver_number: src.driver_number, data });
        k = k + 1;
    }
    graphs
}

proof fn lemma_positions_of_nonempty(positions: Seq<PositionRecord>, d: u32, j: int)
    requires
        0 <= j < positions.len(),
        positions[j].driver_number == d,
    ensures
        positions_of(positions, d).len() > 0,
    decreases positions.len(),
{
    if j < positions.len() - 1 {
        lemma_positions_of_nonempty(positions.drop_last(), d, j);
        if positions.last().driver_number == d {
        }
    }
}

proof fn lemma_laps_of_starts(laps: Seq<LapRecord>, d: u32)
    requires
        forall|k: int| 0 <= k < laps.len() ==> (#[trigger] laps[k]).date_start != Some(i128::MIN),
    ensures
        forall|k: int|
            0 <= k < laps_of(laps, d).len() ==> (#[trigger] laps_of(laps, d)[k]).date_start != Some(
                i128::MIN,
            ),
    decreases laps.len(),
{
    if laps.len() > 0 {
        assert forall|k: int| 0 <= k < laps.drop_last().len() implies (#[trigger] laps.drop_last()[k]).date_start
            != Some(i128::MIN) by {
            assert(laps.drop_last()[k] == laps[k]);
        }
        lemma_laps_of_starts(laps.drop_last(), d);
    }
}

} // verus!
