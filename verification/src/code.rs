//! A valve-network puzzle solution: a graph of valves, each with a flow rate
//! and tunnels to other valves, is searched by two agents for the walk that
//! releases the most flow within a fixed number of turns.

use vstd::prelude::*;
use std::collections::HashMap;

verus! {

use vstd::string::StringSliceAdditionalSpecFns;

broadcast use vstd::std_specs::hash::group_hash_axioms;

/// Label of the starting valve: the two bytes `AA` packed big-endian.
pub const AA: u16 = 0x4141;

/// Greatest total release the search can report: 26 turns, each adding at
/// most 26 * 198 flow (two valves of rate at most 99 opened per turn).
pub const MAX_TOTAL: i64 = 133848;

/// One valve of the network: its flow rate, the labels its tunnels lead to,
/// and whether it has been opened.
pub struct Valve {
    pub rate: i64,
    pub connections: Vec<u16>,
    pub open: bool,
}

/// The mathematical model of a valve.
pub struct ValveModel {
    pub rate: int,
    pub connections: Seq<u16>,
    pub open: bool,
}

impl View for Valve {
    type V = ValveModel;

    open spec fn view(&self) -> ValveModel {
        ValveModel { rate: self.rate as int, connections: self.connections@, open: self.open }
    }
}

/// The same valve with its `open` flag set.
pub open spec fn opened(m: ValveModel) -> ValveModel {
    ValveModel { rate: m.rate, connections: m.connections, open: true }
}

/// The network with the valve under the label opened.
pub open spec fn spec_with_open(s: Seq<(u16, ValveModel)>, label: u16) -> Seq<(u16, ValveModel)> {
    Seq::new(
        s.len(),
        |j: int|
            (
                s[j].0,
                if s[j].0 == label {
                    opened(s[j].1)
                } else {
                    s[j].1
                },
            ),
    )
}

/// Some entry of `s` carries the label.
pub open spec fn has_label(s: Seq<(u16, ValveModel)>, label: u16) -> bool {
    exists|i: int| 0 <= i < s.len() && s[i].0 == label
}

/// An index of the entry carrying the label (the labels are distinct in a
/// well-formed network, so it is unique there).
pub open spec fn label_index(s: Seq<(u16, ValveModel)>, label: u16) -> int {
    choose|i: int| 0 <= i < s.len() && s[i].0 == label
}

/// The valve filed under the label.
pub open spec fn valve_at(s: Seq<(u16, ValveModel)>, label: u16) -> ValveModel {
    s[label_index(s, label)].1
}

/// No two entries carry the same label.
pub open spec fn distinct_labels(s: Seq<(u16, ValveModel)>) -> bool {
    forall|i: int, j: int| 0 <= i < j < s.len() ==> s[i].0 != s[j].0
}

/// Every rate lies between 0 and 99 (two decimal digits).
pub open spec fn rates_bounded(s: Seq<(u16, ValveModel)>) -> bool {
    forall|i: int| 0 <= i < s.len() ==> 0 <= (#[trigger] s[i]).1.rate <= 99
}

/// Every tunnel leads to a valve of the network.
pub open spec fn closed_network(s: Seq<(u16, ValveModel)>) -> bool {
    forall|i: int, c: int|
        0 <= i < s.len() && 0 <= c < s[i].1.connections.len() ==> has_label(
            s,
            #[trigger] s[i].1.connections[c],
        )
}

/// The valve network: a list of labelled valves with distinct labels.
pub struct Valves {
    entries: Vec<(u16, Valve)>,
}

impl View for Valves {
    type V = Seq<(u16, ValveModel)>;

    closed spec fn view(&self) -> Seq<(u16, ValveModel)> {
        self.entries@.map_values(|e: (u16, Valve)| (e.0, e.1@))
    }
}

impl Valves {
    /// Distinct labels and bounded rates.
    pub open spec fn wf(&self) -> bool {
        distinct_labels(self@) && rates_bounded(self@)
    }

    /// The empty network.
    pub fn new() -> (v: Valves)
        ensures
            v@ == Seq::<(u16, ValveModel)>::empty(),
            v.wf(),
    {
        let v = Valves { entries: Vec::new() };
        proof {
            assert(v@ =~= Seq::<(u16, ValveModel)>::empty());
        }
        v
    }

    /// How many valves the network holds.
    pub fn len(&self) -> (n: usize)
        ensures
            n == self@.len(),
    {
        self.entries.len()
    }

    /// The label and valve at a position, for walking the whole network.
    pub fn entry_at(&self, i: usize) -> (e: (u16, &Valve))
        requires
            i < self@.len(),
        ensures
            e.0 == self@[i as int].0,
            e.1@ == self@[i as int].1,
    {
        let e = &self.entries[i];
        (e.0, &e.1)
    }

    /// Add a valve under a label not yet present.
    fn push_valve(&mut self, label: u16, valve: Valve)
        ensures
            final(self)@ == old(self)@.push((label, valve@)),
    {
        self.entries.push((label, valve));
        proof {
            assert(self@ =~= old(self)@.push((label, valve@)));
        }
    }

    /// Look a valve up by its label.
    #[verifier::loop_isolation(false)]
    pub fn get(&self, label: u16) -> (r: Option<&Valve>)
        requires
            self.wf(),
        ensures
            (match r {
                Some(v) => has_label(self@, label) && v@ == valve_at(self@, label),
                None => !has_label(self@, label),
            }),
    {
        let mut i: usize = 0;
        while i < self.entries.len()
            invariant
                i <= self.entries.len(),
                forall|j: int| 0 <= j < i ==> self@[j].0 != label,
            decreases self.entries.len() - i,
        {
            if self.entries[i].0 == label {
                proof {
                    assert(self@[i as int].0 == label);
                    assert(has_label(self@, label));
                    let k = label_index(self@, label);
                    assert(0 <= k < self@.len() && self@[k].0 == label);
                    assert(k == i as int);
                }
                return Some(&self.entries[i].1);
            }
            i += 1;
        }
        None
    }

    /// A copy of the network in which the valve under the label is open.
    #[verifier::loop_isolation(false)]
    pub fn with_open(&self, label: u16) -> (r: Valves)
        requires
            self.wf(),
            has_label(self@, label),
        ensures
            r@ == spec_with_open(self@, label),
            r@.len() == self@.len(),
            forall|j: int| 0 <= j < self@.len() ==> (#[trigger] r@[j]).0 == self@[j].0,
            forall|j: int|
                0 <= j < self@.len() ==> (#[trigger] r@[j]).1 == (if self@[j].0 == label {
                    opened(self@[j].1)
                } else {
                    self@[j].1
                }),
            r.wf(),
            closed_network(self@) ==> closed_network(r@),
            forall|k: u16| has_label(r@, k) == has_label(self@, k),
    {
        let mut out: Vec<(u16, Valve)> = Vec::new();
        let mut i: usize = 0;
        while i < self.entries.len()
            invariant
                i <= self.entries.len(),
                out@.len() == i,
                forall|j: int| 0 <= j < i ==> (#[trigger] out@[j]).0 == self@[j].0,
                forall|j: int|
                    0 <= j < i ==> (#[trigger] out@[j]).1@ == (if self@[j].0 == label {
                        opened(self@[j].1)
                    } else {
                        self@[j].1
                    }),
            decreases self.entries.len() - i,
        {
            let e = &self.entries[i];
            let was_open = e.1.open;
            let v = Valve {
                rate: e.1.rate,
                connections: copy_labels(&e.1.connections),
                open: if e.0 == label {
                    true
                } else {
                    was_open
                },
            };
            proof {
                assert(self@[i as int].0 == e.0);
                assert(self@[i as int].1 == e.1@);
            }
            out.push((e.0, v));
            i += 1;
        }
        let r = Valves { entries: out };
        proof {
            assert(r@ =~= spec_with_open(self@, label));
            assert forall|j: int| 0 <= j < self@.len() implies (#[trigger] r@[j]).0 == self@[j].0
                && r@[j].1 == (if self@[j].0 == label {
                opened(self@[j].1)
            } else {
                self@[j].1
            }) by {
                assert(r@[j].0 == out@[j].0);
                assert(r@[j].1 == out@[j].1@);
            }
            assert forall|k: u16| has_label(r@, k) == has_label(self@, k) by {
                if has_label(self@, k) {
                    let w = label_index(self@, k);
                    assert(0 <= w < self@.len() && self@[w].0 == k);
                    assert(r@[w].0 == k);
                    assert(has_label(r@, k));
                }
                if has_label(r@, k) {
                    let w = choose|i: int| 0 <= i < r@.len() && r@[i].0 == k;
                    assert(self@[w].0 == k);
                    assert(has_label(self@, k));
                }
            }
            assert(closed_network(self@) ==> closed_network(r@)) by {
                if closed_network(self@) {
                    assert forall|i: int, c: int|
                        0 <= i < r@.len() && 0 <= c < r@[i].1.connections.len() implies has_label(
                        r@,
                        #[trigger] r@[i].1.connections[c],
                    ) by {
                        assert(r@[i].1.connections == self@[i].1.connections);
                        assert(has_label(self@, self@[i].1.connections[c]));
                    }
                }
            }
        }
        r
    }
}

impl Valves {
    /// Whether the network can be searched: every tunnel leads to a valve of
    /// the network and the starting valve is present.
    #[verifier::loop_isolation(false)]
    pub fn is_ready(&self) -> (b: bool)
        requires
            self.wf(),
        ensures
            b == (closed_network(self@) && has_label(self@, AA)),
    {
        if self.get(AA).is_none() {
            return false;
        }
        let mut i: usize = 0;
        while i < self.len()
            invariant
                i <= self@.len(),
                forall|i2: int, c: int|
                    0 <= i2 < i && 0 <= c < self@[i2].1.connections.len() ==> has_label(
                        self@,
                        #[trigger] self@[i2].1.connections[c],
                    ),
            decreases self@.len() - i,
        {
            let e = self.entry_at(i);
            let conns = e.1;
            let mut c: usize = 0;
            while c < conns.connections.len()
                invariant
                    c <= conns.connections@.len(),
                    conns@ == self@[i as int].1,
                    i < self@.len(),
                    forall|c2: int|
                        0 <= c2 < c ==> has_label(
                            self@,
                            #[trigger] self@[i as int].1.connections[c2],
                        ),
                decreases conns.connections@.len() - c,
            {
                if self.get(conns.connections[c]).is_none() {
                    proof {
                        assert(self@[i as int].1.connections[c as int] == conns.connections@[
                            c as int
                        ]);
                        assert(!closed_network(self@));
                    }
                    return false;
                }
                c += 1;
            }
            i += 1;
        }
        true
    }
}

/// A fresh vector carrying the same labels.
#[verifier::loop_isolation(false)]
fn copy_labels(v: &Vec<u16>) -> (r: Vec<u16>)
    ensures
        r@ == v@,
{
    let mut r: Vec<u16> = Vec::new();
    let mut i: usize = 0;
    while i < v.len()
        invariant
            i <= v.len(),
            r@ == v@.take(i as int),
        decreases v.len() - i,
    {
        r.push(v[i]);
        proof {
            assert(r@ =~= v@.take(i + 1 as int));
        }
        i += 1;
    }
    proof {
        assert(r@ =~= v@);
    }
    r
}

/// The best total the memo holds for a remaining-time key, 0 when absent.
pub open spec fn spec_best(m: Map<i64, i64>, time: i64) -> int {
    if m.contains_key(time) {
        m[time] as int
    } else {
        0
    }
}

/// The search prunes a branch whose running total trails the best total seen
/// at the same remaining time by more than 26.
pub open spec fn spec_pruned(m: Map<i64, i64>, time: i64, total: i64) -> bool {
    spec_best(m, time) > total + 26
}

/// Every key of `m1` is still present in `m2`, with a value at least as large.
pub open spec fn memo_extends(m2: Map<i64, i64>, m1: Map<i64, i64>) -> bool {
    forall|k: i64| #[trigger] m1.contains_key(k) ==> m2.contains_key(k) && m2[k] >= m1[k]
}

proof fn lemma_memo_extends_trans(a: Map<i64, i64>, b: Map<i64, i64>, c: Map<i64, i64>)
    requires
        memo_extends(b, a),
        memo_extends(c, b),
    ensures
        memo_extends(c, a),
{
}

/// The larger of two totals.
pub open spec fn pick_max(a: int, b: int) -> int {
    if a > b {
        a
    } else {
        b
    }
}

/// The functional model of the whole search: what `double_valverun` returns
/// and what it leaves in the memo, as a function of its arguments.
pub open spec fn spec_search(
    human: (u16, u16),
    elephant: (u16, u16),
    s: Seq<(u16, ValveModel)>,
    time: int,
    memo: Map<i64, i64>,
    total: int,
    turnflow: int,
) -> (int, Map<i64, i64>)
    decreases time, 3int, 0int, 0int,
{
    if time <= 0 {
        (total, memo)
    } else {
        let best = spec_best(memo, time as i64);
        if best > total + 26 {
            (0, memo)
        } else {
            let memo1 = if total > best {
                memo.insert(time as i64, total as i64)
            } else {
                memo
            };
            let hv = valve_at(s, human.0);
            let ev = valve_at(s, elephant.0);
            if !hv.open && hv.rate > 0 && !ev.open && ev.rate > 0 && human.0 != elephant.0 {
                let s2 = spec_with_open(spec_with_open(s, elephant.0), human.0);
                let sub = spec_search(
                    (human.0, 0),
                    (elephant.0, 0),
                    s2,
                    time - 1,
                    memo1,
                    total + turnflow,
                    turnflow + ev.rate + hv.rate,
                );
                (pick_max(total, sub.0), sub.1)
            } else if !hv.open && hv.rate > 0 {
                let s2 = spec_with_open(s, human.0);
                spec_scan_ele(
                    human.0,
                    elephant,
                    s2,
                    time,
                    ev.connections,
                    0,
                    total,
                    memo1,
                    total + turnflow,
                    turnflow + hv.rate,
                )
            } else if !ev.open && ev.rate > 0 {
                let s2 = spec_with_open(s, elephant.0);
                spec_scan_hum(
                    human,
                    elephant.0,
                    s2,
                    time,
                    hv.connections,
                    0,
                    total,
                    memo1,
                    total + turnflow,
                    turnflow + ev.rate,
                )
            } else {
                spec_scan_pairs(
                    human,
                    elephant,
                    s,
                    time,
                    hv.connections,
                    ev.connections,
                    0,
                    total,
                    memo1,
                    total + turnflow,
                    turnflow,
                )
            }
        }
    }
}

/// The elephant walks each tunnel in turn (never straight back) while the
/// human stays to open its valve.
pub open spec fn spec_scan_ele(
    hum_cur: u16,
    elephant: (u16, u16),
    s2: Seq<(u16, ValveModel)>,
    time: int,
    conns: Seq<u16>,
    idx: int,
    curmax: int,
    memo: Map<i64, i64>,
    next_total: int,
    next_turnflow: int,
) -> (int, Map<i64, i64>)
    decreases time, 1int, conns.len() - idx, 0int,
{
    if time <= 0 || idx < 0 || idx >= conns.len() {
        (curmax, memo)
    } else if conns[idx] == elephant.1 {
        spec_scan_ele(
            hum_cur,
            elephant,
            s2,
            time,
            conns,
            idx + 1,
            curmax,
            memo,
            next_total,
            next_turnflow,
        )
    } else {
        let sub = spec_search(
            (hum_cur, 0),
            (conns[idx], elephant.0),
            s2,
            time - 1,
            memo,
            next_total,
            next_turnflow,
        );
        spec_scan_ele(
            hum_cur,
            elephant,
            s2,
            time,
            conns,
            idx + 1,
            pick_max(curmax, sub.0),
            sub.1,
            next_total,
            next_turnflow,
        )
    }
}

/// The human walks each tunnel in turn (never straight back) while the
/// elephant stays to open its valve.
pub open spec fn spec_scan_hum(
    human: (u16, u16),
    ele_cur: u16,
    s2: Seq<(u16, ValveModel)>,
    time: int,
    conns: Seq<u16>,
    idx: int,
    curmax: int,
    memo: Map<i64, i64>,
    next_total: int,
    next_turnflow: int,
) -> (int, Map<i64, i64>)
    decreases time, 1int, conns.len() - idx, 0int,
{
    if time <= 0 || idx < 0 || idx >= conns.len() {
        (curmax, memo)
    } else if conns[idx] == human.1 {
        spec_scan_hum(
            human,
            ele_cur,
            s2,
            time,
            conns,
            idx + 1,
            curmax,
            memo,
            next_total,
            next_turnflow,
        )
    } else {
        let sub = spec_search(
            (conns[idx], human.0),
            (ele_cur, 0),
            s2,
            time - 1,
            memo,
            next_total,
            next_turnflow,
        );
        spec_scan_hum(
            human,
            ele_cur,
            s2,
            time,
            conns,
            idx + 1,
            pick_max(curmax, sub.0),
            sub.1,
            next_total,
            next_turnflow,
        )
    }
}

/// Both agents walk: every pair of tunnels, neither straight back.
pub open spec fn spec_scan_pairs(
    human: (u16, u16),
    elephant: (u16, u16),
    s: Seq<(u16, ValveModel)>,
    time: int,
    hconns: Seq<u16>,
    econns: Seq<u16>,
    hidx: int,
    curmax: int,
    memo: Map<i64, i64>,
    next_total: int,
    turnflow: int,
) -> (int, Map<i64, i64>)
    decreases time, 2int, hconns.len() - hidx, 0int,
{
    if time <= 0 || hidx < 0 || hidx >= hconns.len() {
        (curmax, memo)
    } else {
        let after = if hconns[hidx] == human.1 {
            (curmax, memo)
        } else {
            spec_scan_pair(
                hconns[hidx],
                human.0,
                elephant,
                s,
                time,
                econns,
                0,
                curmax,
                memo,
                next_total,
                turnflow,
                hconns.len() - hidx,
            )
        };
        spec_scan_pairs(
            human,
            elephant,
            s,
            time,
            hconns,
            econns,
            hidx + 1,
            after.0,
            after.1,
            next_total,
            turnflow,
        )
    }
}

/// One human tunnel paired with each elephant tunnel in turn.
pub open spec fn spec_scan_pair(
    hum_label: u16,
    hum_cur: u16,
    elephant: (u16, u16),
    s: Seq<(u16, ValveModel)>,
    time: int,
    econns: Seq<u16>,
    eidx: int,
    curmax: int,
    memo: Map<i64, i64>,
    next_total: int,
    turnflow: int,
    hrem: int,
) -> (int, Map<i64, i64>)
    decreases time, 1int, hrem, econns.len() - eidx,
{
    if time <= 0 || eidx < 0 || eidx >= econns.len() {
        (curmax, memo)
    } else if econns[eidx] == elephant.1 {
        spec_scan_pair(
            hum_label,
            hum_cur,
            elephant,
            s,
            time,
            econns,
            eidx + 1,
            curmax,
            memo,
            next_total,
            turnflow,
            hrem,
        )
    } else {
        let sub = spec_search(
            (hum_label, hum_cur),
            (econns[eidx], elephant.0),
            s,
            time - 1,
            memo,
            next_total,
            turnflow,
        );
        spec_scan_pair(
            hum_label,
            hum_cur,
            elephant,
            s,
            time,
            econns,
            eidx + 1,
            pick_max(curmax, sub.0),
            sub.1,
            next_total,
            turnflow,
            hrem,
        )
    }
}

/// Search the network for the largest total release two agents (the human and
/// the elephant) can reach in the remaining time. Each agent either opens a
/// closed valve of positive rate where it stands or walks a tunnel, never
/// straight back to where it came from; each turn adds the flow of the valves
/// already open to the running total. A memo of the best running total per
/// remaining time prunes branches that trail it by more than 26.
#[verifier::loop_isolation(false)]
pub fn double_valverun(
    human: (u16, u16),
    elephant: (u16, u16),
    valves: &Valves,
    time: i64,
    highest: &mut HashMap<i64, i64>,
    total: i64,
    turnflow: i64,
) -> (best: i64)
    requires
        valves.wf(),
        closed_network(valves@),
        has_label(valves@, human.0),
        has_label(valves@, elephant.0),
        0 <= time <= 26,
        0 <= turnflow,
        turnflow <= 198 * (26 - time),
        0 <= total,
        total <= 5148 * (26 - time),
    ensures
        0 <= best <= MAX_TOTAL,
        time == 0 ==> best == total,
        time > 0 && spec_pruned(old(highest)@, time, total) ==> best == 0,
        time > 0 && !spec_pruned(old(highest)@, time, total) ==> best >= total,
        memo_extends(final(highest)@, old(highest)@),
        best == spec_search(
            human,
            elephant,
            valves@,
            time as int,
            old(highest)@,
            total as int,
            turnflow as int,
        ).0,
        final(highest)@ == spec_search(
            human,
            elephant,
            valves@,
            time as int,
            old(highest)@,
            total as int,
            turnflow as int,
        ).1,
    decreases time,
{
    let ghost goal = spec_search(
        human,
        elephant,
        valves@,
        time as int,
        old(highest)@,
        total as int,
        turnflow as int,
    );
    if time == 0 {
        proof {
            assert(goal == (total as int, highest@));
        }
        return total;
    }
    let best_time: i64 = match highest.get(&time) {
        Some(score) => *score,
        None => 0,
    };
    proof {
        assert(best_time == spec_best(highest@, time));
        assert((time as int) as i64 == time);
    }
    if best_time > total + 26 {
        proof {
            assert(goal == (0int, highest@));
        }
        return 0;
    }
    if total > best_time {
        highest.insert(time, total);
    }
    let ghost memo_mid = highest@;
    proof {
        assert(memo_extends(memo_mid, old(highest)@));
        assert((total as int) as i64 == total);
        assert(memo_mid == (if total as int > spec_best(old(highest)@, time) {
            old(highest)@.insert(time, total)
        } else {
            old(highest)@
        }));
    }

    let mut curmax: i64 = total;
    let hum_valve = valves.get(human.0).unwrap();
    let hum_rate = hum_valve.rate;
    let hum_open = hum_valve.open;
    let hum_conns = copy_labels(&hum_valve.connections);
    let ele_valve = valves.get(elephant.0).unwrap();
    let ele_rate = ele_valve.rate;
    let ele_open = ele_valve.open;
    let ele_conns = copy_labels(&ele_valve.connections);
    proof {
        let hk = label_index(valves@, human.0);
        assert(0 <= hk < valves@.len() && valves@[hk].0 == human.0);
        assert(0 <= valves@[hk].1.rate <= 99);
        let ek = label_index(valves@, elephant.0);
        assert(0 <= ek < valves@.len() && valves@[ek].0 == elephant.0);
        assert(0 <= valves@[ek].1.rate <= 99);
        assert forall|c: int| 0 <= c < hum_conns@.len() implies has_label(
            valves@,
            #[trigger] hum_conns@[c],
        ) by {
            assert(hum_conns@[c] == valves@[hk].1.connections[c]);
            assert(has_label(valves@, valves@[hk].1.connections[c]));
        }
        assert forall|c: int| 0 <= c < ele_conns@.len() implies has_label(
            valves@,
            #[trigger] ele_conns@[c],
        ) by {
            assert(ele_conns@[c] == valves@[ek].1.connections[c]);
            assert(has_label(valves@, valves@[ek].1.connections[c]));
        }
        assert(valve_at(valves@, human.0).open == hum_open);
        assert(valve_at(valves@, human.0).rate == hum_rate as int);
        assert(valve_at(valves@, human.0).connections == hum_conns@);
        assert(valve_at(valves@, elephant.0).open == ele_open);
        assert(valve_at(valves@, elephant.0).rate == ele_rate as int);
        assert(valve_at(valves@, elephant.0).connections == ele_conns@);
    }

    // Both closed and positive flow available? Run both!
    if !hum_open && hum_rate > 0 && !ele_open && ele_rate > 0 && human.0 != elephant.0 {
        let rate = ele_rate + hum_rate;
        let cloned = valves.with_open(elephant.0).with_open(human.0);
        let ghost curmax_in = curmax as int;
        let sub = double_valverun(
            (human.0, 0),
            (elephant.0, 0),
            &cloned,
            time - 1,
            highest,
            total + turnflow,
            turnflow + rate,
        );
        if sub > curmax {
            curmax = sub;
        }
        proof {
            assert(curmax as int == pick_max(curmax_in, sub as int));
            assert(goal == (curmax as int, highest@));
        }
    }
    // Human closed and positive flow available? Run it!
    else if !hum_open && hum_rate > 0 {
        let rate = hum_rate;
        let cloned = valves.with_open(human.0);
        proof {
            assert(spec_scan_ele(
                human.0,
                elephant,
                cloned@,
                time as int,
                ele_conns@,
                0,
                total as int,
                memo_mid,
                total + turnflow,
                turnflow + rate,
            ) == goal);
        }
        let mut idx: usize = 0;
        while idx < ele_conns.len()
            invariant
                idx <= ele_conns.len(),
                total <= curmax <= MAX_TOTAL,
                memo_extends(highest@, memo_mid),
                spec_scan_ele(
                    human.0,
                    elephant,
                    cloned@,
                    time as int,
                    ele_conns@,
                    idx as int,
                    curmax as int,
                    highest@,
                    total + turnflow,
                    turnflow + rate,
                ) == goal,
            decreases ele_conns.len() - idx,
        {
            let label = ele_conns[idx];
            if label != elephant.1 {
                let ghost memo_in = highest@;
                let ghost curmax_in = curmax as int;
                let sub = double_valverun(
                    (human.0, 0),
                    (label, elephant.0),
                    &cloned,
                    time - 1,
                    highest,
                    total + turnflow,
                    turnflow + rate,
                );
                proof {
                    lemma_memo_extends_trans(memo_mid, memo_in, highest@);
                }
                if sub > curmax {
                    curmax = sub;
                }
                proof {
                    assert(curmax as int == pick_max(curmax_in, sub as int));
                    assert(spec_scan_ele(
                        human.0,
                        elephant,
                        cloned@,
                        time as int,
                        ele_conns@,
                        idx as int,
                        curmax_in,
                        memo_in,
                        total + turnflow,
                        turnflow + rate,
                    ) == spec_scan_ele(
                        human.0,
                        elephant,
                        cloned@,
                        time as int,
                        ele_conns@,
                        idx + 1,
                        curmax as int,
                        highest@,
                        total + turnflow,
                        turnflow + rate,
                    ));
                }
            } else {
                proof {
                    assert(spec_scan_ele(
                        human.0,
                        elephant,
                        cloned@,
                        time as int,
                        ele_conns@,
                        idx as int,
                        curmax as int,
                        highest@,
                        total + turnflow,
                        turnflow + rate,
                    ) == spec_scan_ele(
                        human.0,
                        elephant,
                        cloned@,
                        time as int,
                        ele_conns@,
                        idx + 1,
                        curmax as int,
                        highest@,
                        total + turnflow,
                        turnflow + rate,
                    ));
                }
            }
            idx += 1;
        }
        proof {
            assert(goal == (curmax as int, highest@));
        }
    }
    // Elephant closed and flow available? GOGOGOGOGO!
    else if !ele_open && ele_rate > 0 {
        let rate = ele_rate;
        let cloned = valves.with_open(elephant.0);
        proof {
            assert(spec_scan_hum(
                human,
                elephant.0,
                cloned@,
                time as int,
                hum_conns@,
                0,
                total as int,
                memo_mid,
                total + turnflow,
                turnflow + rate,
            ) == goal);
        }
        let mut idx: usize = 0;
        while idx < hum_conns.len()
            invariant
                idx <= hum_conns.len(),
                total <= curmax <= MAX_TOTAL,
                memo_extends(highest@, memo_mid),
                spec_scan_hum(
                    human,
                    elephant.0,
                    cloned@,
                    time as int,
                    hum_conns@,
                    idx as int,
                    curmax as int,
                    highest@,
                    total + turnflow,
                    turnflow + rate,
                ) == goal,
            decreases hum_conns.len() - idx,
        {
            let label = hum_conns[idx];
            if label != human.1 {
                let ghost memo_in = highest@;
                let ghost curmax_in = curmax as int;
                let sub = double_valverun(
                    (label, human.0),
                    (elephant.0, 0),
                    &cloned,
                    time - 1,
                    highest,
                    total + turnflow,
                    turnflow + rate,
                );
                proof {
                    lemma_memo_extends_trans(memo_mid, memo_in, highest@);
                }
                if sub > curmax {
                    curmax = sub;
                }
                proof {
                    assert(curmax as int == pick_max(curmax_in, sub as int));
                    assert(spec_scan_hum(
                        human,
                        elephant.0,
                        cloned@,
                        time as int,
                        hum_conns@,
                        idx as int,
                        curmax_in,
                        memo_in,
                        total + turnflow,
                        turnflow + rate,
                    ) == spec_scan_hum(
                        human,
                        elephant.0,
                        cloned@,
                        time as int,
                        hum_conns@,
                        idx + 1,
                        curmax as int,
                        highest@,
                        total + turnflow,
                        turnflow + rate,
                    ));
                }
            } else {
                proof {
                    assert(spec_scan_hum(
                        human,
                        elephant.0,
                        cloned@,
                        time as int,
                        hum_conns@,
                        idx as int,
                        curmax as int,
                        highest@,
                        total + turnflow,
                        turnflow + rate,
                    ) == spec_scan_hum(
                        human,
                        elephant.0,
                        cloned@,
                        time as int,
                        hum_conns@,
                        idx + 1,
                        curmax as int,
                        highest@,
                        total + turnflow,
                        turnflow + rate,
                    ));
                }
            }
            idx += 1;
        }
        proof {
            assert(goal == (curmax as int, highest@));
        }
    }
    // Neither has more flow available, time to walk all next paths instead
    else {
        proof {
            assert(spec_scan_pairs(
                human,
                elephant,
                valves@,
                time as int,
                hum_conns@,
                ele_conns@,
                0,
                total as int,
                memo_mid,
                total + turnflow,
                turnflow as int,
            ) == goal);
        }
        let mut hi: usize = 0;
        while hi < hum_conns.len()
            invariant
                hi <= hum_conns.len(),
                total <= curmax <= MAX_TOTAL,
                memo_extends(highest@, memo_mid),
                spec_scan_pairs(
                    human,
                    elephant,
                    valves@,
                    time as int,
                    hum_conns@,
                    ele_conns@,
                    hi as int,
                    curmax as int,
                    highest@,
                    total + turnflow,
                    turnflow as int,
                ) == goal,
            decreases hum_conns.len() - hi,
        {
            let hum_label = hum_conns[hi];
            let ghost hrem = hum_conns@.len() - hi;
            if hum_label != human.1 {
                let mut ei: usize = 0;
                while ei < ele_conns.len()
                    invariant
                        ei <= ele_conns.len(),
                        total <= curmax <= MAX_TOTAL,
                        memo_extends(highest@, memo_mid),
                        spec_scan_pairs(
                            human,
                            elephant,
                            valves@,
                            time as int,
                            hum_conns@,
                            ele_conns@,
                            hi + 1,
                            spec_scan_pair(
                                hum_label,
                                human.0,
                                elephant,
                                valves@,
                                time as int,
                                ele_conns@,
                                ei as int,
                                curmax as int,
                                highest@,
                                total + turnflow,
                                turnflow as int,
                                hrem,
                            ).0,
                            spec_scan_pair(
                                hum_label,
                                human.0,
                                elephant,
                                valves@,
                                time as int,
                                ele_conns@,
                                ei as int,
                                curmax as int,
                                highest@,
                                total + turnflow,
                                turnflow as int,
                                hrem,
                            ).1,
                            total + turnflow,
                            turnflow as int,
                        ) == goal,
                    decreases ele_conns.len() - ei,
                {
                    let ele_label = ele_conns[ei];
                    if ele_label != elephant.1 {
                        let ghost memo_in = highest@;
                        let ghost curmax_in = curmax as int;
                        let sub = double_valverun(
                            (hum_label, human.0),
                            (ele_label, elephant.0),
                            valves,
                            time - 1,
                            highest,
                            total + turnflow,
                            turnflow,
                        );
                        proof {
                            lemma_memo_extends_trans(memo_mid, memo_in, highest@);
                        }
                        if sub > curmax {
                            curmax = sub;
                        }
                        proof {
                            assert(curmax as int == pick_max(curmax_in, sub as int));
                            assert(spec_scan_pair(
                                hum_label,
                                human.0,
                                elephant,
                                valves@,
                                time as int,
                                ele_conns@,
                                ei as int,
                                curmax_in,
                                memo_in,
                                total + turnflow,
                                turnflow as int,
                                hrem,
                            ) == spec_scan_pair(
                                hum_label,
                                human.0,
                                elephant,
                                valves@,
                                time as int,
                                ele_conns@,
                                ei + 1,
                                curmax as int,
                                highest@,
                                total + turnflow,
                                turnflow as int,
                                hrem,
                            ));
                        }
                    } else {
                        proof {
                            assert(spec_scan_pair(
                                hum_label,
                                human.0,
                                elephant,
                                valves@,
                                time as int,
                                ele_conns@,
                                ei as int,
                                curmax as int,
                                highest@,
                                total + turnflow,
                                turnflow as int,
                                hrem,
                            ) == spec_scan_pair(
                                hum_label,
                                human.0,
                                elephant,
                                valves@,
                                time as int,
                                ele_conns@,
                                ei + 1,
                                curmax as int,
                                highest@,
                                total + turnflow,
                                turnflow as int,
                                hrem,
                            ));
                        }
                    }
                    ei += 1;
                }
            }
            hi += 1;
        }
        proof {
            assert(goal == (curmax as int, highest@));
        }
    }
    proof {
        lemma_memo_extends_trans(old(highest)@, memo_mid, highest@);
    }
    curmax
}

/// A decimal digit.
pub open spec fn is_digit(b: u8) -> bool {
    48 <= b <= 57
}

/// An upper-case letter.
pub open spec fn is_upper(b: u8) -> bool {
    65 <= b <= 90
}

/// The two bytes of a valve label packed big-endian.
pub open spec fn spec_label(b0: u8, b1: u8) -> u16 {
    (b0 * 256 + b1) as u16
}

/// The flow rate read from the two bytes after `rate=`: one digit when the
/// second byte is `;`, two digits otherwise.
pub open spec fn spec_rate(b0: u8, b1: u8) -> int {
    if b1 == 59 {
        b0 - 48
    } else {
        (b0 - 48) * 10 + (b1 - 48)
    }
}

/// Where the tunnel list starts. The byte at offset 48 tells the four line
/// shapes apart: `s` there means a two-digit rate and several tunnels, a
/// space a one-digit rate with several tunnels or a two-digit rate with one
/// tunnel, anything else a one-digit rate with one tunnel.
pub open spec fn spec_tunnels_start(line: Seq<u8>) -> int {
    if line[48] == 115 {
        50
    } else if line[48] == 32 {
        49
    } else {
        48
    }
}

/// A well-formed tunnel list: two-letter labels separated by `, `.
pub open spec fn wf_tail(t: Seq<u8>) -> bool {
    &&& t.len() >= 2
    &&& t.len() % 4 == 2
    &&& forall|k: int|
        0 <= k < (t.len() + 2) / 4 ==> is_upper(#[trigger] t[4 * k]) && is_upper(t[4 * k + 1])
    &&& forall|k: int|
        0 <= k < (t.len() + 2) / 4 - 1 ==> t[#[trigger] (4 * k) + 2] == 44 && t[4 * k + 3] == 32
}

/// The labels of a tunnel list.
pub open spec fn spec_conns(t: Seq<u8>) -> Seq<u16> {
    Seq::new((((t.len() + 2) / 4) as nat), |k: int| spec_label(t[4 * k], t[4 * k + 1]))
}

/// A well-formed line: long enough, a two-letter label at offset 6, a rate
/// of one or two digits at offset 23, and a well-formed tunnel list.
pub open spec fn wf_line(l: Seq<u8>) -> bool {
    &&& l.len() >= 50
    &&& is_upper(l[6]) && is_upper(l[7])
    &&& is_digit(l[23])
    &&& (is_digit(l[24]) || l[24] == 59)
    &&& wf_tail(l.skip(spec_tunnels_start(l)))
}

/// The label a line files its valve under.
pub open spec fn spec_line_label(l: Seq<u8>) -> u16 {
    spec_label(l[6], l[7])
}

/// The valve a well-formed line describes.
pub open spec fn spec_line_valve(l: Seq<u8>) -> ValveModel {
    ValveModel {
        rate: spec_rate(l[23], l[24]),
        connections: spec_conns(l.skip(spec_tunnels_start(l))),
        open: false,
    }
}

/// Length of the first line of `s`: the bytes before the first newline, or
/// all of `s` when it has none.
pub open spec fn line_len(s: Seq<u8>) -> nat
    decreases s.len(),
{
    if s.len() == 0 {
        0
    } else if s[0] == 10 {
        0
    } else {
        1 + line_len(s.skip(1))
    }
}

proof fn lemma_line_len(s: Seq<u8>)
    ensures
        line_len(s) <= s.len(),
        line_len(s) < s.len() ==> s[line_len(s) as int] == 10,
        forall|j: int| 0 <= j < line_len(s) ==> s[j] != 10,
    decreases s.len(),
{
    if s.len() == 0 {
    } else if s[0] == 10 {
    } else {
        lemma_line_len(s.skip(1));
        assert forall|j: int| 0 <= j < line_len(s) implies s[j] != 10 by {
            if j > 0 {
                assert(s.skip(1)[j - 1] != 10);
                assert(s.skip(1)[j - 1] == s[j]);
            }
        }
        if line_len(s) < s.len() {
            assert(s.skip(1)[line_len(s) - 1] == s[line_len(s) as int]);
        }
    }
}

proof fn lemma_line_len_unique(s: Seq<u8>, m: int)
    requires
        0 <= m <= s.len(),
        m < s.len() ==> s[m] == 10,
        forall|j: int| 0 <= j < m ==> s[j] != 10,
    ensures
        m == line_len(s),
{
    lemma_line_len(s);
    if m < line_len(s) {
        assert(s[m] != 10);
    }
    if line_len(s) < m {
        assert(s[line_len(s) as int] != 10);
    }
}

/// The labelled valves the input lines describe, one entry per line in order.
pub open spec fn spec_parse(s: Seq<u8>) -> Seq<(u16, ValveModel)>
    decreases s.len(),
{
    if s.len() == 0 {
        Seq::empty()
    } else {
        let n = line_len(s) as int;
        let line = s.take(n);
        let rest = if n < s.len() {
            spec_parse(s.skip(n + 1))
        } else {
            Seq::empty()
        };
        seq![(spec_line_label(line), spec_line_valve(line))] + rest
    }
}

/// Every line of the input is well formed.
pub open spec fn wf_lines(s: Seq<u8>) -> bool
    decreases s.len(),
{
    if s.len() == 0 {
        true
    } else {
        let n = line_len(s) as int;
        &&& wf_line(s.take(n))
        &&& (n < s.len() ==> wf_lines(s.skip(n + 1)))
    }
}

/// A well-formed input: every line well formed, no two lines sharing a label.
pub open spec fn wf_input(s: Seq<u8>) -> bool {
    wf_lines(s) && distinct_labels(spec_parse(s))
}

/// Parse the input after checking it, one valve per line: `None` exactly
/// when some line is malformed or two lines share a label.
#[verifier::loop_isolation(false)]
#[verifier::rlimit(100)]
#[verifier::spinoff_prover]
pub fn parse_checked(input: &str) -> (r: Option<Valves>)
    ensures
        (r is Some) <==> wf_input(input.spec_bytes()),
        (match r {
            Some(v) => v@ == spec_parse(input.spec_bytes()) && v.wf(),
            None => true,
        }),
{
    let bytes: &[u8] = input.as_bytes();
    let ghost s = input.spec_bytes();
    let n = bytes.len();
    let mut valves = Valves::new();
    let mut pos: usize = 0;
    proof {
        assert(s.skip(0) =~= s);
        assert(valves@ + spec_parse(s) =~= spec_parse(s));
    }
    while pos < n
        invariant
            pos <= n,
            spec_parse(s) == valves@ + spec_parse(s.skip(pos as int)),
            wf_lines(s) <==> wf_lines(s.skip(pos as int)),
            valves.wf(),
        decreases n - pos,
    {
        let ghost rest = s.skip(pos as int);
        // Find the end of the line.
        let mut j = pos;
        while j < n && bytes[j] != 10
            invariant
                pos <= j <= n,
                forall|p: int| pos <= p < j ==> s[p] != 10,
            decreases n - j,
        {
            j += 1;
        }
        proof {
            assert forall|q: int| 0 <= q < j - pos implies rest[q] != 10 by {
                assert(rest[q] == s[pos + q]);
            }
            if j < n {
                assert(rest[j - pos] == s[j as int]);
            }
            lemma_line_len_unique(rest, j - pos);
        }
        let llen = j - pos;
        let ghost line = rest.take(llen as int);
        proof {
            assert forall|q: int| 0 <= q < llen implies line[q] == s[pos + q] by {
                assert(line[q] == rest[q]);
            }
            assert(!(rest.len() == 0));
            assert(wf_lines(s.skip(pos as int)) ==> wf_line(line));
        }
        // Check the line's shape, refusing the input on any violation.
        if llen < 50 {
            proof {
                assert(!wf_line(line));
            }
            return None;
        }
        let b6 = bytes[pos + 6];
        let b7 = bytes[pos + 7];
        if !(b6 >= 65 && b6 <= 90 && b7 >= 65 && b7 <= 90) {
            proof {
                assert(!wf_line(line));
            }
            return None;
        }
        let r0 = bytes[pos + 23];
        let r1 = bytes[pos + 24];
        if !(r0 >= 48 && r0 <= 57) {
            proof {
                assert(!wf_line(line));
            }
            return None;
        }
        if !((r1 >= 48 && r1 <= 57) || r1 == 59) {
            proof {
                assert(!wf_line(line));
            }
            return None;
        }
        let d = bytes[pos + 48];
        let tstart: usize = if d == 115 {
            50
        } else {
            if d == 32 {
                49
            } else {
                48
            }
        };
        proof {
            assert(line[48] == s[pos + 48]);
            assert(tstart == spec_tunnels_start(line));
        }
        let tlen = llen - tstart;
        let ghost tail = line.skip(tstart as int);
        proof {
            assert(tail.len() == tlen);
            assert forall|q: int| 0 <= q < tlen implies tail[q] == s[pos + tstart + q] by {
                assert(tail[q] == line[tstart + q]);
            }
        }
        if tlen % 4 != 2 {
            proof {
                assert(!wf_tail(tail));
                assert(!wf_line(line));
            }
            return None;
        }
        let count = tlen / 4 + 1;
        proof {
            assert(count == (tail.len() + 2) / 4);
        }
        let mut conns: Vec<u16> = Vec::new();
        let mut k: usize = 0;
        while k < count
            invariant
                k <= count,
                conns@.len() == k,
                forall|q: int|
                    0 <= q < k ==> #[trigger] conns@[q] == spec_label(tail[4 * q], tail[4 * q + 1]),
                forall|q: int|
                    0 <= q < k ==> is_upper(#[trigger] tail[4 * q]) && is_upper(tail[4 * q + 1]),
                forall|q: int|
                    0 <= q < k && q < count - 1 ==> tail[#[trigger] (4 * q) + 2] == 44 && tail[4 * q
                        + 3] == 32,
            decreases count - k,
        {
            proof {
                assert(4 * k + 1 < tlen) by {
                    assert(4 * (count - 1) == tlen - 2);
                }
            }
            let c0 = bytes[pos + tstart + 4 * k];
            let c1 = bytes[pos + tstart + 4 * k + 1];
            if !(c0 >= 65 && c0 <= 90 && c1 >= 65 && c1 <= 90) {
                proof {
                    assert(tail[4 * (k as int)] == c0 && tail[4 * (k as int) + 1] == c1);
                    assert(!wf_tail(tail));
                    assert(!wf_line(line));
                }
                return None;
            }
            if k + 1 < count {
                let s0 = bytes[pos + tstart + 4 * k + 2];
                let s1 = bytes[pos + tstart + 4 * k + 3];
                if !(s0 == 44 && s1 == 32) {
                    proof {
                        assert(tail[4 * (k as int) + 2] == s0 && tail[4 * (k as int) + 3] == s1);
                        assert(!wf_tail(tail));
                        assert(!wf_line(line));
                    }
                    return None;
                }
            }
            proof {
                assert(tail[4 * (k as int)] == c0 && tail[4 * (k as int) + 1] == c1);
                if k + 1 < count {
                    assert(tail[4 * (k as int) + 2] == s[pos + tstart + 4 * (k as int) + 2]);
                    assert(tail[4 * (k as int) + 3] == s[pos + tstart + 4 * (k as int) + 3]);
                }
            }
            conns.push((c0 as u16) * 256 + (c1 as u16));
            k += 1;
        }
        proof {
            assert(wf_tail(tail));
            assert(conns@ =~= spec_conns(tail));
            assert(wf_line(line));
        }
        let rate: i64 = if r1 == 59 {
            (r0 - 48) as i64
        } else {
            ((r0 - 48) as i64) * 10 + ((r1 - 48) as i64)
        };
        let label: u16 = (b6 as u16) * 256 + (b7 as u16);
        let valve = Valve { rate, connections: conns, open: false };
        proof {
            assert(label == spec_line_label(line)) by {
                assert(line[6] == s[pos + 6] && line[7] == s[pos + 7]);
            }
            assert(valve@ == spec_line_valve(line)) by {
                assert(line[23] == s[pos + 23] && line[24] == s[pos + 24]);
            }
            // The head entry of the rest of the input is this line's entry.
            assert(spec_parse(rest) == seq![(label, valve@)] + (if llen < rest.len() {
                spec_parse(rest.skip(llen + 1))
            } else {
                Seq::<(u16, ValveModel)>::empty()
            }));
            assert(spec_parse(s)[valves@.len() as int] == (label, valve@)) by {
                assert(spec_parse(rest)[0] == (label, valve@));
            }
        }
        if valves.get(label).is_some() {
            proof {
                let i = choose|i: int| 0 <= i < valves@.len() && valves@[i].0 == label;
                assert(spec_parse(s)[i] == valves@[i]);
                assert(!distinct_labels(spec_parse(s)));
            }
            return None;
        }
        proof {
            assert(forall|i: int| 0 <= i < valves@.len() ==> (#[trigger] valves@[i]).0 != label);
        }
        valves.push_valve(label, valve);
        if j < n {
            proof {
                assert(rest.skip(llen + 1) =~= s.skip(j + 1));
                assert(spec_parse(s) == valves@ + spec_parse(s.skip(j + 1)));
                assert(wf_lines(s) <==> wf_lines(s.skip(j + 1)));
            }
            pos = j + 1;
        } else {
            proof {
                assert(spec_parse(s) =~= valves@);
                assert(wf_lines(s));
            }
            pos = n;
        }
    }
    proof {
        assert(s.skip(n as int) =~= Seq::<u8>::empty());
        assert(spec_parse(s) =~= valves@);
        assert(wf_lines(s));
        assert(distinct_labels(spec_parse(s)));
    }
    Some(valves)
}

/// Parse a well-formed input, one valve per line.
pub fn parse(input: &str) -> (valves: Valves)
    requires
        wf_input(input.spec_bytes()),
    ensures
        valves.wf(),
        valves@ == spec_parse(input.spec_bytes()),
{
    match parse_checked(input) {
        Some(v) => v,
        None => unreached(),
    }
}

/// The full search: both agents start at `AA` with 26 turns, an empty memo,
/// nothing released and no flow yet.
pub fn part_one(parsed: &Valves) -> (r: i64)
    requires
        parsed.wf(),
        closed_network(parsed@),
        has_label(parsed@, AA),
    ensures
        0 <= r <= MAX_TOTAL,
        r == spec_search((AA, 0), (AA, 0), parsed@, 26, Map::<i64, i64>::empty(), 0, 0).0,
{
    let mut highest: HashMap<i64, i64> = HashMap::new();
    double_valverun((AA, 0), (AA, 0), parsed, 26, &mut highest, 0, 0)
}

/// Parse a well-formed, searchable input and search it.
pub fn run(input: &str) -> (r: i64)
    requires
        wf_input(input.spec_bytes()),
        closed_network(spec_parse(input.spec_bytes())),
        has_label(spec_parse(input.spec_bytes()), AA),
    ensures
        0 <= r <= MAX_TOTAL,
        r == spec_search(
            (AA, 0),
            (AA, 0),
            spec_parse(input.spec_bytes()),
            26,
            Map::<i64, i64>::empty(),
            0,
            0,
        ).0,
{
    part_one(&parse(input))
}

/// `run` behind its own input checks: `None` exactly when the input is
/// malformed or its network cannot be searched.
pub fn run_checked(input: &str) -> (r: Option<i64>)
    ensures
        (r is Some) <==> (wf_input(input.spec_bytes()) && closed_network(
            spec_parse(input.spec_bytes()),
        ) && has_label(spec_parse(input.spec_bytes()), AA)),
        (match r {
            Some(v) => 0 <= v <= MAX_TOTAL && v == spec_search(
                (AA, 0),
                (AA, 0),
                spec_parse(input.spec_bytes()),
                26,
                Map::<i64, i64>::empty(),
                0,
                0,
            ).0,
            None => true,
        }),
{
    match parse_checked(input) {
        Some(valves) => {
            if valves.is_ready() {
                Some(part_one(&valves))
            } else {
                None
            }
        },
        None => None,
    }
}

} // verus!
