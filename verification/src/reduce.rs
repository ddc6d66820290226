//! Reduction drivers. The lazy reducer stops at a weak-head normal form,
//! keeping a stack of pending destructors so no whole-graph search is needed
//! per step. The full reducer normalises under constructors, keeping a
//! history stack of the descent path and pairing fans by their labels.
//!
//! Both drivers see the same rewrite rules; they differ only in which redex
//! they pick next. An optional step credit bounds the number of
//! interactions: the driver then stops after exactly that many, leaving the
//! net well-formed and re-entrant.

use vstd::prelude::*;

use crate::compactor::{compact, Compactor, Interval};
use crate::net::{
    clone_kind, interactions_of, lemma_interact_tally, mkv, root_spec, root_vertex, sv_slot, vx,
    CstrK, DstrK, EngineError, Label, Net, NetV, NodeKind, Port, Vertex,
};

verus! {

/// Why a reduction run came to rest.
#[derive(Copy, Clone, Debug, PartialEq, Eq, Structural)]
pub enum ReduceStop {
    /// No interaction is owed any more: the root reached a constructor or
    /// the walk blocked on an abstraction's binder.
    Finished,
    /// The step credit ran out; the net is well-formed and re-entrant.
    OutOfCredit,
}

/// Outcome of a reduction run: why it stopped and how many interactions
/// fired during this run.
#[derive(Copy, Clone, Debug, PartialEq, Eq, Structural)]
pub struct ReduceOutcome {
    pub stop: ReduceStop,
    pub steps: usize,
}

/// Saturating successor on machine words, for the step tally.
pub open spec fn usat_inc_spec(c: usize) -> usize {
    if c < usize::MAX {
        (c + 1) as usize
    } else {
        c
    }
}

fn usat_inc(c: usize) -> (r: usize)
    ensures
        r == usat_inc_spec(c),
{
    if c < usize::MAX {
        c + 1
    } else {
        c
    }
}

impl Net {
    /// The compaction policy: fire when more than half of the arena is free.
    pub fn should_compact(&self) -> (r: bool)
        ensures
            r == (2 * self@.avail.len() > self@.nodes.len()),
    {
        self.available_indexes.len() > self.nodes.len() / 2
    }
}

/// A constructor heads the net: the root's expression slot reaches a live
/// constructor node, so the net is in weak-head normal form.
pub open spec fn cstr_at_root(nv: NetV) -> bool {
    let rv = sv_slot(nv, root_spec());
    &&& rv.index < nv.nodes.len()
    &&& !nv.avail.contains(rv.index)
    &&& nv.nodes[rv.index as int].kind is CstrK
}

/// The destructor at `d` is blocked: its main port reaches a live
/// constructor at an auxiliary port (an abstraction's binder), so the
/// continuation waits on a value and no interaction is owed there.
pub open spec fn blocked_at(nv: NetV, d: usize) -> bool {
    let t = sv_slot(nv, vx(d, Port::Main));
    &&& t.index < nv.nodes.len()
    &&& nv.nodes[t.index as int].kind is CstrK
    &&& t.port != Port::Main
}

/// The lazy (weak-head) reducer: its stack of pending destructors persists
/// across runs, so reduction resumes where it stopped.
pub struct LazyReducer {
    /// Pending destructors: index and the kind recorded when it was pushed.
    pub stack: Vec<(usize, DstrK)>,
    /// Whether the reducer may compact the arena between interactions.
    pub compaction: bool,
}

/// Build a lazy reducer, stopping on a weak-head normal form. It follows a
/// leftmost-outermost strategy and stops as soon as a non-redex heads the
/// net: if the term is a lambda, its body is not analysed.
pub fn get_reducer_lazy(compaction: bool) -> (r: LazyReducer)
    ensures
        r.stack@.len() == 0,
        r.compaction == compaction,
{
    LazyReducer { stack: Vec::new(), compaction }
}

impl LazyReducer {
    /// Reduce until a weak-head normal form, or until `credit` interactions
    /// have fired (when `test_credit` is set). `steps` in the outcome counts
    /// the interactions of this run: a run that stops for want of credit
    /// performed exactly `credit` of them. A net that breaks the structural
    /// invariants is reported instead of acted on, as is label exhaustion.
    #[verifier::rlimit(100)]
    pub fn run(&mut self, net: &mut Net, test_credit: bool, credit: usize) -> (r: Result<
        ReduceOutcome,
        EngineError,
    >)
        requires
            old(net)@.wf(),
        ensures
            final(net)@.wf(),
            final(net)@.mode == old(net)@.mode,
            final(net)@.nb_special == old(net)@.nb_special,
            final(net)@.next_label >= old(net)@.next_label,
            test_credit ==> (r matches Ok(o) ==> o.steps <= credit && (o.stop
                == ReduceStop::OutOfCredit ==> o.steps == credit)),
            (r matches Ok(o) && o.stop == ReduceStop::OutOfCredit) ==> test_credit,
            r == Result::<ReduceOutcome, EngineError>::Err(EngineError::LabelsExhausted)
                ==> final(net)@.next_label == Label::MAX,
            r matches Ok(o) ==> (o.steps < usize::MAX && interactions_of(old(net)@) + o.steps
                < u64::MAX ==> interactions_of(final(net)@) == interactions_of(old(net)@)
                + o.steps),
            (r matches Ok(o) && o.stop == ReduceStop::Finished) ==> cstr_at_root(final(net)@) || (
            final(self).stack@.len() > 0 && blocked_at(
                final(net)@,
                final(self).stack@.last().0,
            )),
    {
        let mut steps: usize = 0;
        let mut cred = credit;
        let mut fuel: usize = usize::MAX;
        while fuel > 0
            invariant
                net@.wf(),
                net@.mode == old(net)@.mode,
                net@.nb_special == old(net)@.nb_special,
                net@.next_label >= old(net)@.next_label,
                test_credit ==> steps + cred == credit,
                steps < usize::MAX && interactions_of(old(net)@) + steps < u64::MAX
                    ==> interactions_of(net@) == interactions_of(old(net)@) + steps,
            decreases fuel,
        {
            fuel = fuel - 1;
            if test_credit && cred == 0 {
                return Ok(ReduceOutcome { stop: ReduceStop::OutOfCredit, steps });
            }
            let popped = self.stack.pop();
            match popped {
                // Empty stack: look at what the root is plugged into.
                None => {
                    let rv = net.follow(root_vertex());
                    let index = rv.get_index();
                    if !(index < net.nodes.len()) {
                        return Err(EngineError::Corrupt);
                    }
                    if net.search_available_indexes(index) {
                        return Err(EngineError::Corrupt);
                    }
                    match &net.get_node(index).kind {
                        NodeKind::CstrK(_) => {
                            // A constructor heads the net: weak-head normal form.
                            proof {
                                assert(cstr_at_root(net@));
                            }
                            return Ok(ReduceOutcome { stop: ReduceStop::Finished, steps });
                        },
                        NodeKind::DstrK(d) => {
                            let d = *d;
                            self.stack.push((index, d));
                        },
                    }
                },
                // Check the main port of the pending destructor.
                Some(head) => {
                    let (destr_index, destr_kind) = head;
                    if !net.can_remove(destr_index) {
                        return Err(EngineError::Corrupt);
                    }
                    let tv = net.follow(Vertex::main(destr_index));
                    let tgt_index = tv.get_index();
                    let tgt_port = tv.get_port();
                    if !(tgt_index < net.nodes.len()) {
                        return Err(EngineError::Corrupt);
                    }
                    let tgt_kind = clone_kind(&net.get_node(tgt_index).kind);
                    match tgt_kind {
                        NodeKind::CstrK(c) => {
                            if matches!(tgt_port, Port::Main) {
                                // Main to main: a redex.
                                if !net.can_remove(tgt_index) || tgt_index == destr_index {
                                    return Err(EngineError::Corrupt);
                                }
                                if net.next_label == Label::MAX {
                                    return Err(EngineError::LabelsExhausted);
                                }
                                if test_credit {
                                    cred = cred - 1;
                                }
                                steps = usat_inc(steps);
                                let ghost ck = c;
                                let ghost g_pre = net@;
                                net.interact(destr_index, destr_kind, tgt_index, c);
                                proof {
                                    if interactions_of(g_pre) < u64::MAX {
                                        lemma_interact_tally(
                                            g_pre,
                                            destr_index,
                                            destr_kind,
                                            tgt_index,
                                            ck,
                                        );
                                    }
                                }
                                match net.do_gc() {
                                    Err(e) => {
                                        return Err(e);
                                    },
                                    Ok(_) => {},
                                }
                                if self.compaction && net.should_compact() && net.gc.to_erase.len()
                                    == 0 && net.gc.to_sink.len() == 0 {
                                    let mut cptr = Interval::new();
                                    cptr.init(net);
                                    match compact(&cptr, net) {
                                        Err(e) => {
                                            return Err(e);
                                        },
                                        Ok(()) => {},
                                    }
                                    let remapped = remap_stack(&cptr, &self.stack);
                                    match remapped {
                                        None => {
                                            return Err(EngineError::Corrupt);
                                        },
                                        Some(ns) => {
                                            self.stack = ns;
                                        },
                                    }
                                }
                            } else {
                                // Blocked on an abstraction's auxiliary port:
                                // the continuation waits on a value. Stop.
                                self.stack.push(head);
                                proof {
                                    assert(self.stack@.last().0 == destr_index);
                                    assert(blocked_at(net@, destr_index));
                                }
                                return Ok(ReduceOutcome { stop: ReduceStop::Finished, steps });
                            }
                        },
                        // Another destructor: descend to expose the deeper
                        // redex first.
                        NodeKind::DstrK(d2) => {
                            self.stack.push(head);
                            self.stack.push((tgt_index, d2));
                        },
                    }
                },
            }
        }
        // An astronomically long walk without coming to rest: report the net
        // as corrupt rather than spin forever.
        Err(EngineError::Corrupt)
    }
}

/// Where `k` sits among the skip counters, scanning from the front; -1 when
/// absent.
pub open spec fn sk_find(s: Seq<(Label, u64)>, k: Label) -> int
    decreases s.len(),
{
    if s.len() == 0 {
        -1
    } else if s[0].0 == k {
        0
    } else {
        let r = sk_find(s.subrange(1, s.len() as int), k);
        if r < 0 {
            -1
        } else {
            r + 1
        }
    }
}

/// Raise the skip counter of `k`: bump the existing entry, or open one at 1.
pub open spec fn sk_bump(s: Seq<(Label, u64)>, k: Label) -> Seq<(Label, u64)> {
    let p = sk_find(s, k);
    if p < 0 {
        s.push((k, 1))
    } else {
        s.update(p, (k, crate::net::sat_inc_spec(s[p].1)))
    }
}

/// The fan-pairing walk: scan the history from its top, raising a label's
/// counter at every fan-out, lowering it at every labeled fan-in that is
/// being skipped, and answering with the entry port of the first unskipped
/// fan-in that carries the wanted label. Entries whose node lies outside the
/// arena are passed over.
pub open spec fn mf_spec(
    nv: crate::net::NetV,
    l: Label,
    hist: Seq<(Vertex, NodeKind)>,
    skips: Seq<(Label, u64)>,
) -> Option<Port>
    decreases hist.len(),
{
    if hist.len() == 0 {
        None
    } else {
        let v = hist.last().0;
        let rest = hist.drop_last();
        if v.index >= nv.nodes.len() {
            mf_spec(nv, l, rest, skips)
        } else {
            match nv.nodes[v.index as int].kind {
                NodeKind::CstrK(CstrK::FanOut(l2)) => mf_spec(nv, l, rest, sk_bump(skips, l2)),
                NodeKind::DstrK(DstrK::FanIn(crate::net::FIStatus::Labeled(l2))) => {
                    let p = sk_find(skips, l2);
                    if p < 0 || skips[p].1 == 0 {
                        if l2 == l {
                            Some(v.port)
                        } else {
                            mf_spec(nv, l, rest, skips)
                        }
                    } else {
                        mf_spec(nv, l, rest, skips.update(p, (l2, (skips[p].1 - 1) as u64)))
                    }
                },
                _ => mf_spec(nv, l, rest, skips),
            }
        }
    }
}

/// The position of label `l` among the skip counters, if present.
fn find_skip(lab_skip: &Vec<(Label, u64)>, l: Label) -> (r: Option<usize>)
    ensures
        r matches Some(pos) ==> sk_find(lab_skip@, l) == pos as int && pos < lab_skip@.len()
            && lab_skip@[pos as int].0 == l,
        r is None ==> sk_find(lab_skip@, l) < 0,
{
    proof {
        assert(lab_skip@.subrange(0, lab_skip@.len() as int) =~= lab_skip@);
    }
    let mut t: usize = 0;
    while t < lab_skip.len()
        invariant
            t <= lab_skip@.len(),
            sk_find(lab_skip@, l) == if sk_find(
                lab_skip@.subrange(t as int, lab_skip@.len() as int),
                l,
            ) < 0 {
                -1
            } else {
                sk_find(lab_skip@.subrange(t as int, lab_skip@.len() as int), l) + t
            },
        decreases lab_skip@.len() - t,
    {
        let ghost tail = lab_skip@.subrange(t as int, lab_skip@.len() as int);
        proof {
            assert(tail[0] == lab_skip@[t as int]);
            assert(tail.subrange(1, tail.len() as int) =~= lab_skip@.subrange(
                t + 1,
                lab_skip@.len() as int,
            ));
        }
        if lab_skip[t].0 == l {
            return Some(t);
        }
        t = t + 1;
    }
    proof {
        assert(lab_skip@.subrange(lab_skip@.len() as int, lab_skip@.len() as int)
            =~= Seq::<(Label, u64)>::empty());
    }
    None
}

/// Raise the skip counter of `l`, creating it at one if absent.
fn bump_skip(lab_skip: &mut Vec<(Label, u64)>, l: Label)
    ensures
        final(lab_skip)@ == sk_bump(old(lab_skip)@, l),
{
    let found = find_skip(lab_skip, l);
    match found {
        Some(pos) => {
            let n = lab_skip[pos].1;
            lab_skip[pos] = (l, crate::net::sat_inc(n));
        },
        None => {
            lab_skip.push((l, 1));
        },
    }
}

/// Pair a fan-out of label `fan_out_l` against the descent history: walk the
/// history backwards keeping one skip counter per label; every fan-out seen
/// raises its label's counter, every labeled fan-in with a raised counter
/// lowers it and is passed over, and the first unskipped fan-in carrying the
/// wanted label answers with the port it was entered by.
pub fn get_matching_fan(
    net: &Net,
    fan_out_l: Label,
    history: &Vec<(Vertex, NodeKind)>,
) -> (r: Option<Port>)
    ensures
        r == mf_spec(net@, fan_out_l, history@, Seq::<(Label, u64)>::empty()),
{
    let mut lab_skip: Vec<(Label, u64)> = Vec::new();
    let mut j: usize = history.len();
    proof {
        assert(history@.subrange(0, history@.len() as int) =~= history@);
    }
    while j > 0
        invariant
            j <= history@.len(),
            mf_spec(net@, fan_out_l, history@, Seq::<(Label, u64)>::empty()) == mf_spec(
                net@,
                fan_out_l,
                history@.subrange(0, j as int),
                lab_skip@,
            ),
        decreases j,
    {
        let ghost pre = history@.subrange(0, j as int);
        proof {
            assert(pre.last() == history@[j - 1]);
            assert(pre.drop_last() =~= history@.subrange(0, j - 1));
        }
        j = j - 1;
        let v = history[j].0;
        let vi = v.get_index();
        if vi < net.nodes.len() {
            let k = clone_kind(&net.get_node(vi).kind);
            match k {
                NodeKind::CstrK(CstrK::FanOut(l)) => {
                    bump_skip(&mut lab_skip, l);
                },
                NodeKind::DstrK(DstrK::FanIn(crate::net::FIStatus::Labeled(l))) => {
                    let found = find_skip(&lab_skip, l);
                    match found {
                        None => {
                            if l == fan_out_l {
                                return Some(v.get_port());
                            }
                        },
                        Some(pos) => {
                            let nb = lab_skip[pos].1;
                            if nb == 0 {
                                if l == fan_out_l {
                                    return Some(v.get_port());
                                }
                            } else {
                                lab_skip[pos] = (l, nb - 1);
                            }
                        },
                    }
                },
                _ => {},
            }
        }
    }
    proof {
        assert(history@.subrange(0, 0) =~= Seq::<(Vertex, NodeKind)>::empty());
    }
    None
}

/// What the walk to the next destructor yields in the model.
pub ghost enum LocOut {
    /// The walk crossed a freed or dangling slot, entered a node by a port
    /// the discipline forbids, or met a fan-out it cannot pair.
    Stuck,
    /// The walk ended at an abstraction's binder port: no destructor owed.
    NoDestructor,
    /// A destructor frame: the vertex it was reached by and its kind.
    Found(Vertex, NodeKind),
}

/// Result of the model walk: the outcome and the history it leaves (each
/// crossed abstraction or fan-out is recorded).
pub ghost struct LocRes {
    pub out: LocOut,
    pub hist: Seq<(Vertex, NodeKind)>,
}

/// The model of the descent to the next destructor: follow `base`, cross
/// abstractions into their bodies and fan-outs through the fan-in that
/// `mf_spec` pairs them with, stop at a destructor or at a binder port.
pub open spec fn locate_spec(
    nv: NetV,
    hist: Seq<(Vertex, NodeKind)>,
    base: Vertex,
    fuel: nat,
) -> LocRes
    decreases fuel,
{
    if fuel == 0 {
        LocRes { out: LocOut::Stuck, hist }
    } else {
        let next_v = sv_slot(nv, base);
        let ni = next_v.index;
        if ni >= nv.nodes.len() || nv.avail.contains(ni) {
            LocRes { out: LocOut::Stuck, hist }
        } else {
            match nv.nodes[ni as int].kind {
                NodeKind::CstrK(CstrK::Abs(_s, _b)) => match next_v.port {
                    Port::Main => locate_spec(
                        nv,
                        hist.push((next_v, nv.nodes[ni as int].kind)),
                        vx(ni, Port::Aux1),
                        (fuel - 1) as nat,
                    ),
                    Port::Aux2 => LocRes { out: LocOut::NoDestructor, hist },
                    Port::Aux1 => LocRes { out: LocOut::Stuck, hist },
                },
                NodeKind::CstrK(CstrK::FanOut(l)) => {
                    if next_v.port != Port::Main {
                        LocRes { out: LocOut::Stuck, hist }
                    } else {
                        match mf_spec(nv, l, hist, Seq::empty()) {
                            Option::None => LocRes { out: LocOut::Stuck, hist },
                            Option::Some(p) => locate_spec(
                                nv,
                                hist.push((next_v, nv.nodes[ni as int].kind)),
                                vx(ni, p),
                                (fuel - 1) as nat,
                            ),
                        }
                    }
                },
                NodeKind::DstrK(d) => LocRes {
                    out: LocOut::Found(next_v, NodeKind::DstrK(d)),
                    hist,
                },
            }
        }
    }
}

/// Walk down from `base` through constructors to the next destructor,
/// recording each crossed abstraction and fan-out on the history. Crossing a
/// fan-out turns through the matching fan-in found on the history; an
/// abstraction reached at its binder port means no destructor is owed here.
/// A fan-out that cannot be paired, or a walk through a freed or dangling
/// slot, reports a corrupt net. Result and final history are exactly the
/// model walk's.
#[verifier::rlimit(100)]
pub fn locate_next_destructor(
    net: &Net,
    history: &mut Vec<(Vertex, NodeKind)>,
    base: Vertex,
) -> (r: Result<Option<(Vertex, NodeKind)>, EngineError>)
    requires
        net@.wf(),
    ensures
        r matches Err(e) ==> e is Corrupt,
        final(history)@ == locate_spec(net@, old(history)@, base, usize::MAX as nat).hist,
        (match r {
            Result::Err(_) => locate_spec(net@, old(history)@, base, usize::MAX as nat).out
                is Stuck,
            Result::Ok(None) => locate_spec(net@, old(history)@, base, usize::MAX as nat).out
                is NoDestructor,
            Result::Ok(Some(vk)) => locate_spec(net@, old(history)@, base, usize::MAX as nat).out
                == LocOut::Found(vk.0, vk.1),
        }),
        r matches Ok(Some(vk)) ==> vk.1 is DstrK,
{
    let mut cur = base;
    let mut fuel: usize = usize::MAX;
    proof {
        assert(locate_spec(net@, old(history)@, base, usize::MAX as nat) == locate_spec(
            net@,
            history@,
            cur,
            fuel as nat,
        ));
    }
    while fuel > 0
        invariant
            net@.wf(),
            locate_spec(net@, old(history)@, base, usize::MAX as nat) == locate_spec(
                net@,
                history@,
                cur,
                fuel as nat,
            ),
        decreases fuel,
    {
        let ghost pre_hist = history@;
        let ghost pre_base = cur;
        let ghost pre_fuel = fuel as nat;
        fuel = fuel - 1;
        let next_v = net.follow(cur);
        let next_i = next_v.get_index();
        let next_p = next_v.get_port();
        if !(next_i < net.nodes.len()) {
            return Err(EngineError::Corrupt);
        }
        if net.search_available_indexes(next_i) {
            return Err(EngineError::Corrupt);
        }
        let k = clone_kind(&net.get_node(next_i).kind);
        match k {
            NodeKind::CstrK(CstrK::Abs(s, b)) => {
                match next_p {
                    Port::Main => {
                        // Enter by the head, continue into the body.
                        history.push((next_v, NodeKind::CstrK(CstrK::Abs(s, b))));
                        cur = mkv(next_i, 1);
                        proof {
                            assert(locate_spec(net@, pre_hist, pre_base, pre_fuel) == locate_spec(
                                net@,
                                history@,
                                cur,
                                fuel as nat,
                            ));
                        }
                    },
                    Port::Aux2 => {
                        // The binder port: nothing to reduce below here.
                        proof {
                            assert(locate_spec(net@, pre_hist, pre_base, pre_fuel).out
                                is NoDestructor);
                        }
                        return Ok(None);
                    },
                    Port::Aux1 => {
                        // Arriving at an abstraction from its body side
                        // breaks the port discipline.
                        proof {
                            assert(locate_spec(net@, pre_hist, pre_base, pre_fuel).out is Stuck);
                        }
                        return Err(EngineError::Corrupt);
                    },
                }
            },
            NodeKind::CstrK(CstrK::FanOut(l)) => {
                if !matches!(next_p, Port::Main) {
                    proof {
                        assert(locate_spec(net@, pre_hist, pre_base, pre_fuel).out is Stuck);
                    }
                    return Err(EngineError::Corrupt);
                }
                match get_matching_fan(net, l, history) {
                    None => {
                        // Fan pairing failed: the sharing structure is broken.
                        proof {
                            assert(locate_spec(net@, pre_hist, pre_base, pre_fuel).out is Stuck);
                        }
                        return Err(EngineError::Corrupt);
                    },
                    Some(p) => {
                        history.push((next_v, NodeKind::CstrK(CstrK::FanOut(l))));
                        cur = Vertex::new(next_i, p);
                        proof {
                            assert(locate_spec(net@, pre_hist, pre_base, pre_fuel) == locate_spec(
                                net@,
                                history@,
                                cur,
                                fuel as nat,
                            ));
                        }
                    },
                }
            },
            NodeKind::DstrK(d) => {
                proof {
                    assert(locate_spec(net@, pre_hist, pre_base, pre_fuel).out == LocOut::Found(
                        next_v,
                        NodeKind::DstrK(d),
                    ));
                }
                return Ok(Some((next_v, NodeKind::DstrK(d))));
            },
        }
    }
    Err(EngineError::Corrupt)
}

/// The full reducer: its history stack of the descent path persists across
/// runs, so normalisation resumes where it stopped.
pub struct FullReducer {
    /// The descent path: each frame is the vertex a node was entered by and
    /// the kind recorded then.
    pub history: Vec<(Vertex, NodeKind)>,
    /// Whether the reducer may compact the arena between interactions.
    pub compaction: bool,
}

/// Build a full reducer: unlike the lazy one it normalises under
/// constructors, dereferencing through fans according to their labels. It is
/// still not a strict evaluator: an argument is not reduced before its
/// function.
pub fn get_reducer_full(compaction: bool) -> (r: FullReducer)
    ensures
        r.history@.len() == 0,
        r.compaction == compaction,
{
    FullReducer { history: Vec::new(), compaction }
}

impl FullReducer {
    /// Reduce to normal form, or until `credit` interactions have fired
    /// (when `test_credit` is set). `steps` in the outcome counts the
    /// interactions of this run: a run that stops for want of credit
    /// performed exactly `credit` of them. A net that breaks the structural
    /// invariants is reported instead of acted on, as is label exhaustion.
    #[verifier::rlimit(100)]
    pub fn run(&mut self, net: &mut Net, test_credit: bool, credit: usize) -> (r: Result<
        ReduceOutcome,
        EngineError,
    >)
        requires
            old(net)@.wf(),
        ensures
            final(net)@.wf(),
            final(net)@.mode == old(net)@.mode,
            final(net)@.nb_special == old(net)@.nb_special,
            final(net)@.next_label >= old(net)@.next_label,
            test_credit ==> (r matches Ok(o) ==> o.steps <= credit && (o.stop
                == ReduceStop::OutOfCredit ==> o.steps == credit)),
            (r matches Ok(o) && o.stop == ReduceStop::OutOfCredit) ==> test_credit,
            r == Result::<ReduceOutcome, EngineError>::Err(EngineError::LabelsExhausted)
                ==> final(net)@.next_label == Label::MAX,
            r matches Ok(o) ==> (o.steps < usize::MAX && interactions_of(old(net)@) + o.steps
                < u64::MAX ==> interactions_of(final(net)@) == interactions_of(old(net)@)
                + o.steps),
            (r matches Ok(o) && o.stop == ReduceStop::Finished) ==> (locate_spec(
                final(net)@,
                Seq::empty(),
                root_spec(),
                usize::MAX as nat,
            ).out is NoDestructor && final(self).history@ == locate_spec(
                final(net)@,
                Seq::empty(),
                root_spec(),
                usize::MAX as nat,
            ).hist) || (final(self).history@.len() == 0 && exists|d: usize|
                blocked_at(final(net)@, d)),
    {
        let mut steps: usize = 0;
        let mut cred = credit;
        let mut fuel: usize = usize::MAX;
        while fuel > 0
            invariant
                net@.wf(),
                net@.mode == old(net)@.mode,
                net@.nb_special == old(net)@.nb_special,
                net@.next_label >= old(net)@.next_label,
                test_credit ==> steps + cred == credit,
                steps < usize::MAX && interactions_of(old(net)@) + steps < u64::MAX
                    ==> interactions_of(net@) == interactions_of(old(net)@) + steps,
            decreases fuel,
        {
            fuel = fuel - 1;
            if test_credit && cred == 0 {
                return Ok(ReduceOutcome { stop: ReduceStop::OutOfCredit, steps });
            }
            let popped = self.history.pop();
            match popped {
                // Empty history: locate the next destructor from the root.
                None => {
                    proof {
                        assert(self.history@ =~= Seq::<(Vertex, NodeKind)>::empty());
                    }
                    match locate_next_destructor(net, &mut self.history, root_vertex()) {
                        Err(e) => {
                            return Err(e);
                        },
                        Ok(None) => {
                            // A full search from the root found no
                            // destructor: normal form, as far as the walk
                            // model can see.
                            return Ok(ReduceOutcome { stop: ReduceStop::Finished, steps });
                        },
                        Ok(Some(vk)) => {
                            self.history.push(vk);
                        },
                    }
                },
                Some(head) => {
                    let index = head.0.get_index();
                    if !net.can_remove(index) {
                        return Err(EngineError::Corrupt);
                    }
                    let kind = clone_kind(&net.get_node(index).kind);
                    match kind {
                        // A crossed constructor frame: nothing to do here.
                        NodeKind::CstrK(_) => {},
                        // A destructor: chase its main port.
                        NodeKind::DstrK(d) => {
                            let target_v = net.follow(Vertex::main(index));
                            let target_i = target_v.get_index();
                            let target_p = target_v.get_port();
                            if !(target_i < net.nodes.len()) {
                                return Err(EngineError::Corrupt);
                            }
                            let tkind = clone_kind(&net.get_node(target_i).kind);
                            match tkind {
                                NodeKind::CstrK(c) => {
                                    if matches!(target_p, Port::Main) {
                                        // Main to main: a redex.
                                        if !net.can_remove(target_i) || target_i == index {
                                            return Err(EngineError::Corrupt);
                                        }
                                        if net.next_label == Label::MAX {
                                            return Err(EngineError::LabelsExhausted);
                                        }
                                        if test_credit {
                                            cred = cred - 1;
                                        }
                                        steps = usat_inc(steps);
                                        let ghost ck = c;
                                        let ghost g_pre = net@;
                                        net.interact(index, d, target_i, c);
                                        proof {
                                            if interactions_of(g_pre) < u64::MAX {
                                                lemma_interact_tally(g_pre, index, d, target_i, ck);
                                            }
                                        }
                                        match net.do_gc() {
                                            Err(e) => {
                                                return Err(e);
                                            },
                                            Ok(_) => {},
                                        }
                                        if self.compaction && net.should_compact()
                                            && net.gc.to_erase.len() == 0 && net.gc.to_sink.len()
                                            == 0 {
                                            let mut cptr = Interval::new();
                                            cptr.init(net);
                                            match compact(&cptr, net) {
                                                Err(e) => {
                                                    return Err(e);
                                                },
                                                Ok(()) => {},
                                            }
                                            let remapped = remap_history(&cptr, &self.history);
                                            match remapped {
                                                None => {
                                                    return Err(EngineError::Corrupt);
                                                },
                                                Some(nh) => {
                                                    self.history = nh;
                                                },
                                            }
                                        }
                                    } else {
                                        // Blocked on an abstraction's binder:
                                        // backtrack to an application frame
                                        // and descend into its argument.
                                        if matches!(c, CstrK::FanOut(_)) {
                                            return Err(EngineError::Corrupt);
                                        }
                                        if !matches!(target_p, Port::Aux2) {
                                            return Err(EngineError::Corrupt);
                                        }
                                        self.history.push(head);
                                        proof {
                                            assert(blocked_at(net@, index));
                                        }
                                        let bt = self.backtrack(net);
                                        match bt {
                                            Err(e) => {
                                                return Err(e);
                                            },
                                            Ok(false) => {
                                                return Ok(
                                                    ReduceOutcome {
                                                        stop: ReduceStop::Finished,
                                                        steps,
                                                    },
                                                );
                                            },
                                            Ok(true) => {},
                                        }
                                    }
                                },
                                // Another destructor: chase its own target
                                // first.
                                NodeKind::DstrK(d2) => {
                                    self.history.push(head);
                                    self.history.push((target_v, NodeKind::DstrK(d2)));
                                },
                            }
                        },
                    }
                },
            }
        }
        // An astronomically long walk without coming to rest: report the net
        // as corrupt rather than spin forever.
        Err(EngineError::Corrupt)
    }

    /// Pop frames until an application is found, then try to locate a
    /// destructor below its argument; give up (Ok(false)) when the history
    /// runs dry.
    fn backtrack(&mut self, net: &Net) -> (r: Result<bool, EngineError>)
        requires
            net@.wf(),
        ensures
            r matches Err(e) ==> e is Corrupt,
            r == Result::<bool, EngineError>::Ok(false) ==> final(self).history@.len() == 0,
    {
        let mut fuel: usize = usize::MAX;
        while fuel > 0
            invariant
                net@.wf(),
            decreases fuel,
        {
            fuel = fuel - 1;
            let popped = self.history.pop();
            match popped {
                None => {
                    return Ok(false);
                },
                Some((v, k)) => {
                    let hl = self.history.len();
                    let i2 = v.get_index();
                    if !(i2 < net.nodes.len()) {
                        return Err(EngineError::Corrupt);
                    }
                    match k {
                        NodeKind::DstrK(DstrK::Apply) => {
                            match locate_next_destructor(net, &mut self.history, mkv(i2, 2)) {
                                Err(e) => {
                                    return Err(e);
                                },
                                Ok(None) => {
                                    // Nothing below this argument: drop what
                                    // the walk recorded and keep popping.
                                    self.history.truncate(hl);
                                },
                                Ok(Some(c2)) => {
                                    self.history.push(c2);
                                    return Ok(true);
                                },
                            }
                        },
                        _ => {},
                    }
                },
            }
        }
        Err(EngineError::Corrupt)
    }
}

/// Remap a history stack through a compaction, or report a stale entry.
fn remap_history<C: Compactor>(cptr: &C, history: &Vec<(Vertex, NodeKind)>) -> (r: Option<
    Vec<(Vertex, NodeKind)>,
>)
    requires
        cptr.valid(),
    ensures
        r matches Some(nh) ==> nh@.len() == history@.len(),
{
    let mut nh: Vec<(Vertex, NodeKind)> = Vec::new();
    let mut j: usize = 0;
    while j < history.len()
        invariant
            cptr.valid(),
            j <= history@.len(),
            nh@.len() == j,
        decreases history@.len() - j,
    {
        let v = history[j].0;
        let k = clone_kind(&history[j].1);
        if !cptr.is_live(v.get_index()) {
            return None;
        }
        nh.push((cptr.adjust_v(v), k));
        j = j + 1;
    }
    Some(nh)
}

/// Remap a destructor stack through a compaction, or report a stale entry.
fn remap_stack<C: Compactor>(cptr: &C, stack: &Vec<(usize, DstrK)>) -> (r: Option<
    Vec<(usize, DstrK)>,
>)
    requires
        cptr.valid(),
    ensures
        r matches Some(ns) ==> ns@.len() == stack@.len(),
{
    let mut ns: Vec<(usize, DstrK)> = Vec::new();
    let mut j: usize = 0;
    while j < stack.len()
        invariant
            cptr.valid(),
            j <= stack@.len(),
            ns@.len() == j,
        decreases stack@.len() - j,
    {
        let (si, sd) = stack[j];
        if !cptr.is_live(si) {
            return None;
        }
        ns.push((cptr.adjust_i(si), sd));
        j = j + 1;
    }
    Some(ns)
}

} // verus!
