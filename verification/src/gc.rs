//! Garbage collection by erase/sink token propagation.
//!
//! Two collectors exist. The erase-sink collector reserves two sentinel
//! nodes, SINK (index 1) and ERASE (index 2): an edge written toward SINK
//! marks its source as sinking, an edge written from ERASE marks its target
//! as being erased; both tokens propagate through the net and free the nodes
//! they cross. The no-op collector reserves only ERASE (index 1), never
//! frees anything, and turns collection requests into plain edge rewrites.

use vstd::prelude::*;
use vstd::string::StringExecFns;

use crate::net::{null_spec, sat_inc, sv_slot, sv_update, EngineError, Net, NetV, Port, Vertex};

verus! {

/// Which garbage collector a net runs.
#[derive(Copy, Clone, Debug, PartialEq, Eq, Structural)]
pub enum GcMode {
    /// Erase/sink token propagation: dead subgraphs are freed.
    EraSink,
    /// No collection: dead subgraphs accumulate, correctness is preserved.
    NoGc,
}

/// How many reserved low indices each collector needs (ROOT included).
pub open spec fn spec_nb_special(mode: GcMode) -> usize {
    match mode {
        GcMode::EraSink => 3,
        GcMode::NoGc => 2,
    }
}

/// Index of the SINK sentinel (erase-sink collector).
pub open spec fn sink_index_spec() -> usize {
    1
}

/// The SINK vertex: the binder port of the SINK abstraction.
pub open spec fn sink_vertex_spec() -> Vertex {
    Vertex { index: 1, port: Port::Aux2 }
}

/// Index of the ERASE sentinel (erase-sink collector).
pub open spec fn erase_index_spec() -> usize {
    2
}

/// The ERASE vertex: the body port of the ERASE abstraction.
pub open spec fn erase_vertex_spec() -> Vertex {
    Vertex { index: 2, port: Port::Aux1 }
}

/// The ERASE vertex of the no-op collector (its only sentinel, at index 1).
pub open spec fn nogc_erase_vertex_spec() -> Vertex {
    Vertex { index: 1, port: Port::Aux1 }
}

/// Executable SINK vertex; see [`sink_vertex_spec`].
pub fn sink_vertex() -> (v: Vertex)
    ensures
        v == sink_vertex_spec(),
{
    Vertex { index: 1, port: Port::Aux2 }
}

/// Executable ERASE vertex; see [`erase_vertex_spec`].
pub fn erase_vertex() -> (v: Vertex)
    ensures
        v == erase_vertex_spec(),
{
    Vertex { index: 2, port: Port::Aux1 }
}

/// Executable no-op-collector ERASE vertex; see [`nogc_erase_vertex_spec`].
pub fn nogc_erase_vertex() -> (v: Vertex)
    ensures
        v == nogc_erase_vertex_spec(),
{
    Vertex { index: 1, port: Port::Aux1 }
}

/// Alive for the erase-sink collector: neither NULL nor a sentinel vertex.
pub open spec fn is_alive_spec(v: Vertex) -> bool {
    v != null_spec() && v != sink_vertex_spec() && v != erase_vertex_spec()
}

/// Check if a vertex is alive: not NULL and not one of the sentinels.
pub fn is_alive(v: Vertex) -> (r: bool)
    ensures
        r == is_alive_spec(v),
{
    let n = crate::net::null_vertex();
    v != n && v != sink_vertex() && v != erase_vertex()
}

/// State of the garbage collector, embedded in the net.
#[derive(Clone, Debug)]
pub struct GcState {
    /// Which collector runs.
    pub mode: GcMode,
    /// Vertices marked as being erased (entry points for the collector).
    pub to_erase: Vec<Vertex>,
    /// Vertices marked as sinking (entry points for the collector).
    pub to_sink: Vec<Vertex>,
    /// Nodes removed through erasing.
    pub nb_remove_erase: u64,
    /// Nodes removed through sinking.
    pub nb_remove_sink: u64,
    /// Number of erase steps run.
    pub nb_erase: u64,
    /// Number of sink steps run.
    pub nb_sink: u64,
}

impl GcState {
    /// Fresh collector state with empty queues and zeroed statistics.
    pub fn new(mode: GcMode) -> (r: GcState)
        ensures
            r.mode == mode,
            r.to_erase@.len() == 0,
            r.to_sink@.len() == 0,
            r.nb_remove_erase == 0,
            r.nb_remove_sink == 0,
            r.nb_erase == 0,
            r.nb_sink == 0,
    {
        GcState {
            mode,
            to_erase: Vec::new(),
            to_sink: Vec::new(),
            nb_remove_erase: 0,
            nb_remove_sink: 0,
            nb_erase: 0,
            nb_sink: 0,
        }
    }
}

/// Mark `tgt` as being erased: point its slot at ERASE and queue it.
/// Vertices that are not alive are left alone.
pub open spec fn sv_erase(nv: NetV, tgt: Vertex) -> NetV {
    if is_alive_spec(tgt) {
        let nv2 = sv_update(nv, tgt, erase_vertex_spec());
        NetV { to_erase: nv2.to_erase.push(tgt), ..nv2 }
    } else {
        nv
    }
}

/// Mark `src` as sinking: point its slot at SINK and queue it.
/// Vertices that are not alive are left alone.
pub open spec fn sv_sink(nv: NetV, src: Vertex) -> NetV {
    if is_alive_spec(src) {
        let nv2 = sv_update(nv, src, sink_vertex_spec());
        NetV { to_sink: nv2.to_sink.push(src), ..nv2 }
    } else {
        nv
    }
}

/// State change of the pre-edge check: in erase-sink mode, an edge toward
/// SINK sinks its source and an edge out of ERASE erases its target.
pub open spec fn sv_check_edge_state(nv: NetV, src: Vertex, tgt: Vertex) -> NetV {
    match nv.mode {
        GcMode::NoGc => nv,
        GcMode::EraSink => if tgt.index == sink_index_spec() {
            sv_sink(nv, src)
        } else if src.index == erase_index_spec() {
            sv_erase(nv, tgt)
        } else {
            nv
        },
    }
}

/// Whether the pre-edge check lets the edge be written.
pub open spec fn sv_check_edge_pass(nv: NetV, src: Vertex, tgt: Vertex) -> bool {
    match nv.mode {
        GcMode::NoGc => true,
        GcMode::EraSink => tgt.index != sink_index_spec() && src.index != erase_index_spec(),
    }
}

/// Request collection of the subgraph hanging at `v`: erase it (erase-sink
/// collector), or just rewrite the half-edge into ERASE (no-op collector).
pub open spec fn sv_to_collect(nv: NetV, v: Vertex) -> NetV {
    match nv.mode {
        GcMode::EraSink => sv_erase(nv, v),
        GcMode::NoGc => sv_update(nv, v, nogc_erase_vertex_spec()),
    }
}

/// Erasing touches only node slots and the erase queue.
pub proof fn lemma_frame_erase(nv: NetV, v: Vertex)
    ensures
        sv_erase(nv, v).avail == nv.avail,
        sv_erase(nv, v).nodes.len() == nv.nodes.len(),
        sv_erase(nv, v).mode == nv.mode,
        sv_erase(nv, v).nb_special == nv.nb_special,
        sv_erase(nv, v).next_label == nv.next_label,
{
}

/// Sinking touches only node slots and the sink queue.
pub proof fn lemma_frame_sink(nv: NetV, v: Vertex)
    ensures
        sv_sink(nv, v).avail == nv.avail,
        sv_sink(nv, v).nodes.len() == nv.nodes.len(),
        sv_sink(nv, v).mode == nv.mode,
        sv_sink(nv, v).nb_special == nv.nb_special,
        sv_sink(nv, v).next_label == nv.next_label,
{
}

/// Whether the collector may free node `index`: in bounds, not special,
/// not already freed.
pub open spec fn sv_can_remove(nv: NetV, index: usize) -> bool {
    index < nv.nodes.len() && nv.nb_special <= index && !nv.avail.contains(index)
}

/// Free a node on behalf of the eraser, counting the removal.
pub open spec fn sv_remove_erased(nv: NetV, index: usize) -> NetV {
    crate::net::sv_remove(
        NetV { nb_remove_erase: crate::net::sat_inc_spec(nv.nb_remove_erase), ..nv },
        index,
    )
}

/// Free a node on behalf of the sinker, counting the removal.
pub open spec fn sv_remove_sunk(nv: NetV, index: usize) -> NetV {
    crate::net::sv_remove(
        NetV { nb_remove_sink: crate::net::sat_inc_spec(nv.nb_remove_sink), ..nv },
        index,
    )
}

/// Exact effect of one erase step at `tgt`: the propagation table of the
/// eraser. A slot that no longer carries the ERASE token, a freed or special
/// node, or a port the token may not enter by, leaves the net unchanged
/// (but for the step tally once the token was seen).
pub open spec fn sv_run_erase(nv: NetV, tgt: Vertex) -> NetV {
    if sv_slot(nv, tgt) != erase_vertex_spec() {
        nv
    } else {
        let n1 = NetV { nb_erase: crate::net::sat_inc_spec(nv.nb_erase), ..nv };
        let ti = tgt.index;
        if !sv_can_remove(n1, ti) {
            n1
        } else {
            match n1.nodes[ti as int].kind {
                // Abstraction erased at the head: erase the body, sink the
                // binder's uses if bound, free. Erased at the binder port:
                // mark unbound, keep the node.
                crate::net::NodeKind::CstrK(crate::net::CstrK::Abs(vname, bound)) => {
                    if tgt.port == Port::Main {
                        let s1 = sv_erase(n1, sv_slot(n1, crate::net::vx(ti, Port::Aux1)));
                        let s2 = if bound {
                            sv_sink(s1, sv_slot(s1, crate::net::vx(ti, Port::Aux2)))
                        } else {
                            s1
                        };
                        sv_remove_erased(s2, ti)
                    } else if tgt.port == Port::Aux2 {
                        if bound {
                            NetV {
                                nodes: n1.nodes.update(
                                    ti as int,
                                    crate::net::Node {
                                        kind: crate::net::NodeKind::CstrK(
                                            crate::net::CstrK::Abs(vname, false),
                                        ),
                                        ..n1.nodes[ti as int]
                                    },
                                ),
                                ..n1
                            }
                        } else {
                            n1
                        }
                    } else {
                        n1
                    }
                },
                // Fan-out erased at the head: erase both auxiliaries, free.
                crate::net::NodeKind::CstrK(crate::net::CstrK::FanOut(_lbl)) => {
                    if tgt.port == Port::Main {
                        let a1 = sv_slot(n1, crate::net::vx(ti, Port::Aux1));
                        let a2 = sv_slot(n1, crate::net::vx(ti, Port::Aux2));
                        sv_remove_erased(sv_erase(sv_erase(n1, a1), a2), ti)
                    } else {
                        n1
                    }
                },
                // Application erased at its up port: erase the function and
                // the argument, free.
                crate::net::NodeKind::DstrK(crate::net::DstrK::Apply) => {
                    if tgt.port == Port::Aux1 {
                        let a0 = sv_slot(n1, crate::net::vx(ti, Port::Main));
                        let a2 = sv_slot(n1, crate::net::vx(ti, Port::Aux2));
                        sv_remove_erased(sv_erase(sv_erase(n1, a0), a2), ti)
                    } else {
                        n1
                    }
                },
                // Fan-in erased at an auxiliary: erase the main side and
                // free when the mate is erased too; a stem short-circuits
                // its live side to the main port; a labeled fan-in waits.
                crate::net::NodeKind::DstrK(crate::net::DstrK::FanIn(status)) => {
                    if tgt.port != Port::Main {
                        let op = if tgt.port == Port::Aux1 {
                            Port::Aux2
                        } else {
                            Port::Aux1
                        };
                        let other = sv_slot(n1, crate::net::vx(ti, op));
                        if other == erase_vertex_spec() {
                            sv_remove_erased(
                                sv_erase(n1, sv_slot(n1, crate::net::vx(ti, Port::Main))),
                                ti,
                            )
                        } else if is_alive_spec(other) {
                            match status {
                                crate::net::FIStatus::Labeled(_) => n1,
                                crate::net::FIStatus::Stem => sv_remove_erased(
                                    crate::net::sv_stitch_old_old(
                                        n1,
                                        crate::net::vx(ti, op),
                                        crate::net::vx(ti, Port::Main),
                                    ),
                                    ti,
                                ),
                            }
                        } else {
                            n1
                        }
                    } else {
                        n1
                    }
                },
            }
        }
    }
}

/// Exact effect of one sink step at `src`: the propagation table of the
/// sinker. Constructors absorb nothing; the benign cases mirror the
/// eraser's.
pub open spec fn sv_run_sink(nv: NetV, src: Vertex) -> NetV {
    if sv_slot(nv, src) != sink_vertex_spec() {
        nv
    } else {
        let n1 = NetV { nb_sink: crate::net::sat_inc_spec(nv.nb_sink), ..nv };
        let si = src.index;
        if !sv_can_remove(n1, si) {
            n1
        } else {
            match n1.nodes[si as int].kind {
                crate::net::NodeKind::CstrK(_) => n1,
                // Application: always sink the continuation; sunk at the
                // head the argument dies, sunk at the argument port the
                // function side dies. Free the node.
                crate::net::NodeKind::DstrK(crate::net::DstrK::Apply) => {
                    if src.port != Port::Aux1 {
                        let s1 = sv_sink(n1, sv_slot(n1, crate::net::vx(si, Port::Aux1)));
                        let s2 = if src.port == Port::Main {
                            sv_erase(s1, sv_slot(s1, crate::net::vx(si, Port::Aux2)))
                        } else {
                            sv_erase(s1, sv_slot(s1, crate::net::vx(si, Port::Main)))
                        };
                        sv_remove_sunk(s2, si)
                    } else {
                        n1
                    }
                },
                // Fan-in sunk at the head: sink both auxiliaries, free.
                crate::net::NodeKind::DstrK(crate::net::DstrK::FanIn(_status)) => {
                    if src.port == Port::Main {
                        let a1 = sv_slot(n1, crate::net::vx(si, Port::Aux1));
                        let a2 = sv_slot(n1, crate::net::vx(si, Port::Aux2));
                        sv_remove_sunk(sv_sink(sv_sink(n1, a1), a2), si)
                    } else {
                        n1
                    }
                },
            }
        }
    }
}

/// Run the eraser over the queued vertices `el`, from position `i` on.
pub open spec fn gc_fold_erase(nv: NetV, el: Seq<Vertex>, i: int) -> NetV
    decreases el.len() - i,
{
    if i < 0 || i >= el.len() {
        nv
    } else {
        gc_fold_erase(sv_run_erase(nv, el[i]), el, i + 1)
    }
}

/// Run the sinker over the queued vertices `sl`, from position `i` on.
pub open spec fn gc_fold_sink(nv: NetV, sl: Seq<Vertex>, i: int) -> NetV
    decreases sl.len() - i,
{
    if i < 0 || i >= sl.len() {
        nv
    } else {
        gc_fold_sink(sv_run_sink(nv, sl[i]), sl, i + 1)
    }
}

/// One collection round: swap the erase queue out and run the eraser over
/// the snapshot, then the same for the sink queue as it then stands.
pub open spec fn gc_round(nv: NetV) -> NetV {
    let nv1 = if nv.to_erase.len() > 0 {
        gc_fold_erase(NetV { to_erase: Seq::empty(), ..nv }, nv.to_erase, 0)
    } else {
        nv
    };
    if nv1.to_sink.len() > 0 {
        gc_fold_sink(NetV { to_sink: Seq::empty(), ..nv1 }, nv1.to_sink, 0)
    } else {
        nv1
    }
}

/// `n` collection rounds applied in order.
pub open spec fn gc_iter(nv: NetV, n: nat) -> NetV
    decreases n,
{
    if n == 0 {
        nv
    } else {
        gc_round(gc_iter(nv, (n - 1) as nat))
    }
}

/// Whether an erase step at `tgt` is legal: the slot carries the ERASE
/// token on a live, non-special node entered by a port the table allows
/// (or the token was already collected away, leaving a NULL slot). Anything
/// else is a corrupt net, where the propagation table has no row.
pub open spec fn sv_run_erase_ok(nv: NetV, tgt: Vertex) -> bool {
    let sl = sv_slot(nv, tgt);
    if sl == erase_vertex_spec() {
        let ti = tgt.index;
        if !sv_can_remove(nv, ti) {
            false
        } else {
            match nv.nodes[ti as int].kind {
                crate::net::NodeKind::CstrK(crate::net::CstrK::Abs(_n, bound)) => {
                    if tgt.port == Port::Main {
                        true
                    } else if tgt.port == Port::Aux2 {
                        bound
                    } else {
                        false
                    }
                },
                crate::net::NodeKind::CstrK(crate::net::CstrK::FanOut(_l)) => tgt.port
                    == Port::Main,
                crate::net::NodeKind::DstrK(crate::net::DstrK::Apply) => tgt.port == Port::Aux1,
                crate::net::NodeKind::DstrK(crate::net::DstrK::FanIn(_s)) => {
                    if tgt.port == Port::Main {
                        false
                    } else {
                        let op = if tgt.port == Port::Aux1 {
                            Port::Aux2
                        } else {
                            Port::Aux1
                        };
                        let other = sv_slot(nv, crate::net::vx(tgt.index, op));
                        other == erase_vertex_spec() || is_alive_spec(other)
                    }
                },
            }
        }
    } else {
        sl == null_spec()
    }
}

/// Whether a sink step at `src` is legal; constructors absorb the token as
/// a no-op, mirroring the eraser's table otherwise.
pub open spec fn sv_run_sink_ok(nv: NetV, src: Vertex) -> bool {
    let sl = sv_slot(nv, src);
    if sl == sink_vertex_spec() {
        let si = src.index;
        if !sv_can_remove(nv, si) {
            false
        } else {
            match nv.nodes[si as int].kind {
                crate::net::NodeKind::CstrK(_) => true,
                crate::net::NodeKind::DstrK(crate::net::DstrK::Apply) => src.port != Port::Aux1,
                crate::net::NodeKind::DstrK(crate::net::DstrK::FanIn(_s)) => src.port
                    == Port::Main,
            }
        }
    } else {
        sl == null_spec()
    }
}

impl Net {
    /// Mark `tgt` as being erased (erase-sink collector only).
    pub fn erase(&mut self, tgt: Vertex)
        requires
            old(self)@.mode == GcMode::EraSink,
        ensures
            final(self)@ == sv_erase(old(self)@, tgt),
    {
        if is_alive(tgt) {
            self.update_vertex(tgt, erase_vertex());
            self.gc.to_erase.push(tgt);
            proof {
                assert(self@ =~= sv_erase(old(self)@, tgt));
            }
        }
    }

    /// Mark `src` as sinking (erase-sink collector only).
    pub fn sink(&mut self, src: Vertex)
        requires
            old(self)@.mode == GcMode::EraSink,
        ensures
            final(self)@ == sv_sink(old(self)@, src),
    {
        if is_alive(src) {
            self.update_vertex(src, sink_vertex());
            self.gc.to_sink.push(src);
            proof {
                assert(self@ =~= sv_sink(old(self)@, src));
            }
        }
    }

    /// Check an edge before it is written. Returns true when the edge must
    /// be inserted; otherwise the collector has taken over.
    pub fn check_edge(&mut self, src: Vertex, tgt: Vertex) -> (r: bool)
        ensures
            final(self)@ == sv_check_edge_state(old(self)@, src, tgt),
            r == sv_check_edge_pass(old(self)@, src, tgt),
    {
        match self.gc.mode {
            GcMode::NoGc => true,
            GcMode::EraSink => {
                if tgt.get_index() == 1 {
                    self.sink(src);
                    false
                } else if src.get_index() == 2 {
                    self.erase(tgt);
                    false
                } else {
                    true
                }
            },
        }
    }

    /// Mark a vertex to be collected; collection itself may be batched.
    pub fn to_collect(&mut self, v: Vertex)
        ensures
            final(self)@ == sv_to_collect(old(self)@, v),
    {
        match self.gc.mode {
            GcMode::EraSink => self.erase(v),
            GcMode::NoGc => self.update_vertex(v, nogc_erase_vertex()),
        }
    }

    /// Whether node `index` may be freed: in bounds, not special, and not
    /// already on the free-list.
    pub fn can_remove(&self, index: usize) -> (r: bool)
        ensures
            r == (index < self@.nodes.len() && self@.nb_special <= index
                && !self@.avail.contains(index)),
    {
        index < self.nodes.len() && self.nb_special_nodes <= index
            && !self.search_available_indexes(index)
    }

    /// Run one erase step at `tgt`: propagate the erasure token through the
    /// node it marks and free what dies. A NULL slot is benign (a cycle
    /// routed the token into an already-collected node); any other step the
    /// propagation table has no row for — a foreign value in the slot, a
    /// freed or special target, a port the token may not enter by — reports
    /// the corrupt net and changes nothing more. Erase-sink collector only.
    #[verifier::rlimit(100)]
    pub fn run_erase(&mut self, tgt: Vertex) -> (r: Result<(), EngineError>)
        requires
            old(self)@.wf(),
            old(self)@.mode == GcMode::EraSink,
        ensures
            final(self)@ == sv_run_erase(old(self)@, tgt),
            (r is Ok) == sv_run_erase_ok(old(self)@, tgt),
            r matches Err(e) ==> e is Corrupt,
            crate::net::interactions_of(final(self)@) == crate::net::interactions_of(old(self)@),
            final(self)@.wf(),
            final(self)@.mode == old(self)@.mode,
            final(self)@.nb_special == old(self)@.nb_special,
            final(self)@.next_label == old(self)@.next_label,
            final(self)@.nodes.len() == old(self)@.nodes.len(),
    {
        let ghost g0 = self@;
        let sl = self.get_vertex(tgt);
        if sl != erase_vertex() {
            if sl == crate::net::null_vertex() {
                // Benign: the node holding this slot was already collected.
                return Ok(());
            }
            // A slot owed the ERASE token carries something else.
            return Err(EngineError::Corrupt);
        }
        self.gc.nb_erase = sat_inc(self.gc.nb_erase);
        let ghost g1 = self@;
        let tgt_index = tgt.get_index();
        let tgt_port = tgt.get_port();
        proof {
            assert(tgt_index < self@.nodes.len()) by {
                if tgt.index >= g0.nodes.len() {
                    assert(sv_slot(g0, tgt) == null_spec());
                }
            }
        }
        if !self.can_remove(tgt_index) {
            // An ERASE token on a freed or special node: corrupt.
            return Err(EngineError::Corrupt);
        }
        let kind = crate::net::clone_kind(&self.nodes[tgt_index].kind);
        let res: Result<(), EngineError> = match kind {
            crate::net::NodeKind::CstrK(c) => {
                match c {
                    // Abstraction, erased at the main port: erase the body,
                    // sink the binder uses if bound, free the node. Erased
                    // at the binder port: mark the abstraction unbound and
                    // keep it. The body port never carries the token.
                    crate::net::CstrK::Abs(vname, bound) => {
                        if matches!(tgt_port, Port::Main) {
                            let a1 = self.get_vertex(crate::net::mkv(tgt_index, 1));
                            self.erase(a1);
                            proof {
                                lemma_frame_erase(g1, a1);
                            }
                            if bound {
                                let ghost g2 = self@;
                                let a2 = self.get_vertex(crate::net::mkv(tgt_index, 2));
                                self.sink(a2);
                                proof {
                                    lemma_frame_sink(g2, a2);
                                }
                            }
                            self.gc.nb_remove_erase = sat_inc(self.gc.nb_remove_erase);
                            let ghost g3 = self@;
                            self.remove(tgt_index);
                            proof {
                                crate::net::lemma_avail_push(
                                    g3.avail,
                                    tgt_index,
                                    g3.nb_special,
                                    g3.nodes.len() as int,
                                );
                            }
                            Ok(())
                        } else if matches!(tgt_port, Port::Aux2) {
                            if bound {
                                self.set_kind(
                                    tgt_index,
                                    crate::net::NodeKind::CstrK(
                                        crate::net::CstrK::Abs(vname, false),
                                    ),
                                );
                                Ok(())
                            } else {
                                // Erasing through an unbound binder port.
                                Err(EngineError::Corrupt)
                            }
                        } else {
                            // The body port never carries the token.
                            Err(EngineError::Corrupt)
                        }
                    },
                    // Fan-out, erased at the main port: erase both
                    // auxiliaries and free the node.
                    crate::net::CstrK::FanOut(_lbl) => {
                        if matches!(tgt_port, Port::Main) {
                            let a1 = self.get_vertex(crate::net::mkv(tgt_index, 1));
                            let a2 = self.get_vertex(crate::net::mkv(tgt_index, 2));
                            self.erase(a1);
                            proof {
                                lemma_frame_erase(g1, a1);
                            }
                            let ghost g2 = self@;
                            self.erase(a2);
                            proof {
                                lemma_frame_erase(g2, a2);
                            }
                            self.gc.nb_remove_erase = sat_inc(self.gc.nb_remove_erase);
                            let ghost g3 = self@;
                            self.remove(tgt_index);
                            proof {
                                crate::net::lemma_avail_push(
                                    g3.avail,
                                    tgt_index,
                                    g3.nb_special,
                                    g3.nodes.len() as int,
                                );
                            }
                            Ok(())
                        } else {
                            // A fan-out is erased only through its head.
                            Err(EngineError::Corrupt)
                        }
                    },
                }
            },
            crate::net::NodeKind::DstrK(d) => {
                match d {
                    // Application, erased at its up port: erase the function
                    // and the argument, free the node.
                    crate::net::DstrK::Apply => {
                        if matches!(tgt_port, Port::Aux1) {
                            let a0 = self.get_vertex(crate::net::mkv(tgt_index, 0));
                            let a2 = self.get_vertex(crate::net::mkv(tgt_index, 2));
                            self.erase(a0);
                            proof {
                                lemma_frame_erase(g1, a0);
                            }
                            let ghost g2 = self@;
                            self.erase(a2);
                            proof {
                                lemma_frame_erase(g2, a2);
                            }
                            self.gc.nb_remove_erase = sat_inc(self.gc.nb_remove_erase);
                            let ghost g3 = self@;
                            self.remove(tgt_index);
                            proof {
                                crate::net::lemma_avail_push(
                                    g3.avail,
                                    tgt_index,
                                    g3.nb_special,
                                    g3.nodes.len() as int,
                                );
                            }
                            Ok(())
                        } else {
                            // An application is erased only through its up port.
                            Err(EngineError::Corrupt)
                        }
                    },
                    // Fan-in, erased at an auxiliary port: when the mate is
                    // also being erased, erase the main side and free; a stem
                    // fan-in short-circuits its live side to the main port; a
                    // labeled fan-in waits for its mate.
                    crate::net::DstrK::FanIn(status) => {
                        if !matches!(tgt_port, Port::Main) {
                            let other_port: u8 = if matches!(tgt_port, Port::Aux1) {
                                2
                            } else {
                                1
                            };
                            let other = self.get_vertex(crate::net::mkv(tgt_index, other_port));
                            if other == erase_vertex() {
                                let a0 = self.get_vertex(crate::net::mkv(tgt_index, 0));
                                self.erase(a0);
                                proof {
                                    lemma_frame_erase(g1, a0);
                                }
                                self.gc.nb_remove_erase = sat_inc(self.gc.nb_remove_erase);
                                let ghost g3 = self@;
                                self.remove(tgt_index);
                                proof {
                                    crate::net::lemma_avail_push(
                                        g3.avail,
                                        tgt_index,
                                        g3.nb_special,
                                        g3.nodes.len() as int,
                                    );
                                }
                                Ok(())
                            } else if is_alive(other) {
                                match status {
                                    crate::net::FIStatus::Labeled(_) => {
                                        // Wait for the mate to be erased too.
                                        Ok(())
                                    },
                                    crate::net::FIStatus::Stem => {
                                        self.stitch_old_old(
                                            crate::net::mkv(tgt_index, other_port),
                                            Vertex::new(tgt_index, Port::Main),
                                        );
                                        proof {
                                            crate::net::lemma_frame_stitch(
                                                g1,
                                                crate::net::vx(
                                                    tgt_index,
                                                    crate::net::port_of(other_port as int),
                                                ),
                                                crate::net::vx(tgt_index, Port::Main),
                                            );
                                        }
                                        self.gc.nb_remove_erase = sat_inc(
                                            self.gc.nb_remove_erase,
                                        );
                                        let ghost g3 = self@;
                                        self.remove(tgt_index);
                                        proof {
                                            crate::net::lemma_avail_push(
                                                g3.avail,
                                                tgt_index,
                                                g3.nb_special,
                                                g3.nodes.len() as int,
                                            );
                                        }
                                        Ok(())
                                    },
                                }
                            } else {
                                // The mate is NULL or sinking: no table row.
                                Err(EngineError::Corrupt)
                            }
                        } else {
                            // A fan-in is never erased through its main port.
                            Err(EngineError::Corrupt)
                        }
                    },
                }
            },
        };
        proof {
            assert(self@ == sv_run_erase(g0, tgt));
            assert((res is Ok) == sv_run_erase_ok(g0, tgt));
        }
        res
    }

    /// Run one sink step at `src`: propagate the sink token through the
    /// node it marks and free what dies. Constructors absorb the token as a
    /// no-op and a NULL slot is a benign leftover of a cycle; any other step
    /// the propagation table has no row for reports the corrupt net.
    /// Erase-sink collector only.
    #[verifier::rlimit(100)]
    pub fn run_sink(&mut self, src: Vertex) -> (r: Result<(), EngineError>)
        requires
            old(self)@.wf(),
            old(self)@.mode == GcMode::EraSink,
        ensures
            final(self)@ == sv_run_sink(old(self)@, src),
            (r is Ok) == sv_run_sink_ok(old(self)@, src),
            r matches Err(e) ==> e is Corrupt,
            crate::net::interactions_of(final(self)@) == crate::net::interactions_of(old(self)@),
            final(self)@.wf(),
            final(self)@.mode == old(self)@.mode,
            final(self)@.nb_special == old(self)@.nb_special,
            final(self)@.next_label == old(self)@.next_label,
            final(self)@.nodes.len() == old(self)@.nodes.len(),
    {
        let ghost g0 = self@;
        let sl = self.get_vertex(src);
        if sl != sink_vertex() {
            if sl == crate::net::null_vertex() {
                // Benign: the node holding this slot was already collected.
                return Ok(());
            }
            // A slot owed the SINK token carries something else.
            return Err(EngineError::Corrupt);
        }
        self.gc.nb_sink = sat_inc(self.gc.nb_sink);
        let ghost g1 = self@;
        let src_index = src.get_index();
        let src_port = src.get_port();
        proof {
            assert(src_index < self@.nodes.len()) by {
                if src.index >= g0.nodes.len() {
                    assert(sv_slot(g0, src) == null_spec());
                }
            }
        }
        if !self.can_remove(src_index) {
            // A SINK token on a freed or special node: corrupt.
            return Err(EngineError::Corrupt);
        }
        let kind = crate::net::clone_kind(&self.nodes[src_index].kind);
        let res: Result<(), EngineError> = match kind {
            crate::net::NodeKind::CstrK(_c) => {
                // Constructors absorb the token without effect.
                Ok(())
            },
            crate::net::NodeKind::DstrK(d) => {
                match d {
                    // Application: always sink the continuation; sunk at the
                    // main port the argument dies, sunk at the argument port
                    // the function side dies. Free the node.
                    crate::net::DstrK::Apply => {
                        if !matches!(src_port, Port::Aux1) {
                            let a1 = self.get_vertex(crate::net::mkv(src_index, 1));
                            self.sink(a1);
                            proof {
                                lemma_frame_sink(g1, a1);
                            }
                            let ghost g2 = self@;
                            if matches!(src_port, Port::Main) {
                                let a2 = self.get_vertex(crate::net::mkv(src_index, 2));
                                self.erase(a2);
                                proof {
                                    lemma_frame_erase(g2, a2);
                                }
                            } else {
                                let a0 = self.get_vertex(crate::net::mkv(src_index, 0));
                                self.erase(a0);
                                proof {
                                    lemma_frame_erase(g2, a0);
                                }
                            }
                            self.gc.nb_remove_sink = sat_inc(self.gc.nb_remove_sink);
                            let ghost g3 = self@;
                            self.remove(src_index);
                            proof {
                                crate::net::lemma_avail_push(
                                    g3.avail,
                                    src_index,
                                    g3.nb_special,
                                    g3.nodes.len() as int,
                                );
                            }
                            Ok(())
                        } else {
                            // An application is never sunk through its up port.
                            Err(EngineError::Corrupt)
                        }
                    },
                    // Fan-in, sunk at the main port: sink both auxiliaries
                    // and free the node.
                    crate::net::DstrK::FanIn(_status) => {
                        if matches!(src_port, Port::Main) {
                            let a1 = self.get_vertex(crate::net::mkv(src_index, 1));
                            let a2 = self.get_vertex(crate::net::mkv(src_index, 2));
                            self.sink(a1);
                            proof {
                                lemma_frame_sink(g1, a1);
                            }
                            let ghost g2 = self@;
                            self.sink(a2);
                            proof {
                                lemma_frame_sink(g2, a2);
                            }
                            self.gc.nb_remove_sink = sat_inc(self.gc.nb_remove_sink);
                            let ghost g3 = self@;
                            self.remove(src_index);
                            proof {
                                crate::net::lemma_avail_push(
                                    g3.avail,
                                    src_index,
                                    g3.nb_special,
                                    g3.nodes.len() as int,
                                );
                            }
                            Ok(())
                        } else {
                            // A fan-in is sunk only through its main port.
                            Err(EngineError::Corrupt)
                        }
                    },
                }
            },
        };
        proof {
            assert(self@ == sv_run_sink(g0, src));
            assert((res is Ok) == sv_run_sink_ok(g0, src));
        }
        res
    }

    /// Drain the collection queues to a fixpoint, swapping the queues out
    /// before each round so the workers may enqueue more. Running on a net
    /// with no enqueued tokens changes nothing. On success the net equals
    /// some number of model rounds applied to the start state, and that
    /// number falls short only when a budget no physical run can exhaust
    /// ran out, which the returned flag reports. A step the propagation
    /// table has no row for stops the drain and reports the corrupt net.
    #[verifier::rlimit(100)]
    pub fn do_gc(&mut self) -> (r: Result<bool, EngineError>)
        requires
            old(self)@.wf(),
        ensures
            final(self)@.wf(),
            final(self)@.mode == old(self)@.mode,
            final(self)@.nb_special == old(self)@.nb_special,
            final(self)@.next_label == old(self)@.next_label,
            final(self)@.nodes.len() == old(self)@.nodes.len(),
            crate::net::interactions_of(final(self)@) == crate::net::interactions_of(old(self)@),
            r matches Err(e) ==> e is Corrupt,
            (match r {
                Result::Ok(drained) => {
                    &&& drained == (final(self)@.to_erase.len() == 0 && final(self)@.to_sink.len()
                        == 0)
                    &&& exists|n: nat|
                        final(self)@ == gc_iter(old(self)@, n) && (!drained ==> n
                            >= usize::MAX as nat)
                },
                Result::Err(_) => true,
            }),
            old(self)@.to_erase.len() == 0 && old(self)@.to_sink.len() == 0 ==> final(self)@
                == old(self)@ && r == Result::<bool, EngineError>::Ok(true),
    {
        match self.gc.mode {
            GcMode::NoGc => {
                proof {
                    assert(self@ == gc_iter(old(self)@, 0));
                }
            },
            GcMode::EraSink => {
                let mut rounds: usize = usize::MAX;
                let mut done_exec: usize = 0;
                while !(self.gc.to_erase.len() == 0 && self.gc.to_sink.len() == 0) && rounds > 0
                    invariant
                        self@.wf(),
                        self@.mode == GcMode::EraSink,
                        old(self)@.mode == GcMode::EraSink,
                        self@.nb_special == old(self)@.nb_special,
                        self@.next_label == old(self)@.next_label,
                        self@.nodes.len() == old(self)@.nodes.len(),
                        crate::net::interactions_of(self@) == crate::net::interactions_of(
                            old(self)@,
                        ),
                        old(self)@.to_erase.len() == 0 && old(self)@.to_sink.len() == 0
                            ==> self@ == old(self)@,
                        self@ == gc_iter(old(self)@, done_exec as nat),
                        done_exec + rounds == usize::MAX,
                    decreases rounds,
                {
                    let ghost gr = self@;
                    if self.gc.to_erase.len() > 0 {
                        let erase_list = self.gc.to_erase.split_off(0);
                        let ghost gs = self@;
                        proof {
                            assert(erase_list@ =~= gr.to_erase);
                            assert(gs == (NetV { to_erase: Seq::empty(), ..gr })) by {
                                assert(gs.to_erase =~= Seq::<Vertex>::empty());
                                assert(gs =~= NetV { to_erase: Seq::empty(), ..gr });
                            }
                            assert(gc_fold_erase(gs, erase_list@, 0) == gc_fold_erase(
                                self@,
                                erase_list@,
                                0,
                            ));
                        }
                        let mut k: usize = 0;
                        while k < erase_list.len()
                            invariant
                                self@.wf(),
                                self@.mode == GcMode::EraSink,
                                old(self)@.mode == GcMode::EraSink,
                                self@.nb_special == old(self)@.nb_special,
                                self@.next_label == old(self)@.next_label,
                                self@.nodes.len() == old(self)@.nodes.len(),
                                crate::net::interactions_of(self@) == crate::net::interactions_of(
                                    old(self)@,
                                ),
                                k <= erase_list.len(),
                                !(old(self)@.to_erase.len() == 0 && old(self)@.to_sink.len()
                                    == 0),
                                gc_fold_erase(gs, erase_list@, 0) == gc_fold_erase(
                                    self@,
                                    erase_list@,
                                    k as int,
                                ),
                            decreases erase_list.len() - k,
                        {
                            match self.run_erase(erase_list[k]) {
                                Err(e) => {
                                    return Err(e);
                                },
                                Ok(()) => {},
                            }
                            k = k + 1;
                        }
                        proof {
                            assert(self@ == gc_fold_erase(gs, erase_list@, 0));
                        }
                    }
                    if self.gc.to_sink.len() > 0 {
                        let ghost gt = self@;
                        let sink_list = self.gc.to_sink.split_off(0);
                        let ghost gu = NetV { to_sink: Seq::empty(), ..gt };
                        proof {
                            assert(sink_list@ =~= gt.to_sink);
                            assert(self@ == gu) by {
                                assert(self@.to_sink =~= Seq::<Vertex>::empty());
                                assert(self@ =~= gu);
                            }
                            assert(gc_fold_sink(gu, sink_list@, 0) == gc_fold_sink(
                                self@,
                                sink_list@,
                                0,
                            ));
                        }
                        let mut k: usize = 0;
                        while k < sink_list.len()
                            invariant
                                self@.wf(),
                                self@.mode == GcMode::EraSink,
                                old(self)@.mode == GcMode::EraSink,
                                self@.nb_special == old(self)@.nb_special,
                                self@.next_label == old(self)@.next_label,
                                self@.nodes.len() == old(self)@.nodes.len(),
                                crate::net::interactions_of(self@) == crate::net::interactions_of(
                                    old(self)@,
                                ),
                                k <= sink_list.len(),
                                !(old(self)@.to_erase.len() == 0 && old(self)@.to_sink.len()
                                    == 0),
                                gc_fold_sink(gu, sink_list@, 0) == gc_fold_sink(
                                    self@,
                                    sink_list@,
                                    k as int,
                                ),
                            decreases sink_list.len() - k,
                        {
                            match self.run_sink(sink_list[k]) {
                                Err(e) => {
                                    return Err(e);
                                },
                                Ok(()) => {},
                            }
                            k = k + 1;
                        }
                        proof {
                            assert(self@ == gc_fold_sink(gu, sink_list@, 0));
                        }
                    }
                    rounds = rounds - 1;
                    done_exec = done_exec + 1;
                    proof {
                        assert(self@ == gc_round(gr));
                        assert(self@ == gc_iter(old(self)@, done_exec as nat));
                    }
                }
            },
        }
        let drained = self.gc.to_erase.len() == 0 && self.gc.to_sink.len() == 0;
        Ok(drained)
    }

    /// Collector lines of the statistics report. The text itself is not
    /// part of any contract; the net is left untouched.
    pub fn get_stats(&self) -> String {
        let mut res = String::new();
        match self.gc.mode {
            GcMode::NoGc => {
                res.append("GC                   : none\n");
            },
            GcMode::EraSink => {
                res.append("GC removed           : ");
                let total = crate::net::sat_add(self.gc.nb_remove_erase, self.gc.nb_remove_sink);
                let n1 = crate::text::u64_to_string(total);
                res.append(n1.as_str());
                res.append("\n    Erase                : ");
                let n2 = crate::text::u64_to_string(self.gc.nb_remove_erase);
                res.append(n2.as_str());
                res.append("\n    Sink                 : ");
                let n3 = crate::text::u64_to_string(self.gc.nb_remove_sink);
                res.append(n3.as_str());
                res.append("\nGC calls             : ");
                let calls = crate::net::sat_add(self.gc.nb_erase, self.gc.nb_sink);
                let n4 = crate::text::u64_to_string(calls);
                res.append(n4.as_str());
                res.append("\n");
            },
        }
        res
    }

    /// Total number of nodes the collector removed.
    pub fn get_nb_collected(&self) -> (r: u64)
        ensures
            r == crate::net::sat_add_spec(self@.nb_remove_erase, self@.nb_remove_sink),
    {
        crate::net::sat_add(self.gc.nb_remove_erase, self.gc.nb_remove_sink)
    }
}

} // verus!
