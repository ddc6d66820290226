//! The interaction net: an arena of 3-port nodes with doubly-linked edges,
//! a free-list of recycled indices, and a monotonic label counter.
//!
//! Every mutating primitive has an exact postcondition phrased with the
//! `sv_*` spec functions over the net's mathematical view [`NetV`], so that
//! the interaction rules compose into an exact description of the rewrite.

use vstd::prelude::*;
use vstd::string::StringExecFns;

use crate::gc::{GcMode, GcState, spec_nb_special, sv_check_edge_pass, sv_check_edge_state};

verus! {

/// Type of a sharing label.
pub type Label = u64;

/// Status of a fan-in node: already part of a sharing (labeled) or latent.
#[derive(Copy, Clone, Debug, PartialEq, Eq, Structural)]
pub enum FIStatus {
    /// Labeled fan-in: part of a sharing.
    Labeled(Label),
    /// Stem fan-in: can start a new sharing.
    Stem,
}

impl FIStatus {
    /// True iff this status pairs with a fan-out carrying `fan_out_label`.
    pub fn is_matching(&self, fan_out_label: Label) -> (r: bool)
        ensures
            r == (*self == FIStatus::Labeled(fan_out_label)),
    {
        match self {
            FIStatus::Labeled(l) => *l == fan_out_label,
            FIStatus::Stem => false,
        }
    }
}

/// Constructor kinds.
#[derive(Clone, Debug, PartialEq, Eq)]
pub enum CstrK {
    /// Abstraction: variable name and whether the binder port is in use.
    Abs(String, bool),
    /// Fan-out: the output side of a sharing, carrying its label.
    FanOut(Label),
}

/// Destructor kinds.
#[derive(Copy, Clone, Debug, PartialEq, Eq, Structural)]
pub enum DstrK {
    /// Application.
    Apply,
    /// Fan-in: either a stem node or one side of a sharing.
    FanIn(FIStatus),
}

/// Kind of a node: constructor or destructor. Interactions only happen
/// between a destructor and a constructor meeting main port to main port.
#[derive(Clone, Debug, PartialEq, Eq)]
pub enum NodeKind {
    CstrK(CstrK),
    DstrK(DstrK),
}

/// One of the three ports of a node.
#[derive(Copy, Clone, Debug, PartialEq, Eq, Hash, Structural)]
pub enum Port {
    Main,
    Aux1,
    Aux2,
}

/// A vertex is one slot of one node: a node index and a port.
#[derive(Copy, Clone, Debug, PartialEq, Eq, Hash, Structural)]
pub struct Vertex {
    pub index: usize,
    pub port: Port,
}

/// The NULL vertex `(0, Main)`: "no edge". Index 0 is the ROOT node, whose
/// main port is never used, so the aliasing is harmless.
pub open spec fn null_spec() -> Vertex {
    Vertex { index: 0, port: Port::Main }
}

/// The root vertex `(0, Aux1)`: the expression tree is plugged there.
pub open spec fn root_spec() -> Vertex {
    Vertex { index: 0, port: Port::Aux1 }
}

/// Executable NULL vertex; see [`null_spec`].
pub fn null_vertex() -> (v: Vertex)
    ensures
        v == null_spec(),
{
    Vertex { index: 0, port: Port::Main }
}

/// Executable root vertex; see [`root_spec`].
pub fn root_vertex() -> (v: Vertex)
    ensures
        v == root_spec(),
{
    Vertex { index: 0, port: Port::Aux1 }
}

/// Port from its conventional number: 0 is Main, 1 is Aux1, 2 is Aux2.
pub open spec fn port_of(p: int) -> Port {
    if p == 0 {
        Port::Main
    } else if p == 1 {
        Port::Aux1
    } else {
        Port::Aux2
    }
}

impl Vertex {
    /// Create a new vertex.
    pub fn new(index: usize, port: Port) -> (v: Vertex)
        ensures
            v == (Vertex { index, port }),
    {
        Vertex { index, port }
    }

    /// The main vertex of a node.
    pub fn main(index: usize) -> (v: Vertex)
        ensures
            v == (Vertex { index, port: Port::Main }),
    {
        Vertex { index, port: Port::Main }
    }

    /// Get the index of a vertex.
    pub fn get_index(&self) -> (r: usize)
        ensures
            r == self.index,
    {
        self.index
    }

    /// Get the port of a vertex.
    pub fn get_port(&self) -> (r: Port)
        ensures
            r == self.port,
    {
        self.port
    }

    /// Deconstruct a vertex into an (index, port) pair.
    pub fn as_tuple(&self) -> (r: (usize, Port))
        ensures
            r == (self.index, self.port),
    {
        (self.index, self.port)
    }
}

/// Create a vertex from an index and a port number (0, 1 or 2).
pub fn mkv(index: usize, port: u8) -> (v: Vertex)
    requires
        port < 3,
    ensures
        v == (Vertex { index, port: port_of(port as int) }),
{
    let p = if port == 0 {
        Port::Main
    } else if port == 1 {
        Port::Aux1
    } else {
        Port::Aux2
    };
    Vertex { index, port: p }
}

/// A node: a kind and its three outgoing half-edges.
#[derive(Clone, Debug, PartialEq, Eq)]
pub struct Node {
    pub kind: NodeKind,
    pub main: Vertex,
    pub aux1: Vertex,
    pub aux2: Vertex,
}

impl Node {
    /// The half-edge stored at port `p`.
    pub open spec fn slot_spec(self, p: Port) -> Vertex {
        match p {
            Port::Main => self.main,
            Port::Aux1 => self.aux1,
            Port::Aux2 => self.aux2,
        }
    }

    /// This node with the slot at `p` replaced by `v`.
    pub open spec fn with_slot(self, p: Port, v: Vertex) -> Node {
        match p {
            Port::Main => Node { main: v, ..self },
            Port::Aux1 => Node { aux1: v, ..self },
            Port::Aux2 => Node { aux2: v, ..self },
        }
    }

    /// This node with all three slots set to NULL (the freed-slot marker).
    pub open spec fn cleared(self) -> Node {
        Node { kind: self.kind, main: null_spec(), aux1: null_spec(), aux2: null_spec() }
    }

    /// True iff all three slots are NULL.
    pub open spec fn is_cleared_spec(self) -> bool {
        self.main == null_spec() && self.aux1 == null_spec() && self.aux2 == null_spec()
    }

    /// Read the slot at port `p`.
    pub fn slot(&self, p: Port) -> (v: Vertex)
        ensures
            v == self.slot_spec(p),
    {
        match p {
            Port::Main => self.main,
            Port::Aux1 => self.aux1,
            Port::Aux2 => self.aux2,
        }
    }

    /// True iff all three slots are NULL (the node was freed).
    pub fn is_cleared(&self) -> (r: bool)
        ensures
            r == self.is_cleared_spec(),
    {
        let n = null_vertex();
        self.main == n && self.aux1 == n && self.aux2 == n
    }
}

/// Copy a node kind; the copy is equal to the original.
pub fn clone_kind(k: &NodeKind) -> (r: NodeKind)
    ensures
        r == *k,
{
    match k {
        NodeKind::CstrK(CstrK::Abs(s, b)) => NodeKind::CstrK(CstrK::Abs(s.clone(), *b)),
        NodeKind::CstrK(CstrK::FanOut(l)) => NodeKind::CstrK(CstrK::FanOut(*l)),
        NodeKind::DstrK(d) => NodeKind::DstrK(*d),
    }
}

/// Errors the engine reports instead of failing loudly: a net that breaks
/// the structural invariants mid-run, or a label space that ran out.
#[derive(Copy, Clone, Debug, PartialEq, Eq, Structural)]
pub enum EngineError {
    /// A structural invariant of the net does not hold (a dangling or freed
    /// index where a live node was owed, or a fan that cannot be paired).
    Corrupt,
    /// The label counter reached its ceiling; no fresh sharing label exists.
    LabelsExhausted,
}

/// Saturating successor, used for the statistics counters.
pub open spec fn sat_inc_spec(c: u64) -> u64 {
    if c < u64::MAX {
        (c + 1) as u64
    } else {
        c
    }
}

/// Saturating addition, used for the statistics counters.
pub open spec fn sat_add_spec(a: u64, b: u64) -> u64 {
    if a + b <= u64::MAX {
        (a + b) as u64
    } else {
        u64::MAX
    }
}

/// Executable saturating successor.
pub fn sat_inc(c: u64) -> (r: u64)
    ensures
        r == sat_inc_spec(c),
{
    if c < u64::MAX {
        c + 1
    } else {
        c
    }
}

/// Executable saturating addition.
pub fn sat_add(a: u64, b: u64) -> (r: u64)
    ensures
        r == sat_add_spec(a, b),
{
    if a <= u64::MAX - b {
        a + b
    } else {
        u64::MAX
    }
}

/// Well-formedness of a free-list: pairwise-distinct indices, all in
/// bounds and none of them special.
pub open spec fn avail_inv(avail: Seq<usize>, special: usize, len: int) -> bool {
    &&& forall|i: int| 0 <= i < avail.len() ==> special <= #[trigger] avail[i] < len
    &&& forall|i: int, j: int| 0 <= i < j < avail.len() ==> avail[i] != avail[j]
}

/// Mathematical view of a whole net, including the GC state and statistics.
#[verifier::ext_equal]
pub ghost struct NetV {
    pub next_label: Label,
    pub nodes: Seq<Node>,
    pub avail: Seq<usize>,
    pub mode: GcMode,
    pub to_erase: Seq<Vertex>,
    pub to_sink: Seq<Vertex>,
    pub nb_special: usize,
    pub max_node_len: usize,
    pub nb_used: u64,
    pub nb_reused: u64,
    pub nb_remove_inter: u64,
    pub nb_appabs: u64,
    pub nb_appfou: u64,
    pub nb_finabs: u64,
    pub nb_finfou_a: u64,
    pub nb_finfou_d: u64,
    pub nb_remove_erase: u64,
    pub nb_remove_sink: u64,
    pub nb_erase: u64,
    pub nb_sink: u64,
}

impl NetV {
    /// Well-formedness of the arena bookkeeping: the free-list holds
    /// pairwise-distinct, in-bounds, non-special indices; the special nodes
    /// exist; labels start at 1; a no-op GC never queues anything.
    pub open spec fn wf(self) -> bool {
        &&& self.nb_special == spec_nb_special(self.mode)
        &&& self.nodes.len() >= self.nb_special
        &&& avail_inv(self.avail, self.nb_special, self.nodes.len() as int)
        &&& self.next_label >= 1
        &&& (self.mode == GcMode::NoGc ==> self.to_erase.len() == 0 && self.to_sink.len() == 0)
    }

    /// A freed index: one that sits in the free-list.
    pub open spec fn is_freed(self, index: usize) -> bool {
        self.avail.contains(index)
    }

    /// A live node: in bounds and not freed.
    pub open spec fn is_live(self, index: usize) -> bool {
        index < self.nodes.len() && !self.is_freed(index)
    }

    /// Bidirectional-edge invariant: every non-NULL slot of a live node that
    /// points at a live node is pointed back at from there.
    pub open spec fn bidirectional(self) -> bool {
        forall|i: usize, p: Port|
            self.is_live(i) && #[trigger] self.nodes[i as int].slot_spec(p) != null_spec()
                && self.is_live(self.nodes[i as int].slot_spec(p).index) ==> {
                let v = self.nodes[i as int].slot_spec(p);
                self.nodes[v.index as int].slot_spec(v.port) == (Vertex { index: i, port: p })
            }
    }
}

/// The slot stored at vertex `v`, or NULL if `v` is out of bounds.
pub open spec fn sv_slot(nv: NetV, v: Vertex) -> Vertex {
    if v.index < nv.nodes.len() {
        nv.nodes[v.index as int].slot_spec(v.port)
    } else {
        null_spec()
    }
}

/// Overwrite the slot at `src` with `tgt` (no-op when out of bounds).
pub open spec fn sv_update(nv: NetV, src: Vertex, tgt: Vertex) -> NetV {
    if src.index < nv.nodes.len() {
        NetV {
            nodes: nv.nodes.update(
                src.index as int,
                nv.nodes[src.index as int].with_slot(src.port, tgt),
            ),
            ..nv
        }
    } else {
        nv
    }
}

/// Write both halves of the edge `src -> tgt`.
pub open spec fn sv_create_edge_raw(nv: NetV, src: Vertex, tgt: Vertex) -> NetV {
    sv_update(sv_update(nv, src, tgt), tgt, src)
}

/// Create an edge, letting the GC intercept writes that reach its
/// sentinel nodes.
pub open spec fn sv_create_edge(nv: NetV, src: Vertex, tgt: Vertex) -> NetV {
    let checked = sv_check_edge_state(nv, src, tgt);
    if sv_check_edge_pass(nv, src, tgt) {
        sv_create_edge_raw(checked, src, tgt)
    } else {
        checked
    }
}

/// Stitch between two nodes that are both about to be freed.
pub open spec fn sv_stitch_old_old(nv: NetV, src: Vertex, tgt: Vertex) -> NetV {
    sv_create_edge(nv, sv_slot(nv, src), sv_slot(nv, tgt))
}

/// Stitch from an old (to be freed) vertex to a new one.
pub open spec fn sv_stitch_old_new(nv: NetV, src: Vertex, tgt: Vertex) -> NetV {
    sv_create_edge(nv, sv_slot(nv, src), tgt)
}

/// Stitch from a new vertex to an old (to be freed) one.
pub open spec fn sv_stitch_new_old(nv: NetV, src: Vertex, tgt: Vertex) -> NetV {
    sv_create_edge(nv, src, sv_slot(nv, tgt))
}

/// The index the next allocation returns: recycled if possible, fresh else.
pub open spec fn sv_new_node_i(nv: NetV) -> usize {
    if nv.avail.len() > 0 {
        nv.avail.last()
    } else {
        nv.nodes.len() as usize
    }
}

/// Allocate a node of the given kind with NULL slots, recycling a freed
/// index when the free-list is non-empty.
pub open spec fn sv_new_node_v(nv: NetV, kind: NodeKind) -> NetV {
    let nn = Node { kind, main: null_spec(), aux1: null_spec(), aux2: null_spec() };
    if nv.avail.len() > 0 {
        NetV {
            nodes: nv.nodes.update(nv.avail.last() as int, nn),
            avail: nv.avail.drop_last(),
            nb_used: sat_inc_spec(nv.nb_used),
            nb_reused: sat_inc_spec(nv.nb_reused),
            ..nv
        }
    } else {
        NetV { nodes: nv.nodes.push(nn), nb_used: sat_inc_spec(nv.nb_used), ..nv }
    }
}

/// Free a node: clear its slots and push its index on the free-list.
pub open spec fn sv_remove(nv: NetV, index: usize) -> NetV {
    NetV {
        nodes: nv.nodes.update(index as int, nv.nodes[index as int].cleared()),
        avail: nv.avail.push(index),
        ..nv
    }
}

/// Free the two nodes of a finished interaction and count the removals.
pub open spec fn sv_clean_inter(nv: NetV, did: usize, cid: usize) -> NetV {
    let nv2 = sv_remove(sv_remove(nv, did), cid);
    NetV { nb_remove_inter: sat_add_spec(nv.nb_remove_inter, 2), ..nv2 }
}

/// The network: node arena, free-list, label counter, GC state, statistics.
#[derive(Clone, Debug)]
pub struct Net {
    /// Next available sharing label.
    pub next_label: Label,
    /// Home of the nodes.
    pub nodes: Vec<Node>,
    /// Indices of freed nodes, available for recycling.
    pub available_indexes: Vec<usize>,
    /// Garbage-collector state.
    pub gc: GcState,
    /// Number of reserved low indices (ROOT and the GC sentinels).
    pub nb_special_nodes: usize,
    /// Maximum length reached by the node arena.
    pub max_node_len: usize,
    /// Total number of node allocations.
    pub nb_used: u64,
    /// How many allocations recycled a freed index.
    pub nb_reused: u64,
    /// Nodes removed by interactions.
    pub nb_remove_inter: u64,
    /// Number of Apply-Abs interactions.
    pub nb_appabs: u64,
    /// Number of Apply-FanOut interactions.
    pub nb_appfou: u64,
    /// Number of FanIn-Abs interactions.
    pub nb_finabs: u64,
    /// Number of FanIn-FanOut annihilations.
    pub nb_finfou_a: u64,
    /// Number of FanIn-FanOut duplications.
    pub nb_finfou_d: u64,
}

impl View for Net {
    type V = NetV;

    open spec fn view(&self) -> NetV {
        NetV {
            next_label: self.next_label,
            nodes: self.nodes@,
            avail: self.available_indexes@,
            mode: self.gc.mode,
            to_erase: self.gc.to_erase@,
            to_sink: self.gc.to_sink@,
            nb_special: self.nb_special_nodes,
            max_node_len: self.max_node_len,
            nb_used: self.nb_used,
            nb_reused: self.nb_reused,
            nb_remove_inter: self.nb_remove_inter,
            nb_appabs: self.nb_appabs,
            nb_appfou: self.nb_appfou,
            nb_finabs: self.nb_finabs,
            nb_finfou_a: self.nb_finfou_a,
            nb_finfou_d: self.nb_finfou_d,
            nb_remove_erase: self.gc.nb_remove_erase,
            nb_remove_sink: self.gc.nb_remove_sink,
            nb_erase: self.gc.nb_erase,
            nb_sink: self.gc.nb_sink,
        }
    }
}

/// True of a kind that is an abstraction with the given name and binder flag.
pub open spec fn is_abs_named(k: NodeKind, name: Seq<char>, bound: bool) -> bool {
    match k {
        NodeKind::CstrK(CstrK::Abs(s, b)) => s@ == name && b == bound,
        _ => false,
    }
}

/// A freshly created net: the reserved nodes and nothing else, all slots
/// NULL, the label counter at one, every queue, list and statistic at its
/// starting value. This pins `Net::new`'s result up to the identity of the
/// sentinel name strings, whose views are fixed.
pub open spec fn is_fresh_net(nv: NetV, mode: GcMode) -> bool {
    &&& nv.wf()
    &&& nv.mode == mode
    &&& nv.next_label == 1
    &&& nv.avail.len() == 0
    &&& nv.to_erase.len() == 0
    &&& nv.to_sink.len() == 0
    &&& nv.nodes.len() == nv.nb_special
    &&& forall|i: int| 0 <= i < nv.nodes.len() ==> (#[trigger] nv.nodes[i]).is_cleared_spec()
    &&& is_abs_named(nv.nodes[0].kind, "ROOT"@, false)
    &&& (mode == GcMode::EraSink ==> is_abs_named(nv.nodes[1].kind, "SINK"@, false)
        && is_abs_named(nv.nodes[2].kind, "ERASE"@, false))
    &&& (mode == GcMode::NoGc ==> is_abs_named(nv.nodes[1].kind, "ERASE"@, false))
    &&& nv.nb_appabs == 0 && nv.nb_appfou == 0 && nv.nb_finabs == 0 && nv.nb_finfou_a == 0
        && nv.nb_finfou_d == 0
    &&& nv.nb_remove_inter == 0 && nv.nb_remove_erase == 0 && nv.nb_remove_sink == 0
    &&& nv.nb_erase == 0 && nv.nb_sink == 0
    &&& nv.nb_used == spec_nb_special(mode) as u64
    &&& nv.nb_reused == 0
    &&& nv.max_node_len == 0
}

impl Net {
    /// Create a new network holding the ROOT node and the sentinel nodes of
    /// the chosen garbage collector.
    #[verifier::rlimit(100)]
    pub fn new(mode: GcMode) -> (r: Net)
        ensures
            r@.wf(),
            r@.mode == mode,
            r@.next_label == 1,
            r@.avail.len() == 0,
            r@.to_erase.len() == 0,
            r@.to_sink.len() == 0,
            r@.nodes.len() == r@.nb_special,
            forall|i: int|
                0 <= i < r@.nodes.len() ==> (#[trigger] r@.nodes[i]).is_cleared_spec(),
            is_abs_named(r@.nodes[0].kind, "ROOT"@, false),
            r@.mode == GcMode::EraSink ==> is_abs_named(r@.nodes[1].kind, "SINK"@, false)
                && is_abs_named(r@.nodes[2].kind, "ERASE"@, false),
            r@.mode == GcMode::NoGc ==> is_abs_named(r@.nodes[1].kind, "ERASE"@, false),
            r@.nb_appabs == 0 && r@.nb_appfou == 0 && r@.nb_finabs == 0 && r@.nb_finfou_a == 0
                && r@.nb_finfou_d == 0,
            r@.nb_remove_inter == 0 && r@.nb_remove_erase == 0 && r@.nb_remove_sink == 0,
            r@.nb_used == spec_nb_special(mode) as u64,
            r@.nb_reused == 0,
            r@.max_node_len == 0,
            r@.bidirectional(),
            labels_ok(r@),
            is_fresh_net(r@, mode),
    {
        let mut res = Net {
            next_label: 1,
            nodes: Vec::new(),
            available_indexes: Vec::new(),
            gc: GcState::new(mode),
            nb_special_nodes: 0,
            max_node_len: 0,
            nb_used: 0,
            nb_reused: 0,
            nb_remove_inter: 0,
            nb_appabs: 0,
            nb_appfou: 0,
            nb_finabs: 0,
            nb_finfou_a: 0,
            nb_finfou_d: 0,
        };
        // Index 0: the ROOT node (also provides the NULL vertex).
        res.new_abs(String::from_str("ROOT"), false);
        // The GC sentinels come right after the root.
        match mode {
            GcMode::EraSink => {
                res.new_abs(String::from_str("SINK"), false);  // Index 1
                res.new_abs(String::from_str("ERASE"), false);  // Index 2
            },
            GcMode::NoGc => {
                res.new_abs(String::from_str("ERASE"), false);  // Index 1
            },
        }
        res.nb_special_nodes = res.nodes.len();
        proof {
            assert forall|i: int| 0 <= i < res@.nodes.len() implies kind_labels_lt(
                #[trigger] res@.nodes[i].kind,
                res@.next_label,
            ) by {
                assert(res@.nodes[i].kind is CstrK);
            }
            assert forall|i: usize, p: Port|
                res@.is_live(i) && #[trigger] res@.nodes[i as int].slot_spec(p) != null_spec()
                    && res@.is_live(res@.nodes[i as int].slot_spec(p).index) implies {
                let v = res@.nodes[i as int].slot_spec(p);
                res@.nodes[v.index as int].slot_spec(v.port) == (Vertex { index: i, port: p })
            } by {
                assert(res@.nodes[i as int].slot_spec(p) == null_spec());
            }
        }
        res
    }

    /// Hand out a fresh label; the counter strictly increases, so labels
    /// never repeat.
    pub fn new_label(&mut self) -> (r: Label)
        requires
            old(self)@.next_label < Label::MAX,
        ensures
            r == old(self)@.next_label,
            final(self)@ == (NetV { next_label: (old(self)@.next_label + 1) as u64, ..old(self)@ }),
    {
        let res = self.next_label;
        self.next_label = self.next_label + 1;
        res
    }

    /// Get a reference to a node.
    pub fn get_node(&self, index: usize) -> (r: &Node)
        requires
            index < self@.nodes.len(),
        ensures
            *r == self@.nodes[index as int],
    {
        &self.nodes[index]
    }

    /// Allocate a node of the given kind, recycling a freed index if any.
    pub fn new_node(&mut self, kind: NodeKind) -> (idx: usize)
        requires
            avail_inv(old(self)@.avail, old(self)@.nb_special, old(self)@.nodes.len() as int),
        ensures
            idx == sv_new_node_i(old(self)@),
            final(self)@ == sv_new_node_v(old(self)@, kind),
            idx < final(self)@.nodes.len(),
    {
        self.nb_used = sat_inc(self.nb_used);
        let nn = Node { kind, main: null_vertex(), aux1: null_vertex(), aux2: null_vertex() };
        proof {
            if old(self)@.avail.len() > 0 {
                assert(old(self)@.avail.last() == old(self)@.avail[old(self)@.avail.len() - 1]);
                assert(old(self)@.avail.last() < old(self)@.nodes.len());
            }
        }
        let res: usize = match self.available_indexes.pop() {
            Some(idx) => {
                self.nb_reused = sat_inc(self.nb_reused);
                self.nodes[idx] = nn;
                idx
            },
            None => {
                self.nodes.push(nn);
                self.nodes.len() - 1
            },
        };
        res
    }

    /// Allocate an abstraction node.
    pub fn new_abs(&mut self, vname: String, bound: bool) -> (idx: usize)
        requires
            avail_inv(old(self)@.avail, old(self)@.nb_special, old(self)@.nodes.len() as int),
        ensures
            idx == sv_new_node_i(old(self)@),
            final(self)@ == sv_new_node_v(
                old(self)@,
                NodeKind::CstrK(CstrK::Abs(vname, bound)),
            ),
            idx < final(self)@.nodes.len(),
    {
        self.new_node(NodeKind::CstrK(CstrK::Abs(vname, bound)))
    }

    /// Allocate a fan-out node.
    pub fn new_fout(&mut self, label: Label) -> (idx: usize)
        requires
            avail_inv(old(self)@.avail, old(self)@.nb_special, old(self)@.nodes.len() as int),
        ensures
            idx == sv_new_node_i(old(self)@),
            final(self)@ == sv_new_node_v(old(self)@, NodeKind::CstrK(CstrK::FanOut(label))),
            idx < final(self)@.nodes.len(),
    {
        self.new_node(NodeKind::CstrK(CstrK::FanOut(label)))
    }

    /// Allocate an application node.
    pub fn new_app(&mut self) -> (idx: usize)
        requires
            avail_inv(old(self)@.avail, old(self)@.nb_special, old(self)@.nodes.len() as int),
        ensures
            idx == sv_new_node_i(old(self)@),
            final(self)@ == sv_new_node_v(old(self)@, NodeKind::DstrK(DstrK::Apply)),
            idx < final(self)@.nodes.len(),
    {
        self.new_node(NodeKind::DstrK(DstrK::Apply))
    }

    /// Allocate a fan-in node.
    pub fn new_fin(&mut self, fis: FIStatus) -> (idx: usize)
        requires
            avail_inv(old(self)@.avail, old(self)@.nb_special, old(self)@.nodes.len() as int),
        ensures
            idx == sv_new_node_i(old(self)@),
            final(self)@ == sv_new_node_v(old(self)@, NodeKind::DstrK(DstrK::FanIn(fis))),
            idx < final(self)@.nodes.len(),
    {
        self.new_node(NodeKind::DstrK(DstrK::FanIn(fis)))
    }

    /// Free a node: clear its slots and push its index on the free-list.
    /// The index must not already be freed, which keeps the free-list
    /// duplicate-free.
    pub fn remove(&mut self, index: usize)
        requires
            index < old(self)@.nodes.len(),
            !old(self)@.avail.contains(index),
        ensures
            final(self)@ == sv_remove(old(self)@, index),
    {
        let n = null_vertex();
        self.nodes[index].main = n;
        self.nodes[index].aux1 = n;
        self.nodes[index].aux2 = n;
        self.available_indexes.push(index);
        proof {
            assert(self@.nodes =~= sv_remove(old(self)@, index).nodes);
            assert(self@ =~= sv_remove(old(self)@, index));
        }
    }

    /// Overwrite the kind of a node, keeping its slots (used to mark an
    /// abstraction whose binder lost its last use).
    pub fn set_kind(&mut self, index: usize, kind: NodeKind)
        requires
            index < old(self)@.nodes.len(),
        ensures
            final(self)@ == (NetV {
                nodes: old(self)@.nodes.update(
                    index as int,
                    Node { kind, ..old(self)@.nodes[index as int] },
                ),
                ..old(self)@
            }),
    {
        self.nodes[index].kind = kind;
        proof {
            let want = NetV {
                nodes: old(self)@.nodes.update(
                    index as int,
                    Node { kind, ..old(self)@.nodes[index as int] },
                ),
                ..old(self)@
            };
            assert(self@.nodes =~= want.nodes);
            assert(self@ =~= want);
        }
    }

    /// Low-level edge read: the slot of node `index` at port number `port`.
    pub fn get_index_port(&self, index: usize, port: usize) -> (r: Vertex)
        requires
            index < self@.nodes.len(),
            port < 3,
        ensures
            r == self@.nodes[index as int].slot_spec(port_of(port as int)),
    {
        let p = if port == 0 {
            Port::Main
        } else if port == 1 {
            Port::Aux1
        } else {
            Port::Aux2
        };
        self.nodes[index].slot(p)
    }

    /// Follow an edge: the slot stored at `src`, or NULL when `src` is out
    /// of bounds.
    pub fn get_vertex(&self, src: Vertex) -> (r: Vertex)
        ensures
            r == sv_slot(self@, src),
    {
        if src.index < self.nodes.len() {
            self.nodes[src.index].slot(src.port)
        } else {
            null_vertex()
        }
    }

    /// Follow an edge: given the source vertex, return the target.
    pub fn follow(&self, src: Vertex) -> (r: Vertex)
        ensures
            r == sv_slot(self@, src),
    {
        self.get_vertex(src)
    }

    /// Low-level edge write: set the slot of node `index` at port number
    /// `port` to `v`.
    pub fn update_index_port(&mut self, index: usize, port: usize, v: Vertex)
        requires
            index < old(self)@.nodes.len(),
            port < 3,
        ensures
            final(self)@ == sv_update(
                old(self)@,
                Vertex { index, port: port_of(port as int) },
                v,
            ),
    {
        let p = if port == 0 {
            Port::Main
        } else if port == 1 {
            Port::Aux1
        } else {
            Port::Aux2
        };
        match p {
            Port::Main => self.nodes[index].main = v,
            Port::Aux1 => self.nodes[index].aux1 = v,
            Port::Aux2 => self.nodes[index].aux2 = v,
        }
        proof {
            let want = sv_update(old(self)@, Vertex { index, port: port_of(port as int) }, v);
            assert(self@.nodes =~= want.nodes);
            assert(self@ =~= want);
        }
    }

    /// Overwrite the half-edge at `src` with `tgt`; out-of-bounds writes are
    /// ignored.
    pub fn update_vertex(&mut self, src: Vertex, tgt: Vertex)
        ensures
            final(self)@ == sv_update(old(self)@, src, tgt),
    {
        if src.index < self.nodes.len() {
            match src.port {
                Port::Main => self.nodes[src.index].main = tgt,
                Port::Aux1 => self.nodes[src.index].aux1 = tgt,
                Port::Aux2 => self.nodes[src.index].aux2 = tgt,
            }
            proof {
                let want = sv_update(old(self)@, src, tgt);
                assert(self@.nodes =~= want.nodes);
                assert(self@ =~= want);
            }
        }
    }

    /// Write both halves of the edge `src -> tgt`, restoring the
    /// doubly-linked representation.
    pub fn create_edge_raw(&mut self, src: Vertex, tgt: Vertex)
        ensures
            final(self)@ == sv_create_edge_raw(old(self)@, src, tgt),
    {
        self.update_vertex(src, tgt);
        self.update_vertex(tgt, src);
    }

    /// Create the edge `src -> tgt`, letting the GC intercept writes that
    /// reach its sentinel nodes.
    pub fn create_edge(&mut self, src: Vertex, tgt: Vertex)
        ensures
            final(self)@ == sv_create_edge(old(self)@, src, tgt),
    {
        if self.check_edge(src, tgt) {
            self.create_edge_raw(src, tgt);
        }
    }

    /// Whether the free-list contains `index`.
    pub fn search_available_indexes(&self, index: usize) -> (r: bool)
        ensures
            r == self@.avail.contains(index),
    {
        let mut i: usize = 0;
        while i < self.available_indexes.len()
            invariant
                i <= self@.avail.len(),
                forall|j: int| 0 <= j < i ==> self@.avail[j] != index,
            decreases self@.avail.len() - i,
        {
            if self.available_indexes[i] == index {
                return true;
            }
            i = i + 1;
        }
        false
    }

    /// Whether some slot anywhere in the arena points at node `index`.
    pub fn search_index(&self, index: usize) -> (r: bool)
        ensures
            r == exists|i: int, p: Port|
                0 <= i < self@.nodes.len() && (#[trigger] self@.nodes[i].slot_spec(p)).index
                    == index,
    {
        let mut i: usize = 0;
        while i < self.nodes.len()
            invariant
                i <= self@.nodes.len(),
                forall|j: int, p: Port|
                    0 <= j < i ==> (#[trigger] self@.nodes[j].slot_spec(p)).index != index,
            decreases self@.nodes.len() - i,
        {
            let n = &self.nodes[i];
            if n.main.index == index {
                proof {
                    assert(self@.nodes[i as int].slot_spec(Port::Main).index == index);
                }
                return true;
            }
            if n.aux1.index == index {
                proof {
                    assert(self@.nodes[i as int].slot_spec(Port::Aux1).index == index);
                }
                return true;
            }
            if n.aux2.index == index {
                proof {
                    assert(self@.nodes[i as int].slot_spec(Port::Aux2).index == index);
                }
                return true;
            }
            proof {
                assert forall|p: Port| (self@.nodes[i as int].slot_spec(p)).index != index by {
                    match p {
                        Port::Main => {},
                        Port::Aux1 => {},
                        Port::Aux2 => {},
                    }
                }
            }
            i = i + 1;
        }
        false
    }

    /// Stitch between two vertices of nodes that are both about to be freed:
    /// connect what points at `src` to what `tgt` points at.
    pub fn stitch_old_old(&mut self, src: Vertex, tgt: Vertex)
        ensures
            final(self)@ == sv_stitch_old_old(old(self)@, src, tgt),
    {
        let src_src = self.follow(src);
        let tgt_tgt = self.follow(tgt);
        self.create_edge(src_src, tgt_tgt);
    }

    /// Stitch between an old (to be freed) vertex and a new one.
    pub fn stitch_old_new(&mut self, src: Vertex, tgt: Vertex)
        ensures
            final(self)@ == sv_stitch_old_new(old(self)@, src, tgt),
    {
        let src_src = self.follow(src);
        self.create_edge(src_src, tgt);
    }

    /// Stitch between a new vertex and an old (to be freed) one.
    pub fn stitch_new_old(&mut self, src: Vertex, tgt: Vertex)
        ensures
            final(self)@ == sv_stitch_new_old(old(self)@, src, tgt),
    {
        let tgt_tgt = self.follow(tgt);
        self.create_edge(src, tgt_tgt);
    }

    /// Stitch between two new vertices: plainly create the edge.
    pub fn stitch_new_new(&mut self, src: Vertex, tgt: Vertex)
        ensures
            final(self)@ == sv_create_edge(old(self)@, src, tgt),
    {
        self.create_edge(src, tgt);
    }

    /// Free the two endpoints of a finished interaction.
    pub fn clean_inter(&mut self, did: usize, cid: usize)
        requires
            did < old(self)@.nodes.len(),
            cid < old(self)@.nodes.len(),
            did != cid,
            !old(self)@.avail.contains(did),
            !old(self)@.avail.contains(cid),
        ensures
            final(self)@ == sv_clean_inter(old(self)@, did, cid),
    {
        self.remove(did);
        proof {
            assert(!self@.avail.contains(cid)) by {
                assert forall|k: int| 0 <= k < self@.avail.len() implies self@.avail[k] != cid by {
                    if k < self@.avail.len() - 1 {
                        assert(old(self)@.avail[k] != cid);
                    }
                }
            }
        }
        self.remove(cid);
        self.nb_remove_inter = sat_add(self.nb_remove_inter, 2);
        proof {
            assert(self@ =~= sv_clean_inter(old(self)@, did, cid));
        }
    }
}

/// Shorthand for building a vertex in specifications.
pub open spec fn vx(i: usize, p: Port) -> Vertex {
    Vertex { index: i, port: p }
}

/// Creating an edge touches only node slots and the collection queues:
/// the free-list, arena length, label counter and layout stay put, and the
/// no-op collector also leaves the queues alone.
pub proof fn lemma_frame_create_edge(nv: NetV, src: Vertex, tgt: Vertex)
    ensures
        sv_create_edge(nv, src, tgt).avail == nv.avail,
        sv_create_edge(nv, src, tgt).nodes.len() == nv.nodes.len(),
        sv_create_edge(nv, src, tgt).mode == nv.mode,
        sv_create_edge(nv, src, tgt).nb_special == nv.nb_special,
        sv_create_edge(nv, src, tgt).next_label == nv.next_label,
        nv.mode == GcMode::NoGc ==> sv_create_edge(nv, src, tgt).to_erase == nv.to_erase
            && sv_create_edge(nv, src, tgt).to_sink == nv.to_sink,
{
}

/// A stitch is an edge creation on computed endpoints: same frame.
pub proof fn lemma_frame_stitch(nv: NetV, src: Vertex, tgt: Vertex)
    ensures
        sv_stitch_old_old(nv, src, tgt).avail == nv.avail,
        sv_stitch_old_old(nv, src, tgt).nodes.len() == nv.nodes.len(),
        sv_stitch_old_old(nv, src, tgt).mode == nv.mode,
        sv_stitch_old_old(nv, src, tgt).nb_special == nv.nb_special,
        sv_stitch_old_old(nv, src, tgt).next_label == nv.next_label,
        nv.mode == GcMode::NoGc ==> sv_stitch_old_old(nv, src, tgt).to_erase == nv.to_erase
            && sv_stitch_old_old(nv, src, tgt).to_sink == nv.to_sink,
        sv_stitch_old_new(nv, src, tgt).avail == nv.avail,
        sv_stitch_old_new(nv, src, tgt).nodes.len() == nv.nodes.len(),
        sv_stitch_old_new(nv, src, tgt).mode == nv.mode,
        sv_stitch_old_new(nv, src, tgt).nb_special == nv.nb_special,
        sv_stitch_old_new(nv, src, tgt).next_label == nv.next_label,
        nv.mode == GcMode::NoGc ==> sv_stitch_old_new(nv, src, tgt).to_erase == nv.to_erase
            && sv_stitch_old_new(nv, src, tgt).to_sink == nv.to_sink,
        sv_stitch_new_old(nv, src, tgt).avail == nv.avail,
        sv_stitch_new_old(nv, src, tgt).nodes.len() == nv.nodes.len(),
        sv_stitch_new_old(nv, src, tgt).mode == nv.mode,
        sv_stitch_new_old(nv, src, tgt).nb_special == nv.nb_special,
        sv_stitch_new_old(nv, src, tgt).next_label == nv.next_label,
        nv.mode == GcMode::NoGc ==> sv_stitch_new_old(nv, src, tgt).to_erase == nv.to_erase
            && sv_stitch_new_old(nv, src, tgt).to_sink == nv.to_sink,
{
}

/// Allocation can only pop the free-list, so an index absent from the
/// free-list stays absent, and the arena never shrinks.
pub proof fn lemma_new_node_not_contains(nv: NetV, kind: NodeKind, x: usize)
    requires
        !nv.avail.contains(x),
    ensures
        !sv_new_node_v(nv, kind).avail.contains(x),
{
    if nv.avail.len() > 0 {
        let a = nv.avail;
        let d = a.drop_last();
        assert forall|i: int| 0 <= i < d.len() implies d[i] != x by {
            assert(a[i] == d[i]);
            if a[i] == x {
                assert(a.contains(x));
            }
        }
        if sv_new_node_v(nv, kind).avail.contains(x) {
            let i = choose|i: int| 0 <= i < d.len() && d[i] == x;
            assert(false);
        }
    }
}

/// Allocation preserves the free-list well-formedness clauses of `wf`.
pub proof fn lemma_new_node_wf(nv: NetV, kind: NodeKind)
    requires
        avail_inv(nv.avail, nv.nb_special, nv.nodes.len() as int),
    ensures
        avail_inv(
            sv_new_node_v(nv, kind).avail,
            nv.nb_special,
            sv_new_node_v(nv, kind).nodes.len() as int,
        ),
        sv_new_node_v(nv, kind).nodes.len() >= nv.nodes.len(),
        sv_new_node_v(nv, kind).mode == nv.mode,
        sv_new_node_v(nv, kind).nb_special == nv.nb_special,
        sv_new_node_v(nv, kind).next_label == nv.next_label,
        sv_new_node_v(nv, kind).to_erase == nv.to_erase,
        sv_new_node_v(nv, kind).to_sink == nv.to_sink,
        sv_new_node_i(nv) < sv_new_node_v(nv, kind).nodes.len(),
{
    if nv.avail.len() > 0 {
        let a = nv.avail;
        let d = a.drop_last();
        assert forall|i: int| 0 <= i < d.len() implies nv.nb_special <= #[trigger] d[i]
            < nv.nodes.len() by {
            assert(d[i] == a[i]);
        }
    }
}

/// Exact effect of an Apply-Abs interaction (the beta step).
pub open spec fn sv_interact_app_abs(nv: NetV, did: usize, cid: usize, bound: bool) -> NetV {
    let s1 = sv_stitch_old_old(nv, vx(did, Port::Aux1), vx(cid, Port::Aux1));
    let s2 = if bound {
        sv_stitch_old_old(s1, vx(cid, Port::Aux2), vx(did, Port::Aux2))
    } else {
        crate::gc::sv_to_collect(s1, sv_slot(s1, vx(did, Port::Aux2)))
    };
    let s3 = NetV { nb_appabs: sat_inc_spec(s2.nb_appabs), ..s2 };
    sv_clean_inter(s3, did, cid)
}

/// Exact effect of an Apply-FanOut interaction (duplication).
pub open spec fn sv_interact_app_fou(nv: NetV, did: usize, cid: usize, label: Label) -> NetV {
    let n1 = sv_new_node_v(nv, NodeKind::DstrK(DstrK::Apply));
    let app1 = sv_new_node_i(nv);
    let n2 = sv_new_node_v(n1, NodeKind::DstrK(DstrK::Apply));
    let app2 = sv_new_node_i(n1);
    let n3 = sv_new_node_v(n2, NodeKind::CstrK(CstrK::FanOut(label)));
    let fou1 = sv_new_node_i(n2);
    let n4 = sv_new_node_v(n3, NodeKind::DstrK(DstrK::FanIn(FIStatus::Labeled(label))));
    let fin2 = sv_new_node_i(n3);
    let s1 = sv_stitch_old_new(n4, vx(did, Port::Aux1), vx(fou1, Port::Main));
    let s2 = sv_stitch_new_old(s1, vx(app1, Port::Main), vx(cid, Port::Aux1));
    let s3 = sv_stitch_new_old(s2, vx(app2, Port::Main), vx(cid, Port::Aux2));
    let s4 = sv_stitch_new_old(s3, vx(fin2, Port::Main), vx(did, Port::Aux2));
    let s5 = sv_create_edge(s4, vx(fou1, Port::Aux1), vx(app1, Port::Aux1));
    let s6 = sv_create_edge(s5, vx(fou1, Port::Aux2), vx(app2, Port::Aux1));
    let s7 = sv_create_edge(s6, vx(app1, Port::Aux2), vx(fin2, Port::Aux1));
    let s8 = sv_create_edge(s7, vx(app2, Port::Aux2), vx(fin2, Port::Aux2));
    let s9 = NetV { nb_appfou: sat_inc_spec(s8.nb_appfou), ..s8 };
    sv_clean_inter(s9, did, cid)
}

/// Exact effect of a FanIn-Abs interaction (duplicate the abstraction;
/// a stem fan-in draws a fresh label here).
pub open spec fn sv_interact_fin_abs(
    nv: NetV,
    did: usize,
    in_status: FIStatus,
    cid: usize,
    vname: String,
    bound: bool,
) -> NetV {
    let label = match in_status {
        FIStatus::Labeled(l) => l,
        FIStatus::Stem => nv.next_label,
    };
    let nv0 = match in_status {
        FIStatus::Labeled(_) => nv,
        FIStatus::Stem => NetV { next_label: (nv.next_label + 1) as u64, ..nv },
    };
    let n1 = sv_new_node_v(nv0, NodeKind::DstrK(DstrK::FanIn(FIStatus::Labeled(label))));
    let fin = sv_new_node_i(nv0);
    let n2 = sv_new_node_v(n1, NodeKind::CstrK(CstrK::Abs(vname, bound)));
    let abs1 = sv_new_node_i(n1);
    let n3 = sv_new_node_v(n2, NodeKind::CstrK(CstrK::Abs(vname, bound)));
    let abs2 = sv_new_node_i(n2);
    let s1 = sv_stitch_old_new(n3, vx(did, Port::Aux1), vx(abs1, Port::Main));
    let s2 = sv_stitch_old_new(s1, vx(did, Port::Aux2), vx(abs2, Port::Main));
    let s3 = sv_stitch_new_old(s2, vx(fin, Port::Main), vx(cid, Port::Aux1));
    let s4 = sv_create_edge(s3, vx(abs1, Port::Aux1), vx(fin, Port::Aux1));
    let s5 = sv_create_edge(s4, vx(abs2, Port::Aux1), vx(fin, Port::Aux2));
    let s6 = if bound {
        let n4 = sv_new_node_v(s5, NodeKind::CstrK(CstrK::FanOut(label)));
        let fout = sv_new_node_i(s5);
        let t1 = sv_stitch_old_new(n4, vx(cid, Port::Aux2), vx(fout, Port::Main));
        let t2 = sv_create_edge(t1, vx(fout, Port::Aux1), vx(abs1, Port::Aux2));
        sv_create_edge(t2, vx(fout, Port::Aux2), vx(abs2, Port::Aux2))
    } else {
        s5
    };
    let s7 = NetV { nb_finabs: sat_inc_spec(s6.nb_finabs), ..s6 };
    sv_clean_inter(s7, did, cid)
}

/// Exact effect of a FanIn-FanOut interaction: matching labels annihilate,
/// others cross and duplicate each other.
pub open spec fn sv_interact_fin_fou(
    nv: NetV,
    did: usize,
    in_status: FIStatus,
    cid: usize,
    outlabel: Label,
) -> NetV {
    if in_status == FIStatus::Labeled(outlabel) {
        let s1 = sv_stitch_old_old(nv, vx(did, Port::Aux1), vx(cid, Port::Aux1));
        let s2 = sv_stitch_old_old(s1, vx(did, Port::Aux2), vx(cid, Port::Aux2));
        let s3 = NetV { nb_finfou_a: sat_inc_spec(s2.nb_finfou_a), ..s2 };
        sv_clean_inter(s3, did, cid)
    } else {
        let n1 = sv_new_node_v(nv, NodeKind::DstrK(DstrK::FanIn(in_status)));
        let fin1 = sv_new_node_i(nv);
        let n2 = sv_new_node_v(n1, NodeKind::DstrK(DstrK::FanIn(in_status)));
        let fin2 = sv_new_node_i(n1);
        let n3 = sv_new_node_v(n2, NodeKind::CstrK(CstrK::FanOut(outlabel)));
        let fou1 = sv_new_node_i(n2);
        let n4 = sv_new_node_v(n3, NodeKind::CstrK(CstrK::FanOut(outlabel)));
        let fou2 = sv_new_node_i(n3);
        let s1 = sv_stitch_old_new(n4, vx(did, Port::Aux1), vx(fou1, Port::Main));
        let s2 = sv_stitch_old_new(s1, vx(did, Port::Aux2), vx(fou2, Port::Main));
        let s3 = sv_stitch_new_old(s2, vx(fin1, Port::Main), vx(cid, Port::Aux1));
        let s4 = sv_stitch_new_old(s3, vx(fin2, Port::Main), vx(cid, Port::Aux2));
        let s5 = sv_create_edge(s4, vx(fou1, Port::Aux1), vx(fin1, Port::Aux1));
        let s6 = sv_create_edge(s5, vx(fou2, Port::Aux1), vx(fin1, Port::Aux2));
        let s7 = sv_create_edge(s6, vx(fou1, Port::Aux2), vx(fin2, Port::Aux1));
        let s8 = sv_create_edge(s7, vx(fou2, Port::Aux2), vx(fin2, Port::Aux2));
        let s9 = NetV { nb_finfou_d: sat_inc_spec(s8.nb_finfou_d), ..s8 };
        sv_clean_inter(s9, did, cid)
    }
}

/// Exact effect of one interaction on the net model. `did` is the
/// destructor, `cid` the constructor; they meet main port to main port.
#[verifier::opaque]
pub open spec fn sv_interact(nv: NetV, did: usize, dkind: DstrK, cid: usize, ckind: CstrK) -> NetV {
    match dkind {
        DstrK::Apply => match ckind {
            CstrK::Abs(_vname, bound) => sv_interact_app_abs(nv, did, cid, bound),
            CstrK::FanOut(label) => sv_interact_app_fou(nv, did, cid, label),
        },
        DstrK::FanIn(in_status) => match ckind {
            CstrK::Abs(vname, bound) => sv_interact_fin_abs(nv, did, in_status, cid, vname, bound),
            CstrK::FanOut(outlabel) => sv_interact_fin_fou(nv, did, in_status, cid, outlabel),
        },
    }
}

/// Whether every sharing label of a kind lies strictly below `bound`.
pub open spec fn kind_labels_lt(k: NodeKind, bound: u64) -> bool {
    match k {
        NodeKind::CstrK(CstrK::FanOut(l)) => l < bound,
        NodeKind::DstrK(DstrK::FanIn(FIStatus::Labeled(l))) => l < bound,
        _ => true,
    }
}

/// Whether every label anywhere in the arena lies strictly below `bound`.
pub open spec fn labels_lt(nv: NetV, bound: u64) -> bool {
    forall|i: int| 0 <= i < nv.nodes.len() ==> kind_labels_lt(#[trigger] nv.nodes[i].kind, bound)
}

/// Label freshness: every label in use is strictly below the counter, so a
/// fresh label never repeats an existing one.
pub open spec fn labels_ok(nv: NetV) -> bool {
    labels_lt(nv, nv.next_label)
}

/// Every free-list entry lies inside the arena.
pub open spec fn avail_bounded(nv: NetV) -> bool {
    forall|t: int| 0 <= t < nv.avail.len() ==> #[trigger] nv.avail[t] < nv.nodes.len()
}

/// Creating an edge (stitched or not, intercepted by the collector or not)
/// never touches a node's kind, the free-list or the label counter.
pub proof fn lemma_kinds_create_edge(nv: NetV, src: Vertex, tgt: Vertex)
    ensures
        sv_create_edge(nv, src, tgt).avail == nv.avail,
        sv_stitch_old_old(nv, src, tgt).avail == nv.avail,
        sv_stitch_old_new(nv, src, tgt).avail == nv.avail,
        sv_stitch_new_old(nv, src, tgt).avail == nv.avail,
        crate::gc::sv_to_collect(nv, src).avail == nv.avail,
        sv_create_edge(nv, src, tgt).nodes.len() == nv.nodes.len(),
        forall|i: int|
            0 <= i < nv.nodes.len() ==> #[trigger] sv_create_edge(nv, src, tgt).nodes[i].kind
                == nv.nodes[i].kind,
        sv_create_edge(nv, src, tgt).next_label == nv.next_label,
        sv_stitch_old_old(nv, src, tgt).nodes.len() == nv.nodes.len(),
        forall|i: int|
            0 <= i < nv.nodes.len() ==> #[trigger] sv_stitch_old_old(nv, src, tgt).nodes[i].kind
                == nv.nodes[i].kind,
        sv_stitch_old_old(nv, src, tgt).next_label == nv.next_label,
        sv_stitch_old_new(nv, src, tgt).nodes.len() == nv.nodes.len(),
        forall|i: int|
            0 <= i < nv.nodes.len() ==> #[trigger] sv_stitch_old_new(nv, src, tgt).nodes[i].kind
                == nv.nodes[i].kind,
        sv_stitch_old_new(nv, src, tgt).next_label == nv.next_label,
        sv_stitch_new_old(nv, src, tgt).nodes.len() == nv.nodes.len(),
        forall|i: int|
            0 <= i < nv.nodes.len() ==> #[trigger] sv_stitch_new_old(nv, src, tgt).nodes[i].kind
                == nv.nodes[i].kind,
        sv_stitch_new_old(nv, src, tgt).next_label == nv.next_label,
        crate::gc::sv_to_collect(nv, src).nodes.len() == nv.nodes.len(),
        forall|i: int|
            0 <= i < nv.nodes.len() ==> #[trigger] crate::gc::sv_to_collect(nv, src).nodes[i].kind
                == nv.nodes[i].kind,
        crate::gc::sv_to_collect(nv, src).next_label == nv.next_label,
{
}

/// A well-formed free-list is in particular bounded by the arena.
pub proof fn lemma_wf_avail_bounded(nv: NetV)
    requires
        avail_inv(nv.avail, nv.nb_special, nv.nodes.len() as int),
    ensures
        avail_bounded(nv),
{
    assert forall|t: int| 0 <= t < nv.avail.len() implies #[trigger] nv.avail[t]
        < nv.nodes.len() by {
        assert(nv.nb_special <= nv.avail[t] < nv.nodes.len());
    }
}

/// Edge creation keeps every label below the bound: no kind changes.
pub proof fn lemma_labels_create_edge(nv: NetV, src: Vertex, tgt: Vertex, bound: u64)
    requires
        labels_lt(nv, bound),
    ensures
        labels_lt(sv_create_edge(nv, src, tgt), bound),
{
    lemma_kinds_create_edge(nv, src, tgt);
    assert forall|i: int| 0 <= i < sv_create_edge(nv, src, tgt).nodes.len() implies kind_labels_lt(
        #[trigger] sv_create_edge(nv, src, tgt).nodes[i].kind,
        bound,
    ) by {
        assert(sv_create_edge(nv, src, tgt).nodes[i].kind == nv.nodes[i].kind);
    }
}

/// Allocation with a fresh-enough kind keeps every label below the bound.
pub proof fn lemma_labels_new_node(nv: NetV, kind: NodeKind, bound: u64)
    requires
        labels_lt(nv, bound),
        kind_labels_lt(kind, bound),
        avail_bounded(nv),
    ensures
        labels_lt(sv_new_node_v(nv, kind), bound),
        sv_new_node_v(nv, kind).next_label == nv.next_label,
        sv_new_node_v(nv, kind).nodes.len() >= nv.nodes.len(),
        avail_bounded(sv_new_node_v(nv, kind)),
{
    let r = sv_new_node_v(nv, kind);
    assert forall|i: int| 0 <= i < r.nodes.len() implies kind_labels_lt(
        #[trigger] r.nodes[i].kind,
        bound,
    ) by {
        if nv.avail.len() > 0 {
            if i != nv.avail.last() {
                assert(r.nodes[i].kind == nv.nodes[i].kind);
            }
        } else {
            if i < nv.nodes.len() {
                assert(r.nodes[i].kind == nv.nodes[i].kind);
            }
        }
    }
}

/// Freeing a node keeps its kind, hence every label below the bound.
pub proof fn lemma_labels_clean(nv: NetV, did: usize, cid: usize, bound: u64)
    requires
        labels_lt(nv, bound),
        did < nv.nodes.len(),
        cid < nv.nodes.len(),
    ensures
        labels_lt(sv_clean_inter(nv, did, cid), bound),
        sv_clean_inter(nv, did, cid).next_label == nv.next_label,
{
    let r = sv_clean_inter(nv, did, cid);
    assert forall|i: int| 0 <= i < r.nodes.len() implies kind_labels_lt(
        #[trigger] r.nodes[i].kind,
        bound,
    ) by {
        assert(r.nodes[i].kind == nv.nodes[i].kind);
    }
}

/// Labels stay fresh through a beta step.
pub proof fn lemma_labels_app_abs(nv: NetV, did: usize, cid: usize, bound: bool)
    requires
        labels_ok(nv),
        did < nv.nodes.len(),
        cid < nv.nodes.len(),
    ensures
        labels_ok(sv_interact_app_abs(nv, did, cid, bound)),
{
    let s1 = sv_stitch_old_old(nv, vx(did, Port::Aux1), vx(cid, Port::Aux1));
    lemma_kinds_create_edge(nv, vx(did, Port::Aux1), vx(cid, Port::Aux1));
    let s2 = if bound {
        sv_stitch_old_old(s1, vx(cid, Port::Aux2), vx(did, Port::Aux2))
    } else {
        crate::gc::sv_to_collect(s1, sv_slot(s1, vx(did, Port::Aux2)))
    };
    if bound {
        lemma_kinds_create_edge(s1, vx(cid, Port::Aux2), vx(did, Port::Aux2));
    } else {
        lemma_kinds_create_edge(s1, sv_slot(s1, vx(did, Port::Aux2)), vx(0, Port::Main));
    }
    let s3 = NetV { nb_appabs: sat_inc_spec(s2.nb_appabs), ..s2 };
    assert(labels_lt(s3, nv.next_label));
    lemma_labels_clean(s3, did, cid, nv.next_label);
}

/// Labels stay fresh when an application splits through a fan-out.
#[verifier::rlimit(100)]
pub proof fn lemma_labels_app_fou(nv: NetV, did: usize, cid: usize, label: Label)
    requires
        labels_ok(nv),
        avail_bounded(nv),
        label < nv.next_label,
        did < nv.nodes.len(),
        cid < nv.nodes.len(),
    ensures
        labels_ok(sv_interact_app_fou(nv, did, cid, label)),
{
    let b = nv.next_label;
    let n1 = sv_new_node_v(nv, NodeKind::DstrK(DstrK::Apply));
    lemma_labels_new_node(nv, NodeKind::DstrK(DstrK::Apply), b);
    let app1 = sv_new_node_i(nv);
    let n2 = sv_new_node_v(n1, NodeKind::DstrK(DstrK::Apply));
    lemma_labels_new_node(n1, NodeKind::DstrK(DstrK::Apply), b);
    let app2 = sv_new_node_i(n1);
    let n3 = sv_new_node_v(n2, NodeKind::CstrK(CstrK::FanOut(label)));
    lemma_labels_new_node(n2, NodeKind::CstrK(CstrK::FanOut(label)), b);
    let fou1 = sv_new_node_i(n2);
    let n4 = sv_new_node_v(n3, NodeKind::DstrK(DstrK::FanIn(FIStatus::Labeled(label))));
    lemma_labels_new_node(n3, NodeKind::DstrK(DstrK::FanIn(FIStatus::Labeled(label))), b);
    let fin2 = sv_new_node_i(n3);
    let s1 = sv_stitch_old_new(n4, vx(did, Port::Aux1), vx(fou1, Port::Main));
    lemma_kinds_create_edge(n4, vx(did, Port::Aux1), vx(fou1, Port::Main));
    let s2 = sv_stitch_new_old(s1, vx(app1, Port::Main), vx(cid, Port::Aux1));
    lemma_kinds_create_edge(s1, vx(app1, Port::Main), vx(cid, Port::Aux1));
    let s3 = sv_stitch_new_old(s2, vx(app2, Port::Main), vx(cid, Port::Aux2));
    lemma_kinds_create_edge(s2, vx(app2, Port::Main), vx(cid, Port::Aux2));
    let s4 = sv_stitch_new_old(s3, vx(fin2, Port::Main), vx(did, Port::Aux2));
    lemma_kinds_create_edge(s3, vx(fin2, Port::Main), vx(did, Port::Aux2));
    let s5 = sv_create_edge(s4, vx(fou1, Port::Aux1), vx(app1, Port::Aux1));
    lemma_kinds_create_edge(s4, vx(fou1, Port::Aux1), vx(app1, Port::Aux1));
    let s6 = sv_create_edge(s5, vx(fou1, Port::Aux2), vx(app2, Port::Aux1));
    lemma_kinds_create_edge(s5, vx(fou1, Port::Aux2), vx(app2, Port::Aux1));
    let s7 = sv_create_edge(s6, vx(app1, Port::Aux2), vx(fin2, Port::Aux1));
    lemma_kinds_create_edge(s6, vx(app1, Port::Aux2), vx(fin2, Port::Aux1));
    let s8 = sv_create_edge(s7, vx(app2, Port::Aux2), vx(fin2, Port::Aux2));
    lemma_kinds_create_edge(s7, vx(app2, Port::Aux2), vx(fin2, Port::Aux2));
    let s9 = NetV { nb_appfou: sat_inc_spec(s8.nb_appfou), ..s8 };
    assert(labels_lt(s9, b));
    assert(did < s9.nodes.len() && cid < s9.nodes.len());
    lemma_labels_clean(s9, did, cid, b);
}

/// Labels stay fresh when a fan duplicates an abstraction: a stem fan-in
/// draws the next label and the counter moves past it.
#[verifier::rlimit(100)]
pub proof fn lemma_labels_fin_abs(
    nv: NetV,
    did: usize,
    in_status: FIStatus,
    cid: usize,
    vname: String,
    bound: bool,
)
    requires
        labels_ok(nv),
        avail_bounded(nv),
        nv.next_label < u64::MAX,
        kind_labels_lt(NodeKind::DstrK(DstrK::FanIn(in_status)), nv.next_label),
        did < nv.nodes.len(),
        cid < nv.nodes.len(),
    ensures
        labels_ok(sv_interact_fin_abs(nv, did, in_status, cid, vname, bound)),
{
    let label = match in_status {
        FIStatus::Labeled(l) => l,
        FIStatus::Stem => nv.next_label,
    };
    let nv0 = match in_status {
        FIStatus::Labeled(_) => nv,
        FIStatus::Stem => NetV { next_label: (nv.next_label + 1) as u64, ..nv },
    };
    let b = nv0.next_label;
    assert(label < b);
    assert(labels_lt(nv0, b)) by {
        assert forall|i: int| 0 <= i < nv0.nodes.len() implies kind_labels_lt(
            #[trigger] nv0.nodes[i].kind,
            b,
        ) by {
            assert(kind_labels_lt(nv.nodes[i].kind, nv.next_label));
        }
    }
    let n1 = sv_new_node_v(nv0, NodeKind::DstrK(DstrK::FanIn(FIStatus::Labeled(label))));
    lemma_labels_new_node(nv0, NodeKind::DstrK(DstrK::FanIn(FIStatus::Labeled(label))), b);
    let fin = sv_new_node_i(nv0);
    let n2 = sv_new_node_v(n1, NodeKind::CstrK(CstrK::Abs(vname, bound)));
    lemma_labels_new_node(n1, NodeKind::CstrK(CstrK::Abs(vname, bound)), b);
    let abs1 = sv_new_node_i(n1);
    let n3 = sv_new_node_v(n2, NodeKind::CstrK(CstrK::Abs(vname, bound)));
    lemma_labels_new_node(n2, NodeKind::CstrK(CstrK::Abs(vname, bound)), b);
    let abs2 = sv_new_node_i(n2);
    let s1 = sv_stitch_old_new(n3, vx(did, Port::Aux1), vx(abs1, Port::Main));
    lemma_kinds_create_edge(n3, vx(did, Port::Aux1), vx(abs1, Port::Main));
    let s2 = sv_stitch_old_new(s1, vx(did, Port::Aux2), vx(abs2, Port::Main));
    lemma_kinds_create_edge(s1, vx(did, Port::Aux2), vx(abs2, Port::Main));
    let s3 = sv_stitch_new_old(s2, vx(fin, Port::Main), vx(cid, Port::Aux1));
    lemma_kinds_create_edge(s2, vx(fin, Port::Main), vx(cid, Port::Aux1));
    let s4 = sv_create_edge(s3, vx(abs1, Port::Aux1), vx(fin, Port::Aux1));
    lemma_kinds_create_edge(s3, vx(abs1, Port::Aux1), vx(fin, Port::Aux1));
    let s5 = sv_create_edge(s4, vx(abs2, Port::Aux1), vx(fin, Port::Aux2));
    lemma_kinds_create_edge(s4, vx(abs2, Port::Aux1), vx(fin, Port::Aux2));
    assert(labels_lt(s5, b));
    let s6 = if bound {
        let n4 = sv_new_node_v(s5, NodeKind::CstrK(CstrK::FanOut(label)));
        let fout = sv_new_node_i(s5);
        let t1 = sv_stitch_old_new(n4, vx(cid, Port::Aux2), vx(fout, Port::Main));
        let t2 = sv_create_edge(t1, vx(fout, Port::Aux1), vx(abs1, Port::Aux2));
        sv_create_edge(t2, vx(fout, Port::Aux2), vx(abs2, Port::Aux2))
    } else {
        s5
    };
    if bound {
        let n4 = sv_new_node_v(s5, NodeKind::CstrK(CstrK::FanOut(label)));
        lemma_labels_new_node(s5, NodeKind::CstrK(CstrK::FanOut(label)), b);
        let fout = sv_new_node_i(s5);
        let t1 = sv_stitch_old_new(n4, vx(cid, Port::Aux2), vx(fout, Port::Main));
        lemma_kinds_create_edge(n4, vx(cid, Port::Aux2), vx(fout, Port::Main));
        let t2 = sv_create_edge(t1, vx(fout, Port::Aux1), vx(abs1, Port::Aux2));
        lemma_kinds_create_edge(t1, vx(fout, Port::Aux1), vx(abs1, Port::Aux2));
        lemma_kinds_create_edge(t2, vx(fout, Port::Aux2), vx(abs2, Port::Aux2));
    }
    let s7 = NetV { nb_finabs: sat_inc_spec(s6.nb_finabs), ..s6 };
    assert(labels_lt(s7, b));
    assert(did < s7.nodes.len() && cid < s7.nodes.len());
    lemma_labels_clean(s7, did, cid, b);
}

/// Labels stay fresh when two fans meet, whether they annihilate or cross.
#[verifier::rlimit(100)]
pub proof fn lemma_labels_fin_fou(
    nv: NetV,
    did: usize,
    in_status: FIStatus,
    cid: usize,
    outlabel: Label,
)
    requires
        labels_ok(nv),
        avail_bounded(nv),
        outlabel < nv.next_label,
        kind_labels_lt(NodeKind::DstrK(DstrK::FanIn(in_status)), nv.next_label),
        did < nv.nodes.len(),
        cid < nv.nodes.len(),
    ensures
        labels_ok(sv_interact_fin_fou(nv, did, in_status, cid, outlabel)),
{
    let b = nv.next_label;
    if in_status == FIStatus::Labeled(outlabel) {
        let s1 = sv_stitch_old_old(nv, vx(did, Port::Aux1), vx(cid, Port::Aux1));
        lemma_kinds_create_edge(nv, vx(did, Port::Aux1), vx(cid, Port::Aux1));
        let s2 = sv_stitch_old_old(s1, vx(did, Port::Aux2), vx(cid, Port::Aux2));
        lemma_kinds_create_edge(s1, vx(did, Port::Aux2), vx(cid, Port::Aux2));
        let s3 = NetV { nb_finfou_a: sat_inc_spec(s2.nb_finfou_a), ..s2 };
        lemma_labels_clean(s3, did, cid, b);
    } else {
        let n1 = sv_new_node_v(nv, NodeKind::DstrK(DstrK::FanIn(in_status)));
        lemma_labels_new_node(nv, NodeKind::DstrK(DstrK::FanIn(in_status)), b);
        let fin1 = sv_new_node_i(nv);
        let n2 = sv_new_node_v(n1, NodeKind::DstrK(DstrK::FanIn(in_status)));
        lemma_labels_new_node(n1, NodeKind::DstrK(DstrK::FanIn(in_status)), b);
        let fin2 = sv_new_node_i(n1);
        let n3 = sv_new_node_v(n2, NodeKind::CstrK(CstrK::FanOut(outlabel)));
        lemma_labels_new_node(n2, NodeKind::CstrK(CstrK::FanOut(outlabel)), b);
        let fou1 = sv_new_node_i(n2);
        let n4 = sv_new_node_v(n3, NodeKind::CstrK(CstrK::FanOut(outlabel)));
        lemma_labels_new_node(n3, NodeKind::CstrK(CstrK::FanOut(outlabel)), b);
        let fou2 = sv_new_node_i(n3);
        let s1 = sv_stitch_old_new(n4, vx(did, Port::Aux1), vx(fou1, Port::Main));
        lemma_kinds_create_edge(n4, vx(did, Port::Aux1), vx(fou1, Port::Main));
        let s2 = sv_stitch_old_new(s1, vx(did, Port::Aux2), vx(fou2, Port::Main));
        lemma_kinds_create_edge(s1, vx(did, Port::Aux2), vx(fou2, Port::Main));
        let s3 = sv_stitch_new_old(s2, vx(fin1, Port::Main), vx(cid, Port::Aux1));
        lemma_kinds_create_edge(s2, vx(fin1, Port::Main), vx(cid, Port::Aux1));
        let s4 = sv_stitch_new_old(s3, vx(fin2, Port::Main), vx(cid, Port::Aux2));
        lemma_kinds_create_edge(s3, vx(fin2, Port::Main), vx(cid, Port::Aux2));
        let s5 = sv_create_edge(s4, vx(fou1, Port::Aux1), vx(fin1, Port::Aux1));
        lemma_kinds_create_edge(s4, vx(fou1, Port::Aux1), vx(fin1, Port::Aux1));
        let s6 = sv_create_edge(s5, vx(fou2, Port::Aux1), vx(fin1, Port::Aux2));
        lemma_kinds_create_edge(s5, vx(fou2, Port::Aux1), vx(fin1, Port::Aux2));
        let s7 = sv_create_edge(s6, vx(fou1, Port::Aux2), vx(fin2, Port::Aux1));
        lemma_kinds_create_edge(s6, vx(fou1, Port::Aux2), vx(fin2, Port::Aux1));
        let s8 = sv_create_edge(s7, vx(fou2, Port::Aux2), vx(fin2, Port::Aux2));
        lemma_kinds_create_edge(s7, vx(fou2, Port::Aux2), vx(fin2, Port::Aux2));
        let s9 = NetV { nb_finfou_d: sat_inc_spec(s8.nb_finfou_d), ..s8 };
        assert(labels_lt(s9, b));
        assert(did < s9.nodes.len() && cid < s9.nodes.len());
        lemma_labels_clean(s9, did, cid, b);
    }
}

/// The rewrite rules keep every sharing label strictly below the counter:
/// fresh fans either inherit a label that a node of the redex already
/// carried, or take the freshly drawn one, which the bumped counter again
/// exceeds. Labels therefore never repeat across the life of a net.
pub proof fn lemma_interact_labels(nv: NetV, did: usize, dkind: DstrK, cid: usize, ckind: CstrK)
    requires
        nv.wf(),
        labels_ok(nv),
        nv.next_label < u64::MAX,
        did < nv.nodes.len(),
        cid < nv.nodes.len(),
        nv.nodes[did as int].kind == NodeKind::DstrK(dkind),
        nv.nodes[cid as int].kind == NodeKind::CstrK(ckind),
    ensures
        labels_ok(sv_interact(nv, did, dkind, cid, ckind)),
{
    reveal(sv_interact);
    assert(kind_labels_lt(nv.nodes[did as int].kind, nv.next_label));
    assert(kind_labels_lt(nv.nodes[cid as int].kind, nv.next_label));
    assert(avail_bounded(nv)) by {
        assert forall|t: int| 0 <= t < nv.avail.len() implies #[trigger] nv.avail[t]
            < nv.nodes.len() by {
            assert(nv.nb_special <= nv.avail[t] < nv.nodes.len());
        }
    }
    match dkind {
        DstrK::Apply => match ckind {
            CstrK::Abs(_vname, bound) => {
                lemma_labels_app_abs(nv, did, cid, bound);
            },
            CstrK::FanOut(label) => {
                lemma_labels_app_fou(nv, did, cid, label);
            },
        },
        DstrK::FanIn(in_status) => match ckind {
            CstrK::Abs(vname, bound) => {
                lemma_labels_fin_abs(nv, did, in_status, cid, vname, bound);
            },
            CstrK::FanOut(outlabel) => {
                lemma_labels_fin_fou(nv, did, in_status, cid, outlabel);
            },
        },
    }
}

/// Total number of interactions a net has fired: the five rule counters.
pub open spec fn interactions_of(nv: NetV) -> int {
    nv.nb_appabs + nv.nb_appfou + nv.nb_finabs + nv.nb_finfou_a + nv.nb_finfou_d
}

/// Edge writes, stitches and collection requests never touch the five
/// interaction counters.
pub proof fn lemma_tally_frame(nv: NetV, src: Vertex, tgt: Vertex)
    ensures
        interactions_of(sv_create_edge(nv, src, tgt)) == interactions_of(nv),
        interactions_of(sv_stitch_old_old(nv, src, tgt)) == interactions_of(nv),
        interactions_of(sv_stitch_old_new(nv, src, tgt)) == interactions_of(nv),
        interactions_of(sv_stitch_new_old(nv, src, tgt)) == interactions_of(nv),
        interactions_of(crate::gc::sv_to_collect(nv, src)) == interactions_of(nv),
{
}

/// Allocation never touches the five interaction counters either.
pub proof fn lemma_tally_new_node(nv: NetV, kind: NodeKind)
    ensures
        interactions_of(sv_new_node_v(nv, kind)) == interactions_of(nv),
{
}

/// Neither does freeing the two endpoints of a finished interaction.
pub proof fn lemma_tally_clean(nv: NetV, did: usize, cid: usize)
    ensures
        interactions_of(sv_clean_inter(nv, did, cid)) == interactions_of(nv),
{
}

/// The beta arm raises the tally by exactly one.
proof fn lemma_tally_app_abs(nv: NetV, did: usize, cid: usize, bound: bool)
    requires
        interactions_of(nv) < u64::MAX,
    ensures
        interactions_of(sv_interact_app_abs(nv, did, cid, bound)) == interactions_of(nv) + 1,
{
    let s1 = sv_stitch_old_old(nv, vx(did, Port::Aux1), vx(cid, Port::Aux1));
    lemma_tally_frame(nv, vx(did, Port::Aux1), vx(cid, Port::Aux1));
    let s2 = if bound {
        sv_stitch_old_old(s1, vx(cid, Port::Aux2), vx(did, Port::Aux2))
    } else {
        crate::gc::sv_to_collect(s1, sv_slot(s1, vx(did, Port::Aux2)))
    };
    if bound {
        lemma_tally_frame(s1, vx(cid, Port::Aux2), vx(did, Port::Aux2));
    } else {
        lemma_tally_frame(s1, sv_slot(s1, vx(did, Port::Aux2)), vx(0, Port::Main));
    }
    let s3 = NetV { nb_appabs: sat_inc_spec(s2.nb_appabs), ..s2 };
    assert(interactions_of(s3) == interactions_of(nv) + 1);
    lemma_tally_clean(s3, did, cid);
}

/// The application-duplication arm raises the tally by exactly one.
#[verifier::rlimit(100)]
proof fn lemma_tally_app_fou(nv: NetV, did: usize, cid: usize, label: Label)
    requires
        interactions_of(nv) < u64::MAX,
    ensures
        interactions_of(sv_interact_app_fou(nv, did, cid, label)) == interactions_of(nv) + 1,
{
    lemma_tally_dup_chain(
                    nv,
        NodeKind::DstrK(DstrK::Apply),
        NodeKind::DstrK(DstrK::Apply),
        NodeKind::CstrK(CstrK::FanOut(label)),
        NodeKind::DstrK(DstrK::FanIn(FIStatus::Labeled(label))),
    );
    let n1 = sv_new_node_v(nv, NodeKind::DstrK(DstrK::Apply));
    let n2 = sv_new_node_v(n1, NodeKind::DstrK(DstrK::Apply));
    let n3 = sv_new_node_v(n2, NodeKind::CstrK(CstrK::FanOut(label)));
    let n4 = sv_new_node_v(n3, NodeKind::DstrK(DstrK::FanIn(FIStatus::Labeled(label))));
    let app1 = sv_new_node_i(nv);
    let app2 = sv_new_node_i(n1);
    let fou1 = sv_new_node_i(n2);
    let fin2 = sv_new_node_i(n3);
    let s1 = sv_stitch_old_new(n4, vx(did, Port::Aux1), vx(fou1, Port::Main));
    lemma_tally_frame(n4, vx(did, Port::Aux1), vx(fou1, Port::Main));
    let s2 = sv_stitch_new_old(s1, vx(app1, Port::Main), vx(cid, Port::Aux1));
    lemma_tally_frame(s1, vx(app1, Port::Main), vx(cid, Port::Aux1));
    let s3 = sv_stitch_new_old(s2, vx(app2, Port::Main), vx(cid, Port::Aux2));
    lemma_tally_frame(s2, vx(app2, Port::Main), vx(cid, Port::Aux2));
    let s4 = sv_stitch_new_old(s3, vx(fin2, Port::Main), vx(did, Port::Aux2));
    lemma_tally_frame(s3, vx(fin2, Port::Main), vx(did, Port::Aux2));
    let s5 = sv_create_edge(s4, vx(fou1, Port::Aux1), vx(app1, Port::Aux1));
    lemma_tally_frame(s4, vx(fou1, Port::Aux1), vx(app1, Port::Aux1));
    let s6 = sv_create_edge(s5, vx(fou1, Port::Aux2), vx(app2, Port::Aux1));
    lemma_tally_frame(s5, vx(fou1, Port::Aux2), vx(app2, Port::Aux1));
    let s7 = sv_create_edge(s6, vx(app1, Port::Aux2), vx(fin2, Port::Aux1));
    lemma_tally_frame(s6, vx(app1, Port::Aux2), vx(fin2, Port::Aux1));
    let s8 = sv_create_edge(s7, vx(app2, Port::Aux2), vx(fin2, Port::Aux2));
    lemma_tally_frame(s7, vx(app2, Port::Aux2), vx(fin2, Port::Aux2));
    let s9 = NetV { nb_appfou: sat_inc_spec(s8.nb_appfou), ..s8 };
    assert(interactions_of(s9) == interactions_of(nv) + 1);
    lemma_tally_clean(s9, did, cid);
}

/// The abstraction-duplication arm raises the tally by exactly one.
#[verifier::rlimit(100)]
proof fn lemma_tally_fin_abs(
    nv: NetV,
    did: usize,
    in_status: FIStatus,
    cid: usize,
    vname: String,
    bound: bool,
)
    requires
        interactions_of(nv) < u64::MAX,
    ensures
        interactions_of(sv_interact_fin_abs(nv, did, in_status, cid, vname, bound))
            == interactions_of(nv) + 1,
{
    let label = match in_status {
        FIStatus::Labeled(l) => l,
        FIStatus::Stem => nv.next_label,
    };
    let nv0 = match in_status {
        FIStatus::Labeled(_) => nv,
        FIStatus::Stem => NetV { next_label: (nv.next_label + 1) as u64, ..nv },
    };
    lemma_tally_dup_chain(
                    nv0,
        NodeKind::DstrK(DstrK::FanIn(FIStatus::Labeled(label))),
        NodeKind::CstrK(CstrK::Abs(vname, bound)),
        NodeKind::CstrK(CstrK::Abs(vname, bound)),
        NodeKind::CstrK(CstrK::FanOut(label)),
    );
    let n1 = sv_new_node_v(nv0, NodeKind::DstrK(DstrK::FanIn(FIStatus::Labeled(label))));
    let fin = sv_new_node_i(nv0);
    let n2 = sv_new_node_v(n1, NodeKind::CstrK(CstrK::Abs(vname, bound)));
    let abs1 = sv_new_node_i(n1);
    let n3 = sv_new_node_v(n2, NodeKind::CstrK(CstrK::Abs(vname, bound)));
    let abs2 = sv_new_node_i(n2);
    let s1 = sv_stitch_old_new(n3, vx(did, Port::Aux1), vx(abs1, Port::Main));
    lemma_tally_frame(n3, vx(did, Port::Aux1), vx(abs1, Port::Main));
    let s2 = sv_stitch_old_new(s1, vx(did, Port::Aux2), vx(abs2, Port::Main));
    lemma_tally_frame(s1, vx(did, Port::Aux2), vx(abs2, Port::Main));
    let s3 = sv_stitch_new_old(s2, vx(fin, Port::Main), vx(cid, Port::Aux1));
    lemma_tally_frame(s2, vx(fin, Port::Main), vx(cid, Port::Aux1));
    let s4 = sv_create_edge(s3, vx(abs1, Port::Aux1), vx(fin, Port::Aux1));
    lemma_tally_frame(s3, vx(abs1, Port::Aux1), vx(fin, Port::Aux1));
    let s5 = sv_create_edge(s4, vx(abs2, Port::Aux1), vx(fin, Port::Aux2));
    lemma_tally_frame(s4, vx(abs2, Port::Aux1), vx(fin, Port::Aux2));
    let s6 = if bound {
        let n4 = sv_new_node_v(s5, NodeKind::CstrK(CstrK::FanOut(label)));
        let fout = sv_new_node_i(s5);
        let t1 = sv_stitch_old_new(n4, vx(cid, Port::Aux2), vx(fout, Port::Main));
        let t2 = sv_create_edge(t1, vx(fout, Port::Aux1), vx(abs1, Port::Aux2));
        sv_create_edge(t2, vx(fout, Port::Aux2), vx(abs2, Port::Aux2))
    } else {
        s5
    };
    if bound {
        let n4 = sv_new_node_v(s5, NodeKind::CstrK(CstrK::FanOut(label)));
        lemma_tally_new_node(s5, NodeKind::CstrK(CstrK::FanOut(label)));
        let fout = sv_new_node_i(s5);
        let t1 = sv_stitch_old_new(n4, vx(cid, Port::Aux2), vx(fout, Port::Main));
        lemma_tally_frame(n4, vx(cid, Port::Aux2), vx(fout, Port::Main));
        let t2 = sv_create_edge(t1, vx(fout, Port::Aux1), vx(abs1, Port::Aux2));
        lemma_tally_frame(t1, vx(fout, Port::Aux1), vx(abs1, Port::Aux2));
        lemma_tally_frame(t2, vx(fout, Port::Aux2), vx(abs2, Port::Aux2));
    }
    let s7 = NetV { nb_finabs: sat_inc_spec(s6.nb_finabs), ..s6 };
    assert(interactions_of(s7) == interactions_of(nv) + 1);
    lemma_tally_clean(s7, did, cid);
}

/// The fan-meets-fan arm raises the tally by exactly one.
#[verifier::rlimit(100)]
proof fn lemma_tally_fin_fou(
    nv: NetV,
    did: usize,
    in_status: FIStatus,
    cid: usize,
    outlabel: Label,
)
    requires
        interactions_of(nv) < u64::MAX,
    ensures
        interactions_of(sv_interact_fin_fou(nv, did, in_status, cid, outlabel))
            == interactions_of(nv) + 1,
{
    if in_status == FIStatus::Labeled(outlabel) {
        let s1 = sv_stitch_old_old(nv, vx(did, Port::Aux1), vx(cid, Port::Aux1));
        lemma_tally_frame(nv, vx(did, Port::Aux1), vx(cid, Port::Aux1));
        let s2 = sv_stitch_old_old(s1, vx(did, Port::Aux2), vx(cid, Port::Aux2));
        lemma_tally_frame(s1, vx(did, Port::Aux2), vx(cid, Port::Aux2));
        let s3 = NetV { nb_finfou_a: sat_inc_spec(s2.nb_finfou_a), ..s2 };
        assert(interactions_of(s3) == interactions_of(nv) + 1);
        lemma_tally_clean(s3, did, cid);
    } else {
        lemma_tally_dup_chain(
                    nv,
            NodeKind::DstrK(DstrK::FanIn(in_status)),
            NodeKind::DstrK(DstrK::FanIn(in_status)),
            NodeKind::CstrK(CstrK::FanOut(outlabel)),
            NodeKind::CstrK(CstrK::FanOut(outlabel)),
        );
        let n1 = sv_new_node_v(nv, NodeKind::DstrK(DstrK::FanIn(in_status)));
        let fin1 = sv_new_node_i(nv);
        let n2 = sv_new_node_v(n1, NodeKind::DstrK(DstrK::FanIn(in_status)));
        let fin2 = sv_new_node_i(n1);
        let n3 = sv_new_node_v(n2, NodeKind::CstrK(CstrK::FanOut(outlabel)));
        let fou1 = sv_new_node_i(n2);
        let n4 = sv_new_node_v(n3, NodeKind::CstrK(CstrK::FanOut(outlabel)));
        let fou2 = sv_new_node_i(n3);
        let s1 = sv_stitch_old_new(n4, vx(did, Port::Aux1), vx(fou1, Port::Main));
        lemma_tally_frame(n4, vx(did, Port::Aux1), vx(fou1, Port::Main));
        let s2 = sv_stitch_old_new(s1, vx(did, Port::Aux2), vx(fou2, Port::Main));
        lemma_tally_frame(s1, vx(did, Port::Aux2), vx(fou2, Port::Main));
        let s3 = sv_stitch_new_old(s2, vx(fin1, Port::Main), vx(cid, Port::Aux1));
        lemma_tally_frame(s2, vx(fin1, Port::Main), vx(cid, Port::Aux1));
        let s4 = sv_stitch_new_old(s3, vx(fin2, Port::Main), vx(cid, Port::Aux2));
        lemma_tally_frame(s3, vx(fin2, Port::Main), vx(cid, Port::Aux2));
        let s5 = sv_create_edge(s4, vx(fou1, Port::Aux1), vx(fin1, Port::Aux1));
        lemma_tally_frame(s4, vx(fou1, Port::Aux1), vx(fin1, Port::Aux1));
        let s6 = sv_create_edge(s5, vx(fou2, Port::Aux1), vx(fin1, Port::Aux2));
        lemma_tally_frame(s5, vx(fou2, Port::Aux1), vx(fin1, Port::Aux2));
        let s7 = sv_create_edge(s6, vx(fou1, Port::Aux2), vx(fin2, Port::Aux1));
        lemma_tally_frame(s6, vx(fou1, Port::Aux2), vx(fin2, Port::Aux1));
        let s8 = sv_create_edge(s7, vx(fou2, Port::Aux2), vx(fin2, Port::Aux2));
        lemma_tally_frame(s7, vx(fou2, Port::Aux2), vx(fin2, Port::Aux2));
        let s9 = NetV { nb_finfou_d: sat_inc_spec(s8.nb_finfou_d), ..s8 };
        assert(interactions_of(s9) == interactions_of(nv) + 1);
        lemma_tally_clean(s9, did, cid);
    }
}

/// One interaction raises the tally by exactly one, as long as the tally has
/// room.
pub proof fn lemma_interact_tally(nv: NetV, did: usize, dkind: DstrK, cid: usize, ckind: CstrK)
    requires
        interactions_of(nv) < u64::MAX,
    ensures
        interactions_of(sv_interact(nv, did, dkind, cid, ckind)) == interactions_of(nv) + 1,
{
    reveal(sv_interact);
    match dkind {
        DstrK::Apply => match ckind {
            CstrK::Abs(_vname, bound) => lemma_tally_app_abs(nv, did, cid, bound),
            CstrK::FanOut(label) => lemma_tally_app_fou(nv, did, cid, label),
        },
        DstrK::FanIn(in_status) => match ckind {
            CstrK::Abs(vname, bound) => lemma_tally_fin_abs(nv, did, in_status, cid, vname, bound),
            CstrK::FanOut(outlabel) => lemma_tally_fin_fou(nv, did, in_status, cid, outlabel),
        },
    }
}

/// The four allocations of a duplication arm keep the tally.
proof fn lemma_tally_dup_chain(nv: NetV, k1: NodeKind, k2: NodeKind, k3: NodeKind, k4: NodeKind)
    ensures
        interactions_of(
            sv_new_node_v(
                sv_new_node_v(sv_new_node_v(sv_new_node_v(nv, k1), k2), k3),
                k4,
            ),
        ) == interactions_of(nv),
{
    lemma_tally_new_node(nv, k1);
    lemma_tally_new_node(sv_new_node_v(nv, k1), k2);
    lemma_tally_new_node(sv_new_node_v(sv_new_node_v(nv, k1), k2), k3);
    lemma_tally_new_node(sv_new_node_v(sv_new_node_v(sv_new_node_v(nv, k1), k2), k3), k4);
}

/// An index absent from the free-list stays absent after a push of a
/// different index.
pub proof fn lemma_push_not_contains(a: Seq<usize>, x: usize, y: usize)
    requires
        !a.contains(y),
        x != y,
    ensures
        !a.push(x).contains(y),
{
    assert forall|i: int| 0 <= i < a.push(x).len() implies a.push(x)[i] != y by {
        if i < a.len() {
            if a[i] == y {
                assert(a.contains(y));
            }
        }
    }
    if a.push(x).contains(y) {
        let i = choose|i: int| 0 <= i < a.push(x).len() && a.push(x)[i] == y;
        assert(false);
    }
}

/// Pushing a fresh, in-range, non-special index keeps the free-list
/// well-formed.
pub proof fn lemma_avail_push(a: Seq<usize>, x: usize, special: usize, len: int)
    requires
        avail_inv(a, special, len),
        !a.contains(x),
        special <= x < len,
    ensures
        avail_inv(a.push(x), special, len),
{
    assert forall|i: int| 0 <= i < a.len() implies a[i] != x by {
        if a[i] == x {
            assert(a.contains(x));
        }
    }
}

/// Frame of a collection request: only node slots and the queues change.
pub proof fn lemma_frame_to_collect(nv: NetV, v: Vertex)
    ensures
        crate::gc::sv_to_collect(nv, v).avail == nv.avail,
        crate::gc::sv_to_collect(nv, v).nodes.len() == nv.nodes.len(),
        crate::gc::sv_to_collect(nv, v).mode == nv.mode,
        crate::gc::sv_to_collect(nv, v).nb_special == nv.nb_special,
        crate::gc::sv_to_collect(nv, v).next_label == nv.next_label,
        nv.mode == GcMode::NoGc ==> crate::gc::sv_to_collect(nv, v).to_erase == nv.to_erase
            && crate::gc::sv_to_collect(nv, v).to_sink == nv.to_sink,
{
}

impl Net {
    /// The Apply-Abs arm of `interact`: the beta step.
    #[verifier::rlimit(100)]
    fn interact_app_abs(&mut self, did: usize, cid: usize, bound: bool)
        requires
            old(self)@.wf(),
            did < old(self)@.nodes.len(),
            cid < old(self)@.nodes.len(),
            did != cid,
            !old(self)@.avail.contains(did),
            !old(self)@.avail.contains(cid),
            old(self)@.nb_special <= did,
            old(self)@.nb_special <= cid,
        ensures
            final(self)@ == sv_interact_app_abs(old(self)@, did, cid, bound),
            final(self)@.wf(),
            final(self)@.mode == old(self)@.mode,
            final(self)@.nb_special == old(self)@.nb_special,
            final(self)@.next_label == old(self)@.next_label,
            final(self)@.nodes.len() >= old(self)@.nodes.len(),
    {
        let ghost g0 = self@;
        self.stitch_old_old(mkv(did, 1), mkv(cid, 1));
        proof {
            lemma_frame_stitch(g0, vx(did, Port::Aux1), vx(cid, Port::Aux1));
        }
        let ghost g1 = self@;
        if bound {
            self.stitch_old_old(mkv(cid, 2), mkv(did, 2));
            proof {
                lemma_frame_stitch(g1, vx(cid, Port::Aux2), vx(did, Port::Aux2));
            }
        } else {
            let a = self.follow(mkv(did, 2));
            self.to_collect(a);
            proof {
                lemma_frame_to_collect(g1, a);
            }
        }
        self.nb_appabs = sat_inc(self.nb_appabs);
        self.clean_inter(did, cid);
        proof {
            lemma_push_not_contains(g0.avail, did, cid);
            lemma_avail_push(g0.avail, did, g0.nb_special, g0.nodes.len() as int);
            lemma_avail_push(g0.avail.push(did), cid, g0.nb_special, g0.nodes.len() as int);
            assert(self@ == sv_interact_app_abs(g0, did, cid, bound));
        }
    }

    /// The Apply-FanOut arm of `interact`: the application splits through
    /// the shared constructor.
    #[verifier::rlimit(100)]
    fn interact_app_fou(&mut self, did: usize, cid: usize, label: Label)
        requires
            old(self)@.wf(),
            did < old(self)@.nodes.len(),
            cid < old(self)@.nodes.len(),
            did != cid,
            !old(self)@.avail.contains(did),
            !old(self)@.avail.contains(cid),
            old(self)@.nb_special <= did,
            old(self)@.nb_special <= cid,
        ensures
            final(self)@ == sv_interact_app_fou(old(self)@, did, cid, label),
            final(self)@.wf(),
            final(self)@.mode == old(self)@.mode,
            final(self)@.nb_special == old(self)@.nb_special,
            final(self)@.next_label == old(self)@.next_label,
            final(self)@.nodes.len() >= old(self)@.nodes.len(),
    {
        let ghost g0 = self@;
        let app1 = self.new_app();
        proof {
            lemma_new_node_wf(g0, NodeKind::DstrK(DstrK::Apply));
            lemma_new_node_not_contains(g0, NodeKind::DstrK(DstrK::Apply), did);
            lemma_new_node_not_contains(g0, NodeKind::DstrK(DstrK::Apply), cid);
        }
        let ghost g1 = self@;
        let app2 = self.new_app();
        proof {
            lemma_new_node_wf(g1, NodeKind::DstrK(DstrK::Apply));
            lemma_new_node_not_contains(g1, NodeKind::DstrK(DstrK::Apply), did);
            lemma_new_node_not_contains(g1, NodeKind::DstrK(DstrK::Apply), cid);
        }
        let ghost g2 = self@;
        let fou1 = self.new_fout(label);
        proof {
            lemma_new_node_wf(g2, NodeKind::CstrK(CstrK::FanOut(label)));
            lemma_new_node_not_contains(g2, NodeKind::CstrK(CstrK::FanOut(label)), did);
            lemma_new_node_not_contains(g2, NodeKind::CstrK(CstrK::FanOut(label)), cid);
        }
        let ghost g3 = self@;
        let fin2 = self.new_fin(FIStatus::Labeled(label));
        proof {
            lemma_new_node_wf(g3, NodeKind::DstrK(DstrK::FanIn(FIStatus::Labeled(label))));
            lemma_new_node_not_contains(
                g3,
                NodeKind::DstrK(DstrK::FanIn(FIStatus::Labeled(label))),
                did,
            );
            lemma_new_node_not_contains(
                g3,
                NodeKind::DstrK(DstrK::FanIn(FIStatus::Labeled(label))),
                cid,
            );
        }
        let ghost g4 = self@;
        self.stitch_old_new(mkv(did, 1), Vertex::main(fou1));
        proof {
            lemma_frame_stitch(g4, vx(did, Port::Aux1), vx(fou1, Port::Main));
        }
        let ghost g5 = self@;
        self.stitch_new_old(Vertex::main(app1), mkv(cid, 1));
        proof {
            lemma_frame_stitch(g5, vx(app1, Port::Main), vx(cid, Port::Aux1));
        }
        let ghost g6 = self@;
        self.stitch_new_old(Vertex::main(app2), mkv(cid, 2));
        proof {
            lemma_frame_stitch(g6, vx(app2, Port::Main), vx(cid, Port::Aux2));
        }
        let ghost g7 = self@;
        self.stitch_new_old(Vertex::main(fin2), mkv(did, 2));
        proof {
            lemma_frame_stitch(g7, vx(fin2, Port::Main), vx(did, Port::Aux2));
        }
        let ghost g8 = self@;
        self.stitch_new_new(mkv(fou1, 1), mkv(app1, 1));
        proof {
            lemma_frame_create_edge(g8, vx(fou1, Port::Aux1), vx(app1, Port::Aux1));
        }
        let ghost g9 = self@;
        self.stitch_new_new(mkv(fou1, 2), mkv(app2, 1));
        proof {
            lemma_frame_create_edge(g9, vx(fou1, Port::Aux2), vx(app2, Port::Aux1));
        }
        let ghost g10 = self@;
        self.stitch_new_new(mkv(app1, 2), mkv(fin2, 1));
        proof {
            lemma_frame_create_edge(g10, vx(app1, Port::Aux2), vx(fin2, Port::Aux1));
        }
        let ghost g11 = self@;
        self.stitch_new_new(mkv(app2, 2), mkv(fin2, 2));
        proof {
            lemma_frame_create_edge(g11, vx(app2, Port::Aux2), vx(fin2, Port::Aux2));
        }
        self.nb_appfou = sat_inc(self.nb_appfou);
        let ghost g12 = self@;
        self.clean_inter(did, cid);
        proof {
            lemma_push_not_contains(g12.avail, did, cid);
            lemma_avail_push(g12.avail, did, g12.nb_special, g12.nodes.len() as int);
            lemma_avail_push(g12.avail.push(did), cid, g12.nb_special, g12.nodes.len() as int);
            assert(self@ == sv_interact_app_fou(g0, did, cid, label));
        }
    }

    /// The FanIn-Abs arm of `interact`: duplicate the abstraction through
    /// the fan; a stem fan-in draws a fresh label and starts a sharing.
    #[verifier::rlimit(100)]
    fn interact_fin_abs(
        &mut self,
        did: usize,
        in_status: FIStatus,
        cid: usize,
        vname: String,
        bound: bool,
    )
        requires
            old(self)@.wf(),
            did < old(self)@.nodes.len(),
            cid < old(self)@.nodes.len(),
            did != cid,
            !old(self)@.avail.contains(did),
            !old(self)@.avail.contains(cid),
            old(self)@.nb_special <= did,
            old(self)@.nb_special <= cid,
            old(self)@.next_label < Label::MAX,
        ensures
            final(self)@ == sv_interact_fin_abs(old(self)@, did, in_status, cid, vname, bound),
            final(self)@.wf(),
            final(self)@.mode == old(self)@.mode,
            final(self)@.nb_special == old(self)@.nb_special,
            final(self)@.next_label >= old(self)@.next_label,
            final(self)@.nodes.len() >= old(self)@.nodes.len(),
    {
        let ghost g0 = self@;
        let label: Label = match in_status {
            FIStatus::Labeled(l) => l,
            FIStatus::Stem => self.new_label(),
        };
        let ghost gl = self@;
        let fin = self.new_fin(FIStatus::Labeled(label));
        proof {
            lemma_new_node_wf(gl, NodeKind::DstrK(DstrK::FanIn(FIStatus::Labeled(label))));
            lemma_new_node_not_contains(
                gl,
                NodeKind::DstrK(DstrK::FanIn(FIStatus::Labeled(label))),
                did,
            );
            lemma_new_node_not_contains(
                gl,
                NodeKind::DstrK(DstrK::FanIn(FIStatus::Labeled(label))),
                cid,
            );
        }
        let ghost g1 = self@;
        let abs1 = self.new_abs(vname.clone(), bound);
        proof {
            lemma_new_node_wf(g1, NodeKind::CstrK(CstrK::Abs(vname, bound)));
            lemma_new_node_not_contains(g1, NodeKind::CstrK(CstrK::Abs(vname, bound)), did);
            lemma_new_node_not_contains(g1, NodeKind::CstrK(CstrK::Abs(vname, bound)), cid);
        }
        let ghost g2 = self@;
        let abs2 = self.new_abs(vname, bound);
        proof {
            lemma_new_node_wf(g2, NodeKind::CstrK(CstrK::Abs(vname, bound)));
            lemma_new_node_not_contains(g2, NodeKind::CstrK(CstrK::Abs(vname, bound)), did);
            lemma_new_node_not_contains(g2, NodeKind::CstrK(CstrK::Abs(vname, bound)), cid);
        }
        let ghost g3 = self@;
        self.stitch_old_new(mkv(did, 1), Vertex::main(abs1));
        proof {
            lemma_frame_stitch(g3, vx(did, Port::Aux1), vx(abs1, Port::Main));
        }
        let ghost g4 = self@;
        self.stitch_old_new(mkv(did, 2), Vertex::main(abs2));
        proof {
            lemma_frame_stitch(g4, vx(did, Port::Aux2), vx(abs2, Port::Main));
        }
        let ghost g5 = self@;
        self.stitch_new_old(Vertex::main(fin), mkv(cid, 1));
        proof {
            lemma_frame_stitch(g5, vx(fin, Port::Main), vx(cid, Port::Aux1));
        }
        let ghost g6 = self@;
        self.stitch_new_new(mkv(abs1, 1), mkv(fin, 1));
        proof {
            lemma_frame_create_edge(g6, vx(abs1, Port::Aux1), vx(fin, Port::Aux1));
        }
        let ghost g7 = self@;
        self.stitch_new_new(mkv(abs2, 1), mkv(fin, 2));
        proof {
            lemma_frame_create_edge(g7, vx(abs2, Port::Aux1), vx(fin, Port::Aux2));
        }
        let ghost g8 = self@;
        if bound {
            let fout = self.new_fout(label);
            proof {
                lemma_new_node_wf(g8, NodeKind::CstrK(CstrK::FanOut(label)));
                lemma_new_node_not_contains(g8, NodeKind::CstrK(CstrK::FanOut(label)), did);
                lemma_new_node_not_contains(g8, NodeKind::CstrK(CstrK::FanOut(label)), cid);
            }
            let ghost g9 = self@;
            self.stitch_old_new(mkv(cid, 2), Vertex::main(fout));
            proof {
                lemma_frame_stitch(g9, vx(cid, Port::Aux2), vx(fout, Port::Main));
            }
            let ghost g10 = self@;
            self.stitch_new_new(mkv(fout, 1), mkv(abs1, 2));
            proof {
                lemma_frame_create_edge(g10, vx(fout, Port::Aux1), vx(abs1, Port::Aux2));
            }
            let ghost g11 = self@;
            self.stitch_new_new(mkv(fout, 2), mkv(abs2, 2));
            proof {
                lemma_frame_create_edge(g11, vx(fout, Port::Aux2), vx(abs2, Port::Aux2));
            }
        }
        self.nb_finabs = sat_inc(self.nb_finabs);
        let ghost g12 = self@;
        self.clean_inter(did, cid);
        proof {
            lemma_push_not_contains(g12.avail, did, cid);
            lemma_avail_push(g12.avail, did, g12.nb_special, g12.nodes.len() as int);
            lemma_avail_push(g12.avail.push(did), cid, g12.nb_special, g12.nodes.len() as int);
            assert(self@ == sv_interact_fin_abs(g0, did, in_status, cid, vname, bound));
        }
    }

    /// The FanIn-FanOut arm of `interact`: matching labels annihilate,
    /// others cross and duplicate each other.
    #[verifier::rlimit(100)]
    fn interact_fin_fou(&mut self, did: usize, in_status: FIStatus, cid: usize, outlabel: Label)
        requires
            old(self)@.wf(),
            did < old(self)@.nodes.len(),
            cid < old(self)@.nodes.len(),
            did != cid,
            !old(self)@.avail.contains(did),
            !old(self)@.avail.contains(cid),
            old(self)@.nb_special <= did,
            old(self)@.nb_special <= cid,
        ensures
            final(self)@ == sv_interact_fin_fou(old(self)@, did, in_status, cid, outlabel),
            final(self)@.wf(),
            final(self)@.mode == old(self)@.mode,
            final(self)@.nb_special == old(self)@.nb_special,
            final(self)@.next_label == old(self)@.next_label,
            final(self)@.nodes.len() >= old(self)@.nodes.len(),
    {
        let ghost g0 = self@;
        if in_status.is_matching(outlabel) {
            self.stitch_old_old(mkv(did, 1), mkv(cid, 1));
            proof {
                lemma_frame_stitch(g0, vx(did, Port::Aux1), vx(cid, Port::Aux1));
            }
            let ghost g1 = self@;
            self.stitch_old_old(mkv(did, 2), mkv(cid, 2));
            proof {
                lemma_frame_stitch(g1, vx(did, Port::Aux2), vx(cid, Port::Aux2));
            }
            self.nb_finfou_a = sat_inc(self.nb_finfou_a);
            self.clean_inter(did, cid);
            proof {
                lemma_push_not_contains(g0.avail, did, cid);
                lemma_avail_push(g0.avail, did, g0.nb_special, g0.nodes.len() as int);
                lemma_avail_push(g0.avail.push(did), cid, g0.nb_special, g0.nodes.len() as int);
                assert(self@ == sv_interact_fin_fou(g0, did, in_status, cid, outlabel));
            }
        } else {
            let fin1 = self.new_fin(in_status);
            proof {
                lemma_new_node_wf(g0, NodeKind::DstrK(DstrK::FanIn(in_status)));
                lemma_new_node_not_contains(g0, NodeKind::DstrK(DstrK::FanIn(in_status)), did);
                lemma_new_node_not_contains(g0, NodeKind::DstrK(DstrK::FanIn(in_status)), cid);
            }
            let ghost g1 = self@;
            let fin2 = self.new_fin(in_status);
            proof {
                lemma_new_node_wf(g1, NodeKind::DstrK(DstrK::FanIn(in_status)));
                lemma_new_node_not_contains(g1, NodeKind::DstrK(DstrK::FanIn(in_status)), did);
                lemma_new_node_not_contains(g1, NodeKind::DstrK(DstrK::FanIn(in_status)), cid);
            }
            let ghost g2 = self@;
            let fou1 = self.new_fout(outlabel);
            proof {
                lemma_new_node_wf(g2, NodeKind::CstrK(CstrK::FanOut(outlabel)));
                lemma_new_node_not_contains(g2, NodeKind::CstrK(CstrK::FanOut(outlabel)), did);
                lemma_new_node_not_contains(g2, NodeKind::CstrK(CstrK::FanOut(outlabel)), cid);
            }
            let ghost g3 = self@;
            let fou2 = self.new_fout(outlabel);
            proof {
                lemma_new_node_wf(g3, NodeKind::CstrK(CstrK::FanOut(outlabel)));
                lemma_new_node_not_contains(g3, NodeKind::CstrK(CstrK::FanOut(outlabel)), did);
                lemma_new_node_not_contains(g3, NodeKind::CstrK(CstrK::FanOut(outlabel)), cid);
            }
            let ghost g4 = self@;
            self.stitch_old_new(mkv(did, 1), Vertex::main(fou1));
            proof {
                lemma_frame_stitch(g4, vx(did, Port::Aux1), vx(fou1, Port::Main));
            }
            let ghost g5 = self@;
            self.stitch_old_new(mkv(did, 2), Vertex::main(fou2));
            proof {
                lemma_frame_stitch(g5, vx(did, Port::Aux2), vx(fou2, Port::Main));
            }
            let ghost g6 = self@;
            self.stitch_new_old(Vertex::main(fin1), mkv(cid, 1));
            proof {
                lemma_frame_stitch(g6, vx(fin1, Port::Main), vx(cid, Port::Aux1));
            }
            let ghost g7 = self@;
            self.stitch_new_old(Vertex::main(fin2), mkv(cid, 2));
            proof {
                lemma_frame_stitch(g7, vx(fin2, Port::Main), vx(cid, Port::Aux2));
            }
            let ghost g8 = self@;
            self.stitch_new_new(mkv(fou1, 1), mkv(fin1, 1));
            proof {
                lemma_frame_create_edge(g8, vx(fou1, Port::Aux1), vx(fin1, Port::Aux1));
            }
            let ghost g9 = self@;
            self.stitch_new_new(mkv(fou2, 1), mkv(fin1, 2));
            proof {
                lemma_frame_create_edge(g9, vx(fou2, Port::Aux1), vx(fin1, Port::Aux2));
            }
            let ghost g10 = self@;
            self.stitch_new_new(mkv(fou1, 2), mkv(fin2, 1));
            proof {
                lemma_frame_create_edge(g10, vx(fou1, Port::Aux2), vx(fin2, Port::Aux1));
            }
            let ghost g11 = self@;
            self.stitch_new_new(mkv(fou2, 2), mkv(fin2, 2));
            proof {
                lemma_frame_create_edge(g11, vx(fou2, Port::Aux2), vx(fin2, Port::Aux2));
            }
            self.nb_finfou_d = sat_inc(self.nb_finfou_d);
            let ghost g12 = self@;
            self.clean_inter(did, cid);
            proof {
                lemma_push_not_contains(g12.avail, did, cid);
                lemma_avail_push(g12.avail, did, g12.nb_special, g12.nodes.len() as int);
                lemma_avail_push(g12.avail.push(did), cid, g12.nb_special, g12.nodes.len() as int);
                assert(self@ == sv_interact_fin_fou(g0, did, in_status, cid, outlabel));
            }
        }
    }

    /// Fire one interaction between the destructor `did` (of kind `dkind`)
    /// and the constructor `cid` (of kind `ckind`), which meet main port to
    /// main port. The net afterwards is exactly `sv_interact` of the net
    /// before; both old nodes are freed and the label counter never
    /// decreases.
    pub fn interact(&mut self, did: usize, dkind: DstrK, cid: usize, ckind: CstrK)
        requires
            old(self)@.wf(),
            did < old(self)@.nodes.len(),
            cid < old(self)@.nodes.len(),
            did != cid,
            !old(self)@.avail.contains(did),
            !old(self)@.avail.contains(cid),
            old(self)@.nb_special <= did,
            old(self)@.nb_special <= cid,
            old(self)@.next_label < Label::MAX,
        ensures
            final(self)@ == sv_interact(old(self)@, did, dkind, cid, ckind),
            final(self)@.wf(),
            final(self)@.mode == old(self)@.mode,
            final(self)@.nb_special == old(self)@.nb_special,
            final(self)@.next_label >= old(self)@.next_label,
            final(self)@.nodes.len() >= old(self)@.nodes.len(),
    {
        proof {
            reveal(sv_interact);
        }
        match dkind {
            DstrK::Apply => match ckind {
                CstrK::Abs(_vname, bound) => self.interact_app_abs(did, cid, bound),
                CstrK::FanOut(label) => self.interact_app_fou(did, cid, label),
            },
            DstrK::FanIn(in_status) => match ckind {
                CstrK::Abs(vname, bound) => self.interact_fin_abs(
                    did,
                    in_status,
                    cid,
                    vname,
                    bound,
                ),
                CstrK::FanOut(outlabel) => self.interact_fin_fou(did, in_status, cid, outlabel),
            },
        }
    }
}

impl Net {
    /// One line of the statistics report: a label, a number, a newline.
    fn stat_line(res: &mut String, label: &str, value: u64) {
        res.append(label);
        let num = crate::text::u64_to_string(value);
        res.append(num.as_str());
        res.append("\n");
    }

    /// Render the counters as a report. The text is not part of any
    /// contract; the only state change is refreshing the high-water mark of
    /// the arena length.
    pub fn print_stats(&mut self) -> (r: String)
        ensures
            final(self)@ == (NetV {
                max_node_len: if old(self)@.max_node_len < old(self)@.nodes.len() {
                    old(self)@.nodes.len() as usize
                } else {
                    old(self)@.max_node_len
                },
                ..old(self)@
            }),
    {
        if self.max_node_len < self.nodes.len() {
            self.max_node_len = self.nodes.len();
        }
        let fansteps = sat_add(
            sat_add(self.nb_appfou, self.nb_finabs),
            sat_add(self.nb_finfou_a, self.nb_finfou_d),
        );
        let steps = sat_add(self.nb_appabs, fansteps);
        let total_remove = sat_add(self.get_nb_collected(), self.nb_remove_inter);
        let mut res = String::new();
        Self::stat_line(&mut res, "Reductions           : ", steps);
        Self::stat_line(&mut res, "    APP-LAMBDA           : ", self.nb_appabs);
        Self::stat_line(&mut res, "    FAN                  : ", fansteps);
        Self::stat_line(&mut res, "        APP-FOU              : ", self.nb_appfou);
        Self::stat_line(&mut res, "        FIN-LAMBDA           : ", self.nb_finabs);
        Self::stat_line(&mut res, "        FIN-FOU (dup)        : ", self.nb_finfou_d);
        Self::stat_line(&mut res, "        FIN-FOU (ann)        : ", self.nb_finfou_a);
        Self::stat_line(&mut res, "Nodes used           : ", self.nb_used);
        Self::stat_line(&mut res, "    Max created          : ", self.max_node_len as u64);
        let in_use: usize = if self.nodes.len() >= self.available_indexes.len() {
            self.nodes.len() - self.available_indexes.len()
        } else {
            0
        };
        Self::stat_line(&mut res, "    Nodes in use         : ", in_use as u64);
        Self::stat_line(
            &mut res,
            "    Nodes available      : ",
            self.available_indexes.len() as u64,
        );
        Self::stat_line(&mut res, "    Reused               : ", self.nb_reused);
        Self::stat_line(&mut res, "Nodes removed        : ", total_remove);
        Self::stat_line(&mut res, "    Interactions         : ", self.nb_remove_inter);
        Self::stat_line(&mut res, "    GC                   : ", self.get_nb_collected());
        let gcs = self.get_stats();
        res.append(gcs.as_str());
        res
    }

    /// Whether the bidirectional-edge invariant holds at `(i, p)`: a
    /// non-NULL slot of a live node pointing at a live node must be pointed
    /// back at from there.
    fn bidir_at(&self, i: usize, p: Port) -> (r: bool)
        requires
            i < self@.nodes.len(),
        ensures
            r == (self@.is_live(i) && self@.nodes[i as int].slot_spec(p) != null_spec()
                && self@.is_live(self@.nodes[i as int].slot_spec(p).index) ==> {
                let v = self@.nodes[i as int].slot_spec(p);
                self@.nodes[v.index as int].slot_spec(v.port) == (Vertex { index: i, port: p })
            }),
    {
        if self.search_available_indexes(i) {
            return true;
        }
        let t = self.nodes[i].slot(p);
        if t == null_vertex() {
            return true;
        }
        if !(t.index < self.nodes.len()) {
            return true;
        }
        if self.search_available_indexes(t.index) {
            return true;
        }
        let back = self.nodes[t.index].slot(t.port);
        back == Vertex::new(i, p)
    }

    /// Check the bidirectional-edge invariant over the whole arena: for
    /// every live node and every port, a non-NULL slot pointing at a live
    /// node is pointed back at from there.
    pub fn check_bidirectional(&self) -> (r: bool)
        ensures
            r == self@.bidirectional(),
    {
        let mut i: usize = 0;
        while i < self.nodes.len()
            invariant
                i <= self@.nodes.len(),
                forall|k: usize, p: Port|
                    k < i && self@.is_live(k) && #[trigger] self@.nodes[k as int].slot_spec(p)
                        != null_spec() && self@.is_live(
                        self@.nodes[k as int].slot_spec(p).index,
                    ) ==> {
                        let v = self@.nodes[k as int].slot_spec(p);
                        self@.nodes[v.index as int].slot_spec(v.port) == (Vertex {
                            index: k,
                            port: p,
                        })
                    },
            decreases self@.nodes.len() - i,
        {
            if !self.bidir_at(i, Port::Main) {
                return false;
            }
            if !self.bidir_at(i, Port::Aux1) {
                return false;
            }
            if !self.bidir_at(i, Port::Aux2) {
                return false;
            }
            proof {
                assert forall|p: Port|
                    self@.is_live(i) && #[trigger] self@.nodes[i as int].slot_spec(p)
                        != null_spec() && self@.is_live(
                        self@.nodes[i as int].slot_spec(p).index,
                    ) implies {
                    let v = self@.nodes[i as int].slot_spec(p);
                    self@.nodes[v.index as int].slot_spec(v.port) == (Vertex { index: i, port: p })
                } by {
                    match p {
                        Port::Main => {},
                        Port::Aux1 => {},
                        Port::Aux2 => {},
                    }
                }
            }
            i = i + 1;
        }
        proof {
            assert forall|k: usize, p: Port|
                self@.is_live(k) && #[trigger] self@.nodes[k as int].slot_spec(p) != null_spec()
                    && self@.is_live(self@.nodes[k as int].slot_spec(p).index) implies {
                let v = self@.nodes[k as int].slot_spec(p);
                self@.nodes[v.index as int].slot_spec(v.port) == (Vertex { index: k, port: p })
            } by {
                assert(k < self@.nodes.len());
            }
        }
        true
    }
}

} // verus!
