//! Arena compaction: after many rewrites the free-list may hold a large
//! share of the indices. The compactor rebuilds a dense index space by
//! moving every live node to `index - (freed indices below it)` and
//! rewriting every vertex through that mapping; callers remap any external
//! state (driver stacks, root references) with `adjust_i` / `adjust_v`.
//!
//! Faithfulness: `compact` ensures that each live node of the old net
//! reappears at its mapped index with all three slots remapped, so the
//! subgraph reachable from any remapped vertex is the image of the old one.

use vstd::prelude::*;

use crate::net::{
    clone_kind, EngineError, Net, NetV, Node, Port, Vertex,
};

verus! {

/// The freed-index flags of a net: entry `j` is true iff node `j` sits on
/// the free-list.
pub open spec fn flags_of(nv: NetV) -> Seq<bool> {
    Seq::new(nv.nodes.len(), |j: int| nv.avail.contains(j as usize))
}

/// Number of freed indices strictly below `i`.
pub open spec fn count_freed(fl: Seq<bool>, i: int) -> int
    decreases i,
{
    if i <= 0 {
        0
    } else {
        count_freed(fl, i - 1) + if fl[i - 1] {
            1int
        } else {
            0int
        }
    }
}

/// Where the compactor sends index `i`: down by the freed indices below it.
pub open spec fn map_idx(fl: Seq<bool>, i: int) -> int {
    i - count_freed(fl, i)
}

/// A vertex with its node index remapped; the port is kept.
pub open spec fn adjust_vertex_spec(fl: Seq<bool>, v: Vertex) -> Vertex {
    Vertex { index: map_idx(fl, v.index as int) as usize, port: v.port }
}

/// A node with its three slots remapped; the kind is kept.
pub open spec fn adjust_node_spec(fl: Seq<bool>, n: Node) -> Node {
    Node {
        kind: n.kind,
        main: adjust_vertex_spec(fl, n.main),
        aux1: adjust_vertex_spec(fl, n.aux1),
        aux2: adjust_vertex_spec(fl, n.aux2),
    }
}

/// The count of freed indices below `i` lies between 0 and `i`, and a live
/// index below `i` is not counted.
pub proof fn lemma_count_freed_bounds(fl: Seq<bool>, j: int, i: int)
    requires
        0 <= j <= i,
    ensures
        0 <= count_freed(fl, i) - count_freed(fl, j) <= i - j,
        j < i && !fl[j] ==> count_freed(fl, i) - count_freed(fl, j) <= i - j - 1,
    decreases i - j,
{
    if j < i {
        lemma_count_freed_bounds(fl, j + 1, i);
        assert(count_freed(fl, j + 1) == count_freed(fl, j) + if fl[j] {
            1int
        } else {
            0int
        });
    }
}

/// No freed index below `i` means nothing is counted below `i`.
pub proof fn lemma_count_freed_zero(fl: Seq<bool>, i: int)
    requires
        forall|j: int| 0 <= j < i ==> !fl[j],
    ensures
        count_freed(fl, i) <= 0,
    decreases i,
{
    if i > 0 {
        lemma_count_freed_zero(fl, i - 1);
    }
}

/// The mapping is strictly increasing across live indices, hence injective,
/// and never moves an index up.
pub proof fn lemma_map_idx_mono(fl: Seq<bool>, j: int, i: int)
    requires
        0 <= j < i,
        !fl[j],
    ensures
        map_idx(fl, j) < map_idx(fl, i),
        map_idx(fl, j) >= 0,
        map_idx(fl, i) <= i,
{
    lemma_count_freed_bounds(fl, j, i);
    lemma_count_freed_bounds(fl, 0, j);
    lemma_count_freed_bounds(fl, 0, i);
}

/// A compactor: built from a net's free-list, it remaps indices, vertices
/// and nodes; `compact` then rebuilds the arena through it.
pub trait Compactor: Sized {
    /// Which indices were freed when the table was built.
    spec fn freed_view(&self) -> Seq<bool>;

    /// The compactor's table matches its freed flags.
    spec fn valid(&self) -> bool;

    /// Create an empty compactor; `init` fills it from a net.
    fn new() -> (c: Self)
        ensures
            c.valid(),
            c.freed_view().len() == 0,
    ;

    /// Gather the compaction table from the net's free-list.
    fn init(&mut self, net: &Net)
        requires
            net@.wf(),
        ensures
            final(self).valid(),
            final(self).freed_view() == flags_of(net@),
    ;

    /// Remap one index, which must have been live when the table was built.
    fn adjust_i(&self, index: usize) -> (r: usize)
        requires
            self.valid(),
            index < self.freed_view().len(),
            !self.freed_view()[index as int],
        ensures
            r == map_idx(self.freed_view(), index as int),
    ;

    /// Remap one vertex: the index moves, the port stays.
    fn adjust_v(&self, v: Vertex) -> (r: Vertex)
        requires
            self.valid(),
            v.index < self.freed_view().len(),
            !self.freed_view()[v.index as int],
        ensures
            r == adjust_vertex_spec(self.freed_view(), v),
    ;

    /// Remap all three slots of a node; the kind is kept.
    fn adjust_n(&self, n: &Node) -> (r: Node)
        requires
            self.valid(),
            n.main.index < self.freed_view().len(),
            !self.freed_view()[n.main.index as int],
            n.aux1.index < self.freed_view().len(),
            !self.freed_view()[n.aux1.index as int],
            n.aux2.index < self.freed_view().len(),
            !self.freed_view()[n.aux2.index as int],
        ensures
            r == adjust_node_spec(self.freed_view(), *n),
    ;

    /// Whether node `index` was live when the table was built.
    fn is_live(&self, index: usize) -> (r: bool)
        ensures
            r == (index < self.freed_view().len() && !self.freed_view()[index as int]),
    ;
}

/// What an interval-difference table sends `i` to: scan the run ends from
/// the largest down (here: from the back of the ascending table) and
/// subtract the offset of the first one below `i`.
pub open spec fn lookup_asc(t: Seq<(usize, usize)>, i: int) -> int
    decreases t.len(),
{
    if t.len() == 0 {
        i
    } else if i > t.last().0 {
        i - t.last().1
    } else {
        lookup_asc(t.drop_last(), i)
    }
}

/// Compactor based on an interval-difference table: one entry per run of
/// contiguous freed indices, holding the run's last index and the count of
/// freed indices up to it. An index is remapped by subtracting the offset of
/// the nearest run end below it.
pub struct Interval {
    /// The run ends, ascending: (last index of the run, freed count so far).
    pub table: Vec<(usize, usize)>,
    /// Which indices were freed when the table was built.
    pub freed: Vec<bool>,
}

impl Compactor for Interval {
    open spec fn freed_view(&self) -> Seq<bool> {
        self.freed@
    }

    open spec fn valid(&self) -> bool {
        forall|i: int|
            0 <= i < self.freed@.len() && !self.freed@[i] ==> lookup_asc(self.table@, i) == map_idx(
                self.freed@,
                i,
            )
    }

    fn new() -> (c: Interval) {
        Interval { table: Vec::new(), freed: Vec::new() }
    }

    #[verifier::rlimit(100)]
    fn init(&mut self, net: &Net) {
        let n = net.nodes.len();
        let freed = gather_flags(net);
        // Walk the flags once, keeping the open run's end up to date.
        let mut table: Vec<(usize, usize)> = Vec::new();
        let mut off: usize = 0;
        let mut i: usize = 0;
        while i < n
            invariant
                freed@.len() == n,
                freed@ == flags_of(net@),
                i <= n,
                off == count_freed(freed@, i as int),
                forall|e: int| 0 <= e < table@.len() ==> (#[trigger] table@[e]).0 < i,
                table@.len() > 0 ==> table@.last().1 == off,
                i > 0 && freed@[i - 1] ==> table@.len() > 0 && table@.last().0 == i - 1,
                forall|j: int|
                    0 <= j <= i && (j == i || !freed@[j]) ==> lookup_asc(table@, j) == map_idx(
                        freed@,
                        j,
                    ),
            decreases n - i,
        {
            proof {
                lemma_count_freed_bounds(freed@, 0, i as int);
            }
            let ghost told = table@;
            if freed[i] {
                if i > 0 && freed[i - 1] {
                    // Extend the open run.
                    let last = table.len() - 1;
                    table[last] = (i, off + 1);
                    proof {
                        assert(table@.drop_last() =~= told.drop_last());
                    }
                } else {
                    // Open a fresh run.
                    table.push((i, off + 1));
                    proof {
                        assert(table@.drop_last() =~= told);
                    }
                }
                off = off + 1;
            }
            proof {
                assert forall|j: int|
                    0 <= j <= i + 1 && (j == i + 1 || !freed@[j]) implies lookup_asc(table@, j)
                    == map_idx(freed@, j) by {
                    if freed@[i as int] {
                        if j == i + 1 {
                            assert(lookup_asc(table@, j) == j - table@.last().1);
                        } else {
                            // A live index below the run: the new entry is
                            // skipped and the old table answers.
                            assert(j <= i as int && !freed@[j]);
                            assert(table@.last().0 == i);
                            assert(lookup_asc(table@, j) == lookup_asc(table@.drop_last(), j));
                            if told.len() > 0 && i > 0 && freed@[i - 1] {
                                assert(lookup_asc(told, j) == lookup_asc(told.drop_last(), j));
                            }
                        }
                    } else {
                        if j == i + 1 {
                            if table@.len() > 0 {
                                assert(lookup_asc(table@, j) == j - table@.last().1);
                                assert(lookup_asc(table@, i as int) == i - table@.last().1);
                            }
                        }
                    }
                }
            }
            i = i + 1;
        }
        self.table = table;
        self.freed = freed;
    }

    fn adjust_i(&self, index: usize) -> (r: usize) {
        proof {
            assert(self.table@.subrange(0, self.table@.len() as int) =~= self.table@);
            lemma_count_freed_bounds(self.freed@, 0, index as int);
        }
        let mut t: usize = self.table.len();
        while t > 0
            invariant
                t <= self.table@.len(),
                lookup_asc(self.table@, index as int) == lookup_asc(
                    self.table@.subrange(0, t as int),
                    index as int,
                ),
                lookup_asc(self.table@, index as int) == map_idx(self.freed@, index as int),
                0 <= map_idx(self.freed@, index as int) <= index,
            decreases t,
        {
            let ghost pre = self.table@.subrange(0, t as int);
            t = t - 1;
            let (c, o) = self.table[t];
            proof {
                assert(pre.last() == self.table@[t as int]);
                assert(pre.drop_last() =~= self.table@.subrange(0, t as int));
            }
            if index > c {
                return index - o;
            }
        }
        proof {
            assert(self.table@.subrange(0, 0) =~= Seq::<(usize, usize)>::empty());
        }
        index
    }

    fn adjust_v(&self, v: Vertex) -> (r: Vertex) {
        Vertex::new(self.adjust_i(v.index), v.port)
    }

    fn adjust_n(&self, n: &Node) -> (r: Node) {
        Node {
            kind: clone_kind(&n.kind),
            main: self.adjust_v(n.main),
            aux1: self.adjust_v(n.aux1),
            aux2: self.adjust_v(n.aux2),
        }
    }

    fn is_live(&self, index: usize) -> (r: bool) {
        index < self.freed.len() && !self.freed[index]
    }
}

/// Mark each index of the net as freed or live.
fn gather_flags(net: &Net) -> (freed: Vec<bool>)
    requires
        net@.wf(),
    ensures
        freed@ == flags_of(net@),
{
    let n = net.nodes.len();
    let mut freed: Vec<bool> = vec![false; n];
    let mut k: usize = 0;
    while k < net.available_indexes.len()
        invariant
            net@.wf(),
            freed@.len() == n,
            n == net@.nodes.len(),
            k <= net@.avail.len(),
            forall|j: int|
                0 <= j < n ==> (#[trigger] freed@[j] <==> exists|t: int|
                    0 <= t < k && net@.avail[t] == j),
        decreases net@.avail.len() - k,
    {
        let a = net.available_indexes[k];
        let ghost prev = freed@;
        freed[a] = true;
        proof {
            assert forall|j: int| 0 <= j < n implies (#[trigger] freed@[j] <==> exists|t: int|
                0 <= t < k + 1 && net@.avail[t] == j) by {
                if j == a as int {
                    assert(net@.avail[k as int] == a);
                    assert(freed@[j]);
                } else {
                    assert(freed@[j] == prev[j]);
                    if exists|t: int| 0 <= t < k + 1 && net@.avail[t] == j {
                        let t = choose|t: int| 0 <= t < k + 1 && net@.avail[t] == j;
                        assert(t < k);
                    }
                }
            }
        }
        k = k + 1;
    }
    proof {
        assert forall|j: int| 0 <= j < n implies freed@[j] == flags_of(net@)[j] by {
            if freed@[j] {
                let t = choose|t: int| 0 <= t < net@.avail.len() && net@.avail[t] == j;
                assert(net@.avail.contains(j as usize));
            } else {
                if net@.avail.contains(j as usize) {
                    let t = choose|t: int| 0 <= t < net@.avail.len() && net@.avail[t] == j as usize;
                    assert(exists|t: int| 0 <= t < net@.avail.len() && net@.avail[t] == j);
                    assert(false);
                }
            }
        }
        assert(freed@ =~= flags_of(net@));
    }
    freed
}

/// Compactor based on a dense table: one remapped index per arena slot.
pub struct Mapped {
    /// The remapped index of each live node (freed entries are meaningless).
    pub map: Vec<usize>,
    /// Which indices were freed when the table was built.
    pub freed: Vec<bool>,
}

impl Compactor for Mapped {
    open spec fn freed_view(&self) -> Seq<bool> {
        self.freed@
    }

    /// The table matches its freed flags: every live index is sent down by
    /// the number of freed indices below it.
    open spec fn valid(&self) -> bool {
        &&& self.map@.len() == self.freed@.len()
        &&& forall|i: int|
            0 <= i < self.freed@.len() && !self.freed@[i] ==> #[trigger] self.map@[i] == map_idx(
                self.freed@,
                i,
            )
    }

    fn new() -> (r: Mapped) {
        Mapped { map: Vec::new(), freed: Vec::new() }
    }

    fn init(&mut self, net: &Net) {
        let n = net.nodes.len();
        // Mark the freed indices.
        let mut freed: Vec<bool> = vec![false; n];
        let mut k: usize = 0;
        while k < net.available_indexes.len()
            invariant
                net@.wf(),
                freed@.len() == n,
                n == net@.nodes.len(),
                k <= net@.avail.len(),
                forall|j: int|
                    0 <= j < n ==> (#[trigger] freed@[j] <==> exists|t: int|
                        0 <= t < k && net@.avail[t] == j),
            decreases net@.avail.len() - k,
        {
            let a = net.available_indexes[k];
            let ghost prev = freed@;
            freed[a] = true;
            proof {
                assert forall|j: int| 0 <= j < n implies (#[trigger] freed@[j] <==> exists|t: int|
                    0 <= t < k + 1 && net@.avail[t] == j) by {
                    if j == a as int {
                        assert(net@.avail[k as int] == a);
                        assert(freed@[j]);
                    } else {
                        assert(freed@[j] == prev[j]);
                        if exists|t: int| 0 <= t < k + 1 && net@.avail[t] == j {
                            let t = choose|t: int| 0 <= t < k + 1 && net@.avail[t] == j;
                            assert(t < k);
                        }
                    }
                }
            }
            k = k + 1;
        }
        proof {
            assert forall|j: int| 0 <= j < n implies freed@[j] == flags_of(net@)[j] by {
                if freed@[j] {
                    let t = choose|t: int| 0 <= t < net@.avail.len() && net@.avail[t] == j;
                    assert(net@.avail.contains(j as usize));
                } else {
                    if net@.avail.contains(j as usize) {
                        let t = choose|t: int|
                            0 <= t < net@.avail.len() && net@.avail[t] == j as usize;
                        assert(exists|t: int| 0 <= t < net@.avail.len() && net@.avail[t] == j);
                        assert(false);
                    }
                }
            }
            assert(freed@ =~= flags_of(net@));
        }
        // Build the dense mapping in one pass.
        let mut map: Vec<usize> = Vec::new();
        let mut off: usize = 0;
        let mut i: usize = 0;
        while i < n
            invariant
                freed@.len() == n,
                map@.len() == i,
                i <= n,
                off == count_freed(freed@, i as int),
                forall|j: int|
                    0 <= j < i && !freed@[j] ==> #[trigger] map@[j] == map_idx(freed@, j),
            decreases n - i,
        {
            proof {
                lemma_count_freed_bounds(freed@, 0, i as int);
            }
            if freed[i] {
                map.push(0);
                off = off + 1;
            } else {
                map.push(i - off);
            }
            i = i + 1;
        }
        self.map = map;
        self.freed = freed;
    }

    fn adjust_i(&self, index: usize) -> (r: usize) {
        self.map[index]
    }

    fn adjust_v(&self, v: Vertex) -> (r: Vertex) {
        Vertex::new(self.adjust_i(v.index), v.port)
    }

    fn adjust_n(&self, n: &Node) -> (r: Node) {
        Node {
            kind: clone_kind(&n.kind),
            main: self.adjust_v(n.main),
            aux1: self.adjust_v(n.aux1),
            aux2: self.adjust_v(n.aux2),
        }
    }

    fn is_live(&self, index: usize) -> (r: bool) {
        index < self.freed.len() && !self.freed[index]
    }
}

/// Compact the net through a compactor built from it: move every live node
/// to its mapped index, rewrite every slot through the mapping, truncate the
/// arena and clear the free-list. Nothing moves and an error is returned
/// when some live slot dangles (points out of bounds or at a freed node);
/// the collection queues must be empty, since their entries would go stale.
///
/// Faithfulness: afterwards the arena holds exactly the live nodes, each at
/// its mapped index with its slots remapped, so every remapped vertex still
/// names the same logical node, and the reachable subgraph is preserved edge
/// for edge.
#[verifier::rlimit(100)]
pub fn compact<C: Compactor>(cptr: &C, net: &mut Net) -> (res: Result<(), EngineError>)
    requires
        cptr.valid(),
        old(net)@.wf(),
        cptr.freed_view() == flags_of(old(net)@),
        old(net)@.to_erase.len() == 0,
        old(net)@.to_sink.len() == 0,
    ensures
        res matches Err(e) ==> e is Corrupt && final(net)@ == old(net)@,
        (forall|k: int, p: Port|
            0 <= k < old(net)@.nodes.len() && !cptr.freed_view()[k] ==> (#[trigger] old(
                net,
            )@.nodes[k].slot_spec(p)).index < old(net)@.nodes.len() && !cptr.freed_view()[old(
                net,
            )@.nodes[k].slot_spec(p).index as int]) ==> res is Ok,
        res is Ok ==> {
            let fl = cptr.freed_view();
            let nv = old(net)@;
            &&& final(net)@.avail.len() == 0
            &&& final(net)@.nodes.len() == nv.nodes.len() - count_freed(fl, nv.nodes.len() as int)
            &&& forall|i: int|
                0 <= i < nv.nodes.len() && !fl[i] ==> final(net)@.nodes[map_idx(fl, i)]
                    == adjust_node_spec(fl, #[trigger] nv.nodes[i])
            &&& final(net)@.mode == nv.mode
            &&& final(net)@.nb_special == nv.nb_special
            &&& final(net)@.next_label == nv.next_label
            &&& final(net)@.to_erase.len() == 0
            &&& final(net)@.to_sink.len() == 0
            &&& crate::net::interactions_of(final(net)@) == crate::net::interactions_of(nv)
            &&& final(net)@.wf()
        },
{
        let ghost nv = net@;
        let ghost fl = cptr.freed_view();
        let n = net.nodes.len();
        proof {
            assert(cptr.freed_view().len() == n) by {
                assert(cptr.freed_view() == flags_of(old(net)@));
            }
        }
        // First pass: check that no live slot dangles.
        let mut i: usize = 0;
        while i < n
            invariant
                cptr.valid(),
                net@ == nv,
                nv.wf(),
                fl == cptr.freed_view(),
                n == nv.nodes.len(),
                n == cptr.freed_view().len(),
                i <= n,
                forall|k: int, p: Port|
                    0 <= k < i && !fl[k] ==> (#[trigger] nv.nodes[k].slot_spec(p)).index < n
                        && !fl[nv.nodes[k].slot_spec(p).index as int],
            decreases n - i,
        {
            if cptr.is_live(i) {
                let node = net.get_node(i);
                let m = node.slot(Port::Main);
                let a1 = node.slot(Port::Aux1);
                let a2 = node.slot(Port::Aux2);
                proof {
                    assert(nv.nodes[i as int].slot_spec(Port::Main) == m);
                    assert(nv.nodes[i as int].slot_spec(Port::Aux1) == a1);
                    assert(nv.nodes[i as int].slot_spec(Port::Aux2) == a2);
                }
                if !(cptr.is_live(m.get_index()) && cptr.is_live(a1.get_index()) && cptr.is_live(
                    a2.get_index(),
                )) {
                    // Some live slot dangles: leave the net untouched. The
                    // dangling slot also refutes the all-slots-live premise
                    // of the success clause.
                    return Err(EngineError::Corrupt);
                }
            }
            i = i + 1;
        }
        // Second pass: move the live nodes down, in place. Reads at `i` see
        // the old node because every write lands at a mapped index, which
        // never exceeds the indices already passed.
        let mut nb: usize = 0;
        let mut i: usize = 0;
        while i < n
            invariant
                cptr.valid(),
                nv.wf(),
                fl == cptr.freed_view(),
                n == nv.nodes.len(),
                n == cptr.freed_view().len(),
                i <= n,
                net@.nodes.len() == n,
                net@.avail == nv.avail,
                net@.mode == nv.mode,
                net@.nb_special == nv.nb_special,
                net@.next_label == nv.next_label,
                net@.to_erase == nv.to_erase,
                net@.to_sink == nv.to_sink,
                net@.max_node_len == nv.max_node_len,
                net@.nb_used == nv.nb_used,
                net@.nb_reused == nv.nb_reused,
                net@.nb_remove_inter == nv.nb_remove_inter,
                net@.nb_appabs == nv.nb_appabs,
                net@.nb_appfou == nv.nb_appfou,
                net@.nb_finabs == nv.nb_finabs,
                net@.nb_finfou_a == nv.nb_finfou_a,
                net@.nb_finfou_d == nv.nb_finfou_d,
                net@.nb_remove_erase == nv.nb_remove_erase,
                net@.nb_remove_sink == nv.nb_remove_sink,
                net@.nb_erase == nv.nb_erase,
                net@.nb_sink == nv.nb_sink,
                nb == i - count_freed(fl, i as int),
                forall|k: int, p: Port|
                    0 <= k < n && !fl[k] ==> (#[trigger] nv.nodes[k].slot_spec(p)).index < n
                        && !fl[nv.nodes[k].slot_spec(p).index as int],
                forall|k: int|
                    0 <= k < n && i <= k ==> #[trigger] net@.nodes[k] == nv.nodes[k],
                forall|k: int|
                    0 <= k < i && !fl[k] ==> #[trigger] net@.nodes[map_idx(fl, k)]
                        == adjust_node_spec(fl, nv.nodes[k]),
            decreases n - i,
        {
            proof {
                lemma_count_freed_bounds(fl, 0, i as int);
                lemma_count_freed_bounds(fl, i as int, i + 1);
            }
            if cptr.is_live(i) {
                let node = net.get_node(i);
                proof {
                    assert(nv.nodes[i as int].slot_spec(Port::Main).index < n);
                    assert(nv.nodes[i as int].slot_spec(Port::Aux1).index < n);
                    assert(nv.nodes[i as int].slot_spec(Port::Aux2).index < n);
                }
                let adjusted = cptr.adjust_n(node);
                let dst = cptr.adjust_i(i);
                let ghost before = net@;
                net.nodes[dst] = adjusted;
                proof {
                    // The write lands below every untouched index and above
                    // every previously written one.
                    assert forall|k: int|
                        0 <= k < n && i + 1 <= k implies #[trigger] net@.nodes[k]
                        == nv.nodes[k] by {
                        assert(map_idx(fl, i as int) <= i as int) by {
                            lemma_count_freed_bounds(fl, 0, i as int);
                        }
                    }
                    assert forall|k: int|
                        0 <= k < i + 1 && !fl[k] implies #[trigger] net@.nodes[map_idx(fl, k)]
                        == adjust_node_spec(fl, nv.nodes[k]) by {
                        if k < i as int {
                            lemma_map_idx_mono(fl, k, i as int);
                            assert(before.nodes[map_idx(fl, k)] == adjust_node_spec(
                                fl,
                                nv.nodes[k],
                            ));
                        }
                    }
                }
                nb = nb + 1;
            }
            i = i + 1;
        }
        // Third pass: drop the tail and empty the free-list.
        proof {
            lemma_count_freed_bounds(fl, 0, n as int);
        }
        net.nodes.truncate(nb);
        net.available_indexes.clear();
        proof {
            assert(net@.nodes.len() == nb);
            assert(net@.avail.len() == 0);
            assert forall|k: int|
                0 <= k < n && !fl[k] implies #[trigger] net@.nodes[map_idx(fl, k)]
                == adjust_node_spec(fl, nv.nodes[k]) by {
                lemma_map_idx_mono(fl, k, n as int);
                assert(map_idx(fl, k) < nb as int);
            }
            // The specials are all live, so at least `nb_special` nodes stay.
            assert forall|j: int| 0 <= j < nv.nb_special implies !fl[j] by {
                if fl[j] {
                    let t = choose|t: int| 0 <= t < nv.avail.len() && nv.avail[t] == j as usize;
                    assert(nv.nb_special <= nv.avail[t]);
                }
            }
            lemma_count_freed_zero(fl, nv.nb_special as int);
            lemma_count_freed_bounds(fl, 0, nv.nb_special as int);
            lemma_count_freed_bounds(fl, nv.nb_special as int, n as int);
            assert(count_freed(fl, nv.nb_special as int) == 0);
            assert(nb >= nv.nb_special);
            assert(crate::net::avail_inv(net@.avail, net@.nb_special, net@.nodes.len() as int));
            assert(net@.wf());
        }
        Ok(())
}

} // verus!
