//! Translation between lambda terms and nets.
//!
//! Building: the run term, with every top-level definition inlined as an
//! application of an abstraction, is walked once; each binder's uses are
//! chained through stem fan-ins. Reading back: the net is walked from the
//! root, pairing fan-outs against a stack of crossed fan-ins; an optional
//! depth bound makes the walk total on nets that have no normal form.

use vstd::prelude::*;

use crate::ast::{clone_term, Sentence, Term, TermV};
use crate::gc::GcMode;
use crate::net::{
    labels_ok, lemma_labels_create_edge, lemma_labels_new_node, mkv, root_spec, root_vertex,
    sv_slot, vx, CstrK, DstrK, EngineError, FIStatus, Label, Net, NetV,
    NodeKind, Port, Vertex,
};
use crate::text::name_with_index;
use vstd::string::StringExecFns;

verus! {

/// Errors of the term-to-net translation.
#[derive(Debug)]
pub enum ConvError {
    /// A binder reuses a name that is already bound in scope.
    DuplicateName(String),
    /// A `read` sentence was supplied; imports are not implemented and are
    /// rejected rather than given invented semantics.
    ReadUnsupported,
}

/// What the builder knows about one binder.
#[derive(Copy, Clone)]
pub enum VUsed {
    /// The binder has not been used yet; its vertex awaits the first use.
    Unused { binding_vertex: Vertex },
    /// The binder has a current sole user; a further use inserts a fan-in.
    Used { binding_vertex: Vertex, user_vertex: Vertex },
}

/// Position of `name` in a builder environment, scanning from the front;
/// -1 when absent.
pub open spec fn ev_find(env: Seq<(String, VUsed)>, name: Seq<char>) -> int
    decreases env.len(),
{
    if env.len() == 0 {
        -1
    } else if env[0].0@ == name {
        0
    } else {
        let r = ev_find(env.subrange(1, env.len() as int), name);
        if r < 0 {
            -1
        } else {
            r + 1
        }
    }
}

/// Result of the model builder: the offending name if a binder was
/// duplicated, and the net and both environments it leaves.
pub ghost struct BdRes {
    pub dup: Option<Seq<char>>,
    pub nv: NetV,
    pub env: Seq<(String, VUsed)>,
    pub free: Seq<(String, VUsed)>,
}

/// Model of plugging one use at `up` into the binder recorded at
/// `env[pos]`: a direct wire on the first use, a fresh stem fan-in chaining
/// the previous user on any further one.
pub open spec fn bd_connect(
    nv: NetV,
    up: Vertex,
    env: Seq<(String, VUsed)>,
    pos: int,
) -> (NetV, Seq<(String, VUsed)>) {
    match env[pos].1 {
        VUsed::Unused { binding_vertex } => {
            let env2 = env.update(
                pos,
                (env[pos].0, VUsed::Used { binding_vertex, user_vertex: up }),
            );
            (crate::net::sv_create_edge(nv, up, binding_vertex), env2)
        },
        VUsed::Used { binding_vertex, user_vertex } => {
            let fin = crate::net::sv_new_node_i(nv);
            let n1 = crate::net::sv_new_node_v(nv, NodeKind::DstrK(DstrK::FanIn(FIStatus::Stem)));
            let s1 = crate::net::sv_create_edge(n1, vx(fin, Port::Main), binding_vertex);
            let s2 = crate::net::sv_create_edge(s1, up, vx(fin, Port::Aux1));
            let s3 = crate::net::sv_create_edge(s2, user_vertex, vx(fin, Port::Aux2));
            let env2 = env.update(
                pos,
                (
                    env[pos].0,
                    VUsed::Used { binding_vertex, user_vertex: vx(fin, Port::Main) },
                ),
            );
            (s3, env2)
        },
    }
}

/// The model builder: what translating `term` with its root plugged at `up`
/// does to the net and the two environments. This is the specification that
/// `to_network_` (and through it `to_network`) is proved to implement
/// exactly.
pub open spec fn bd_spec(
    nv: NetV,
    term: Term,
    up: Vertex,
    env: Seq<(String, VUsed)>,
    free: Seq<(String, VUsed)>,
) -> BdRes
    decreases term,
{
    match term {
        // A use wires into its binder, bound or free; an unseen free name
        // first gets a placeholder binder whose uses it then carries.
        Term::Sym { vname } => {
            let pb = ev_find(env, vname@);
            if pb >= 0 {
                let (nv2, env2) = bd_connect(nv, up, env, pb);
                BdRes { dup: None, nv: nv2, env: env2, free }
            } else {
                let pf = ev_find(free, vname@);
                if pf >= 0 {
                    let (nv2, free2) = bd_connect(nv, up, free, pf);
                    BdRes { dup: None, nv: nv2, env, free: free2 }
                } else {
                    let abs = crate::net::sv_new_node_i(nv);
                    let n1 = crate::net::sv_new_node_v(
                        nv,
                        NodeKind::CstrK(CstrK::Abs(vname, true)),
                    );
                    let free2 = free.push(
                        (
                            vname,
                            VUsed::Used {
                                binding_vertex: vx(abs, Port::Aux2),
                                user_vertex: up,
                            },
                        ),
                    );
                    let s1 = crate::net::sv_create_edge(n1, up, vx(abs, Port::Aux2));
                    BdRes { dup: None, nv: s1, env, free: free2 }
                }
            }
        },
        // An abstraction binds its name for the body and unmarks its binder
        // if the body never used it; a name already bound in scope is the
        // one translation error.
        Term::Lambda { vname, body } => {
            if ev_find(env, vname@) >= 0 {
                BdRes { dup: Some(vname@), nv, env, free }
            } else {
                let abs = crate::net::sv_new_node_i(nv);
                let n1 = crate::net::sv_new_node_v(nv, NodeKind::CstrK(CstrK::Abs(vname, true)));
                let env1 = env.push(
                    (vname, VUsed::Unused { binding_vertex: vx(abs, Port::Aux2) }),
                );
                let b = bd_spec(n1, *body, vx(abs, Port::Aux1), env1, free);
                if b.dup is Some {
                    b
                } else {
                    let back = ev_find(b.env, vname@);
                    let nv2 = if back >= 0 && (b.env[back].1 is Unused) {
                        NetV {
                            nodes: b.nv.nodes.update(
                                abs as int,
                                crate::net::Node {
                                    kind: NodeKind::CstrK(CstrK::Abs(vname, false)),
                                    ..b.nv.nodes[abs as int]
                                },
                            ),
                            ..b.nv
                        }
                    } else {
                        b.nv
                    };
                    let env2 = if back >= 0 {
                        b.env.remove(back)
                    } else {
                        b.env
                    };
                    let s = crate::net::sv_create_edge(nv2, up, vx(abs, Port::Main));
                    BdRes { dup: None, nv: s, env: env2, free: b.free }
                }
            }
        },
        // An application plugs `up` at its up port and builds the function
        // below its main port, then the argument below the argument port.
        Term::App { fun, arg } => {
            let app = crate::net::sv_new_node_i(nv);
            let n1 = crate::net::sv_new_node_v(nv, NodeKind::DstrK(DstrK::Apply));
            let s1 = crate::net::sv_create_edge(n1, up, vx(app, Port::Aux1));
            let f = bd_spec(s1, *fun, vx(app, Port::Main), env, free);
            if f.dup is Some {
                f
            } else {
                bd_spec(f.nv, *arg, vx(app, Port::Aux2), f.env, f.free)
            }
        },
    }
}

/// Position of `name` in the builder environment, if bound.
fn env_find(env: &Vec<(String, VUsed)>, name: &String) -> (r: Option<usize>)
    ensures
        r matches Some(pos) ==> pos < env@.len() && env@[pos as int].0@ == name@ && ev_find(
            env@,
            name@,
        ) == pos as int,
        r is None ==> ev_find(env@, name@) < 0 && forall|t: int|
            0 <= t < env@.len() ==> (#[trigger] env@[t]).0@ != name@,
{
    proof {
        assert(env@.subrange(0, env@.len() as int) =~= env@);
    }
    let mut t: usize = 0;
    while t < env.len()
        invariant
            t <= env@.len(),
            forall|m: int| 0 <= m < t ==> (#[trigger] env@[m]).0@ != name@,
            ev_find(env@, name@) == if ev_find(env@.subrange(t as int, env@.len() as int), name@)
                < 0 {
                -1
            } else {
                ev_find(env@.subrange(t as int, env@.len() as int), name@) + t
            },
        decreases env@.len() - t,
    {
        let ghost tail = env@.subrange(t as int, env@.len() as int);
        proof {
            assert(tail[0] == env@[t as int]);
            assert(tail.subrange(1, tail.len() as int) =~= env@.subrange(
                t + 1,
                env@.len() as int,
            ));
        }
        if env[t].0 == *name {
            return Some(t);
        }
        t = t + 1;
    }
    proof {
        assert(env@.subrange(env@.len() as int, env@.len() as int) =~= Seq::<(
            String,
            VUsed,
        )>::empty());
    }
    None
}

/// Translate one term into the net, plugging its root at `up`. `env` maps
/// each name bound on the path here to the state of its binder; `free`
/// carries the placeholder binders handed to free variables. The net stays
/// well-formed; the builder allocates nodes but never labels.
#[verifier::rlimit(100)]
fn to_network_(
    term: &Term,
    up: Vertex,
    net: &mut Net,
    env: &mut Vec<(String, VUsed)>,
    free: &mut Vec<(String, VUsed)>,
) -> (r: Result<(), ConvError>)
    requires
        old(net)@.wf(),
        labels_ok(old(net)@),
    ensures
        ({
            let b = bd_spec(old(net)@, *term, up, old(env)@, old(free)@);
            &&& final(net)@ == b.nv
            &&& final(env)@ == b.env
            &&& final(free)@ == b.free
            &&& (match r {
                Result::Ok(()) => b.dup is None,
                Result::Err(e) => match e {
                    ConvError::DuplicateName(n) => b.dup == Some(n@),
                    ConvError::ReadUnsupported => false,
                },
            })
        }),
        r matches Err(e) ==> e is DuplicateName,
        final(net)@.wf(),
        labels_ok(final(net)@),
        final(net)@.mode == old(net)@.mode,
        final(net)@.nb_special == old(net)@.nb_special,
        final(net)@.next_label == old(net)@.next_label,
        final(net)@.nodes.len() >= old(net)@.nodes.len(),
        old(net)@.avail.len() == 0 ==> final(net)@.avail.len() == 0,
    decreases *term,
{
    match term {
        // A variable use: plug `up` into its binder, or chain it through a
        // fresh stem fan-in when the binder already has a user. A name bound
        // nowhere gets a placeholder binder so it reads back as a free
        // variable.
        Term::Sym { vname } => {
            let pos_bound = env_find(env, vname);
            match pos_bound {
                Some(pos) => {
                    connect_use(net, up, env, pos);
                },
                None => {
                    let pos_free = env_find(free, vname);
                    match pos_free {
                        Some(pos) => {
                            connect_use(net, up, free, pos);
                        },
                        None => {
                            // First use of a free name: a placeholder
                            // abstraction whose binder port carries the uses.
                            let abs = net.new_abs(vname.clone(), true);
                            proof {
                                crate::net::lemma_new_node_wf(
                                    old(net)@,
                                    NodeKind::CstrK(CstrK::Abs(*vname, true)),
                                );
                                crate::net::lemma_wf_avail_bounded(old(net)@);
                                lemma_labels_new_node(
                                    old(net)@,
                                    NodeKind::CstrK(CstrK::Abs(*vname, true)),
                                    old(net)@.next_label,
                                );
                            }
                            let bv = mkv(abs, 2);
                            free.push(
                                (vname.clone(), VUsed::Used { binding_vertex: bv, user_vertex: up }),
                            );
                            let ghost g1 = net@;
                            net.create_edge(up, bv);
                            proof {
                                crate::net::lemma_frame_create_edge(g1, up, bv);
                                lemma_labels_create_edge(g1, up, bv, old(net)@.next_label);
                            }
                        },
                    }
                },
            }
            Ok(())
        },
        // An abstraction: allocate its node, bind the name, build the body,
        // then clear the bound flag if the name was never used.
        Term::Lambda { vname, body } => {
            let dup = env_find(env, vname);
            if dup.is_some() {
                return Err(ConvError::DuplicateName(vname.clone()));
            }
            let abs = net.new_abs(vname.clone(), true);
            proof {
                crate::net::lemma_new_node_wf(old(net)@, NodeKind::CstrK(CstrK::Abs(*vname, true)));
                crate::net::lemma_wf_avail_bounded(old(net)@);
                lemma_labels_new_node(
                    old(net)@,
                    NodeKind::CstrK(CstrK::Abs(*vname, true)),
                    old(net)@.next_label,
                );
            }
            env.push((vname.clone(), VUsed::Unused { binding_vertex: mkv(abs, 2) }));
            let sub = to_network_(&**body, mkv(abs, 1), net, env, free);
            match sub {
                Err(e) => {
                    return Err(e);
                },
                Ok(()) => {},
            }
            let back = env_find(env, vname);
            match back {
                Some(pos) => {
                    let entry = env[pos].1;
                    match entry {
                        VUsed::Used { .. } => {},
                        VUsed::Unused { .. } => {
                            // The binder was never used: mark it unbound.
                            let ghost gk = net@;
                            net.set_kind(abs, NodeKind::CstrK(CstrK::Abs(vname.clone(), false)));
                            proof {
                                assert forall|i: int|
                                    0 <= i < net@.nodes.len() implies crate::net::kind_labels_lt(
                                    #[trigger] net@.nodes[i].kind,
                                    net@.next_label,
                                ) by {
                                    if i != abs as int {
                                        assert(net@.nodes[i].kind == gk.nodes[i].kind);
                                    }
                                }
                            }
                        },
                    }
                    env.remove(pos);
                },
                None => {},
            }
            let ghost g2 = net@;
            net.create_edge(up, Vertex::main(abs));
            proof {
                crate::net::lemma_frame_create_edge(g2, up, Vertex { index: abs, port: Port::Main });
                lemma_labels_create_edge(
                    g2,
                    up,
                    Vertex { index: abs, port: Port::Main },
                    old(net)@.next_label,
                );
            }
            Ok(())
        },
        // An application: allocate its node, plug `up` at its up port, then
        // build the function below its main port and the argument below the
        // argument port.
        Term::App { fun, arg } => {
            let app = net.new_app();
            proof {
                crate::net::lemma_new_node_wf(old(net)@, NodeKind::DstrK(DstrK::Apply));
                crate::net::lemma_wf_avail_bounded(old(net)@);
                lemma_labels_new_node(
                    old(net)@,
                    NodeKind::DstrK(DstrK::Apply),
                    old(net)@.next_label,
                );
            }
            let ghost g1 = net@;
            net.create_edge(up, mkv(app, 1));
            proof {
                crate::net::lemma_frame_create_edge(
                    g1,
                    up,
                    Vertex { index: app, port: Port::Aux1 },
                );
                lemma_labels_create_edge(
                    g1,
                    up,
                    Vertex { index: app, port: Port::Aux1 },
                    old(net)@.next_label,
                );
            }
            let sub = to_network_(&**fun, Vertex::main(app), net, env, free);
            match sub {
                Err(e) => {
                    return Err(e);
                },
                Ok(()) => {},
            }
            let sub2 = to_network_(&**arg, mkv(app, 2), net, env, free);
            match sub2 {
                Err(e) => {
                    return Err(e);
                },
                Ok(()) => {},
            }
            Ok(())
        },
    }
}

/// Plug the use `up` into the binder recorded at `entries[pos]`: directly on
/// first use, through a fresh stem fan-in on a further one.
fn connect_use(net: &mut Net, up: Vertex, entries: &mut Vec<(String, VUsed)>, pos: usize)
    requires
        old(net)@.wf(),
        labels_ok(old(net)@),
        pos < old(entries)@.len(),
    ensures
        ({
            let (nv2, env2) = bd_connect(old(net)@, up, old(entries)@, pos as int);
            final(net)@ == nv2 && final(entries)@ == env2
        }),
        final(net)@.wf(),
        labels_ok(final(net)@),
        final(net)@.mode == old(net)@.mode,
        final(net)@.nb_special == old(net)@.nb_special,
        final(net)@.next_label == old(net)@.next_label,
        final(net)@.nodes.len() >= old(net)@.nodes.len(),
        old(net)@.avail.len() == 0 ==> final(net)@.avail.len() == 0,
        final(entries)@.len() == old(entries)@.len(),
{
    let entry = entries[pos].1;
    match entry {
        VUsed::Unused { binding_vertex } => {
            let nm = entries[pos].0.clone();
            entries[pos] = (nm, VUsed::Used { binding_vertex, user_vertex: up });
            proof {
                assert(entries@ =~= old(entries)@.update(
                    pos as int,
                    (old(entries)@[pos as int].0, VUsed::Used { binding_vertex, user_vertex: up }),
                ));
            }
            let ghost g1 = net@;
            net.create_edge(up, binding_vertex);
            proof {
                crate::net::lemma_frame_create_edge(g1, up, binding_vertex);
                lemma_labels_create_edge(g1, up, binding_vertex, old(net)@.next_label);
            }
        },
        VUsed::Used { binding_vertex, user_vertex } => {
            // A further use: share the binder through a stem fan-in. Its
            // main port becomes the binder's new sole user.
            let fin = net.new_fin(FIStatus::Stem);
            proof {
                crate::net::lemma_new_node_wf(
                    old(net)@,
                    NodeKind::DstrK(DstrK::FanIn(FIStatus::Stem)),
                );
                crate::net::lemma_wf_avail_bounded(old(net)@);
                lemma_labels_new_node(
                    old(net)@,
                    NodeKind::DstrK(DstrK::FanIn(FIStatus::Stem)),
                    old(net)@.next_label,
                );
            }
            let ghost g1 = net@;
            net.create_edge(Vertex::main(fin), binding_vertex);
            proof {
                crate::net::lemma_frame_create_edge(
                    g1,
                    Vertex { index: fin, port: Port::Main },
                    binding_vertex,
                );
                lemma_labels_create_edge(
                    g1,
                    Vertex { index: fin, port: Port::Main },
                    binding_vertex,
                    old(net)@.next_label,
                );
            }
            let ghost g2 = net@;
            net.create_edge(up, mkv(fin, 1));
            proof {
                crate::net::lemma_frame_create_edge(
                    g2,
                    up,
                    Vertex { index: fin, port: Port::Aux1 },
                );
                lemma_labels_create_edge(
                    g2,
                    up,
                    Vertex { index: fin, port: Port::Aux1 },
                    old(net)@.next_label,
                );
            }
            let ghost g3 = net@;
            net.create_edge(user_vertex, mkv(fin, 2));
            proof {
                crate::net::lemma_frame_create_edge(
                    g3,
                    user_vertex,
                    Vertex { index: fin, port: Port::Aux2 },
                );
                lemma_labels_create_edge(
                    g3,
                    user_vertex,
                    Vertex { index: fin, port: Port::Aux2 },
                    old(net)@.next_label,
                );
            }
            let nm = entries[pos].0.clone();
            entries[pos] = (
                nm,
                VUsed::Used { binding_vertex, user_vertex: Vertex::main(fin) },
            );
            proof {
                assert(entries@ =~= old(entries)@.update(
                    pos as int,
                    (
                        old(entries)@[pos as int].0,
                        VUsed::Used {
                            binding_vertex,
                            user_vertex: Vertex { index: fin, port: Port::Main },
                        },
                    ),
                ));
            }
        },
    }
}

/// The term the first `run` sentence carries, if any.
pub open spec fn first_run(sentences: Seq<Sentence>) -> Option<Term>
    decreases sentences.len(),
{
    if sentences.len() == 0 {
        None
    } else {
        match sentences[0] {
            Sentence::Run(srun) => Some(*srun.term),
            _ => first_run(sentences.subrange(1, sentences.len() as int)),
        }
    }
}

/// The run term with every definition inlined: each `let x = e` wraps the
/// accumulated term as `(lambda x. acc) e`, rightmost definition innermost.
pub open spec fn fold_lets(sentences: Seq<Sentence>, acc: Term) -> Term
    decreases sentences.len(),
{
    if sentences.len() == 0 {
        acc
    } else {
        match sentences.last() {
            Sentence::Let(d) => fold_lets(
                sentences.drop_last(),
                Term::App {
                    fun: Box::new(Term::Lambda { vname: d.vname, body: Box::new(acc) }),
                    arg: d.body,
                },
            ),
            _ => fold_lets(sentences.drop_last(), acc),
        }
    }
}

/// Build a net for one closed-over term.
fn to_network1(term: &Term, mode: GcMode) -> (r: Result<Net, ConvError>)
    ensures
        r matches Err(e) ==> e is DuplicateName,
        r matches Ok(net) ==> net@.wf() && net@.mode == mode && labels_ok(net@)
            && net@.next_label == 1 && net@.avail.len() == 0,
        (match r {
            Result::Ok(net) => exists|nv0: NetV|
                #[trigger] crate::net::is_fresh_net(nv0, mode) && ({
                    let b = bd_spec(nv0, *term, root_spec(), Seq::empty(), Seq::empty());
                    b.dup is None && net@ == b.nv
                }),
            Result::Err(e) => match e {
                ConvError::DuplicateName(nm) => exists|nv0: NetV|
                    #[trigger] crate::net::is_fresh_net(nv0, mode) && bd_spec(
                        nv0,
                        *term,
                        root_spec(),
                        Seq::empty(),
                        Seq::empty(),
                    ).dup == Some(nm@),
                ConvError::ReadUnsupported => false,
            },
        }),
{
    let n0 = Net::new(mode);
    let ghost nv0 = n0@;
    let mut n = n0;
    let up = root_vertex();
    let mut env: Vec<(String, VUsed)> = Vec::new();
    let mut free: Vec<(String, VUsed)> = Vec::new();
    proof {
        assert(env@ =~= Seq::<(String, VUsed)>::empty());
        assert(free@ =~= Seq::<(String, VUsed)>::empty());
    }
    let sub = to_network_(term, up, &mut n, &mut env, &mut free);
    proof {
        assert(crate::net::is_fresh_net(nv0, mode));
    }
    match sub {
        Err(e) => Err(e),
        Ok(()) => Ok(n),
    }
}

/// Convert a program into a network: the first `run` term, wrapped in one
/// application per `let` so that every definition is inlined, is built into
/// a fresh net. A program with `read` sentences is rejected (imports have no
/// semantics here); a program without a `run` gives the empty net. Further
/// `run` sentences are ignored, as the driver always did.
#[verifier::rlimit(100)]
pub fn to_network(sentences: &Vec<Sentence>, mode: GcMode) -> (r: Result<Net, ConvError>)
    ensures
        (exists|i: int|
            0 <= i < sentences@.len() && sentences@[i] is Read) <==> r == Result::<
            Net,
            ConvError,
        >::Err(ConvError::ReadUnsupported),
        r matches Ok(net) ==> net@.wf() && net@.mode == mode && labels_ok(net@)
            && net@.next_label == 1 && net@.avail.len() == 0,
        (match first_run(sentences@) {
            Option::None => r matches Ok(net) ==> crate::net::is_fresh_net(net@, mode),
            Option::Some(base) => {
                &&& (r matches Ok(net) ==> exists|nv0: NetV|
                    #[trigger] crate::net::is_fresh_net(nv0, mode) && ({
                        let b = bd_spec(
                            nv0,
                            fold_lets(sentences@, base),
                            root_spec(),
                            Seq::empty(),
                            Seq::empty(),
                        );
                        b.dup is None && net@ == b.nv
                    }))
                &&& (match r {
                    Result::Err(e) => match e {
                        ConvError::DuplicateName(nm) => exists|nv0: NetV|
                            #[trigger] crate::net::is_fresh_net(nv0, mode) && bd_spec(
                                nv0,
                                fold_lets(sentences@, base),
                                root_spec(),
                                Seq::empty(),
                                Seq::empty(),
                            ).dup == Some(nm@),
                        ConvError::ReadUnsupported => true,
                    },
                    _ => true,
                })
            },
        }),
{
    // Reject imports and find the first run term.
    proof {
        assert(sentences@.subrange(0, sentences@.len() as int) =~= sentences@);
    }
    let mut run_term: Option<Term> = None;
    let mut i: usize = 0;
    while i < sentences.len()
        invariant
            i <= sentences@.len(),
            forall|t: int| 0 <= t < i ==> !((#[trigger] sentences@[t]) is Read),
            (match run_term {
                Option::Some(t) => first_run(sentences@) == Some(t),
                Option::None => first_run(sentences@) == first_run(
                    sentences@.subrange(i as int, sentences@.len() as int),
                ),
            }),
        decreases sentences@.len() - i,
    {
        let ghost tail = sentences@.subrange(i as int, sentences@.len() as int);
        proof {
            assert(tail[0] == sentences@[i as int]);
            assert(tail.subrange(1, tail.len() as int) =~= sentences@.subrange(
                i + 1,
                sentences@.len() as int,
            ));
        }
        match &sentences[i] {
            Sentence::Let(_) => {},
            Sentence::Run(srun) => {
                if run_term.is_none() {
                    run_term = Some(clone_term(&srun.term));
                }
            },
            Sentence::Read(_) => {
                return Err(ConvError::ReadUnsupported);
            },
        }
        i = i + 1;
    }
    proof {
        assert(sentences@.subrange(sentences@.len() as int, sentences@.len() as int)
            =~= Seq::<Sentence>::empty());
    }
    match run_term {
        None => Ok(Net::new(mode)),
        Some(base) => {
            let ghost base0 = base;
            // Inline the definitions right to left: `let x = e` wraps the
            // body as `(lambda x. body) e`.
            let mut lambda = base;
            let mut j: usize = sentences.len();
            proof {
                assert(sentences@.subrange(0, sentences@.len() as int) =~= sentences@);
            }
            while j > 0
                invariant
                    j <= sentences@.len(),
                    fold_lets(sentences@, base0) == fold_lets(
                        sentences@.subrange(0, j as int),
                        lambda,
                    ),
                decreases j,
            {
                let ghost pre = sentences@.subrange(0, j as int);
                proof {
                    assert(pre.last() == sentences@[j - 1]);
                    assert(pre.drop_last() =~= sentences@.subrange(0, j - 1));
                }
                j = j - 1;
                match &sentences[j] {
                    Sentence::Let(d) => {
                        lambda = Term::App {
                            fun: Box::new(
                                Term::Lambda { vname: d.vname.clone(), body: Box::new(lambda) },
                            ),
                            arg: Box::new(clone_term(&d.body)),
                        };
                    },
                    _ => {},
                }
            }
            proof {
                assert(sentences@.subrange(0, 0) =~= Seq::<Sentence>::empty());
            }
            to_network1(&lambda, mode)
        },
    }
}

/// The fan stack of readback: the label of each crossed labeled fan-in and
/// the port it was entered by.
pub type FanStack = Vec<(Label, Port)>;

/// The last position of `lb` on the stack, or -1.
pub open spec fn rfind(s: Seq<(Label, Port)>, lb: Label) -> int
    decreases s.len(),
{
    if s.len() == 0 {
        -1
    } else if s.last().0 == lb {
        s.len() - 1
    } else {
        rfind(s.drop_last(), lb)
    }
}

/// Find the port recorded for `lb`, searching from the top of the stack
/// (stack semantics), and tombstone the entry by zeroing its label: label 0
/// is never allocated, so the slot is dead but keeps its position, which the
/// replayed clones of the stack rely on.
pub fn lookup_port(stack: &mut FanStack, lb: Label) -> (r: Option<Port>)
    ensures
        final(stack)@.len() == old(stack)@.len(),
        rfind(old(stack)@, lb) < 0 ==> r is None && final(stack)@ == old(stack)@,
        rfind(old(stack)@, lb) >= 0 ==> {
            let at = rfind(old(stack)@, lb);
            r == Some(old(stack)@[at].1) && final(stack)@ == old(stack)@.update(
                at,
                (0 as Label, old(stack)@[at].1),
            )
        },
{
    proof {
        assert(stack@.subrange(0, stack@.len() as int) =~= stack@);
    }
    let mut j: usize = stack.len();
    while j > 0
        invariant
            j <= stack@.len(),
            stack@ == old(stack)@,
            rfind(stack@, lb) == rfind(stack@.subrange(0, j as int), lb),
        decreases j,
    {
        let ghost pre = stack@;
        j = j - 1;
        let (k, p) = stack[j];
        proof {
            assert(pre.subrange(0, j + 1).last() == pre[j as int]);
            assert(pre.subrange(0, j + 1).drop_last() =~= pre.subrange(0, j as int));
        }
        if k == lb {
            stack[j] = (0, p);
            proof {
                assert(rfind(pre, lb) == j as int);
                assert(stack@ =~= pre.update(j as int, (0 as Label, pre[j as int].1)));
            }
            return Some(p);
        }
    }
    proof {
        assert(stack@.subrange(0, 0) =~= Seq::<(Label, Port)>::empty());
    }
    None
}

/// Copy a fan stack; the application arm of readback replays it.
fn clone_fan_stack(stack: &FanStack) -> (r: FanStack)
    ensures
        r@ == stack@,
{
    let mut r: FanStack = Vec::new();
    let mut j: usize = 0;
    while j < stack.len()
        invariant
            j <= stack@.len(),
            r@ == stack@.subrange(0, j as int),
        decreases stack@.len() - j,
    {
        r.push(stack[j]);
        proof {
            assert(r@ =~= stack@.subrange(0, j + 1));
        }
        j = j + 1;
    }
    proof {
        assert(stack@.subrange(0, stack@.len() as int) =~= stack@);
    }
    r
}

/// What one step of the model readback yields.
pub ghost enum RbOut {
    /// The walk crossed a freed or dangling node, or entered a node by a
    /// port the discipline forbids.
    Stuck,
    /// The depth bound ran out.
    Depth,
    /// A term was assembled.
    Got(TermV),
}

/// Result of the model readback: the outcome and the fan stack it leaves
/// (lookups tombstone entries in place, so the stack is part of the state).
pub ghost struct RbRes {
    pub out: RbOut,
    pub stack: Seq<(Label, Port)>,
}

/// The model readback: what walking the net from the slot at `src` with the
/// given fan stack and depth budget denotes. This is the specification that
/// `from_net_` (and through it `from_net`) is proved to implement exactly.
pub open spec fn rb_spec(nv: NetV, stack: Seq<(Label, Port)>, src: Vertex, fuel: nat) -> RbRes
    decreases fuel,
{
    if fuel == 0 {
        RbRes { out: RbOut::Depth, stack }
    } else {
        let tgt = sv_slot(nv, src);
        let ti = tgt.index;
        if ti >= nv.nodes.len() || nv.avail.contains(ti) {
            RbRes { out: RbOut::Stuck, stack }
        } else {
            match nv.nodes[ti as int].kind {
                // An abstraction entered at the head wraps its body's
                // readback; entered at the binder port it is a variable
                // occurrence. Names carry the node index.
                NodeKind::CstrK(CstrK::Abs(vname, _bound)) => {
                    if tgt.port == Port::Aux1 {
                        RbRes { out: RbOut::Stuck, stack }
                    } else if tgt.port == Port::Main {
                        let b = rb_spec(nv, stack, vx(ti, Port::Aux1), (fuel - 1) as nat);
                        match b.out {
                            RbOut::Got(t) => RbRes {
                                out: RbOut::Got(
                                    TermV::Lam(
                                        vname@ + crate::text::dec_digits(ti as int),
                                        Box::new(t),
                                    ),
                                ),
                                stack: b.stack,
                            },
                            _ => b,
                        }
                    } else {
                        RbRes {
                            out: RbOut::Got(
                                TermV::Sym(vname@ + crate::text::dec_digits(ti as int)),
                            ),
                            stack,
                        }
                    }
                },
                // A fan-out turns through the fan-in it pairs with on the
                // stack, tombstoning the entry; unpaired it renders as the
                // placeholder symbol.
                NodeKind::CstrK(CstrK::FanOut(label)) => {
                    if tgt.port != Port::Main {
                        RbRes { out: RbOut::Stuck, stack }
                    } else {
                        let at = rfind(stack, label);
                        if at < 0 {
                            RbRes { out: RbOut::Got(TermV::Sym("\u{2206}"@)), stack }
                        } else {
                            rb_spec(
                                nv,
                                stack.update(at, (0 as Label, stack[at].1)),
                                vx(ti, stack[at].1),
                                (fuel - 1) as nat,
                            )
                        }
                    }
                },
                // An application reads its function side with a copy of the
                // stack (discarded afterwards) and its argument with the
                // stack itself.
                NodeKind::DstrK(DstrK::Apply) => {
                    if tgt.port != Port::Aux1 {
                        RbRes { out: RbOut::Stuck, stack }
                    } else {
                        let f = rb_spec(nv, stack, vx(ti, Port::Main), (fuel - 1) as nat);
                        match f.out {
                            RbOut::Got(tf) => {
                                let a = rb_spec(nv, stack, vx(ti, Port::Aux2), (fuel - 1) as nat);
                                match a.out {
                                    RbOut::Got(ta) => RbRes {
                                        out: RbOut::Got(
                                            TermV::App(Box::new(tf), Box::new(ta)),
                                        ),
                                        stack: a.stack,
                                    },
                                    _ => a,
                                }
                            },
                            _ => RbRes { out: f.out, stack },
                        }
                    }
                },
                // A labeled fan-in records its label and entry port for the
                // matching fan-out, and takes the record back on return; a
                // stem fan-in is transparent.
                NodeKind::DstrK(DstrK::FanIn(status)) => {
                    if tgt.port == Port::Main {
                        RbRes { out: RbOut::Stuck, stack }
                    } else {
                        match status {
                            FIStatus::Labeled(l) => {
                                let r = rb_spec(
                                    nv,
                                    stack.push((l, tgt.port)),
                                    vx(ti, Port::Main),
                                    (fuel - 1) as nat,
                                );
                                RbRes { out: r.out, stack: r.stack.drop_last() }
                            },
                            FIStatus::Stem => rb_spec(nv, stack, vx(ti, Port::Main), (fuel - 1) as nat),
                        }
                    }
                },
            }
        }
    }
}

/// The last position of a label lies inside the stack.
pub proof fn lemma_rfind_bounds(s: Seq<(Label, Port)>, lb: Label)
    ensures
        -1 <= rfind(s, lb) < s.len(),
    decreases s.len(),
{
    if s.len() > 0 && s.last().0 != lb {
        lemma_rfind_bounds(s.drop_last(), lb);
    }
}

/// The model readback hands its fan stack back at the length it got it.
pub proof fn lemma_rb_stack_len(nv: NetV, stack: Seq<(Label, Port)>, src: Vertex, fuel: nat)
    ensures
        rb_spec(nv, stack, src, fuel).stack.len() == stack.len(),
    decreases fuel,
{
    if fuel > 0 {
        let tgt = sv_slot(nv, src);
        let ti = tgt.index;
        if ti < nv.nodes.len() && !nv.avail.contains(ti) {
            match nv.nodes[ti as int].kind {
                NodeKind::CstrK(CstrK::Abs(_vname, _bound)) => {
                    if tgt.port == Port::Main {
                        lemma_rb_stack_len(nv, stack, vx(ti, Port::Aux1), (fuel - 1) as nat);
                    }
                },
                NodeKind::CstrK(CstrK::FanOut(label)) => {
                    if tgt.port == Port::Main {
                        let at = rfind(stack, label);
                        if at >= 0 {
                            lemma_rfind_bounds(stack, label);
                            lemma_rb_stack_len(
                                nv,
                                stack.update(at, (0 as Label, stack[at].1)),
                                vx(ti, stack[at].1),
                                (fuel - 1) as nat,
                            );
                        }
                    }
                },
                NodeKind::DstrK(DstrK::Apply) => {
                    if tgt.port == Port::Aux1 {
                        lemma_rb_stack_len(nv, stack, vx(ti, Port::Main), (fuel - 1) as nat);
                        lemma_rb_stack_len(nv, stack, vx(ti, Port::Aux2), (fuel - 1) as nat);
                    }
                },
                NodeKind::DstrK(DstrK::FanIn(status)) => {
                    if tgt.port != Port::Main {
                        match status {
                            FIStatus::Labeled(l) => {
                                lemma_rb_stack_len(
                                    nv,
                                    stack.push((l, tgt.port)),
                                    vx(ti, Port::Main),
                                    (fuel - 1) as nat,
                                );
                            },
                            FIStatus::Stem => {
                                lemma_rb_stack_len(nv, stack, vx(ti, Port::Main), (fuel - 1) as nat);
                            },
                        }
                    }
                },
            }
        }
    }
}

/// A readback that came to an answer under some depth budget gives the same
/// answer (and leaves the same stack) under any larger budget; in particular
/// the unbounded readback agrees with every bounded one that did not run out
/// of depth.
pub proof fn lemma_rb_fuel_mono(
    nv: NetV,
    stack: Seq<(Label, Port)>,
    src: Vertex,
    f1: nat,
    f2: nat,
)
    requires
        f1 <= f2,
        !(rb_spec(nv, stack, src, f1).out is Depth),
    ensures
        rb_spec(nv, stack, src, f2) == rb_spec(nv, stack, src, f1),
    decreases f1,
{
    if f1 == 0 {
        // A zero budget always answers Depth; nothing to show.
    } else {
        let tgt = sv_slot(nv, src);
        let ti = tgt.index;
        if ti < nv.nodes.len() && !nv.avail.contains(ti) {
            match nv.nodes[ti as int].kind {
                NodeKind::CstrK(CstrK::Abs(_vname, _bound)) => {
                    if tgt.port == Port::Main {
                        let b = rb_spec(nv, stack, vx(ti, Port::Aux1), (f1 - 1) as nat);
                        if !(b.out is Depth) {
                            lemma_rb_fuel_mono(
                                nv,
                                stack,
                                vx(ti, Port::Aux1),
                                (f1 - 1) as nat,
                                (f2 - 1) as nat,
                            );
                        }
                    }
                },
                NodeKind::CstrK(CstrK::FanOut(label)) => {
                    if tgt.port == Port::Main {
                        let at = rfind(stack, label);
                        if at >= 0 {
                            let sub = rb_spec(
                                nv,
                                stack.update(at, (0 as Label, stack[at].1)),
                                vx(ti, stack[at].1),
                                (f1 - 1) as nat,
                            );
                            if !(sub.out is Depth) {
                                lemma_rb_fuel_mono(
                                    nv,
                                    stack.update(at, (0 as Label, stack[at].1)),
                                    vx(ti, stack[at].1),
                                    (f1 - 1) as nat,
                                    (f2 - 1) as nat,
                                );
                            }
                        }
                    }
                },
                NodeKind::DstrK(DstrK::Apply) => {
                    if tgt.port == Port::Aux1 {
                        let f = rb_spec(nv, stack, vx(ti, Port::Main), (f1 - 1) as nat);
                        if !(f.out is Depth) {
                            lemma_rb_fuel_mono(
                                nv,
                                stack,
                                vx(ti, Port::Main),
                                (f1 - 1) as nat,
                                (f2 - 1) as nat,
                            );
                            match f.out {
                                RbOut::Got(_tf) => {
                                    let a = rb_spec(nv, stack, vx(ti, Port::Aux2), (f1 - 1) as nat);
                                    if !(a.out is Depth) {
                                        lemma_rb_fuel_mono(
                                            nv,
                                            stack,
                                            vx(ti, Port::Aux2),
                                            (f1 - 1) as nat,
                                            (f2 - 1) as nat,
                                        );
                                    }
                                },
                                _ => {},
                            }
                        }
                    }
                },
                NodeKind::DstrK(DstrK::FanIn(status)) => {
                    if tgt.port != Port::Main {
                        match status {
                            FIStatus::Labeled(l) => {
                                let r = rb_spec(
                                    nv,
                                    stack.push((l, tgt.port)),
                                    vx(ti, Port::Main),
                                    (f1 - 1) as nat,
                                );
                                if !(r.out is Depth) {
                                    lemma_rb_fuel_mono(
                                        nv,
                                        stack.push((l, tgt.port)),
                                        vx(ti, Port::Main),
                                        (f1 - 1) as nat,
                                        (f2 - 1) as nat,
                                    );
                                }
                            },
                            FIStatus::Stem => {
                                let r = rb_spec(nv, stack, vx(ti, Port::Main), (f1 - 1) as nat);
                                if !(r.out is Depth) {
                                    lemma_rb_fuel_mono(
                                        nv,
                                        stack,
                                        vx(ti, Port::Main),
                                        (f1 - 1) as nat,
                                        (f2 - 1) as nat,
                                    );
                                }
                            },
                        }
                    }
                },
            }
        }
    }
}

/// Read one subterm back, starting from the slot at `src`. `fuel` bounds the
/// depth: an exhausted walk answers `Ok(None)`, no term. A walk that crosses
/// a freed node or enters a node by a port the discipline forbids reports a
/// corrupt net. Result and final fan stack are exactly the model readback's.
#[verifier::rlimit(100)]
fn from_net_(net: &Net, stack: &mut FanStack, src: Vertex, fuel: usize) -> (r: Result<
    Option<Box<Term>>,
    EngineError,
>)
    requires
        net@.wf(),
    ensures
        final(stack)@ == rb_spec(net@, old(stack)@, src, fuel as nat).stack,
        (match r {
            Result::Err(_) => rb_spec(net@, old(stack)@, src, fuel as nat).out is Stuck,
            Result::Ok(None) => rb_spec(net@, old(stack)@, src, fuel as nat).out is Depth,
            Result::Ok(Some(t)) => rb_spec(net@, old(stack)@, src, fuel as nat).out == RbOut::Got(
                t.deep_view(),
            ),
        }),
    decreases fuel,
{
    if fuel == 0 {
        return Ok(None);
    }
    let new_fuel = fuel - 1;
    let tgt = net.follow(src);
    let ti = tgt.get_index();
    let tp = tgt.get_port();
    if !(ti < net.nodes.len()) {
        return Err(EngineError::Corrupt);
    }
    if net.search_available_indexes(ti) {
        return Err(EngineError::Corrupt);
    }
    let kind = crate::net::clone_kind(&net.get_node(ti).kind);
    match kind {
        NodeKind::CstrK(CstrK::Abs(vname, _bound)) => {
            // Entered at the head: an abstraction around its body's readback.
            // Entered at the binder port: a variable occurrence. The name
            // carries the node index, which keeps distinct binders apart.
            if matches!(tp, Port::Aux1) {
                return Err(EngineError::Corrupt);
            }
            let bname = name_with_index(vname.as_str(), ti);
            if matches!(tp, Port::Main) {
                let body = from_net_(net, stack, mkv(ti, 1), new_fuel);
                match body {
                    Err(e) => Err(e),
                    Ok(None) => Ok(None),
                    Ok(Some(b)) => Ok(
                        Some(Box::new(Term::Lambda { vname: bname, body: b })),
                    ),
                }
            } else {
                Ok(Some(Box::new(Term::Sym { vname: bname })))
            }
        },
        NodeKind::CstrK(CstrK::FanOut(label)) => {
            // Turn through the fan-in this fan-out pairs with; an unpaired
            // fan-out renders as a placeholder symbol.
            if !matches!(tp, Port::Main) {
                return Err(EngineError::Corrupt);
            }
            let looked = lookup_port(stack, label);
            match looked {
                Some(port) => from_net_(net, stack, Vertex::new(ti, port), new_fuel),
                None => Ok(Some(Box::new(Term::Sym { vname: String::from_str("\u{2206}") }))),
            }
        },
        NodeKind::DstrK(DstrK::Apply) => {
            // The function side replays a copy of the fan stack; the
            // argument continues with the original.
            if !matches!(tp, Port::Aux1) {
                return Err(EngineError::Corrupt);
            }
            let mut st = clone_fan_stack(stack);
            let fun = from_net_(net, &mut st, Vertex::main(ti), new_fuel);
            match fun {
                Err(e) => Err(e),
                Ok(None) => Ok(None),
                Ok(Some(f)) => {
                    let arg = from_net_(net, stack, mkv(ti, 2), new_fuel);
                    match arg {
                        Err(e) => Err(e),
                        Ok(None) => Ok(None),
                        Ok(Some(a)) => Ok(Some(Box::new(Term::App { fun: f, arg: a }))),
                    }
                },
            }
        },
        NodeKind::DstrK(DstrK::FanIn(status)) => {
            // Crossing a labeled fan-in records the label and entry port for
            // the fan-out that will pair with it; a stem fan-in is
            // transparent.
            if matches!(tp, Port::Main) {
                return Err(EngineError::Corrupt);
            }
            match status {
                FIStatus::Labeled(l) => {
                    stack.push((l, tp));
                    proof {
                        lemma_rb_stack_len(
                            net@,
                            old(stack)@.push((l, tp)),
                            vx(ti, Port::Main),
                            new_fuel as nat,
                        );
                    }
                    let res = from_net_(net, stack, Vertex::main(ti), new_fuel);
                    let popped = stack.pop();
                    res
                },
                FIStatus::Stem => from_net_(net, stack, Vertex::main(ti), new_fuel),
            }
        },
    }
}

/// The depth budget a limit stands for: the given bound, or a budget no
/// physical walk can exhaust when no limit was asked.
pub open spec fn rb_fuel(limit: Option<usize>) -> nat {
    match limit {
        Option::None => usize::MAX as nat,
        Option::Some(l) => l as nat,
    }
}

/// Read the whole net back as a lambda term, starting at the root vertex.
/// The result is exactly what the model readback `rb_spec` denotes on an
/// empty fan stack: a term (whose ghost value equals the model's), no term
/// when the depth budget ran out (`limit` bounds the recursion depth, a
/// debugging aid, not a correctness device), or an error when the walk
/// crossed a freed node or broke the port discipline.
pub fn from_net(net: &Net, limit: Option<usize>) -> (r: Result<Option<Box<Term>>, EngineError>)
    requires
        net@.wf(),
    ensures
        (match r {
            Result::Err(_) => rb_spec(net@, Seq::empty(), root_spec(), rb_fuel(limit)).out
                is Stuck,
            Result::Ok(None) => rb_spec(net@, Seq::empty(), root_spec(), rb_fuel(limit)).out
                is Depth,
            Result::Ok(Some(t)) => rb_spec(net@, Seq::empty(), root_spec(), rb_fuel(limit)).out
                == RbOut::Got(t.deep_view()),
        }),
        limit == Some(0usize) ==> r == Result::<Option<Box<Term>>, EngineError>::Ok(None),
{
    let mut stack: FanStack = Vec::new();
    match limit {
        None => from_net_(net, &mut stack, root_vertex(), usize::MAX),
        Some(l) => from_net_(net, &mut stack, root_vertex(), l),
    }
}

} // verus!
