// Unit tests of the net primitives, the interaction rules, the collector,
// the compactor and the helpers.

use eole::ast::{SRead, SRun, Sentence, Term};
use eole::compactor::{compact, Compactor, Mapped, Interval};
use eole::conversion::{from_net, lookup_port, to_network, ConvError};
use eole::gc::GcMode;
use eole::net::{
    mkv, null_vertex, root_vertex, CstrK, DstrK, EngineError, FIStatus, Net, NodeKind, Port,
    Vertex,
};
use eole::reduce::{get_reducer_full, get_reducer_lazy, ReduceStop};
use eole::text::{name_with_index, u64_to_string};

fn var(n: &str) -> Term {
    Term::Sym { vname: n.to_string() }
}

fn lam(n: &str, b: Term) -> Term {
    Term::Lambda { vname: n.to_string(), body: Box::new(b) }
}

fn app(f: Term, a: Term) -> Term {
    Term::App { fun: Box::new(f), arg: Box::new(a) }
}

fn srun(t: Term) -> Sentence {
    Sentence::Run(SRun { term: Box::new(t) })
}

#[test]
fn vertex_algebra() {
    let v = Vertex::new(7, Port::Aux2);
    assert_eq!(v.get_index(), 7);
    assert_eq!(v.get_port(), Port::Aux2);
    assert_eq!(v.as_tuple(), (7, Port::Aux2));
    assert_eq!(mkv(7, 2), v);
    assert_eq!(mkv(0, 0), null_vertex());
    assert_eq!(mkv(0, 1), root_vertex());
}

#[test]
fn fan_status_matching() {
    assert!(FIStatus::Labeled(4).is_matching(4));
    assert!(!FIStatus::Labeled(4).is_matching(5));
    assert!(!FIStatus::Stem.is_matching(4));
}

#[test]
fn new_net_reserves_the_special_nodes() {
    let net = Net::new(GcMode::EraSink);
    assert_eq!(net.nb_special_nodes, 3);
    assert_eq!(net.nodes.len(), 3);
    assert_eq!(net.next_label, 1);
    let nogc = Net::new(GcMode::NoGc);
    assert_eq!(nogc.nb_special_nodes, 2);
    assert_eq!(nogc.nodes.len(), 2);
}

#[test]
fn labels_strictly_increase() {
    let mut net = Net::new(GcMode::EraSink);
    let a = net.new_label();
    let b = net.new_label();
    let c = net.new_label();
    assert_eq!(a, 1);
    assert_eq!(b, 2);
    assert_eq!(c, 3);
    assert_eq!(net.next_label, 4);
}

#[test]
fn nodes_are_recycled_from_the_free_list() {
    let mut net = Net::new(GcMode::EraSink);
    let a = net.new_app();
    let b = net.new_app();
    assert_eq!(a, 3);
    assert_eq!(b, 4);
    net.remove(a);
    assert_eq!(net.available_indexes, vec![a]);
    assert!(net.nodes[a].is_cleared());
    let c = net.new_fout(9);
    assert_eq!(c, a, "a freed index must be recycled first");
    assert!(net.available_indexes.is_empty());
    assert_eq!(net.nb_reused, 1);
    let _ = b;
}

#[test]
fn create_edge_writes_both_halves() {
    let mut net = Net::new(GcMode::EraSink);
    let a = net.new_app();
    let l = net.new_abs("v".to_string(), true);
    net.create_edge(Vertex::main(a), Vertex::main(l));
    assert_eq!(net.follow(Vertex::main(a)), Vertex::main(l));
    assert_eq!(net.follow(Vertex::main(l)), Vertex::main(a));
    assert!(net.check_bidirectional());
}

#[test]
fn beta_interaction_rewires_and_frees() {
    // Build by hand: ROOT.Aux1 -- A.Aux1, A.Main -- L.Main (a redex),
    // L.Aux1 -- L.Aux2 (the body is the bound variable), A.Aux2 -- I.Main
    // with I an unused abstraction as argument.
    let mut net = Net::new(GcMode::EraSink);
    let a = net.new_app();
    let l = net.new_abs("x".to_string(), true);
    let i = net.new_abs("i".to_string(), false);
    net.create_edge(root_vertex(), mkv(a, 1));
    net.create_edge(Vertex::main(a), Vertex::main(l));
    net.create_edge(mkv(l, 1), mkv(l, 2));
    net.create_edge(mkv(a, 2), Vertex::main(i));
    assert!(net.check_bidirectional());
    net.interact(a, DstrK::Apply, l, CstrK::Abs("x".to_string(), true));
    // The beta step stitches the continuation to the body and the binder's
    // use to the argument: ROOT.Aux1 now reaches I.Main directly.
    assert_eq!(net.follow(root_vertex()), Vertex::main(i));
    assert_eq!(net.follow(Vertex::main(i)), root_vertex());
    // Both redex nodes are freed, exactly once each.
    let mut avail = net.available_indexes.clone();
    avail.sort();
    assert_eq!(avail, vec![a, l]);
    assert!(net.nodes[a].is_cleared());
    assert!(net.nodes[l].is_cleared());
    assert_eq!(net.nb_appabs, 1);
    assert!(net.check_bidirectional());
}

#[test]
fn gc_on_empty_queues_is_a_no_op() {
    let prog = vec![srun(app(lam("x", var("x")), lam("y", var("y"))))];
    let mut net = to_network(&prog, GcMode::EraSink).unwrap();
    assert!(net.gc.to_erase.is_empty() && net.gc.to_sink.is_empty());
    let nodes_before = net.nodes.clone();
    let avail_before = net.available_indexes.clone();
    assert!(net.do_gc().unwrap());
    assert_eq!(net.nodes, nodes_before);
    assert_eq!(net.available_indexes, avail_before);
}

#[test]
fn gc_frees_a_discarded_argument() {
    // (x -> y -> y) applied to an identity: after the beta step the argument
    // subgraph is collected.
    let prog = vec![srun(app(lam("x", lam("y", var("y"))), lam("i", var("i"))))];
    let mut net = to_network(&prog, GcMode::EraSink).unwrap();
    let mut red = get_reducer_full(false);
    let out = red.run(&mut net, false, 0).unwrap();
    assert_eq!(out.stop, ReduceStop::Finished);
    assert!(net.gc.nb_remove_erase + net.gc.nb_remove_sink > 0, "nothing was collected");
    assert!(net.check_bidirectional());
}

#[test]
fn compactor_remaps_every_live_node() {
    let prog = vec![srun(app(lam("x", var("x")), lam("y", var("y"))))];
    let mut net = to_network(&prog, GcMode::EraSink).unwrap();
    let mut red = get_reducer_full(false);
    red.run(&mut net, false, 0).unwrap();
    let live_before = net.nodes.len() - net.available_indexes.len();
    let term_before = from_net(&net, None).unwrap().unwrap();
    let mut cptr = Mapped::new();
    cptr.init(&net);
    compact(&cptr, &mut net).unwrap();
    assert!(net.available_indexes.is_empty());
    assert_eq!(net.nodes.len(), live_before);
    assert!(net.check_bidirectional());
    let term_after = from_net(&net, None).unwrap().unwrap();
    // Compaction may renumber nodes, so names change; shapes must not.
    assert_eq!(shape(&term_before), shape(&term_after));
}

fn shape(t: &Term) -> String {
    match t {
        Term::Sym { .. } => "v".to_string(),
        Term::Lambda { body, .. } => format!("l({})", shape(body)),
        Term::App { fun, arg } => format!("a({},{})", shape(fun), shape(arg)),
    }
}

#[test]
fn reduction_with_compaction_agrees() {
    let succ = lam(
        "n",
        lam("f", lam("x", app(var("f"), app(app(var("n"), var("f")), var("x"))))),
    );
    let zero = lam("g", lam("z", var("z")));
    let two = lam("f", lam("x", app(var("f"), app(var("f"), var("x")))));
    let prog = vec![
        Sentence::Let(eole::ast::SLet { vname: "two".to_string(), body: Box::new(two) }),
        Sentence::Let(eole::ast::SLet { vname: "succ".to_string(), body: Box::new(succ) }),
        Sentence::Let(eole::ast::SLet { vname: "zero".to_string(), body: Box::new(zero) }),
        srun(app(app(var("two"), var("succ")), var("zero"))),
    ];
    let mut net_plain = to_network(&prog, GcMode::EraSink).unwrap();
    let mut red_plain = get_reducer_full(false);
    red_plain.run(&mut net_plain, false, 0).unwrap();
    let mut net_cptr = to_network(&prog, GcMode::EraSink).unwrap();
    let mut red_cptr = get_reducer_full(true);
    red_cptr.run(&mut net_cptr, false, 0).unwrap();
    let a = from_net(&net_plain, None).unwrap().unwrap();
    let b = from_net(&net_cptr, None).unwrap().unwrap();
    assert_eq!(shape(&a), shape(&b));
}

#[test]
fn lookup_port_searches_from_the_top_and_tombstones() {
    let mut stack = vec![(3u64, Port::Aux1), (5u64, Port::Aux2), (3u64, Port::Aux2)];
    // Stack semantics: the last entry with the label answers.
    assert_eq!(lookup_port(&mut stack, 3), Some(Port::Aux2));
    // The matched slot is tombstoned in place, not removed.
    assert_eq!(stack, vec![(3u64, Port::Aux1), (5u64, Port::Aux2), (0u64, Port::Aux2)]);
    assert_eq!(lookup_port(&mut stack, 3), Some(Port::Aux1));
    assert_eq!(lookup_port(&mut stack, 3), None);
    assert_eq!(lookup_port(&mut stack, 5), Some(Port::Aux2));
}

#[test]
fn decimal_rendering_is_exact() {
    assert_eq!(u64_to_string(0), "0");
    assert_eq!(u64_to_string(7), "7");
    assert_eq!(u64_to_string(42), "42");
    assert_eq!(u64_to_string(1000), "1000");
    assert_eq!(u64_to_string(18446744073709551615), "18446744073709551615");
    assert_eq!(name_with_index("x", 17), "x17");
}

#[test]
fn read_process_strips_keyword_and_trims() {
    assert_eq!(eole::ast::read_process("read  foo/bar.eole  ".to_string()), "foo/bar.eole");
    assert_eq!(eole::ast::read_process("read a".to_string()), "a");
    assert_eq!(eole::ast::read_process("read    ".to_string()), "");
}

#[test]
fn read_sentences_are_rejected() {
    let prog = vec![
        Sentence::Read(SRead { path: "lib.eole".to_string(), name: None }),
        srun(lam("x", var("x"))),
    ];
    match to_network(&prog, GcMode::EraSink) {
        Err(ConvError::ReadUnsupported) => {}
        other => panic!("expected ReadUnsupported, got {:?}", other),
    }
}

#[test]
fn shadowing_binders_are_rejected() {
    let prog = vec![srun(lam("x", lam("x", var("x"))))];
    match to_network(&prog, GcMode::EraSink) {
        Err(ConvError::DuplicateName(n)) => assert_eq!(n, "x"),
        other => panic!("expected DuplicateName, got {:?}", other),
    }
}

#[test]
fn label_exhaustion_is_reported() {
    // A stem fan-in meeting an abstraction draws a fresh label; with the
    // counter at its ceiling the reducer reports exhaustion.
    let prog = vec![srun(app(lam("x", app(var("x"), var("x"))), lam("y", var("y"))))];
    let mut net = to_network(&prog, GcMode::EraSink).unwrap();
    net.next_label = u64::MAX;
    let mut red = get_reducer_full(false);
    match red.run(&mut net, false, 0) {
        Err(EngineError::LabelsExhausted) => {}
        other => panic!("expected LabelsExhausted, got {:?}", other),
    }
}

#[test]
fn corrupt_net_is_reported() {
    // Point the root at an index the arena does not hold.
    let mut net = Net::new(GcMode::EraSink);
    net.update_vertex(root_vertex(), Vertex::new(999, Port::Main));
    let mut red = get_reducer_lazy(false);
    match red.run(&mut net, false, 0) {
        Err(EngineError::Corrupt) => {}
        other => panic!("expected Corrupt, got {:?}", other),
    }
}

#[test]
fn search_index_finds_references() {
    let mut net = Net::new(GcMode::EraSink);
    let a = net.new_app();
    let l = net.new_abs("x".to_string(), false);
    net.create_edge(Vertex::main(a), Vertex::main(l));
    assert!(net.search_index(l));
    assert!(!net.search_index(998));
    assert!(!net.search_available_indexes(a));
    net.remove(a);
    assert!(net.search_available_indexes(a));
}

#[test]
fn built_net_is_well_wired() {
    // The bidirectional-edge invariant holds of every freshly built net,
    // sharing included.
    let prog = vec![srun(app(
        lam("x", app(var("x"), app(var("x"), var("x")))),
        lam("y", var("y")),
    ))];
    let net = to_network(&prog, GcMode::EraSink).unwrap();
    assert!(net.check_bidirectional());
    let nogc = to_network(&prog, GcMode::NoGc).unwrap();
    assert!(nogc.check_bidirectional());
}

#[test]
fn readback_depth_bound_returns_no_term() {
    let prog = vec![srun(lam("x", lam("y", var("x"))))];
    let net = to_network(&prog, GcMode::EraSink).unwrap();
    assert_eq!(from_net(&net, Some(0)).unwrap(), None);
    assert_eq!(from_net(&net, Some(1)).unwrap(), None);
    assert!(from_net(&net, Some(64)).unwrap().is_some());
    // A bounded readback that succeeded agrees with the unbounded one.
    assert_eq!(from_net(&net, Some(64)).unwrap(), from_net(&net, None).unwrap());
}

#[test]
fn statistics_report_counts_interactions() {
    let prog = vec![srun(app(lam("x", var("x")), lam("y", var("y"))))];
    let mut net = to_network(&prog, GcMode::EraSink).unwrap();
    let mut red = get_reducer_full(false);
    red.run(&mut net, false, 0).unwrap();
    assert_eq!(net.nb_appabs, 1);
    let report = net.print_stats();
    assert!(report.contains("Reductions"));
    assert!(report.contains("APP-LAMBDA"));
}

#[test]
fn kinds_round_trip_through_clone() {
    let k = NodeKind::CstrK(CstrK::Abs("name".to_string(), true));
    assert_eq!(eole::net::clone_kind(&k), k);
    let f = NodeKind::DstrK(DstrK::FanIn(FIStatus::Labeled(8)));
    assert_eq!(eole::net::clone_kind(&f), f);
}

#[test]
fn both_compactors_agree() {
    // The interval table and the dense map send every live index to the
    // same place, and compacting through either leaves the same net.
    let prog = vec![srun(app(
        lam("x", app(var("x"), var("x"))),
        lam("y", app(var("y"), var("y"))),
    ))];
    let mut net1 = to_network(&prog, GcMode::EraSink).unwrap();
    let mut red = get_reducer_full(false);
    red.run(&mut net1, true, 6).unwrap();
    let mut net2 = net1.clone();

    let mut mi = Interval::new();
    mi.init(&net1);
    let mut mm = Mapped::new();
    mm.init(&net1);
    for i in 0..net1.nodes.len() {
        if !net1.search_available_indexes(i) {
            assert_eq!(mi.adjust_i(i), mm.adjust_i(i), "compactors disagree at {}", i);
        }
    }
    compact(&mi, &mut net1).unwrap();
    compact(&mm, &mut net2).unwrap();
    assert_eq!(net1.nodes, net2.nodes);
    assert!(net1.check_bidirectional());
}

#[test]
fn gc_rejects_a_token_the_table_has_no_row_for() {
    // Plant an ERASE token on the root's body slot by hand: the collector
    // has no rule for a token on a special node and must say so.
    let mut net = Net::new(GcMode::EraSink);
    net.update_vertex(Vertex::new(0, Port::Aux1), Vertex::new(2, Port::Aux1));
    net.gc.to_erase.push(Vertex::new(0, Port::Aux1));
    match net.do_gc() {
        Err(EngineError::Corrupt) => {}
        other => panic!("expected Corrupt, got {:?}", other),
    }
}
