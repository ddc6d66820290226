// End-to-end scenarios: build a program, reduce it, read the result back.

use eole::ast::{SLet, SRun, Sentence, Term};
use eole::conversion::{from_net, to_network};
use eole::gc::GcMode;
use eole::net::Net;
use eole::reduce::{get_reducer_full, ReduceOutcome, ReduceStop};

fn var(n: &str) -> Term {
    Term::Sym { vname: n.to_string() }
}

fn lam(n: &str, b: Term) -> Term {
    Term::Lambda { vname: n.to_string(), body: Box::new(b) }
}

fn app(f: Term, a: Term) -> Term {
    Term::App { fun: Box::new(f), arg: Box::new(a) }
}

fn slet(n: &str, b: Term) -> Sentence {
    Sentence::Let(SLet { vname: n.to_string(), body: Box::new(b) })
}

fn srun(t: Term) -> Sentence {
    Sentence::Run(SRun { term: Box::new(t) })
}

fn alpha_rec(a: &Term, b: &Term, env: &mut Vec<(String, String)>) -> bool {
    match (a, b) {
        (Term::Sym { vname: x }, Term::Sym { vname: y }) => {
            for (p, q) in env.iter().rev() {
                if p == x || q == y {
                    return p == x && q == y;
                }
            }
            x == y
        }
        (Term::Lambda { vname: x, body: ba }, Term::Lambda { vname: y, body: bb }) => {
            env.push((x.clone(), y.clone()));
            let r = alpha_rec(ba, bb, env);
            env.pop();
            r
        }
        (Term::App { fun: f1, arg: a1 }, Term::App { fun: f2, arg: a2 }) => {
            alpha_rec(f1, f2, env) && alpha_rec(a1, a2, env)
        }
        _ => false,
    }
}

fn alpha_eq(a: &Term, b: &Term) -> bool {
    let mut env = Vec::new();
    alpha_rec(a, b, &mut env)
}

fn reduce_full(sentences: &Vec<Sentence>, mode: GcMode, credit: Option<usize>) -> (Net, ReduceOutcome) {
    let mut net = to_network(sentences, mode).unwrap();
    assert!(net.check_bidirectional(), "built net must have bidirectional edges");
    let mut red = get_reducer_full(false);
    let out = match credit {
        None => red.run(&mut net, false, 0),
        Some(c) => red.run(&mut net, true, c),
    }
    .unwrap();
    (net, out)
}

fn readback(net: &Net) -> Term {
    *from_net(net, None).unwrap().unwrap()
}

fn two() -> Term {
    lam("f", lam("x", app(var("f"), app(var("f"), var("x")))))
}

#[test]
fn identity_applied_to_free_variable() {
    // run (x -> x) y.  with y free: the placeholder variable reads back.
    let prog = vec![srun(app(lam("x", var("x")), var("y")))];
    let (net, out) = reduce_full(&prog, GcMode::EraSink, None);
    assert_eq!(out.stop, ReduceStop::Finished);
    match readback(&net) {
        Term::Sym { vname } => assert!(vname.starts_with('y'), "got {}", vname),
        t => panic!("expected a variable, got {:?}", t),
    }
}

#[test]
fn church_two_applied_to_successor_and_zero() {
    // let two = f -> x -> f (f x). let succ = n -> f -> x -> f (n f x).
    // let zero = f -> x -> x. run two succ zero.
    let succ = lam(
        "n",
        lam("f", lam("x", app(var("f"), app(app(var("n"), var("f")), var("x"))))),
    );
    let zero = lam("g", lam("z", var("z")));
    let prog = vec![
        slet("two", two()),
        slet("succ", succ),
        slet("zero", zero),
        srun(app(app(var("two"), var("succ")), var("zero"))),
    ];
    let (net, out) = reduce_full(&prog, GcMode::EraSink, None);
    assert_eq!(out.stop, ReduceStop::Finished);
    let got = readback(&net);
    assert!(alpha_eq(&got, &two()), "expected Church two, got {:?}", got);
}

#[test]
fn duplication_via_sharing_gives_identity() {
    // run (x -> x x) (y -> y).
    let prog = vec![srun(app(lam("x", app(var("x"), var("x"))), lam("y", var("y"))))];
    let (net, out) = reduce_full(&prog, GcMode::EraSink, None);
    assert_eq!(out.stop, ReduceStop::Finished);
    let got = readback(&net);
    assert!(alpha_eq(&got, &lam("a", var("a"))), "expected identity, got {:?}", got);
}

#[test]
fn dead_argument_is_erased() {
    // let omega = (x -> x x) (x -> x x). run (x -> y -> y) omega.
    let omega = app(
        lam("x", app(var("x"), var("x"))),
        lam("w", app(var("w"), var("w"))),
    );
    let prog = vec![
        slet("omega", omega),
        srun(app(lam("x", lam("y", var("y"))), var("omega"))),
    ];
    let (net, out) = reduce_full(&prog, GcMode::EraSink, None);
    assert_eq!(out.stop, ReduceStop::Finished);
    let got = readback(&net);
    assert!(alpha_eq(&got, &lam("a", var("a"))), "expected identity, got {:?}", got);
}

#[test]
fn nontermination_is_bounded_by_credit() {
    // let omega = (x -> x x) (x -> x x). run omega.  Credit 100: the reducer
    // returns after exactly 100 interactions, and the net stays reducible.
    let omega = app(
        lam("x", app(var("x"), var("x"))),
        lam("w", app(var("w"), var("w"))),
    );
    let prog = vec![slet("omega", omega), srun(var("omega"))];
    let mut net = to_network(&prog, GcMode::EraSink).unwrap();
    let mut red = get_reducer_full(false);
    let out = red.run(&mut net, true, 100).unwrap();
    assert_eq!(out.stop, ReduceStop::OutOfCredit);
    assert_eq!(out.steps, 100);
    // Further reduction is possible: the net is well-formed and re-entrant.
    let again = red.run(&mut net, true, 5).unwrap();
    assert_eq!(again.stop, ReduceStop::OutOfCredit);
    assert_eq!(again.steps, 5);
}

#[test]
fn exponential_sharing_win() {
    // let two = f -> x -> f (f x). run two two two two zero.  With sharing,
    // the tower reduces in a number of interactions far below the size of
    // the Church numerals involved.
    let prog = vec![
        slet("two", two()),
        srun(app(
            app(app(app(var("two"), var("two")), var("two")), var("two")),
            var("zero"),
        )),
    ];
    let mut net = to_network(&prog, GcMode::EraSink).unwrap();
    let mut red = get_reducer_full(false);
    let out = red.run(&mut net, true, 2_000_000).unwrap();
    assert_eq!(out.stop, ReduceStop::Finished);
    assert!(out.steps < 200_000, "interactions not polynomial: {}", out.steps);
}

#[test]
fn lazy_reducer_stops_at_weak_head_normal_form() {
    // (x -> x) ((y -> y) (z -> z)) under the lazy driver: the outer redex
    // fires, and reduction stops as soon as a constructor heads the net.
    let prog = vec![srun(app(
        lam("x", var("x")),
        app(lam("y", var("y")), lam("z", var("z"))),
    ))];
    let mut net = to_network(&prog, GcMode::EraSink).unwrap();
    let mut red = eole::reduce::get_reducer_lazy(false);
    let out = red.run(&mut net, false, 0).unwrap();
    assert_eq!(out.stop, ReduceStop::Finished);
    let got = readback(&net);
    assert!(alpha_eq(&got, &lam("a", var("a"))), "expected identity, got {:?}", got);
}

#[test]
fn both_collectors_agree_on_the_result() {
    // A term that discards a finite argument: both the erase-sink collector
    // and the no-op collector must read back the same answer.
    let prog = vec![srun(app(
        lam("x", lam("y", var("y"))),
        app(lam("i", var("i")), lam("j", var("j"))),
    ))];
    let (net_a, out_a) = reduce_full(&prog, GcMode::EraSink, None);
    let (net_b, out_b) = reduce_full(&prog, GcMode::NoGc, None);
    assert_eq!(out_a.stop, ReduceStop::Finished);
    assert_eq!(out_b.stop, ReduceStop::Finished);
    let ta = readback(&net_a);
    let tb = readback(&net_b);
    assert!(alpha_eq(&ta, &tb), "collectors disagree: {:?} vs {:?}", ta, tb);
}

#[test]
fn credit_split_reaches_the_same_net() {
    // Reducing with credit 30 and then 70 leaves the same net as one run
    // with credit 100 (the reducer's stack persists across runs).
    let omega = app(
        lam("x", app(var("x"), var("x"))),
        lam("w", app(var("w"), var("w"))),
    );
    let prog = vec![slet("omega", omega), srun(var("omega"))];

    let mut net1 = to_network(&prog, GcMode::EraSink).unwrap();
    let mut red1 = get_reducer_full(false);
    red1.run(&mut net1, true, 30).unwrap();
    red1.run(&mut net1, true, 70).unwrap();

    let mut net2 = to_network(&prog, GcMode::EraSink).unwrap();
    let mut red2 = get_reducer_full(false);
    red2.run(&mut net2, true, 100).unwrap();

    assert_eq!(net1.nodes, net2.nodes);
    assert_eq!(net1.available_indexes, net2.available_indexes);
    assert_eq!(net1.next_label, net2.next_label);
}

#[test]
fn readback_inverts_build_on_sharing_free_terms() {
    // A closed term with no variable used twice reads back unchanged (up to
    // renaming) without any reduction.
    let t = lam("f", lam("x", app(var("f"), var("x"))));
    let prog = vec![srun(eole::ast::clone_term(&t))];
    let net = to_network(&prog, GcMode::EraSink).unwrap();
    let got = readback(&net);
    assert!(alpha_eq(&got, &t), "build then readback changed the term: {:?}", got);
}
