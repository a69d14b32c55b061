use inet::net::{
    addr, enter, kind, link, new_node, port, reduce, rewrite, slot, Net, CON, ERA, FAN,
};

fn empty_net() -> Net {
    Net { nodes: Vec::new(), reuse: Vec::new() }
}

#[test]
fn port_codec_packs_address_and_slot() {
    assert_eq!(port(0, 0), 0);
    assert_eq!(port(1, 2), 6);
    assert_eq!(port(3, 0), 12);
    assert_eq!(port(250, 3), 1003);
    assert_eq!(addr(1003), 250);
    assert_eq!(slot(1003), 3);
    assert_eq!(addr(6), 1);
    assert_eq!(slot(6), 2);
    assert_eq!(addr(0), 0);
    assert_eq!(slot(0), 0);
}

#[test]
fn new_node_self_loops_and_tags() {
    let mut net = empty_net();
    let n0 = new_node(&mut net, CON);
    assert_eq!(n0, 0);
    assert_eq!(net.nodes, vec![0, 1, 2, CON]);
    let n1 = new_node(&mut net, FAN);
    assert_eq!(n1, 1);
    assert_eq!(net.nodes, vec![0, 1, 2, CON, 4, 5, 6, FAN]);
    assert_eq!(kind(&net, 0), CON);
    assert_eq!(kind(&net, 1), FAN);
    assert!(net.reuse.is_empty());
}

#[test]
fn link_is_symmetric() {
    let mut net = empty_net();
    new_node(&mut net, ERA);
    new_node(&mut net, CON);
    link(&mut net, port(0, 1), port(1, 2));
    assert_eq!(enter(&net, port(0, 1)), port(1, 2));
    assert_eq!(enter(&net, port(1, 2)), port(0, 1));
}

/// Two same-kind nodes whose principal ports are mutually wired and
/// whose four auxiliary targets are four distinct outside ports.
fn annihilation_net() -> Net {
    let mut net = empty_net();
    new_node(&mut net, ERA); // 0: root holder
    new_node(&mut net, CON); // 1: x
    new_node(&mut net, CON); // 2: y
    new_node(&mut net, ERA); // 3..6: the four outside targets
    new_node(&mut net, ERA);
    new_node(&mut net, ERA);
    new_node(&mut net, ERA);
    link(&mut net, port(1, 0), port(2, 0));
    link(&mut net, port(1, 1), port(3, 0));
    link(&mut net, port(1, 2), port(4, 0));
    link(&mut net, port(2, 1), port(5, 0));
    link(&mut net, port(2, 2), port(6, 0));
    net
}

#[test]
fn annihilation_re_pairs_the_four_targets() {
    let mut net = annihilation_net();
    rewrite(&mut net, 1, 2);
    // x's first-aux target is wired to y's first-aux target, and
    // likewise for the second-aux targets.
    assert_eq!(enter(&net, port(3, 0)), port(5, 0));
    assert_eq!(enter(&net, port(5, 0)), port(3, 0));
    assert_eq!(enter(&net, port(4, 0)), port(6, 0));
    assert_eq!(enter(&net, port(6, 0)), port(4, 0));
    // both consumed addresses are freed, each exactly once
    assert_eq!(net.reuse, vec![1, 2]);
    // no node was added or removed from the buffer
    assert_eq!(net.nodes.len(), 28);
}

#[test]
fn reuse_after_annihilation_is_lifo_and_fresh() {
    let mut net = annihilation_net();
    rewrite(&mut net, 1, 2);
    let first = new_node(&mut net, FAN);
    assert_eq!(first, 2);
    assert_eq!(net.nodes[8], 8);
    assert_eq!(net.nodes[9], 9);
    assert_eq!(net.nodes[10], 10);
    assert_eq!(kind(&net, 2), FAN);
    let second = new_node(&mut net, ERA);
    assert_eq!(second, 1);
    assert_eq!(net.nodes[4], 4);
    assert_eq!(net.nodes[5], 5);
    assert_eq!(net.nodes[6], 6);
    assert_eq!(kind(&net, 1), ERA);
    assert!(net.reuse.is_empty());
    assert_eq!(net.nodes.len(), 28);
}

#[test]
fn duplication_conserves_the_four_targets() {
    let mut net = empty_net();
    new_node(&mut net, ERA); // 0: root holder
    new_node(&mut net, FAN); // 1: x
    new_node(&mut net, CON); // 2: y
    new_node(&mut net, ERA); // 3..6: the four outside targets
    new_node(&mut net, ERA);
    new_node(&mut net, ERA);
    new_node(&mut net, ERA);
    link(&mut net, port(1, 0), port(2, 0));
    link(&mut net, port(1, 1), port(3, 0));
    link(&mut net, port(1, 2), port(4, 0));
    link(&mut net, port(2, 1), port(5, 0));
    link(&mut net, port(2, 2), port(6, 0));
    rewrite(&mut net, 1, 2);
    // exactly two new nodes: a (x's kind) and b (y's kind)
    assert_eq!(net.nodes.len(), 36);
    assert!(net.reuse.is_empty());
    assert_eq!(kind(&net, 7), FAN);
    assert_eq!(kind(&net, 8), CON);
    // each original auxiliary target is taken over by a principal port
    assert_eq!(enter(&net, port(3, 0)), port(8, 0));
    assert_eq!(enter(&net, port(8, 0)), port(3, 0));
    assert_eq!(enter(&net, port(4, 0)), port(2, 0));
    assert_eq!(enter(&net, port(2, 0)), port(4, 0));
    assert_eq!(enter(&net, port(5, 0)), port(7, 0));
    assert_eq!(enter(&net, port(7, 0)), port(5, 0));
    assert_eq!(enter(&net, port(6, 0)), port(1, 0));
    assert_eq!(enter(&net, port(1, 0)), port(6, 0));
    // the remaining auxiliary ports are cross-wired pairwise
    assert_eq!(enter(&net, port(7, 1)), port(8, 1));
    assert_eq!(enter(&net, port(8, 1)), port(7, 1));
    assert_eq!(enter(&net, port(7, 2)), port(2, 1));
    assert_eq!(enter(&net, port(2, 1)), port(7, 2));
    assert_eq!(enter(&net, port(1, 1)), port(8, 2));
    assert_eq!(enter(&net, port(8, 2)), port(1, 1));
    assert_eq!(enter(&net, port(1, 2)), port(2, 2));
    assert_eq!(enter(&net, port(2, 2)), port(1, 2));
}

/// The net of `(lam x. x) y`: an application node and an identity
/// lambda node form the only active pair; the argument is a free
/// leaf, the result is wired to the root.
fn identity_application_net() -> Net {
    let mut net = empty_net();
    new_node(&mut net, ERA); // 0: root holder
    new_node(&mut net, CON); // 1: application
    new_node(&mut net, CON); // 2: lambda
    new_node(&mut net, ERA); // 3: the argument y
    link(&mut net, port(1, 0), port(2, 0));
    link(&mut net, port(1, 1), port(3, 0));
    link(&mut net, port(1, 2), port(0, 0));
    link(&mut net, port(2, 1), port(2, 2));
    net
}

#[test]
fn reduce_identity_application_yields_argument() {
    let mut net = identity_application_net();
    let stats = reduce(&mut net);
    // one annihilation, nothing else
    assert_eq!(stats.rules, 1);
    assert_eq!(stats.loops, 5);
    assert_eq!(stats.betas, 0);
    assert_eq!(stats.dupls, 0);
    assert_eq!(stats.annis, 0);
    // the root is now wired straight to y: the term reduced to y
    assert_eq!(enter(&net, port(0, 0)), port(3, 0));
    assert_eq!(enter(&net, port(3, 0)), port(0, 0));
    // the consumed pair was freed
    assert_eq!(net.reuse, vec![1, 2]);
}

#[test]
fn reduce_quiescent_net_reports_zero_rules() {
    let mut net = empty_net();
    new_node(&mut net, ERA); // 0: root holder
    new_node(&mut net, ERA); // 1: a lone leaf
    link(&mut net, port(0, 0), port(1, 0));
    let before = net.nodes.clone();
    let stats = reduce(&mut net);
    assert_eq!(stats.rules, 0);
    assert_eq!(stats.loops, 3);
    assert_eq!(net.nodes, before);
    assert!(net.reuse.is_empty());
}

#[test]
fn reduce_shared_lambda_counts_forced_duplications() {
    // A fan shares an identity lambda: the first copy flows to the
    // root, the second is erased.  Reaching normal form forces one
    // duplication (fan meets lambda) and one annihilation (the two
    // fan halves meet again), and the root receives a lambda copy.
    let mut net = empty_net();
    new_node(&mut net, ERA); // 0: root holder
    new_node(&mut net, FAN); // 1: the sharing fan
    new_node(&mut net, CON); // 2: the shared lambda
    new_node(&mut net, ERA); // 3: erases the second copy
    link(&mut net, port(1, 0), port(2, 0));
    link(&mut net, port(1, 1), port(0, 0));
    link(&mut net, port(1, 2), port(3, 0));
    link(&mut net, port(2, 1), port(2, 2));
    let stats = reduce(&mut net);
    assert_eq!(stats.rules, 2);
    assert_eq!(stats.loops, 7);
    // the root now holds a constructor node: the copied lambda
    let result = enter(&net, port(0, 0));
    assert_eq!(slot(result), 0);
    assert_eq!(kind(&net, addr(result)), CON);
    assert_eq!(result, port(5, 0));
    // its body is still the identity: its two auxiliary ports meet
    let v = enter(&net, port(addr(result), 1));
    assert_eq!(v, port(addr(result), 2));
    // the fan halves annihilated and were freed
    assert_eq!(net.reuse, vec![4, 1]);
}

#[test]
fn reduce_self_application_of_identity() {
    // The net of `(lam f. f f) (lam y. y)`: the outer application and
    // lambda annihilate, the fan that shares `f` duplicates the
    // identity lambda, and the copies annihilate away, leaving the
    // identity lambda wired to the root.
    let mut net = empty_net();
    new_node(&mut net, ERA); // 0: root holder
    new_node(&mut net, CON); // 1: the outer application
    new_node(&mut net, CON); // 2: lam f. (f f)
    new_node(&mut net, CON); // 3: lam y. y, the argument
    new_node(&mut net, CON); // 4: the inner application (f f)
    new_node(&mut net, FAN); // 5: shares f between the two uses
    link(&mut net, port(1, 0), port(2, 0));
    link(&mut net, port(1, 1), port(3, 0));
    link(&mut net, port(1, 2), port(0, 0));
    link(&mut net, port(2, 1), port(5, 0));
    link(&mut net, port(2, 2), port(4, 2));
    link(&mut net, port(4, 0), port(5, 1));
    link(&mut net, port(4, 1), port(5, 2));
    link(&mut net, port(3, 1), port(3, 2));
    let stats = reduce(&mut net);
    assert_eq!(stats.rules, 4);
    assert_eq!(stats.loops, 11);
    // the root holds the identity lambda again
    let result = enter(&net, port(0, 0));
    assert_eq!(result, port(3, 0));
    assert_eq!(kind(&net, 3), CON);
    assert_eq!(enter(&net, port(3, 1)), port(3, 2));
    // every consumed node was recycled: the buffer never grew
    assert_eq!(net.nodes.len(), 24);
    assert_eq!(net.reuse, vec![4, 1, 5, 2]);
}

#[test]
fn reduce_is_deterministic() {
    let mut first = identity_application_net();
    let mut second = identity_application_net();
    let s1 = reduce(&mut first);
    let s2 = reduce(&mut second);
    assert_eq!(s1.loops, s2.loops);
    assert_eq!(s1.rules, s2.rules);
    assert_eq!(first.nodes, second.nodes);
    assert_eq!(first.reuse, second.reuse);
    // reducing an already-normal net again changes nothing
    let done = first.nodes.clone();
    let s3 = reduce(&mut first);
    assert_eq!(s3.rules, 0);
    assert_eq!(first.nodes, done);
}
