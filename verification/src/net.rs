//! The node store, port codec, wiring primitives, allocator, rewrite
//! engine and reducer of the interaction-net machine.

use vstd::prelude::*;

verus! {

/// Kind tag of an eraser node (an unused binder / garbage collector).
pub const ERA: u32 = 0;

/// Kind tag of a constructor node (a lambda or an application).
pub const CON: u32 = 1;

/// Kind tag of a duplicator node (a pair or a let-binding).
pub const FAN: u32 = 2;

/// Upper bound on the length of the wire buffer.  It keeps every port
/// handle representable as a `u32` and leaves room to grow a node
/// without overflowing `usize` on any machine.
pub const MAX_WIRES: usize = 0xFFFF_FFF0;

/// A port handle: a node address packed with a slot index.
pub type Port = u32;

/// The reserved root sentinel: handle zero marks the net's root wire
/// and never denotes an ordinary in-use port.  The reducer's cursor
/// holding it means the current descent is exhausted.
pub const ROOT: Port = 0;

/// Counters reported by `reduce`.  They are purely observational: the
/// reduction outcome does not depend on them.  Only `loops` and `rules`
/// are ever incremented; the per-rule counters stay zero.
#[derive(Clone, Debug)]
pub struct Stats {
    pub loops: u32,
    pub rules: u32,
    pub betas: u32,
    pub dupls: u32,
    pub annis: u32,
}

/// A whole net: the flat wire buffer (four slots per node) and the
/// stack of freed node addresses available for reuse.
#[derive(Clone, Debug)]
pub struct Net {
    pub nodes: Vec<u32>,
    pub reuse: Vec<u32>,
}

/// The wire buffer is a whole number of nodes, small enough that every
/// slot index is a valid `u32` port handle, and every stored value is
/// itself an index into the buffer.
pub open spec fn wires_wf(w: Seq<u32>) -> bool {
    &&& w.len() % 4 == 0
    &&& w.len() <= MAX_WIRES as int
    &&& forall|i: int| 0 <= i < w.len() ==> ((#[trigger] w[i]) as int) < w.len()
}

/// Every freed address on the reuse stack addresses a node whose four
/// slots lie inside the wire buffer.
pub open spec fn free_wf(w: Seq<u32>, f: Seq<u32>) -> bool {
    forall|i: int| 0 <= i < f.len() ==> 4 * ((#[trigger] f[i]) as int) + 3 < w.len()
}

impl Net {
    /// Well-formedness of the store: the invariant every operation
    /// preserves and relies on for in-bounds access.
    pub open spec fn wf(self) -> bool {
        wires_wf(self.nodes@) && free_wf(self.nodes@, self.reuse@)
    }
}

/// Mathematical port packing: address times four plus slot.
pub open spec fn port_of(node: int, slot: int) -> int {
    4 * node + slot
}

/// Mathematical address of a port.
pub open spec fn addr_of(p: int) -> int {
    p / 4
}

/// Mathematical slot of a port.
pub open spec fn slot_of(p: int) -> int {
    p % 4
}

/// The kind tag stored in a node's fourth slot.
pub open spec fn kind_of(w: Seq<u32>, node: int) -> u32 {
    w[4 * node + 3]
}

/// Division facts about the four-slot node layout: a port inside the
/// buffer addresses a node whose four slots are all inside the buffer.
pub proof fn lemma_node_slots(p: int, len: int)
    requires
        0 <= p < len,
        len % 4 == 0,
    ensures
        0 <= p / 4,
        4 * (p / 4) <= p,
        4 * (p / 4) + 3 < len,
        0 <= p % 4 < 4,
        4 * (p / 4) + p % 4 == p,
{
    vstd::arithmetic::div_mod::lemma_fundamental_div_mod(p, 4);
    vstd::arithmetic::div_mod::lemma_fundamental_div_mod(len, 4);
    assert(p <= len - 1);
    assert(4 * (p / 4) + p % 4 <= 4 * (len / 4) - 1);
    assert(p / 4 <= len / 4 - 1) by {
        if p / 4 > len / 4 - 1 {
            assert(p / 4 >= len / 4);
            assert(4 * (p / 4) >= 4 * (len / 4)) by (nonlinear_arith)
                requires p / 4 >= len / 4;
        }
    }
    assert(4 * (p / 4) <= 4 * (len / 4 - 1)) by (nonlinear_arith)
        requires p / 4 <= len / 4 - 1;
}

/// Builds a port handle from a node address and a slot index.
pub fn port(node: u32, slot: u32) -> (r: Port)
    requires
        node <= 0x3FFF_FFFF,
        slot <= 3,
    ensures
        r as int == port_of(node as int, slot as int),
{
    node * 4 + slot
}

/// Returns the address of a port.
pub fn addr(port: Port) -> (r: u32)
    ensures
        r as int == addr_of(port as int),
{
    port / 4
}

/// Returns the slot of a port.
pub fn slot(port: Port) -> (r: u32)
    ensures
        r as int == slot_of(port as int),
        r <= 3,
{
    port % 4
}

/// Enters a port: returns the port on the other side of its wire.
pub fn enter(net: &Net, port: Port) -> (r: Port)
    requires
        net.wf(),
        (port as int) < net.nodes@.len(),
    ensures
        r == net.nodes@[port as int],
        (r as int) < net.nodes@.len(),
{
    net.nodes[port as usize]
}

/// Returns the kind tag of a node.
pub fn kind(net: &Net, node: u32) -> (r: u32)
    requires
        net.wf(),
        4 * (node as int) + 3 < net.nodes@.len(),
    ensures
        r == kind_of(net.nodes@, node as int),
        (r as int) < net.nodes@.len(),
{
    net.nodes[port(node, 3) as usize]
}

/// The wire buffer after wiring two ports to each other: each slot
/// stores the other port.
pub open spec fn lnk(w: Seq<u32>, a: u32, b: u32) -> Seq<u32> {
    w.update(a as int, b).update(b as int, a)
}

/// Links two ports, establishing a symmetric connection between them.
pub fn link(net: &mut Net, ptr_a: Port, ptr_b: Port)
    requires
        old(net).wf(),
        (ptr_a as int) < old(net).nodes@.len(),
        (ptr_b as int) < old(net).nodes@.len(),
    ensures
        final(net).wf(),
        final(net).nodes@ == lnk(old(net).nodes@, ptr_a, ptr_b),
        final(net).nodes@.len() == old(net).nodes@.len(),
        final(net).reuse@ == old(net).reuse@,
{
    net.nodes.set(ptr_a as usize, ptr_b);
    net.nodes.set(ptr_b as usize, ptr_a);
}

/// The wire buffer after initializing a node at address `n`: its three
/// ports self-loop (dangling) and its fourth slot holds the kind tag.
pub open spec fn init_node(w: Seq<u32>, n: int, k: u32) -> Seq<u32> {
    w.update(4 * n, (4 * n) as u32)
        .update(4 * n + 1, (4 * n + 1) as u32)
        .update(4 * n + 2, (4 * n + 2) as u32)
        .update(4 * n + 3, k)
}

/// The address the allocator hands out: the most recently freed one,
/// or a fresh one past the end of the buffer.
pub open spec fn alloc_addr(w: Seq<u32>, f: Seq<u32>) -> int {
    if f.len() > 0 {
        f.last() as int
    } else {
        w.len() as int / 4
    }
}

/// The wire buffer after an allocation: grown by one node if no freed
/// address was available, and the node's slots initialized.
pub open spec fn alloc_wires(w: Seq<u32>, f: Seq<u32>, k: u32) -> Seq<u32> {
    if f.len() > 0 {
        init_node(w, f.last() as int, k)
    } else {
        init_node(w + seq![0u32, 0u32, 0u32, 0u32], w.len() as int / 4, k)
    }
}

/// The reuse stack after an allocation: one entry popped if any.
pub open spec fn alloc_free(f: Seq<u32>) -> Seq<u32> {
    if f.len() > 0 {
        f.drop_last()
    } else {
        f
    }
}

/// Allocates a node of the given kind, reclaiming a freed address if
/// possible, and self-loops its three ports.  The tag must be one of
/// the three kinds, or at least small enough to keep the store
/// well-formed when a caller copies a tag already in the buffer.
pub fn new_node(net: &mut Net, kind: u32) -> (node: u32)
    requires
        old(net).wf(),
        kind <= 2 || (kind as int) < old(net).nodes@.len(),
        old(net).reuse@.len() == 0 ==> old(net).nodes@.len() + 4 <= MAX_WIRES as int,
    ensures
        final(net).wf(),
        node as int == alloc_addr(old(net).nodes@, old(net).reuse@),
        final(net).nodes@ == alloc_wires(old(net).nodes@, old(net).reuse@, kind),
        final(net).reuse@ == alloc_free(old(net).reuse@),
        final(net).nodes@.len() >= old(net).nodes@.len(),
        final(net).nodes@.len() <= old(net).nodes@.len() + 4,
        4 * (node as int) + 3 < final(net).nodes@.len(),
        final(net).nodes@[4 * (node as int)] as int == 4 * (node as int),
        final(net).nodes@[4 * (node as int) + 1] as int == 4 * (node as int) + 1,
        final(net).nodes@[4 * (node as int) + 2] as int == 4 * (node as int) + 2,
        kind_of(final(net).nodes@, node as int) == kind,
{
    let ghost w0 = net.nodes@;
    let ghost f0 = net.reuse@;
    let node: u32 = match net.reuse.pop() {
        Some(index) => {
            proof {
                assert(f0[f0.len() - 1] == index);
            }
            index
        },
        None => {
            let len: usize = net.nodes.len();
            net.nodes.push(0);
            net.nodes.push(0);
            net.nodes.push(0);
            net.nodes.push(0);
            proof {
                assert(net.nodes@ =~= w0 + seq![0u32, 0u32, 0u32, 0u32]);
                vstd::arithmetic::div_mod::lemma_fundamental_div_mod(len as int, 4);
            }
            (len as u32) / 4
        },
    };
    proof {
        if f0.len() > 0 {
            lemma_node_slots(4 * (node as int), w0.len() as int);
        }
        assert(4 * (node as int) + 3 < net.nodes@.len());
    }
    let p0: u32 = port(node, 0);
    let p1: u32 = port(node, 1);
    let p2: u32 = port(node, 2);
    let p3: u32 = port(node, 3);
    net.nodes.set(p0 as usize, p0);
    net.nodes.set(p1 as usize, p1);
    net.nodes.set(p2 as usize, p2);
    net.nodes.set(p3 as usize, kind);
    proof {
        assert(net.nodes@ == alloc_wires(w0, f0, kind));
        assert forall|i: int| 0 <= i < net.nodes@.len()
            implies ((#[trigger] net.nodes@[i]) as int) < net.nodes@.len() by {
            if i < 4 * (node as int) || i > 4 * (node as int) + 3 {
                if i < w0.len() {
                    assert(w0[i] == net.nodes@[i]);
                }
            }
        }
    }
    node
}

/// The wire buffer after annihilating a same-kind active pair `x`,
/// `y`: the targets of their first auxiliary ports are wired to each
/// other, then likewise for the second auxiliary ports.
pub open spec fn anni_wires(w: Seq<u32>, x: u32, y: u32) -> Seq<u32> {
    let xi = x as int;
    let yi = y as int;
    let w1 = lnk(w, w[4 * xi + 1], w[4 * yi + 1]);
    lnk(w1, w1[4 * xi + 2], w1[4 * yi + 2])
}

/// The eight links a duplication performs once its two nodes `a` and
/// `b` stand allocated in `wb`: the four principal ports take over
/// the four auxiliary targets, then the remaining auxiliary ports are
/// cross-connected.
pub open spec fn dup_links(wb: Seq<u32>, a: int, b: int, xi: int, yi: int) -> Seq<u32> {
    let w1 = lnk(wb, (4 * b) as u32, wb[4 * xi + 1]);
    let w2 = lnk(w1, (4 * yi) as u32, w1[4 * xi + 2]);
    let w3 = lnk(w2, (4 * a) as u32, w2[4 * yi + 1]);
    let w4 = lnk(w3, (4 * xi) as u32, w3[4 * yi + 2]);
    let w5 = lnk(w4, (4 * a + 1) as u32, (4 * b + 1) as u32);
    let w6 = lnk(w5, (4 * a + 2) as u32, (4 * yi + 1) as u32);
    let w7 = lnk(w6, (4 * xi + 1) as u32, (4 * b + 2) as u32);
    lnk(w7, (4 * xi + 2) as u32, (4 * yi + 2) as u32)
}

/// The wire buffer after commuting a different-kind active pair `x`,
/// `y`: two nodes are allocated (one of each kind), then the pair and
/// its copies are rewired by `dup_links`.
pub open spec fn dup_wires(w: Seq<u32>, f: Seq<u32>, x: u32, y: u32) -> Seq<u32> {
    let xi = x as int;
    let yi = y as int;
    let a = alloc_addr(w, f);
    let wa = alloc_wires(w, f, w[4 * xi + 3]);
    let fa = alloc_free(f);
    let b = alloc_addr(wa, fa);
    let wb = alloc_wires(wa, fa, wa[4 * yi + 3]);
    dup_links(wb, a, b, xi, yi)
}

/// The wire buffer after rewriting the active pair `x`, `y`: the rule
/// is chosen by comparing the two kind tags.
pub open spec fn rewrite_wires(w: Seq<u32>, f: Seq<u32>, x: u32, y: u32) -> Seq<u32> {
    if kind_of(w, x as int) == kind_of(w, y as int) {
        anni_wires(w, x, y)
    } else {
        dup_wires(w, f, x, y)
    }
}

/// The reuse stack after rewriting the active pair `x`, `y`: both
/// addresses are freed by annihilation; duplication only consumes
/// freed addresses, through its two allocations.
pub open spec fn rewrite_free(w: Seq<u32>, f: Seq<u32>, x: u32, y: u32) -> Seq<u32> {
    if kind_of(w, x as int) == kind_of(w, y as int) {
        f.push(x).push(y)
    } else {
        alloc_free(alloc_free(f))
    }
}

/// Rewrites an active pair: annihilation when the kinds agree (the
/// pair's auxiliary targets are cross-linked and both addresses are
/// freed), duplication when they differ (each node passes through the
/// other, leaving four nodes).
pub fn rewrite(net: &mut Net, x: u32, y: u32)
    requires
        old(net).wf(),
        4 * (x as int) + 3 < old(net).nodes@.len(),
        4 * (y as int) + 3 < old(net).nodes@.len(),
        kind_of(old(net).nodes@, x as int) != kind_of(old(net).nodes@, y as int)
            ==> old(net).nodes@.len() + 8 <= MAX_WIRES as int,
    ensures
        final(net).wf(),
        final(net).nodes@ == rewrite_wires(old(net).nodes@, old(net).reuse@, x, y),
        final(net).reuse@ == rewrite_free(old(net).nodes@, old(net).reuse@, x, y),
        final(net).nodes@.len() >= old(net).nodes@.len(),
{
    let ghost w0 = net.nodes@;
    let ghost f0 = net.reuse@;
    if kind(net, x) == kind(net, y) {
        let p0 = enter(net, port(x, 1));
        let p1 = enter(net, port(y, 1));
        link(net, p0, p1);
        let p0 = enter(net, port(x, 2));
        let p1 = enter(net, port(y, 2));
        link(net, p0, p1);
        net.reuse.push(x);
        net.reuse.push(y);
        proof {
            assert(net.nodes@ == anni_wires(w0, x, y));
            assert(net.reuse@ == f0.push(x).push(y));
        }
    } else {
        let t = kind(net, x);
        let a = new_node(net, t);
        let t = kind(net, y);
        let b = new_node(net, t);
        let t = enter(net, port(x, 1));
        link(net, port(b, 0), t);
        let t = enter(net, port(x, 2));
        link(net, port(y, 0), t);
        let t = enter(net, port(y, 1));
        link(net, port(a, 0), t);
        let t = enter(net, port(y, 2));
        link(net, port(x, 0), t);
        link(net, port(a, 1), port(b, 1));
        link(net, port(a, 2), port(y, 1));
        link(net, port(x, 1), port(b, 2));
        link(net, port(x, 2), port(y, 2));
        proof {
            assert(net.nodes@ == dup_wires(w0, f0, x, y));
            assert(net.reuse@ == alloc_free(alloc_free(f0)));
        }
    }
}

/// The complete state of the reduction machine: the store, the two
/// traversal stacks and the cursor, plus the rewrite count.
#[verifier::ext_equal]
pub ghost struct RState {
    pub wires: Seq<u32>,
    pub free: Seq<u32>,
    pub warp: Seq<u32>,
    pub exit: Seq<u32>,
    pub next: u32,
    pub rules: nat,
}

/// The machine state `reduce` starts from: empty stacks, zero counts,
/// and the cursor seeded from the root wire.
pub open spec fn start_state(n: Net) -> RState {
    RState {
        wires: n.nodes@,
        free: n.reuse@,
        warp: Seq::empty(),
        exit: Seq::empty(),
        next: n.nodes@[0],
        rules: 0,
    }
}

/// The walk is finished: the cursor is back at the root sentinel and
/// no deferred work remains.
pub open spec fn r_done(s: RState) -> bool {
    s.next == 0 && s.warp.len() == 0
}

/// The port the machine visits this iteration: the cursor, or the
/// other side of the most recently deferred port.
pub open spec fn r_cursor(s: RState) -> u32 {
    if s.next == 0 {
        s.wires[s.warp.last() as int]
    } else {
        s.next
    }
}

/// The deferred-work stack after this iteration's visit is chosen.
pub open spec fn r_warp1(s: RState) -> Seq<u32> {
    if s.next == 0 {
        s.warp.drop_last()
    } else {
        s.warp
    }
}

/// Visiting `p` uncovers an active pair: `p` is a principal port and
/// so is the port wired to it, which belongs to a non-root node.
pub open spec fn is_redex(w: Seq<u32>, p: u32) -> bool {
    &&& (p as int) % 4 == 0
    &&& (w[p as int] as int) % 4 == 0
    &&& (w[p as int] as int) / 4 != 0
}

/// The machine cannot take its step: an active pair was found but the
/// return-address stack is empty (the traversal invariant of a closed
/// net was violated), or a duplication would grow the store past its
/// bound.
pub open spec fn r_stuck(s: RState) -> bool {
    &&& !r_done(s)
    &&& {
        let n1 = r_cursor(s);
        let prev = s.wires[n1 as int];
        &&& is_redex(s.wires, n1)
        &&& {
            ||| s.exit.len() == 0
            ||| (kind_of(s.wires, prev as int / 4) != kind_of(s.wires, n1 as int / 4)
                && s.wires.len() + 8 > MAX_WIRES as int)
        }
    }
}

/// The machine has halted: finished, or stuck on a malformed input.
pub open spec fn r_halted(s: RState) -> bool {
    r_done(s) || r_stuck(s)
}

/// One iteration of the reduction machine: fire a found active pair
/// and resume at the saved return address, or descend past a principal
/// port (deferring the second branch), or ascend through an auxiliary
/// port toward the node's principal port.
pub open spec fn step(s: RState) -> RState {
    if r_halted(s) {
        s
    } else {
        let n1 = r_cursor(s);
        let warp1 = r_warp1(s);
        let prev = s.wires[n1 as int];
        if is_redex(s.wires, n1) {
            let e = s.exit.last();
            let back = s.wires[4 * (prev as int / 4) + e as int];
            let x = (prev as int / 4) as u32;
            let y = (n1 as int / 4) as u32;
            let w2 = rewrite_wires(s.wires, s.free, x, y);
            RState {
                wires: w2,
                free: rewrite_free(s.wires, s.free, x, y),
                warp: warp1,
                exit: s.exit.drop_last(),
                next: w2[back as int],
                rules: s.rules + 1,
            }
        } else if (n1 as int) % 4 == 0 {
            RState {
                warp: warp1.push((4 * (n1 as int / 4) + 2) as u32),
                next: s.wires[4 * (n1 as int / 4) + 1],
                ..s
            }
        } else {
            RState {
                warp: warp1,
                exit: s.exit.push(((n1 as int) % 4) as u32),
                next: s.wires[4 * (n1 as int / 4)],
                ..s
            }
        }
    }
}

/// The machine state after `k` iterations from `s`.
pub open spec fn run(s: RState, k: nat) -> RState
    decreases k,
{
    if k == 0 {
        s
    } else {
        step(run(s, (k - 1) as nat))
    }
}

/// Reduces a net to normal form lazily and sequentially, in place, and
/// returns the iteration and rewrite counts.  The result is a pure
/// function of the input net: the machine runs `stats.loops` steps of
/// `step` from `start_state`, stopping at the first halted state (or,
/// in principle, after `u32::MAX` iterations, so that the counters
/// cannot overflow on a diverging input).  A net not produced by a
/// correct compiler can leave the machine stuck (`r_stuck`): the walk
/// then stops there rather than read past a traversal invariant; on a
/// closed, well-formed net that state never arises.
#[verifier::rlimit(50)]
pub fn reduce(net: &mut Net) -> (stats: Stats)
    requires
        old(net).wf(),
        old(net).nodes@.len() > 0,
    ensures
        final(net).wf(),
        stats.betas == 0,
        stats.dupls == 0,
        stats.annis == 0,
        stats.rules <= stats.loops,
        ({
            let s0 = start_state(*old(net));
            let sk = run(s0, stats.loops as nat);
            &&& final(net).nodes@ == sk.wires
            &&& final(net).reuse@ == sk.free
            &&& stats.rules as nat == sk.rules
            &&& (forall|j: nat| j < stats.loops as nat ==> !r_halted(#[trigger] run(s0, j)))
            &&& (r_halted(sk) || stats.loops == u32::MAX)
        }),
{
    let ghost s0 = start_state(*old(net));
    let mut stats = Stats { loops: 0, rules: 0, betas: 0, dupls: 0, annis: 0 };
    let mut warp: Vec<u32> = Vec::new();
    let mut exit: Vec<u32> = Vec::new();
    let mut next: Port = net.nodes[ROOT as usize];
    proof {
        assert(run(s0, 0) =~= RState {
            wires: net.nodes@,
            free: net.reuse@,
            warp: warp@,
            exit: exit@,
            next: next,
            rules: stats.rules as nat,
        });
    }
    while (next != ROOT || warp.len() > 0) && stats.loops < u32::MAX
        invariant
            net.wf(),
            (next as int) < net.nodes@.len(),
            forall|i: int| 0 <= i < warp@.len()
                ==> ((#[trigger] warp@[i]) as int) < net.nodes@.len(),
            forall|i: int| 0 <= i < exit@.len() ==> (#[trigger] exit@[i]) < 4,
            stats.betas == 0,
            stats.dupls == 0,
            stats.annis == 0,
            stats.rules <= stats.loops,
            run(s0, stats.loops as nat) == (RState {
                wires: net.nodes@,
                free: net.reuse@,
                warp: warp@,
                exit: exit@,
                next: next,
                rules: stats.rules as nat,
            }),
            forall|j: nat| j < stats.loops as nat ==> !r_halted(#[trigger] run(s0, j)),
        ensures
            r_halted(run(s0, stats.loops as nat)) || stats.loops == u32::MAX,
        decreases u32::MAX - stats.loops,
    {
        let ghost pre = run(s0, stats.loops as nat);
        let from_warp: bool = next == ROOT;
        let n1: Port = if from_warp {
            enter(net, warp[warp.len() - 1])
        } else {
            next
        };
        let prev: Port = enter(net, n1);
        proof {
            assert(n1 == r_cursor(pre));
            lemma_node_slots(n1 as int, net.nodes@.len() as int);
            lemma_node_slots(prev as int, net.nodes@.len() as int);
        }
        let redex: bool = slot(n1) == 0 && slot(prev) == 0 && addr(prev) != 0;
        proof {
            assert(redex == is_redex(pre.wires, n1));
        }
        if redex && exit.len() == 0 {
            proof {
                assert(r_stuck(pre));
            }
            break;
        }
        if redex {
            let xk = kind(net, addr(prev));
            let yk = kind(net, addr(n1));
            if xk != yk && net.nodes.len() > MAX_WIRES - 8 {
                proof {
                    assert(r_stuck(pre));
                }
                break;
            }
        }
        proof {
            assert(!r_halted(pre));
        }
        if from_warp {
            let _ = warp.pop();
        }
        if redex {
            stats.rules = stats.rules + 1;
            let e: u32 = exit.pop().unwrap();
            let back: Port = enter(net, port(addr(prev), e));
            rewrite(net, addr(prev), addr(n1));
            next = enter(net, back);
            proof {
                assert(addr_of(prev as int) as u32 == ((prev as int) / 4) as u32);
                assert(addr_of(n1 as int) as u32 == ((n1 as int) / 4) as u32);
            }
        } else if slot(n1) == 0 {
            warp.push(port(addr(n1), 2));
            next = enter(net, port(addr(n1), 1));
        } else {
            exit.push(slot(n1));
            next = enter(net, port(addr(n1), 0));
        }
        stats.loops = stats.loops + 1;
        proof {
            assert(run(s0, stats.loops as nat) =~= RState {
                wires: net.nodes@,
                free: net.reuse@,
                warp: warp@,
                exit: exit@,
                next: next,
                rules: stats.rules as nat,
            });
        }
    }
    stats
}

/// No visit can uncover an active pair: no port stored in a wire slot
/// is a principal port wired to the principal port of a non-root node.
/// Kind slots are exempt, as their tags are not ports.
pub open spec fn quiescent(w: Seq<u32>) -> bool {
    forall|q: int| 0 <= q < w.len() && q % 4 != 3 ==> !is_redex(w, #[trigger] w[q])
}

} // verus!
