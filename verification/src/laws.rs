//! Laws of the rewrite rules and of the reducer, proved over the
//! mathematical model of the net.

use vstd::prelude::*;

use crate::net::{
    alloc_addr, alloc_free, alloc_wires, dup_links, free_wf, is_redex, kind_of, lemma_node_slots,
    lnk, quiescent, r_cursor, r_halted, rewrite_free, rewrite_wires, run, start_state, step,
    wires_wf, RState, MAX_WIRES, Net,
};

verus! {

/// The slot index `t` lies outside the four slots of node `x` and the
/// four slots of node `y`.
pub open spec fn outside_pair(t: int, x: int, y: int) -> bool {
    !(4 * x <= t <= 4 * x + 3) && !(4 * y <= t <= 4 * y + 3)
}

/// Determinism: the machine halts at a unique iteration count, so the
/// state it halts in — and with it the whole sequence of rewrites and
/// the final wiring `reduce` produces — is a function of the input
/// net alone.
pub proof fn lemma_halting_unique(s: RState, j: nat, k: nat)
    requires
        r_halted(run(s, j)),
        forall|i: nat| i < j ==> !r_halted(#[trigger] run(s, i)),
        r_halted(run(s, k)),
        forall|i: nat| i < k ==> !r_halted(#[trigger] run(s, i)),
    ensures
        j == k,
        run(s, j) == run(s, k),
{
    if j < k {
        assert(!r_halted(run(s, j)));
    }
    if k < j {
        assert(!r_halted(run(s, k)));
    }
}

/// Annihilation closure: rewriting a same-kind active pair `x`, `y`
/// whose four auxiliary targets are pairwise distinct and lie outside
/// the two nodes' own slots re-pairs those targets exactly 1:1 (the
/// two first-auxiliary targets to each other, likewise the second),
/// changes no other wire, and pushes each freed address onto the
/// reuse stack exactly once.
pub proof fn lemma_annihilation_closure(w: Seq<u32>, f: Seq<u32>, x: u32, y: u32)
    requires
        wires_wf(w),
        4 * (x as int) + 3 < w.len(),
        4 * (y as int) + 3 < w.len(),
        kind_of(w, x as int) == kind_of(w, y as int),
        x != y,
        !f.contains(x),
        !f.contains(y),
        ({
            let a1 = w[4 * (x as int) + 1] as int;
            let a2 = w[4 * (x as int) + 2] as int;
            let b1 = w[4 * (y as int) + 1] as int;
            let b2 = w[4 * (y as int) + 2] as int;
            &&& a1 != a2 && a1 != b1 && a1 != b2 && a2 != b1 && a2 != b2 && b1 != b2
            &&& outside_pair(a1, x as int, y as int)
            &&& outside_pair(a2, x as int, y as int)
            &&& outside_pair(b1, x as int, y as int)
            &&& outside_pair(b2, x as int, y as int)
        }),
    ensures
        ({
            let w2 = rewrite_wires(w, f, x, y);
            let a1 = w[4 * (x as int) + 1] as int;
            let a2 = w[4 * (x as int) + 2] as int;
            let b1 = w[4 * (y as int) + 1] as int;
            let b2 = w[4 * (y as int) + 2] as int;
            &&& w2.len() == w.len()
            &&& w2[a1] as int == b1 && w2[b1] as int == a1
            &&& w2[a2] as int == b2 && w2[b2] as int == a2
            &&& forall|p: int| 0 <= p < w.len() && p != a1 && p != a2 && p != b1 && p != b2
                ==> w2[p] == w[p]
        }),
        ({
            let f2 = rewrite_free(w, f, x, y);
            &&& f2.len() == f.len() + 2
            &&& forall|i: int| 0 <= i < f2.len() ==> ((#[trigger] f2[i]) == x <==> i == f.len())
            &&& forall|i: int| 0 <= i < f2.len() ==> ((#[trigger] f2[i]) == y <==> i == f.len() + 1)
        }),
{
    let f2 = rewrite_free(w, f, x, y);
    assert(f2 == f.push(x).push(y));
    assert forall|i: int| 0 <= i < f2.len() implies ((#[trigger] f2[i]) == x <==> i == f.len()) by {
        if i < f.len() {
            assert(f2[i] == f[i]);
            assert(f.contains(f[i]));
        }
    }
    assert forall|i: int| 0 <= i < f2.len() implies ((#[trigger] f2[i]) == y <==> i == f.len() + 1) by {
        if i < f.len() {
            assert(f2[i] == f[i]);
            assert(f.contains(f[i]));
        }
    }
}

/// Annihilation through a wire: when `x`'s two auxiliary ports are
/// wired to each other (as in an identity lambda) and `y`'s two
/// auxiliary targets are distinct outside ports, annihilating the
/// pair splices `y`'s two targets directly together — the pair acted
/// as a plain wire.
pub proof fn lemma_annihilation_through_wire(w: Seq<u32>, f: Seq<u32>, x: u32, y: u32)
    requires
        wires_wf(w),
        4 * (x as int) + 3 < w.len(),
        4 * (y as int) + 3 < w.len(),
        kind_of(w, x as int) == kind_of(w, y as int),
        x != y,
        w[4 * (x as int) + 1] as int == 4 * (x as int) + 2,
        w[4 * (x as int) + 2] as int == 4 * (x as int) + 1,
        ({
            let b1 = w[4 * (y as int) + 1] as int;
            let b2 = w[4 * (y as int) + 2] as int;
            &&& b1 != b2
            &&& outside_pair(b1, x as int, y as int)
            &&& outside_pair(b2, x as int, y as int)
        }),
    ensures
        ({
            let w2 = rewrite_wires(w, f, x, y);
            let b1 = w[4 * (y as int) + 1] as int;
            let b2 = w[4 * (y as int) + 2] as int;
            &&& w2.len() == w.len()
            &&& w2[b1] as int == b2
            &&& w2[b2] as int == b1
        }),
        rewrite_free(w, f, x, y) == f.push(x).push(y),
{
}

/// The address of the first node a duplication allocates: the most
/// recently freed one, or the first fresh one.
pub open spec fn dup_addr_a(w: Seq<u32>, f: Seq<u32>) -> int {
    alloc_addr(w, f)
}

/// The address of the second node a duplication allocates, after the
/// first allocation has taken its own.
pub open spec fn dup_addr_b(w: Seq<u32>, f: Seq<u32>, x: u32) -> int {
    alloc_addr(alloc_wires(w, f, kind_of(w, x as int)), alloc_free(f))
}

/// The wiring the eight links of a duplication produce, once the two
/// copies `a` and `b` stand allocated: stated against the buffer `w`
/// the rewrite started from, given how the allocated buffer `wb`
/// relates to it.
#[verifier::rlimit(100)]
proof fn lemma_dup_links_wiring(w: Seq<u32>, wb: Seq<u32>, a: int, b: int, xi: int, yi: int)
    requires
        0 <= xi && 4 * xi + 3 < w.len(),
        0 <= yi && 4 * yi + 3 < w.len(),
        w.len() <= wb.len(),
        wb.len() <= MAX_WIRES as int,
        0 <= a && 4 * a + 3 < wb.len(),
        0 <= b && 4 * b + 3 < wb.len(),
        a != b && a != xi && a != yi && b != xi && b != yi && xi != yi,
        forall|p: int| 0 <= p < w.len()
            && !(4 * a <= p <= 4 * a + 3) && !(4 * b <= p <= 4 * b + 3)
            ==> wb[p] == w[p],
        wb[4 * a + 3] == w[4 * xi + 3],
        wb[4 * b + 3] == w[4 * yi + 3],
        ({
            let t1 = w[4 * xi + 1] as int;
            let t2 = w[4 * xi + 2] as int;
            let t3 = w[4 * yi + 1] as int;
            let t4 = w[4 * yi + 2] as int;
            &&& t1 < w.len() && t2 < w.len() && t3 < w.len() && t4 < w.len()
            &&& t1 != t2 && t1 != t3 && t1 != t4 && t2 != t3 && t2 != t4 && t3 != t4
            &&& outside_pair(t1, xi, yi) && outside_pair(t1, a, b)
            &&& outside_pair(t2, xi, yi) && outside_pair(t2, a, b)
            &&& outside_pair(t3, xi, yi) && outside_pair(t3, a, b)
            &&& outside_pair(t4, xi, yi) && outside_pair(t4, a, b)
        }),
    ensures
        ({
            let w2 = dup_links(wb, a, b, xi, yi);
            let t1 = w[4 * xi + 1] as int;
            let t2 = w[4 * xi + 2] as int;
            let t3 = w[4 * yi + 1] as int;
            let t4 = w[4 * yi + 2] as int;
            &&& w2.len() == wb.len()
            &&& kind_of(w2, a) == w[4 * xi + 3]
            &&& kind_of(w2, b) == w[4 * yi + 3]
            &&& kind_of(w2, xi) == w[4 * xi + 3]
            &&& kind_of(w2, yi) == w[4 * yi + 3]
            &&& w2[t1] as int == 4 * b && w2[4 * b] as int == t1
            &&& w2[t2] as int == 4 * yi && w2[4 * yi] as int == t2
            &&& w2[t3] as int == 4 * a && w2[4 * a] as int == t3
            &&& w2[t4] as int == 4 * xi && w2[4 * xi] as int == t4
            &&& w2[4 * a + 1] as int == 4 * b + 1 && w2[4 * b + 1] as int == 4 * a + 1
            &&& w2[4 * a + 2] as int == 4 * yi + 1 && w2[4 * yi + 1] as int == 4 * a + 2
            &&& w2[4 * xi + 1] as int == 4 * b + 2 && w2[4 * b + 2] as int == 4 * xi + 1
            &&& w2[4 * xi + 2] as int == 4 * yi + 2 && w2[4 * yi + 2] as int == 4 * xi + 2
            &&& forall|p: int| 0 <= p < w.len()
                && p != t1 && p != t2 && p != t3 && p != t4
                && !(4 * xi <= p <= 4 * xi + 3) && !(4 * yi <= p <= 4 * yi + 3)
                && !(4 * a <= p <= 4 * a + 3) && !(4 * b <= p <= 4 * b + 3)
                ==> w2[p] == w[p]
        }),
{
    let t1 = w[4 * xi + 1];
    let t2 = w[4 * xi + 2];
    let t3 = w[4 * yi + 1];
    let t4 = w[4 * yi + 2];
    assert(wb[4 * xi + 1] == t1);
    assert(wb[4 * xi + 2] == t2);
    assert(wb[4 * yi + 1] == t3);
    assert(wb[4 * yi + 2] == t4);
    let w1 = lnk(wb, (4 * b) as u32, wb[4 * xi + 1]);
    assert(w1[4 * xi + 2] == t2);
    let w2 = lnk(w1, (4 * yi) as u32, w1[4 * xi + 2]);
    assert(w2[4 * yi + 1] == t3);
    let w3 = lnk(w2, (4 * a) as u32, w2[4 * yi + 1]);
    assert(w3[4 * yi + 2] == t4);
    let w4 = lnk(w3, (4 * xi) as u32, w3[4 * yi + 2]);
    let w5 = lnk(w4, (4 * a + 1) as u32, (4 * b + 1) as u32);
    let w6 = lnk(w5, (4 * a + 2) as u32, (4 * yi + 1) as u32);
    let w7 = lnk(w6, (4 * xi + 1) as u32, (4 * b + 2) as u32);
    let w8 = lnk(w7, (4 * xi + 2) as u32, (4 * yi + 2) as u32);
    assert(dup_links(wb, a, b, xi, yi) == w8);
    assert(w8[t1 as int] as int == 4 * b && w8[4 * b] as int == t1 as int);
    assert(w8[t2 as int] as int == 4 * yi && w8[4 * yi] as int == t2 as int);
    assert(w8[t3 as int] as int == 4 * a && w8[4 * a] as int == t3 as int);
    assert(w8[t4 as int] as int == 4 * xi && w8[4 * xi] as int == t4 as int);
    assert(w8[4 * a + 3] == w[4 * xi + 3]);
    assert(w8[4 * b + 3] == w[4 * yi + 3]);
    assert(w8[4 * xi + 3] == w[4 * xi + 3]);
    assert(w8[4 * yi + 3] == w[4 * yi + 3]);
    assert forall|p: int|
        0 <= p < w.len()
        && p != t1 as int && p != t2 as int && p != t3 as int && p != t4 as int
        && !(4 * xi <= p <= 4 * xi + 3) && !(4 * yi <= p <= 4 * yi + 3)
        && !(4 * a <= p <= 4 * a + 3) && !(4 * b <= p <= 4 * b + 3)
        implies w8[p] == w[p] by {
        assert(wb[p] == w[p]);
    }
}

/// Duplication conservation: rewriting a different-kind active pair
/// `x`, `y` (in generic position: the four auxiliary targets pairwise
/// distinct and outside the slots of the four nodes involved) leaves
/// exactly two new nodes, `a` carrying `x`'s kind and `b` carrying
/// `y`'s, and every one of the four original auxiliary targets stays
/// connected end-to-end: each is taken over by one of the four
/// principal ports, while the remaining auxiliary ports of the four
/// nodes are cross-wired pairwise.  No other wire changes, and no
/// address is freed.
#[verifier::rlimit(100)]
pub proof fn lemma_duplication_conservation(w: Seq<u32>, f: Seq<u32>, x: u32, y: u32)
    requires
        wires_wf(w),
        free_wf(w, f),
        4 * (x as int) + 3 < w.len(),
        4 * (y as int) + 3 < w.len(),
        kind_of(w, x as int) != kind_of(w, y as int),
        x != y,
        w.len() + 8 <= MAX_WIRES as int,
        ({
            let a = dup_addr_a(w, f);
            let b = dup_addr_b(w, f, x);
            &&& a != b && a != x as int && a != y as int && b != x as int && b != y as int
        }),
        ({
            let a = dup_addr_a(w, f);
            let b = dup_addr_b(w, f, x);
            let t1 = w[4 * (x as int) + 1] as int;
            let t2 = w[4 * (x as int) + 2] as int;
            let t3 = w[4 * (y as int) + 1] as int;
            let t4 = w[4 * (y as int) + 2] as int;
            &&& t1 != t2 && t1 != t3 && t1 != t4 && t2 != t3 && t2 != t4 && t3 != t4
            &&& outside_pair(t1, x as int, y as int) && outside_pair(t1, a, b)
            &&& outside_pair(t2, x as int, y as int) && outside_pair(t2, a, b)
            &&& outside_pair(t3, x as int, y as int) && outside_pair(t3, a, b)
            &&& outside_pair(t4, x as int, y as int) && outside_pair(t4, a, b)
        }),
    ensures
        rewrite_free(w, f, x, y) == alloc_free(alloc_free(f)),
        ({
            let w2 = rewrite_wires(w, f, x, y);
            let a = dup_addr_a(w, f);
            let b = dup_addr_b(w, f, x);
            let t1 = w[4 * (x as int) + 1] as int;
            let t2 = w[4 * (x as int) + 2] as int;
            let t3 = w[4 * (y as int) + 1] as int;
            let t4 = w[4 * (y as int) + 2] as int;
            &&& w2.len() == w.len() + (if f.len() >= 2 {
                0int
            } else if f.len() == 1 {
                4int
            } else {
                8int
            })
            &&& kind_of(w2, a) == kind_of(w, x as int)
            &&& kind_of(w2, b) == kind_of(w, y as int)
            &&& kind_of(w2, x as int) == kind_of(w, x as int)
            &&& kind_of(w2, y as int) == kind_of(w, y as int)
            &&& w2[t1] as int == 4 * b && w2[4 * b] as int == t1
            &&& w2[t2] as int == 4 * (y as int) && w2[4 * (y as int)] as int == t2
            &&& w2[t3] as int == 4 * a && w2[4 * a] as int == t3
            &&& w2[t4] as int == 4 * (x as int) && w2[4 * (x as int)] as int == t4
            &&& w2[4 * a + 1] as int == 4 * b + 1 && w2[4 * b + 1] as int == 4 * a + 1
            &&& w2[4 * a + 2] as int == 4 * (y as int) + 1
                && w2[4 * (y as int) + 1] as int == 4 * a + 2
            &&& w2[4 * (x as int) + 1] as int == 4 * b + 2
                && w2[4 * b + 2] as int == 4 * (x as int) + 1
            &&& w2[4 * (x as int) + 2] as int == 4 * (y as int) + 2
                && w2[4 * (y as int) + 2] as int == 4 * (x as int) + 2
            &&& forall|p: int| 0 <= p < w.len()
                && p != t1 && p != t2 && p != t3 && p != t4
                && !(4 * (x as int) <= p <= 4 * (x as int) + 3)
                && !(4 * (y as int) <= p <= 4 * (y as int) + 3)
                && !(4 * a <= p <= 4 * a + 3)
                && !(4 * b <= p <= 4 * b + 3)
                ==> w2[p] == w[p]
        }),
{
    let xi = x as int;
    let yi = y as int;
    let a = dup_addr_a(w, f);
    let wa = alloc_wires(w, f, w[4 * xi + 3]);
    let fa = alloc_free(f);
    let b = alloc_addr(wa, fa);
    let wb = alloc_wires(wa, fa, wa[4 * yi + 3]);
    vstd::arithmetic::div_mod::lemma_fundamental_div_mod(w.len() as int, 4);
    vstd::arithmetic::div_mod::lemma_fundamental_div_mod(wa.len() as int, 4);
    if f.len() > 0 {
        assert(4 * (f.last() as int) + 3 < w.len());
    }
    if f.len() > 1 {
        assert(4 * (f[f.len() - 2] as int) + 3 < w.len());
        assert(fa.last() == f[f.len() - 2]);
    }
    assert(b == dup_addr_b(w, f, x));
    assert(wb[4 * a + 3] == w[4 * xi + 3]);
    assert(wa[4 * yi + 3] == w[4 * yi + 3]);
    assert(wb[4 * b + 3] == w[4 * yi + 3]);
    assert forall|p: int|
        0 <= p < w.len() && !(4 * a <= p <= 4 * a + 3) && !(4 * b <= p <= 4 * b + 3)
        implies wb[p] == w[p] by {
        assert(wa[p] == w[p]);
    }
    lemma_dup_links_wiring(w, wb, a, b, xi, yi);
    assert(rewrite_wires(w, f, x, y) == dup_links(wb, a, b, xi, yi));
}

/// Reuse correctness: an address freed by annihilating the pair `x`,
/// `y` and later handed out again by the allocator comes back with
/// all three ports freshly self-looped and the requested kind tag —
/// no wiring from its previous life leaks through.  The stack is
/// last-in first-out: `y` is reused first, then `x`.
pub proof fn lemma_reuse_after_annihilation(w: Seq<u32>, f: Seq<u32>, x: u32, y: u32, k1: u32, k2: u32)
    requires
        wires_wf(w),
        4 * (x as int) + 3 < w.len(),
        4 * (y as int) + 3 < w.len(),
        kind_of(w, x as int) == kind_of(w, y as int),
    ensures
        ({
            let f2 = rewrite_free(w, f, x, y);
            let w2 = rewrite_wires(w, f, x, y);
            let wy = alloc_wires(w2, f2, k1);
            let fy = alloc_free(f2);
            let wx = alloc_wires(wy, fy, k2);
            &&& alloc_addr(w2, f2) == y as int
            &&& wy[4 * (y as int)] as int == 4 * (y as int)
            &&& wy[4 * (y as int) + 1] as int == 4 * (y as int) + 1
            &&& wy[4 * (y as int) + 2] as int == 4 * (y as int) + 2
            &&& kind_of(wy, y as int) == k1
            &&& alloc_addr(wy, fy) == x as int
            &&& wx[4 * (x as int)] as int == 4 * (x as int)
            &&& wx[4 * (x as int) + 1] as int == 4 * (x as int) + 1
            &&& wx[4 * (x as int) + 2] as int == 4 * (x as int) + 2
            &&& kind_of(wx, x as int) == k2
        }),
{
    let f2 = rewrite_free(w, f, x, y);
    assert(f2 == f.push(x).push(y));
    assert(f2.last() == y);
    assert(alloc_free(f2) =~= f.push(x));
}

/// Termination reporting: on a net in which no visit can uncover an
/// active pair, the machine fires no rewrite at all and leaves the
/// store and the reuse stack untouched, however long it walks.
/// Together with the contract of `reduce`, this gives `rules == 0`
/// and an unchanged net for every such input.
pub proof fn lemma_quiescent_no_rewrites(n: Net, k: nat)
    requires
        n.wf(),
        n.nodes@.len() > 0,
        quiescent(n.nodes@),
    ensures
        run(start_state(n), k).wires == n.nodes@,
        run(start_state(n), k).free == n.reuse@,
        run(start_state(n), k).rules == 0,
{
    lemma_quiescent_run(start_state(n), k);
}

/// The inductive heart of `lemma_quiescent_no_rewrites`: a machine
/// state over quiescent wires whose cursor came out of a wire slot
/// (and whose deferred ports are auxiliary) never fires a rewrite and
/// never changes the store.
pub proof fn lemma_quiescent_run(s: RState, k: nat)
    requires
        wires_wf(s.wires),
        quiescent(s.wires),
        s.next == 0 || exists|q: int|
            0 <= q < s.wires.len() && q % 4 != 3 && s.next == s.wires[q],
        forall|i: int| 0 <= i < s.warp.len()
            ==> ((#[trigger] s.warp[i]) as int) < s.wires.len()
                && (s.warp[i] as int) % 4 == 2,
    ensures
        run(s, k).wires == s.wires,
        run(s, k).free == s.free,
        run(s, k).rules == s.rules,
        run(s, k).next == 0 || exists|q: int|
            0 <= q < s.wires.len() && q % 4 != 3 && run(s, k).next == s.wires[q],
        forall|i: int| 0 <= i < run(s, k).warp.len()
            ==> ((#[trigger] run(s, k).warp[i]) as int) < s.wires.len()
                && (run(s, k).warp[i] as int) % 4 == 2,
    decreases k,
{
    if k > 0 {
        lemma_quiescent_run(s, (k - 1) as nat);
        let sp = run(s, (k - 1) as nat);
        let w = s.wires;
        if !r_halted(sp) {
            let n1 = r_cursor(sp);
            if sp.next == 0 {
                let q = sp.warp.last() as int;
                assert(0 <= q < w.len() && q % 4 != 3 && n1 == w[q]);
                assert(!is_redex(w, w[q]));
            } else {
                let q = choose|q: int|
                    0 <= q < w.len() && q % 4 != 3 && sp.next == w[q];
                assert(!is_redex(w, w[q]));
            }
            assert(!is_redex(w, n1));
            lemma_node_slots(n1 as int, w.len() as int);
            let m = (n1 as int) / 4;
            vstd::arithmetic::div_mod::lemma_mod_multiples_vanish(m, 0, 4);
            vstd::arithmetic::div_mod::lemma_mod_multiples_vanish(m, 1, 4);
            vstd::arithmetic::div_mod::lemma_mod_multiples_vanish(m, 2, 4);
            if (n1 as int) % 4 == 0 {
                assert(step(sp).next == w[4 * m + 1]);
                assert((4 * m + 1) % 4 == 1);
                assert(step(sp).warp.last() as int == 4 * m + 2);
                assert((4 * m + 2) % 4 == 2);
            } else {
                assert(step(sp).next == w[4 * m]);
                assert((4 * m) % 4 == 0);
            }
        }
    }
}

} // verus!
