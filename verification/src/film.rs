//! The integer geometry and labels behind the film lab's plates: the
//! Heighway dragon's turns, the cells of the plate's Hilbert-order walk, and
//! comma-grouped counts for the receipts. Drawing them is the renderer's
//! business.

use vstd::prelude::*;

use vstd::arithmetic::power2::{lemma2_to64, lemma_pow2_unfold, pow2};

use crate::text::{chars_of, decimal, push};

verus! {

// --------------------------------------------------------------- dragon ----

/// A run of turns with each one reversed: left for right.
pub open spec fn flipped(t: Seq<i32>) -> Seq<i32> {
    t.reverse().map_values(|x: i32| (-x) as i32)
}

/// The creases of a strip folded `folds` times, left `-1` and right `1`:
/// each fold keeps the creases so far, adds a right crease, then the
/// creases so far reversed and flipped.
pub open spec fn creases(folds: nat) -> Seq<i32>
    decreases folds,
{
    if folds == 0 {
        Seq::empty()
    } else {
        let t = creases((folds - 1) as nat);
        t.push(1) + flipped(t)
    }
}

/// The Heighway dragon's turns: the strip's first segment goes straight
/// (`0`), and each crease after it turns left or right.
pub open spec fn dragon(folds: nat) -> Seq<i32> {
    seq![0i32] + creases(folds)
}

/// Every crease is a quarter turn, and `folds` folds make `2^folds - 1` of
/// them.
proof fn lemma_crease_shape(folds: nat)
    ensures
        creases(folds).len() + 1 == pow2(folds),
        forall|i: int| 0 <= i < creases(folds).len() ==> #[trigger] creases(folds)[i] == 1 || creases(folds)[i] == -1,
    decreases folds,
{
    lemma2_to64();
    if folds > 0 {
        lemma_crease_shape((folds - 1) as nat);
        lemma_pow2_unfold(folds);
        let t = creases((folds - 1) as nat);
        let d = creases(folds);
        assert forall|i: int| 0 <= i < d.len() implies #[trigger] d[i] == 1 || d[i] == -1 by {
            if i > t.len() {
                assert(d[i] == flipped(t)[i - t.len() - 1]);
                assert(flipped(t)[i - t.len() - 1] == -t[t.len() - 1 - (i - t.len() - 1)]);
            }
        }
    }
}

/// `folds` folds give `2^folds` turns, a walk through `2^folds + 1`
/// points: thirteen folds give 8,192 turns. The first goes straight and
/// every other one is a quarter turn.
pub proof fn law_dragon_shape(folds: nat)
    ensures
        dragon(folds).len() == pow2(folds),
        dragon(folds)[0] == 0,
        forall|i: int| 1 <= i < dragon(folds).len() ==> #[trigger] dragon(folds)[i] == 1 || dragon(folds)[i] == -1,
{
    lemma_crease_shape(folds);
    let d = dragon(folds);
    assert forall|i: int| 1 <= i < d.len() implies #[trigger] d[i] == 1 || d[i] == -1 by {
        assert(d[i] == creases(folds)[i - 1]);
    }
}

/// Folding again keeps every turn made so far: each dragon begins the next.
pub proof fn law_dragon_grows(folds: nat)
    ensures
        dragon(folds).is_prefix_of(dragon(folds + 1)),
{
    let t = creases(folds);
    assert(creases(folds + 1).take(t.len() as int) =~= t);
    assert(dragon(folds + 1).take(dragon(folds).len() as int) =~= dragon(folds));
}

/// The turns of the Heighway dragon after `folds` folds.
pub fn dragon_turns(folds: usize) -> (r: Vec<i32>)
    requires
        pow2(folds as nat) <= usize::MAX,
    ensures
        r@ == dragon(folds as nat),
{
    let c = crease_turns(folds);
    proof {
        lemma_crease_shape(folds as nat);
    }
    let mut turns: Vec<i32> = Vec::new();
    turns.push(0);
    let mut i: usize = 0;
    while i < c.len()
        invariant
            i <= c.len(),
            c.len() < usize::MAX,
            turns@ == seq![0i32] + c@.take(i as int),
        decreases c.len() - i,
    {
        turns.push(c[i]);
        assert(c@.take(i + 1) =~= c@.take(i as int).push(c@[i as int]));
        i += 1;
    }
    assert(c@.take(c.len() as int) =~= c@);
    turns
}

/// The creases of a strip folded `folds` times.
fn crease_turns(folds: usize) -> (r: Vec<i32>)
    requires
        pow2(folds as nat) <= usize::MAX,
    ensures
        r@ == creases(folds as nat),
{
    let mut turns: Vec<i32> = Vec::new();
    let mut k: usize = 0;
    proof {
        lemma_crease_shape(0);
    }
    while k < folds
        invariant
            k <= folds,
            pow2(folds as nat) <= usize::MAX,
            turns@ == creases(k as nat),
        decreases folds - k,
    {
        proof {
            lemma_crease_shape(k as nat);
            lemma_crease_shape((k + 1) as nat);
            if k + 1 < folds {
                vstd::arithmetic::power2::lemma_pow2_strictly_increases((k + 1) as nat, folds as nat);
            }
        }
        let ghost t = turns@;
        let mut next: Vec<i32> = Vec::new();
        let mut i: usize = 0;
        while i < turns.len()
            invariant
                i <= turns.len(),
                turns@ == t,
                next@ == t.take(i as int),
            decreases turns.len() - i,
        {
            next.push(turns[i]);
            assert(t.take(i + 1) =~= t.take(i as int).push(t[i as int]));
            i += 1;
        }
        assert(t.take(t.len() as int) =~= t);
        next.push(1);
        let mut j: usize = turns.len();
        while j > 0
            invariant
                j <= turns.len(),
                turns@ == t,
                forall|u: int| 0 <= u < t.len() ==> #[trigger] t[u] == 1 || t[u] == -1,
                next@ == t.push(1) + flipped(t).take(t.len() - j),
            decreases j,
        {
            j -= 1;
            let x = turns[j];
            next.push(-x);
            assert(flipped(t)[t.len() - 1 - j] == -t[j as int]);
            assert(flipped(t).take(t.len() - j) =~= flipped(t).take(t.len() - 1 - j).push((-x) as i32));
        }
        assert(flipped(t).take(t.len() as int) =~= flipped(t));
        turns = next;
        k += 1;
    }
    turns
}

// -------------------------------------------------------------- hilbert ----

/// Turn a quadrant of side `s` the way the standard index-to-cell walk
/// does: a lower quadrant is transposed, and the lower-right one is also
/// reflected through its centre first, so each quadrant's walk enters
/// where the last one left.
pub open spec fn rotated(s: int, x: int, y: int, rx: int, ry: int) -> (int, int) {
    if ry == 0 {
        if rx == 1 {
            (s - 1 - y, s - 1 - x)
        } else {
            (y, x)
        }
    } else {
        (x, y)
    }
}

/// The cell of step `t` on the Hilbert-order walk, built up `levels` more times
/// from quadrants of side `s`, starting from the cell `(x, y)`.
pub open spec fn hilbert_from(levels: nat, s: int, t: int, x: int, y: int) -> (int, int)
    decreases levels,
{
    if levels == 0 {
        (x, y)
    } else {
        let rx = (t / 2) % 2;
        let ry = (t % 2 + rx) % 2;
        let r = rotated(s, x, y, rx, ry);
        hilbert_from((levels - 1) as nat, s * 2, t / 4, r.0 + s * rx, r.1 + s * ry)
    }
}

/// The cell of step `idx` on the Hilbert-order walk over a square of side
/// `2^order`.
pub open spec fn hilbert_cell(order: nat, idx: int) -> (int, int) {
    hilbert_from(order, 1, idx, 0, 0)
}

pub fn rot(s: usize, x: usize, y: usize, rx: usize, ry: usize) -> (r: (usize, usize))
    requires
        ry == 0 && rx == 1 ==> x < s && y < s,
    ensures
        (r.0 as int, r.1 as int) == rotated(s as int, x as int, y as int, rx as int, ry as int),
{
    if ry == 0 {
        if rx == 1 {
            return (s - 1 - y, s - 1 - x);
        }
        return (y, x);
    }
    (x, y)
}

/// The cell of step `idx` on the Hilbert-order walk over a square of side
/// `2^order`: always inside the square.
pub fn hilbert_point(order: u32, idx: usize) -> (r: (usize, usize))
    requires
        order < 32,
    ensures
        (r.0 as int, r.1 as int) == hilbert_cell(order as nat, idx as int),
        r.0 < pow2(order as nat),
        r.1 < pow2(order as nat),
{
    proof {
        lemma2_to64();
    }
    let mut t: usize = idx;
    let mut x: usize = 0;
    let mut y: usize = 0;
    let mut s: usize = 1;
    let mut k: u32 = 0;
    while k < order
        invariant
            k <= order < 32,
            s == pow2(k as nat),
            pow2(k as nat) <= pow2(31),
            pow2(31) == 0x8000_0000,
            x < s,
            y < s,
            hilbert_from((order - k) as nat, s as int, t as int, x as int, y as int) == hilbert_cell(
                order as nat,
                idx as int,
            ),
        decreases order - k,
    {
        let rx = (t / 2) % 2;
        let ry = (t % 2 + rx) % 2;
        let (qx, qy) = rot(s, x, y, rx, ry);
        proof {
            lemma_pow2_unfold((k + 1) as nat);
            if k + 1 < 31 {
                vstd::arithmetic::power2::lemma_pow2_strictly_increases((k + 1) as nat, 31);
            }
        }
        x = qx + s * rx;
        y = qy + s * ry;
        t = t / 4;
        s = s * 2;
        k += 1;
    }
    (x, y)
}

/// Every cell a walk passes through lies inside the square it fills.
proof fn lemma_hilbert_inside(levels: nat, s: int, t: int, x: int, y: int)
    requires
        s >= 1,
        0 <= x < s,
        0 <= y < s,
        t >= 0,
    ensures
        0 <= hilbert_from(levels, s, t, x, y).0 < s * pow2(levels),
        0 <= hilbert_from(levels, s, t, x, y).1 < s * pow2(levels),
    decreases levels,
{
    lemma2_to64();
    if levels > 0 {
        let rx = (t / 2) % 2;
        let ry = (t % 2 + rx) % 2;
        let r = rotated(s, x, y, rx, ry);
        lemma_hilbert_inside((levels - 1) as nat, s * 2, t / 4, r.0 + s * rx, r.1 + s * ry);
        lemma_pow2_unfold(levels);
        assert(s * 2 * pow2((levels - 1) as nat) == s * pow2(levels)) by (nonlinear_arith)
            requires
                pow2(levels) == 2 * pow2((levels - 1) as nat),
        ;
    }
}

#[verifier::spinoff_prover]
/// Different steps of a walk land on different cells: the walk over a
/// square of side `s * 2^levels`, started from distinct cells or steps of a
/// square of side `s`, never meets itself.
proof fn lemma_hilbert_injective(levels: nat, s: int, t1: int, x1: int, y1: int, t2: int, x2: int, y2: int)
    requires
        s >= 1,
        0 <= x1 < s,
        0 <= y1 < s,
        0 <= x2 < s,
        0 <= y2 < s,
        0 <= t1 < pow2(2 * levels),
        0 <= t2 < pow2(2 * levels),
        hilbert_from(levels, s, t1, x1, y1) == hilbert_from(levels, s, t2, x2, y2),
    ensures
        t1 == t2 && x1 == x2 && y1 == y2,
    decreases levels,
{
    lemma2_to64();
    if levels > 0 {
        let rx1 = (t1 / 2) % 2;
        let ry1 = (t1 % 2 + rx1) % 2;
        let rx2 = (t2 / 2) % 2;
        let ry2 = (t2 % 2 + rx2) % 2;
        let r1 = rotated(s, x1, y1, rx1, ry1);
        let r2 = rotated(s, x2, y2, rx2, ry2);
        assert(0 <= rx1 <= 1 && 0 <= ry1 <= 1 && 0 <= rx2 <= 1 && 0 <= ry2 <= 1);
        assert(0 <= r1.0 < s && 0 <= r1.1 < s && 0 <= r2.0 < s && 0 <= r2.1 < s);
        assert(s * rx1 == if rx1 == 1 { s } else { 0 });
        assert(s * ry1 == if ry1 == 1 { s } else { 0 });
        assert(s * rx2 == if rx2 == 1 { s } else { 0 });
        assert(s * ry2 == if ry2 == 1 { s } else { 0 });
        lemma_pow2_unfold(2 * levels);
        lemma_pow2_unfold((2 * levels - 1) as nat);
        assert(pow2(2 * levels) == 4 * pow2(2 * ((levels - 1) as nat)));
        lemma_hilbert_injective(
            (levels - 1) as nat,
            s * 2,
            t1 / 4,
            r1.0 + s * rx1,
            r1.1 + s * ry1,
            t2 / 4,
            r2.0 + s * rx2,
            r2.1 + s * ry2,
        );
        assert(rx1 == rx2 && ry1 == ry2);
        assert(t1 % 4 == t2 % 4);
    }
}

/// The walk over a square of side `2^order` takes `4^order` steps, each to
/// a cell of its own inside the square: every cell is visited exactly once.
pub proof fn law_hilbert_walk_visits_each_cell_once(order: nat, i: int, j: int)
    requires
        0 <= i < pow2(2 * order),
        0 <= j < pow2(2 * order),
    ensures
        0 <= hilbert_cell(order, i).0 < pow2(order),
        0 <= hilbert_cell(order, i).1 < pow2(order),
        hilbert_cell(order, i) == hilbert_cell(order, j) ==> i == j,
{
    lemma_hilbert_inside(order, 1, i, 0, 0);
    if hilbert_cell(order, i) == hilbert_cell(order, j) {
        lemma_hilbert_injective(order, 1, i, 0, 0, j, 0, 0);
    }
}

/// Two cells share an edge.
pub open spec fn adjacent(a: (int, int), b: (int, int)) -> bool {
    let dx = if a.0 < b.0 {
        b.0 - a.0
    } else {
        a.0 - b.0
    };
    let dy = if a.1 < b.1 {
        b.1 - a.1
    } else {
        a.1 - b.1
    };
    dx + dy == 1
}

/// The same steps taken from two neighbouring cells end on neighbouring
/// cells: each level only turns and shifts its quadrant.
proof fn lemma_hilbert_keeps_neighbours(levels: nat, s: int, t: int, x1: int, y1: int, x2: int, y2: int)
    requires
        adjacent((x1, y1), (x2, y2)),
    ensures
        adjacent(hilbert_from(levels, s, t, x1, y1), hilbert_from(levels, s, t, x2, y2)),
    decreases levels,
{
    if levels > 0 {
        let rx = (t / 2) % 2;
        let ry = (t % 2 + rx) % 2;
        let r1 = rotated(s, x1, y1, rx, ry);
        let r2 = rotated(s, x2, y2, rx, ry);
        lemma_hilbert_keeps_neighbours((levels - 1) as nat, s * 2, t / 4, r1.0 + s * rx, r1.1 + s * ry, r2.0 + s * rx, r2.1 + s * ry);
    }
}

/// Step `a` of a walk that starts each quadrant of side `s` at its last
/// cell `(s - 1, 0)` ends beside step `a + 1` started at its first cell
/// `(0, 0)`: each quadrant's walk leaves where the next one enters.
proof fn lemma_hilbert_seam(levels: nat, s: int, a: int)
    requires
        s >= 1,
        0 <= a,
        a + 1 < pow2(2 * levels),
    ensures
        adjacent(hilbert_from(levels, s, a, s - 1, 0), hilbert_from(levels, s, a + 1, 0, 0)),
    decreases levels,
{
    lemma2_to64();
    if levels == 0 {
        assert(false);
    } else {
        let rx1 = (a / 2) % 2;
        let ry1 = (a % 2 + rx1) % 2;
        let rx2 = ((a + 1) / 2) % 2;
        let ry2 = ((a + 1) % 2 + rx2) % 2;
        let r1 = rotated(s, s - 1, 0, rx1, ry1);
        let r2 = rotated(s, 0, 0, rx2, ry2);
        let p1 = (r1.0 + s * rx1, r1.1 + s * ry1);
        let p2 = (r2.0 + s * rx2, r2.1 + s * ry2);
        lemma_pow2_unfold(2 * levels);
        lemma_pow2_unfold((2 * levels - 1) as nat);
        assert(pow2(2 * levels) == 4 * pow2(2 * ((levels - 1) as nat)));
        if a % 4 == 3 {
            assert(p1 == (s * 2 - 1, 0int));
            assert(p2 == (0int, 0int));
            assert((a + 1) / 4 == a / 4 + 1);
            lemma_hilbert_seam((levels - 1) as nat, s * 2, a / 4);
        } else {
            assert((a + 1) / 4 == a / 4);
            assert(adjacent(p1, p2));
            lemma_hilbert_keeps_neighbours((levels - 1) as nat, s * 2, a / 4, p1.0, p1.1, p2.0, p2.1);
        }
    }
}

/// The walk is continuous: each step moves to a cell that shares an edge
/// with the one before it.
pub proof fn law_hilbert_walk_is_continuous(order: nat, i: int)
    requires
        0 <= i,
        i + 1 < pow2(2 * order),
    ensures
        adjacent(hilbert_cell(order, i), hilbert_cell(order, i + 1)),
{
    lemma_hilbert_seam(order, 1, i);
}

/// Every cell of a square of side `s * 2^levels` is reached: by some step
/// `t` of the walk started from some cell `(x, y)` of a square of side `s`.
proof fn lemma_hilbert_onto(levels: nat, s: int, cx: int, cy: int) -> (r: (int, int, int))
    requires
        s >= 1,
        0 <= cx < s * pow2(levels),
        0 <= cy < s * pow2(levels),
    ensures
        0 <= r.0 < pow2(2 * levels),
        0 <= r.1 < s,
        0 <= r.2 < s,
        hilbert_from(levels, s, r.0, r.1, r.2) == (cx, cy),
    decreases levels,
{
    lemma2_to64();
    if levels == 0 {
        assert(pow2(levels) == 1);
        assert(s * pow2(levels) == s) by (nonlinear_arith)
            requires
                pow2(levels) == 1,
        ;
        (0, cx, cy)
    } else {
        lemma_pow2_unfold(levels);
        lemma_pow2_unfold(2 * levels);
        lemma_pow2_unfold((2 * levels - 1) as nat);
        assert(pow2(2 * levels) == 4 * pow2(2 * ((levels - 1) as nat)));
        assert(s * pow2(levels) == (s * 2) * pow2((levels - 1) as nat)) by (nonlinear_arith)
            requires
                pow2(levels) == 2 * pow2((levels - 1) as nat),
        ;
        let (u, qx, qy) = lemma_hilbert_onto((levels - 1) as nat, s * 2, cx, cy);
        let rx: int = if qx >= s { 1 } else { 0 };
        let ry: int = if qy >= s { 1 } else { 0 };
        let d: int = if rx == 0 {
            if ry == 0 { 0 } else { 1 }
        } else {
            if ry == 1 { 2 } else { 3 }
        };
        assert(s * rx == if rx == 1 { s } else { 0 });
        assert(s * ry == if ry == 1 { s } else { 0 });
        let lx = qx - s * rx;
        let ly = qy - s * ry;
        assert(0 <= lx < s && 0 <= ly < s);
        let p = rotated(s, lx, ly, rx, ry);
        let t = 4 * u + d;
        assert(t / 4 == u && t % 4 == d);
        assert((t / 2) % 2 == rx);
        assert((t % 2 + rx) % 2 == ry);
        assert(rotated(s, p.0, p.1, rx, ry) == (lx, ly));
        (t, p.0, p.1)
    }
}

/// Every cell of the square is on the walk: with the walk's visiting each
/// cell at most once, each cell is visited exactly once.
pub proof fn law_hilbert_walk_reaches_every_cell(order: nat, x: int, y: int)
    requires
        0 <= x < pow2(order),
        0 <= y < pow2(order),
    ensures
        exists|i: int| 0 <= i < pow2(2 * order) && #[trigger] hilbert_cell(order, i) == (x, y),
{
    let (t, sx, sy) = lemma_hilbert_onto(order, 1, x, y);
    assert(hilbert_cell(order, t) == (x, y));
}

// ---------------------------------------------------------------- labels ----

/// The digits of `d` with a comma before every group of three counted from
/// the right: `10800` reads `10,800`.
pub open spec fn thousands(d: Seq<char>) -> Seq<char>
    decreases d.len(),
{
    if d.len() <= 3 {
        d
    } else {
        thousands(d.take(d.len() - 3)) + seq![','] + d.skip(d.len() - 3)
    }
}

/// The first `i` digits of `d`, each preceded by a comma when a multiple of
/// three digits of `d` follow it and it is not the first.
spec fn commas_upto(d: Seq<char>, i: nat) -> Seq<char>
    decreases i,
{
    if i == 0 {
        Seq::empty()
    } else {
        let j = (i - 1) as int;
        commas_upto(d, (i - 1) as nat) + (if j > 0 && (d.len() - j) % 3 == 0 {
            seq![',']
        } else {
            Seq::<char>::empty()
        }) + seq![d[j]]
    }
}

/// Only the count of digits after a position decides its comma, so a
/// prefix cut a multiple of three digits from the end groups alike.
proof fn lemma_commas_prefix(d: Seq<char>, m: nat, i: nat)
    requires
        m <= d.len(),
        (d.len() - m) % 3 == 0,
        i <= m,
    ensures
        commas_upto(d, i) == commas_upto(d.take(m as int), i),
    decreases i,
{
    if i > 0 {
        lemma_commas_prefix(d, m, (i - 1) as nat);
        let j = (i - 1) as int;
        assert((d.len() - j) % 3 == (m - j) % 3);
        assert(d.take(m as int)[j] == d[j]);
    }
}

proof fn lemma_commas_are_thousands(d: Seq<char>)
    ensures
        commas_upto(d, d.len()) == thousands(d),
    decreases d.len(),
{
    if d.len() <= 3 {
        lemma_no_commas(d, d.len());
    } else {
        let m = (d.len() - 3) as nat;
        lemma_commas_prefix(d, m, m);
        lemma_commas_are_thousands(d.take(m as int));
        assert(d.take(m as int).len() == m);
        let a = commas_upto(d, m);
        assert(commas_upto(d, m + 1) == a + seq![','] + seq![d[m as int]]);
        assert(commas_upto(d, m + 2) == commas_upto(d, m + 1) + Seq::<char>::empty() + seq![d[m as int + 1]]);
        assert(commas_upto(d, m + 3) == commas_upto(d, m + 2) + Seq::<char>::empty() + seq![d[m as int + 2]]);
        assert(commas_upto(d, d.len()) =~= a + seq![','] + d.skip(m as int));
    }
}

proof fn lemma_no_commas(d: Seq<char>, i: nat)
    requires
        i <= d.len() <= 3,
    ensures
        commas_upto(d, i) == d.take(i as int),
    decreases i,
{
    if i > 0 {
        lemma_no_commas(d, (i - 1) as nat);
        assert(d.take(i as int) =~= d.take(i - 1).push(d[i - 1]));
        let j = i - 1;
        assert(!(j > 0 && (d.len() - j) % 3 == 0));
        assert(commas_upto(d, i) =~= d.take(i - 1) + seq![d[i - 1]]);
    } else {
        assert(d.take(0) =~= Seq::<char>::empty());
    }
}

/// `n` in decimal with its thousands separated by commas.
pub fn group_commas(n: u32) -> (r: String)
    ensures
        r@ == thousands(decimal(n as nat)),
{
    let mut digits = String::new();
    crate::text::push_decimal(&mut digits, n as u64);
    let d = chars_of(digits.as_str());
    assert(d@ =~= decimal(n as nat));
    let mut out = String::new();
    let mut i: usize = 0;
    while i < d.len()
        invariant
            i <= d.len(),
            d@ == decimal(n as nat),
            out@ == commas_upto(d@, i as nat),
        decreases d.len() - i,
    {
        if i > 0 && (d.len() - i) % 3 == 0 {
            push(&mut out, ',');
        }
        push(&mut out, d[i]);
        assert(out@ =~= commas_upto(d@, (i + 1) as nat));
        i += 1;
    }
    proof {
        lemma_commas_are_thousands(d@);
    }
    out
}

} // verus!
