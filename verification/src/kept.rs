//! What a motion keeps: the relations between a grid before and after, and
//! the proof that each elementary change of the grid keeps them.

use vstd::prelude::*;
use vstd::seq_lib::to_multiset_update;
use crate::board::Grid;
use crate::particle::Particle;
use crate::rules::{settle, unsettled};

verus! {

/// `after` has the size of `before`, and every slot has kept its entropy.
pub open spec fn same_frame(before: Grid, after: Grid) -> bool {
    &&& after.width == before.width
    &&& after.height == before.height
    &&& after.cells.len() == before.cells.len()
    &&& forall|i: int|
        0 <= i < before.cells.len() ==> (#[trigger] after.cells[i]).entropy
            == before.cells[i].entropy
}

/// Every slot that held a solid in `before` holds the same material with the
/// same velocity in `after`.
pub open spec fn solids_held(before: Grid, after: Grid) -> bool {
    forall|i: int|
        0 <= i < before.cells.len() && before.cells[i].phase() is Solid ==> {
            &&& (#[trigger] after.cells[i]).material == before.cells[i].material
            &&& after.cells[i].velocity == before.cells[i].velocity
        }
}

/// Every slot whose content was settled in `before`, solids apart, is
/// untouched in `after`.
pub open spec fn settled_held(before: Grid, after: Grid) -> bool {
    forall|i: int|
        0 <= i < before.cells.len() && before.cells[i].settled && !(before.cells[i].phase()
            is Solid) ==> #[trigger] after.cells[i] == before.cells[i]
}

/// `after` is `before` with its contents moved about: the frame is the same,
/// the solids are where they were, and each material occurs as often as before.
pub open spec fn conserved(before: Grid, after: Grid) -> bool {
    &&& same_frame(before, after)
    &&& solids_held(before, after)
    &&& after.materials() == before.materials()
}

/// No solid has gained the settled mark between `before` and `after`.
pub open spec fn solids_unmarked(before: Grid, after: Grid) -> bool {
    forall|i: int|
        0 <= i < before.cells.len() && (#[trigger] after.cells[i]).settled && after.cells[i].phase()
            is Solid ==> before.cells[i].settled
}

/// `conserved`, what was settled has not been touched, and no solid has
/// gained the mark.
pub open spec fn kept(before: Grid, after: Grid) -> bool {
    &&& conserved(before, after)
    &&& settled_held(before, after)
    &&& solids_unmarked(before, after)
}

/// A cell that takes part in a motion: it is neither settled nor a solid.
pub open spec fn loose(p: Particle) -> bool {
    !p.settled && !(p.phase() is Solid)
}

/// `kept` passes along a chain of two.
pub proof fn lemma_kept_trans(a: Grid, b: Grid, c: Grid)
    requires
        kept(a, b),
        kept(b, c),
    ensures
        kept(a, c),
{
    assert forall|i: int| 0 <= i < a.cells.len() implies (#[trigger] c.cells[i]).entropy
        == a.cells[i].entropy by {
        assert(b.cells[i].entropy == a.cells[i].entropy);
    }
    assert forall|i: int| 0 <= i < a.cells.len() && a.cells[i].phase() is Solid implies (
    #[trigger] c.cells[i]).material == a.cells[i].material && c.cells[i].velocity
        == a.cells[i].velocity by {
        assert(b.cells[i].material == a.cells[i].material);
    }
    assert forall|i: int|
        0 <= i < a.cells.len() && a.cells[i].settled && !(a.cells[i].phase()
            is Solid) implies #[trigger] c.cells[i] == a.cells[i] by {
        assert(b.cells[i] == a.cells[i]);
    }
    assert forall|i: int|
        0 <= i < a.cells.len() && (#[trigger] c.cells[i]).settled && c.cells[i].phase()
            is Solid implies a.cells[i].settled by {
        assert(b.cells[i].settled);
        if !(b.cells[i].phase() is Solid) {
            assert(c.cells[i] == b.cells[i]);
        }
    }
}

/// `conserved` passes along a chain of two.
pub proof fn lemma_conserved_trans(a: Grid, b: Grid, c: Grid)
    requires
        conserved(a, b),
        conserved(b, c),
    ensures
        conserved(a, c),
{
    assert forall|i: int| 0 <= i < a.cells.len() implies (#[trigger] c.cells[i]).entropy
        == a.cells[i].entropy by {
        assert(b.cells[i].entropy == a.cells[i].entropy);
    }
    assert forall|i: int| 0 <= i < a.cells.len() && a.cells[i].phase() is Solid implies (
    #[trigger] c.cells[i]).material == a.cells[i].material && c.cells[i].velocity
        == a.cells[i].velocity by {
        assert(b.cells[i].material == a.cells[i].material);
    }
}

/// Two slots of the board lie in the same place of the row-major order only
/// if they are one slot.
pub proof fn lemma_at_injective(g: Grid, r1: int, c1: int, r2: int, c2: int)
    requires
        g.wf(),
        g.holds(r1, c1),
        g.holds(r2, c2),
        g.at(r1, c1) == g.at(r2, c2),
    ensures
        r1 == r2,
        c1 == c2,
{
    let w = g.width as int;
    assert(r1 == r2) by (nonlinear_arith)
        requires
            r1 * w + c1 == r2 * w + c2,
            0 <= c1 < w,
            0 <= c2 < w,
    ;
}

/// Giving a loose cell another velocity or mark, but not another material,
/// keeps the grid.
pub proof fn lemma_filled_kept(g: Grid, i: int, p: Particle)
    requires
        g.wf(),
        0 <= i < g.cells.len(),
        loose(g.cells[i]),
        p.material == g.cells[i].material,
    ensures
        kept(g, g.filled(i, p)),
        g.filled(i, p).wf(),
{
    let after = g.filled(i, p);
    let names = g.cells.map_values(|q: Particle| q.material);
    assert(after.cells.map_values(|q: Particle| q.material) =~= names);
}

/// Taking the settled mark off a solid keeps the grid.
pub proof fn lemma_released_kept(g: Grid, i: int)
    requires
        g.wf(),
        0 <= i < g.cells.len(),
        g.cells[i].phase() is Solid,
    ensures
        kept(g, g.filled(i, Particle { settled: false, ..g.cells[i] })),
        g.filled(i, Particle { settled: false, ..g.cells[i] }).wf(),
{
    let after = g.filled(i, Particle { settled: false, ..g.cells[i] });
    let names = g.cells.map_values(|q: Particle| q.material);
    assert(after.cells.map_values(|q: Particle| q.material) =~= names);
}

/// Trading the contents of two slots leaves the frame as it was.
pub proof fn lemma_traded_frame(g: Grid, a: int, b: int)
    requires
        g.wf(),
        0 <= a < g.cells.len(),
        0 <= b < g.cells.len(),
    ensures
        same_frame(g, g.traded(a, b)),
        g.traded(a, b).wf(),
        g.traded(a, b).cells[b].alike(g.cells[a]),
        g.traded(a, b).cells[a].alike(g.cells[b]),
{
}

/// Two loose cells that trade places keep the grid.
pub proof fn lemma_traded_kept(g: Grid, a: int, b: int)
    requires
        g.wf(),
        0 <= a < g.cells.len(),
        0 <= b < g.cells.len(),
        loose(g.cells[a]),
        loose(g.cells[b]),
    ensures
        kept(g, g.traded(a, b)),
        g.traded(a, b).wf(),
{
    let after = g.traded(a, b);
    let names = g.cells.map_values(|q: Particle| q.material);
    let renamed = names.update(a, names[b]).update(b, names[a]);
    assert(after.cells.map_values(|q: Particle| q.material) =~= renamed);
    to_multiset_update(names, a, names[b]);
    to_multiset_update(names.update(a, names[b]), b, names[a]);
    names.to_multiset_ensures();
    assert(names.contains(names[a]));
    assert(names.contains(names[b]));
    assert(renamed.to_multiset() =~= names.to_multiset());
}

/// Where two cells of a grid trade places, each slot holds the content of
/// the other, and the slot `(r, c)`, if it is neither, holds what it held.
pub proof fn lemma_traded_cells(g: Grid, r1: int, c1: int, r2: int, c2: int, r: int, c: int)
    requires
        g.wf(),
        g.holds(r1, c1),
        g.holds(r2, c2),
        g.holds(r, c),
    ensures
        ({
            let next = g.traded(g.at(r1, c1), g.at(r2, c2));
            &&& next.wf()
            &&& same_frame(g, next)
            &&& next.cell(r2, c2).alike(g.cell(r1, c1))
            &&& next.cell(r1, c1).alike(g.cell(r2, c2))
            &&& (r != r1 || c != c1) && (r != r2 || c != c2) ==> next.cell(r, c) == g.cell(r, c)
        }),
{
    g.lemma_at_in_range(r1, c1);
    g.lemma_at_in_range(r2, c2);
    g.lemma_at_in_range(r, c);
    if g.at(r, c) == g.at(r1, c1) {
        lemma_at_injective(g, r, c, r1, c1);
    }
    if g.at(r, c) == g.at(r2, c2) {
        lemma_at_injective(g, r, c, r2, c2);
    }
}

/// Settling a loose cell keeps the grid and leaves the cell, with its
/// material and velocity, marked where it was.
pub proof fn lemma_settle_kept(g: Grid, row: int, col: int)
    requires
        g.wf(),
        g.holds(row, col),
        loose(g.cell(row, col)),
    ensures
        kept(g, settle(g, row, col)),
        settle(g, row, col).wf(),
        settle(g, row, col).cell(row, col).settled,
        settle(g, row, col).cell(row, col).material == g.cell(row, col).material,
        settle(g, row, col).cell(row, col).velocity == g.cell(row, col).velocity,
{
    g.lemma_at_in_range(row, col);
    lemma_filled_kept(g, g.at(row, col), Particle { settled: true, ..g.cell(row, col) });
}

/// Taking every settled mark off conserves the grid and leaves no mark.
pub proof fn lemma_unsettled_conserved(g: Grid)
    requires
        g.wf(),
    ensures
        conserved(g, unsettled(g)),
        unsettled(g).wf(),
        forall|i: int| 0 <= i < g.cells.len() ==> !(#[trigger] unsettled(g).cells[i]).settled,
{
    let names = g.cells.map_values(|q: Particle| q.material);
    assert(unsettled(g).cells.map_values(|q: Particle| q.material) =~= names);
}

} // verus!
