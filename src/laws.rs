use vstd::prelude::*;

use crate::chips::{ChipData, ChipType};
use crate::grid::GRID_CELLS;
use crate::value::{
    all_known, cell_value, chip_targets, evaluated_layers, evaluates_to, has_range_fault,
    kind_total, own_layers, project_cells, GridValue, Layers,
};
use crate::error::GridError;

verus! {

/// A chip that is neutral on an empty cell: no value, no kind, no targets.
pub open spec fn neutral_chip(d: ChipData) -> bool {
    &&& d.value == 0
    &&& d.c_type == ChipType::Empty
    &&& d.targets is None
}

/// When no chip on the first `n` cells has targets, the second pass changes nothing.
proof fn lemma_no_targets_no_projection(st: Layers, ids: Seq<i32>, lib: Map<i32, ChipData>, n: int)
    requires
        n <= ids.len(),
        forall|c: int| 0 <= c < n ==> (#[trigger] lib[ids[c]]).targets is None,
    ensures
        project_cells(st, ids, lib, n) == st,
    decreases n,
{
    if n > 0 {
        lemma_no_targets_no_projection(st, ids, lib, n - 1);
        assert(lib[ids[n - 1]].targets is None);
        assert(chip_targets(lib[ids[n - 1]]).len() == 0);
    }
}

/// A total over cells that are all of another kind or worth nothing is zero.
proof fn lemma_total_zero(st: Layers, kind: ChipType, n: int)
    requires
        forall|c: int| 0 <= c < n ==> #[trigger] st.kinds[c] != kind || cell_value(st, c) == 0,
    ensures
        kind_total(st, kind, n) == 0,
    decreases n,
{
    if n > 0 {
        lemma_total_zero(st, kind, n - 1);
        assert(st.kinds[n - 1] != kind || cell_value(st, n - 1) == 0);
    }
}

/// A total over cells of which only `p` has the kind is the value of `p`.
proof fn lemma_total_single(st: Layers, kind: ChipType, p: int, n: int)
    requires
        0 <= p,
        p < n ==> st.kinds[p] == kind,
        forall|c: int| 0 <= c < n && c != p ==> #[trigger] st.kinds[c] != kind,
    ensures
        kind_total(st, kind, n) == if p < n {
            cell_value(st, p)
        } else {
            0
        },
    decreases n,
{
    if n > 0 {
        lemma_total_single(st, kind, p, n - 1);
        assert(n - 1 == p || st.kinds[n - 1] != kind);
    }
}

/// Two evaluations of one board under one catalog are the same: evaluating
/// again with no placement in between gives an identical state.
pub proof fn lemma_recompute_deterministic(
    ids: Seq<i32>,
    lib: Map<i32, ChipData>,
    r1: Result<GridValue, GridError>,
    r2: Result<GridValue, GridError>,
)
    requires
        evaluates_to(ids, lib, r1),
        evaluates_to(ids, lib, r2),
    ensures
        match (r1, r2) {
            (Ok(a), Ok(b)) => a.layers() == b.layers() && a.value_grid@ == b.value_grid@ && a.off
                == b.off && a.def == b.def,
            (Err(a), Err(b)) => a == b,
            _ => false,
        },
{
}

/// On an empty board (the neutral chip 0 on every cell) both totals are zero
/// and so is every cell's value.
pub proof fn lemma_empty_board(
    ids: Seq<i32>,
    lib: Map<i32, ChipData>,
    r: Result<GridValue, GridError>,
)
    requires
        ids.len() == GRID_CELLS,
        forall|c: int| 0 <= c < ids.len() ==> #[trigger] ids[c] == 0,
        lib.contains_key(0),
        neutral_chip(lib[0]),
        evaluates_to(ids, lib, r),
    ensures
        r matches Ok(g) && g.off == 0 && g.def == 0 && forall|c: int|
            0 <= c < GRID_CELLS ==> #[trigger] g.value_grid@[c] == 0,
{
    let own = own_layers(ids, lib);
    assert(all_known(ids, lib));
    assert(!has_range_fault(ids, lib)) by {
        assert forall|c: int| 0 <= c < ids.len() implies chip_targets(#[trigger] lib[ids[c]]).len()
            == 0 by {
            assert(ids[c] == 0);
        }
    }
    lemma_no_targets_no_projection(own, ids, lib, ids.len() as int);
    let st = evaluated_layers(ids, lib);
    assert(st == own);
    assert forall|c: int| 0 <= c < ids.len() implies #[trigger] st.kinds[c] == ChipType::Empty
        && cell_value(st, c) == 0 by {
        assert(ids[c] == 0);
        assert(st.flat[c] == 0);
        assert(cell_value(st, c) == 0) by (nonlinear_arith)
            requires
                cell_value(st, c) == (st.flat[c] * st.increase[c] * st.more[c] * st.effect[c])
                    / 100_000_000,
                st.flat[c] == 0,
        ;
    }
    lemma_total_zero(st, ChipType::Offensive, ids.len() as int);
    lemma_total_zero(st, ChipType::Defensive, ids.len() as int);
}

/// One defensive chip of base value 1 and effect 1.0 (and no targets), on any
/// cell of an otherwise empty board, gives defense 1 and offense 0.
pub proof fn lemma_single_defensive_chip(
    ids: Seq<i32>,
    lib: Map<i32, ChipData>,
    p: int,
    r: Result<GridValue, GridError>,
)
    requires
        ids.len() == GRID_CELLS,
        0 <= p < GRID_CELLS,
        forall|c: int| 0 <= c < ids.len() && c != p ==> #[trigger] ids[c] == 0,
        lib.contains_key(0),
        neutral_chip(lib[0]),
        lib.contains_key(ids[p]),
        lib[ids[p]].c_type == ChipType::Defensive,
        lib[ids[p]].value == 1,
        lib[ids[p]].eff == 100,
        lib[ids[p]].targets is None,
        evaluates_to(ids, lib, r),
    ensures
        r matches Ok(g) && g.def == 1 && g.off == 0,
{
    let own = own_layers(ids, lib);
    assert(all_known(ids, lib)) by {
        assert forall|c: int| 0 <= c < ids.len() implies lib.contains_key(#[trigger] ids[c]) by {
            if c != p {
                assert(ids[c] == 0);
            }
        }
    }
    assert forall|c: int| 0 <= c < ids.len() implies (#[trigger] lib[ids[c]]).targets is None by {
        if c != p {
            assert(ids[c] == 0);
        }
    }
    assert(!has_range_fault(ids, lib)) by {
        assert forall|c: int| 0 <= c < ids.len() implies chip_targets(#[trigger] lib[ids[c]]).len()
            == 0 by {
            assert(lib[ids[c]].targets is None);
        }
    }
    lemma_no_targets_no_projection(own, ids, lib, ids.len() as int);
    let st = evaluated_layers(ids, lib);
    assert(st == own);
    assert forall|c: int| 0 <= c < ids.len() && c != p implies #[trigger] st.kinds[c]
        == ChipType::Empty by {
        assert(ids[c] == 0);
    }
    assert(st.flat[p] == 100 && st.increase[p] == 100 && st.more[p] == 100 && st.effect[p]
        == 100);
    assert(cell_value(st, p) == 1) by (nonlinear_arith)
        requires
            cell_value(st, p) == (st.flat[p] * st.increase[p] * st.more[p] * st.effect[p])
                / 100_000_000,
            st.flat[p] == 100,
            st.increase[p] == 100,
            st.more[p] == 100,
            st.effect[p] == 100,
    ;
    lemma_total_single(st, ChipType::Defensive, p, ids.len() as int);
    assert forall|c: int| 0 <= c < ids.len() implies #[trigger] st.kinds[c]
        != ChipType::Offensive || cell_value(st, c) == 0 by {
        if c != p {
            assert(ids[c] == 0);
        }
    }
    lemma_total_zero(st, ChipType::Offensive, ids.len() as int);
}

} // verus!
