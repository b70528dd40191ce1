use vstd::prelude::*;

use crate::board::Board;
use crate::chips::{ChipData, ChipLib, ChipType};
use crate::error::GridError;
use crate::grid::{range_fault, valid_target, GRID_CELLS};

verus! {

/// Fixed-point scale of the layers: 100 stands for 1.0.
pub const SCALE: u64 = 100;

/// Every layer saturates at this value (10 000.00).
pub const LAYER_CAP: u64 = 1_000_000;

/// Divisor that turns the product of four layers back into whole points.
pub const PRODUCT_SCALE: u128 = 100_000_000;

/// A non-negative amount, saturated at the layer cap.
pub open spec fn capped(x: int) -> u64 {
    if x > LAYER_CAP {
        LAYER_CAP
    } else {
        x as u64
    }
}

/// The per-cell layers of an evaluation, all in hundredths but the kinds.
pub struct Layers {
    pub flat: Seq<u64>,
    pub increase: Seq<u64>,
    pub more: Seq<u64>,
    pub effect: Seq<u64>,
    pub kinds: Seq<ChipType>,
}

/// Every chip on the board has a catalog entry.
pub open spec fn all_known(ids: Seq<i32>, lib: Map<i32, ChipData>) -> bool {
    forall|c: int| 0 <= c < ids.len() ==> lib.contains_key(#[trigger] ids[c])
}

/// The offsets that a chip buffs, empty when it has none.
pub open spec fn chip_targets(d: ChipData) -> Seq<i32> {
    match d.targets {
        Some(t) => t@,
        None => Seq::empty(),
    }
}

/// The first pass: each cell holds its own chip's flat value, effect and kind;
/// increase and more start at 1.0.
pub open spec fn own_layers(ids: Seq<i32>, lib: Map<i32, ChipData>) -> Layers {
    Layers {
        flat: Seq::new(ids.len(), |c: int| capped(lib[ids[c]].value * SCALE)),
        increase: Seq::new(ids.len(), |c: int| SCALE),
        more: Seq::new(ids.len(), |c: int| SCALE),
        effect: Seq::new(ids.len(), |c: int| capped(lib[ids[c]].eff as int)),
        kinds: Seq::new(ids.len(), |c: int| lib[ids[c]].c_type),
    }
}

/// Chip `d` buffs cell `t`, which it does only where the cell's kind is the chip's.
pub open spec fn buff(st: Layers, t: int, d: ChipData) -> Layers {
    if st.kinds[t] == d.c_type {
        Layers {
            flat: st.flat.update(t, capped(st.flat[t] + d.add)),
            increase: st.increase.update(t, capped(st.increase[t] + d.increase)),
            more: st.more.update(t, capped(st.more[t] * (SCALE + d.more) / (SCALE as int))),
            ..st
        }
    } else {
        st
    }
}

/// Chip `d` at `origin` buffs each valid target among `offsets`, in order.
pub open spec fn project(st: Layers, origin: int, d: ChipData, offsets: Seq<i32>) -> Layers
    decreases offsets.len(),
{
    if offsets.len() == 0 {
        st
    } else {
        let prev = project(st, origin, d, offsets.drop_last());
        if valid_target(origin, offsets.last()) {
            buff(prev, origin + offsets.last(), d)
        } else {
            prev
        }
    }
}

/// The second pass over the first `n` cells, in index order.
pub open spec fn project_cells(st: Layers, ids: Seq<i32>, lib: Map<i32, ChipData>, n: int) -> Layers
    decreases n,
{
    if n <= 0 {
        st
    } else {
        let prev = project_cells(st, ids, lib, n - 1);
        let d = lib[ids[n - 1]];
        project(prev, n - 1, d, chip_targets(d))
    }
}

/// The layers after both passes.
pub open spec fn evaluated_layers(ids: Seq<i32>, lib: Map<i32, ChipData>) -> Layers {
    project_cells(own_layers(ids, lib), ids, lib, ids.len() as int)
}

/// Some chip on the board names a target offset that lands on the board but
/// is no legal relative position from its cell.
pub open spec fn has_range_fault(ids: Seq<i32>, lib: Map<i32, ChipData>) -> bool {
    exists|c: int, k: int|
        0 <= c < ids.len() && 0 <= k < chip_targets(lib[ids[c]]).len() && range_fault(
            c,
            #[trigger] chip_targets(lib[ids[c]])[k],
        )
}

/// The value of a cell: the product of its four layers, rounded down to whole points.
pub open spec fn cell_value(st: Layers, c: int) -> int {
    (st.flat[c] * st.increase[c] * st.more[c] * st.effect[c]) / (PRODUCT_SCALE as int)
}

/// Sum of the values of the cells of kind `kind` among the first `n`.
pub open spec fn kind_total(st: Layers, kind: ChipType, n: int) -> int
    decreases n,
{
    if n <= 0 {
        0
    } else {
        kind_total(st, kind, n - 1) + if st.kinds[n - 1] == kind {
            cell_value(st, n - 1)
        } else {
            0
        }
    }
}

/// The full derived state of one evaluation of the board.
pub struct GridValue {
    /// Total value of the offensive cells.
    pub off: u64,
    /// Total value of the defensive cells.
    pub def: u64,
    pub flat_grid: Vec<u64>,
    pub increase_grid: Vec<u64>,
    pub more_grid: Vec<u64>,
    pub effect_grid: Vec<u64>,
    pub type_grid: Vec<ChipType>,
    /// The value of each cell.
    pub value_grid: Vec<u64>,
}

impl GridValue {
    /// The layers held by this state.
    pub open spec fn layers(&self) -> Layers {
        Layers {
            flat: self.flat_grid@,
            increase: self.increase_grid@,
            more: self.more_grid@,
            effect: self.effect_grid@,
            kinds: self.type_grid@,
        }
    }
}

/// `g` is the evaluation of the board `ids` under the catalog `lib`.
pub open spec fn is_evaluation(ids: Seq<i32>, lib: Map<i32, ChipData>, g: GridValue) -> bool {
    let st = evaluated_layers(ids, lib);
    &&& g.layers() == st
    &&& g.value_grid@ == Seq::new(ids.len(), |c: int| cell_value(st, c) as u64)
    &&& g.off == kind_total(st, ChipType::Offensive, ids.len() as int)
    &&& g.def == kind_total(st, ChipType::Defensive, ids.len() as int)
}

/// What evaluating the board `ids` under `lib` gives: `ChipNotFound` when a
/// chip is missing from the catalog, else `InvalidRange` when a chip names an
/// illegal offset, else the evaluation.
pub open spec fn evaluates_to(
    ids: Seq<i32>,
    lib: Map<i32, ChipData>,
    r: Result<GridValue, GridError>,
) -> bool {
    if !all_known(ids, lib) {
        r == Err::<GridValue, GridError>(GridError::ChipNotFound)
    } else if has_range_fault(ids, lib) {
        r == Err::<GridValue, GridError>(GridError::InvalidRange)
    } else {
        match r {
            Ok(g) => is_evaluation(ids, lib, g),
            Err(_) => false,
        }
    }
}

/// Every layer has one entry per cell and stays within the cap.
pub open spec fn bounded(st: Layers, n: int) -> bool {
    &&& st.flat.len() == n
    &&& st.increase.len() == n
    &&& st.more.len() == n
    &&& st.effect.len() == n
    &&& st.kinds.len() == n
    &&& forall|c: int|
        0 <= c < n ==> #[trigger] st.flat[c] <= LAYER_CAP && st.increase[c] <= LAYER_CAP
            && st.more[c] <= LAYER_CAP && st.effect[c] <= LAYER_CAP
}

/// Saturates a non-negative amount at the layer cap.
fn cap(x: u64) -> (r: u64)
    ensures
        r == capped(x as int),
{
    if x > LAYER_CAP {
        LAYER_CAP
    } else {
        x
    }
}

/// The value of a cell from its four layers.
fn value_of(f: u64, i: u64, m: u64, e: u64) -> (r: u64)
    requires
        f <= LAYER_CAP,
        i <= LAYER_CAP,
        m <= LAYER_CAP,
        e <= LAYER_CAP,
    ensures
        r == (f * i * m * e) / (PRODUCT_SCALE as int),
        r <= 10_000_000_000_000_000u64,
{
    assert(f * i <= 1_000_000_000_000 && f * i * m <= 1_000_000_000_000_000_000 && f * i * m
        * e <= 1_000_000_000_000_000_000_000_000) by (nonlinear_arith)
        requires
            f <= 1_000_000,
            i <= 1_000_000,
            m <= 1_000_000,
            e <= 1_000_000,
    ;
    let p: u128 = f as u128 * i as u128 * m as u128 * e as u128;
    let v: u128 = p / PRODUCT_SCALE;
    assert(v <= 10_000_000_000_000_000) by (nonlinear_arith)
        requires
            v == p / 100_000_000,
            p <= 1_000_000_000_000_000_000_000_000,
    ;
    v as u64
}

/// The first pass: every cell takes its own chip's flat value, effect and kind.
fn first_pass(board: &Board, lib: &ChipLib) -> (r: Result<GridValue, GridError>)
    requires
        board.wf(),
    ensures
        !all_known(board@, lib@) ==> r == Err::<GridValue, GridError>(GridError::ChipNotFound),
        all_known(board@, lib@) ==> (r matches Ok(g) && g.layers() == own_layers(board@, lib@)
            && bounded(g.layers(), GRID_CELLS as int)),
{
    let n = board.len();
    let mut flat_grid: Vec<u64> = Vec::new();
    let mut increase_grid: Vec<u64> = Vec::new();
    let mut more_grid: Vec<u64> = Vec::new();
    let mut effect_grid: Vec<u64> = Vec::new();
    let mut type_grid: Vec<ChipType> = Vec::new();
    let ghost own = own_layers(board@, lib@);
    let mut c: usize = 0;
    while c < n
        invariant
            board.wf(),
            n == board@.len(),
            n == GRID_CELLS,
            own == own_layers(board@, lib@),
            0 <= c <= n,
            forall|j: int| 0 <= j < c ==> lib@.contains_key(#[trigger] board@[j]),
            flat_grid@ == own.flat.take(c as int),
            increase_grid@ == own.increase.take(c as int),
            more_grid@ == own.more.take(c as int),
            effect_grid@ == own.effect.take(c as int),
            type_grid@ == own.kinds.take(c as int),
        decreases n - c,
    {
        let cell = board.cell(c);
        let d = match lib.get(cell.chip_index) {
            Ok(d) => d,
            Err(e) => return Err(e),
        };
        flat_grid.push(cap(d.value as u64 * SCALE));
        increase_grid.push(SCALE);
        more_grid.push(SCALE);
        effect_grid.push(cap(d.eff as u64));
        type_grid.push(d.c_type);
        assert(flat_grid@ =~= own.flat.take(c + 1));
        assert(increase_grid@ =~= own.increase.take(c + 1));
        assert(more_grid@ =~= own.more.take(c + 1));
        assert(effect_grid@ =~= own.effect.take(c + 1));
        assert(type_grid@ =~= own.kinds.take(c + 1));
        c += 1;
    }
    let g = GridValue {
        off: 0,
        def: 0,
        flat_grid,
        increase_grid,
        more_grid,
        effect_grid,
        type_grid,
        value_grid: Vec::new(),
    };
    assert(g.layers().flat =~= own.flat);
    assert(g.layers().increase =~= own.increase);
    assert(g.layers().more =~= own.more);
    assert(g.layers().effect =~= own.effect);
    assert(g.layers().kinds =~= own.kinds);
    Ok(g)
}

/// Chip `d` at cell `origin` buffs each valid target among its offsets, in
/// order; an offset that lands on the board but is no legal relative position
/// stops the pass with `InvalidRange`.
fn project_chip(lib: &ChipLib, origin: usize, d: &ChipData, g: &mut GridValue) -> (r: Result<
    (),
    GridError,
>)
    requires
        origin < GRID_CELLS,
        bounded(old(g).layers(), GRID_CELLS as int),
    ensures
        (exists|k: int|
            0 <= k < chip_targets(*d).len() && range_fault(
                origin as int,
                #[trigger] chip_targets(*d)[k],
            )) ==> r == Err::<(), GridError>(GridError::InvalidRange),
        (forall|k: int|
            0 <= k < chip_targets(*d).len() ==> !range_fault(
                origin as int,
                #[trigger] chip_targets(*d)[k],
            )) ==> r is Ok && final(g).layers() == project(
            old(g).layers(),
            origin as int,
            *d,
            chip_targets(*d),
        ) && bounded(final(g).layers(), GRID_CELLS as int),
{
    let ts = match &d.targets {
        Some(ts) => ts,
        None => {
            return Ok(());
        },
    };
    let ghost start = g.layers();
    assert(chip_targets(*d) == ts@);
    let mut k: usize = 0;
    while k < ts.len()
        invariant
            origin < GRID_CELLS,
            d.targets == Some(*ts),
            0 <= k <= ts@.len(),
            bounded(g.layers(), GRID_CELLS as int),
            g.layers() == project(start, origin as int, *d, ts@.take(k as int)),
            forall|j: int| 0 <= j < k ==> !range_fault(origin as int, #[trigger] ts@[j]),
        decreases ts.len() - k,
    {
        let o = ts[k];
        proof {
            let pre = ts@.take(k + 1);
            assert(pre.drop_last() =~= ts@.take(k as int));
            assert(pre.last() == o);
        }
        match lib.range_check(origin as i32, &o) {
            Err(e) => {
                assert(range_fault(origin as int, chip_targets(*d)[k as int]));
                return Err(e);
            },
            Ok(false) => {},
            Ok(true) => {
                let t = (origin as i32 + o) as usize;
                if g.type_grid[t] == d.c_type {
                    let f = cap(g.flat_grid[t] + d.add as u64);
                    let i = cap(g.increase_grid[t] + d.increase as u64);
                    assert(g.more_grid[t as int] * (SCALE + d.more) <= 1_000_000 * (100
                        + 4_294_967_295u64)) by (nonlinear_arith)
                        requires
                            g.more_grid[t as int] <= 1_000_000,
                            d.more <= 4_294_967_295u64,
                    ;
                    let m = cap(g.more_grid[t] * (SCALE + d.more as u64) / SCALE);
                    g.flat_grid.set(t, f);
                    g.increase_grid.set(t, i);
                    let ghost before = g.layers();
                    g.more_grid.set(t, m);
                    assert forall|c: int| 0 <= c < GRID_CELLS implies #[trigger] g.layers().flat[c]
                        <= LAYER_CAP && g.layers().increase[c] <= LAYER_CAP && g.layers().more[c]
                        <= LAYER_CAP && g.layers().effect[c] <= LAYER_CAP by {
                        assert(before.flat[c] <= LAYER_CAP);
                    }
                }
            },
        }
        k += 1;
    }
    assert(ts@.take(ts@.len() as int) =~= ts@);
    Ok(())
}

/// The second pass: every chip, in cell order, buffs its targets.
fn second_pass(board: &Board, lib: &ChipLib, g: &mut GridValue) -> (r: Result<(), GridError>)
    requires
        board.wf(),
        all_known(board@, lib@),
        old(g).layers() == own_layers(board@, lib@),
        bounded(old(g).layers(), GRID_CELLS as int),
    ensures
        has_range_fault(board@, lib@) ==> r == Err::<(), GridError>(GridError::InvalidRange),
        !has_range_fault(board@, lib@) ==> r is Ok && final(g).layers() == evaluated_layers(
            board@,
            lib@,
        ) && bounded(final(g).layers(), GRID_CELLS as int),
{
    let n = board.len();
    let ghost ids = board@;
    let ghost own = own_layers(board@, lib@);
    let mut c: usize = 0;
    while c < n
        invariant
            board.wf(),
            ids == board@,
            n == ids.len(),
            n == GRID_CELLS,
            all_known(ids, lib@),
            own == own_layers(ids, lib@),
            0 <= c <= n,
            bounded(g.layers(), GRID_CELLS as int),
            g.layers() == project_cells(own, ids, lib@, c as int),
            forall|j: int, k: int|
                0 <= j < c && 0 <= k < chip_targets(lib@[ids[j]]).len() ==> !range_fault(
                    j,
                    #[trigger] chip_targets(lib@[ids[j]])[k],
                ),
        decreases n - c,
    {
        let cell = board.cell(c);
        let d = match lib.get(cell.chip_index) {
            Ok(d) => d,
            Err(e) => return Err(e),
        };
        assert(*d == lib@[ids[c as int]]);
        match project_chip(lib, c, d, g) {
            Err(e) => {
                return Err(e);
            },
            Ok(()) => {},
        }
        c += 1;
    }
    Ok(())
}

/// Finalization: the value of every cell, and the offensive and defensive totals.
fn finalize(g: &mut GridValue)
    requires
        bounded(old(g).layers(), GRID_CELLS as int),
    ensures
        final(g).layers() == old(g).layers(),
        final(g).value_grid@ == Seq::new(
            GRID_CELLS as nat,
            |c: int| cell_value(old(g).layers(), c) as u64,
        ),
        final(g).off == kind_total(old(g).layers(), ChipType::Offensive, GRID_CELLS as int),
        final(g).def == kind_total(old(g).layers(), ChipType::Defensive, GRID_CELLS as int),
{
    let ghost st = g.layers();
    let n: usize = g.flat_grid.len();
    let mut values: Vec<u64> = Vec::new();
    let mut off: u64 = 0;
    let mut def: u64 = 0;
    let mut c: usize = 0;
    while c < n
        invariant
            g.layers() == st,
            n == GRID_CELLS,
            bounded(st, GRID_CELLS as int),
            0 <= c <= n,
            values@ == Seq::new(c as nat, |j: int| cell_value(st, j) as u64),
            off == kind_total(st, ChipType::Offensive, c as int),
            def == kind_total(st, ChipType::Defensive, c as int),
            off <= c * 10_000_000_000_000_000,
            def <= c * 10_000_000_000_000_000,
        decreases n - c,
    {
        assert(st.flat[c as int] <= LAYER_CAP);
        let v = value_of(g.flat_grid[c], g.increase_grid[c], g.more_grid[c], g.effect_grid[c]);
        values.push(v);
        if g.type_grid[c] == ChipType::Offensive {
            off = off + v;
        } else if g.type_grid[c] == ChipType::Defensive {
            def = def + v;
        }
        assert(values@ =~= Seq::new((c + 1) as nat, |j: int| cell_value(st, j) as u64));
        c += 1;
    }
    g.value_grid = values;
    g.off = off;
    g.def = def;
}

/// Evaluates the board: first every cell takes its own chip's values, then
/// every chip buffs its valid targets of its own kind, then each cell's value
/// is the product of its layers rounded down, summed per kind.
pub fn recompute(board: &Board, lib: &ChipLib) -> (r: Result<GridValue, GridError>)
    requires
        board.wf(),
    ensures
        evaluates_to(board@, lib@, r),
{
    let mut g = match first_pass(board, lib) {
        Ok(g) => g,
        Err(e) => return Err(e),
    };
    match second_pass(board, lib, &mut g) {
        Err(e) => return Err(e),
        Ok(()) => {},
    }
    finalize(&mut g);
    Ok(g)
}

} // verus!
