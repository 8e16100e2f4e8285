use vstd::prelude::*;
use crate::geometry::{
    coord_ok, prism_tris, push_prism, rect_ok, tri_ok, Mesh, Rect, Triangle,
};

verus! {

/// One grid entry: `week` is the 0-based column, `day` the 1-based row
/// inside a seven-row band, `count` the non-negative activity score.
/// `label` is auxiliary text that geometry never reads.
#[derive(Clone, Debug)]
pub struct Cell {
    pub week: u32,
    pub day: u32,
    pub count: u64,
    pub label: Option<String>,
}

/// Largest value any layout dimension may take, in milli-units
/// (two hundred and fifty metres).  It keeps every generated coordinate
/// inside the range the binary32 encoder accepts.
pub const MAX_DIM: i64 = 250_000_000;

/// How many week columns fit on the plate.
pub const MAX_WEEKS: u32 = 53;

/// Fixed geometric parameters of the model, in milli-units.
#[derive(Clone, Copy, PartialEq, Eq, Structural, Debug)]
pub struct Layout {
    /// Lateral size of one cell footprint, across weeks.
    pub cell_width: i64,
    /// Lateral size of one cell footprint, across days.
    pub cell_depth: i64,
    /// Footprint of the flat plate under the grid.
    pub base_width: i64,
    pub base_depth: i64,
    /// Plate thickness, rendered as a thin slab below z = 0.
    pub base_thickness: i64,
    /// Height given to the tallest cell after normalization.
    pub max_height: i64,
    /// Vertical drop of the pedestal frustum.
    pub pedestal_height: i64,
    /// Outward offset of the frustum's lower face on all four sides.
    pub pedestal_flare: i64,
    /// Offset of the grid region from the plate edge.
    pub margin_x: i64,
    pub margin_y: i64,
}

impl Layout {
    pub open spec fn wf(self) -> bool {
        &&& 0 <= self.cell_width <= MAX_DIM
        &&& 0 <= self.cell_depth <= MAX_DIM
        &&& 0 <= self.base_width <= MAX_DIM
        &&& 0 <= self.base_depth <= MAX_DIM
        &&& 0 <= self.base_thickness <= MAX_DIM
        &&& 0 <= self.max_height <= MAX_DIM
        &&& 0 <= self.pedestal_height <= MAX_DIM
        &&& 0 <= self.pedestal_flare <= MAX_DIM
        &&& 0 <= self.margin_x <= MAX_DIM
        &&& 0 <= self.margin_y <= MAX_DIM
    }
}

impl Default for Layout {
    /// The standard skyline layout: 2.5 mm cells on a
    /// 142.5 mm x 27.5 mm plate of 0.1 mm thickness, 25 mm peak height,
    /// and a 10 mm pedestal flared 2.5 mm outward.
    fn default() -> (r: Layout)
        ensures
            r == (Layout {
                cell_width: 2_500i64,
                cell_depth: 2_500i64,
                base_width: 142_500i64,
                base_depth: 27_500i64,
                base_thickness: 100i64,
                max_height: 25_000i64,
                pedestal_height: 10_000i64,
                pedestal_flare: 2_500i64,
                margin_x: 5_000i64,
                margin_y: 2_500i64,
            }),
            r.wf(),
    {
        Layout {
            cell_width: 2_500,
            cell_depth: 2_500,
            base_width: 142_500,
            base_depth: 27_500,
            base_thickness: 100,
            max_height: 25_000,
            pedestal_height: 10_000,
            pedestal_flare: 2_500,
            margin_x: 5_000,
            margin_y: 2_500,
        }
    }
}

/// Why a build was rejected; the offending week and day are carried for
/// diagnosis.
#[derive(Clone, Copy, PartialEq, Eq, Structural, Debug)]
pub enum BuildError {
    /// A cell's day index fell outside 1..=7.
    OutOfRangeCell { week: u32, day: u32 },
    /// A cell's week index fell outside the plate's column range.
    OutOfRangeWeek { week: u32, day: u32 },
}

pub open spec fn day_ok(c: Cell) -> bool {
    1 <= c.day <= 7
}

pub open spec fn week_ok(c: Cell) -> bool {
    c.week < MAX_WEEKS
}

pub open spec fn cell_ok(c: Cell) -> bool {
    day_ok(c) && week_ok(c)
}

/// The error raised for a given out-of-range cell; a bad day takes
/// precedence over a bad week.
pub open spec fn cell_error(c: Cell) -> BuildError {
    if !day_ok(c) {
        BuildError::OutOfRangeCell { week: c.week, day: c.day }
    } else {
        BuildError::OutOfRangeWeek { week: c.week, day: c.day }
    }
}

/// The normalization divisor: the largest count, floored at one so that an
/// empty or all-zero grid divides cleanly.
pub open spec fn max_count_spec(cells: Seq<Cell>) -> int
    decreases cells.len(),
{
    if cells.len() == 0 {
        1
    } else {
        let rest = max_count_spec(cells.drop_last());
        if cells.last().count > rest {
            cells.last().count as int
        } else {
            rest
        }
    }
}

/// Extrusion height of a cell with score `count`: `count / max_count`
/// of the full `max_height`, rounded down to the milli-unit.
pub open spec fn height_spec(count: int, max_count: int, max_height: int) -> int {
    (count * max_height) / max_count
}

/// The cell's footprint: the day row is inverted so day 1 renders at the
/// back of the plate and day 7 at the front.
pub open spec fn cell_rect(c: Cell, layout: Layout) -> Rect {
    let x0 = layout.margin_x + c.week * layout.cell_width;
    let y0 = layout.margin_y + (7 - c.day) * layout.cell_depth;
    Rect {
        x0: x0 as i64,
        y0: y0 as i64,
        x1: (x0 + layout.cell_width) as i64,
        y1: (y0 + layout.cell_depth) as i64,
    }
}

/// The twelve triangles of one extruded cell: a box from z = 0 up to the
/// cell's normalized height.  A zero-count cell keeps all twelve triangles
/// as a degenerate flat box.
pub open spec fn cell_tris(c: Cell, layout: Layout, max_count: int) -> Seq<Triangle> {
    let r = cell_rect(c, layout);
    let h = height_spec(c.count as int, max_count, layout.max_height as int);
    prism_tris(r, 0, r, h as i64, false)
}

pub open spec fn cells_tris(cells: Seq<Cell>, layout: Layout, max_count: int) -> Seq<Triangle>
    decreases cells.len(),
{
    if cells.len() == 0 {
        Seq::empty()
    } else {
        cells_tris(cells.drop_last(), layout, max_count) + cell_tris(cells.last(), layout, max_count)
    }
}

/// The plate: a slab over `[0, base_width] x [0, base_depth]` reaching from
/// z = 0 down to `-base_thickness`.
pub open spec fn plate_tris(layout: Layout) -> Seq<Triangle> {
    let r = (Rect { x0: 0, y0: 0, x1: layout.base_width, y1: layout.base_depth });
    prism_tris(r, 0, r, (-layout.base_thickness) as i64, true)
}

/// The pedestal: its top face coincides with the plate's bottom face, its
/// bottom face is flared outward and dropped by `pedestal_height`.
pub open spec fn pedestal_tris(layout: Layout) -> Seq<Triangle> {
    let top = (Rect { x0: 0, y0: 0, x1: layout.base_width, y1: layout.base_depth });
    let bot = (Rect {
        x0: (-layout.pedestal_flare) as i64,
        y0: (-layout.pedestal_flare) as i64,
        x1: (layout.base_width + layout.pedestal_flare) as i64,
        y1: (layout.base_depth + layout.pedestal_flare) as i64,
    });
    prism_tris(top, (-layout.base_thickness) as i64, bot,
        (-(layout.base_thickness + layout.pedestal_height)) as i64, true)
}

/// Everything `build_mesh` emits, in order: the cells' boxes in input
/// order, then the plate, then the pedestal.
pub open spec fn mesh_tris(cells: Seq<Cell>, layout: Layout) -> Seq<Triangle> {
    cells_tris(cells, layout, max_count_spec(cells)) + plate_tris(layout) + pedestal_tris(layout)
}

proof fn lemma_max_count_bounds(cells: Seq<Cell>)
    ensures
        1 <= max_count_spec(cells),
        forall|i: int| 0 <= i < cells.len() ==> #[trigger] cells[i].count <= max_count_spec(cells),
    decreases cells.len(),
{
    if cells.len() > 0 {
        lemma_max_count_bounds(cells.drop_last());
        assert forall|i: int|
            0 <= i < cells.len() implies #[trigger] cells[i].count <= max_count_spec(cells) by {
            if i < cells.len() - 1 {
                assert(cells.drop_last()[i] == cells[i]);
                assert(cells.drop_last()[i].count <= max_count_spec(cells.drop_last()));
            }
        }
    }
}

/// The normalization divisor is either its floor of one or the count of
/// some cell.
proof fn lemma_max_count_attained(cells: Seq<Cell>)
    ensures
        max_count_spec(cells) == 1 || exists|i: int|
            0 <= i < cells.len() && #[trigger] cells[i].count == max_count_spec(cells),
    decreases cells.len(),
{
    if cells.len() > 0 {
        lemma_max_count_attained(cells.drop_last());
        assert(forall|i: int|
            0 <= i < cells.len() - 1 ==> cells[i] == #[trigger] cells.drop_last()[i]);
        let rest = max_count_spec(cells.drop_last());
        if cells.last().count > rest {
            assert(cells[cells.len() - 1].count == max_count_spec(cells));
        } else if rest != 1 {
            let k = choose|i: int|
                0 <= i < cells.drop_last().len() && #[trigger] cells.drop_last()[i].count == rest;
            assert(cells[k].count == max_count_spec(cells));
        }
    }
}

/// Builds the full model for a scored grid: one extruded box per cell,
/// then the base plate, then the pedestal.  Cells whose day or week index
/// falls outside the grid are rejected and no mesh is produced.
pub fn build_mesh(cells: &Vec<Cell>, layout: &Layout) -> (r: Result<Mesh, BuildError>)
    requires
        layout.wf(),
    ensures
        (r matches Ok(m) ==> {
            &&& forall|i: int| 0 <= i < cells@.len() ==> cell_ok(#[trigger] cells@[i])
            &&& m.triangles@ == mesh_tris(cells@, *layout)
            &&& m.triangles@.len() == 12 * cells@.len() + 24
            &&& m.wf()
        }),
        (r matches Err(e) ==> exists|i: int|
            {
                &&& 0 <= i < cells@.len()
                &&& !cell_ok(#[trigger] cells@[i])
                &&& forall|j: int| 0 <= j < i ==> cell_ok(#[trigger] cells@[j])
                &&& e == cell_error(cells@[i])
            }),
        (r is Err <==> exists|i: int| 0 <= i < cells@.len() && !cell_ok(#[trigger] cells@[i])),
{
    let n = cells.len();

    // Placement guard: reject the first out-of-range cell.
    let mut i: usize = 0;
    while i < n
        invariant
            n == cells@.len(),
            i <= n,
            forall|j: int| 0 <= j < i ==> cell_ok(#[trigger] cells@[j]),
        decreases n - i,
    {
        let c = &cells[i];
        if c.day < 1 || c.day > 7 {
            return Err(BuildError::OutOfRangeCell { week: c.week, day: c.day });
        }
        if c.week >= MAX_WEEKS {
            return Err(BuildError::OutOfRangeWeek { week: c.week, day: c.day });
        }
        i += 1;
    }

    // Height normalization divisor.
    let mut max_count: u64 = 1;
    let mut i: usize = 0;
    while i < n
        invariant
            n == cells@.len(),
            i <= n,
            max_count == max_count_spec(cells@.take(i as int)),
        decreases n - i,
    {
        proof {
            assert(cells@.take(i + 1 as int).drop_last() =~= cells@.take(i as int));
        }
        if cells[i].count > max_count {
            max_count = cells[i].count;
        }
        i += 1;
    }
    proof {
        assert(cells@.take(n as int) =~= cells@);
        lemma_max_count_bounds(cells@);
    }

    let mut tris: Vec<Triangle> = Vec::new();
    let mut i: usize = 0;
    while i < n
        invariant
            n == cells@.len(),
            i <= n,
            layout.wf(),
            max_count == max_count_spec(cells@),
            1 <= max_count,
            forall|j: int| 0 <= j < n ==> cell_ok(#[trigger] cells@[j]),
            forall|j: int| 0 <= j < n ==> #[trigger] cells@[j].count <= max_count,
            tris@ == cells_tris(cells@.take(i as int), *layout, max_count as int),
            forall|k: int| 0 <= k < tris@.len() ==> tri_ok(#[trigger] tris@[k]),
        decreases n - i,
    {
        let c = &cells[i];
        let week = c.week as i64;
        let day = c.day as i64;
        proof {
            assert(0 <= week * layout.cell_width <= 52 * MAX_DIM) by (nonlinear_arith)
                requires
                    0 <= week <= 52,
                    0 <= layout.cell_width <= MAX_DIM,
            ;
            assert(0 <= (7 - day) * layout.cell_depth <= 6 * MAX_DIM) by (nonlinear_arith)
                requires
                    1 <= day <= 7,
                    0 <= layout.cell_depth <= MAX_DIM,
            ;
        }
        let x0 = layout.margin_x + week * layout.cell_width;
        let y0 = layout.margin_y + (7 - day) * layout.cell_depth;
        let rect = Rect {
            x0: x0,
            y0: y0,
            x1: x0 + layout.cell_width,
            y1: y0 + layout.cell_depth,
        };
        proof {
            assert(0 <= (c.count as int) * (layout.max_height as int) <= 0xffff_ffff_ffff_ffff
                * MAX_DIM) by (nonlinear_arith)
                requires
                    0 <= c.count <= 0xffff_ffff_ffff_ffff,
                    0 <= layout.max_height <= MAX_DIM,
            ;
        }
        let h128 = (c.count as u128) * (layout.max_height as u128) / (max_count as u128);
        proof {
            assert(c.count * layout.max_height <= max_count * layout.max_height) by (nonlinear_arith)
                requires
                    c.count <= max_count,
                    0 <= layout.max_height,
            ;
            assert(c.count * layout.max_height / (max_count as int) <= max_count * layout.max_height
                / (max_count as int)) by {
                vstd::arithmetic::div_mod::lemma_div_is_ordered(
                    c.count * layout.max_height,
                    max_count * layout.max_height,
                    max_count as int,
                );
            }
            assert(max_count * layout.max_height / (max_count as int) == layout.max_height) by {
                vstd::arithmetic::div_mod::lemma_div_by_multiple(
                    layout.max_height as int,
                    max_count as int,
                );
            }
            assert(0 <= c.count * layout.max_height) by (nonlinear_arith)
                requires
                    0 <= c.count,
                    0 <= layout.max_height,
            ;
            vstd::arithmetic::div_mod::lemma_div_pos_is_pos(
                c.count * layout.max_height,
                max_count as int,
            );
        }
        let h = h128 as i64;
        proof {
            assert(rect == cell_rect(*c, *layout));
            assert(h == height_spec(c.count as int, max_count as int, layout.max_height as int));
            crate::geometry::lemma_prism_tris_ok(rect, 0, rect, h, false);
        }
        push_prism(&mut tris, rect, 0, rect, h, false);
        proof {
            assert(cells@.take(i + 1 as int).drop_last() =~= cells@.take(i as int));
            assert(cells@.take(i + 1 as int).last() == cells@[i as int]);
        }
        i += 1;
    }
    proof {
        assert(cells@.take(n as int) =~= cells@);
    }

    // Base plate.
    let plate = Rect { x0: 0, y0: 0, x1: layout.base_width, y1: layout.base_depth };
    proof {
        crate::geometry::lemma_prism_tris_ok(plate, 0, plate, (-layout.base_thickness) as i64, true);
    }
    push_prism(&mut tris, plate, 0, plate, -layout.base_thickness, true);

    // Pedestal frustum.
    let flare = layout.pedestal_flare;
    let ped_bot = Rect {
        x0: -flare,
        y0: -flare,
        x1: layout.base_width + flare,
        y1: layout.base_depth + flare,
    };
    let ped_top_z = -layout.base_thickness;
    let ped_bot_z = -(layout.base_thickness + layout.pedestal_height);
    proof {
        crate::geometry::lemma_prism_tris_ok(plate, ped_top_z, ped_bot, ped_bot_z, true);
    }
    push_prism(&mut tris, plate, ped_top_z, ped_bot, ped_bot_z, true);

    proof {
        assert(tris@ == mesh_tris(cells@, *layout));
        lemma_cells_tris_len(cells@, *layout, max_count as int);
    }
    Ok(Mesh { triangles: tris })
}

/// The normalized height of cell `i` within its grid.
pub open spec fn cell_height_in(cells: Seq<Cell>, layout: Layout, i: int) -> int {
    height_spec(cells[i].count as int, max_count_spec(cells), layout.max_height as int)
}

/// Height normalization law: every cell's extrusion height lies in
/// `[0, max_height]`; whenever any cell has a positive count, a cell of
/// maximal count reaches exactly `max_height`, so the tallest cell always
/// does; and an all-zero grid is rendered flat, with every height zero,
/// rather than omitted.
pub proof fn lemma_height_normalization(cells: Seq<Cell>, layout: Layout)
    requires
        layout.wf(),
    ensures
        forall|i: int|
            0 <= i < cells.len() ==> 0 <= #[trigger] cell_height_in(cells, layout, i)
                <= layout.max_height,
        (exists|i: int| 0 <= i < cells.len() && #[trigger] cells[i].count >= 1) ==> exists|i: int|
            {
                &&& 0 <= i < cells.len()
                &&& #[trigger] cells[i].count == max_count_spec(cells)
                &&& cell_height_in(cells, layout, i) == layout.max_height
            },
        (forall|i: int| 0 <= i < cells.len() ==> #[trigger] cells[i].count == 0) ==> forall|i: int|
            0 <= i < cells.len() ==> #[trigger] cell_height_in(cells, layout, i) == 0,
{
    let m = max_count_spec(cells);
    let hmax = layout.max_height as int;
    lemma_max_count_bounds(cells);
    assert forall|i: int|
        0 <= i < cells.len() implies 0 <= #[trigger] cell_height_in(cells, layout, i)
        <= layout.max_height by {
        let c = cells[i].count as int;
        assert(0 <= c * hmax <= m * hmax) by (nonlinear_arith)
            requires
                0 <= c <= m,
                0 <= hmax,
        ;
        vstd::arithmetic::div_mod::lemma_div_is_ordered(c * hmax, m * hmax, m);
        vstd::arithmetic::div_mod::lemma_div_by_multiple(hmax, m);
        assert(m * hmax == hmax * m) by (nonlinear_arith);
        vstd::arithmetic::div_mod::lemma_div_pos_is_pos(c * hmax, m);
    }
    if exists|i: int| 0 <= i < cells.len() && #[trigger] cells[i].count >= 1 {
        lemma_max_count_attained(cells);
        let j = choose|i: int| 0 <= i < cells.len() && #[trigger] cells[i].count >= 1;
        if m == 1 {
            assert(cells[j].count == m);
        }
        let k = choose|i: int|
            0 <= i < cells.len() && #[trigger] cells[i].count == max_count_spec(cells);
        vstd::arithmetic::div_mod::lemma_div_by_multiple(hmax, m);
        assert(m * hmax == hmax * m) by (nonlinear_arith);
        assert(cell_height_in(cells, layout, k) == layout.max_height);
    }
    if forall|i: int| 0 <= i < cells.len() ==> #[trigger] cells[i].count == 0 {
        assert forall|i: int|
            0 <= i < cells.len() implies #[trigger] cell_height_in(cells, layout, i) == 0 by {
            vstd::arithmetic::div_mod::lemma_div_by_multiple(0, m);
            assert(0 * m == 0) by (nonlinear_arith);
            assert((cells[i].count as int) * hmax == 0 * hmax) by (nonlinear_arith)
                requires
                    cells[i].count == 0,
            ;
            assert(0 * hmax == 0) by (nonlinear_arith);
        }
    }
}

proof fn lemma_cells_tris_len(cells: Seq<Cell>, layout: Layout, max_count: int)
    ensures
        cells_tris(cells, layout, max_count).len() == 12 * cells.len(),
    decreases cells.len(),
{
    if cells.len() > 0 {
        lemma_cells_tris_len(cells.drop_last(), layout, max_count);
    }
}

} // verus!
