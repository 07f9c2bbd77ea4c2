//! Lattice-Boltzmann Poiseuille flow: the cell classification of the open
//! channel geometry and the frame schedule of the read-back loop.
use vstd::prelude::*;

verus! {

/// A cell outside the simulated world (the outermost ring of the lattice).
pub const CELL_DISABLED: u32 = 0;

/// A cell of bulk fluid.
pub const CELL_FLUID: u32 = 1;

/// A bounce-back wall cell (the ring just inside the border).
pub const CELL_WALL: u32 = 2;

/// An inflow cell (second column from the left).
pub const CELL_INFLOW: u32 = 5;

/// An outflow cell (second column from the right).
pub const CELL_OUTFLOW: u32 = 6;

/// Whether the classification of cell `(x, y)` of an `nx` by `ny` lattice is
/// defined: it is undefined exactly where the computation would subtract below
/// zero in unsigned arithmetic.
pub open spec fn open_geometry_defined(x: int, y: int, nx: int, ny: int) -> bool {
    if x == 0 || y == 0 {
        true
    } else if nx < 1 {
        false
    } else if x == nx - 1 {
        true
    } else if ny < 1 {
        false
    } else if y == ny - 1 {
        true
    } else if x != 1 && nx < 2 {
        false
    } else if (x == 1 || x == nx - 2) && y < ny - 1 {
        if x == 1 && y > 1 {
            ny >= 2 && (y < ny - 2 || (nx >= 2 && (x == nx - 2 ==> ny >= 2)))
        } else {
            nx >= 2 && (x == nx - 2 && y > 1 ==> ny >= 2)
        }
    } else {
        y == 1 || ny >= 2
    }
}

/// The kind of cell `(x, y)` in an `nx` by `ny` open channel: the border is
/// disabled, the second column holds the inflow and the second-to-last column
/// the outflow (both without their two end cells, which are walls), the ring
/// just inside the border is wall, and everything else is bulk fluid.
pub open spec fn open_geometry(x: int, y: int, nx: int, ny: int) -> u32 {
    if x == 0 || y == 0 || x == nx - 1 || y == ny - 1 {
        CELL_DISABLED
    } else if (x == 1 || x == nx - 2) && 0 < y < ny - 1 {
        if x == 1 && 1 < y < ny - 2 {
            CELL_INFLOW
        } else if x == nx - 2 && 1 < y < ny - 2 {
            CELL_OUTFLOW
        } else {
            CELL_WALL
        }
    } else if (y == 1 || y == ny - 2) && 0 < x < nx - 1 {
        CELL_WALL
    } else {
        CELL_FLUID
    }
}

/// Classifies cell `(x, y)` of an `nx` by `ny` lattice (see `open_geometry`).
pub fn setup_open_geometry(x: u32, y: u32, nx: u32, ny: u32) -> (kind: u32)
    requires
        open_geometry_defined(x as int, y as int, nx as int, ny as int),
    ensures
        kind == open_geometry(x as int, y as int, nx as int, ny as int),
{
    if x == 0 || y == 0 || x == nx - 1 || y == ny - 1 {
        return CELL_DISABLED;
    }
    if (x == 1 || x == nx - 2) && (y > 0 && y < ny - 1) {
        if x == 1 && y > 1 && y < ny - 2 {
            return CELL_INFLOW;
        }
        if x == nx - 2 && y > 1 && y < ny - 2 {
            return CELL_OUTFLOW;
        }
        return CELL_WALL;
    }
    if (y == 1 || y == ny - 2) && (x > 0 && x < nx - 1) {
        return CELL_WALL;
    }
    CELL_FLUID
}

/// Every cell inside the lattice has a defined classification.
pub proof fn lemma_open_geometry_defined_in_range(x: int, y: int, nx: int, ny: int)
    requires
        0 <= x < nx,
        0 <= y < ny,
    ensures
        open_geometry_defined(x, y, nx, ny),
{
}

/// The layout of the open channel: the border ring is disabled; inflow cells
/// lie in the second column and outflow cells in the second-to-last column;
/// every kind is one of the five known kinds; a cell at least two cells away
/// from every edge is bulk fluid.
pub proof fn lemma_open_geometry_layout(x: int, y: int, nx: int, ny: int)
    requires
        0 <= x < nx,
        0 <= y < ny,
    ensures
        (x == 0 || y == 0 || x == nx - 1 || y == ny - 1) ==> open_geometry(x, y, nx, ny)
            == CELL_DISABLED,
        open_geometry(x, y, nx, ny) == CELL_INFLOW ==> x == 1 && 1 < y < ny - 2,
        open_geometry(x, y, nx, ny) == CELL_OUTFLOW ==> x == nx - 2 && 1 < y < ny - 2,
        open_geometry(x, y, nx, ny) == CELL_DISABLED || open_geometry(x, y, nx, ny)
            == CELL_FLUID || open_geometry(x, y, nx, ny) == CELL_WALL || open_geometry(
            x,
            y,
            nx,
            ny,
        ) == CELL_INFLOW || open_geometry(x, y, nx, ny) == CELL_OUTFLOW,
        (2 <= x < nx - 2 && 2 <= y < ny - 2) ==> open_geometry(x, y, nx, ny) == CELL_FLUID,
{
}

/// Which cells get which kind, each kind by where it lies: the border ring is
/// disabled; inside it, the second column between its two end cells is
/// inflow, the second-to-last column between its end cells is outflow
/// (unless it is the second column too), the other cells of those two
/// columns and of the second and second-to-last rows are wall, and every
/// remaining cell is fluid.
pub proof fn lemma_open_geometry_kinds(x: int, y: int, nx: int, ny: int)
    requires
        0 <= x < nx,
        0 <= y < ny,
    ensures
        ({
            let border = x == 0 || y == 0 || x == nx - 1 || y == ny - 1;
            let inflow = !border && x == 1 && 1 < y < ny - 2;
            let outflow = !border && x == nx - 2 && x != 1 && 1 < y < ny - 2;
            let edge = x == 1 || x == nx - 2 || y == 1 || y == ny - 2;
            let k = open_geometry(x, y, nx, ny);
            &&& (k == CELL_DISABLED <==> border)
            &&& (k == CELL_INFLOW <==> inflow)
            &&& (k == CELL_OUTFLOW <==> outflow)
            &&& (k == CELL_WALL <==> !border && edge && !inflow && !outflow)
            &&& (k == CELL_FLUID <==> !border && !edge)
        }),
{
}

/// The cell kinds of an `nx` by `ny` lattice in row-major order (row `y`,
/// then column `x`), as the fluid buffer is filled.
pub fn init_cell_kinds(nx: u32, ny: u32) -> (cells: Vec<u32>)
    requires
        nx as int * ny as int <= usize::MAX,
    ensures
        cells@.len() == nx as int * ny as int,
        forall|y: int, x: int|
            0 <= y < ny && 0 <= x < nx ==> #[trigger] cells@[y * nx + x] == open_geometry(
                x,
                y,
                nx as int,
                ny as int,
            ),
{
    let mut cells: Vec<u32> = Vec::new();
    let mut j: u32 = 0;
    while j < ny
        invariant
            j <= ny,
            nx as int * ny as int <= usize::MAX,
            cells@.len() == j as int * nx as int,
            forall|y: int, x: int|
                0 <= y < j && 0 <= x < nx ==> #[trigger] cells@[y * nx + x] == open_geometry(
                    x,
                    y,
                    nx as int,
                    ny as int,
                ),
        decreases ny - j,
    {
        let mut i: u32 = 0;
        while i < nx
            invariant
                i <= nx,
                j < ny,
                nx as int * ny as int <= usize::MAX,
                cells@.len() == j as int * nx as int + i,
                forall|y: int, x: int|
                    0 <= y < j && 0 <= x < nx ==> #[trigger] cells@[y * nx + x] == open_geometry(
                        x,
                        y,
                        nx as int,
                        ny as int,
                    ),
                forall|x: int|
                    0 <= x < i ==> #[trigger] cells@[j * nx + x] == open_geometry(
                        x,
                        j as int,
                        nx as int,
                        ny as int,
                    ),
            decreases nx - i,
        {
            proof {
                lemma_open_geometry_defined_in_range(i as int, j as int, nx as int, ny as int);
            }
            let kind = setup_open_geometry(i, j, nx, ny);
            let ghost before = cells@;
            cells.push(kind);
            proof {
                assert forall|y: int, x: int| 0 <= y < j && 0 <= x < nx implies #[trigger] cells@[y
                    * nx + x] == open_geometry(x, y, nx as int, ny as int) by {
                    lemma_row_index_bound(y, x, j as int, nx as int);
                    assert(cells@[y * nx + x] == before[y * nx + x]);
                }
            }
            i = i + 1;
        }
        proof {
            assert forall|y: int, x: int| 0 <= y < j + 1 && 0 <= x < nx implies #[trigger] cells@[y
                * nx + x] == open_geometry(x, y, nx as int, ny as int) by {
                if y == j {
                } else {
                }
            }
            assert(cells@.len() == (j + 1) as int * nx as int) by (nonlinear_arith)
                requires
                    cells@.len() == j as int * nx as int + nx as int,
            ;
            assert((j + 1) as int * nx as int <= nx as int * ny as int) by (nonlinear_arith)
                requires
                    j + 1 <= ny,
            ;
        }
        j = j + 1;
    }
    assert(cells@.len() == nx as int * ny as int) by (nonlinear_arith)
        requires
            cells@.len() == j as int * nx as int,
            j == ny,
    ;
    cells
}

/// A cell `(x, y)` of an earlier row lies before the start of row `j`.
proof fn lemma_row_index_bound(y: int, x: int, j: int, nx: int)
    requires
        0 <= y < j,
        0 <= x < nx,
    ensures
        0 <= y * nx + x < j * nx,
{
    assert(y * nx + x < j * nx) by (nonlinear_arith)
        requires
            0 <= y < j,
            0 <= x < nx,
    ;
    assert(0 <= y * nx) by (nonlinear_arith)
        requires
            0 <= y,
            0 <= x < nx,
    ;
}

/// Frames between the start of a read-back and the next recomputation.
pub const READBACK_FRAMES: i32 = 50;

/// What one frame of the Poiseuille flow view does besides drawing.
#[derive(Clone, Copy, Debug, PartialEq, Eq)]
pub struct FluidFrameAction {
    /// Run the propagate, collide and particle passes and copy the fluid
    /// buffer into the staging buffer.
    pub compute: bool,
    /// Map the staging buffer for reading.
    pub read_back: bool,
}

/// The read-back schedule of the Poiseuille flow view: a counter of frames
/// since the last recomputation and whether a copy is in flight.
pub struct PoiseuilleFrameState {
    swap: i32,
    is_coping_data: bool,
}

/// One frame of the schedule, from `(swap, copying)` to the next counter, the
/// next flag and the frame's action.
pub open spec fn fluid_frame_step(swap: int, copying: bool) -> (int, bool, FluidFrameAction) {
    let compute = !copying;
    let s0 = if compute { 0 } else { swap };
    let read_back = s0 == 0;
    let still_copying = s0 != READBACK_FRAMES;
    (s0 + 1, still_copying, FluidFrameAction { compute, read_back })
}

/// The state of the schedule after `n` frames from a fresh view.
pub open spec fn fluid_state_after(n: nat) -> (int, bool) {
    if n == 0 {
        (0, false)
    } else if n % 51 == 0 {
        (51, false)
    } else {
        ((n % 51) as int, true)
    }
}

impl PoiseuilleFrameState {
    #[verifier::type_invariant]
    spec fn inv(self) -> bool {
        if self.is_coping_data {
            0 <= self.swap <= READBACK_FRAMES
        } else {
            self.swap == 0 || self.swap == READBACK_FRAMES + 1
        }
    }

    /// Frames counted since the last recomputation.
    pub closed spec fn swap(self) -> int {
        self.swap as int
    }

    /// Whether a read-back is in flight.
    pub closed spec fn copying(self) -> bool {
        self.is_coping_data
    }

    /// A fresh schedule: nothing computed yet.
    pub fn new() -> (s: Self)
        ensures
            s.swap() == 0,
            !s.copying(),
    {
        PoiseuilleFrameState { swap: 0, is_coping_data: false }
    }

    /// Advances the schedule by one frame and says what the frame does.
    pub fn enter_frame(&mut self) -> (action: FluidFrameAction)
        ensures
            (final(self).swap(), final(self).copying(), action) == fluid_frame_step(
                old(self).swap(),
                old(self).copying(),
            ),
    {
        proof {
            use_type_invariant(&*self);
        }
        let compute = !self.is_coping_data;
        let s0: i32 = if compute {
            0
        } else {
            self.swap
        };
        let read_back = s0 == 0;
        let still_copying = s0 != READBACK_FRAMES;
        *self = PoiseuilleFrameState { swap: s0 + 1, is_coping_data: still_copying };
        FluidFrameAction { compute, read_back }
    }
}

/// The schedule recomputes the flow and reads it back on the first frame and
/// then once every 51 frames: frame `n` (counted from 0) computes exactly when
/// `n` is a multiple of 51.
pub proof fn lemma_fluid_schedule_period(n: nat)
    ensures
        ({
            let (swap, copying) = fluid_state_after(n);
            let (next_swap, next_copying, action) = fluid_frame_step(swap, copying);
            &&& (next_swap, next_copying) == fluid_state_after(n + 1)
            &&& action.compute == (n % 51 == 0)
            &&& action.read_back == (n % 51 == 0)
        }),
{
    let r = n % 51;
    assert((n + 1) % 51 == if r == 50 { 0 } else { r + 1 });
}

} // verus!
