//! The integer side of the brush: the touch-state machine of a stroke, the
//! replay schedule of recorded touch points, and the triangle indices of
//! stroke meshes.
use vstd::prelude::*;

verus! {

/// The phase of a touch gesture.
#[derive(Clone, Copy, Debug, PartialEq, Eq, Structural)]
pub enum TouchState {
    Normal,
    Start,
    Moving,
    End,
}

/// What a move of the touch asks of the stroke calculator.
#[derive(Clone, Copy, Debug, PartialEq, Eq, Structural)]
pub enum StrokeMove {
    /// Too few touches yet: nothing is drawn.
    Wait,
    /// Enough touches: draw the start of the stroke from the first touch.
    Begin,
    /// Extend the stroke up to the touch with this index.
    Extend(usize),
}

/// Touches gathered before a stroke starts to be drawn.
pub const DRAW_START_GAP: usize = 2;

/// The touch-state machine of a stroke: its phase and how many touches the
/// current gesture has gathered.
pub struct StrokeTracker {
    state: TouchState,
    touch_count: usize,
}

impl StrokeTracker {
    #[verifier::type_invariant]
    spec fn inv(self) -> bool {
        self.state != TouchState::Normal ==> self.touch_count >= 1
    }

    /// The phase of the stroke.
    pub closed spec fn state(&self) -> TouchState {
        self.state
    }

    /// The touches gathered by the current gesture.
    pub closed spec fn touch_count(&self) -> nat {
        self.touch_count as nat
    }

    /// A stroke with no touches, not yet drawing.
    pub fn new() -> (t: Self)
        ensures
            t.state() == TouchState::Normal,
            t.touch_count() == 0,
    {
        StrokeTracker { state: TouchState::Normal, touch_count: 0 }
    }

    /// A gesture starts with its first touch; the phase is kept.
    pub fn path_start(&mut self)
        ensures
            final(self).state() == old(self).state(),
            final(self).touch_count() == 1,
    {
        self.touch_count = 1;
    }

    /// The touch moves: the touch is gathered, and the stroke waits, begins
    /// once more than `DRAW_START_GAP` touches are gathered, or extends to
    /// the touch `DRAW_START_GAP` places before the newest.
    pub fn path_move(&mut self) -> (m: StrokeMove)
        requires
            old(self).touch_count() < usize::MAX,
        ensures
            final(self).touch_count() == old(self).touch_count() + 1,
            old(self).state() == TouchState::Normal ==> (if final(self).touch_count()
                <= DRAW_START_GAP {
                m == StrokeMove::Wait && final(self).state() == TouchState::Normal
            } else {
                m == StrokeMove::Begin && final(self).state() == TouchState::Moving
            }),
            old(self).state() != TouchState::Normal ==> final(self).state() == old(self).state()
                && m == StrokeMove::Extend((final(self).touch_count() - DRAW_START_GAP) as usize),
            old(self).state() != TouchState::Normal ==> old(self).touch_count() >= 1,
            m matches StrokeMove::Extend(i) ==> i < final(self).touch_count(),
    {
        proof {
            use_type_invariant(&*self);
        }
        self.touch_count = self.touch_count + 1;
        if self.state == TouchState::Normal {
            if self.touch_count <= DRAW_START_GAP {
                return StrokeMove::Wait;
            } else {
                self.state = TouchState::Moving;
                return StrokeMove::Begin;
            }
        }
        StrokeMove::Extend(self.touch_count - DRAW_START_GAP)
    }

    /// The gesture ends with a last touch, which is gathered.
    pub fn path_end(&mut self)
        requires
            old(self).touch_count() < usize::MAX,
        ensures
            final(self).state() == old(self).state(),
            final(self).touch_count() == old(self).touch_count() + 1,
    {
        self.touch_count = self.touch_count + 1;
    }
}

/// What one frame of the brush replay does with the recorded touch points.
#[derive(Clone, Copy, Debug, PartialEq, Eq, Structural)]
pub enum BrushStep {
    /// Nothing this frame.
    Idle,
    /// Start a stroke at the point with this index.
    Start(usize),
    /// Move the stroke to the point with this index.
    Move(usize),
    /// End the stroke at the point with this index.
    End(usize),
}

/// Frames per replayed touch point.
pub const FRAMES_PER_POINT: u32 = 4;

/// The gap counter of a fresh replay, large enough that the first frame
/// replays the first point.
pub const INITIAL_GAP: u32 = 130;

/// The step of the replay in state `(offset, gap)` over `count` points: the
/// next state and the frame's step.
pub open spec fn brush_step(count: nat, offset: nat, gap: nat) -> (nat, nat, BrushStep) {
    if offset == count {
        (offset, gap, BrushStep::Idle)
    } else if gap + 1 < FRAMES_PER_POINT {
        (offset, gap + 1, BrushStep::Idle)
    } else {
        let i = offset as usize;
        (
            offset + 1,
            0,
            if offset == 0 {
                BrushStep::Start(i)
            } else if offset + 1 < count {
                BrushStep::Move(i)
            } else {
                BrushStep::End(i)
            },
        )
    }
}

/// The replay of a recorded stroke, one point every fourth frame.
pub struct BrushReplay {
    point_count: usize,
    step_offset: usize,
    gap: u32,
}

impl BrushReplay {
    #[verifier::type_invariant]
    spec fn inv(self) -> bool {
        self.step_offset <= self.point_count && self.gap <= INITIAL_GAP
    }

    /// The number of recorded points.
    pub closed spec fn point_count(&self) -> nat {
        self.point_count as nat
    }

    /// The points replayed so far.
    pub closed spec fn step_offset(&self) -> nat {
        self.step_offset as nat
    }

    /// The frames counted since the last replayed point.
    pub closed spec fn gap(&self) -> nat {
        self.gap as nat
    }

    /// A replay of `point_count` points that starts with the next frame.
    pub fn new(point_count: usize) -> (r: Self)
        ensures
            r.point_count() == point_count,
            r.step_offset() == 0,
            r.gap() == INITIAL_GAP,
    {
        BrushReplay { point_count, step_offset: 0, gap: INITIAL_GAP }
    }

    /// Advances the replay by one frame.
    pub fn step_frame_data(&mut self) -> (step: BrushStep)
        ensures
            final(self).point_count() == old(self).point_count(),
            (final(self).step_offset(), final(self).gap(), step) == brush_step(
                old(self).point_count(),
                old(self).step_offset(),
                old(self).gap(),
            ),
            final(self).step_offset() <= final(self).point_count(),
            final(self).gap() <= INITIAL_GAP,
    {
        proof {
            use_type_invariant(&*self);
        }
        if self.point_count == self.step_offset {
            return BrushStep::Idle;
        }
        if self.gap + 1 < FRAMES_PER_POINT {
            self.gap = self.gap + 1;
            return BrushStep::Idle;
        }
        let i = self.step_offset;
        let step = if i == 0 {
            BrushStep::Start(i)
        } else if i + 1 < self.point_count {
            BrushStep::Move(i)
        } else {
            BrushStep::End(i)
        };
        self.gap = 0;
        self.step_offset = i + 1;
        step
    }
}

/// The state of a fresh replay of `count` points after `k` frames.
pub open spec fn brush_state_after(count: nat, k: nat) -> (nat, nat) {
    if k == 0 || count == 0 {
        (0, INITIAL_GAP as nat)
    } else if (k - 1) / 4 + 1 < count {
        (((k - 1) / 4 + 1) as nat, ((k - 1) % 4) as nat)
    } else {
        (count, 0)
    }
}

/// A recorded stroke is replayed one point every fourth frame, starting with
/// the first frame: frame `k` (counted from 0) replays point `k / 4` when `k`
/// is a multiple of 4 and that point exists, as the start for the first
/// point, the end for the last and a move otherwise; every other frame is
/// idle.
pub proof fn lemma_brush_replay_schedule(count: nat, k: nat)
    ensures
        ({
            let (offset, gap) = brush_state_after(count, k);
            let (next_offset, next_gap, step) = brush_step(count, offset, gap);
            &&& (next_offset, next_gap) == brush_state_after(count, k + 1)
            &&& step == if k % 4 == 0 && k / 4 < count {
                let i = (k / 4) as usize;
                if k == 0 {
                    BrushStep::Start(i)
                } else if k / 4 + 1 < count {
                    BrushStep::Move(i)
                } else {
                    BrushStep::End(i)
                }
            } else {
                BrushStep::Idle
            }
        }),
{
    if k > 0 {
        assert(((k + 1) - 1) / 4 == if (k - 1) % 4 == 3 {
            (k - 1) / 4 + 1
        } else {
            (k - 1) / 4
        });
        assert(((k + 1) - 1) % 4 == if (k - 1) % 4 == 3 {
            0
        } else {
            (k - 1) % 4 + 1
        });
        assert(k % 4 == 0 <==> (k - 1) % 4 == 3);
        assert(k % 4 == 0 ==> k / 4 == (k - 1) / 4 + 1);
    }
}

/// The corner of quad `i` that the `k`-th index of its two triangles names,
/// counted from the quad's first vertex: triangles (0, 1, 2) and (0, 2, 3).
pub open spec fn quad_corner(k: int) -> int {
    if k == 0 || k == 3 {
        0
    } else if k == 1 {
        1
    } else if k == 2 || k == 4 {
        2
    } else {
        3
    }
}

/// The first vertex of quad `i`, as a 16-bit index (the product wraps).
pub open spec fn quad_base(i: int) -> int {
    (4 * i) % 65536
}

/// The triangle indices of `quad_count` quads of four vertices each: quad
/// `i` starts at vertex `4 * i` and is drawn as triangles (0, 1, 2) and
/// (0, 2, 3) of its vertices.
pub fn quad_indices(quad_count: usize) -> (indices: Vec<u16>)
    requires
        quad_count <= usize::MAX / 6,
    ensures
        indices@.len() == 6 * quad_count,
        forall|i: int, k: int|
            0 <= i < quad_count && 0 <= k < 6 ==> #[trigger] indices@[6 * i + k] == quad_base(i)
                + quad_corner(k),
        4 * quad_count <= 65536 ==> forall|i: int, k: int|
            0 <= i < quad_count && 0 <= k < 6 ==> #[trigger] indices@[6 * i + k] == 4 * i
                + quad_corner(k),
{
    let mut indices: Vec<u16> = Vec::new();
    let mut i: usize = 0;
    while i < quad_count
        invariant
            i <= quad_count,
            quad_count <= usize::MAX / 6,
            indices@.len() == 6 * i,
            forall|a: int, k: int|
                0 <= a < i && 0 <= k < 6 ==> #[trigger] indices@[6 * a + k] == quad_base(a)
                    + quad_corner(k),
        decreases quad_count - i,
    {
        let wide: usize = i * 4;
        let base = #[verifier::truncate] (wide as u16);
        assert(base == wide % 65536) by (bit_vector)
            requires
                base == wide as u16,
        ;
        assert(base <= 65532) by (bit_vector)
            requires
                base == wide as u16,
                wide % 4 == 0,
        ;
        let ghost before = indices@;
        indices.push(base);
        indices.push(base + 1);
        indices.push(base + 2);
        indices.push(base);
        indices.push(base + 2);
        indices.push(base + 3);
        assert forall|a: int, k: int| 0 <= a < i + 1 && 0 <= k < 6 implies #[trigger] indices@[6 * a
            + k] == quad_base(a) + quad_corner(k) by {
            if a < i {
                assert(indices@[6 * a + k] == before[6 * a + k]);
            } else {
                assert(6 * a + k == 6 * i + k);
            }
        }
        i = i + 1;
    }
    proof {
        if 4 * quad_count <= 65536 {
            assert forall|i: int, k: int|
                0 <= i < quad_count && 0 <= k < 6 implies #[trigger] indices@[6 * i + k] == 4 * i
                    + quad_corner(k) by {
                lemma_quad_base_exact(quad_count as int, i);
            }
        }
    }
    indices
}

/// Which of the two cross-sections of segment `i` the `k`-th index of the
/// segment names (0 the earlier, 1 the later) and which of its three
/// vertices, for the four triangles that join them.
pub open spec fn strip_corner(k: int) -> (int, int) {
    if k == 0 {
        (0, 0)
    } else if k == 1 {
        (0, 1)
    } else if k == 2 {
        (1, 0)
    } else if k == 3 {
        (1, 0)
    } else if k == 4 {
        (1, 1)
    } else if k == 5 {
        (0, 1)
    } else if k == 6 {
        (1, 1)
    } else if k == 7 {
        (0, 1)
    } else if k == 8 {
        (0, 2)
    } else if k == 9 {
        (1, 1)
    } else if k == 10 {
        (0, 2)
    } else {
        (1, 2)
    }
}

/// The first vertex of cross-section `c` of a strip that starts at vertex
/// `offset` (the product wraps to 16 bits before the offset is added).
pub open spec fn strip_base(offset: u16, c: int) -> int {
    offset + (3 * c) % 65536
}

/// Whether every cross-section of a strip of `point_count` points from
/// `offset` has all three of its vertex indices within 16 bits.
pub open spec fn strip_fits(point_count: usize, offset: u16) -> bool {
    point_count >= 2 ==> forall|c: int| 0 <= c < point_count ==> #[trigger] strip_base(offset, c) + 2 <= u16::MAX
}

/// The triangle indices of a stroke strip over `point_count` points, each a
/// cross-section of three vertices (one edge, the centre, the other edge)
/// starting at vertex `offset + 3 * i`: each pair of consecutive sections is
/// joined by four triangles.
pub fn strip_indices(point_count: usize, index_offset: u16) -> (indices: Vec<u16>)
    requires
        point_count <= usize::MAX / 12,
        strip_fits(point_count, index_offset),
    ensures
        indices@.len() == if point_count == 0 {
            0
        } else {
            12 * (point_count - 1)
        },
        forall|i: int, k: int|
            1 <= i < point_count && 0 <= k < 12 ==> #[trigger] indices@[12 * (i - 1) + k]
                == strip_base(index_offset, i - 1 + strip_corner(k).0) + strip_corner(k).1,
        index_offset + 3 * point_count <= 65536 ==> forall|i: int, k: int|
            1 <= i < point_count && 0 <= k < 12 ==> #[trigger] indices@[12 * (i - 1) + k]
                == index_offset + 3 * (i - 1 + strip_corner(k).0) + strip_corner(k).1,
{
    let mut indices: Vec<u16> = Vec::new();
    let mut i: usize = 1;
    while i < point_count
        invariant
            1 <= i,
            i <= point_count || point_count == 0,
            point_count == 0 ==> i == 1,
            point_count <= usize::MAX / 12,
            strip_fits(point_count, index_offset),
            indices@.len() == 12 * (i - 1),
            forall|a: int, k: int|
                1 <= a < i && 0 <= k < 12 ==> #[trigger] indices@[12 * (a - 1) + k] == strip_base(
                    index_offset,
                    a - 1 + strip_corner(k).0,
                ) + strip_corner(k).1,
        decreases point_count - i,
    {
        let wide_last: usize = (i - 1) * 3;
        let wide_cur: usize = i * 3;
        let l16 = #[verifier::truncate] (wide_last as u16);
        let c16 = #[verifier::truncate] (wide_cur as u16);
        assert(l16 == wide_last % 65536) by (bit_vector)
            requires
                l16 == wide_last as u16,
        ;
        assert(c16 == wide_cur % 65536) by (bit_vector)
            requires
                c16 == wide_cur as u16,
        ;
        assert(strip_base(index_offset, i - 1) + 2 <= u16::MAX);
        assert(strip_base(index_offset, i as int) + 2 <= u16::MAX);
        let last = index_offset + l16;
        let cur = index_offset + c16;
        let ghost before = indices@;
        indices.push(last);
        indices.push(last + 1);
        indices.push(cur);
        indices.push(cur);
        indices.push(cur + 1);
        indices.push(last + 1);
        indices.push(cur + 1);
        indices.push(last + 1);
        indices.push(last + 2);
        indices.push(cur + 1);
        indices.push(last + 2);
        indices.push(cur + 2);
        assert forall|a: int, k: int| 1 <= a < i + 1 && 0 <= k < 12 implies #[trigger] indices@[12
            * (a - 1) + k] == strip_base(index_offset, a - 1 + strip_corner(k).0)
            + strip_corner(k).1 by {
            if a < i {
                assert(indices@[12 * (a - 1) + k] == before[12 * (a - 1) + k]);
            } else {
                assert(12 * (a - 1) + k == 12 * (i - 1) + k);
            }
        }
        i = i + 1;
    }
    assert(point_count >= 1 ==> i == point_count);
    assert(point_count >= 1 ==> indices@.len() == 12 * (point_count - 1));
    assert(point_count == 0 ==> indices@.len() == 0);
    proof {
        if index_offset + 3 * point_count <= 65536 {
            assert forall|i: int, k: int|
                1 <= i < point_count && 0 <= k < 12 implies #[trigger] indices@[12 * (i - 1) + k]
                    == index_offset + 3 * (i - 1 + strip_corner(k).0) + strip_corner(k).1 by {
                lemma_strip_base_exact(point_count as int, index_offset, i - 1 + strip_corner(k).0);
            }
        }
    }
    indices
}

/// Every index of `quad_count` quads names one of their `4 * quad_count`
/// vertices while those fit in 16 bits.
pub proof fn lemma_quad_indices_in_range(quad_count: int, i: int, k: int)
    requires
        4 * quad_count <= 65536,
        0 <= i < quad_count,
        0 <= k < 6,
    ensures
        0 <= quad_base(i) + quad_corner(k) < 4 * quad_count,
{
}

/// Every index of a strip of `point_count` points from `offset` names one of
/// its `3 * point_count` vertices while those fit in 16 bits.
pub proof fn lemma_strip_indices_in_range(point_count: int, offset: u16, i: int, k: int)
    requires
        offset + 3 * point_count <= 65536,
        1 <= i < point_count,
        0 <= k < 12,
    ensures
        offset <= strip_base(offset, i - 1 + strip_corner(k).0) + strip_corner(k).1 < offset + 3
            * point_count,
{
}

/// While a strip's vertices fit in 16 bits, cross-section `c` starts at
/// vertex `offset + 3 * c`: consecutive sections are three vertices apart and
/// nothing wraps.
pub proof fn lemma_strip_base_exact(point_count: int, offset: u16, c: int)
    requires
        offset + 3 * point_count <= 65536,
        0 <= c < point_count,
    ensures
        strip_base(offset, c) == offset + 3 * c,
{
}

/// While the vertices of the quads fit in 16 bits, quad `i` starts at vertex
/// `4 * i`.
pub proof fn lemma_quad_base_exact(quad_count: int, i: int)
    requires
        4 * quad_count <= 65536,
        0 <= i < quad_count,
    ensures
        quad_base(i) == 4 * i,
{
}

/// The corners of triangle `tri` (0 to 3) among the twelve indices that join
/// two cross-sections of a strip.
pub open spec fn strip_triangle(tri: int) -> ((int, int), (int, int), (int, int)) {
    (strip_corner(3 * tri), strip_corner(3 * tri + 1), strip_corner(3 * tri + 2))
}

/// Whether vertex `v` of section `side` is a corner of one of the four
/// triangles that join two cross-sections.
pub open spec fn strip_uses(side: int, v: int) -> bool {
    exists|k: int| 0 <= k < 12 && #[trigger] strip_corner(k) == (side, v)
}

/// Whether corner `v` of a quad is a corner of one of its two triangles.
pub open spec fn quad_uses(v: int) -> bool {
    exists|k: int| 0 <= k < 6 && #[trigger] quad_corner(k) == v
}

/// The four triangles that join two cross-sections of a strip: each has
/// three distinct corners and touches both sections, together they use all
/// six vertices of the two sections, and every corner is one of the three
/// vertices of its section.
pub proof fn lemma_strip_triangles()
    ensures
        forall|k: int|
            0 <= k < 12 ==> 0 <= #[trigger] strip_corner(k).0 <= 1 && 0 <= strip_corner(k).1 <= 2,
        forall|tri: int|
            0 <= tri < 4 ==> {
                let (a, b, c) = #[trigger] strip_triangle(tri);
                &&& a != b && b != c && a != c
                &&& !(a.0 == b.0 && b.0 == c.0)
            },
        forall|side: int, v: int| 0 <= side <= 1 && 0 <= v <= 2 ==> #[trigger] strip_uses(side, v),
{
    assert forall|side: int, v: int| 0 <= side <= 1 && 0 <= v <= 2 implies #[trigger] strip_uses(
        side,
        v,
    ) by {
        if side == 0 && v == 0 {
            assert(strip_corner(0) == (side, v));
        } else if side == 0 && v == 1 {
            assert(strip_corner(1) == (side, v));
        } else if side == 0 && v == 2 {
            assert(strip_corner(8) == (side, v));
        } else if side == 1 && v == 0 {
            assert(strip_corner(2) == (side, v));
        } else if side == 1 && v == 1 {
            assert(strip_corner(4) == (side, v));
        } else {
            assert(strip_corner(11) == (side, v));
        }
    }
}

/// The two triangles of a quad: each has three distinct corners, they share
/// the diagonal from corner 0 to corner 2, and together they use all four
/// corners.
pub proof fn lemma_quad_triangles()
    ensures
        forall|k: int| 0 <= k < 6 ==> 0 <= #[trigger] quad_corner(k) <= 3,
        quad_corner(0) != quad_corner(1) && quad_corner(1) != quad_corner(2) && quad_corner(0)
            != quad_corner(2),
        quad_corner(3) != quad_corner(4) && quad_corner(4) != quad_corner(5) && quad_corner(3)
            != quad_corner(5),
        quad_corner(0) == 0 && quad_corner(3) == 0 && quad_corner(2) == 2 && quad_corner(4) == 2,
        forall|v: int| 0 <= v <= 3 ==> #[trigger] quad_uses(v),
{
    assert forall|v: int| 0 <= v <= 3 implies #[trigger] quad_uses(v) by {
        if v == 0 {
            assert(quad_corner(0) == v);
        } else if v == 1 {
            assert(quad_corner(1) == v);
        } else if v == 2 {
            assert(quad_corner(2) == v);
        } else {
            assert(quad_corner(5) == v);
        }
    }
}

} // verus!
