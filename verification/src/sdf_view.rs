//! The frame logic of the SDF text view: when it clears the screen, builds
//! its GPU nodes, computes the distance field and draws.
use vstd::prelude::*;

verus! {

/// What the view does in one frame.
#[derive(Clone, Copy, Debug, PartialEq, Eq, Structural)]
pub enum FrameAction {
    /// Nothing.
    Idle,
    /// Draw the clear-color pass.
    ClearColor,
    /// Load the bundled image and build the compute and render nodes, with an
    /// edge detection stage when `auto_detect` holds.
    CreateNodes { auto_detect: bool },
    /// Draw the text; before it, run the distance field compute when
    /// `compute` holds and the edge detection first when `detect_edges`
    /// holds.
    Draw { compute: bool, detect_edges: bool },
}

/// The abstract state of the view.
pub struct SdfViewModel {
    pub image: Option<Seq<char>>,
    pub need_clear_color: bool,
    pub clear_count: nat,
    pub has_nodes: bool,
    pub has_edge_detection: bool,
    pub need_cal_sdf: bool,
    pub need_draw: bool,
    pub draw_count: nat,
    pub need_auto_detect: bool,
}

/// Frames drawn after the distance field changed before the view goes idle.
pub const DRAW_FRAMES: u8 = 3;

/// Frames of the clear pass drawn before an image is bundled.
pub const CLEAR_FRAMES: u8 = 3;

/// The states the view can reach: fewer than three frames into a drawing
/// cycle and at the start of one when nothing is to be drawn, at most three
/// clear passes and none once an image is bundled, an image whenever
/// something is to be drawn or nodes exist, and a pending distance field only
/// while a draw with nodes is pending.
pub open spec fn view_wf(m: SdfViewModel) -> bool {
    &&& m.draw_count < DRAW_FRAMES
    &&& !m.need_draw ==> m.draw_count == 0
    &&& m.clear_count <= CLEAR_FRAMES
    &&& m.image is Some ==> !m.need_clear_color
    &&& m.need_draw ==> m.image is Some
    &&& m.has_nodes ==> m.image is Some
    &&& m.need_cal_sdf ==> m.need_draw && m.has_nodes
}

/// Whether the next frame would run an edge detection stage that was never
/// built (the image was bundled for edge detection after the nodes were
/// built without it).
pub open spec fn frame_misses_edge_detection(m: SdfViewModel) -> bool {
    m.need_draw && m.has_nodes && m.need_cal_sdf && m.need_auto_detect && !m.has_edge_detection
}

/// One frame: the next state and the frame's action.
pub open spec fn frame_step(m: SdfViewModel) -> (SdfViewModel, FrameAction) {
    if !m.need_draw {
        if m.need_clear_color && m.clear_count < CLEAR_FRAMES {
            (SdfViewModel { clear_count: m.clear_count + 1, ..m }, FrameAction::ClearColor)
        } else {
            (m, FrameAction::Idle)
        }
    } else if m.has_nodes {
        let compute = m.need_cal_sdf;
        let next_count = m.draw_count + 1;
        (
            SdfViewModel {
                need_cal_sdf: false,
                need_draw: next_count != DRAW_FRAMES,
                draw_count: if next_count == DRAW_FRAMES {
                    0
                } else {
                    next_count
                },
                ..m
            },
            FrameAction::Draw { compute, detect_edges: compute && m.need_auto_detect },
        )
    } else {
        (
            SdfViewModel {
                has_nodes: true,
                has_edge_detection: m.need_auto_detect,
                need_cal_sdf: true,
                draw_count: 0,
                need_draw: true,
                ..m
            },
            FrameAction::CreateNodes { auto_detect: m.need_auto_detect },
        )
    }
}

/// The state after bundling `path`, with or without edge detection.
pub open spec fn bundle_step(m: SdfViewModel, path: Seq<char>, auto_detect: bool) -> SdfViewModel {
    SdfViewModel {
        need_clear_color: false,
        image: Some(path),
        need_draw: true,
        need_auto_detect: auto_detect,
        ..m
    }
}

/// The state after the view was resized or rescaled: a redraw when nodes
/// exist.
pub open spec fn redraw_step(m: SdfViewModel) -> SdfViewModel {
    if m.has_nodes {
        SdfViewModel { need_draw: true, ..m }
    } else {
        m
    }
}

/// The decisions of the SDF text view.
pub struct SDFTextView {
    image: Option<String>,
    need_clear_color: bool,
    clear_count: u8,
    has_nodes: bool,
    has_edge_detection: bool,
    need_cal_sdf: bool,
    need_draw: bool,
    draw_count: u8,
    need_auto_detect: bool,
}

impl View for SDFTextView {
    type V = SdfViewModel;

    closed spec fn view(&self) -> SdfViewModel {
        SdfViewModel {
            image: match self.image {
                Some(s) => Some(s@),
                None => None,
            },
            need_clear_color: self.need_clear_color,
            clear_count: self.clear_count as nat,
            has_nodes: self.has_nodes,
            has_edge_detection: self.has_edge_detection,
            need_cal_sdf: self.need_cal_sdf,
            need_draw: self.need_draw,
            draw_count: self.draw_count as nat,
            need_auto_detect: self.need_auto_detect,
        }
    }
}

impl SDFTextView {
    #[verifier::type_invariant]
    spec fn inv(self) -> bool {
        view_wf(self@)
    }

    /// A view with no image that clears the screen.
    pub fn new() -> (v: Self)
        ensures
            v@ == (SdfViewModel {
                image: None,
                need_clear_color: true,
                clear_count: 0,
                has_nodes: false,
                has_edge_detection: false,
                need_cal_sdf: false,
                need_draw: false,
                draw_count: 0,
                need_auto_detect: false,
            }),
    {
        SDFTextView {
            image: None,
            need_clear_color: true,
            clear_count: 0,
            has_nodes: false,
            has_edge_detection: false,
            need_cal_sdf: false,
            need_draw: false,
            draw_count: 0,
            need_auto_detect: false,
        }
    }

    /// The bundled image, if any.
    pub fn image(&self) -> (path: Option<&str>)
        ensures
            match path {
                Some(p) => self@.image == Some(p@),
                None => self@.image is None,
            },
    {
        match &self.image {
            Some(s) => Some(s.as_str()),
            None => None,
        }
    }

    /// Shows the image at `path`, finding its edges first when
    /// `need_auto_detect` holds; stops clearing the screen and asks for a draw.
    pub fn bundle_image(&mut self, path: String, need_auto_detect: bool)
        ensures
            final(self)@ == bundle_step(old(self)@, path@, need_auto_detect),
            view_wf(final(self)@),
    {
        proof {
            use_type_invariant(&*self);
        }
        self.need_clear_color = false;
        self.image = Some(path);
        self.need_draw = true;
        self.need_auto_detect = need_auto_detect;
    }

    /// Whether the next frame would run an edge detection stage that was
    /// never built.
    pub fn misses_edge_detection(&self) -> (r: bool)
        ensures
            r == frame_misses_edge_detection(self@),
    {
        self.need_draw && self.has_nodes && self.need_cal_sdf && self.need_auto_detect
            && !self.has_edge_detection
    }

    /// Decides what the next frame does and advances the state.
    pub fn enter_frame(&mut self) -> (action: FrameAction)
        requires
            !frame_misses_edge_detection(old(self)@),
        ensures
            (final(self)@, action) == frame_step(old(self)@),
            view_wf(old(self)@),
            view_wf(final(self)@),
    {
        proof {
            use_type_invariant(&*self);
        }
        if !self.need_draw {
            if self.need_clear_color && self.clear_count < CLEAR_FRAMES {
                self.clear_count = self.clear_count + 1;
                return FrameAction::ClearColor;
            }
            return FrameAction::Idle;
        }
        if self.has_nodes {
            let compute = self.need_cal_sdf;
            let detect_edges = compute && self.need_auto_detect;
            self.need_cal_sdf = false;
            let next_count = self.draw_count + 1;
            if next_count == DRAW_FRAMES {
                self.draw_count = 0;
                self.need_draw = false;
            } else {
                self.draw_count = next_count;
            }
            FrameAction::Draw { compute, detect_edges }
        } else {
            self.has_nodes = true;
            self.has_edge_detection = self.need_auto_detect;
            self.need_cal_sdf = true;
            self.draw_count = 0;
            self.need_draw = true;
            FrameAction::CreateNodes { auto_detect: self.need_auto_detect }
        }
    }

    /// Asks for a redraw after a resize when nodes exist; says whether it did.
    pub fn resize(&mut self) -> (redraw: bool)
        ensures
            redraw == old(self)@.has_nodes,
            final(self)@ == redraw_step(old(self)@),
            final(self)@ == (SdfViewModel {
                need_draw: old(self)@.need_draw || old(self)@.has_nodes,
                ..old(self)@
            }),
            view_wf(final(self)@),
    {
        proof {
            use_type_invariant(&*self);
        }
        if self.has_nodes {
            self.need_draw = true;
            true
        } else {
            false
        }
    }

    /// Asks for a redraw after a pinch when nodes exist; says whether it did.
    pub fn pintch_changed(&mut self) -> (redraw: bool)
        ensures
            redraw == old(self)@.has_nodes,
            final(self)@ == redraw_step(old(self)@),
            final(self)@ == (SdfViewModel {
                need_draw: old(self)@.need_draw || old(self)@.has_nodes,
                ..old(self)@
            }),
    {
        self.resize()
    }
}

/// Every step of the view keeps it in the states it can reach, and the clear
/// pass runs at most three times in its life: a clear frame raises the count
/// of clears, which no step lowers and which stays at most three.
pub proof fn lemma_view_steps_keep_wf(m: SdfViewModel, path: Seq<char>, auto_detect: bool)
    requires
        view_wf(m),
    ensures
        view_wf(frame_step(m).0),
        view_wf(bundle_step(m, path, auto_detect)),
        view_wf(redraw_step(m)),
        frame_step(m).0.clear_count >= m.clear_count,
        bundle_step(m, path, auto_detect).clear_count == m.clear_count,
        redraw_step(m).clear_count == m.clear_count,
        frame_step(m).1 == FrameAction::ClearColor ==> frame_step(m).0.clear_count == m.clear_count
            + 1 <= CLEAR_FRAMES,
{
}

/// The frames after an image is bundled into a view without nodes: the
/// nodes are built, the distance field is computed with the first of three
/// draws, and then the view stays idle.
pub proof fn lemma_bundle_then_draw_three_times(m: SdfViewModel, path: Seq<char>, auto_detect: bool)
    requires
        view_wf(m),
        !m.has_nodes,
    ensures
        ({
            let m0 = bundle_step(m, path, auto_detect);
            let (m1, a1) = frame_step(m0);
            let (m2, a2) = frame_step(m1);
            let (m3, a3) = frame_step(m2);
            let (m4, a4) = frame_step(m3);
            let (m5, a5) = frame_step(m4);
            &&& a1 == FrameAction::CreateNodes { auto_detect }
            &&& a2 == FrameAction::Draw { compute: true, detect_edges: auto_detect }
            &&& a3 == FrameAction::Draw { compute: false, detect_edges: false }
            &&& a4 == FrameAction::Draw { compute: false, detect_edges: false }
            &&& a5 == FrameAction::Idle
            &&& m5 == m4
            &&& !frame_misses_edge_detection(m1)
        }),
{
}

/// A resize or pinch of an idle view with nodes redraws it in exactly three
/// frames, without recomputing the distance field, and leaves it idle again.
pub proof fn lemma_redraw_draws_three_times(m: SdfViewModel)
    requires
        view_wf(m),
        m.has_nodes,
        !m.need_draw,
    ensures
        ({
            let m0 = redraw_step(m);
            let (m1, a1) = frame_step(m0);
            let (m2, a2) = frame_step(m1);
            let (m3, a3) = frame_step(m2);
            let (m4, a4) = frame_step(m3);
            &&& a1 == FrameAction::Draw { compute: false, detect_edges: false }
            &&& a2 == FrameAction::Draw { compute: false, detect_edges: false }
            &&& a3 == FrameAction::Draw { compute: false, detect_edges: false }
            &&& a4 == FrameAction::Idle
            &&& m3 == m
            &&& !frame_misses_edge_detection(m0)
        }),
{
}

/// A resize or pinch only asks for a redraw: every other part of the state,
/// the pending distance field computation among them, is kept, and a second
/// resize changes nothing more. So the first draw after the nodes are built
/// computes the distance field (with edge detection when asked) whatever
/// resizes come between.
pub proof fn lemma_redraw_keeps_pending_work(m: SdfViewModel)
    requires
        view_wf(m),
    ensures
        redraw_step(m) == (SdfViewModel { need_draw: m.need_draw || m.has_nodes, ..m }),
        redraw_step(redraw_step(m)) == redraw_step(m),
        m.has_nodes && m.need_cal_sdf ==> frame_step(redraw_step(m)).1 == (FrameAction::Draw {
            compute: true,
            detect_edges: m.need_auto_detect,
        }),
        m.need_draw ==> frame_step(redraw_step(m)) == frame_step(m),
{
}

/// What each kind of frame means: the distance field is computed exactly
/// when one is pending and then no longer is, edges are detected only with a
/// computation and only when asked for, nodes are built only when none
/// exist, the screen is cleared only while nothing is to be drawn, and no
/// frame changes the bundled image.
pub proof fn lemma_frame_actions(m: SdfViewModel)
    requires
        view_wf(m),
    ensures
        frame_step(m).0.image == m.image,
        frame_step(m).1 matches FrameAction::Draw { compute, detect_edges } ==> compute
            == m.need_cal_sdf && detect_edges == (compute && m.need_auto_detect)
            && !frame_step(m).0.need_cal_sdf && m.has_nodes,
        frame_step(m).1 is CreateNodes ==> !m.has_nodes && m.need_draw && frame_step(m).0.has_nodes
            && frame_step(m).0.need_cal_sdf,
        frame_step(m).1 is ClearColor ==> !m.need_draw && m.need_clear_color,
        (frame_step(m).1 is Idle) <==> (!m.need_draw && !(m.need_clear_color && m.clear_count
            < CLEAR_FRAMES)),
        (frame_step(m).1 is Idle) ==> frame_step(m).0 == m,
{
}

} // verus!
