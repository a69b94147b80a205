//! Typed component data attached to entities: grid position, visual
//! appearance, and the role markers that the gameplay rules read.

use vstd::prelude::*;

verus! {

/// Grid cell occupied by an entity, plus its paint-order layer.
///
/// `x` is the column, `y` the row; `z` determines draw order only and plays
/// no part in collision or win evaluation.
#[derive(Clone, Copy, Debug, PartialEq, Eq, Structural)]
pub struct Position {
    pub x: u8,
    pub y: u8,
    pub z: u8,
}

/// The closed set of colors a box or box spot can have.
#[derive(Clone, Copy, Debug, PartialEq, Eq, Structural)]
pub enum BoxColor {
    Red,
    Blue,
}

/// Marker on a movable box entity.
#[derive(Clone, Copy, Debug, PartialEq, Eq, Structural)]
pub struct GameBox {
    pub color: BoxColor,
}

/// Marker on a stationary target cell that a box of matching color must
/// occupy to win.
#[derive(Clone, Copy, Debug, PartialEq, Eq, Structural)]
pub struct BoxSpot {
    pub color: BoxColor,
}

/// The two visual kinds a renderable entity can have.
#[derive(Clone, Copy, Debug, PartialEq, Eq, Structural)]
pub enum RenderableKind {
    /// One fixed image.
    Static,
    /// An ordered sequence of images selected by elapsed time.
    Animated,
}

/// Visual appearance of an entity: either one fixed image path or an ordered
/// sequence of image paths cycled through by elapsed time.
pub enum Renderable {
    Static(String),
    Animated(Vec<String>),
}

/// Mathematical model of a [`Renderable`]: the image paths as char sequences.
pub enum RenderableView {
    Static(Seq<char>),
    Animated(Seq<Seq<char>>),
}

impl View for Renderable {
    type V = RenderableView;

    open spec fn view(&self) -> RenderableView {
        match self {
            Renderable::Static(p) => RenderableView::Static(p@),
            Renderable::Animated(ps) => RenderableView::Animated(
                ps@.map_values(|s: String| s@),
            ),
        }
    }
}

impl RenderableView {
    /// An animated renderable must have at least one frame (so there is
    /// always an image to resolve to) and at most one frame per millisecond
    /// of the one-second animation cycle.
    pub open spec fn wf(self) -> bool {
        match self {
            RenderableView::Static(_) => true,
            RenderableView::Animated(ps) => 1 <= ps.len() <= 1000,
        }
    }

    /// The frame index the animation-frame selector produces after
    /// `elapsed_ms` of simulation time: static renderables always sit on
    /// frame 0; animated ones advance every `1000 / k` milliseconds and wrap
    /// seamlessly at the one-second boundary.
    pub open spec fn frame_index(self, elapsed_ms: u64) -> int {
        match self {
            RenderableView::Static(_) => 0,
            RenderableView::Animated(ps) => (((elapsed_ms as int) % 1000) / (
            1000int / (ps.len() as int))) % (ps.len() as int),
        }
    }

    /// The image path shown after `elapsed_ms` of simulation time.
    pub open spec fn resolve(self, elapsed_ms: u64) -> Seq<char> {
        match self {
            RenderableView::Static(p) => p,
            RenderableView::Animated(ps) => ps[self.frame_index(elapsed_ms)],
        }
    }
}

impl Renderable {
    /// A renderable showing one fixed image.
    pub fn new_static(path: String) -> (r: Renderable)
        ensures
            r@ == RenderableView::Static(path@),
            r@.wf(),
    {
        Renderable::Static(path)
    }

    /// A renderable cycling through `paths` over each second of elapsed time.
    pub fn new_animated(paths: Vec<String>) -> (r: Renderable)
        requires
            1 <= paths@.len() <= 1000,
        ensures
            r@ == RenderableView::Animated(paths@.map_values(|s: String| s@)),
            r@.wf(),
    {
        Renderable::Animated(paths)
    }

    /// Which visual kind this renderable is.
    pub fn kind(&self) -> (k: RenderableKind)
        ensures
            k == RenderableKind::Static <==> self@ is Static,
    {
        match self {
            Renderable::Static(_) => RenderableKind::Static,
            Renderable::Animated(_) => RenderableKind::Animated,
        }
    }

    /// The number of frames this renderable owns.
    pub fn frame_count(&self) -> (n: usize)
        ensures
            match self@ {
                RenderableView::Static(_) => n == 1,
                RenderableView::Animated(ps) => n == ps.len(),
            },
    {
        match self {
            Renderable::Static(_) => 1,
            Renderable::Animated(ps) => ps.len(),
        }
    }

    /// The image path at `index`, wrapping past the end of the frame
    /// sequence so that every index the frame selector can produce is
    /// defined.
    pub fn path(&self, index: usize) -> (r: String)
        requires
            self@.wf(),
        ensures
            match self@ {
                RenderableView::Static(p) => r@ == p,
                RenderableView::Animated(ps) => r@ == ps[(index as int) % (
                ps.len() as int)],
            },
    {
        match self {
            Renderable::Static(p) => p.clone(),
            Renderable::Animated(ps) => {
                let i = index % ps.len();
                assert(ps@.map_values(|s: String| s@)[i as int] == ps@[i as int]@);
                ps[i].clone()
            },
        }
    }
}

} // verus!
