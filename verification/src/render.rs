//! What a frame shows: the panes, their share of the width, and where the
//! layout of the terminal library puts them.

use tui::layout::{Constraint, Direction, Layout, Rect};
use vstd::prelude::*;

verus! {

/// A rectangle of terminal cells.
#[derive(Clone, Copy, Debug, PartialEq, Eq)]
pub struct Area {
    pub x: u16,
    pub y: u16,
    pub width: u16,
    pub height: u16,
}

/// A pane as contracts see it.
pub struct PaneView {
    pub text: Seq<char>,
    pub scroll_offset: nat,
}

/// The text of one pane and the line that stands at its top.
#[derive(Clone, Copy, Debug, PartialEq, Eq)]
pub struct PaneSpec<'a> {
    pub text: &'a str,
    pub scroll_offset: u16,
}

impl<'a> View for PaneSpec<'a> {
    type V = PaneView;

    open spec fn view(&self) -> PaneView {
        PaneView { text: self.text@, scroll_offset: self.scroll_offset as nat }
    }
}

/// The view of a pane that may be left out.
pub open spec fn pane_view(pane: Option<PaneSpec>) -> Option<PaneView> {
    match pane {
        Some(p) => Some(p@),
        None => None,
    }
}

/// A plan as contracts see it.
pub struct RenderPlanView {
    pub left_pane: Option<PaneView>,
    pub right_pane: Option<PaneView>,
    pub left_width_pct: nat,
    pub right_width_pct: nat,
}

/// What to draw: the pane of each side, if it is shown, and the share of
/// the width that each side gets, in percent.
#[derive(Clone, Copy, Debug, PartialEq, Eq)]
pub struct RenderPlan<'a> {
    pub left_pane: Option<PaneSpec<'a>>,
    pub right_pane: Option<PaneSpec<'a>>,
    pub left_width_pct: u16,
    pub right_width_pct: u16,
}

impl<'a> View for RenderPlan<'a> {
    type V = RenderPlanView;

    open spec fn view(&self) -> RenderPlanView {
        RenderPlanView {
            left_pane: pane_view(self.left_pane),
            right_pane: pane_view(self.right_pane),
            left_width_pct: self.left_width_pct as nat,
            right_width_pct: self.right_width_pct as nat,
        }
    }
}

/// A placed pane as contracts see it.
pub struct PlacedPaneView {
    pub pane: PaneView,
    pub area: Area,
}

/// A pane and the cells it is drawn in.
#[derive(Clone, Copy, Debug, PartialEq, Eq)]
pub struct PlacedPane<'a> {
    pub pane: PaneSpec<'a>,
    pub area: Area,
}

impl<'a> View for PlacedPane<'a> {
    type V = PlacedPaneView;

    open spec fn view(&self) -> PlacedPaneView {
        PlacedPaneView { pane: self.pane@, area: self.area }
    }
}

/// The view of a placed pane that may be left out.
pub open spec fn placed_view(pane: Option<PlacedPane>) -> Option<PlacedPaneView> {
    match pane {
        Some(p) => Some(p@),
        None => None,
    }
}

/// A screen as contracts see it.
pub struct ScreenView {
    pub left: Option<PlacedPaneView>,
    pub right: Option<PlacedPaneView>,
}

/// The panes of one frame, each with its place.
#[derive(Clone, Copy, Debug, PartialEq, Eq)]
pub struct Screen<'a> {
    pub left: Option<PlacedPane<'a>>,
    pub right: Option<PlacedPane<'a>>,
}

impl<'a> View for Screen<'a> {
    type V = ScreenView;

    open spec fn view(&self) -> ScreenView {
        ScreenView { left: placed_view(self.left), right: placed_view(self.right) }
    }
}

/// A pane that is shown, at `area`.
pub open spec fn placed_at(pane: Option<PaneView>, area: Area) -> Option<PlacedPaneView> {
    match pane {
        Some(p) => Some(PlacedPaneView { pane: p, area }),
        None => None,
    }
}

impl RenderPlanView {
    /// The screen of this plan on the columns `chunks`: the left pane goes
    /// into the first column, the right pane into the second.
    pub open spec fn place(self, chunks: Seq<Area>) -> ScreenView {
        ScreenView {
            left: placed_at(self.left_pane, chunks[0]),
            right: placed_at(self.right_pane, chunks[1]),
        }
    }

    /// The layout can cut `area` for this plan: the width times each share
    /// and the lower edge stay within sixteen bits.
    pub open spec fn can_split(self, area: Area) -> bool {
        &&& self.left_width_pct * area.width <= u16::MAX
        &&& self.right_width_pct * area.width <= u16::MAX
        &&& area.y + area.height <= u16::MAX
    }
}

/// `Layout::split` of tui, called for a row of two columns whose widths are
/// given in percent. The layout hands back one rectangle for each column.
/// Where the solver behind it puts the border is not stated here. It is not
/// called where a share times the width, or the lower edge of the area, goes
/// past sixteen bits: there it stops the program.
#[verifier::external_body]
fn split_columns(area: Area, left_pct: u16, right_pct: u16) -> (chunks: Vec<Area>)
    requires
        left_pct * area.width <= u16::MAX,
        right_pct * area.width <= u16::MAX,
        area.y + area.height <= u16::MAX,
    ensures
        chunks@.len() == 2,
{
    let rect = Rect { x: area.x, y: area.y, width: area.width, height: area.height };
    let columns = [Constraint::Percentage(left_pct), Constraint::Percentage(right_pct)];
    let rects = Layout::default().direction(Direction::Horizontal).constraints(columns).split(rect);
    rects.iter().map(|r| Area { x: r.x, y: r.y, width: r.width, height: r.height }).collect()
}

/// The product of two sixteen-bit numbers, in full.
fn product(a: u16, b: u16) -> (r: u32)
    ensures
        r == a * b,
{
    assert(a * b <= 0xffff * 0xffff) by (nonlinear_arith)
        requires
            0 <= a <= 0xffff,
            0 <= b <= 0xffff,
    ;
    a as u32 * b as u32
}

/// The pane, if there is one, with its place.
fn placed<'a>(pane: Option<PaneSpec<'a>>, area: Area) -> (r: Option<PlacedPane<'a>>)
    ensures
        placed_view(r) == placed_at(pane_view(pane), area),
{
    match pane {
        Some(p) => Some(PlacedPane { pane: p, area }),
        None => None,
    }
}

impl<'a> RenderPlan<'a> {
    /// Puts the panes of this plan into the columns `chunks`.
    pub fn place(&self, chunks: &Vec<Area>) -> (screen: Screen<'a>)
        requires
            chunks.len() >= 2,
        ensures
            screen@ == self@.place(chunks@),
    {
        Screen {
            left: placed(self.left_pane, chunks[0]),
            right: placed(self.right_pane, chunks[1]),
        }
    }

    /// Whether the layout can cut `area` for this plan.
    pub fn fits(&self, area: Area) -> (r: bool)
        ensures
            r == self@.can_split(area),
    {
        let left: u32 = product(self.left_width_pct, area.width);
        let right: u32 = product(self.right_width_pct, area.width);
        let bottom: u32 = area.y as u32 + area.height as u32;
        left <= 0xffff && right <= 0xffff && bottom <= 0xffff
    }

    /// Cuts `area` into two columns by the shares of this plan and puts the
    /// panes into them.
    pub fn layout(&self, area: Area) -> (screen: Screen<'a>)
        requires
            self@.can_split(area),
        ensures
            exists|chunks: Seq<Area>|
                chunks.len() == 2 && screen@ == #[trigger] self@.place(chunks),
    {
        let chunks = split_columns(area, self.left_width_pct, self.right_width_pct);
        self.place(&chunks)
    }
}

} // verus!
