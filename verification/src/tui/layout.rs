//! Where the panes lie on the screen.
//!
//! A wide screen has a list of devices, details and logs side by side. A narrow
//! one drops panes rather than squeeze them into slivers.
use vstd::prelude::*;

use crate::tui::screen::Rect;

verus! {

/// Smallest width that the panes are drawn in.
pub const MIN_WIDTH: u16 = 52;

/// Smallest height that the panes are drawn in.
pub const MIN_HEIGHT: u16 = 10;

/// Whether an area is cut into columns or into rows.
#[derive(Debug, Clone, Copy, PartialEq, Eq, Structural)]
pub enum Axis {
    Horizontal,
    Vertical,
}

/// The wanted size of a part of an area.
#[derive(Debug, Clone, Copy, PartialEq, Eq, Structural)]
pub enum Constraint {
    /// That many cells.
    Length(u16),
    /// At least that many cells.
    Min(u16),
    /// That many hundredths of the area.
    Percentage(u16),
}

/// Whether `ratatui`'s layout may cut an area into these parts. Where the wanted
/// sizes cannot all be had, its documentation leaves open which way it decides.
pub uninterp spec fn may_split(
    axis: Axis,
    constraints: Seq<Constraint>,
    area: Rect,
    parts: Seq<Rect>,
) -> bool;

/// What every part has, whatever the sizes: all of the area in the other
/// direction.
pub open spec fn spans_area(axis: Axis, area: Rect, part: Rect) -> bool {
    match axis {
        Axis::Horizontal => part.y == area.y && part.height == area.height,
        Axis::Vertical => part.x == area.x && part.width == area.width,
    }
}

/// Calls `ratatui::layout::Layout::split` on an area with wanted sizes in one
/// direction. The parts are as many as the sizes; each lies within the area, which
/// the solver has among its required constraints, and has all of it in the other
/// direction. Which sizes the solver gives where they cannot all be had is left open,
/// and so is whether parts overlap then.
#[verifier::external_body]
pub(crate) fn split(axis: Axis, constraints: &Vec<Constraint>, area: Rect) -> (r: Vec<Rect>)
    requires
        area.fits(),
        constraints@.len() > 0,
    ensures
        may_split(axis, constraints@, area, r@),
        r@.len() == constraints@.len(),
        forall|i: int| 0 <= i < r@.len() ==> spans_area(axis, area, #[trigger] r@[i]),
        forall|i: int| 0 <= i < r@.len() ==> (#[trigger] r@[i]).within(area),
{
    let direction = match axis {
        Axis::Horizontal => ratatui::layout::Direction::Horizontal,
        Axis::Vertical => ratatui::layout::Direction::Vertical,
    };
    let sizes = constraints.iter().map(|c| match c {
        Constraint::Length(n) => ratatui::layout::Constraint::Length(*n),
        Constraint::Min(n) => ratatui::layout::Constraint::Min(*n),
        Constraint::Percentage(n) => ratatui::layout::Constraint::Percentage(*n),
    });
    let whole = ratatui::layout::Rect::new(area.x, area.y, area.width, area.height);
    let parts = ratatui::layout::Layout::new(direction, sizes).split(whole);
    parts.iter().map(|p| Rect { x: p.x, y: p.y, width: p.width, height: p.height }).collect()
}

// ---------------------------------------------------------------------------
// Panes
// ---------------------------------------------------------------------------

/// The areas of the panes.
#[derive(Debug, Clone, Copy, PartialEq, Eq, Structural)]
pub struct Rects {
    pub top: Rect,
    pub list: Rect,
    pub details: Option<Rect>,
    pub logs: Option<Rect>,
    pub activity: Rect,
    pub status: Rect,
}

/// The height of the activity history on a screen.
pub open spec fn activity_rows(height: u16) -> u16 {
    if height >= 30 {
        6
    } else if height >= 20 {
        4
    } else if height >= 14 {
        2
    } else {
        1
    }
}

/// The wanted heights from top to bottom: heading, panes, activity and status.
pub open spec fn row_sizes(height: u16) -> Seq<Constraint> {
    seq![
        Constraint::Length(2),
        Constraint::Min(3),
        Constraint::Length(activity_rows(height)),
        Constraint::Length(1),
    ]
}

/// The wanted heights from top to bottom.
pub fn row_constraints(height: u16) -> (r: Vec<Constraint>)
    ensures
        r@ == row_sizes(height),
{
    let activity: u16 = if height >= 30 {
        6
    } else if height >= 20 {
        4
    } else if height >= 14 {
        2
    } else {
        1
    };
    let r = vec![
        Constraint::Length(2),
        Constraint::Min(3),
        Constraint::Length(activity),
        Constraint::Length(1),
    ];
    assert(r@ =~= row_sizes(height));
    r
}

/// The wanted widths of the panes: list, details and logs, as far as there is room
/// for them. Without details the list has all of the width.
pub open spec fn column_sizes(width: u16) -> Seq<Constraint> {
    if width >= 110 {
        seq![Constraint::Min(44), Constraint::Length(42), Constraint::Min(20)]
    } else if width >= 78 {
        seq![Constraint::Min(30), Constraint::Length(42)]
    } else {
        Seq::empty()
    }
}

/// The wanted widths of the panes.
pub fn column_constraints(width: u16) -> (r: Vec<Constraint>)
    ensures
        r@ == column_sizes(width),
{
    let r = if width >= 110 {
        vec![Constraint::Min(44), Constraint::Length(42), Constraint::Min(20)]
    } else if width >= 78 {
        vec![Constraint::Min(30), Constraint::Length(42)]
    } else {
        Vec::new()
    };
    assert(r@ =~= column_sizes(width));
    r
}

/// The panes in rows and columns.
pub open spec fn placed(rows: Seq<Rect>, columns: Seq<Rect>) -> Rects {
    Rects {
        top: rows[0],
        list: if columns.len() > 0 {
            columns[0]
        } else {
            rows[1]
        },
        details: if columns.len() > 1 {
            Some(columns[1])
        } else {
            None
        },
        logs: if columns.len() > 2 {
            Some(columns[2])
        } else {
            None
        },
        activity: rows[2],
        status: rows[3],
    }
}

/// The panes in rows and columns.
pub fn place(rows: &Vec<Rect>, columns: &Vec<Rect>) -> (r: Rects)
    requires
        rows@.len() == 4,
    ensures
        r == placed(rows@, columns@),
{
    Rects {
        top: rows[0],
        list: if columns.len() > 0 {
            columns[0]
        } else {
            rows[1]
        },
        details: if columns.len() > 1 {
            Some(columns[1])
        } else {
            None
        },
        logs: if columns.len() > 2 {
            Some(columns[2])
        } else {
            None
        },
        activity: rows[2],
        status: rows[3],
    }
}

/// Whether the panes of a screen may lie so.
pub open spec fn may_lie(area: Rect, rects: Rects) -> bool {
    exists|rows: Seq<Rect>, columns: Seq<Rect>|
        {
            &&& #[trigger] may_split(Axis::Vertical, row_sizes(area.height), area, rows)
            &&& if area.width >= 78 {
                may_split(Axis::Horizontal, column_sizes(area.width), rows[1], columns)
            } else {
                columns.len() == 0
            }
            &&& rects == #[trigger] placed(rows, columns)
        }
}

impl Rects {
    /// Whether every pane lies within an area.
    pub open spec fn within(self, area: Rect) -> bool {
        &&& self.top.within(area)
        &&& self.list.within(area)
        &&& self.details matches Some(r) ==> r.within(area)
        &&& self.logs matches Some(r) ==> r.within(area)
        &&& self.activity.within(area)
        &&& self.status.within(area)
    }
}

/// The areas of the panes, all of them on the screen. There are details from 78
/// columns on, and logs from 110; heading, activity and status have all of the width.
pub fn compute_layout(area: Rect) -> (r: Rects)
    requires
        area.fits(),
    ensures
        may_lie(area, r),
        r.within(area),
        r.details is Some <==> area.width >= 78,
        r.logs is Some <==> area.width >= 110,
        spans_area(Axis::Vertical, area, r.top),
        spans_area(Axis::Vertical, area, r.activity),
        spans_area(Axis::Vertical, area, r.status),
{
    let rows = split(Axis::Vertical, &row_constraints(area.height), area);
    assert(rows@.len() == 4);
    assert(spans_area(Axis::Vertical, area, rows@[0]) && rows@[0].within(area));
    assert(spans_area(Axis::Vertical, area, rows@[1]) && rows@[1].within(area));
    assert(spans_area(Axis::Vertical, area, rows@[2]) && rows@[2].within(area));
    assert(spans_area(Axis::Vertical, area, rows@[3]) && rows@[3].within(area));
    let main = rows[1];
    let sizes = column_constraints(main.width);
    let columns = if main.width >= 78 {
        split(Axis::Horizontal, &sizes, main)
    } else {
        Vec::new()
    };
    let r = place(&rows, &columns);
    proof {
        assert(r == placed(rows@, columns@));
        if main.width >= 78 {
            assert(columns@[0].within(main));
            assert(columns@[1].within(main));
            if main.width >= 110 {
                assert(columns@[2].within(main));
            }
        }
    }
    r
}

// ---------------------------------------------------------------------------
// Headings
// ---------------------------------------------------------------------------

/// A pane: its heading, when there is room for one, and what is below.
#[derive(Debug, Clone, Copy, PartialEq, Eq, Structural)]
pub struct Pane {
    pub head: Option<Rect>,
    pub body: Rect,
}

/// The wanted heights in a pane: a heading of two rows, and the rest.
pub open spec fn pane_sizes() -> Seq<Constraint> {
    seq![Constraint::Length(2), Constraint::Min(0)]
}

/// Whether a pane may be divided so. A pane of less than three rows has no
/// heading.
pub open spec fn may_be_pane(area: Rect, pane: Pane) -> bool {
    if area.height < 3 {
        pane == (Pane { head: None, body: area })
    } else {
        exists|parts: Seq<Rect>|
            #[trigger] may_split(Axis::Vertical, pane_sizes(), area, parts) && pane == (Pane {
                head: Some(parts[0]),
                body: parts[1],
            })
    }
}

impl Pane {
    /// Whether the far edges can be counted.
    pub open spec fn fits(self) -> bool {
        (self.head matches Some(r) ==> r.fits()) && self.body.fits()
    }

    /// Whether the pane lies within an area.
    pub open spec fn within(self, area: Rect) -> bool {
        (self.head matches Some(r) ==> r.within(area)) && self.body.within(area)
    }
}

/// Divides an area into a heading and what is below.
pub fn divide(area: Rect) -> (r: Pane)
    requires
        area.fits(),
    ensures
        may_be_pane(area, r),
        r.within(area),
        r.head is Some <==> area.height >= 3,
        spans_area(Axis::Vertical, area, r.body),
        r.head matches Some(head) ==> spans_area(Axis::Vertical, area, head),
{
    if area.height < 3 {
        return Pane { head: None, body: area };
    }
    let sizes = vec![Constraint::Length(2), Constraint::Min(0)];
    assert(sizes@ =~= pane_sizes());
    let parts = split(Axis::Vertical, &sizes, area);
    assert(spans_area(Axis::Vertical, area, parts@[0]) && parts@[0].within(area));
    assert(spans_area(Axis::Vertical, area, parts@[1]) && parts@[1].within(area));
    Pane { head: Some(parts[0]), body: parts[1] }
}

/// The panes of a screen.
#[derive(Debug, Clone, Copy, PartialEq, Eq, Structural)]
pub struct Panes {
    pub top: Rect,
    pub list: Pane,
    pub details: Option<Pane>,
    pub logs: Option<Pane>,
    pub activity: Pane,
    pub status: Rect,
}

/// Fewest columns that a row of the list takes.
pub const LIST_COLUMNS: u16 = 20;

impl Panes {
    /// Whether the panes may be divided so.
    pub open spec fn may_divide(self, rects: Rects) -> bool {
        &&& self.top == rects.top
        &&& may_be_pane(rects.list, self.list)
        &&& match (rects.details, self.details) {
            (Some(area), Some(pane)) => may_be_pane(area, pane),
            (None, None) => true,
            _ => false,
        }
        &&& match (rects.logs, self.logs) {
            (Some(area), Some(pane)) => may_be_pane(area, pane),
            (None, None) => true,
            _ => false,
        }
        &&& may_be_pane(rects.activity, self.activity)
        &&& self.status == rects.status
    }

    /// Whether the panes may lie so on a screen.
    pub open spec fn may_lie_on(self, area: Rect) -> bool {
        exists|rects: Rects| #[trigger] may_lie(area, rects) && self.may_divide(rects)
    }

    /// Whether the far edges of every pane can be counted.
    pub open spec fn fit(self) -> bool {
        &&& self.top.fits()
        &&& self.list.fits()
        &&& self.details matches Some(p) ==> p.fits()
        &&& self.logs matches Some(p) ==> p.fits()
        &&& self.activity.fits()
        &&& self.status.fits()
    }

    /// Whether every pane lies within an area.
    pub open spec fn within(self, area: Rect) -> bool {
        &&& self.top.within(area)
        &&& self.list.within(area)
        &&& self.details matches Some(p) ==> p.within(area)
        &&& self.logs matches Some(p) ==> p.within(area)
        &&& self.activity.within(area)
        &&& self.status.within(area)
    }

    /// Whether the panes can be drawn in: their far edges can be counted, and
    /// there is room for a row of the list.
    pub open spec fn drawable(self) -> bool {
        self.fit() && self.list.body.x + LIST_COLUMNS <= u16::MAX
    }

    /// The panes of a screen, all of them on it.
    pub fn of_screen(area: Rect) -> (r: Panes)
        requires
            area.fits(),
        ensures
            r.may_lie_on(area),
            r.within(area),
            r.fit(),
            r.details is Some <==> area.width >= 78,
            r.logs is Some <==> area.width >= 110,
            r.status.width == area.width,
            r.top.width == area.width,
    {
        let rects = compute_layout(area);
        let r = Panes {
            top: rects.top,
            list: divide(rects.list),
            details: match rects.details {
                Some(area) => Some(divide(area)),
                None => None,
            },
            logs: match rects.logs {
                Some(area) => Some(divide(area)),
                None => None,
            },
            activity: divide(rects.activity),
            status: rects.status,
        };
        assert(r.may_divide(rects));
        r
    }
}

/// Wide screens have three columns and narrower ones two or one; of the rows the title has
/// two, the last line one and the list what is left, and the notes get more room on a
/// higher screen.
pub proof fn screens_are_divided_by_their_size(width: u16, height: u16, higher: u16)
    requires
        height <= higher,
    ensures
        width >= 110 ==> column_sizes(width).len() == 3,
        78 <= width < 110 ==> column_sizes(width).len() == 2,
        width < 78 ==> column_sizes(width).len() == 0,
        row_sizes(height).len() == 4,
        row_sizes(height)[0] == Constraint::Length(2),
        row_sizes(height)[1] is Min,
        row_sizes(height)[3] == Constraint::Length(1),
        row_sizes(height)[2] == Constraint::Length(activity_rows(height)),
        1 <= activity_rows(height) <= activity_rows(higher) <= 6,
{
}

} // verus!
