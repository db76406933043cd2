//! Geometry of the picker panel: its size for a given body, its place in the
//! drawing area, and the bordered inside where content goes.

use ratatui::layout::Rect;
use ratatui::widgets::Block;
use vstd::prelude::*;

verus! {

/// A rectangle of terminal cells.
#[derive(Clone, Copy, Debug, PartialEq, Eq, Structural)]
pub struct Area {
    pub x: u16,
    pub y: u16,
    pub width: u16,
    pub height: u16,
}

/// The area lies within the 16-bit cell coordinates.
pub open spec fn area_fits(a: Area) -> bool {
    a.x + a.width <= u16::MAX && a.y + a.height <= u16::MAX
}

impl Area {
    /// Whether the cell `(x, y)` lies inside the area.
    pub fn contains(&self, x: u16, y: u16) -> (b: bool)
        ensures
            b == (self.x <= x < (if self.x + self.width <= u16::MAX {
                self.x + self.width
            } else {
                u16::MAX as int
            }) && self.y <= y < (if self.y + self.height <= u16::MAX {
                self.y + self.height
            } else {
                u16::MAX as int
            })),
    {
        let right = self.x.saturating_add(self.width);
        let bottom = self.y.saturating_add(self.height);
        self.x <= x && x < right && self.y <= y && y < bottom
    }
}

/// A panel extent: `want` limited to what the area leaves after a one-cell
/// margin on each side, but never below `floor`.
pub open spec fn panel_extent(want: int, area: int, floor: int) -> int {
    let avail = if area >= 2 {
        area - 2
    } else {
        0
    };
    let limited = if want < avail {
        want
    } else {
        avail
    };
    if limited < floor {
        floor
    } else {
        limited
    }
}

/// Width and height of the panel for a body `body_width` columns wide in an
/// area of `area_width` by `area_height` cells: the body plus a border and a
/// one-cell pad on each side (the width counted modulo the cell range, as the
/// terminal coordinates are 16-bit), at least 10 wide; twelve rows, at least
/// six.
pub fn panel_size(body_width: usize, area_width: u16, area_height: u16) -> (res: (u16, u16))
    requires
        (body_width as u16) + 4 <= u16::MAX,
    ensures
        res.0 == panel_extent((body_width as u16) + 4, area_width as int, 10),
        res.1 == panel_extent(12, area_height as int, 6),
{
    let want_w: u16 = body_width as u16 + 4;
    let avail_w = area_width.saturating_sub(2);
    let limited_w = if want_w < avail_w {
        want_w
    } else {
        avail_w
    };
    let width = if limited_w < 10 {
        10
    } else {
        limited_w
    };
    let avail_h = area_height.saturating_sub(2);
    let limited_h: u16 = if 12 < avail_h {
        12
    } else {
        avail_h
    };
    let height = if limited_h < 6 {
        6
    } else {
        limited_h
    };
    (width, height)
}

/// The panel is as wide as the body plus border and pad (at least 10 cells)
/// and 12 rows tall (at least 6) whenever the area, less a one-cell margin on
/// each side, has room for that; otherwise it is cut down to that room, but
/// never below 10 by 6. It is never wider than the body needs nor taller than
/// 12 rows.
pub proof fn lemma_panel_size_fits(body_width: usize, area_width: u16, area_height: u16)
    requires
        (body_width as u16) + 4 <= u16::MAX,
    ensures
        ({
            let want = (body_width as u16) + 4;
            let w = panel_extent(want, area_width as int, 10);
            let need = if want < 10 {
                10
            } else {
                want as int
            };
            &&& 10 <= w <= need
            &&& area_width >= want + 2 ==> w == need
            &&& area_width < want + 2 ==> w == (if area_width >= 12 {
                area_width - 2
            } else {
                10
            })
        }),
        ({
            let h = panel_extent(12, area_height as int, 6);
            &&& 6 <= h <= 12
            &&& area_height >= 14 ==> h == 12
            &&& area_height < 14 ==> h == (if area_height >= 8 {
                area_height - 2
            } else {
                6
            })
        }),
{
}

/// `width` by `height` cells (cut down to the area) centred in `area`.
pub open spec fn centered(width: u16, height: u16, area: Area) -> Area {
    let w = if width < area.width {
        width
    } else {
        area.width
    };
    let h = if height < area.height {
        height
    } else {
        area.height
    };
    Area {
        x: (area.x + (area.width - w) / 2) as u16,
        y: (area.y + (area.height - h) / 2) as u16,
        width: w,
        height: h,
    }
}

/// A `width` by `height` panel (cut down to the area) centred in `area`.
pub fn centered_area(width: u16, height: u16, area: Area) -> (res: Area)
    requires
        area_fits(area),
    ensures
        res == centered(width, height, area),
        area_fits(res),
        area.x <= res.x,
        res.x + res.width <= area.x + area.width,
        area.y <= res.y,
        res.y + res.height <= area.y + area.height,
{
    let w = if width < area.width {
        width
    } else {
        area.width
    };
    let h = if height < area.height {
        height
    } else {
        area.height
    };
    Area { x: area.x + (area.width - w) / 2, y: area.y + (area.height - h) / 2, width: w, height: h }
}

/// A centred panel is as large as asked, cut down to the area, and its
/// margins left and right (and above and below) differ by at most one cell,
/// the extra cell going right (below).
pub proof fn lemma_centered(width: u16, height: u16, area: Area)
    requires
        area_fits(area),
    ensures
        ({
            let p = centered(width, height, area);
            &&& p.width == (if width <= area.width {
                width
            } else {
                area.width
            })
            &&& p.height == (if height <= area.height {
                height
            } else {
                area.height
            })
            &&& area.x <= p.x
            &&& area.y <= p.y
            &&& 0 <= (area.x + area.width - (p.x + p.width)) - (p.x - area.x) <= 1
            &&& 0 <= (area.y + area.height - (p.y + p.height)) - (p.y - area.y) <= 1
        }),
{
}

/// The inside of `a` once a one-cell border is drawn on all four sides.
pub open spec fn border_inset(a: Area) -> Area {
    Area {
        x: if a.width == 0 {
            a.x
        } else {
            (a.x + 1) as u16
        },
        y: if a.height == 0 {
            a.y
        } else {
            (a.y + 1) as u16
        },
        width: if a.width >= 2 {
            (a.width - 2) as u16
        } else {
            0
        },
        height: if a.height >= 2 {
            (a.height - 2) as u16
        } else {
            0
        },
    }
}

/// The inner area of a ratatui `Block` with borders on all sides
/// (`Block::bordered().inner`), drawn over `area`. The contract claims what
/// ratatui's source computes for a block with all borders and no padding: the
/// area shrunk by one cell on each side, never below zero width or height.
#[verifier::external_body]
fn bordered_inner(area: Area) -> (inner: Area)
    requires
        area_fits(area),
    ensures
        inner == border_inset(area),
{
    let r = Block::bordered().inner(Rect::new(area.x, area.y, area.width, area.height));
    Area { x: r.x, y: r.y, width: r.width, height: r.height }
}

/// The panel and the inside of its border.
#[derive(Clone, Copy, Debug)]
pub struct PanelGeometry {
    pub panel: Area,
    pub inner: Area,
}

/// Where the picker panel for a body `body_width` columns wide goes in
/// `area`: sized by `panel_size`, centred, and with its bordered inside.
pub fn panel_geometry(body_width: usize, area: Area) -> (g: PanelGeometry)
    requires
        (body_width as u16) + 4 <= u16::MAX,
        area_fits(area),
    ensures
        g.panel == centered(
            panel_extent((body_width as u16) + 4, area.width as int, 10) as u16,
            panel_extent(12, area.height as int, 6) as u16,
            area,
        ),
        g.inner == border_inset(g.panel),
{
    let (width, height) = panel_size(body_width, area.width, area.height);
    let panel = centered_area(width, height, area);
    let inner = bordered_inner(panel);
    PanelGeometry { panel, inner }
}

} // verus!
