//! Where the gamepad overview places its control clusters in a terminal area.

use vstd::prelude::*;
use crate::text::{chars_of, string_from_chars};

verus! {

/// A rectangle of terminal cells.
#[derive(Debug, Clone, Copy, PartialEq, Eq, Structural)]
pub struct Rect {
    pub x: u16,
    pub y: u16,
    pub width: u16,
    pub height: u16,
}

impl Rect {
    /// The rectangle lies within the coordinate range: its right and bottom edges fit in `u16`.
    pub open spec fn wf(self) -> bool {
        self.x + self.width <= u16::MAX && self.y + self.height <= u16::MAX
    }

    /// The column just right of the rectangle.
    pub open spec fn spec_right(self) -> u16 {
        if self.x + self.width > u16::MAX {
            u16::MAX
        } else {
            (self.x + self.width) as u16
        }
    }

    /// The row just below the rectangle.
    pub open spec fn spec_bottom(self) -> u16 {
        if self.y + self.height > u16::MAX {
            u16::MAX
        } else {
            (self.y + self.height) as u16
        }
    }

    /// The rectangle at (`x`, `y`) of the given size, shrunk so that it stays inside the
    /// coordinate range.
    pub open spec fn spec_new(x: u16, y: u16, width: u16, height: u16) -> Rect {
        Rect {
            x,
            y,
            width: if width > u16::MAX - x {
                (u16::MAX - x) as u16
            } else {
                width
            },
            height: if height > u16::MAX - y {
                (u16::MAX - y) as u16
            } else {
                height
            },
        }
    }

    /// The rectangle at (`x`, `y`) of the given size, shrunk so that it stays inside the
    /// coordinate range.
    pub fn new(x: u16, y: u16, width: u16, height: u16) -> (rect: Rect)
        ensures
            rect == Rect::spec_new(x, y, width, height),
            rect.wf(),
    {
        let max_width = u16::MAX - x;
        let max_height = u16::MAX - y;
        Rect {
            x,
            y,
            width: if width > max_width {
                max_width
            } else {
                width
            },
            height: if height > max_height {
                max_height
            } else {
                height
            },
        }
    }

    /// Whether the rectangle covers no cell.
    pub fn is_empty(self) -> (empty: bool)
        ensures
            empty == (self.width == 0 || self.height == 0),
    {
        self.width == 0 || self.height == 0
    }

    /// The column just right of the rectangle.
    pub fn right(self) -> (right: u16)
        ensures
            right == self.spec_right(),
    {
        if self.width > u16::MAX - self.x {
            u16::MAX
        } else {
            self.x + self.width
        }
    }

    /// The row just below the rectangle.
    pub fn bottom(self) -> (bottom: u16)
        ensures
            bottom == self.spec_bottom(),
    {
        if self.height > u16::MAX - self.y {
            u16::MAX
        } else {
            self.y + self.height
        }
    }
}

/// An approximate physical location for a control cluster.
#[derive(Debug, Clone, Copy, PartialEq, Eq, Structural)]
pub enum ClusterPlacement {
    Flow,
    LeftShoulder,
    Menu,
    RightShoulder,
    LeftStick,
    Face,
    DPad,
    RightStick,
    Extra,
}

impl Default for ClusterPlacement {
    fn default() -> (placement: Self)
        ensures
            placement == ClusterPlacement::Flow,
    {
        ClusterPlacement::Flow
    }
}

/// The layout policy of the gamepad overview.
#[derive(Debug, Clone, Copy, PartialEq, Eq, Structural)]
pub enum GamepadLayout {
    /// The controller layout when every cluster fits it, otherwise a grid.
    Auto,
    /// Prefers the controller layout and falls back when it cannot fit.
    Controller,
    /// Always a grid.
    Grid,
}

impl Default for GamepadLayout {
    fn default() -> (layout: Self)
        ensures
            layout == GamepadLayout::Auto,
    {
        GamepadLayout::Auto
    }
}

/// What the layout needs to know of a control cluster.
#[derive(Debug, Clone, Copy, PartialEq, Eq, Structural)]
pub struct ClusterOutline {
    pub placement: ClusterPlacement,
    pub control_count: usize,
    /// The first control of the cluster is an analog stick.
    pub first_is_stick: bool,
}

/// The placement has no standard spot on a controller.
pub open spec fn unplaced(placement: ClusterPlacement) -> bool {
    placement == ClusterPlacement::Flow || placement == ClusterPlacement::Extra
}

/// The cluster's controls fit the drawing of its spot on the controller: a stick spot holds
/// exactly one stick, a diamond (face buttons, d-pad) at most four controls.
pub open spec fn fits_controller_art(cluster: ClusterOutline) -> bool {
    match cluster.placement {
        ClusterPlacement::LeftStick | ClusterPlacement::RightStick => cluster.control_count == 1
            && cluster.first_is_stick,
        ClusterPlacement::DPad | ClusterPlacement::Face => cluster.control_count <= 4,
        _ => true,
    }
}

/// The smallest area the controller drawing needs.
pub const ART_MIN_WIDTH: u16 = 48;

/// The smallest height the controller drawing needs.
pub const ART_MIN_HEIGHT: u16 = 25;

/// The controller drawing can show every cluster: the area is large enough, and each cluster
/// has a standard spot of its own that its controls fit.
pub open spec fn controller_drawable(area: Rect, clusters: Seq<ClusterOutline>) -> bool {
    &&& area.width >= ART_MIN_WIDTH
    &&& area.height >= ART_MIN_HEIGHT
    &&& forall|i: int|
        0 <= i < clusters.len() ==> {
            &&& !unplaced(#[trigger] clusters[i].placement)
            &&& fits_controller_art(clusters[i])
            &&& forall|j: int| 0 <= j < i ==> clusters[j].placement != clusters[i].placement
        }
}

/// Whether the controller drawing can show every cluster in `area`.
pub fn can_render_controller(area: Rect, clusters: &[ClusterOutline]) -> (drawable: bool)
    ensures
        drawable == controller_drawable(area, clusters@),
{
    if area.width < ART_MIN_WIDTH || area.height < ART_MIN_HEIGHT {
        return false;
    }
    let mut i: usize = 0;
    while i < clusters.len()
        invariant
            i <= clusters@.len(),
            area.width >= ART_MIN_WIDTH,
            area.height >= ART_MIN_HEIGHT,
            forall|k: int|
                0 <= k < i ==> {
                    &&& !unplaced(#[trigger] clusters@[k].placement)
                    &&& fits_controller_art(clusters@[k])
                    &&& forall|j: int| 0 <= j < k ==> clusters@[j].placement != clusters@[k].placement
                },
        decreases clusters@.len() - i,
    {
        let cluster = clusters[i];
        if unplaced_placement(cluster.placement) || !cluster_fits_controller_art(cluster) {
            return false;
        }
        let mut j: usize = 0;
        while j < i
            invariant
                i < clusters@.len(),
                j <= i,
                cluster == clusters@[i as int],
                forall|k: int| 0 <= k < j ==> clusters@[k].placement != cluster.placement,
            decreases i - j,
        {
            if clusters[j].placement == cluster.placement {
                return false;
            }
            j = j + 1;
        }
        i = i + 1;
    }
    true
}

fn unplaced_placement(placement: ClusterPlacement) -> (result: bool)
    ensures
        result == unplaced(placement),
{
    placement == ClusterPlacement::Flow || placement == ClusterPlacement::Extra
}

/// Whether the cluster's controls fit the drawing of its spot on the controller.
fn cluster_fits_controller_art(cluster: ClusterOutline) -> (fits: bool)
    ensures
        fits == fits_controller_art(cluster),
{
    match cluster.placement {
        ClusterPlacement::LeftStick | ClusterPlacement::RightStick => cluster.control_count == 1
            && cluster.first_is_stick,
        ClusterPlacement::DPad | ClusterPlacement::Face => cluster.control_count <= 4,
        _ => true,
    }
}

/// The first of the clusters with the given placement.
pub fn cluster_at(placements: &[ClusterPlacement], placement: ClusterPlacement) -> (found: Option<
    usize,
>)
    ensures
        match found {
            Some(i) => i < placements@.len() && placements@[i as int] == placement && forall|j: int|
                0 <= j < i ==> placements@[j] != placement,
            None => forall|j: int| 0 <= j < placements@.len() ==> placements@[j] != placement,
        },
{
    let mut i: usize = 0;
    while i < placements.len()
        invariant
            i <= placements@.len(),
            forall|j: int| 0 <= j < i ==> placements@[j] != placement,
        decreases placements@.len() - i,
    {
        if placements[i] == placement {
            return Some(i);
        }
        i = i + 1;
    }
    None
}

/// `a - b`, or zero when `b` exceeds `a`.
pub open spec fn saturating_diff(a: int, b: int) -> int {
    if a > b {
        a - b
    } else {
        0
    }
}

/// `value`, or `u16::MAX` when it does not fit in `u16`.
pub open spec fn clamp_to_u16(value: int) -> int {
    if value > u16::MAX {
        u16::MAX as int
    } else {
        value
    }
}

/// `a / b` rounded up.
pub open spec fn ceil_div(a: int, b: int) -> int {
    a / b + if a % b != 0 {
        1int
    } else {
        0int
    }
}

/// How many columns the grid uses: up to three in wide areas, two in medium ones, one
/// otherwise, and never more than there are items.
pub open spec fn grid_columns(width: u16, item_count: int) -> int {
    if width >= 89 {
        if item_count < 3 {
            item_count
        } else {
            3
        }
    } else if width >= 59 {
        if item_count < 2 {
            item_count
        } else {
            2
        }
    } else {
        1
    }
}

/// How many rows the grid uses.
pub open spec fn grid_rows(width: u16, item_count: int) -> int {
    ceil_div(item_count, grid_columns(width, item_count))
}

/// The width of every grid column but the last: the columns share the width left after a
/// one-cell gap between neighbours.
pub open spec fn grid_column_width(area: Rect, item_count: int) -> int {
    let columns = grid_columns(area.width, item_count);
    saturating_diff(area.width as int, columns - 1) / columns
}

/// The height of every grid row but the last, in the same way.
pub open spec fn grid_row_height(area: Rect, item_count: int) -> int {
    let rows = grid_rows(area.width, item_count);
    saturating_diff(area.height as int, rows - 1) / rows
}

/// The cell of item `index` in a grid of `item_count` items over `area`: items fill the rows
/// left to right, and the last column and row reach the area's right and bottom edges.
pub open spec fn grid_cell(area: Rect, item_count: int, index: int) -> Rect {
    let columns = grid_columns(area.width, item_count);
    let rows = grid_rows(area.width, item_count);
    let column_gap: int = if columns > 1 {
        1
    } else {
        0
    };
    let row_gap: int = if rows > 1 {
        1
    } else {
        0
    };
    let column_width = grid_column_width(area, item_count);
    let row_height = grid_row_height(area, item_count);
    let column = index % columns;
    let row = index / columns;
    let x = clamp_to_u16(area.x + clamp_to_u16(column * (column_width + column_gap)));
    let y = clamp_to_u16(area.y + clamp_to_u16(row * (row_height + row_gap)));
    let width = if column == columns - 1 {
        saturating_diff(area.spec_right() as int, x)
    } else {
        clamp_to_u16(column_width)
    };
    let height = if row == rows - 1 {
        saturating_diff(area.spec_bottom() as int, y)
    } else {
        clamp_to_u16(row_height)
    };
    Rect::spec_new(x as u16, y as u16, width as u16, height as u16)
}

fn clamp_usize_to_u16(value: usize) -> (clamped: u16)
    ensures
        clamped == clamp_to_u16(value as int),
{
    if value > 65535 {
        65535
    } else {
        value as u16
    }
}

/// Splits `area` into a grid of `item_count` cells, one per item, in row order.
///
/// There must be at least one item: the row height is the usable height divided by the number
/// of rows, and no items make no rows, in any width.
pub fn grid_areas(area: Rect, item_count: usize) -> (cells: Vec<Rect>)
    requires
        item_count > 0,
    ensures
        cells@.len() == item_count,
        forall|i: int| 0 <= i < item_count ==> cells@[i] == grid_cell(area, item_count as int, i),
{
    let columns: usize = if area.width >= 89 {
        if item_count < 3 {
            item_count
        } else {
            3
        }
    } else if area.width >= 59 {
        if item_count < 2 {
            item_count
        } else {
            2
        }
    } else {
        1
    };
    assert(columns == grid_columns(area.width, item_count as int));
    let rows: usize = if item_count % columns != 0 {
        assert(item_count / columns < item_count) by (nonlinear_arith)
            requires
                columns >= 1,
                item_count % columns != 0,
                item_count >= 1,
        {
        }
        item_count / columns + 1
    } else {
        item_count / columns
    };
    assert(rows == grid_rows(area.width, item_count as int));
    assert(rows >= 1) by (nonlinear_arith)
        requires
            columns >= 1,
            item_count >= 1,
            rows == item_count / columns + if item_count % columns != 0 {
                1int
            } else {
                0int
            },
    {
    }
    let column_gap: usize = if columns > 1 {
        1
    } else {
        0
    };
    let row_gap: usize = if rows > 1 {
        1
    } else {
        0
    };
    let width = area.width as usize;
    let height = area.height as usize;
    let usable_width: usize = if width > columns - 1 {
        width - (columns - 1)
    } else {
        0
    };
    let usable_height: usize = if height > rows - 1 {
        height - (rows - 1)
    } else {
        0
    };
    let column_width = usable_width / columns;
    let row_height = usable_height / rows;
    assert(column_width <= usable_width) by (nonlinear_arith)
        requires
            columns >= 1,
            column_width == usable_width / columns,
    {
    }
    assert(row_height <= usable_height) by (nonlinear_arith)
        requires
            rows >= 1,
            row_height == usable_height / rows,
    {
    }
    let right = area.right();
    let bottom = area.bottom();
    let mut cells: Vec<Rect> = Vec::new();
    let mut index: usize = 0;
    while index < item_count
        invariant
            index <= item_count,
            item_count > 0,
            columns == grid_columns(area.width, item_count as int),
            rows == grid_rows(area.width, item_count as int),
            columns >= 1,
            rows >= 1,
            column_gap == (if columns > 1 {
                1int
            } else {
                0int
            }),
            row_gap == (if rows > 1 {
                1int
            } else {
                0int
            }),
            column_width == grid_column_width(area, item_count as int),
            row_height == grid_row_height(area, item_count as int),
            column_width <= u16::MAX,
            row_height <= u16::MAX,
            right == area.spec_right(),
            bottom == area.spec_bottom(),
            cells@.len() == index,
            forall|i: int| 0 <= i < index ==> cells@[i] == grid_cell(area, item_count as int, i),
        decreases item_count - index,
    {
        let column = index % columns;
        let row = index / columns;
        let x_offset = match column.checked_mul(column_width + column_gap) {
            Some(offset) => clamp_usize_to_u16(offset),
            None => 65535,
        };
        let y_offset = match row.checked_mul(row_height + row_gap) {
            Some(offset) => clamp_usize_to_u16(offset),
            None => 65535,
        };
        let x: u16 = if x_offset > 65535 - area.x {
            65535
        } else {
            area.x + x_offset
        };
        let y: u16 = if y_offset > 65535 - area.y {
            65535
        } else {
            area.y + y_offset
        };
        let cell_width: u16 = if column == columns - 1 {
            if right > x {
                right - x
            } else {
                0
            }
        } else {
            column_width as u16
        };
        let cell_height: u16 = if row == rows - 1 {
            if bottom > y {
                bottom - y
            } else {
                0
            }
        } else {
            row_height as u16
        };
        let cell = Rect::new(x, y, cell_width, cell_height);
        assert(cell == grid_cell(area, item_count as int, index as int));
        cells.push(cell);
        index = index + 1;
    }
    cells
}

/// Every grid cell lies within the columns of the area: it starts at or right of the area's
/// left edge and ends at or left of its right edge.
pub proof fn law_grid_cells_within_area_columns(area: Rect, item_count: int, index: int)
    requires
        area.wf(),
        0 <= index < item_count,
    ensures
        area.x <= grid_cell(area, item_count, index).x,
        grid_cell(area, item_count, index).x + grid_cell(area, item_count, index).width
            <= area.x + area.width,
{
    let columns = grid_columns(area.width, item_count);
    let column = index % columns;
    let column_width = grid_column_width(area, item_count);
    let gap: int = if columns > 1 {
        1
    } else {
        0
    };
    let offset = column * (column_width + gap);
    assert(1 <= columns <= 3);
    assert(0 <= column < columns);
    if columns == 1 {
        assert(column == 0);
        assert(offset == 0) by (nonlinear_arith)
            requires
                column == 0,
                offset == column * (column_width + gap),
        {
        }
    } else if columns == 2 {
        assert(column_width == (area.width - 1) / 2);
        assert(offset <= area.width && (column < 1 ==> offset + column_width <= area.width)) by (
        nonlinear_arith)
            requires
                0 <= column < 2,
                column_width == (area.width - 1) / 2,
                area.width >= 59,
                offset == column * (column_width + 1),
        {
        }
    } else {
        assert(column_width == (area.width - 2) / 3);
        assert(offset <= area.width && (column < 2 ==> offset + column_width <= area.width)) by (
        nonlinear_arith)
            requires
                0 <= column < 3,
                column_width == (area.width - 2) / 3,
                area.width >= 89,
                offset == column * (column_width + 1),
        {
        }
    }
    let cell = grid_cell(area, item_count, index);
    assert(clamp_to_u16(offset) == offset);
    assert(clamp_to_u16(area.x + offset) == area.x + offset);
    assert(cell.x == area.x + offset);
    if column == columns - 1 {
        assert(cell.width == area.x + area.width - cell.x);
    } else {
        assert(cell.width == column_width);
    }
}

/// In an area narrower than 59 cells the grid is a single column: every cell starts at the
/// area's left edge and spans its full width.
pub proof fn law_narrow_grid_is_one_column(area: Rect, item_count: int, index: int)
    requires
        area.wf(),
        area.width < 59,
        0 <= index < item_count,
    ensures
        grid_cell(area, item_count, index).x == area.x,
        grid_cell(area, item_count, index).width == area.width,
{
    let columns = grid_columns(area.width, item_count);
    assert(columns == 1);
    assert(index % columns == 0) by (nonlinear_arith)
        requires
            columns == 1,
    {
    }
    let column_width = grid_column_width(area, item_count);
    assert(0 * (column_width + 0) == 0);
    assert(area.spec_right() == area.x + area.width);
}

/// How many columns `equal_columns` makes of a requested count: counts beyond `u16` fall back
/// to a single column.
pub open spec fn column_count(count: int) -> int {
    if count <= u16::MAX {
        count
    } else {
        1
    }
}

/// The width of every equal column but the last, after a one-cell gap between neighbours.
pub open spec fn equal_column_width(area: Rect, count: int) -> int {
    saturating_diff(area.width as int, clamp_to_u16(count - 1)) / column_count(count)
}

/// Column `index` of `count` equal columns over `area`; the last reaches the right edge.
pub open spec fn equal_column(area: Rect, count: int, index: int) -> Rect {
    let base = equal_column_width(area, count);
    let x = area.x + index * (base + 1);
    let width = if index == column_count(count) - 1 {
        saturating_diff(area.spec_right() as int, x)
    } else {
        base
    };
    Rect::spec_new(x as u16, area.y, width as u16, area.height)
}

/// The column positions of `count` equal columns over `area` fit in `u16`.
pub open spec fn equal_columns_fit(area: Rect, count: int) -> bool {
    let base = equal_column_width(area, count);
    &&& base + 1 <= u16::MAX
    &&& area.x + (column_count(count) - 1) * (base + 1) <= u16::MAX
}

/// Splits `area` into `count` columns of equal width separated by one-cell gaps; the last
/// column takes what is left up to the right edge.
pub fn equal_columns(area: Rect, count: usize) -> (columns: Vec<Rect>)
    requires
        count > 0,
        equal_columns_fit(area, count as int),
    ensures
        columns@.len() == column_count(count as int),
        forall|i: int|
            0 <= i < columns@.len() ==> columns@[i] == equal_column(area, count as int, i),
{
    let gaps: u16 = if count - 1 > 65535 {
        65535
    } else {
        (count - 1) as u16
    };
    let usable_width: u16 = if area.width > gaps {
        area.width - gaps
    } else {
        0
    };
    let count16: u16 = if count > 65535 {
        1
    } else {
        count as u16
    };
    let base_width = usable_width / count16;
    assert(base_width == equal_column_width(area, count as int));
    let right = area.right();
    let mut columns: Vec<Rect> = Vec::new();
    let mut index: u16 = 0;
    while index < count16
        invariant
            index <= count16,
            count16 as int == column_count(count as int),
            count16 >= 1,
            base_width == equal_column_width(area, count as int),
            equal_columns_fit(area, count as int),
            right == area.spec_right(),
            columns@.len() == index,
            forall|i: int| 0 <= i < index ==> columns@[i] == equal_column(area, count as int, i),
        decreases count16 - index,
    {
        assert(index * (base_width + 1) <= (count16 - 1) * (base_width + 1)) by (
        nonlinear_arith)
            requires
                index <= count16 - 1,
                base_width >= 0,
        {
        }
        let x = area.x + index * (base_width + 1);
        let width: u16 = if index == count16 - 1 {
            if right > x {
                right - x
            } else {
                0
            }
        } else {
            base_width
        };
        let column = Rect::new(x, area.y, width, area.height);
        assert(column == equal_column(area, count as int, index as int));
        columns.push(column);
        index = index + 1;
    }
    columns
}

/// The smallest width of the controller-shaped cluster layout.
pub const LAYOUT_MIN_WIDTH: u16 = 44;

/// The smallest height of the controller-shaped cluster layout.
pub const LAYOUT_MIN_HEIGHT: u16 = 21;

/// The height of the shoulder row at the top of the controller-shaped layout.
pub const SHOULDER_ROW_HEIGHT: u16 = 4;

/// Some cluster has no standard spot on a controller.
pub open spec fn any_unplaced(placements: Seq<ClusterPlacement>) -> bool {
    exists|i: int| 0 <= i < placements.len() && unplaced(#[trigger] placements[i])
}

/// The body of the controller: the area below the shoulder row.
pub open spec fn body_area(area: Rect) -> Rect {
    let body_y = area.y + SHOULDER_ROW_HEIGHT;
    Rect::spec_new(
        area.x,
        body_y as u16,
        area.width,
        saturating_diff(area.spec_bottom() as int, body_y) as u16,
    )
}

/// Where a cluster with a standard placement goes: shoulders and menu share the top row in
/// three columns; the sticks, face buttons and d-pad fill two columns below.
pub open spec fn placement_rect(area: Rect, placement: ClusterPlacement) -> Rect {
    let top = area.y;
    let body_y = (area.y + SHOULDER_ROW_HEIGHT) as u16;
    let shoulder = |k: int| equal_column(area, 3, k);
    let body = |k: int| equal_column(body_area(area), 2, k);
    match placement {
        ClusterPlacement::LeftShoulder => Rect::spec_new(
            shoulder(0).x,
            top,
            shoulder(0).width,
            SHOULDER_ROW_HEIGHT,
        ),
        ClusterPlacement::Menu => Rect::spec_new(
            shoulder(1).x,
            top,
            shoulder(1).width,
            SHOULDER_ROW_HEIGHT,
        ),
        ClusterPlacement::RightShoulder => Rect::spec_new(
            shoulder(2).x,
            top,
            shoulder(2).width,
            SHOULDER_ROW_HEIGHT,
        ),
        ClusterPlacement::LeftStick => Rect::spec_new(body(0).x, body_y, body(0).width, 11),
        ClusterPlacement::Face => Rect::spec_new(body(1).x, body_y, body(1).width, 5),
        ClusterPlacement::DPad => Rect::spec_new(
            body(0).x,
            (body_y + 11) as u16,
            body(0).width,
            5,
        ),
        ClusterPlacement::RightStick => Rect::spec_new(
            body(1).x,
            (body_y + 6) as u16,
            body(1).width,
            11,
        ),
        _ => Rect::spec_new(area.x, area.y, 0, 0),
    }
}

/// The rectangle covers no cell.
pub open spec fn rect_empty(rect: Rect) -> bool {
    rect.width == 0 || rect.height == 0
}

/// The controller-shaped layout of the clusters: `None` when the area is too small, when some
/// cluster has no standard spot, or when some cluster's spot would be empty.
pub open spec fn controller_layout(area: Rect, placements: Seq<ClusterPlacement>) -> Option<
    Seq<Rect>,
> {
    if area.width < LAYOUT_MIN_WIDTH || area.height < LAYOUT_MIN_HEIGHT || any_unplaced(
        placements,
    ) {
        None
    } else if exists|i: int|
        0 <= i < placements.len() && rect_empty(placement_rect(area, #[trigger] placements[i])) {
        None
    } else {
        Some(placements.map_values(|placement: ClusterPlacement| placement_rect(area, placement)))
    }
}

/// Lays the clusters, given by their placements, out in the shape of a controller.
///
/// The positions are computed in `u16`, so an area that reaches past the coordinate range is
/// accepted only where the layout gives up before placing anything.
pub fn controller_areas(area: Rect, placements: &[ClusterPlacement]) -> (areas: Option<Vec<Rect>>)
    requires
        area.wf() || area.width < LAYOUT_MIN_WIDTH || area.height < LAYOUT_MIN_HEIGHT
            || any_unplaced(placements@),
    ensures
        match controller_layout(area, placements@) {
            Some(expected) => areas matches Some(found) && found@ == expected,
            None => areas is None,
        },
{
    let mut i: usize = 0;
    while i < placements.len()
        invariant
            i <= placements@.len(),
            forall|k: int| 0 <= k < i ==> !unplaced(#[trigger] placements@[k]),
        decreases placements@.len() - i,
    {
        if unplaced_placement(placements[i]) {
            return None;
        }
        i = i + 1;
    }
    if area.width < LAYOUT_MIN_WIDTH || area.height < LAYOUT_MIN_HEIGHT {
        return None;
    }
    assert(!any_unplaced(placements@));
    assert(equal_columns_fit(area, 3)) by {
        assert(equal_column_width(area, 3) == (area.width - 2) / 3);
    }
    let shoulders = equal_columns(area, 3);
    let body_y = area.y + SHOULDER_ROW_HEIGHT;
    let bottom = area.bottom();
    let body = Rect::new(
        area.x,
        body_y,
        area.width,
        if bottom > body_y {
            bottom - body_y
        } else {
            0
        },
    );
    assert(body == body_area(area));
    assert(equal_columns_fit(body, 2)) by {
        assert(equal_column_width(body, 2) == (area.width - 1) / 2);
    }
    let bodies = equal_columns(body, 2);
    let mut areas: Vec<Rect> = Vec::new();
    let mut j: usize = 0;
    while j < placements.len()
        invariant
            j <= placements@.len(),
            area.wf(),
            area.width >= LAYOUT_MIN_WIDTH,
            area.height >= LAYOUT_MIN_HEIGHT,
            body_y == area.y + SHOULDER_ROW_HEIGHT,
            shoulders@.len() == 3,
            bodies@.len() == 2,
            forall|k: int| 0 <= k < 3 ==> shoulders@[k] == equal_column(area, 3, k),
            forall|k: int| 0 <= k < 2 ==> bodies@[k] == equal_column(body_area(area), 2, k),
            !any_unplaced(placements@),
            areas@.len() == j,
            forall|k: int|
                0 <= k < j ==> areas@[k] == placement_rect(area, #[trigger] placements@[k])
                    && !rect_empty(areas@[k]),
        decreases placements@.len() - j,
    {
        let placement = placements[j];
        assert(!unplaced(placements@[j as int]));
        let rect = match placement {
            ClusterPlacement::LeftShoulder => Rect::new(
                shoulders[0].x,
                area.y,
                shoulders[0].width,
                SHOULDER_ROW_HEIGHT,
            ),
            ClusterPlacement::Menu => Rect::new(
                shoulders[1].x,
                area.y,
                shoulders[1].width,
                SHOULDER_ROW_HEIGHT,
            ),
            ClusterPlacement::RightShoulder => Rect::new(
                shoulders[2].x,
                area.y,
                shoulders[2].width,
                SHOULDER_ROW_HEIGHT,
            ),
            ClusterPlacement::LeftStick => Rect::new(bodies[0].x, body_y, bodies[0].width, 11),
            ClusterPlacement::Face => Rect::new(bodies[1].x, body_y, bodies[1].width, 5),
            ClusterPlacement::DPad => Rect::new(bodies[0].x, body_y + 11, bodies[0].width, 5),
            ClusterPlacement::RightStick => Rect::new(bodies[1].x, body_y + 6, bodies[1].width, 11),
            _ => Rect::new(area.x, area.y, 0, 0),
        };
        assert(rect == placement_rect(area, placement));
        if rect.is_empty() {
            assert(rect_empty(placement_rect(area, placements@[j as int])));
            return None;
        }
        areas.push(rect);
        j = j + 1;
    }
    assert(areas@ == placements@.map_values(
        |placement: ClusterPlacement| placement_rect(area, placement),
    ));
    Some(areas)
}

/// The rectangle lies inside `area`.
pub open spec fn rect_within(rect: Rect, area: Rect) -> bool {
    &&& area.x <= rect.x
    &&& rect.x + rect.width <= area.x + area.width
    &&& area.y <= rect.y
    &&& rect.y + rect.height <= area.y + area.height
}

/// Each of two or three equal columns lies inside its area, when the area is wide enough for
/// the gaps.
proof fn lemma_equal_column_within(area: Rect, count: int, index: int)
    requires
        area.wf(),
        count == 2 || count == 3,
        area.width >= count,
        0 <= index < count,
    ensures
        rect_within(equal_column(area, count, index), area),
{
    let base = equal_column_width(area, count);
    let offset = index * (base + 1);
    if count == 2 {
        assert(base == (area.width - 1) / 2);
        assert(offset <= area.width && (index < 1 ==> offset + base <= area.width)) by (
        nonlinear_arith)
            requires
                0 <= index < 2,
                base == (area.width - 1) / 2,
                area.width >= 2,
                offset == index * (base + 1),
        {
        }
    } else {
        assert(base == (area.width - 2) / 3);
        assert(offset <= area.width && (index < 2 ==> offset + base <= area.width)) by (
        nonlinear_arith)
            requires
                0 <= index < 3,
                base == (area.width - 2) / 3,
                area.width >= 3,
                offset == index * (base + 1),
        {
        }
    }
}

/// The controller-shaped layout never clips a cluster: every spot it hands out lies inside
/// the area.
pub proof fn law_controller_layout_within_area(
    area: Rect,
    placements: Seq<ClusterPlacement>,
    index: int,
)
    requires
        area.wf(),
        controller_layout(area, placements) is Some,
        0 <= index < placements.len(),
    ensures
        rect_within(controller_layout(area, placements)->0[index], area),
{
    let placement = placements[index];
    assert(!unplaced(placement));
    let rect = placement_rect(area, placement);
    assert(controller_layout(area, placements)->0[index] == rect);
    let body = body_area(area);
    assert(body.x == area.x && body.width == area.width);
    assert(body.y == area.y + SHOULDER_ROW_HEIGHT);
    assert(body.height == area.height - SHOULDER_ROW_HEIGHT);
    match placement {
        ClusterPlacement::LeftShoulder => lemma_equal_column_within(area, 3, 0),
        ClusterPlacement::Menu => lemma_equal_column_within(area, 3, 1),
        ClusterPlacement::RightShoulder => lemma_equal_column_within(area, 3, 2),
        ClusterPlacement::LeftStick => lemma_equal_column_within(body, 2, 0),
        ClusterPlacement::DPad => lemma_equal_column_within(body, 2, 0),
        ClusterPlacement::Face => lemma_equal_column_within(body, 2, 1),
        ClusterPlacement::RightStick => lemma_equal_column_within(body, 2, 1),
        _ => {},
    }
}

/// The height of a stick gate in `area` above a footer of `footer_height` rows: what is left
/// below the title row, and at most half the width so that it is round in braille cells.
pub open spec fn gate_height(area: Rect, footer_height: u16) -> int {
    let available = saturating_diff(area.height as int, 1 + footer_height);
    let half_width = area.width as int / 2;
    if available < half_width {
        available
    } else {
        half_width
    }
}

/// Where the stick gate goes: centred horizontally below the title row, twice as wide as it
/// is high; `None` when fewer than two rows are left for it.
pub open spec fn gate_area(area: Rect, footer_height: u16) -> Option<Rect> {
    let height = gate_height(area, footer_height);
    if height < 2 {
        None
    } else {
        let width = height * 2;
        Some(
            Rect::spec_new(
                (area.x + saturating_diff(area.width as int, width) / 2) as u16,
                (area.y + 1) as u16,
                width as u16,
                height as u16,
            ),
        )
    }
}

/// The rectangle of the stick gate inside a gauge of `area` with a footer of `footer_height`
/// rows.
pub fn gate_rect(area: Rect, footer_height: u16) -> (gate: Option<Rect>)
    requires
        footer_height < u16::MAX,
        gate_height(area, footer_height) < 2 || (area.x + saturating_diff(
            area.width as int,
            gate_height(area, footer_height) * 2,
        ) / 2 <= u16::MAX && area.y + 1 <= u16::MAX),
    ensures
        gate == gate_area(area, footer_height),
{
    let reserved = 1 + footer_height;
    let available: u16 = if area.height > reserved {
        area.height - reserved
    } else {
        0
    };
    let half_width = area.width / 2;
    let plot_height = if available < half_width {
        available
    } else {
        half_width
    };
    if plot_height < 2 {
        return None;
    }
    let plot_width = plot_height * 2;
    let spare = if area.width > plot_width {
        area.width - plot_width
    } else {
        0
    };
    Some(Rect::new(area.x + spare / 2, area.y + 1, plot_width, plot_height))
}

/// The stick gate lies inside the area of its gauge.
pub proof fn law_gate_within_area(area: Rect, footer_height: u16)
    requires
        area.wf(),
        footer_height < u16::MAX,
        gate_area(area, footer_height) is Some,
    ensures
        rect_within(gate_area(area, footer_height)->0, area),
{
}

/// The rows a stick gauge reserves below its gate: two for the position when the gauge is at
/// least three rows tall, and one more for a metric.
pub open spec fn gauge_footer_rows(area: Rect, has_metric: bool) -> int {
    (if area.height >= 3 {
        2int
    } else {
        0int
    }) + if has_metric {
        1int
    } else {
        0int
    }
}

/// The number of rows a stick gauge reserves below its gate.
pub fn gauge_footer_height(area: Rect, has_metric: bool) -> (rows: u16)
    ensures
        rows == gauge_footer_rows(area, has_metric),
{
    let position: u16 = if area.height >= 3 {
        2
    } else {
        0
    };
    position + if has_metric {
        1
    } else {
        0
    }
}

/// The footer of a stick gauge: its reserved rows at the bottom of the area, full width;
/// `None` when it reserves none.
pub open spec fn gauge_footer_area(area: Rect, has_metric: bool) -> Option<Rect> {
    let rows = gauge_footer_rows(area, has_metric);
    if rows == 0 {
        None
    } else {
        Some(
            Rect::spec_new(
                area.x,
                saturating_diff(area.spec_bottom() as int, rows) as u16,
                area.width,
                rows as u16,
            ),
        )
    }
}

/// Where a stick gauge writes its position, click and metric.
pub fn gauge_footer(area: Rect, has_metric: bool) -> (footer: Option<Rect>)
    ensures
        footer == gauge_footer_area(area, has_metric),
{
    let rows = gauge_footer_height(area, has_metric);
    if rows == 0 {
        return None;
    }
    let bottom = area.bottom();
    let top = if bottom > rows {
        bottom - rows
    } else {
        0
    };
    Some(Rect::new(area.x, top, area.width, rows))
}

/// The number of blank lines above `line_count` lines that centres them in `height` rows.
pub open spec fn center_padding_of(height: u16, line_count: int) -> int {
    saturating_diff(height as int, line_count) / 2
}

/// How many blank lines centre `line_count` lines vertically in `height` rows.
pub fn center_padding(height: u16, line_count: usize) -> (padding: usize)
    ensures
        padding == center_padding_of(height, line_count as int),
{
    let rows = height as usize;
    if rows > line_count {
        (rows - line_count) / 2
    } else {
        0
    }
}

/// The first `width` characters of a label.
pub fn compact_label(label: &str, width: usize) -> (compact: String)
    ensures
        compact@ == if width < label@.len() {
            label@.take(width as int)
        } else {
            label@
        },
{
    let chars = chars_of(label);
    if width < chars.len() {
        let kept = chars.as_slice().split_at(width).0;
        string_from_chars(kept)
    } else {
        string_from_chars(chars.as_slice())
    }
}

} // verus!
