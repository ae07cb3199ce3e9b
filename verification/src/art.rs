//! The geometry of the controller drawing: where the outline's strokes go and where each
//! cluster is drawn on it.

use vstd::prelude::*;
use crate::layout::{rect_within, saturating_diff, Rect, ART_MIN_HEIGHT};

verus! {

/// The widest the controller drawing gets.
pub const ART_MAX_WIDTH: u16 = 70;

/// The tallest the controller drawing gets.
pub const ART_MAX_HEIGHT: u16 = 25;

/// The narrowest area the controller outline can be drawn in: its grips and the notch between
/// them take this many columns.
pub const SHELL_MIN_WIDTH: u16 = 38;

/// A run of one glyph: `run` cells rightwards from (`x`, `y`), or downwards when `downward`.
#[derive(Debug, Clone, Copy, PartialEq, Eq, Structural)]
pub struct Stroke {
    pub x: u16,
    pub y: u16,
    pub glyph: char,
    pub run: u16,
    pub downward: bool,
}

/// The spots of a stick: its gate and the label row below it.
#[derive(Debug, Clone, Copy, PartialEq, Eq, Structural)]
pub struct StickSpot {
    pub gate: Rect,
    pub label: Rect,
}

/// The spots of a shoulder: the stacked trigger and bumper boxes, and the single row used when
/// the cluster is not exactly a bumper and a trigger.
#[derive(Debug, Clone, Copy, PartialEq, Eq, Structural)]
pub struct ShoulderSpot {
    pub boxes: Rect,
    pub row: Rect,
}

/// Where everything of the controller drawing goes.
#[derive(Debug, Clone, Copy, PartialEq, Eq, Structural)]
pub struct ArtSpots {
    pub art: Rect,
    pub left_shoulder: ShoulderSpot,
    pub right_shoulder: ShoulderSpot,
    pub menu: Rect,
    pub left_stick: StickSpot,
    pub face: Rect,
    pub dpad: Rect,
    pub right_stick: StickSpot,
}

/// A single glyph at (`x`, `y`).
pub open spec fn dot(x: int, y: int, glyph: char) -> Stroke {
    Stroke { x: x as u16, y: y as u16, glyph, run: 1, downward: false }
}

/// A horizontal line of `─` from `start` up to, not including, `end`.
pub open spec fn line(start: int, end: int, y: int) -> Stroke {
    Stroke { x: start as u16, y: y as u16, glyph: '─', run: (end - start) as u16, downward: false }
}

/// The outline of the controller in `art`: shoulders, body, the notch between the grips and
/// the grips, in drawing order.
pub open spec fn shell_strokes_of(art: Rect) -> Seq<Stroke> {
    let left = art.x as int;
    let right = art.x + art.width - 1;
    let top = art.y + 6;
    seq![
        line(left + 11, right - 9, top),
        dot(left + 10, top, '╭'),
        dot(right - 10, top, '╮'),
        line(left + 7, left + 10, top + 1),
        line(right - 9, right - 6, top + 1),
        dot(left + 6, top + 1, '╭'),
        dot(left + 10, top + 1, '╯'),
        dot(right - 10, top + 1, '╰'),
        dot(right - 6, top + 1, '╮'),
        line(left + 4, left + 6, top + 2),
        line(right - 5, right - 3, top + 2),
        dot(left + 3, top + 2, '╭'),
        dot(left + 6, top + 2, '╯'),
        dot(right - 6, top + 2, '╰'),
        dot(right - 3, top + 2, '╮'),
        dot(left + 2, top + 3, '╱'),
        dot(right - 2, top + 3, '╲'),
        dot(left + 1, top + 4, '╱'),
        dot(right - 1, top + 4, '╲'),
        Stroke { x: (left + 1) as u16, y: (top + 5) as u16, glyph: '│', run: 9, downward: true },
        Stroke { x: (right - 1) as u16, y: (top + 5) as u16, glyph: '│', run: 9, downward: true },
        dot(left + 1, top + 14, '╲'),
        dot(right - 1, top + 14, '╱'),
        dot(left + 2, top + 15, '╲'),
        dot(right - 2, top + 15, '╱'),
        line(left + 19, right - 18, top + 15),
        dot(left + 18, top + 15, '╭'),
        dot(right - 18, top + 15, '╮'),
        dot(left + 3, top + 16, '╲'),
        dot(left + 17, top + 16, '╱'),
        dot(right - 17, top + 16, '╲'),
        dot(right - 3, top + 16, '╱'),
        dot(left + 4, top + 17, '╲'),
        dot(left + 16, top + 17, '╱'),
        dot(right - 16, top + 17, '╲'),
        dot(right - 4, top + 17, '╱'),
        dot(left + 5, top + 18, '╰'),
        dot(left + 15, top + 18, '╯'),
        dot(right - 15, top + 18, '╰'),
        dot(right - 5, top + 18, '╯'),
        line(left + 6, left + 15, top + 18),
        line(right - 14, right - 5, top + 18),
    ]
}

/// The area is large enough for the outline and lies within the coordinate range.
pub open spec fn art_fits(area: Rect) -> bool {
    &&& area.wf()
    &&& area.width >= SHELL_MIN_WIDTH
    &&& area.height >= ART_MIN_HEIGHT
}

/// Every cell of the stroke lies inside `area`.
pub open spec fn stroke_within(stroke: Stroke, area: Rect) -> bool {
    &&& area.x <= stroke.x < area.x + area.width
    &&& area.y <= stroke.y < area.y + area.height
    &&& stroke.downward ==> stroke.y + stroke.run <= area.y + area.height
    &&& !stroke.downward ==> stroke.x + stroke.run <= area.x + area.width
}

fn dot_at(x: u16, y: u16, glyph: char) -> (stroke: Stroke)
    ensures
        stroke == dot(x as int, y as int, glyph),
{
    Stroke { x, y, glyph, run: 1, downward: false }
}

fn line_from(start: u16, end: u16, y: u16) -> (stroke: Stroke)
    requires
        start <= end,
    ensures
        stroke == line(start as int, end as int, y as int),
{
    Stroke { x: start, y, glyph: '─', run: end - start, downward: false }
}

/// The strokes of the controller outline in `art`, in drawing order.
pub fn shell_strokes(art: Rect) -> (strokes: Vec<Stroke>)
    requires
        art_fits(art),
    ensures
        strokes@ == shell_strokes_of(art),
{
    let left = art.x;
    let right = art.x + art.width - 1;
    let top = art.y + 6;
    let strokes = vec![
        line_from(left + 11, right - 9, top),
        dot_at(left + 10, top, '╭'),
        dot_at(right - 10, top, '╮'),
        line_from(left + 7, left + 10, top + 1),
        line_from(right - 9, right - 6, top + 1),
        dot_at(left + 6, top + 1, '╭'),
        dot_at(left + 10, top + 1, '╯'),
        dot_at(right - 10, top + 1, '╰'),
        dot_at(right - 6, top + 1, '╮'),
        line_from(left + 4, left + 6, top + 2),
        line_from(right - 5, right - 3, top + 2),
        dot_at(left + 3, top + 2, '╭'),
        dot_at(left + 6, top + 2, '╯'),
        dot_at(right - 6, top + 2, '╰'),
        dot_at(right - 3, top + 2, '╮'),
        dot_at(left + 2, top + 3, '╱'),
        dot_at(right - 2, top + 3, '╲'),
        dot_at(left + 1, top + 4, '╱'),
        dot_at(right - 1, top + 4, '╲'),
        Stroke { x: left + 1, y: top + 5, glyph: '│', run: 9, downward: true },
        Stroke { x: right - 1, y: top + 5, glyph: '│', run: 9, downward: true },
        dot_at(left + 1, top + 14, '╲'),
        dot_at(right - 1, top + 14, '╱'),
        dot_at(left + 2, top + 15, '╲'),
        dot_at(right - 2, top + 15, '╱'),
        line_from(left + 19, right - 18, top + 15),
        dot_at(left + 18, top + 15, '╭'),
        dot_at(right - 18, top + 15, '╮'),
        dot_at(left + 3, top + 16, '╲'),
        dot_at(left + 17, top + 16, '╱'),
        dot_at(right - 17, top + 16, '╲'),
        dot_at(right - 3, top + 16, '╱'),
        dot_at(left + 4, top + 17, '╲'),
        dot_at(left + 16, top + 17, '╱'),
        dot_at(right - 16, top + 17, '╲'),
        dot_at(right - 4, top + 17, '╱'),
        dot_at(left + 5, top + 18, '╰'),
        dot_at(left + 15, top + 18, '╯'),
        dot_at(right - 15, top + 18, '╰'),
        dot_at(right - 5, top + 18, '╯'),
        line_from(left + 6, left + 15, top + 18),
        line_from(right - 14, right - 5, top + 18),
    ];
    assert(strokes@ =~= shell_strokes_of(art));
    strokes
}

/// The outline never leaves the drawing's area.
pub proof fn law_shell_within_art(art: Rect, index: int)
    requires
        art_fits(art),
        0 <= index < shell_strokes_of(art).len(),
    ensures
        stroke_within(shell_strokes_of(art)[index], art),
{
}

/// The drawing's area: at most 70 by 25 cells, centred in `area`.
pub open spec fn art_area(area: Rect) -> Rect {
    let width = if area.width < ART_MAX_WIDTH {
        area.width
    } else {
        ART_MAX_WIDTH
    };
    let height = if area.height < ART_MAX_HEIGHT {
        area.height
    } else {
        ART_MAX_HEIGHT
    };
    Rect::spec_new(
        (area.x + (area.width - width) / 2) as u16,
        (area.y + (area.height - height) / 2) as u16,
        width,
        height,
    )
}

/// The spots of a shoulder drawn around column `center` from row `y`.
pub open spec fn shoulder_spot(center: int, y: int) -> ShoulderSpot {
    ShoulderSpot {
        boxes: Rect::spec_new(saturating_diff(center, 4) as u16, y as u16, 9, 6),
        row: Rect::spec_new(saturating_diff(center, 9) as u16, (y + 3) as u16, 18, 1),
    }
}

/// The spots of a stick drawn around column `center` from row `y`.
pub open spec fn stick_spot(center: int, y: int) -> StickSpot {
    StickSpot {
        gate: Rect::spec_new(saturating_diff(center, 4) as u16, y as u16, 8, 4),
        label: Rect::spec_new(saturating_diff(center, 5) as u16, (y + 4) as u16, 10, 1),
    }
}

/// Where everything of the controller drawing goes in `area`: the shoulders over the quarter
/// columns of the drawing, the menu row between them, the left stick above the d-pad on the
/// left and the face buttons above the right stick on the right.
pub open spec fn art_spots_of(area: Rect) -> ArtSpots {
    let art = art_area(area);
    let left_center = art.x + art.width / 4;
    let right_center = art.x + art.width * 3 / 4;
    ArtSpots {
        art,
        left_shoulder: shoulder_spot(left_center, art.y as int),
        right_shoulder: shoulder_spot(right_center, art.y as int),
        menu: Rect::spec_new(
            (art.x + art.width / 4) as u16,
            (art.y + 9) as u16,
            (art.width / 2) as u16,
            1,
        ),
        left_stick: stick_spot(left_center, art.y + 10),
        face: Rect::spec_new(saturating_diff(right_center, 9) as u16, (art.y + 10) as u16, 18, 3),
        dpad: Rect::spec_new(saturating_diff(left_center, 9) as u16, (art.y + 16) as u16, 18, 3),
        right_stick: stick_spot(right_center, art.y + 16),
    }
}

fn shoulder_at(center: u16, y: u16) -> (spot: ShoulderSpot)
    requires
        y + 4 <= u16::MAX,
    ensures
        spot == shoulder_spot(center as int, y as int),
{
    ShoulderSpot {
        boxes: Rect::new(if center > 4 { center - 4 } else { 0 }, y, 9, 6),
        row: Rect::new(if center > 9 { center - 9 } else { 0 }, y + 3, 18, 1),
    }
}

fn stick_at(center: u16, y: u16) -> (spot: StickSpot)
    requires
        y + 4 <= u16::MAX,
    ensures
        spot == stick_spot(center as int, y as int),
{
    StickSpot {
        gate: Rect::new(if center > 4 { center - 4 } else { 0 }, y, 8, 4),
        label: Rect::new(if center > 5 { center - 5 } else { 0 }, y + 4, 10, 1),
    }
}

/// Where everything of the controller drawing goes in `area`.
pub fn controller_art_spots(area: Rect) -> (spots: ArtSpots)
    requires
        art_fits(area),
    ensures
        spots == art_spots_of(area),
{
    let width = if area.width < ART_MAX_WIDTH {
        area.width
    } else {
        ART_MAX_WIDTH
    };
    let height = if area.height < ART_MAX_HEIGHT {
        area.height
    } else {
        ART_MAX_HEIGHT
    };
    let art = Rect::new(
        area.x + (area.width - width) / 2,
        area.y + (area.height - height) / 2,
        width,
        height,
    );
    assert(art == art_area(area));
    let left_center = art.x + art.width / 4;
    let right_center = art.x + art.width * 3 / 4;
    let face_x = if right_center > 9 { right_center - 9 } else { 0 };
    let dpad_x = if left_center > 9 { left_center - 9 } else { 0 };
    ArtSpots {
        art,
        left_shoulder: shoulder_at(left_center, art.y),
        right_shoulder: shoulder_at(right_center, art.y),
        menu: Rect::new(art.x + art.width / 4, art.y + 9, art.width / 2, 1),
        left_stick: stick_at(left_center, art.y + 10),
        face: Rect::new(face_x, art.y + 10, 18, 3),
        dpad: Rect::new(dpad_x, art.y + 16, 18, 3),
        right_stick: stick_at(right_center, art.y + 16),
    }
}

/// The drawing stays inside the area, and every spot on it stays inside the drawing.
pub proof fn law_art_spots_within(area: Rect)
    requires
        art_fits(area),
    ensures
        ({
            let spots = art_spots_of(area);
            &&& rect_within(spots.art, area)
            &&& art_fits(spots.art)
            &&& rect_within(spots.left_shoulder.boxes, spots.art)
            &&& rect_within(spots.left_shoulder.row, spots.art)
            &&& rect_within(spots.right_shoulder.boxes, spots.art)
            &&& rect_within(spots.right_shoulder.row, spots.art)
            &&& rect_within(spots.menu, spots.art)
            &&& rect_within(spots.left_stick.gate, spots.art)
            &&& rect_within(spots.left_stick.label, spots.art)
            &&& rect_within(spots.face, spots.art)
            &&& rect_within(spots.dpad, spots.art)
            &&& rect_within(spots.right_stick.gate, spots.art)
            &&& rect_within(spots.right_stick.label, spots.art)
        }),
{
    let art = art_area(area);
    assert(art.width * 3 / 4 + 9 <= art.width) by (nonlinear_arith)
        requires
            art.width >= 38,
    {
    }
    assert(art.width / 4 >= 9) by (nonlinear_arith)
        requires
            art.width >= 38,
    {
    }
}

} // verus!
