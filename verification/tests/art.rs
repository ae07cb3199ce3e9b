use padprobe::art::{controller_art_spots, shell_strokes, Stroke};
use padprobe::layout::Rect;
use std::collections::HashMap;

fn rasterize(strokes: &[Stroke]) -> HashMap<(u16, u16), char> {
    let mut cells = HashMap::new();
    for stroke in strokes {
        for step in 0..stroke.run {
            let cell = if stroke.downward {
                (stroke.x, stroke.y + step)
            } else {
                (stroke.x + step, stroke.y)
            };
            cells.insert(cell, stroke.glyph);
        }
    }
    cells
}

#[test]
fn shell_has_shoulders_body_notch_and_grips() {
    let area = Rect::new(0, 0, 70, 25);
    let cells = rasterize(&shell_strokes(area));

    assert_eq!(cells[&(10, 6)], '╭');
    assert_eq!(cells[&(59, 6)], '╮');
    assert_eq!(cells[&(1, 11)], '│');
    assert_eq!(cells[&(18, 21)], '╭');
    assert_eq!(cells[&(51, 21)], '╮');
    assert_eq!(cells[&(5, 24)], '╰');
    assert_eq!(cells[&(15, 24)], '╯');
    assert_eq!(cells[&(54, 24)], '╰');
    assert_eq!(cells[&(64, 24)], '╯');
}

#[test]
fn shell_stays_inside_a_small_drawing() {
    let area = Rect::new(3, 2, 48, 25);
    let cells = rasterize(&shell_strokes(area));

    assert!(cells
        .keys()
        .all(|(x, y)| (3..51).contains(x) && (2..27).contains(y)));
    assert_eq!(cells[&(4, 13)], '│');
    assert_eq!(cells[&(49, 13)], '│');
}

#[test]
fn art_spots_follow_the_controller_shape() {
    let spots = controller_art_spots(Rect::new(0, 0, 70, 25));

    assert_eq!(spots.art, Rect::new(0, 0, 70, 25));
    assert_eq!(spots.left_shoulder.boxes, Rect::new(13, 0, 9, 6));
    assert_eq!(spots.left_shoulder.row, Rect::new(8, 3, 18, 1));
    assert_eq!(spots.right_shoulder.boxes, Rect::new(48, 0, 9, 6));
    assert_eq!(spots.menu, Rect::new(17, 9, 35, 1));
    assert_eq!(spots.left_stick.gate, Rect::new(13, 10, 8, 4));
    assert_eq!(spots.left_stick.label, Rect::new(12, 14, 10, 1));
    assert_eq!(spots.face, Rect::new(43, 10, 18, 3));
    assert_eq!(spots.dpad, Rect::new(8, 16, 18, 3));
    assert_eq!(spots.right_stick.gate, Rect::new(48, 16, 8, 4));
    assert_eq!(spots.right_stick.label, Rect::new(47, 20, 10, 1));
}

#[test]
fn art_is_centred_in_large_areas() {
    let spots = controller_art_spots(Rect::new(5, 3, 100, 40));

    assert_eq!(spots.art, Rect::new(20, 10, 70, 25));
}
