use padprobe::layout::{gauge_footer, gauge_footer_height};
use padprobe::layout::{
    can_render_controller, center_padding, cluster_at, compact_label, controller_areas,
    equal_columns, gate_rect, grid_areas, ClusterOutline, ClusterPlacement, GamepadLayout, Rect,
};

fn outline(placement: ClusterPlacement) -> ClusterOutline {
    ClusterOutline {
        placement,
        control_count: 0,
        first_is_stick: false,
    }
}

#[test]
fn widget_grid_adapts_column_count_to_width() {
    let narrow = grid_areas(Rect::new(0, 0, 30, 30), 6);
    let medium = grid_areas(Rect::new(0, 0, 60, 15), 6);
    let wide = grid_areas(Rect::new(0, 0, 90, 10), 6);

    assert_eq!(narrow[1].x, narrow[0].x);
    assert!(medium[1].x > medium[0].x);
    assert!(wide[2].x > wide[1].x);
}

#[test]
fn layout_grid_adapts_column_count_to_width() {
    let narrow = grid_areas(Rect::new(0, 0, 30, 30), 6);
    let medium = grid_areas(Rect::new(0, 0, 60, 15), 6);
    let wide = grid_areas(Rect::new(0, 0, 90, 10), 6);

    assert_eq!(narrow[1].x, narrow[0].x);
    assert!(medium[1].x > medium[0].x);
    assert!(wide[2].x > wide[1].x);
}

#[test]
fn grid_cells_have_exact_positions() {
    let cells = grid_areas(Rect::new(2, 1, 90, 10), 6);

    assert_eq!(cells.len(), 6);
    assert_eq!(cells[0], Rect::new(2, 1, 29, 4));
    assert_eq!(cells[1], Rect::new(32, 1, 29, 4));
    assert_eq!(cells[2], Rect::new(62, 1, 30, 4));
    assert_eq!(cells[3], Rect::new(2, 6, 29, 5));
    assert_eq!(cells[5], Rect::new(62, 6, 30, 5));
}

#[test]
fn narrow_grid_stacks_full_width_rows() {
    let cells = grid_areas(Rect::new(5, 0, 40, 9), 3);

    assert!(cells.iter().all(|cell| cell.x == 5 && cell.width == 40));
    assert_eq!(cells[0].y, 0);
    assert_eq!(cells[1].y, 3);
    assert_eq!(cells[2], Rect::new(5, 6, 40, 3));
}

#[test]
fn grid_never_uses_more_columns_than_items() {
    let cells = grid_areas(Rect::new(0, 0, 100, 10), 1);

    assert_eq!(cells, vec![Rect::new(0, 0, 100, 10)]);
}

#[test]
fn grid_cells_stay_within_the_area_columns() {
    for width in [30u16, 59, 60, 88, 89, 120] {
        let area = Rect::new(7, 3, width, 20);
        for count in 1..8 {
            for cell in grid_areas(area, count) {
                assert!(cell.x >= area.x);
                assert!(cell.x + cell.width <= area.x + area.width);
            }
        }
    }
}

#[test]
fn layout_semantic_layout_falls_back_in_small_areas() {
    let clusters = [outline(ClusterPlacement::LeftStick)];

    assert!(!can_render_controller(Rect::new(0, 0, 60, 12), &clusters));
}

#[test]
fn semantic_layout_accepts_standard_placements() {
    let clusters = [outline(ClusterPlacement::Menu)];

    assert!(can_render_controller(Rect::new(0, 0, 100, 25), &clusters));
}

#[test]
fn layout_semantic_layout_does_not_clip_extra_cluster() {
    let clusters = [
        outline(ClusterPlacement::LeftStick),
        outline(ClusterPlacement::Extra),
    ];

    assert!(!can_render_controller(Rect::new(0, 0, 100, 25), &clusters));
}

#[test]
fn semantic_layout_does_not_hide_duplicate_placements() {
    let clusters = [
        outline(ClusterPlacement::LeftStick),
        outline(ClusterPlacement::LeftStick),
    ];

    assert!(!can_render_controller(Rect::new(0, 0, 100, 25), &clusters));
}

#[test]
fn semantic_layout_does_not_hide_malformed_stick_cluster() {
    let clusters = [ClusterOutline {
        placement: ClusterPlacement::LeftStick,
        control_count: 1,
        first_is_stick: false,
    }];

    assert!(!can_render_controller(Rect::new(0, 0, 100, 25), &clusters));
}

#[test]
fn controller_art_accepts_one_stick_per_stick_spot_and_small_diamonds() {
    let clusters = [
        ClusterOutline {
            placement: ClusterPlacement::LeftStick,
            control_count: 1,
            first_is_stick: true,
        },
        ClusterOutline {
            placement: ClusterPlacement::Face,
            control_count: 4,
            first_is_stick: false,
        },
    ];
    let crowded = [ClusterOutline {
        placement: ClusterPlacement::DPad,
        control_count: 5,
        first_is_stick: false,
    }];

    assert!(can_render_controller(Rect::new(0, 0, 48, 25), &clusters));
    assert!(!can_render_controller(Rect::new(0, 0, 47, 25), &clusters));
    assert!(!can_render_controller(Rect::new(0, 0, 48, 24), &clusters));
    assert!(!can_render_controller(Rect::new(0, 0, 100, 25), &crowded));
}

#[test]
fn semantic_layout_matches_controller_geometry() {
    let placements = [
        ClusterPlacement::LeftStick,
        ClusterPlacement::DPad,
        ClusterPlacement::RightStick,
        ClusterPlacement::Face,
    ];

    let areas = controller_areas(Rect::new(0, 0, 100, 21), &placements)
        .expect("wide area should use controller layout");

    assert_eq!(areas[0].x, areas[1].x);
    assert!(areas[0].x < areas[2].x);
    assert_eq!(areas[2].x, areas[3].x);
    assert!(areas[0].y < areas[1].y);
    assert!(areas[3].y < areas[2].y);
}

#[test]
fn widget_semantic_layout_falls_back_in_small_areas() {
    let placements = [ClusterPlacement::LeftStick];

    assert!(controller_areas(Rect::new(0, 0, 60, 12), &placements).is_none());
}

#[test]
fn semantic_layout_reserves_space_for_menu_controls() {
    let placements = [ClusterPlacement::Menu];

    let areas = controller_areas(Rect::new(0, 0, 100, 21), &placements)
        .expect("standard area should use controller layout");

    assert_eq!(areas[0].height, 4);
}

#[test]
fn widget_semantic_layout_does_not_clip_extra_cluster() {
    let placements = [ClusterPlacement::LeftStick, ClusterPlacement::Extra];

    assert!(controller_areas(Rect::new(0, 0, 100, 22), &placements).is_none());
}

#[test]
fn controller_layout_has_exact_spots() {
    let placements = [
        ClusterPlacement::LeftShoulder,
        ClusterPlacement::Menu,
        ClusterPlacement::RightShoulder,
        ClusterPlacement::LeftStick,
        ClusterPlacement::Face,
        ClusterPlacement::DPad,
        ClusterPlacement::RightStick,
    ];

    let areas = controller_areas(Rect::new(0, 0, 44, 21), &placements).expect("fits");

    assert_eq!(areas[0], Rect::new(0, 0, 14, 4));
    assert_eq!(areas[1], Rect::new(15, 0, 14, 4));
    assert_eq!(areas[2], Rect::new(30, 0, 14, 4));
    assert_eq!(areas[3], Rect::new(0, 4, 21, 11));
    assert_eq!(areas[4], Rect::new(22, 4, 22, 5));
    assert_eq!(areas[5], Rect::new(0, 15, 21, 5));
    assert_eq!(areas[6], Rect::new(22, 10, 22, 11));
}

#[test]
fn controller_layout_needs_the_minimum_size() {
    let placements = [ClusterPlacement::Menu];

    assert!(controller_areas(Rect::new(0, 0, 43, 21), &placements).is_none());
    assert!(controller_areas(Rect::new(0, 0, 44, 20), &placements).is_none());
    assert!(controller_areas(Rect::new(0, 0, 44, 21), &placements).is_some());
    assert!(controller_areas(Rect::new(0, 0, 44, 21), &[ClusterPlacement::Flow]).is_none());
}

#[test]
fn equal_columns_share_the_width_with_gaps() {
    let columns = equal_columns(Rect::new(10, 2, 44, 7), 3);

    assert_eq!(
        columns,
        vec![
            Rect::new(10, 2, 14, 7),
            Rect::new(25, 2, 14, 7),
            Rect::new(40, 2, 14, 7),
        ]
    );
    assert_eq!(
        equal_columns(Rect::new(0, 0, 9, 1), 2),
        vec![Rect::new(0, 0, 4, 1), Rect::new(5, 0, 4, 1)]
    );
}

#[test]
fn gate_is_centered_and_twice_as_wide_as_high() {
    assert_eq!(gate_rect(Rect::new(0, 0, 18, 11), 3), Some(Rect::new(2, 1, 14, 7)));
    assert_eq!(gate_rect(Rect::new(4, 2, 20, 12), 0), Some(Rect::new(4, 3, 20, 10)));
    assert_eq!(gate_rect(Rect::new(0, 0, 30, 8), 2), Some(Rect::new(10, 1, 10, 5)));
}

#[test]
fn gate_needs_two_rows() {
    assert_eq!(gate_rect(Rect::new(0, 0, 18, 4), 2), None);
    assert_eq!(gate_rect(Rect::new(0, 0, 3, 20), 0), None);
}

#[test]
fn tests_compact_controls_are_centered_in_tall_clusters() {
    let line_count = 3;
    let padding = center_padding(9, line_count);

    assert_eq!(padding + line_count, 6);
    assert_eq!(padding, 3);
    assert_eq!(center_padding(2, 5), 0);
}

#[test]
fn cluster_lookup_finds_the_first_match() {
    let placements = [
        ClusterPlacement::Menu,
        ClusterPlacement::Face,
        ClusterPlacement::Face,
    ];

    assert_eq!(cluster_at(&placements, ClusterPlacement::Face), Some(1));
    assert_eq!(cluster_at(&placements, ClusterPlacement::DPad), None);
}

#[test]
fn compact_labels_keep_leading_characters() {
    assert_eq!(compact_label("Right shoulder", 5), "Right");
    assert_eq!(compact_label("LB", 5), "LB");
    assert_eq!(compact_label("Menü", 3), "Men");
}

#[test]
fn rect_edges_saturate_and_new_clamps() {
    let rect = Rect::new(65_530, 10, 20, 5);

    assert_eq!(rect.width, 5);
    assert_eq!(rect.right(), 65_535);
    assert_eq!(rect.bottom(), 15);
    assert!(Rect::new(0, 0, 0, 3).is_empty());
    assert!(!Rect::new(0, 0, 1, 1).is_empty());
}

#[test]
fn defaults_follow_the_widget() {
    assert_eq!(ClusterPlacement::default(), ClusterPlacement::Flow);
    assert_eq!(GamepadLayout::default(), GamepadLayout::Auto);
}

#[test]
fn gauge_footer_reserves_rows_at_the_bottom() {
    let area = Rect::new(2, 1, 18, 11);
    assert_eq!(gauge_footer_height(area, false), 2);
    assert_eq!(gauge_footer_height(area, true), 3);
    assert_eq!(gauge_footer(area, false), Some(Rect::new(2, 10, 18, 2)));
    assert_eq!(gauge_footer(area, true), Some(Rect::new(2, 9, 18, 3)));

    let flat = Rect::new(0, 0, 10, 2);
    assert_eq!(gauge_footer(flat, false), None);
    assert_eq!(gauge_footer(flat, true), Some(Rect::new(0, 1, 10, 1)));
}
