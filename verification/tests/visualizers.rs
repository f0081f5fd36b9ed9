use domers::visualizers::{
    bar_segment, build_snake_triangles, get_next_triangle, hash_byte, hash_usize, inventory,
    is_bar_border, paintbrush_stamp_frame, push_unique_usize, render_switch, snake_directional,
    snake_triangle_defs, snake_triangles, stage_second_part, SNAKE_TRIANGLE_DEFS, triangle_length, Classification, LiveVisualizer,
    RenderSwitch, move_snake, snake_step, snake_steps, SnakeStep, SNAKE_LENGTH, snake_add_triangle,
    TriangleSeg,
};

fn inventory_counts() -> (usize, usize, usize) {
    let rows = inventory();
    let live = rows
        .iter()
        .filter(|visualizer| visualizer.classification == Classification::Live)
        .count();
    let support = rows
        .iter()
        .filter(|visualizer| visualizer.classification == Classification::Support)
        .count();
    (rows.len(), live, support)
}

#[test]
fn lib_inventory_tracks_used_spectrum_visualizers() {
    let (len, live, support) = inventory_counts();
    assert_eq!(len, 17);
    assert_eq!(live, 11);
    assert_eq!(support, 6);
}

#[test]
fn mod_inventory_tracks_used_spectrum_visualizers() {
    let rows = inventory();
    assert_eq!(rows.len(), 17);
    assert_eq!(
        rows.iter()
            .filter(|visualizer| visualizer.classification == Classification::Live)
            .count(),
        11
    );
    assert_eq!(
        rows.iter()
            .filter(|visualizer| visualizer.classification == Classification::Support)
            .count(),
        6
    );
}

fn check_snakes_connected() {
    let triangles = snake_triangles();
    assert_eq!(triangles.len(), SNAKE_TRIANGLE_DEFS.len());
    let seed = triangles[0];
    assert!(
        seed.left.is_some() || seed.above.is_some() || seed.right.is_some() || seed.below.is_some(),
        "seed triangle must connect to the graph"
    );
    let connected = triangles
        .iter()
        .filter(|t| t.left.is_some() || t.above.is_some() || t.right.is_some() || t.below.is_some())
        .count();
    assert!(
        connected >= triangles.len() - 1,
        "snake graph should be almost fully connected, got {connected}/{}",
        triangles.len()
    );
}

#[test]
fn lib_snakes_move_between_connected_triangles() {
    check_snakes_connected();
}

#[test]
fn mod_snakes_move_between_connected_triangles() {
    check_snakes_connected();
}

#[test]
fn snake_neighbors_stay_in_range() {
    let triangles = build_snake_triangles();
    assert_eq!(triangles.len(), 120);
    for t in &triangles {
        for neighbor in [t.left, t.above, t.right, t.below].into_iter().flatten() {
            assert!(neighbor < triangles.len());
        }
    }
}

#[test]
fn next_triangle_turns_through_directions() {
    let triangles = build_snake_triangles();
    let seed = triangles[0];
    for starting in 0..4i32 {
        let next = get_next_triangle(&triangles, 0, starting);
        let mut expected = None;
        for k in 0..4 {
            let direction = (starting + k) % 4;
            if let Some(n) = snake_directional(&seed, direction) {
                expected = Some(n);
                break;
            }
        }
        assert_eq!(next, expected);
        assert!(next.is_some());
    }
}

#[test]
fn bar_borders_and_segments() {
    assert!(is_bar_border(0, 10, 20));
    assert!(is_bar_border(19, 10, 20));
    assert!(is_bar_border(20, 10, 20));
    assert!(!is_bar_border(5, 10, 20));
    assert_eq!(bar_segment(5, 10, 20), 0);
    assert_eq!(bar_segment(25, 10, 20), 1);
    assert_eq!(bar_segment(35, 10, 20), 2);
    assert_eq!(bar_segment(55, 10, 20), 3);
}

#[test]
fn stage_parts_and_lengths() {
    assert!(!stage_second_part(0));
    assert!(stage_second_part(3));
    assert!(stage_second_part(18));
    assert!(!stage_second_part(15));
    assert_eq!(triangle_length(&[1, 2, 3, 4, 5, 6], 1), 15);
}

#[test]
fn stamp_runs_ninety_frames() {
    assert_eq!(paintbrush_stamp_frame(1_000), None);
    assert_eq!(paintbrush_stamp_frame(1_001), Some(0));
    assert_eq!(paintbrush_stamp_frame(1_090), Some(89));
    assert_eq!(paintbrush_stamp_frame(1_091), None);
}

#[test]
fn push_unique_skips_duplicates() {
    let mut values = vec![1, 2];
    push_unique_usize(&mut values, 2);
    push_unique_usize(&mut values, 3);
    assert_eq!(values, vec![1, 2, 3]);
}

#[test]
fn fnv_hash_matches_reference_value() {
    let mut hash: u64 = 0xcbf2_9ce4_8422_2325;
    hash_byte(&mut hash, b'a');
    assert_eq!(hash, 0xaf63_dc4c_8601_ec8c);

    let mut by_value: u64 = 0xcbf2_9ce4_8422_2325;
    hash_usize(&mut by_value, 0x0102);
    let mut by_bytes: u64 = 0xcbf2_9ce4_8422_2325;
    for byte in 0x0102u64.to_le_bytes() {
        hash_byte(&mut by_bytes, byte);
    }
    assert_eq!(by_value, by_bytes);
}

#[test]
fn render_switch_resets_and_blacks_out() {
    assert_eq!(
        render_switch(None, LiveVisualizer::Volume),
        RenderSwitch { reset: true, blackout: false }
    );
    assert_eq!(
        render_switch(None, LiveVisualizer::Snakes),
        RenderSwitch { reset: true, blackout: true }
    );
    assert_eq!(
        render_switch(Some(LiveVisualizer::Volume), LiveVisualizer::Radial),
        RenderSwitch { reset: true, blackout: true }
    );
    assert_eq!(
        render_switch(Some(LiveVisualizer::Radial), LiveVisualizer::Radial),
        RenderSwitch { reset: false, blackout: false }
    );
}

#[test]
fn triangle_defs_match_table() {
    let defs = snake_triangle_defs();
    assert_eq!(defs.len(), 120);
    assert_eq!(defs[0], (72, 71, 0, true));
    assert_eq!(defs[1], SNAKE_TRIANGLE_DEFS[1]);
    let built = build_snake_triangles();
    let cached = snake_triangles();
    for (a, b) in built.iter().zip(cached.iter()) {
        assert_eq!(a.struts, b.struts);
        assert_eq!(a.left, b.left);
        assert_eq!(a.below, b.below);
    }
}

#[test]
fn snake_takes_free_triangle_or_draws() {
    let snake = vec![0, 1, 2];
    assert_eq!(snake_step(&snake, None, 0), SnakeStep::Draw);
    assert_eq!(snake_step(&snake, Some(5), 3), SnakeStep::Move(5));
    assert_eq!(snake_step(&snake, Some(1), 3), SnakeStep::Draw);
    assert_eq!(snake_step(&snake, Some(1), 11), SnakeStep::Move(0));
    assert_eq!(snake_step(&snake, None, 10), SnakeStep::Draw);
}

#[test]
fn snake_drops_tail_past_its_length() {
    let mut snake: Vec<usize> = (0..=SNAKE_LENGTH).collect();
    assert_eq!(move_snake(&mut snake, 40), Some(0));
    assert_eq!(snake.len(), SNAKE_LENGTH + 1);
    assert_eq!(*snake.last().unwrap(), 40);
    let mut short = vec![3];
    assert_eq!(move_snake(&mut short, 4), None);
    assert_eq!(short, vec![3, 4]);
}

#[test]
fn snake_steps_follow_wall_clock() {
    assert_eq!(snake_steps(None, 1_000), (0, Some(1_000)));
    assert_eq!(snake_steps(Some(1_000), 1_049), (0, Some(1_000)));
    assert_eq!(snake_steps(Some(1_000), 1_120), (2, Some(1_120)));
    assert_eq!(snake_steps(Some(1_000), 9_000), (8, Some(9_000)));
    assert_eq!(snake_steps(Some(1_000), 500), (0, Some(1_000)));
}

#[test]
fn add_triangle_accepts_any_list() {
    // A stored neighbor index outside the list does not stop the search.
    let mut tris = vec![TriangleSeg {
        struts: [5, 6, 7],
        points_up: true,
        left: Some(99),
        above: None,
        right: None,
        below: None,
    }];
    snake_add_triangle(&mut tris, 8, 9, 6, false);
    assert_eq!(tris.len(), 2);
    assert_eq!(tris[1].struts, [8, 9, 6]);
    // Pointing down, it looks above for a triangle whose third strut is 9:
    // there is none, nor a left or right neighbor.
    assert_eq!(tris[1].above, None);
    assert_eq!(tris[0].left, Some(99));
}
