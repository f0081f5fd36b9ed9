use domers::flash::{
    flash_layout_struts, flash_shapes, FlashRuntime, FlashTiming, FIRST_FLASH_POINT, FLASH_PADS,
    FLASH_SHAPE_COUNT,
};
use domers::volume::concentric_layout_from_point;

#[test]
fn flash_timing_spans_a_quarter_measure() {
    let t = FlashTiming::new(3, 2000, 1000);
    assert_eq!(t.pad, 3);
    assert_eq!(t.animation_length, 500);
    assert_eq!(t.starting_time, 1000);
    assert_eq!(t.peak_time, 1400);
    assert_eq!(t.end_time, 1500);
    assert!(!t.released);
}

#[test]
fn flash_held_stays_active_until_released() {
    let t = FlashTiming::new(0, 2000, 0);
    assert!(t.active(10_000, true));
    assert!(!t.active(10, false));
}

#[test]
fn flash_release_after_peak_fades_a_fifth() {
    let mut t = FlashTiming::new(0, 2000, 0);
    t.release(450);
    assert!(t.released);
    assert_eq!(t.end_time, 550);
    assert!(t.active(549, true));
    assert!(!t.active(550, true));
}

#[test]
fn flash_release_before_peak_keeps_end() {
    let mut t = FlashTiming::new(0, 2000, 0);
    t.release(100);
    assert!(t.released);
    assert_eq!(t.end_time, 500);
}

#[test]
fn flash_second_release_changes_nothing() {
    let mut t = FlashTiming::new(0, 2000, 0);
    t.release(100);
    let once = t;
    t.release(450);
    assert_eq!(t, once);
}

#[test]
fn flash_shapes_grow_from_each_upper_joint() {
    let shapes = flash_shapes();
    assert_eq!(shapes.len(), FLASH_SHAPE_COUNT);
    let first = concentric_layout_from_point(FIRST_FLASH_POINT, 2);
    assert_eq!(shapes[0].struts, flash_layout_struts(&first));
    assert!(!shapes[0].struts.is_empty());
    let last = concentric_layout_from_point(FIRST_FLASH_POINT + FLASH_SHAPE_COUNT - 1, 2);
    assert_eq!(shapes[FLASH_SHAPE_COUNT - 1].struts, flash_layout_struts(&last));
}

#[test]
fn flash_layout_struts_are_distinct() {
    let layout = concentric_layout_from_point(30, 2);
    let struts = flash_layout_struts(&layout);
    for (i, a) in struts.iter().enumerate() {
        for b in struts.iter().skip(i + 1) {
            assert_ne!(a, b);
        }
    }
    let total: usize = layout.segments.iter().map(|s| s.struts.len()).sum();
    assert!(struts.len() <= total);
}

#[test]
fn flash_runtime_starts_idle() {
    let flash = FlashRuntime::new();
    assert_eq!(flash.shapes.len(), FLASH_SHAPE_COUNT);
    assert_eq!(flash.available_shapes(), (0..FLASH_SHAPE_COUNT).collect::<Vec<_>>());
    assert_eq!(flash.pads_to_last_animation, vec![None; FLASH_PADS]);
    assert_eq!(flash.last_user_animation_created, 0);
}

#[test]
fn flash_runtime_press_hold_release_expire() {
    let mut flash = FlashRuntime::new();
    assert!(flash.begin_note(3, true, 1000));
    flash.start(3, 10, Some(2000), 1000);
    assert_eq!(flash.pads_to_last_animation[3], Some(10));
    assert_eq!(flash.last_user_animation_created, 1000);
    let available = flash.available_shapes();
    assert_eq!(available.len(), FLASH_SHAPE_COUNT - 1);
    assert!(!available.contains(&10));
    assert_eq!(flash.animations[10], Some(FlashTiming::new(3, 2000, 1000)));

    // Held: still shows long after its nominal end.
    assert!(flash.expire(9000).is_empty());

    // Note off releases it after the peak: it ends a fifth later.
    assert!(!flash.begin_note(3, false, 1450));
    let released = flash.animations[10].unwrap();
    assert!(released.released);
    assert_eq!(released.end_time, 1550);
    assert!(flash.expire(1549).is_empty());
    assert_eq!(flash.expire(1550), vec![10]);
    assert_eq!(flash.animations[10], None);
    assert_eq!(flash.pads_to_last_animation[3], None);
    assert_eq!(flash.available_shapes().len(), FLASH_SHAPE_COUNT);
}

#[test]
fn flash_runtime_repress_moves_pad_link() {
    let mut flash = FlashRuntime::new();
    flash.start(5, 0, None, 0);
    // Default measure of 400 ms: a 100 ms animation.
    assert_eq!(flash.animations[0].unwrap().end_time, 100);
    assert!(flash.begin_note(5, true, 50));
    flash.start(5, 1, None, 50);
    assert_eq!(flash.pads_to_last_animation[5], Some(1));
    // The first animation was released before its peak (80 ms): it keeps
    // its end; expiring it leaves the pad linked to the second.
    assert!(flash.animations[0].unwrap().released);
    assert_eq!(flash.expire(100), vec![0]);
    assert_eq!(flash.pads_to_last_animation[5], Some(1));
}

#[test]
fn flash_runtime_ignores_high_notes_and_starts_on_unlinked_note_off() {
    let mut flash = FlashRuntime::new();
    assert!(!flash.begin_note(16, true, 0));
    assert!(flash.begin_note(2, false, 0));
}
