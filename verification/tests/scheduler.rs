use domers::scheduler::{schedule_visualizers, VisualizerSpec};

fn v(name: &'static str, priority: i32) -> VisualizerSpec {
    VisualizerSpec {
        name,
        priority,
        inputs_enabled: true,
    }
}

#[test]
fn priority_zero_is_never_selected() {
    let frame = schedule_visualizers(&[v("dead-midi-test", 0)]);
    assert!(frame.active.is_empty());
}

#[test]
fn priority_two_ties_run_together_for_flash_overlay() {
    let frame = schedule_visualizers(&[v("volume", 2), v("flash", 2), v("tv-static", 1)]);
    assert_eq!(frame.active, vec!["volume", "flash"]);
}

#[test]
fn diagnostics_override_normal_modes() {
    let frame = schedule_visualizers(&[v("volume", 2), v("flash-colors", 1000)]);
    assert_eq!(frame.active, vec!["flash-colors"]);
}

#[test]
fn always_run_priority_is_supported() {
    let frame = schedule_visualizers(&[v("volume", 2), v("future-overlay", -1)]);
    assert_eq!(frame.active, vec!["volume", "future-overlay"]);
}

#[test]
fn disabled_inputs_block_visualizer() {
    let frame = schedule_visualizers(&[
        VisualizerSpec {
            name: "volume",
            priority: 2,
            inputs_enabled: false,
        },
        v("tv-static", 1),
    ]);
    assert_eq!(frame.active, vec!["tv-static"]);
}

#[test]
fn empty_schedule_has_top_priority_one() {
    let frame = schedule_visualizers(&[]);
    assert!(frame.active.is_empty());
    assert_eq!(frame.top_priority, 1);
}

#[test]
fn top_priority_is_reported() {
    let frame = schedule_visualizers(&[v("volume", 2), v("flash-colors", 1000), v("overlay", -1)]);
    assert_eq!(frame.top_priority, 1000);
    assert_eq!(frame.active, vec!["flash-colors", "overlay"]);
}
